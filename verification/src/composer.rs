//! The composer owns the ordered collection of runners, sets each one up,
//! starts each on its own thread, fans the termination signal out to every
//! runner's shutdown bridge, and joins every thread before the process exits.
//! The threads themselves live in the unverified shell; this module holds and
//! proves the decisions: whether a launch may proceed, and what the joined
//! results amount to.

use vstd::prelude::*;

verus! {

/// What the composer does after running every runner's `setup` in order.
pub enum LaunchDecision {
    /// Some setup failed: the whole launch is abandoned and the failing
    /// runner is reported. No thread is spawned, no listener registered.
    Abort { failed_runner: usize },
    /// Every setup succeeded: one worker thread is spawned per runner, and
    /// one signal listener is registered per runner, so that each receives
    /// the same broadcast signal.
    Start { threads_to_spawn: usize, listeners_to_register: usize },
}

/// Decides a launch from the runners' setup results, in runner order: the
/// first failure aborts the launch and names its runner; otherwise every
/// runner gets a thread and a signal listener.
pub fn launch_decision<E>(setups: &Vec<Result<(), E>>) -> (d: LaunchDecision)
    ensures
        match d {
            LaunchDecision::Abort { failed_runner } => {
                &&& failed_runner < setups@.len()
                &&& setups@[failed_runner as int] is Err
                &&& forall|j: int| 0 <= j < failed_runner ==> (#[trigger] setups@[j]) is Ok
            },
            LaunchDecision::Start { threads_to_spawn, listeners_to_register } => {
                &&& threads_to_spawn == setups@.len()
                &&& listeners_to_register == setups@.len()
                &&& forall|j: int| 0 <= j < setups@.len() ==> (#[trigger] setups@[j]) is Ok
            },
        },
{
    let mut i: usize = 0;
    while i < setups.len()
        invariant
            i <= setups@.len(),
            forall|j: int| 0 <= j < i ==> (#[trigger] setups@[j]) is Ok,
        decreases setups@.len() - i,
    {
        if setups[i].is_err() {
            return LaunchDecision::Abort { failed_runner: i };
        }
        i = i + 1;
    }
    LaunchDecision::Start {
        threads_to_spawn: setups.len(),
        listeners_to_register: setups.len(),
    }
}

/// The value of joining every runner in start order: success only if all
/// succeeded, else the error of the first runner that failed.
pub open spec fn spec_first_error<E>(results: Seq<Result<(), E>>) -> Result<(), E>
    decreases results.len(),
{
    if results.len() == 0 {
        Ok(())
    } else if results[0] is Err {
        results[0]
    } else {
        spec_first_error(results.drop_first())
    }
}

/// The first error is the error at the first failing position.
pub proof fn lemma_first_error_at<E>(results: Seq<Result<(), E>>, k: int)
    requires
        0 <= k < results.len(),
        results[k] is Err,
        forall|j: int| 0 <= j < k ==> (#[trigger] results[j]) is Ok,
    ensures
        spec_first_error(results) == results[k],
    decreases k,
{
    if k > 0 {
        assert(results[0] is Ok);
        assert(results.drop_first()[k - 1] == results[k]);
        assert forall|j: int| 0 <= j < k - 1 implies (#[trigger] results.drop_first()[j]) is Ok by {
            assert(results.drop_first()[j] == results[j + 1]);
        }
        lemma_first_error_at(results.drop_first(), k - 1);
    }
}

/// All results succeeded exactly when the collected value is a success.
pub proof fn lemma_first_error_ok<E>(results: Seq<Result<(), E>>)
    requires
        forall|j: int| 0 <= j < results.len() ==> (#[trigger] results[j]) is Ok,
    ensures
        spec_first_error(results) == Ok::<(), E>(()),
    decreases results.len(),
{
    if results.len() > 0 {
        lemma_first_error_ok(results.drop_first());
    }
}

/// Collects the results of every joined runner thread, in the order the
/// threads were started, into the composer's own result: the first error, or
/// success if every runner succeeded. Taking the whole collection is the
/// point: every thread has been joined before anything is reported.
#[verifier::loop_isolation(false)]
pub fn collect_results<E>(results: Vec<Result<(), E>>) -> (r: Result<(), E>)
    ensures
        r == spec_first_error(results@),
{
    let ghost orig = results@;
    let mut rest = results;
    let mut i: usize = 0;
    while i < rest.len()
        invariant
            i <= rest@.len(),
            forall|j: int| 0 <= j < i ==> (#[trigger] rest@[j]) is Ok,
            rest@ == orig,
        decreases rest@.len() - i,
    {
        if rest[i].is_err() {
            proof {
                lemma_first_error_at(rest@, i as int);
                assert(spec_first_error(orig) == rest@[i as int]);
            }
            let ghost target = rest@[i as int];
            let e = rest.remove(i);
            proof {
                assert(e == target);
            }
            match e {
                Err(err) => {
                    proof {
                        assert(Result::<(), E>::Err(err) == target);
                    }
                    return Err(err);
                },
                Ok(_) => {
                    return Ok(());
                },
            }
        }
        i = i + 1;
    }
    proof {
        lemma_first_error_ok(rest@);
    }
    Ok(())
}

} // verus!
