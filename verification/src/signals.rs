//! The shutdown protocol: an abstract termination signal, the per-runner
//! shutdown flag that both bridge variants (polled atomic, condition-variable
//! guarded boolean) maintain, and the fan-out of one signal to every
//! registered runner.

use vstd::prelude::*;

verus! {

/// An OS-level termination signal, presented abstractly.
#[derive(Clone, Copy, PartialEq, Eq, Structural, Debug)]
pub enum Signal {
    Interrupt,
    Terminate,
}

/// The shared shutdown state of one runner. Both concrete representations
/// (an atomic flag that a sleep loop polls, and a mutex-guarded boolean that
/// an accept loop waits on) carry exactly this one bit: it starts false, is
/// set to true at most once by the runner's listener thread, and never
/// reverts.
#[derive(Clone, Copy, PartialEq, Eq, Structural, Debug)]
pub struct ShutdownFlag {
    pub fired: bool,
}

impl ShutdownFlag {
    /// A fresh flag: no shutdown has been observed.
    pub fn new() -> (f: ShutdownFlag)
        ensures
            !f.fired,
    {
        ShutdownFlag { fired: false }
    }

    /// The transition a bridge's listener thread performs on delivery:
    /// the flag becomes (and stays) set, whatever it held before.
    pub fn trigger(&mut self)
        ensures
            final(self).fired,
    {
        self.fired = true;
    }

    /// What a runner's loop reads at its checkpoint.
    pub fn is_set(&self) -> (b: bool)
        ensures
            b == self.fired,
    {
        self.fired
    }
}

/// What one bridge's listener thread does with the outcome of its single
/// blocking receive: a delivered signal sets the flag, and so does a channel
/// that closed without ever carrying one — an anomalous closure counts as an
/// implicit shutdown, so the owning runner can never be left waiting forever.
pub fn bridge_on_recv(flag: &mut ShutdownFlag, received: Option<Signal>)
    ensures
        final(flag).fired,
{
    match received {
        Some(_) => flag.trigger(),
        None => flag.trigger(),
    }
}

/// The state of every registered bridge after one signal is broadcast:
/// every flag is set.
pub open spec fn spec_broadcast(flags: Seq<ShutdownFlag>) -> Seq<ShutdownFlag> {
    Seq::new(flags.len(), |i: int| ShutdownFlag { fired: true })
}

/// Fans one delivered signal out to every registered runner's bridge: each
/// bridge receives its own copy, and each flag ends set.
pub fn broadcast_shutdown(flags: &mut Vec<ShutdownFlag>, sig: Signal)
    ensures
        final(flags)@ == spec_broadcast(old(flags)@),
        final(flags)@.len() == old(flags)@.len(),
        forall|i: int| 0 <= i < final(flags)@.len() ==> (#[trigger] final(flags)@[i]).fired,
{
    let n = flags.len();
    let mut i: usize = 0;
    while i < n
        invariant
            i <= n,
            flags@.len() == n,
            forall|j: int| 0 <= j < i ==> (#[trigger] flags@[j]).fired,
        decreases n - i,
    {
        let mut f = flags[i];
        bridge_on_recv(&mut f, Some(sig));
        flags[i] = f;
        i = i + 1;
    }
    proof {
        assert(flags@ =~= spec_broadcast(old(flags)@));
    }
}

/// Law: shutdown is idempotent. One broadcast leaves every bridge's flag
/// set, and a second broadcast — a second signal arriving after shutdown —
/// changes nothing observable: the flags' state is exactly the state after
/// the first.
pub proof fn theorem_shutdown_idempotent(flags: Seq<ShutdownFlag>)
    ensures
        spec_broadcast(spec_broadcast(flags)) == spec_broadcast(flags),
        forall|i: int| 0 <= i < flags.len() ==> (#[trigger] spec_broadcast(flags)[i]).fired,
{
    assert(spec_broadcast(spec_broadcast(flags)) =~= spec_broadcast(flags));
}

/// Law: one broadcast unblocks every registered bridge exactly once: a flag
/// not yet set makes the false-to-true transition, and a flag already set
/// (its bridge already unblocked) is left exactly as it was — it cannot be
/// unblocked a second time.
pub proof fn theorem_broadcast_unblocks_each_once(flags: Seq<ShutdownFlag>, i: int)
    requires
        0 <= i < flags.len(),
    ensures
        !flags[i].fired ==> spec_broadcast(flags)[i].fired && spec_broadcast(flags)[i]
            != flags[i],
        flags[i].fired ==> spec_broadcast(flags)[i] == flags[i],
{
}

} // verus!
