//! The request-serving worker. It registers a fixed route table against an
//! HTTP listener, serves until its condition-variable bridge reports
//! shutdown, then actively closes the listener. The listener, the mutex and
//! the condition variable live in the unverified shell; this module holds the
//! route table itself, the wait-loop's decision at every wakeup, and what
//! follows the wait.

use vstd::prelude::*;
use vstd::string::StringExecFns;
use crate::MetricError;

verus! {

/// Which counter source a route serves.
#[derive(Clone, Copy, PartialEq, Eq, Structural, Debug)]
pub enum HandlerKind {
    /// memory counters of the process named in the path
    Statm,
    /// I/O counters of the process named in the path
    Io,
    /// kernel stack of the process named in the path
    Stack,
    /// host-wide TCP counters
    TcpStats,
}

/// One GET route: the path pattern, with `:pid` naming its one placeholder,
/// and the handler that serves it.
pub struct Route {
    pub pattern: String,
    pub handler: HandlerKind,
}

/// The serving worker: it owns its route table until the shell hands the
/// routes to the listener.
pub struct RouterRunner {
    pub routes: Vec<Route>,
}

impl RouterRunner {
    /// The agent's four routes, in registration order.
    pub fn new() -> (r: RouterRunner)
        ensures
            r.routes@.len() == 4,
            r.routes@[0].pattern@ == "/proc/:pid/statm"@,
            r.routes@[0].handler == HandlerKind::Statm,
            r.routes@[1].pattern@ == "/proc/:pid/io"@,
            r.routes@[1].handler == HandlerKind::Io,
            r.routes@[2].pattern@ == "/proc/:pid/stack"@,
            r.routes@[2].handler == HandlerKind::Stack,
            r.routes@[3].pattern@ == "/net/tcpstats"@,
            r.routes@[3].handler == HandlerKind::TcpStats,
    {
        let mut routes: Vec<Route> = Vec::new();
        routes.push(
            Route { pattern: String::from_str("/proc/:pid/statm"), handler: HandlerKind::Statm },
        );
        routes.push(Route { pattern: String::from_str("/proc/:pid/io"), handler: HandlerKind::Io });
        routes.push(
            Route { pattern: String::from_str("/proc/:pid/stack"), handler: HandlerKind::Stack },
        );
        routes.push(
            Route { pattern: String::from_str("/net/tcpstats"), handler: HandlerKind::TcpStats },
        );
        RouterRunner { routes }
    }

    /// Initialization is a no-op success: the routes are built at
    /// construction and the listener is bound only when `run` starts.
    pub fn setup(&mut self) -> (r: Result<(), MetricError>)
        ensures
            r is Ok,
            *final(self) == *old(self),
    {
        Ok(())
    }
}

/// What the serving worker does when its wait returns.
#[derive(Clone, Copy, PartialEq, Eq, Structural, Debug)]
pub enum ServerStep {
    /// The guarded flag was false: a spurious wakeup, wait again.
    KeepWaiting,
    /// The guarded flag was true: leave the wait and actively close the
    /// listener, releasing the bound endpoint rather than abandoning it.
    CloseListener,
}

/// The decision at one wakeup of the condition-variable wait: only a true
/// flag ends the wait, and a true flag always does.
pub fn server_wakeup_step(stop: bool) -> (s: ServerStep)
    ensures
        s == (if stop {
            ServerStep::CloseListener
        } else {
            ServerStep::KeepWaiting
        }),
{
    if stop {
        ServerStep::CloseListener
    } else {
        ServerStep::KeepWaiting
    }
}

/// Runs the condition-variable wait over the flag values observed at each
/// wakeup, spurious wakeups included, and reports which wakeup ended the
/// wait: the first that observed a true flag, and none earlier — once the
/// notify arrives the very next check leaves the wait. A run with no true
/// observation is still waiting.
pub fn wait_for_stop(wakeups: &Vec<bool>) -> (r: Option<usize>)
    ensures
        match r {
            Some(i) => {
                &&& i < wakeups@.len()
                &&& wakeups@[i as int]
                &&& forall|j: int| 0 <= j < i ==> !(#[trigger] wakeups@[j])
            },
            None => forall|j: int| 0 <= j < wakeups@.len() ==> !(#[trigger] wakeups@[j]),
        },
{
    let mut i: usize = 0;
    while i < wakeups.len()
        invariant
            i <= wakeups@.len(),
            forall|j: int| 0 <= j < i ==> !(#[trigger] wakeups@[j]),
        decreases wakeups@.len() - i,
    {
        let stop = wakeups[i];
        match server_wakeup_step(stop) {
            ServerStep::CloseListener => {
                return Some(i);
            },
            ServerStep::KeepWaiting => {},
        }
        i = i + 1;
    }
    None
}

/// Law: the wait is left exactly once. There is only one wakeup that can end
/// the wait — the first to observe a true flag — so the bridge unblocks its
/// runner once, and a later notify finds nobody waiting.
pub proof fn theorem_wait_unblocks_once(wakeups: Seq<bool>, i1: int, i2: int)
    requires
        0 <= i1 < wakeups.len(),
        wakeups[i1],
        forall|j: int| 0 <= j < i1 ==> !(#[trigger] wakeups[j]),
        0 <= i2 < wakeups.len(),
        wakeups[i2],
        forall|j: int| 0 <= j < i2 ==> !(#[trigger] wakeups[j]),
    ensures
        i1 == i2,
{
    if i1 < i2 {
        assert(!wakeups[i1]);
    }
    if i2 < i1 {
        assert(!wakeups[i2]);
    }
}

} // verus!
