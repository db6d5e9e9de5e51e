//! The periodic telemetry worker. Every publish interval it polls its
//! shutdown flag, captures one counter sample, packages the sample into a
//! timestamped, origin-tagged packet, and hands the packet to the datagram
//! transport. The transport, the timer and the counter files live in the
//! unverified shell; this module holds the packet construction and the
//! decision the loop takes at each tick, and proves how the loop behaves over
//! any sequence of observations.

use vstd::prelude::*;
use crate::proc_fs::net::TcpStat;
use crate::proc_fs::stats::ProcStatm;
use crate::signals::ShutdownFlag;
use crate::MetricError;

verus! {

/// One captured sample: either the host's network counters or one process's
/// memory counters.
#[derive(Clone, Copy, PartialEq, Eq, Structural, Debug)]
pub enum Metric {
    Network(TcpStat),
    Process(ProcStatm),
}

/// One sample ready for transmission: the sample, the configured origin
/// label, and the capture time in seconds since the epoch.
#[derive(Clone, Debug)]
pub struct MetricPacket {
    pub origin: String,
    pub timestamp: i64,
    pub data: Metric,
}

/// The mathematical content of a packet.
pub struct PacketView {
    pub origin: Seq<char>,
    pub timestamp: int,
    pub data: Metric,
}

impl View for MetricPacket {
    type V = PacketView;

    open spec fn view(&self) -> PacketView {
        PacketView { origin: self.origin@, timestamp: self.timestamp as int, data: self.data }
    }
}

impl PartialEq for MetricPacket {
    fn eq(&self, other: &MetricPacket) -> (r: bool) {
        self.origin == other.origin && self.timestamp == other.timestamp && self.data
            == other.data
    }
}

impl vstd::std_specs::cmp::PartialEqSpecImpl for MetricPacket {
    open spec fn obeys_eq_spec() -> bool {
        true
    }

    open spec fn eq_spec(&self, other: &MetricPacket) -> bool {
        self.origin@ == other.origin@ && self.timestamp == other.timestamp && self.data
            == other.data
    }
}

/// The publishing worker: its origin label, the remote endpoint it reports
/// to, its interval in seconds, and its shutdown flag. The datagram socket
/// itself lives with the shell that runs the loop.
pub struct MetricSender {
    pub origin: String,
    pub metric_addr: String,
    pub publish_interval: u32,
    pub shutdown: ShutdownFlag,
}

impl MetricSender {
    /// A sender configured for one remote endpoint; no shutdown observed yet.
    pub fn new(metric_addr: String, origin: String, interval: u32) -> (s: MetricSender)
        ensures
            s.origin@ == origin@,
            s.metric_addr@ == metric_addr@,
            s.publish_interval == interval,
            !s.shutdown.fired,
    {
        MetricSender {
            origin,
            metric_addr,
            publish_interval: interval,
            shutdown: ShutdownFlag::new(),
        }
    }

    /// Packages one captured sample with the sender's origin and the given
    /// capture time.
    pub fn make_packet(&self, data: Metric, timestamp: i64) -> (p: MetricPacket)
        ensures
            p.origin@ == self.origin@,
            p.timestamp == timestamp,
            p.data == data,
    {
        MetricPacket { origin: self.origin.clone(), timestamp, data }
    }

    /// Packages one captured sample, stamped with the clock's current time.
    /// Of the stamp itself nothing is promised: the clock may answer
    /// anything.
    pub fn packet_now(&self, data: Metric) -> (p: MetricPacket)
        ensures
            p.origin@ == self.origin@,
            p.data == data,
    {
        let t = now_seconds();
        self.make_packet(data, t)
    }

    /// Initialization is a no-op success: the sender holds no resource that
    /// could fail to come up after construction.
    pub fn setup(&mut self) -> (r: Result<(), MetricError>)
        ensures
            r is Ok,
            *final(self) == *old(self),
    {
        Ok(())
    }
}

/// Relies on `time::OffsetDateTime::now_utc`; `unix_timestamp` converts the
/// result to whole seconds since the epoch. The clock's answer depends on the
/// moment of the call, so nothing is stated about it.
#[verifier::external_body]
fn now_seconds() -> i64 {
    time::OffsetDateTime::now_utc().unix_timestamp()
}

/// What one tick of the publishing loop observes: the shutdown flag at the
/// loop's top, and whether the capture that would follow succeeds.
#[derive(Clone, Copy, PartialEq, Eq, Structural, Debug)]
pub struct TickObs {
    pub shutdown: bool,
    pub capture_ok: bool,
}

/// What the loop does with one tick.
#[derive(Clone, Copy, PartialEq, Eq, Structural, Debug)]
pub enum TickAction {
    /// The flag was set: leave the loop without starting any new work.
    Stop,
    /// The capture failed: log it and try the tick again without sleeping,
    /// so that a transient read failure does not silently skip a tick.
    Retry,
    /// The capture succeeded: package, send (a send failure is logged and
    /// does not abort), then sleep one interval.
    Publish,
}

/// The decision the loop takes at one tick.
pub open spec fn spec_tick_action(t: TickObs) -> TickAction {
    if t.shutdown {
        TickAction::Stop
    } else if !t.capture_ok {
        TickAction::Retry
    } else {
        TickAction::Publish
    }
}

/// Decides one tick of the publishing loop.
pub fn tick_action(t: TickObs) -> (a: TickAction)
    ensures
        a == spec_tick_action(t),
{
    if t.shutdown {
        TickAction::Stop
    } else if !t.capture_ok {
        TickAction::Retry
    } else {
        TickAction::Publish
    }
}

/// How many ticks the loop consumes from a given sequence of observations:
/// every tick up to and including the first that observes shutdown.
pub open spec fn spec_trace_len(ticks: Seq<TickObs>) -> int
    decreases ticks.len(),
{
    if ticks.len() == 0 {
        0
    } else if ticks[0].shutdown {
        1
    } else {
        1 + spec_trace_len(ticks.drop_first())
    }
}

pub proof fn lemma_trace_len_bounds(ticks: Seq<TickObs>)
    ensures
        0 <= spec_trace_len(ticks) <= ticks.len(),
    decreases ticks.len(),
{
    if ticks.len() > 0 && !ticks[0].shutdown {
        lemma_trace_len_bounds(ticks.drop_first());
    }
}

/// The trace consumes exactly the ticks before the first shutdown
/// observation, and that observation itself.
pub proof fn lemma_trace_len_first_shutdown(ticks: Seq<TickObs>, k: int)
    requires
        0 <= k < ticks.len(),
        ticks[k].shutdown,
        forall|j: int| 0 <= j < k ==> !(#[trigger] ticks[j]).shutdown,
    ensures
        spec_trace_len(ticks) == k + 1,
    decreases k,
{
    if k == 0 {
    } else {
        assert(!ticks[0].shutdown);
        assert(ticks.drop_first()[k - 1] == ticks[k]);
        assert forall|j: int| 0 <= j < k - 1 implies !(#[trigger] ticks.drop_first()[j]).shutdown by {
            assert(ticks.drop_first()[j] == ticks[j + 1]);
        }
        lemma_trace_len_first_shutdown(ticks.drop_first(), k - 1);
    }
}

/// Without a shutdown observation the loop consumes every tick offered.
pub proof fn lemma_trace_len_no_shutdown(ticks: Seq<TickObs>)
    requires
        forall|j: int| 0 <= j < ticks.len() ==> !(#[trigger] ticks[j]).shutdown,
    ensures
        spec_trace_len(ticks) == ticks.len(),
    decreases ticks.len(),
{
    if ticks.len() > 0 {
        lemma_trace_len_no_shutdown(ticks.drop_first());
    }
}

/// Runs the publishing loop over a given sequence of observations and
/// records the action taken at each consumed tick. This is the loop of the
/// worker with its outside effects abstracted to their outcomes: the shell's
/// real loop takes exactly these actions in this order.
pub fn run_publisher_model(ticks: &Vec<TickObs>) -> (trace: Vec<TickAction>)
    ensures
        trace@.len() == spec_trace_len(ticks@),
        forall|j: int| 0 <= j < trace@.len() ==> trace@[j] == spec_tick_action(
            #[trigger] ticks@[j],
        ),
{
    let mut trace: Vec<TickAction> = Vec::new();
    let mut i: usize = 0;
    let mut going = true;
    while going && i < ticks.len()
        invariant
            i <= ticks@.len(),
            going ==> trace@.len() == i,
            going ==> (forall|j: int| 0 <= j < i ==> !(#[trigger] ticks@[j]).shutdown),
            !going ==> trace@.len() == spec_trace_len(ticks@),
            forall|j: int| 0 <= j < trace@.len() ==> trace@[j] == spec_tick_action(
                #[trigger] ticks@[j],
            ),
        decreases ticks@.len() - i, (if going { 1int } else { 0int }),
    {
        let t = ticks[i];
        let a = tick_action(t);
        trace.push(a);
        if t.shutdown {
            proof {
                lemma_trace_len_first_shutdown(ticks@, i as int);
            }
            going = false;
        } else {
            i = i + 1;
        }
    }
    proof {
        if going {
            lemma_trace_len_no_shutdown(ticks@);
        }
    }
    trace
}

/// Law: once the shutdown flag is observed true, the publisher starts no new
/// unit of work. Over any run of observations whose first shutdown
/// observation is at position `k`, the loop consumes exactly the ticks up to
/// `k`, answers `Stop` there, and every earlier tick's action is its own
/// capture outcome, untouched by the later shutdown.
pub proof fn theorem_publisher_stops_at_shutdown(ticks: Seq<TickObs>, k: int)
    requires
        0 <= k < ticks.len(),
        ticks[k].shutdown,
        forall|j: int| 0 <= j < k ==> !(#[trigger] ticks[j]).shutdown,
    ensures
        spec_trace_len(ticks) == k + 1,
        spec_tick_action(ticks[k]) == TickAction::Stop,
{
    lemma_trace_len_first_shutdown(ticks, k);
}

/// Law: one capture failure is transient. A tick that observes no shutdown
/// and a failed capture is answered with `Retry`, and the loop still
/// consumes the next tick: the next capture is attempted.
pub proof fn theorem_capture_failure_is_transient(ticks: Seq<TickObs>, k: int)
    requires
        0 <= k < ticks.len(),
        forall|j: int| 0 <= j <= k ==> !(#[trigger] ticks[j]).shutdown,
        !ticks[k].capture_ok,
    ensures
        spec_tick_action(ticks[k]) == TickAction::Retry,
        spec_trace_len(ticks) >= k + 2 || ticks.len() == k + 1,
{
    if k + 1 < ticks.len() {
        lemma_trace_len_lower_bound(ticks, k + 2);
    }
}

/// The loop consumes at least `m` ticks when none of the first `m` ticks
/// observes shutdown.
pub proof fn lemma_trace_len_lower_bound(ticks: Seq<TickObs>, m: int)
    requires
        0 <= m <= ticks.len(),
        forall|j: int| 0 <= j < m - 1 ==> !(#[trigger] ticks[j]).shutdown,
    ensures
        spec_trace_len(ticks) >= m,
    decreases m,
{
    lemma_trace_len_bounds(ticks);
    if m > 0 {
        if m == 1 {
            if !ticks[0].shutdown {
                lemma_trace_len_bounds(ticks.drop_first());
            }
        } else {
            assert(!ticks[0].shutdown);
            assert forall|j: int| 0 <= j < m - 2 implies !(#[trigger] ticks.drop_first()[j]).shutdown by {
                assert(ticks.drop_first()[j] == ticks[j + 1]);
            }
            lemma_trace_len_lower_bound(ticks.drop_first(), m - 1);
        }
    }
}

/// Law: with a working counter source and no shutdown, the very first tick
/// already publishes one packet; a listener needs to wait at most one
/// interval past the first capture.
pub proof fn theorem_first_tick_publishes(ticks: Seq<TickObs>)
    requires
        ticks.len() > 0,
        !ticks[0].shutdown,
        ticks[0].capture_ok,
    ensures
        spec_trace_len(ticks) >= 1,
        spec_tick_action(ticks[0]) == TickAction::Publish,
{
    lemma_trace_len_lower_bound(ticks, 1);
}

} // verus!
