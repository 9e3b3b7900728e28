//! The notification publisher: its lifecycle state machine and the
//! periodic sampling/emission loop of the service object.
//!
//! The publisher's outer loop alternates between suspension points — waiting
//! for a connection, a tick, a sample, an emission — and decisions. The
//! decisions are pure: `step` maps the current state and the outcome of the
//! last suspension point to the next state and the next action. A thin
//! unverified runner performs each action against the real bus and clock and
//! feeds the outcome back in.

use vstd::prelude::*;
use vstd::string::StringExecFns;

use crate::bus::Bus;
use crate::bus::Subscription;
use crate::bus::lemma_subscriber_ordering;
use crate::bus::Signal;
use crate::bus::SignalBinding;
use crate::codec::encode_host_metrics;
use crate::codec::is_host_metrics_payload;
use crate::errors::ServiceError;
use crate::errors::spec_is_fatal;
use crate::events::HostMetricsNotificationEvent;

verus! {

/// The publisher's lifecycle.
#[derive(Clone, Copy, Debug, PartialEq, Eq, Structural)]
pub enum PublisherState {
    /// Not yet connected to the bus.
    Unregistered,
    /// Connected; the well-known name is not claimed yet.
    Connected,
    /// Name claimed and object served; waiting for the next tick.
    Registered,
    /// A tick is in flight: sampling or emitting.
    Running,
    /// Interrupted; releasing the name and closing the connection.
    ShuttingDown,
    /// The loop has ended, normally or on a fatal error.
    Stopped,
}

/// The outcome of the publisher's last suspension point.
#[derive(Clone, Copy, Debug, PartialEq, Eq, Structural)]
pub enum PublisherInput {
    /// The bus connection was established.
    ConnectOk,
    /// The bus could not be reached.
    ConnectFailed,
    /// The well-known name was claimed and the object is served.
    NameClaimed,
    /// Another process owns the well-known name.
    NameTaken,
    /// The tick deadline arrived.
    TickFired,
    /// The metrics source produced a fresh reading.
    SampleOk(HostMetricsNotificationEvent),
    /// The metrics source failed for this tick.
    SampleFailed,
    /// The signal was broadcast.
    EmitOk,
    /// Broadcasting the signal failed.
    EmitFailed,
    /// An external stop signal arrived while waiting for a tick.
    Interrupted,
}

/// What the runner must do next.
#[derive(Clone, Copy, Debug, PartialEq, Eq, Structural)]
pub enum PublisherAction {
    /// Claim the well-known name and serve the object at its path.
    ClaimName,
    /// Wait at the tick suspension point.
    WaitTick,
    /// Take a fresh metrics reading.
    Sample,
    /// Encode and broadcast this reading on the fixed binding.
    Emit(HostMetricsNotificationEvent),
    /// Release the well-known name and close the connection.
    ReleaseName,
    /// Report this fatal error and stop.
    Fail(ServiceError),
    /// Nothing left to do.
    Idle,
}

/// The transition table of the publisher. A sampling failure skips the tick
/// and returns to waiting; a connection failure, a taken name or an emission
/// failure is fatal; an interrupt is only observed at the tick suspension
/// point, finishes no further tick and leads to an orderly release.
pub open spec fn spec_step(s: PublisherState, input: PublisherInput) -> (
    PublisherState,
    PublisherAction,
) {
    match (s, input) {
        (PublisherState::Unregistered, PublisherInput::ConnectOk) => (
            PublisherState::Connected,
            PublisherAction::ClaimName,
        ),
        (PublisherState::Unregistered, PublisherInput::ConnectFailed) => (
            PublisherState::Stopped,
            PublisherAction::Fail(ServiceError::Connection),
        ),
        (PublisherState::Connected, PublisherInput::NameClaimed) => (
            PublisherState::Registered,
            PublisherAction::WaitTick,
        ),
        (PublisherState::Connected, PublisherInput::NameTaken) => (
            PublisherState::Stopped,
            PublisherAction::Fail(ServiceError::NameTaken),
        ),
        (PublisherState::Registered, PublisherInput::TickFired) => (
            PublisherState::Running,
            PublisherAction::Sample,
        ),
        (PublisherState::Registered, PublisherInput::Interrupted) => (
            PublisherState::ShuttingDown,
            PublisherAction::ReleaseName,
        ),
        (PublisherState::Running, PublisherInput::SampleOk(m)) => (
            PublisherState::Running,
            PublisherAction::Emit(m),
        ),
        (PublisherState::Running, PublisherInput::SampleFailed) => (
            PublisherState::Registered,
            PublisherAction::WaitTick,
        ),
        (PublisherState::Running, PublisherInput::EmitOk) => (
            PublisherState::Registered,
            PublisherAction::WaitTick,
        ),
        (PublisherState::Running, PublisherInput::EmitFailed) => (
            PublisherState::Stopped,
            PublisherAction::Fail(ServiceError::Transport),
        ),
        (PublisherState::ShuttingDown, _) => (PublisherState::Stopped, PublisherAction::Idle),
        _ => (s, PublisherAction::Idle),
    }
}

/// One decision of the publisher loop: exactly the transition table.
pub fn step(s: PublisherState, input: PublisherInput) -> (r: (PublisherState, PublisherAction))
    ensures
        r == spec_step(s, input),
{
    match (s, input) {
        (PublisherState::Unregistered, PublisherInput::ConnectOk) => (
            PublisherState::Connected,
            PublisherAction::ClaimName,
        ),
        (PublisherState::Unregistered, PublisherInput::ConnectFailed) => (
            PublisherState::Stopped,
            PublisherAction::Fail(ServiceError::Connection),
        ),
        (PublisherState::Connected, PublisherInput::NameClaimed) => (
            PublisherState::Registered,
            PublisherAction::WaitTick,
        ),
        (PublisherState::Connected, PublisherInput::NameTaken) => (
            PublisherState::Stopped,
            PublisherAction::Fail(ServiceError::NameTaken),
        ),
        (PublisherState::Registered, PublisherInput::TickFired) => (
            PublisherState::Running,
            PublisherAction::Sample,
        ),
        (PublisherState::Registered, PublisherInput::Interrupted) => (
            PublisherState::ShuttingDown,
            PublisherAction::ReleaseName,
        ),
        (PublisherState::Running, PublisherInput::SampleOk(m)) => (
            PublisherState::Running,
            PublisherAction::Emit(m),
        ),
        (PublisherState::Running, PublisherInput::SampleFailed) => (
            PublisherState::Registered,
            PublisherAction::WaitTick,
        ),
        (PublisherState::Running, PublisherInput::EmitOk) => (
            PublisherState::Registered,
            PublisherAction::WaitTick,
        ),
        (PublisherState::Running, PublisherInput::EmitFailed) => (
            PublisherState::Stopped,
            PublisherAction::Fail(ServiceError::Transport),
        ),
        (PublisherState::ShuttingDown, _) => (PublisherState::Stopped, PublisherAction::Idle),
        _ => (s, PublisherAction::Idle),
    }
}

/// The loop fails only on fatal errors, and a failure always stops it: a
/// sampling failure never ends the loop, it only skips the tick.
pub proof fn lemma_failures_are_fatal(s: PublisherState, input: PublisherInput)
    ensures
        spec_step(s, input).1 matches PublisherAction::Fail(e) ==> spec_is_fatal(e) && spec_step(
            s,
            input,
        ).0 is Stopped,
        spec_step(PublisherState::Running, PublisherInput::SampleFailed) == (
            PublisherState::Registered,
            PublisherAction::WaitTick,
        ),
{
}

/// What is emitted is exactly what was sampled: the publisher emits only
/// mid-tick, and only the reading of the current tick.
pub proof fn lemma_emits_only_sampled(s: PublisherState, input: PublisherInput)
    ensures
        spec_step(s, input).1 matches PublisherAction::Emit(m) ==> s is Running && input
            == PublisherInput::SampleOk(m),
{
}

/// The number of filled readings among the first `upto` tick outcomes.
pub open spec fn count_sampled(s: Seq<Option<HostMetricsNotificationEvent>>, upto: int) -> int
    decreases upto,
{
    if upto <= 0 {
        0
    } else {
        count_sampled(s, upto - 1) + if s[upto - 1] is Some {
            1int
        } else {
            0int
        }
    }
}

/// Counting filled readings is monotone in the prefix length.
proof fn lemma_count_sampled_monotone(
    s: Seq<Option<HostMetricsNotificationEvent>>,
    a: int,
    b: int,
)
    requires
        a <= b,
    ensures
        count_sampled(s, a) <= count_sampled(s, b),
    decreases b - a,
{
    if a < b {
        lemma_count_sampled_monotone(s, a, b - 1);
    }
}

/// The emission record of one batch of tick outcomes: for each of the first
/// `upto` ticks whose sampling succeeded, the log holds — at `base` plus the
/// number of successful ticks before it — one signal on binding `b` whose
/// payload is the encoding of that tick's reading.
pub open spec fn emitted_in_order(
    log: Seq<Signal>,
    base: int,
    b: SignalBinding,
    samples: Seq<Option<HostMetricsNotificationEvent>>,
    upto: int,
) -> bool {
    forall|u: int|
        #![trigger count_sampled(samples, u)]
        0 <= u < upto ==> match samples[u] {
            Some(m) => {
                let signal = log[base + count_sampled(samples, u)];
                signal.binding == b && is_host_metrics_payload(signal.payload@, m)
            },
            None => true,
        }
}

/// Appending the encoding of the next successful tick extends the emission
/// record by one; earlier entries are untouched.
proof fn lemma_emitted_in_order_step(
    log: Seq<Signal>,
    log2: Seq<Signal>,
    base: int,
    b: SignalBinding,
    samples: Seq<Option<HostMetricsNotificationEvent>>,
    t: int,
    sig: Signal,
    m: HostMetricsNotificationEvent,
)
    requires
        0 <= base,
        0 <= t < samples.len(),
        emitted_in_order(log, base, b, samples, t),
        log.len() == base + count_sampled(samples, t),
        log2 == log.push(sig),
        samples[t] == Some(m),
        sig.binding == b,
        is_host_metrics_payload(sig.payload@, m),
    ensures
        emitted_in_order(log2, base, b, samples, t + 1),
{
    assert forall|u: int|
        #![trigger count_sampled(samples, u)]
        0 <= u < t + 1 implies match samples[u] {
        Some(m2) => {
            let signal = log2[base + count_sampled(samples, u)];
            signal.binding == b && is_host_metrics_payload(signal.payload@, m2)
        },
        None => true,
    } by {
        if u < t {
            if samples[u] is Some {
                lemma_count_sampled_monotone(samples, u + 1, t);
                lemma_count_sampled_monotone(samples, 0, u);
                assert(count_sampled(samples, u + 1) == count_sampled(samples, u) + 1);
                assert(0 <= base + count_sampled(samples, u) < log.len());
                assert(log2[base + count_sampled(samples, u)] == log[base + count_sampled(
                    samples,
                    u,
                )]);
            }
        } else {
            assert(count_sampled(samples, u) == count_sampled(samples, t));
            assert(log2[base + count_sampled(samples, u)] == sig);
        }
    }
}

/// A batch of ticks with one more failed sample at the end emits nothing
/// more.
proof fn lemma_emitted_in_order_skip(
    log: Seq<Signal>,
    base: int,
    b: SignalBinding,
    samples: Seq<Option<HostMetricsNotificationEvent>>,
    t: int,
)
    requires
        0 <= t < samples.len(),
        emitted_in_order(log, base, b, samples, t),
        samples[t] is None,
    ensures
        emitted_in_order(log, base, b, samples, t + 1),
{
    assert forall|u: int|
        #![trigger count_sampled(samples, u)]
        0 <= u < t + 1 implies match samples[u] {
        Some(m2) => {
            let signal = log[base + count_sampled(samples, u)];
            signal.binding == b && is_host_metrics_payload(signal.payload@, m2)
        },
        None => true,
    } by {
        if u < t && samples[u] is Some {
            assert(count_sampled(samples, u) == count_sampled(samples, u));
        }
    }
}

/// Every delivery slot below the batch's total is filled by some
/// successful tick.
proof fn lemma_count_sampled_surjective(
    s: Seq<Option<HostMetricsNotificationEvent>>,
    n: int,
    c: int,
)
    requires
        0 <= n <= s.len(),
        0 <= c < count_sampled(s, n),
    ensures
        exists|u: int|
            0 <= u < n && s[u] is Some && #[trigger] count_sampled(s, u) == c,
    decreases n,
{
    if n > 0 {
        if s[n - 1] is Some && count_sampled(s, n - 1) == c {
            assert(0 <= n - 1 < n && s[n - 1] is Some && count_sampled(s, n - 1) == c);
        } else {
            lemma_count_sampled_surjective(s, n - 1, c);
        }
    }
}

/// Batch delivery, end to end: a subscriber on the publisher's own binding,
/// subscribed just before a batch of ticks and caught up afterwards, has
/// received exactly one payload per successful tick — the encoding of that
/// tick's reading — in tick order, with failed ticks skipped.
pub proof fn lemma_batch_delivery(
    bus: &Bus,
    sub: Subscription,
    samples: Seq<Option<HostMetricsNotificationEvent>>,
)
    requires
        sub.wf(bus),
        sub.cursor == bus.log@.len(),
        bus.log@.len() == sub.start + count_sampled(samples, samples.len() as int),
        emitted_in_order(
            bus.log@,
            sub.start as int,
            sub.binding,
            samples,
            samples.len() as int,
        ),
    ensures
        sub.received@.len() == count_sampled(samples, samples.len() as int),
        forall|u: int|
            #![trigger count_sampled(samples, u)]
            0 <= u < samples.len() ==> match samples[u] {
                Some(m) => is_host_metrics_payload(
                    sub.received@[count_sampled(samples, u)],
                    m,
                ),
                None => true,
            },
{
    let base = sub.start as int;
    let n = samples.len() as int;
    assert forall|k: int|
        sub.start <= k < sub.cursor implies (#[trigger] bus.log@[k]).binding.agrees(
        sub.binding,
    ) by {
        lemma_count_sampled_surjective(samples, n, k - base);
        let u = choose|u: int|
            0 <= u < n && samples[u] is Some && #[trigger] count_sampled(samples, u) == k - base;
        assert(bus.log@[base + count_sampled(samples, u)].binding == sub.binding);
    }
    lemma_subscriber_ordering(bus, sub);
    assert forall|u: int|
        #![trigger count_sampled(samples, u)]
        0 <= u < samples.len() implies match samples[u] {
        Some(m) => is_host_metrics_payload(sub.received@[count_sampled(samples, u)], m),
        None => true,
    } by {
        if samples[u] is Some {
            lemma_count_sampled_monotone(samples, 0, u);
            lemma_count_sampled_monotone(samples, u + 1, n);
            assert(count_sampled(samples, u + 1) == count_sampled(samples, u) + 1);
            assert(0 <= count_sampled(samples, u) < sub.received@.len());
            assert(sub.received@[count_sampled(samples, u)] == bus.log@[base + count_sampled(
                samples,
                u,
            )].payload@);
        }
    }
}

/// The well-known service name the publisher claims on the bus.
pub fn well_known_name() -> (r: &'static str)
    ensures
        r@ == "org.zbus.MyGreeter"@,
{
    "org.zbus.MyGreeter"
}

/// The fixed binding of the host-metrics signal: the object path, the
/// interface name and the signal member the publisher emits on and the
/// subscriber must subscribe to.
pub fn host_metrics_binding() -> (b: SignalBinding)
    ensures
        b.object_path@ == "/org/zbus/MyGreeter"@,
        b.interface_name@ == "org.zbus.MyGreeter"@,
        b.member_name@ == "host_metrics"@,
{
    SignalBinding::new("/org/zbus/MyGreeter", "org.zbus.MyGreeter", "host_metrics")
}

/// The service object: answers `say_hello` method calls and broadcasts the
/// `host_metrics` signal from its periodic sampling loop.
#[derive(Clone, Copy, Debug)]
pub struct Greeter;

impl Greeter {
    /// The synchronous request/response method of the object, independent of
    /// the notification stream.
    pub fn say_hello(&self, name: &str) -> (r: String)
        ensures
            r@ == "Hello "@ + name@ + "!"@,
    {
        let mut r: String = "Hello ".to_owned();
        r.append(name);
        r.append("!");
        r
    }

    /// The body of the periodic sampling loop, over one batch of tick
    /// outcomes: each tick's fresh reading is encoded and broadcast as one
    /// signal on `binding`, in tick order; a tick whose sampling failed is
    /// skipped and broadcasts nothing. Returns how many signals were
    /// broadcast.
    pub fn get_host_metrics(
        &self,
        bus: &mut Bus,
        binding: &SignalBinding,
        samples: &Vec<Option<HostMetricsNotificationEvent>>,
    ) -> (emitted: usize)
        requires
            old(bus).wf(),
        ensures
            final(bus).wf(),
            final(bus).names == old(bus).names,
            emitted == count_sampled(samples@, samples@.len() as int),
            final(bus).log@.len() == old(bus).log@.len() + emitted,
            forall|k: int|
                0 <= k < old(bus).log@.len() ==> final(bus).log@[k] == #[trigger] old(
                    bus,
                ).log@[k],
            emitted_in_order(
                final(bus).log@,
                old(bus).log@.len() as int,
                *binding,
                samples@,
                samples@.len() as int,
            ),
    {
        let ghost base = bus.log@.len() as int;
        let mut emitted: usize = 0;
        let mut t: usize = 0;
        while t < samples.len()
            invariant
                old(bus).wf(),
                bus.wf(),
                bus.names == old(bus).names,
                base == old(bus).log@.len(),
                t <= samples@.len(),
                emitted <= t,
                emitted == count_sampled(samples@, t as int),
                bus.log@.len() == base + emitted,
                forall|k: int| 0 <= k < base ==> bus.log@[k] == #[trigger] old(bus).log@[k],
                emitted_in_order(bus.log@, base, *binding, samples@, t as int),
            decreases samples@.len() - t,
        {
            match &samples[t] {
                Some(m) => {
                    let ghost prelog = bus.log@;
                    let payload = encode_host_metrics(m);
                    let signal = Signal { binding: binding.clone(), payload };
                    let ghost gsig = signal;
                    let _ = bus.emit_signal(signal);
                    emitted = emitted + 1;
                    proof {
                        lemma_emitted_in_order_step(
                            prelog,
                            bus.log@,
                            base,
                            *binding,
                            samples@,
                            t as int,
                            gsig,
                            *m,
                        );
                    }
                },
                None => {
                    proof {
                        lemma_emitted_in_order_skip(bus.log@, base, *binding, samples@, t as int);
                    }
                },
            }
            t = t + 1;
        }
        emitted
    }
}

} // verus!
