//! A model of the notification bus: well-known name registration and
//! ordered broadcast delivery of signals to subscribers.
//!
//! The bus keeps the claimed names and the log of emitted signals. A
//! subscription records where in the log it was opened (nothing emitted
//! before that point is ever replayed) and a cursor over the log; it
//! delivers the payloads of the signals whose binding agrees with its own,
//! in emission order, each exactly once. A signal whose binding disagrees
//! with the subscription's binding is silently never delivered.

use vstd::prelude::*;

use crate::codec::Field;
use crate::codec::Payload;
use crate::errors::ServiceError;

verus! {

/// The tuple that identifies where an event is emitted and from where it is
/// subscribed. Publisher and subscriber must agree on all three fields, or
/// no signal is delivered.
#[derive(Debug)]
pub struct SignalBinding {
    pub object_path: String,
    pub interface_name: String,
    pub member_name: String,
}

impl SignalBinding {
    /// Agreement of two bindings: all three fields read the same.
    pub open spec fn agrees(self, other: SignalBinding) -> bool {
        &&& self.object_path@ == other.object_path@
        &&& self.interface_name@ == other.interface_name@
        &&& self.member_name@ == other.member_name@
    }

    /// Whether this binding agrees with `other` on all three fields.
    pub fn agrees_with(&self, other: &SignalBinding) -> (r: bool)
        ensures
            r == self.agrees(*other),
    {
        self.object_path == other.object_path && self.interface_name == other.interface_name
            && self.member_name == other.member_name
    }

    /// Builds a binding from its three names.
    pub fn new(object_path: &str, interface_name: &str, member_name: &str) -> (b: SignalBinding)
        ensures
            b.object_path@ == object_path@,
            b.interface_name@ == interface_name@,
            b.member_name@ == member_name@,
    {
        SignalBinding {
            object_path: object_path.to_owned(),
            interface_name: interface_name.to_owned(),
            member_name: member_name.to_owned(),
        }
    }
}

impl Clone for SignalBinding {
    fn clone(&self) -> (r: Self)
        ensures
            r == *self,
    {
        SignalBinding {
            object_path: self.object_path.clone(),
            interface_name: self.interface_name.clone(),
            member_name: self.member_name.clone(),
        }
    }
}

/// One broadcast signal: a binding and the payload of one event record.
#[derive(Debug)]
pub struct Signal {
    pub binding: SignalBinding,
    pub payload: Payload,
}

/// Copies a payload field for field.
pub fn clone_payload(p: &Payload) -> (r: Payload)
    ensures
        r@ == p@,
{
    let mut r: Payload = Vec::new();
    let mut i: usize = 0;
    while i < p.len()
        invariant
            i <= p.len(),
            r@ =~= p@.subrange(0, i as int),
        decreases p.len() - i,
    {
        r.push(p[i].clone());
        i = i + 1;
    }
    assert(r@ =~= p@);
    r
}

/// The payloads of the signals in `log[lo..hi]` whose binding agrees with
/// `b`, in emission order.
pub open spec fn matching_payloads(log: Seq<Signal>, b: SignalBinding, lo: int, hi: int) -> Seq<
    Seq<Field>,
>
    decreases hi - lo,
{
    if lo >= hi {
        Seq::empty()
    } else {
        let rest = matching_payloads(log, b, lo, hi - 1);
        if log[hi - 1].binding.agrees(b) {
            rest.push(log[hi - 1].payload@)
        } else {
            rest
        }
    }
}

/// A stretch of the log with no matching signal delivers nothing.
pub proof fn lemma_matching_skip(log: Seq<Signal>, b: SignalBinding, lo: int, mid: int, hi: int)
    requires
        lo <= mid <= hi,
        forall|k: int| mid <= k < hi ==> !(#[trigger] log[k].binding.agrees(b)),
    ensures
        matching_payloads(log, b, lo, hi) == matching_payloads(log, b, lo, mid),
    decreases hi - mid,
{
    if mid < hi {
        lemma_matching_skip(log, b, lo, mid, hi - 1);
    }
}

/// What a subscriber receives depends only on the stretch of the log it has
/// walked: signals emitted later never alter it.
pub proof fn lemma_matching_stable(
    log1: Seq<Signal>,
    log2: Seq<Signal>,
    b: SignalBinding,
    lo: int,
    hi: int,
)
    requires
        forall|k: int| lo <= k < hi ==> log2[k] == #[trigger] log1[k],
    ensures
        matching_payloads(log2, b, lo, hi) == matching_payloads(log1, b, lo, hi),
    decreases hi - lo,
{
    if lo < hi {
        lemma_matching_stable(log1, log2, b, lo, hi - 1);
    }
}

/// Ordering: over a stretch of the log where every signal matches — a single
/// publisher emitting on the subscriber's own binding — the subscriber
/// receives one payload per signal, in emission order, none duplicated: the
/// i-th received payload is the payload of the i-th emitted signal.
pub proof fn lemma_matching_ordering(log: Seq<Signal>, b: SignalBinding, lo: int, hi: int)
    requires
        lo <= hi,
        forall|k: int| lo <= k < hi ==> (#[trigger] log[k].binding.agrees(b)),
    ensures
        matching_payloads(log, b, lo, hi).len() == hi - lo,
        forall|i: int|
            0 <= i < hi - lo ==> #[trigger] matching_payloads(log, b, lo, hi)[i] == log[lo
                + i].payload@,
    decreases hi - lo,
{
    if lo < hi {
        lemma_matching_ordering(log, b, lo, hi - 1);
    }
}

/// The log position that the `i`-th delivered payload of
/// `matching_payloads(log, b, lo, hi)` came from.
pub open spec fn source_index(log: Seq<Signal>, b: SignalBinding, lo: int, hi: int, i: int) -> int
    decreases hi - lo,
{
    if lo >= hi {
        lo - 1
    } else {
        if i < matching_payloads(log, b, lo, hi - 1).len() {
            source_index(log, b, lo, hi - 1, i)
        } else {
            hi - 1
        }
    }
}

/// Each delivered payload is the payload of a matching signal within
/// `log[lo..hi]` — never one from before `lo` — and deliveries preserve
/// emission order: the source positions are strictly increasing, so no
/// signal is delivered twice.
pub proof fn lemma_matching_source(log: Seq<Signal>, b: SignalBinding, lo: int, hi: int)
    requires
        lo <= hi,
    ensures
        forall|i: int|
            0 <= i < matching_payloads(log, b, lo, hi).len() ==> lo <= #[trigger] source_index(
                log,
                b,
                lo,
                hi,
                i,
            ) < hi,
        forall|i: int|
            0 <= i < matching_payloads(log, b, lo, hi).len() ==> log[#[trigger] source_index(
                log,
                b,
                lo,
                hi,
                i,
            )].binding.agrees(b),
        forall|i: int|
            0 <= i < matching_payloads(log, b, lo, hi).len() ==> matching_payloads(log, b, lo, hi)[i]
                == log[#[trigger] source_index(log, b, lo, hi, i)].payload@,
        forall|i1: int, i2: int|
            0 <= i1 < i2 < matching_payloads(log, b, lo, hi).len() ==> #[trigger] source_index(
                log,
                b,
                lo,
                hi,
                i1,
            ) < #[trigger] source_index(log, b, lo, hi, i2),
    decreases hi - lo,
{
    if lo < hi {
        lemma_matching_source(log, b, lo, hi - 1);
        assert forall|i: int|
            0 <= i < matching_payloads(log, b, lo, hi).len() implies lo <= #[trigger] source_index(
            log,
            b,
            lo,
            hi,
            i,
        ) < hi && log[source_index(log, b, lo, hi, i)].binding.agrees(b) && matching_payloads(
            log,
            b,
            lo,
            hi,
        )[i] == log[source_index(log, b, lo, hi, i)].payload@ by {
            if i < matching_payloads(log, b, lo, hi - 1).len() {
                assert(source_index(log, b, lo, hi, i) == source_index(log, b, lo, hi - 1, i));
                assert(matching_payloads(log, b, lo, hi)[i] == matching_payloads(
                    log,
                    b,
                    lo,
                    hi - 1,
                )[i]);
            } else {
                assert(source_index(log, b, lo, hi, i) == hi - 1);
            }
        }
        assert forall|i1: int, i2: int|
            0 <= i1 < i2 < matching_payloads(log, b, lo, hi).len() implies #[trigger] source_index(
            log,
            b,
            lo,
            hi,
            i1,
        ) < #[trigger] source_index(log, b, lo, hi, i2) by {
            if i2 < matching_payloads(log, b, lo, hi - 1).len() {
                assert(source_index(log, b, lo, hi - 1, i1) < source_index(log, b, lo, hi - 1, i2));
            } else {
                assert(source_index(log, b, lo, hi, i1) == source_index(log, b, lo, hi - 1, i1));
                assert(source_index(log, b, lo, hi - 1, i1) < hi - 1);
            }
        }
    }
}

/// The bus: the well-known names currently claimed, and the log of every
/// signal broadcast so far, in emission order.
#[derive(Debug)]
pub struct Bus {
    pub names: Vec<String>,
    pub log: Vec<Signal>,
}

impl Bus {
    /// The bus invariant: each well-known name is owned by at most one
    /// process, so the claimed names are pairwise distinct.
    pub open spec fn wf(self) -> bool {
        forall|i: int, j: int|
            0 <= i < j < self.names@.len() ==> #[trigger] self.names@[i]@
                != #[trigger] self.names@[j]@
    }

    /// Whether some process currently owns `name`.
    pub open spec fn holds_name(self, name: Seq<char>) -> bool {
        exists|i: int| 0 <= i < self.names@.len() && #[trigger] self.names@[i]@ == name
    }

    /// A fresh bus with no claimed name and no emitted signal.
    pub fn new() -> (bus: Bus)
        ensures
            bus.names@.len() == 0,
            bus.log@.len() == 0,
            bus.wf(),
    {
        Bus { names: Vec::new(), log: Vec::new() }
    }

    /// Whether `name` is currently claimed.
    pub fn has_name(&self, name: &str) -> (r: bool)
        ensures
            r == self.holds_name(name@),
    {
        let wanted = name.to_owned();
        let mut i: usize = 0;
        while i < self.names.len()
            invariant
                i <= self.names@.len(),
                wanted@ == name@,
                forall|k: int| 0 <= k < i ==> #[trigger] self.names@[k]@ != name@,
            decreases self.names.len() - i,
        {
            if self.names[i] == wanted {
                return true;
            }
            i = i + 1;
        }
        false
    }

    /// Claims a well-known name. Fails with `NameTaken` exactly when another
    /// process already owns the name; a failed claim changes nothing, and a
    /// claim never disturbs the signals already emitted.
    pub fn claim_name(&mut self, name: &str) -> (r: Result<(), ServiceError>)
        requires
            old(self).wf(),
        ensures
            final(self).wf(),
            r is Ok <==> !old(self).holds_name(name@),
            r matches Err(e) ==> e == ServiceError::NameTaken && *final(self) == *old(self),
            final(self).log == old(self).log,
            r is Ok ==> final(self).names@.len() == old(self).names@.len() + 1
                && final(self).names@.last()@ == name@
                && final(self).names@.drop_last() == old(self).names@,
            r is Ok ==> final(self).holds_name(name@),
            forall|m: Seq<char>| old(self).holds_name(m) ==> final(self).holds_name(m),
    {
        if self.has_name(name) {
            return Err(ServiceError::NameTaken);
        }
        self.names.push(name.to_owned());
        proof {
            assert(self.names@.drop_last() =~= old(self).names@);
            assert(self.names@[self.names@.len() - 1]@ == name@);
            assert forall|m: Seq<char>| old(self).holds_name(m) implies self.holds_name(m) by {
                let i = choose|i: int|
                    0 <= i < old(self).names@.len() && #[trigger] old(self).names@[i]@ == m;
                assert(self.names@[i]@ == m);
            }
        }
        Ok(())
    }

    /// Releases a claimed name: the name is no longer held, no other claim
    /// is touched, and the signals already emitted are undisturbed.
    pub fn release_name(&mut self, name: &str)
        requires
            old(self).wf(),
        ensures
            final(self).wf(),
            final(self).log == old(self).log,
            !final(self).holds_name(name@),
            forall|m: Seq<char>|
                m != name@ ==> (final(self).holds_name(m) <==> old(self).holds_name(m)),
    {
        let wanted = name.to_owned();
        let mut i: usize = 0;
        while i < self.names.len()
            invariant
                *self == *old(self),
                old(self).wf(),
                i <= self.names@.len(),
                wanted@ == name@,
                forall|k: int| 0 <= k < i ==> #[trigger] self.names@[k]@ != name@,
            decreases self.names.len() - i,
        {
            if self.names[i] == wanted {
                let ghost before = self.names@;
                self.names.remove(i);
                proof {
                    assert(before.remove(i as int) =~= before.subrange(0, i as int) + before.subrange(
                        i as int + 1,
                        before.len() as int,
                    ));
                    assert forall|m: Seq<char>|
                        m != name@ && old(self).holds_name(m) implies self.holds_name(m) by {
                        let j = choose|j: int|
                            0 <= j < before.len() && #[trigger] before[j]@ == m;
                        if j < i {
                            assert(self.names@[j]@ == m);
                        } else {
                            assert(self.names@[j - 1]@ == m);
                        }
                    }
                    assert forall|m: Seq<char>|
                        self.holds_name(m) implies old(self).holds_name(m) by {
                        let j = choose|j: int|
                            0 <= j < self.names@.len() && #[trigger] self.names@[j]@ == m;
                        if j < i {
                            assert(before[j]@ == m);
                        } else {
                            assert(before[j + 1]@ == m);
                        }
                    }
                    assert forall|m: Seq<char>| self.holds_name(m) implies m != name@ by {
                        let j = choose|j: int|
                            0 <= j < self.names@.len() && #[trigger] self.names@[j]@ == m;
                        if j < i {
                        } else {
                            assert(before[j + 1]@ == m);
                        }
                    }
                }
                return ;
            }
            i = i + 1;
        }
    }

    /// Broadcasts one signal: appended to the log, claims undisturbed.
    pub fn emit_signal(&mut self, s: Signal) -> (r: Result<(), ServiceError>)
        requires
            old(self).wf(),
        ensures
            final(self).wf(),
            r is Ok,
            final(self).names == old(self).names,
            final(self).log@ == old(self).log@.push(s),
    {
        self.log.push(s);
        Ok(())
    }

    /// Opens a subscription for one binding. The subscription starts at the
    /// current end of the log: signals emitted before this point are never
    /// replayed to it.
    pub fn subscribe(&self, binding: &SignalBinding) -> (sub: Subscription)
        ensures
            sub.binding == *binding,
            sub.start == self.log@.len(),
            sub.cursor == sub.start,
            sub.received@ == Seq::<Seq<Field>>::empty(),
            sub.wf(self),
    {
        Subscription {
            binding: binding.clone(),
            start: self.log.len(),
            cursor: self.log.len(),
            received: Ghost(Seq::empty()),
        }
    }
}

/// A live subscription: a binding, the point in the log where it was
/// opened, a cursor over the log, and — as a ghost record — everything it
/// has delivered so far.
pub struct Subscription {
    pub binding: SignalBinding,
    pub start: usize,
    pub cursor: usize,
    /// The payloads delivered so far, in delivery order.
    pub received: Ghost<Seq<Seq<Field>>>,
}

impl Subscription {
    /// The subscription's invariant against the bus it watches: the cursor
    /// lies between the subscription point and the end of the log, and what
    /// was delivered is exactly the matching payloads of the log between the
    /// subscription point and the cursor, in emission order.
    pub open spec fn wf(self, bus: &Bus) -> bool {
        &&& self.start <= self.cursor <= bus.log@.len()
        &&& self.received@ == matching_payloads(
            bus.log@,
            self.binding,
            self.start as int,
            self.cursor as int,
        )
    }

    /// Delivers the next matching signal's payload, or `None` when the
    /// subscriber has caught up with the log. Signals whose binding
    /// disagrees are silently skipped; each matching signal is delivered
    /// exactly once, in emission order.
    pub fn next(&mut self, bus: &Bus) -> (r: Option<Payload>)
        requires
            old(self).wf(bus),
        ensures
            final(self).wf(bus),
            final(self).binding == old(self).binding,
            final(self).start == old(self).start,
            old(self).cursor <= final(self).cursor,
            r matches Some(p) ==> final(self).received@ == old(self).received@.push(p@)
                && exists|j: int|
                old(self).cursor <= j < bus.log@.len() && (#[trigger] bus.log@[j]).binding.agrees(
                    old(self).binding,
                ) && p@ == bus.log@[j].payload@ && final(self).cursor == j + 1,
            r is None ==> final(self).received@ == old(self).received@ && final(self).cursor
                == bus.log@.len() && forall|k: int|
                old(self).cursor <= k < bus.log@.len() ==> !(#[trigger] bus.log@[k]).binding.agrees(
                    old(self).binding,
                ),
    {
        let mut i: usize = self.cursor;
        while i < bus.log.len()
            invariant
                old(self).cursor <= i <= bus.log@.len(),
                *self == *old(self),
                old(self).wf(bus),
                forall|k: int|
                    old(self).cursor <= k < i ==> !(#[trigger] bus.log@[k]).binding.agrees(
                        old(self).binding,
                    ),
            decreases bus.log.len() - i,
        {
            if bus.log[i].binding.agrees_with(&self.binding) {
                let p = clone_payload(&bus.log[i].payload);
                proof {
                    lemma_matching_skip(
                        bus.log@,
                        self.binding,
                        self.start as int,
                        self.cursor as int,
                        i as int,
                    );
                    assert(matching_payloads(
                        bus.log@,
                        self.binding,
                        self.start as int,
                        i as int + 1,
                    ) == self.received@.push(bus.log@[i as int].payload@));
                }
                self.cursor = i + 1;
                self.received = Ghost(self.received@.push(p@));
                return Some(p);
            }
            i = i + 1;
        }
        proof {
            lemma_matching_skip(
                bus.log@,
                self.binding,
                self.start as int,
                self.cursor as int,
                bus.log@.len() as int,
            );
        }
        self.cursor = bus.log.len();
        None
    }
}

/// Ordering: a subscriber that stays subscribed while a single publisher
/// emits on its binding observes the emitted payloads in emission order,
/// one for one, with none duplicated: its i-th delivery is the payload of
/// the i-th signal after its subscription point.
pub proof fn lemma_subscriber_ordering(bus: &Bus, sub: Subscription)
    requires
        sub.wf(bus),
        forall|k: int|
            sub.start <= k < sub.cursor ==> (#[trigger] bus.log@[k]).binding.agrees(sub.binding),
    ensures
        sub.received@.len() == sub.cursor - sub.start,
        forall|i: int|
            0 <= i < sub.received@.len() ==> #[trigger] sub.received@[i] == bus.log@[sub.start
                + i].payload@,
{
    lemma_matching_ordering(bus.log@, sub.binding, sub.start as int, sub.cursor as int);
}

/// Late subscription and no duplication: each payload a subscriber has
/// received came from a matching signal emitted at or after its subscription
/// point — nothing emitted earlier is ever replayed — and the source
/// positions are strictly increasing, so deliveries keep emission order and
/// no signal is delivered twice.
pub proof fn lemma_subscriber_no_replay(bus: &Bus, sub: Subscription)
    requires
        sub.wf(bus),
    ensures
        forall|i: int|
            0 <= i < sub.received@.len() ==> sub.start <= #[trigger] source_index(
                bus.log@,
                sub.binding,
                sub.start as int,
                sub.cursor as int,
                i,
            ) < sub.cursor,
        forall|i: int|
            0 <= i < sub.received@.len() ==> #[trigger] sub.received@[i] == bus.log@[source_index(
                bus.log@,
                sub.binding,
                sub.start as int,
                sub.cursor as int,
                i,
            )].payload@,
        forall|i1: int, i2: int|
            0 <= i1 < i2 < sub.received@.len() ==> #[trigger] source_index(
                bus.log@,
                sub.binding,
                sub.start as int,
                sub.cursor as int,
                i1,
            ) < #[trigger] source_index(
                bus.log@,
                sub.binding,
                sub.start as int,
                sub.cursor as int,
                i2,
            ),
{
    lemma_matching_source(bus.log@, sub.binding, sub.start as int, sub.cursor as int);
}

/// A subscription is undisturbed by new emissions: whatever is appended to
/// the log, everything already delivered, and the subscription's invariant,
/// still stand.
pub proof fn lemma_subscription_stable_under_emit(old_bus: &Bus, new_bus: &Bus, sub: Subscription)
    requires
        sub.wf(old_bus),
        old_bus.log@.len() <= new_bus.log@.len(),
        forall|k: int| 0 <= k < old_bus.log@.len() ==> #[trigger] new_bus.log@[k] == old_bus.log@[k],
    ensures
        sub.wf(new_bus),
{
    lemma_matching_stable(
        old_bus.log@,
        new_bus.log@,
        sub.binding,
        sub.start as int,
        sub.cursor as int,
    );
}

} // verus!
