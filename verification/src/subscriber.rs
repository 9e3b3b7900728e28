//! The notification subscriber: the consumption loop over a subscription.
//!
//! The subscriber repeatedly asks its subscription for the next delivered
//! payload and decodes it into a typed event before asking for the next
//! one. A payload that decodes to no event of the schema ends the loop with
//! a decode error — the policy here is to terminate, not to skip and
//! continue.

use vstd::prelude::*;

use crate::bus::Bus;
use crate::bus::Subscription;
use crate::codec::decode_event;
use crate::codec::is_event_payload;
use crate::errors::ServiceError;
use crate::events::Event;

verus! {

/// Consumes every signal currently delivered to the subscription, in
/// delivery order, decoding each payload into its typed event. On success
/// the subscriber has caught up with the log and the returned events are,
/// one for one and in order, the decodings of the payloads delivered during
/// the call. The first payload that matches no schema ends the loop with a
/// decode error.
pub fn consume_signals(bus: &Bus, sub: &mut Subscription) -> (r: Result<Vec<Event>, ServiceError>)
    requires
        old(sub).wf(bus),
    ensures
        final(sub).wf(bus),
        final(sub).binding == old(sub).binding,
        final(sub).start == old(sub).start,
        old(sub).received@.len() <= final(sub).received@.len(),
        r matches Ok(events) ==> {
            &&& final(sub).cursor == bus.log@.len()
            &&& final(sub).received@.len() == old(sub).received@.len() + events@.len()
            &&& forall|i: int|
                0 <= i < events@.len() ==> is_event_payload(
                    final(sub).received@[old(sub).received@.len() + i],
                    #[trigger] events@[i],
                )
        },
        r matches Err(e) ==> e == ServiceError::Decode && final(sub).received@.len() > old(
            sub,
        ).received@.len() && !(exists|ev: Event|
            is_event_payload(final(sub).received@.last(), ev)),
{
    let mut events: Vec<Event> = Vec::new();
    loop
        invariant
            sub.wf(bus),
            sub.binding == old(sub).binding,
            sub.start == old(sub).start,
            sub.received@.len() == old(sub).received@.len() + events@.len(),
            forall|i: int|
                0 <= i < events@.len() ==> is_event_payload(
                    sub.received@[old(sub).received@.len() + i],
                    #[trigger] events@[i],
                ),
        decreases bus.log@.len() - sub.cursor,
    {
        match sub.next(bus) {
            None => {
                return Ok(events);
            },
            Some(payload) => {
                match decode_event(&payload) {
                    Ok(ev) => {
                        proof {
                            assert(sub.received@.last() == payload@);
                        }
                        events.push(ev);
                    },
                    Err(e) => {
                        return Err(e);
                    },
                }
            },
        }
    }
}

} // verus!
