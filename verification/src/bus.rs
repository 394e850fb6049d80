//! The trigger bus: a many-producer, single-consumer aggregation point.
//!
//! Every monitor owns a producer handle; exactly one consumer takes events
//! out. The contract of the process is that the consumer meaningfully
//! observes at most one event — the first one delivered — and that a send
//! never blocks or fails the sending monitor. This module captures those
//! delivery rules; the concurrent transport around them only has to deliver
//! sends in order into the single queue.

use vstd::prelude::*;

verus! {

use crate::event::TriggerEvent;

/// The delivery state of the bus: everything sent so far, in delivery order,
/// and whether the single consumer has already taken its one event.
pub struct TriggerBus {
    sent: Vec<TriggerEvent>,
    consumed: bool,
}

impl TriggerBus {
    /// Everything delivered into the bus so far, in delivery order.
    pub closed spec fn sent_events(&self) -> Seq<TriggerEvent> {
        self.sent@
    }

    /// Whether the consumer has already observed its one event.
    pub closed spec fn is_consumed(&self) -> bool {
        self.consumed
    }

    pub fn new() -> (r: TriggerBus)
        ensures
            r.sent_events() == Seq::<TriggerEvent>::empty(),
            !r.is_consumed(),
    {
        TriggerBus { sent: Vec::new(), consumed: false }
    }

    /// A producer delivers an event. This never fails, blocks or panics,
    /// whatever the consumer has done: an event arriving after the single
    /// meaningful delivery is recorded but will never be observed.
    pub fn send(&mut self, e: TriggerEvent)
        ensures
            final(self).sent_events() == old(self).sent_events().push(e),
            final(self).is_consumed() == old(self).is_consumed(),
    {
        self.sent.push(e);
    }

    /// The single consumer takes its event: the first one delivered, if any
    /// was. At most one call ever returns `Some`; afterwards the bus is
    /// spent and every later call returns `None`. An empty bus also returns
    /// `None` (the caller suspends and retries instead of busy-reading).
    pub fn recv(&mut self) -> (r: Option<TriggerEvent>)
        ensures
            final(self).sent_events() == old(self).sent_events(),
            old(self).is_consumed() ==> r is None && final(self).is_consumed(),
            !old(self).is_consumed() ==> (r is Some <==> old(self).sent_events().len() > 0),
            !old(self).is_consumed() && old(self).sent_events().len() > 0 ==> (r
                == Some(old(self).sent_events()[0]) && final(self).is_consumed()),
            !old(self).is_consumed() && old(self).sent_events().len() == 0 ==> !final(self).is_consumed(),
    {
        if self.consumed {
            None
        } else if self.sent.len() > 0 {
            self.consumed = true;
            Some(self.sent[0])
        } else {
            None
        }
    }
}

/// The queue contents after delivering `events`, in order, into a bus whose
/// queue holds `q`.
pub open spec fn send_all(q: Seq<TriggerEvent>, events: Seq<TriggerEvent>) -> Seq<TriggerEvent>
    decreases events.len(),
{
    if events.len() == 0 {
        q
    } else {
        send_all(q.push(events[0]), events.skip(1))
    }
}

/// Delivering a sequence of events appends it to the queue.
pub proof fn lemma_send_all_appends(q: Seq<TriggerEvent>, events: Seq<TriggerEvent>)
    ensures
        send_all(q, events) == q + events,
    decreases events.len(),
{
    if events.len() == 0 {
        assert(send_all(q, events) =~= q + events);
    } else {
        lemma_send_all_appends(q.push(events[0]), events.skip(1));
        assert(q.push(events[0]) + events.skip(1) =~= q + events);
    }
}

/// For any sequence of events delivered before the single receive, the
/// consumer observes exactly one event, and it is the first one sent: a
/// fresh bus that takes `events` has them queued in order, so the one
/// meaningful `recv` returns `events[0]`.
pub proof fn lemma_first_sent_wins(events: Seq<TriggerEvent>)
    requires
        events.len() > 0,
    ensures
        send_all(Seq::<TriggerEvent>::empty(), events) == events,
        send_all(Seq::<TriggerEvent>::empty(), events)[0] == events[0],
{
    lemma_send_all_appends(Seq::<TriggerEvent>::empty(), events);
    assert(Seq::<TriggerEvent>::empty() + events =~= events);
}

} // verus!
