//! The event sink: the queue between the dispatch loop, which publishes,
//! and the consumer, which polls. Events leave in the order in which they
//! came.

use crate::data::{GatewayResponse, GatewayResponseView};
use std::collections::VecDeque;
use vstd::prelude::*;

verus! {

/// A queue of events without a bound.
#[derive(Debug)]
pub struct EventSink {
    queue: VecDeque<GatewayResponse>,
}

impl View for EventSink {
    type V = Seq<GatewayResponseView>;

    /// The events that wait, oldest first.
    closed spec fn view(&self) -> Seq<GatewayResponseView> {
        Seq::new(self.queue@.len(), |i: int| self.queue@[i]@)
    }
}

/// The queue after each event of `events` has been published to `queue`,
/// one after the other.
pub open spec fn publish_all(
    queue: Seq<GatewayResponseView>,
    events: Seq<GatewayResponseView>,
) -> Seq<GatewayResponseView>
    decreases events.len(),
{
    if events.len() == 0 {
        queue
    } else {
        publish_all(queue.push(events[0]), events.skip(1))
    }
}

/// What `n` polls of `queue` hand out, in the order of the polls. A poll of
/// an empty queue hands out nothing.
pub open spec fn polled(queue: Seq<GatewayResponseView>, n: nat) -> Seq<GatewayResponseView>
    decreases n,
{
    if n == 0 || queue.len() == 0 {
        Seq::empty()
    } else {
        seq![queue[0]] + polled(queue.skip(1), (n - 1) as nat)
    }
}

/// What is left of `queue` after `n` polls.
pub open spec fn after_polls(queue: Seq<GatewayResponseView>, n: nat) -> Seq<GatewayResponseView>
    decreases n,
{
    if n == 0 || queue.len() == 0 {
        queue
    } else {
        after_polls(queue.skip(1), (n - 1) as nat)
    }
}

impl EventSink {
    /// An empty sink.
    pub fn new() -> (sink: EventSink)
        ensures
            sink@ == Seq::<GatewayResponseView>::empty(),
    {
        let sink = EventSink { queue: VecDeque::new() };
        assert(sink@ =~= Seq::<GatewayResponseView>::empty());
        sink
    }

    /// The number of events that wait.
    pub fn len(&self) -> (n: usize)
        ensures
            n == self@.len(),
    {
        self.queue.len()
    }

    /// Puts `event` behind the events that wait. There is no bound on how
    /// many may wait.
    pub fn publish(&mut self, event: GatewayResponse)
        ensures
            final(self)@ == old(self)@.push(event@),
    {
        self.queue.push_back(event);
        assert(self@ =~= old(self)@.push(event@));
    }

    /// Hands out the oldest event that waits, without waiting for one.
    pub fn poll(&mut self) -> (r: Option<GatewayResponse>)
        ensures
            match r {
                Some(event) => old(self)@.len() > 0 && event@ == old(self)@[0] && final(self)@
                    == old(self)@.skip(1),
                None => old(self)@.len() == 0 && final(self)@ == old(self)@,
            },
    {
        let r = self.queue.pop_front();
        proof {
            if r is Some {
                assert(self@ =~= old(self)@.skip(1));
            }
        }
        r
    }
}

/// Publishing appends: the events that waited come first, then the new
/// ones, in the order in which they were published.
pub proof fn lemma_publish_all_appends(
    queue: Seq<GatewayResponseView>,
    events: Seq<GatewayResponseView>,
)
    ensures
        publish_all(queue, events) == queue + events,
    decreases events.len(),
{
    if events.len() == 0 {
        assert(queue + events =~= queue);
    } else {
        lemma_publish_all_appends(queue.push(events[0]), events.skip(1));
        assert(queue.push(events[0]) + events.skip(1) =~= queue + events);
    }
}

/// Polling a queue as often as it has events hands out all of them, oldest
/// first, and leaves it empty.
pub proof fn lemma_polls_hand_out_in_order(queue: Seq<GatewayResponseView>)
    ensures
        polled(queue, queue.len()) == queue,
        after_polls(queue, queue.len()) == Seq::<GatewayResponseView>::empty(),
    decreases queue.len(),
{
    if queue.len() > 0 {
        lemma_polls_hand_out_in_order(queue.skip(1));
        assert(seq![queue[0]] + queue.skip(1) =~= queue);
    } else {
        assert(queue =~= Seq::<GatewayResponseView>::empty());
    }
}

/// First in, first out: the consumer of an empty sink to which a sequence
/// of events was published observes exactly that sequence, in its order.
pub proof fn lemma_first_in_first_out(events: Seq<GatewayResponseView>)
    ensures
        polled(publish_all(Seq::empty(), events), events.len()) == events,
{
    lemma_publish_all_appends(Seq::empty(), events);
    assert(Seq::<GatewayResponseView>::empty() + events =~= events);
    lemma_polls_hand_out_in_order(events);
}

} // verus!
