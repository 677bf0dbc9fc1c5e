//! The broadcast hub: one producer, any number of subscriptions, and for each
//! subscription a bounded backlog of its own.
//!
//! The hub keeps the latest `CAPACITY` messages once, in publish order, and
//! numbers every message it takes. A subscription is a position in that
//! numbering. What waits for a subscription is what the hub still keeps from
//! its position on; what the hub has discarded from its position on is what
//! it has missed. Publishing never looks at a subscription, so no subscription
//! can hold the producer up.

use std::collections::VecDeque;
use vstd::prelude::*;

verus! {

/// Messages that the hub keeps, and so the most that can wait for one
/// subscription.
pub const CAPACITY: usize = 16;

/// What waits for one subscription: the messages it has not taken yet, oldest
/// first, and the number of messages that were discarded before it took them.
pub struct Backlog {
    pub pending: Seq<Seq<char>>,
    pub missed: nat,
}

/// What one call of `Subscription::next` hands out, as a mathematical value.
pub enum DeliveryView {
    Message(Seq<char>),
    Lagged(nat),
    Closed,
    Pending,
}

impl Backlog {
    /// The backlog of a subscription that has just been made.
    pub open spec fn empty() -> Backlog {
        Backlog { pending: Seq::empty(), missed: 0 }
    }

    /// A backlog never holds more than `CAPACITY` messages, and it has missed
    /// messages only while it is full.
    pub open spec fn wf(self) -> bool {
        &&& self.pending.len() <= CAPACITY
        &&& self.missed > 0 ==> self.pending.len() == CAPACITY
    }

    /// The backlog after one more message was published. A full backlog
    /// loses its oldest message and counts it as missed.
    pub open spec fn publish(self, message: Seq<char>) -> Backlog {
        if self.pending.len() < CAPACITY {
            Backlog { pending: self.pending.push(message), missed: self.missed }
        } else {
            Backlog { pending: self.pending.drop_first().push(message), missed: self.missed + 1 }
        }
    }

    /// What the next read hands out while the hub is open: first the number
    /// of missed messages, if any were missed, else the oldest waiting
    /// message, else nothing yet.
    pub open spec fn front(self) -> DeliveryView {
        if self.missed > 0 {
            DeliveryView::Lagged(self.missed)
        } else if self.pending.len() > 0 {
            DeliveryView::Message(self.pending[0])
        } else {
            DeliveryView::Pending
        }
    }

    /// The backlog after that read.
    pub open spec fn take(self) -> Backlog {
        if self.missed > 0 {
            Backlog { pending: self.pending, missed: 0 }
        } else if self.pending.len() > 0 {
            Backlog { pending: self.pending.drop_first(), missed: 0 }
        } else {
            self
        }
    }
}

/// The hub as a mathematical value.
pub struct HubView {
    /// The messages that the hub still keeps, oldest first.
    pub retained: Seq<Seq<char>>,
    /// How many messages it has discarded to make room.
    pub discarded: nat,
    /// Whether it has been closed.
    pub closed: bool,
}

impl HubView {
    /// How many messages the hub has taken since it was made.
    pub open spec fn published(self) -> nat {
        self.discarded + self.retained.len()
    }

    /// The hub keeps at most `CAPACITY` messages, has discarded none while
    /// it had room, and numbers its messages within 64 bits.
    pub open spec fn wf(self) -> bool {
        &&& self.retained.len() <= CAPACITY
        &&& self.discarded > 0 ==> self.retained.len() == CAPACITY
        &&& self.published() <= u64::MAX
    }

    /// Whether the hub takes another message: it is open and has a number
    /// left to give.
    pub open spec fn accepts(self) -> bool {
        !self.closed && self.published() < u64::MAX
    }

    /// The hub after it took `message`.
    pub open spec fn publish(self, message: Seq<char>) -> HubView {
        if self.retained.len() < CAPACITY {
            HubView { retained: self.retained.push(message), ..self }
        } else {
            HubView {
                retained: self.retained.drop_first().push(message),
                discarded: self.discarded + 1,
                closed: self.closed,
            }
        }
    }

    /// The hub after it was closed.
    pub open spec fn close(self) -> HubView {
        HubView { closed: true, ..self }
    }

    /// What waits for a subscription at `position`.
    pub open spec fn backlog(self, position: nat) -> Backlog {
        if position < self.discarded {
            Backlog { pending: self.retained, missed: (self.discarded - position) as nat }
        } else {
            Backlog { pending: self.retained.skip(position - self.discarded), missed: 0 }
        }
    }

    /// What a read of a subscription at `position` hands out. A closed hub
    /// hands out nothing but `Closed`, whatever waits.
    pub open spec fn read(self, position: nat) -> DeliveryView {
        if self.closed {
            DeliveryView::Closed
        } else {
            self.backlog(position).front()
        }
    }
}

/// What a read of a subscription hands out.
#[derive(Debug, PartialEq, Eq)]
pub enum Delivery {
    /// The oldest message that was waiting.
    Message(String),
    /// So many messages were discarded before this subscription took them.
    Lagged(u64),
    /// The hub is closed.
    Closed,
    /// Nothing waits: a caller would suspend here until the hub has news.
    Pending,
}

impl View for Delivery {
    type V = DeliveryView;

    open spec fn view(&self) -> DeliveryView {
        match self {
            Delivery::Message(message) => DeliveryView::Message(message@),
            Delivery::Lagged(missed) => DeliveryView::Lagged(*missed as nat),
            Delivery::Closed => DeliveryView::Closed,
            Delivery::Pending => DeliveryView::Pending,
        }
    }
}

/// The broadcast hub.
pub struct Hub {
    retained: VecDeque<String>,
    discarded: u64,
    closed: bool,
}

/// One consumer's place in the hub's stream of messages.
pub struct Subscription {
    position: u64,
}

impl View for Hub {
    type V = HubView;

    closed spec fn view(&self) -> HubView {
        HubView {
            retained: self.retained@.map_values(|message: String| message@),
            discarded: self.discarded as nat,
            closed: self.closed,
        }
    }
}

impl View for Subscription {
    type V = nat;

    /// The number of the next message that this subscription will take, had
    /// none been discarded.
    closed spec fn view(&self) -> nat {
        self.position as nat
    }
}

impl Hub {
    /// The hub's invariant: it keeps at most `CAPACITY` messages, has
    /// discarded none while it had room, and has not run out of numbers.
    pub open spec fn wf(&self) -> bool {
        self@.wf()
    }

    /// An open hub that has taken no message.
    pub fn new() -> (hub: Hub)
        ensures
            hub.wf(),
            hub@ == (HubView { retained: Seq::empty(), discarded: 0, closed: false }),
    {
        let hub = Hub { retained: VecDeque::new(), discarded: 0, closed: false };
        assert(hub@.retained =~= Seq::empty());
        hub
    }

    /// Whether the hub has been closed.
    pub fn is_closed(&self) -> (closed: bool)
        ensures
            closed == self@.closed,
    {
        self.closed
    }

    /// How many messages the hub has taken since it was made.
    pub fn published(&self) -> (count: u64)
        requires
            self.wf(),
        ensures
            count == self@.published(),
    {
        self.discarded + self.retained.len() as u64
    }

    /// Hands `message` to every subscription. The call does the same work
    /// whatever the subscriptions are and however far behind they have fallen.
    ///
    /// A closed hub takes nothing, nor does a hub whose numbers have run out;
    /// the message is then dropped and nothing changes.
    pub fn publish(&mut self, message: String) -> (accepted: bool)
        requires
            old(self).wf(),
        ensures
            final(self).wf(),
            accepted == old(self)@.accepts(),
            final(self)@ == (if accepted {
                old(self)@.publish(message@)
            } else {
                old(self)@
            }),
            forall|subscription: Subscription| #[trigger]
                subscription.attached(old(self)) ==> subscription.attached(final(self))
                    && subscription.backlog(final(self)) == (if accepted {
                    subscription.backlog(old(self)).publish(message@)
                } else {
                    subscription.backlog(old(self))
                }),
    {
        if self.closed || self.published() == u64::MAX {
            return false;
        }
        let ghost before = self@;
        if self.retained.len() == CAPACITY {
            let _ = self.retained.pop_front();
            self.discarded = self.discarded + 1;
        }
        self.retained.push_back(message);
        proof {
            assert(self@.retained =~= before.publish(message@).retained);
            assert forall|subscription: Subscription| #[trigger]
                subscription.attached(old(self)) implies subscription.attached(self)
                && subscription.backlog(self) == subscription.backlog(old(self)).publish(
                message@,
            ) by {
                lemma_publish_reaches_backlog(before, subscription@, message@);
            }
        }
        true
    }

    /// A new subscription. Nothing waits for it: it will see the messages
    /// published from now on and none that came before.
    pub fn subscribe(&self) -> (subscription: Subscription)
        requires
            self.wf(),
        ensures
            subscription.attached(self),
            subscription@ == self@.published(),
            subscription.backlog(self) == Backlog::empty(),
    {
        let subscription = Subscription { position: self.published() };
        assert(subscription.backlog(self).pending =~= Seq::empty());
        subscription
    }

    /// Closes the hub. From now on every read of every subscription is
    /// answered with `Delivery::Closed`. Closing a closed hub changes nothing.
    pub fn close(&mut self)
        requires
            old(self).wf(),
        ensures
            final(self).wf(),
            final(self)@ == old(self)@.close(),
            forall|subscription: Subscription| #[trigger]
                subscription.attached(old(self)) ==> subscription.attached(final(self))
                    && subscription.backlog(final(self)) == subscription.backlog(old(self)),
    {
        self.closed = true;
    }
}

impl Subscription {
    /// Whether this subscription is a place in `hub`'s stream: it is not
    /// ahead of what the hub has published.
    pub open spec fn attached(&self, hub: &Hub) -> bool {
        self@ <= hub@.published()
    }

    /// What waits for this subscription in `hub`.
    pub open spec fn backlog(&self, hub: &Hub) -> Backlog {
        hub@.backlog(self@)
    }

    /// Whether this subscription is a place in `hub`'s stream.
    pub fn is_attached(&self, hub: &Hub) -> (attached: bool)
        requires
            hub.wf(),
        ensures
            attached == self.attached(hub),
    {
        self.position <= hub.published()
    }

    /// Reads the subscription once, without waiting.
    ///
    /// On a closed hub the answer is `Closed` and nothing is taken. Else, if
    /// messages were discarded before this subscription took them, the answer
    /// is their number, and the count starts anew. Else it is the oldest
    /// waiting message, which is thereby taken. Else it is `Pending`.
    pub fn next(&mut self, hub: &Hub) -> (delivery: Delivery)
        requires
            hub.wf(),
            old(self).attached(hub),
        ensures
            final(self).attached(hub),
            delivery@ == hub@.read(old(self)@),
            final(self).backlog(hub) == (if hub@.closed {
                old(self).backlog(hub)
            } else {
                old(self).backlog(hub).take()
            }),
    {
        if hub.closed {
            return Delivery::Closed;
        }
        if self.position < hub.discarded {
            let missed = hub.discarded - self.position;
            self.position = hub.discarded;
            assert(self.backlog(hub).pending =~= old(self).backlog(hub).pending);
            return Delivery::Lagged(missed);
        }
        let offset = self.position - hub.discarded;
        if offset < hub.retained.len() as u64 {
            let message = hub.retained[offset as usize].clone();
            self.position = self.position + 1;
            assert(self.backlog(hub).pending =~= old(self).backlog(hub).pending.drop_first());
            Delivery::Message(message)
        } else {
            Delivery::Pending
        }
    }
}

/// Publishing reaches every subscription alike: what waits for a subscription
/// afterwards is what waited before, with the message added as
/// `Backlog::publish` says, wherever in the stream the subscription stands.
pub proof fn lemma_publish_reaches_backlog(hub: HubView, position: nat, message: Seq<char>)
    requires
        hub.wf(),
        position <= hub.published(),
    ensures
        position <= hub.publish(message).published(),
        hub.publish(message).backlog(position) == hub.backlog(position).publish(message),
{
    let after = hub.publish(message);
    assert(after.backlog(position).pending =~= hub.backlog(position).publish(message).pending);
}

/// What waits for a subscription is always a well-formed backlog.
pub proof fn lemma_backlog_wf(hub: HubView, position: nat)
    requires
        hub.wf(),
        position <= hub.published(),
    ensures
        hub.backlog(position).wf(),
{
}

} // verus!
