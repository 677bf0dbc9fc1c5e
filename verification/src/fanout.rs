//! What a subscription gets to see, stated over whole histories.
//!
//! A history is the sequence of things that happen to one subscription while
//! the hub is open: messages are published, and the subscription is read.
//! These theorems follow a backlog through a history with the very functions
//! that the contracts of `Hub::publish` and `Subscription::next` are written
//! in. Each speaks of one subscription alone, whatever the others do: no other
//! subscription occurs in what decides a backlog.

use crate::hub::{Backlog, DeliveryView, CAPACITY};
use vstd::prelude::*;

verus! {

/// One thing that happens to a subscription.
pub enum Step {
    /// The hub took this message.
    Publish(Seq<char>),
    /// The subscription was read.
    Read,
}

/// The backlog after a history.
pub open spec fn backlog_after(start: Backlog, steps: Seq<Step>) -> Backlog
    decreases steps.len(),
{
    if steps.len() == 0 {
        start
    } else {
        let before = backlog_after(start, steps.drop_last());
        match steps.last() {
            Step::Publish(message) => before.publish(message),
            Step::Read => before.take(),
        }
    }
}

/// The messages that the reads of a history handed out, in the order in
/// which they were handed out.
pub open spec fn received(start: Backlog, steps: Seq<Step>) -> Seq<Seq<char>>
    decreases steps.len(),
{
    if steps.len() == 0 {
        Seq::empty()
    } else {
        let before = backlog_after(start, steps.drop_last());
        let earlier = received(start, steps.drop_last());
        match (steps.last(), before.front()) {
            (Step::Read, DeliveryView::Message(message)) => earlier.push(message),
            _ => earlier,
        }
    }
}

/// The messages that were published in a history, in publish order.
pub open spec fn published(steps: Seq<Step>) -> Seq<Seq<char>>
    decreases steps.len(),
{
    if steps.len() == 0 {
        Seq::empty()
    } else {
        let earlier = published(steps.drop_last());
        match steps.last() {
            Step::Publish(message) => earlier.push(message),
            Step::Read => earlier,
        }
    }
}

/// Whether the subscription kept up throughout: at no point of the history
/// had it missed a message.
pub open spec fn never_lagged(start: Backlog, steps: Seq<Step>) -> bool
    decreases steps.len(),
{
    if steps.len() == 0 {
        start.missed == 0
    } else {
        never_lagged(start, steps.drop_last()) && backlog_after(start, steps).missed == 0
    }
}

/// Whether `part` is what is left of `whole` when some of its messages are
/// left out and the others stay in their order.
pub open spec fn is_subsequence(part: Seq<Seq<char>>, whole: Seq<Seq<char>>) -> bool
    decreases whole.len(),
{
    if part.len() == 0 {
        true
    } else if whole.len() == 0 {
        false
    } else {
        (part.last() == whole.last() && is_subsequence(part.drop_last(), whole.drop_last()))
            || is_subsequence(part, whole.drop_last())
    }
}

/// The history in which `messages` are published and nothing is read.
pub open spec fn unread(messages: Seq<Seq<char>>) -> Seq<Step> {
    Seq::new(messages.len(), |i: int| Step::Publish(messages[i]))
}

/// A backlog stays well formed through any history.
pub proof fn lemma_backlog_stays_wf(start: Backlog, steps: Seq<Step>)
    requires
        start.wf(),
    ensures
        backlog_after(start, steps).wf(),
    decreases steps.len(),
{
    if steps.len() > 0 {
        lemma_backlog_stays_wf(start, steps.drop_last());
    }
}

/// Nothing is lost and nothing is reordered for a subscription that keeps up:
/// what waited at the start followed by what was published is what the reads
/// handed out followed by what still waits.
pub proof fn lemma_kept_up_sees_everything(start: Backlog, steps: Seq<Step>)
    requires
        never_lagged(start, steps),
    ensures
        received(start, steps) + backlog_after(start, steps).pending == start.pending + published(
            steps,
        ),
    decreases steps.len(),
{
    if steps.len() == 0 {
        assert(received(start, steps) + start.pending =~= start.pending + published(steps));
    } else {
        let shorter = steps.drop_last();
        lemma_kept_up_sees_everything(start, shorter);
        let before = backlog_after(start, shorter);
        let earlier = received(start, shorter);
        let after = backlog_after(start, steps);
        match steps.last() {
            Step::Publish(message) => {
                assert(earlier + after.pending =~= (earlier + before.pending).push(message));
                assert(start.pending + published(steps) =~= (start.pending + published(
                    shorter,
                )).push(message));
            },
            Step::Read => {
                if before.pending.len() > 0 {
                    assert(received(start, steps) + after.pending =~= earlier + before.pending);
                }
            },
        }
    }
}

/// Fan-out: two subscriptions made on the same hub, before the same messages
/// were published, that both kept up and have both read all there is, were
/// handed the same messages in the same order, and these are the published
/// messages in publish order. Their reads may interleave with the publishing
/// in any two ways.
pub proof fn lemma_fan_out(one: Seq<Step>, other: Seq<Step>)
    requires
        published(one) == published(other),
        never_lagged(Backlog::empty(), one),
        never_lagged(Backlog::empty(), other),
        backlog_after(Backlog::empty(), one).pending.len() == 0,
        backlog_after(Backlog::empty(), other).pending.len() == 0,
    ensures
        received(Backlog::empty(), one) == published(one),
        received(Backlog::empty(), other) == published(one),
{
    lemma_kept_up_sees_everything(Backlog::empty(), one);
    lemma_kept_up_sees_everything(Backlog::empty(), other);
    let start = Backlog::empty();
    assert(received(start, one) =~= received(start, one) + backlog_after(start, one).pending);
    assert(received(start, other) =~= received(start, other) + backlog_after(
        start,
        other,
    ).pending);
    assert(published(one) =~= start.pending + published(one));
}

/// A subscription that is not read while messages are published keeps the
/// latest `CAPACITY` of what waited and what came, and has missed the rest.
pub proof fn lemma_unread_backlog(start: Backlog, messages: Seq<Seq<char>>)
    requires
        start.wf(),
    ensures
        published(unread(messages)) == messages,
        start.pending.len() + messages.len() <= CAPACITY ==> backlog_after(start, unread(messages))
            == (Backlog { pending: start.pending + messages, missed: start.missed }),
        start.pending.len() + messages.len() > CAPACITY ==> backlog_after(start, unread(messages))
            == (Backlog {
            pending: (start.pending + messages).skip(
                start.pending.len() + messages.len() - CAPACITY,
            ),
            missed: (start.missed + start.pending.len() + messages.len() - CAPACITY) as nat,
        }),
    decreases messages.len(),
{
    let steps = unread(messages);
    if messages.len() == 0 {
        assert(start.pending + messages =~= start.pending);
        assert(published(steps) =~= messages);
    } else {
        let fewer = messages.drop_last();
        let last = messages.last();
        lemma_unread_backlog(start, fewer);
        assert(steps.drop_last() =~= unread(fewer));
        assert(published(steps) =~= messages);
        let before = backlog_after(start, unread(fewer));
        let after = backlog_after(start, steps);
        let all = start.pending + messages;
        assert(all =~= (start.pending + fewer).push(last));
        if start.pending.len() + messages.len() <= CAPACITY {
            assert(after.pending =~= all);
        } else {
            assert(after.pending =~= all.skip(all.len() - CAPACITY));
        }
    }
}

/// Lag: a subscription made on the hub and then left unread while more than
/// `CAPACITY` messages are published is told, at its next read, how many it
/// has missed, and is handed the latest `CAPACITY` messages after that.
pub proof fn lemma_stalled_subscription_lags(messages: Seq<Seq<char>>)
    requires
        messages.len() > CAPACITY,
    ensures
        ({
            let stalled = backlog_after(Backlog::empty(), unread(messages));
            &&& stalled.front() == DeliveryView::Lagged((messages.len() - CAPACITY) as nat)
            &&& stalled.take() == (Backlog {
                pending: messages.skip(messages.len() - CAPACITY),
                missed: 0,
            })
        }),
{
    lemma_unread_backlog(Backlog::empty(), messages);
    assert(Backlog::empty().pending + messages =~= messages);
}

/// Lag isolation: while one subscription is left unread until it lags, any
/// other subscription on the same hub that keeps up is handed every one of
/// the messages, in publish order. Nothing in the history of the one occurs
/// in what the other is handed.
pub proof fn lemma_lag_is_isolated(messages: Seq<Seq<char>>, other: Seq<Step>)
    requires
        messages.len() > CAPACITY,
        published(other) == messages,
        never_lagged(Backlog::empty(), other),
        backlog_after(Backlog::empty(), other).pending.len() == 0,
    ensures
        published(unread(messages)) == messages,
        backlog_after(Backlog::empty(), unread(messages)).front() == DeliveryView::Lagged(
            (messages.len() - CAPACITY) as nat,
        ),
        received(Backlog::empty(), other) == messages,
{
    lemma_stalled_subscription_lags(messages);
    lemma_unread_backlog(Backlog::empty(), messages);
    lemma_fan_out(other, other);
}

proof fn lemma_subsequence_without(part: Seq<Seq<char>>, whole: Seq<Seq<char>>, index: int)
    requires
        is_subsequence(part, whole),
        0 <= index < part.len(),
    ensures
        is_subsequence(part.remove(index), whole),
    decreases whole.len(),
{
    let rest = part.remove(index);
    if rest.len() > 0 {
        if part.last() == whole.last() && is_subsequence(part.drop_last(), whole.drop_last()) {
            if index == part.len() - 1 {
                assert(rest =~= part.drop_last());
            } else {
                lemma_subsequence_without(part.drop_last(), whole.drop_last(), index);
                assert(rest.drop_last() =~= part.drop_last().remove(index));
                assert(rest.last() == part.last());
            }
        } else {
            lemma_subsequence_without(part, whole.drop_last(), index);
        }
    }
}

/// Order is kept, lag or no lag: what the reads of any history handed out,
/// followed by what still waits, is what waited at the start followed by what
/// was published, with some messages left out and none moved.
pub proof fn lemma_order_is_kept(start: Backlog, steps: Seq<Step>)
    ensures
        is_subsequence(
            received(start, steps) + backlog_after(start, steps).pending,
            start.pending + published(steps),
        ),
    decreases steps.len(),
{
    let seen = received(start, steps) + backlog_after(start, steps).pending;
    let all = start.pending + published(steps);
    if steps.len() == 0 {
        assert(seen =~= start.pending);
        assert(all =~= start.pending);
        lemma_subsequence_of_itself(start.pending);
    } else {
        let shorter = steps.drop_last();
        lemma_order_is_kept(start, shorter);
        let before = backlog_after(start, shorter);
        let earlier = received(start, shorter);
        let seen_before = earlier + before.pending;
        let all_before = start.pending + published(shorter);
        match steps.last() {
            Step::Publish(message) => {
                assert(all =~= all_before.push(message));
                assert(all.drop_last() =~= all_before);
                if before.pending.len() < CAPACITY {
                    assert(seen =~= seen_before.push(message));
                    assert(seen.drop_last() =~= seen_before);
                } else {
                    lemma_subsequence_without(seen_before, all_before, earlier.len() as int);
                    assert(seen.drop_last() =~= seen_before.remove(earlier.len() as int));
                    assert(seen.last() == message);
                }
            },
            Step::Read => {
                assert(all =~= all_before);
                assert(seen =~= seen_before);
            },
        }
    }
}

proof fn lemma_subsequence_of_itself(messages: Seq<Seq<char>>)
    ensures
        is_subsequence(messages, messages),
    decreases messages.len(),
{
    if messages.len() > 0 {
        lemma_subsequence_of_itself(messages.drop_last());
    }
}

/// A new subscription is handed nothing that was published before it was
/// made: whatever its reads hand out, while it keeps up, is the beginning of
/// what was published since.
pub proof fn lemma_new_subscription_sees_only_later(steps: Seq<Step>)
    requires
        never_lagged(Backlog::empty(), steps),
    ensures
        received(Backlog::empty(), steps).len() <= published(steps).len(),
        received(Backlog::empty(), steps) == published(steps).take(
            received(Backlog::empty(), steps).len() as int,
        ),
{
    let start = Backlog::empty();
    lemma_kept_up_sees_everything(start, steps);
    let got = received(start, steps);
    let waiting = backlog_after(start, steps).pending;
    assert(start.pending + published(steps) =~= published(steps));
    assert(got =~= (got + waiting).take(got.len() as int));
}

} // verus!
