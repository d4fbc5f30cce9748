//! The broker as a state machine over its registry, and what holds of every
//! run of it.
//!
//! The broker handles one event at a time. A subscription or a cancellation
//! changes the registry; a broadcast leaves the registry alone and hands one
//! frame to every session registered at that moment. The functions of the
//! broker are specified by the single steps defined here; the lemmas speak of
//! whole runs.

use vstd::prelude::*;
use super::registry::{
    Entry, distinct, holds, lemma_registered, lemma_unregistered, lookup, members, registered,
    slot, unregistered,
};

verus! {

/// One request to the broker, as a mathematical value.
pub enum Event<C> {
    /// Register `channel` under `id`.
    Subscribe { id: Seq<char>, channel: C },
    /// Forget the session registered under `id`.
    Unsubscribe { id: Seq<char> },
    /// Hand the frame `payload` to every registered session.
    Broadcast { payload: Seq<char> },
}

/// One frame handed to the session registered under `id`.
pub struct Handoff {
    pub id: Seq<char>,
    pub frame: Seq<char>,
}

/// The registry after the broker has handled `event`.
pub open spec fn step<C>(entries: Seq<Entry<C>>, event: Event<C>) -> Seq<Entry<C>> {
    match event {
        Event::Subscribe { id, channel } => registered(entries, id, channel),
        Event::Unsubscribe { id } => unregistered(entries, id),
        Event::Broadcast { .. } => entries,
    }
}

/// The frames the broker hands out while it handles `event`, in order: none
/// for a subscription or a cancellation, one per registered session for a
/// broadcast.
pub open spec fn handoffs<C>(entries: Seq<Entry<C>>, event: Event<C>) -> Seq<Handoff> {
    match event {
        Event::Broadcast { payload } => Seq::new(
            entries.len(),
            |i: int| Handoff { id: entries[i].id, frame: payload },
        ),
        _ => Seq::empty(),
    }
}

/// The registry after the broker, starting from `start`, has handled `events`
/// one by one in order.
pub open spec fn run<C>(start: Seq<Entry<C>>, events: Seq<Event<C>>) -> Seq<Entry<C>>
    decreases events.len(),
{
    if events.len() == 0 {
        start
    } else {
        step(run(start, events.drop_last()), events.last())
    }
}

/// Every frame handed out while the broker, starting from `start`, handles
/// `events` one by one, in the order of handing out.
pub open spec fn transcript<C>(start: Seq<Entry<C>>, events: Seq<Event<C>>) -> Seq<Handoff>
    decreases events.len(),
{
    if events.len() == 0 {
        Seq::empty()
    } else {
        transcript(start, events.drop_last()) + handoffs(
            run(start, events.drop_last()),
            events.last(),
        )
    }
}

/// The channel that the last word on `id` leaves registered: that of the
/// latest subscription under `id` unless a cancellation of `id` follows it,
/// and what `start` holds where `events` never mention `id`.
pub open spec fn last_writer<C>(start: Seq<Entry<C>>, events: Seq<Event<C>>, id: Seq<char>) -> Option<C>
    decreases events.len(),
{
    if events.len() == 0 {
        lookup(start, id)
    } else {
        match events.last() {
            Event::Subscribe { id: other, channel } if other == id => Some(channel),
            Event::Unsubscribe { id: other } if other == id => None,
            _ => last_writer(start, events.drop_last(), id),
        }
    }
}

/// A single step keeps identifiers distinct.
pub proof fn lemma_step_keeps_distinct<C>(entries: Seq<Entry<C>>, event: Event<C>)
    requires
        distinct(entries),
    ensures
        distinct(step(entries, event)),
{
    match event {
        Event::Subscribe { id, channel } => lemma_registered(entries, id, channel),
        Event::Unsubscribe { id } => lemma_unregistered(entries, id),
        Event::Broadcast { .. } => {},
    }
}

/// Whatever is asked of the broker, no identifier is ever registered twice.
pub proof fn lemma_run_keeps_distinct<C>(start: Seq<Entry<C>>, events: Seq<Event<C>>)
    requires
        distinct(start),
    ensures
        distinct(run(start, events)),
    decreases events.len(),
{
    if events.len() > 0 {
        lemma_run_keeps_distinct(start, events.drop_last());
        lemma_step_keeps_distinct(run(start, events.drop_last()), events.last());
    }
}

/// Last writer wins: after any sequence of requests, the channel registered
/// under `id` is the one that the last request about `id` left there. A later
/// subscription under a used identifier replaces the earlier one, and
/// cancelling an absent identifier changes nothing.
pub proof fn lemma_last_writer_wins<C>(start: Seq<Entry<C>>, events: Seq<Event<C>>, id: Seq<char>)
    requires
        distinct(start),
    ensures
        lookup(run(start, events), id) == last_writer(start, events, id),
        members(run(start, events)).contains_key(id) <==> last_writer(start, events, id) is Some,
        last_writer(start, events, id) matches Some(channel) ==> members(run(start, events))[id]
            == channel,
    decreases events.len(),
{
    if events.len() > 0 {
        let before = run(start, events.drop_last());
        lemma_last_writer_wins(start, events.drop_last(), id);
        lemma_run_keeps_distinct(start, events.drop_last());
        match events.last() {
            Event::Subscribe { id: other, channel } => {
                lemma_registered(before, other, channel);
                assert(members(before).insert(other, channel).contains_key(id) <==> (other == id
                    || members(before).contains_key(id)));
            },
            Event::Unsubscribe { id: other } => {
                lemma_unregistered(before, other);
                assert(members(before).remove(other).contains_key(id) <==> (other != id
                    && members(before).contains_key(id)));
            },
            Event::Broadcast { .. } => {},
        }
    }
}

/// A broadcast reaches every registered session and no other: it hands out
/// one frame per session, each holding the same payload, and hands nothing to
/// an identifier that is not registered. With no session registered it hands
/// out nothing.
pub proof fn lemma_broadcast_reaches_all<C>(entries: Seq<Entry<C>>, payload: Seq<char>)
    requires
        distinct(entries),
    ensures
        handoffs(entries, Event::Broadcast { payload }).len() == entries.len(),
        forall|i: int|
            0 <= i < entries.len() ==> (#[trigger] handoffs(entries, Event::Broadcast { payload })[i])
                == (Handoff { id: entries[i].id, frame: payload }),
        forall|id: Seq<char>|
            holds(entries, id) ==> handoffs(entries, Event::Broadcast { payload })[slot(entries, id)]
                == (Handoff { id, frame: payload }),
        forall|i: int|
            0 <= i < entries.len() ==> holds(
                entries,
                (#[trigger] handoffs(entries, Event::Broadcast { payload })[i]).id,
            ),
        forall|i: int, j: int|
            0 <= i < j < entries.len() ==> (#[trigger] handoffs(
                entries,
                Event::Broadcast { payload },
            )[i]).id != (#[trigger] handoffs(entries, Event::Broadcast { payload })[j]).id,
        step(entries, Event::Broadcast { payload }) == entries,
{
}

/// What was handed out up to some point of a run stays as it is, whatever
/// the broker is asked afterwards.
pub proof fn lemma_transcript_grows<C>(start: Seq<Entry<C>>, events: Seq<Event<C>>, k: int)
    requires
        0 <= k <= events.len(),
    ensures
        transcript(start, events.take(k)).len() <= transcript(start, events).len(),
        transcript(start, events.take(k)) == transcript(start, events).take(
            transcript(start, events.take(k)).len() as int,
        ),
    decreases events.len(),
{
    if k == events.len() {
        assert(events.take(k) =~= events);
    } else {
        assert(events.drop_last().take(k) =~= events.take(k));
        lemma_transcript_grows(start, events.drop_last(), k);
    }
}

/// Two broadcasts reach a subscriber in the order in which the broker handled
/// them. For a session that is registered when the broker handles the
/// broadcast at position `first` and still, or again, when it handles the one
/// at position `second`, the frame of the first stands in the transcript
/// before the frame of the second, each within what its own broadcast handed
/// out. The result gives the two positions.
pub proof fn lemma_broadcasts_keep_order<C>(
    start: Seq<Entry<C>>,
    events: Seq<Event<C>>,
    first: int,
    second: int,
    id: Seq<char>,
) -> (at: (int, int))
    requires
        distinct(start),
        0 <= first < second < events.len(),
        events[first] is Broadcast,
        events[second] is Broadcast,
        holds(run(start, events.take(first)), id),
        holds(run(start, events.take(second)), id),
    ensures
        transcript(start, events.take(first)).len() <= at.0 < transcript(
            start,
            events.take(first + 1),
        ).len(),
        transcript(start, events.take(first + 1)).len() <= transcript(
            start,
            events.take(second),
        ).len(),
        transcript(start, events.take(second)).len() <= at.1 < transcript(
            start,
            events.take(second + 1),
        ).len(),
        at.1 < transcript(start, events).len(),
        transcript(start, events)[at.0] == (Handoff { id, frame: events[first]->payload }),
        transcript(start, events)[at.1] == (Handoff { id, frame: events[second]->payload }),
{
    let whole = transcript(start, events);
    let a = lemma_broadcast_position(start, events, first, id);
    let b = lemma_broadcast_position(start, events, second, id);
    let upto = events.take(second);
    assert(upto.take(first + 1) =~= events.take(first + 1));
    lemma_transcript_grows(start, upto, first + 1);
    (a, b)
}

/// The frame that the broadcast at position `k` hands to the session
/// registered under `id` stands in the transcript within what that broadcast
/// handed out. The result gives its position.
pub proof fn lemma_broadcast_position<C>(
    start: Seq<Entry<C>>,
    events: Seq<Event<C>>,
    k: int,
    id: Seq<char>,
) -> (at: int)
    requires
        distinct(start),
        0 <= k < events.len(),
        events[k] is Broadcast,
        holds(run(start, events.take(k)), id),
    ensures
        transcript(start, events.take(k)).len() <= at < transcript(start, events.take(k + 1)).len(),
        at < transcript(start, events).len(),
        at == transcript(start, events.take(k)).len() + slot(run(start, events.take(k)), id),
        transcript(start, events)[at] == (Handoff { id, frame: events[k]->payload }),
{
    let before = events.take(k);
    let through = events.take(k + 1);
    let entries = run(start, before);
    assert(through.drop_last() =~= before);
    assert(through.last() == events[k]);
    let handed = handoffs(entries, events[k]);
    assert(transcript(start, through) == transcript(start, before) + handed);
    let s = slot(entries, id);
    assert(0 <= s < entries.len() && entries[s].id == id);
    let at = transcript(start, before).len() + s;
    assert(transcript(start, through)[at] == handed[s]);
    lemma_transcript_grows(start, events, k + 1);
    assert(transcript(start, events).take(transcript(start, through).len() as int)[at]
        == transcript(start, events)[at]);
    at
}

} // verus!
