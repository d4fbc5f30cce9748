//! The broker: owns the registry and fans events out to every session.

use vstd::prelude::*;
use super::json::SerializeError;
use super::message::{Connect, Disconnect, Message, MessageToClient};
use super::protocol::{Event, Handoff, handoffs, step};
use super::registry::{Entry, Registry, Session, distinct, members};

verus! {

/// What became of handing one frame to one session.
#[derive(Debug)]
pub struct Delivery<E> {
    /// The connection identifier of the session.
    pub id: String,
    /// What the session's channel answered.
    pub outcome: Result<(), E>,
}

/// What became of one broadcast.
#[derive(Debug)]
pub enum Fanout<E> {
    /// The envelope had no text form; nothing was handed to any session.
    Abandoned(SerializeError),
    /// The frame was handed to every registered session once.
    Delivered { payload: String, deliveries: Vec<Delivery<E>> },
}

/// `deliveries` is what handing `payload` to every entry leaves behind: one
/// delivery per entry, in visiting order, each carrying what `deliver`
/// answered for that entry's channel and a frame holding `payload`.
pub open spec fn fanned_out<C, E, F: Fn(&C, Message) -> Result<(), E>>(
    entries: Seq<Entry<C>>,
    payload: String,
    deliver: F,
    deliveries: Seq<Delivery<E>>,
) -> bool {
    &&& deliveries.len() == entries.len()
    &&& forall|i: int|
        0 <= i < entries.len() ==> {
            &&& (#[trigger] deliveries[i]).id@ == entries[i].id
            &&& call_ensures(deliver, (&entries[i].channel, Message(payload)), deliveries[i].outcome)
        }
}

/// The frames that `deliveries` stand for, in order: one per delivery, each
/// holding `payload` and addressed to the session of that delivery.
pub open spec fn handed_out<E>(deliveries: Seq<Delivery<E>>, payload: Seq<char>) -> Seq<Handoff> {
    Seq::new(deliveries.len(), |i: int| Handoff { id: deliveries[i].id@, frame: payload })
}

/// A fan-out hands out exactly the frames that the broker owes for a
/// broadcast of `payload`: one to every registered session, none to anyone
/// else.
pub proof fn lemma_fanout_follows_protocol<C, E, F: Fn(&C, Message) -> Result<(), E>>(
    entries: Seq<Entry<C>>,
    payload: String,
    deliver: F,
    deliveries: Seq<Delivery<E>>,
)
    requires
        fanned_out(entries, payload, deliver, deliveries),
    ensures
        handed_out(deliveries, payload@) == handoffs(entries, Event::Broadcast { payload: payload@ }),
{
    assert(handed_out(deliveries, payload@) =~= handoffs(
        entries,
        Event::Broadcast { payload: payload@ },
    ));
}

/// A delivery that fails stays on its own: in a fan-out in which the session
/// at position `failed` turned the frame away, the session at any other
/// position `other` was still handed the frame, and its delivery carries
/// what its own channel answered.
pub proof fn lemma_failure_is_isolated<C, E, F: Fn(&C, Message) -> Result<(), E>>(
    entries: Seq<Entry<C>>,
    payload: String,
    deliver: F,
    deliveries: Seq<Delivery<E>>,
    failed: int,
    other: int,
)
    requires
        fanned_out(entries, payload, deliver, deliveries),
        0 <= failed < entries.len(),
        0 <= other < entries.len(),
        failed != other,
        deliveries[failed].outcome is Err,
    ensures
        deliveries[other].id@ == entries[other].id,
        call_ensures(deliver, (&entries[other].channel, Message(payload)), deliveries[other].outcome),
{
}

/// The notification broker.
pub struct Server<C> {
    sessions: Registry<C>,
}

impl<C> View for Server<C> {
    type V = Seq<Entry<C>>;

    /// The registered sessions in visiting order.
    closed spec fn view(&self) -> Seq<Entry<C>> {
        self.sessions@
    }
}

impl<C> Server<C> {
    /// At most one session per connection identifier.
    pub open spec fn wf(&self) -> bool {
        distinct(self@)
    }

    /// The observable membership: connection identifier to channel.
    pub open spec fn members(&self) -> Map<Seq<char>, C> {
        members(self@)
    }

    /// A broker with no session.
    pub fn new() -> (server: Self)
        ensures
            server.wf(),
            server@ == Seq::<Entry<C>>::empty(),
            server.members() == Map::<Seq<char>, C>::empty(),
    {
        Server { sessions: Registry::new() }
    }

    /// The number of registered sessions.
    pub fn session_count(&self) -> (n: usize)
        ensures
            n == self@.len(),
    {
        self.sessions.len()
    }

    /// Whether a session is registered under `id`.
    pub fn is_subscribed(&self, id: &String) -> (found: bool)
        requires
            self.wf(),
        ensures
            found == self.members().contains_key(id@),
    {
        self.sessions.contains(id)
    }

    /// Registers the connection. A session already registered under the same
    /// identifier is replaced without being told.
    pub fn subscribe(&mut self, msg: Connect<C>)
        requires
            old(self).wf(),
        ensures
            final(self).wf(),
            final(self)@ == step(old(self)@, Event::Subscribe { id: msg.id@, channel: msg.addr }),
            final(self).members() == old(self).members().insert(msg.id@, msg.addr),
    {
        self.sessions.register(msg.id, msg.addr);
    }

    /// Forgets the connection; does nothing where it is not registered.
    pub fn unsubscribe(&mut self, msg: Disconnect)
        requires
            old(self).wf(),
        ensures
            final(self).wf(),
            final(self)@ == step(old(self)@, Event::Unsubscribe { id: msg.id@ }),
            final(self).members() == old(self).members().remove(msg.id@),
    {
        self.sessions.unregister(&msg.id);
    }

    /// Hands the serialised frame to every registered session through
    /// `deliver`, or abandons the broadcast where serialisation failed.
    ///
    /// Every session is handed the frame whatever the other channels
    /// answered, and the registry is left as it was.
    pub fn send_message<E, F: Fn(&C, Message) -> Result<(), E>>(
        &self,
        data: Result<String, SerializeError>,
        deliver: F,
    ) -> (outcome: Fanout<E>)
        requires
            self.wf(),
            data matches Ok(text) ==> forall|i: int|
                0 <= i < self@.len() ==> call_requires(
                    deliver,
                    (&(#[trigger] self@[i]).channel, Message(text)),
                ),
        ensures
            match data {
                Ok(text) => outcome matches Fanout::Delivered { payload, deliveries } && payload
                    == text && fanned_out(self@, text, deliver, deliveries@) && handed_out(
                    deliveries@,
                    text@,
                ) == handoffs(self@, Event::Broadcast { payload: text@ }),
                Err(error) => outcome == Fanout::<E>::Abandoned(error),
            },
    {
        match data {
            Ok(text) => {
                let transport: Ghost<F> = Ghost(deliver);
                let frame: Ghost<String> = Ghost(text);
                let hand_over = |session: &Session<C>| -> (delivery: Delivery<E>)
                    requires
                        call_requires(transport@, (&session.channel, Message(frame@))),
                    ensures
                        delivery.id@ == session.id@,
                        call_ensures(transport@, (&session.channel, Message(frame@)), delivery.outcome),
                    {
                        let outcome = deliver(&session.channel, Message(text.clone()));
                        Delivery { id: session.id.clone(), outcome }
                    };
                assert forall|i: int| 0 <= i < self.sessions.sessions().len() implies call_requires(
                    hand_over,
                    (&#[trigger] self.sessions.sessions()[i],),
                ) by {
                    assert(self@[i] == self.sessions.sessions()[i]@);
                }
                let deliveries = self.sessions.for_each(hand_over);
                assert forall|i: int| 0 <= i < self@.len() implies (#[trigger] deliveries@[i]).id@
                    == self@[i].id && call_ensures(
                    deliver,
                    (&self@[i].channel, Message(text)),
                    deliveries@[i].outcome,
                ) by {
                    assert(self@[i] == self.sessions.sessions()[i]@);
                }
                proof {
                    lemma_fanout_follows_protocol(self@, text, deliver, deliveries@);
                }
                Fanout::Delivered { payload: text, deliveries }
            },
            Err(error) => Fanout::Abandoned(error),
        }
    }

    /// Serialises the envelope once and hands the frame to every registered
    /// session through `deliver`.
    pub fn broadcast<E, F: Fn(&C, Message) -> Result<(), E>>(
        &self,
        msg: MessageToClient,
        deliver: F,
    ) -> (outcome: Fanout<E>)
        requires
            self.wf(),
            forall|i: int, frame: Message|
                0 <= i < self@.len() ==> #[trigger] call_requires(
                    deliver,
                    (&self@[i].channel, frame),
                ),
        ensures
            match msg.payload() {
                Some(text) => outcome matches Fanout::Delivered { payload, deliveries } && payload@
                    == text && fanned_out(self@, payload, deliver, deliveries@) && handed_out(
                    deliveries@,
                    text,
                ) == handoffs(self@, Event::Broadcast { payload: text }),
                None => outcome is Abandoned,
            },
    {
        self.send_message(msg.to_payload(), deliver)
    }
}

} // verus!
