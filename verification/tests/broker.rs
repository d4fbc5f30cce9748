use std::cell::RefCell;
use std::rc::Rc;

use question_broker::websocket::json::SerializeError;
use question_broker::websocket::message::{Connect, Disconnect, Message, MessageToClient};
use question_broker::websocket::server::{Delivery, Fanout, Server};

/// An in-memory subscriber: it keeps the frames pushed to it, or turns every
/// frame away when it is closed.
struct Inbox {
    frames: RefCell<Vec<String>>,
    closed: bool,
}

type Channel = Rc<Inbox>;

fn open_channel() -> Channel {
    Rc::new(Inbox { frames: RefCell::new(Vec::new()), closed: false })
}

fn closed_channel() -> Channel {
    Rc::new(Inbox { frames: RefCell::new(Vec::new()), closed: true })
}

fn push(channel: &Channel, frame: Message) -> Result<(), String> {
    if channel.closed {
        Err(String::from("channel closed"))
    } else {
        channel.frames.borrow_mut().push(frame.0);
        Ok(())
    }
}

fn frames(channel: &Channel) -> Vec<String> {
    channel.frames.borrow().clone()
}

fn connect(server: &mut Server<Channel>, id: &str, channel: &Channel) {
    server.subscribe(Connect { addr: channel.clone(), id: id.to_string() });
}

fn disconnect(server: &mut Server<Channel>, id: &str) {
    server.unsubscribe(Disconnect { id: id.to_string() });
}

fn event(msg_type: &str, data: &str) -> MessageToClient {
    MessageToClient::new(msg_type, serde_json::from_str(data).unwrap())
}

fn new_question() -> MessageToClient {
    event("newquestion", r#"{"id":1,"body":"A new question"}"#)
}

const NEW_QUESTION_FRAME: &str =
    r#"{"msg_type":"newquestion","data":{"id":1,"body":"A new question"}}"#;

fn deliveries(outcome: Fanout<String>) -> (String, Vec<Delivery<String>>) {
    match outcome {
        Fanout::Delivered { payload, deliveries } => (payload, deliveries),
        Fanout::Abandoned(error) => panic!("broadcast abandoned: {}", error.message),
    }
}

#[test]
fn subscriber_receives_exactly_the_frame() {
    let s1 = open_channel();
    let mut server = Server::new();
    connect(&mut server, "s1", &s1);

    let (payload, sent) = deliveries(server.broadcast(new_question(), push));

    assert_eq!(payload, NEW_QUESTION_FRAME);
    assert_eq!(frames(&s1), vec![NEW_QUESTION_FRAME.to_string()]);
    assert_eq!(sent.len(), 1);
    assert_eq!(sent[0].id, "s1");
    assert_eq!(sent[0].outcome, Ok(()));
}

#[test]
fn unsubscribed_session_receives_nothing() {
    let s1 = open_channel();
    let mut server = Server::new();
    connect(&mut server, "s1", &s1);
    disconnect(&mut server, "s1");

    let (payload, sent) = deliveries(server.broadcast(new_question(), push));

    assert_eq!(payload, NEW_QUESTION_FRAME);
    assert!(sent.is_empty());
    assert!(frames(&s1).is_empty());
    assert_eq!(server.session_count(), 0);
}

#[test]
fn resubscribing_replaces_the_channel() {
    let displaced = open_channel();
    let current = open_channel();
    let s2 = open_channel();
    let mut server = Server::new();
    connect(&mut server, "s1", &displaced);
    connect(&mut server, "s2", &s2);
    connect(&mut server, "s1", &current);

    let (_, sent) = deliveries(server.broadcast(new_question(), push));

    assert_eq!(sent.len(), 2);
    assert_eq!(server.session_count(), 2);
    assert!(frames(&displaced).is_empty());
    assert_eq!(frames(&current), vec![NEW_QUESTION_FRAME.to_string()]);
    assert_eq!(frames(&s2), vec![NEW_QUESTION_FRAME.to_string()]);
    let ids: Vec<&str> = sent.iter().map(|d| d.id.as_str()).collect();
    assert_eq!(ids, vec!["s1", "s2"]);
}

#[test]
fn broadcast_without_sessions_is_a_no_op() {
    let server: Server<Channel> = Server::new();

    let (payload, sent) = deliveries(server.broadcast(new_question(), push));

    assert_eq!(payload, NEW_QUESTION_FRAME);
    assert!(sent.is_empty());
}

#[test]
fn every_session_gets_the_identical_payload() {
    let channels: Vec<Channel> = (0..5).map(|_| open_channel()).collect();
    let outsider = open_channel();
    let mut server = Server::new();
    for (n, channel) in channels.iter().enumerate() {
        connect(&mut server, &format!("conn-{}", n), channel);
    }

    let (payload, sent) = deliveries(server.broadcast(new_question(), push));

    assert_eq!(sent.len(), 5);
    for channel in &channels {
        assert_eq!(frames(channel), vec![payload.clone()]);
    }
    assert!(frames(&outsider).is_empty());
}

#[test]
fn failed_delivery_does_not_stop_the_others() {
    let a = open_channel();
    let broken = closed_channel();
    let c = open_channel();
    let mut server = Server::new();
    connect(&mut server, "a", &a);
    connect(&mut server, "broken", &broken);
    connect(&mut server, "c", &c);

    let (_, sent) = deliveries(server.broadcast(new_question(), push));

    assert_eq!(sent.len(), 3);
    assert_eq!(sent[0].outcome, Ok(()));
    assert_eq!(sent[1].id, "broken");
    assert_eq!(sent[1].outcome, Err(String::from("channel closed")));
    assert_eq!(sent[2].outcome, Ok(()));
    assert_eq!(frames(&a), vec![NEW_QUESTION_FRAME.to_string()]);
    assert_eq!(frames(&c), vec![NEW_QUESTION_FRAME.to_string()]);
    assert!(frames(&broken).is_empty());
}

#[test]
fn failed_delivery_keeps_the_session_registered() {
    let broken = closed_channel();
    let mut server = Server::new();
    connect(&mut server, "broken", &broken);

    let (_, first) = deliveries(server.broadcast(new_question(), push));
    let (_, second) = deliveries(server.broadcast(new_question(), push));

    assert!(first[0].outcome.is_err());
    assert_eq!(second.len(), 1);
    assert!(server.is_subscribed(&"broken".to_string()));
}

#[test]
fn broadcasts_arrive_in_the_order_issued() {
    let early = open_channel();
    let late = open_channel();
    let mut server = Server::new();
    connect(&mut server, "early", &early);

    server.broadcast(event("first", "1"), push);
    connect(&mut server, "late", &late);
    server.broadcast(event("second", "2"), push);
    server.broadcast(event("third", "3"), push);

    assert_eq!(
        frames(&early),
        vec![
            r#"{"msg_type":"first","data":1}"#.to_string(),
            r#"{"msg_type":"second","data":2}"#.to_string(),
            r#"{"msg_type":"third","data":3}"#.to_string(),
        ]
    );
    assert_eq!(
        frames(&late),
        vec![
            r#"{"msg_type":"second","data":2}"#.to_string(),
            r#"{"msg_type":"third","data":3}"#.to_string(),
        ]
    );
}

#[test]
fn membership_follows_the_last_writer() {
    let first = open_channel();
    let second = open_channel();
    let other = open_channel();
    let mut server = Server::new();

    disconnect(&mut server, "a");
    assert_eq!(server.session_count(), 0);

    connect(&mut server, "a", &first);
    connect(&mut server, "b", &other);
    connect(&mut server, "a", &second);
    assert_eq!(server.session_count(), 2);
    assert!(server.is_subscribed(&"a".to_string()));
    assert!(server.is_subscribed(&"b".to_string()));

    disconnect(&mut server, "b");
    disconnect(&mut server, "b");
    assert_eq!(server.session_count(), 1);
    assert!(!server.is_subscribed(&"b".to_string()));

    server.broadcast(new_question(), push);
    assert!(frames(&first).is_empty());
    assert_eq!(frames(&second).len(), 1);
    assert!(frames(&other).is_empty());

    disconnect(&mut server, "a");
    assert_eq!(server.session_count(), 0);
    assert!(!server.is_subscribed(&"a".to_string()));
}

#[test]
fn serialisation_failure_abandons_the_broadcast() {
    let s1 = open_channel();
    let mut server = Server::new();
    connect(&mut server, "s1", &s1);
    let failure = SerializeError { message: String::from("key must be a string") };

    let outcome = server.send_message(Err(failure), push);

    match outcome {
        Fanout::Abandoned(error) => assert_eq!(error.message, "key must be a string"),
        Fanout::Delivered { .. } => panic!("nothing may be delivered"),
    }
    assert!(frames(&s1).is_empty());
    assert!(server.is_subscribed(&"s1".to_string()));
}

#[test]
fn send_message_hands_the_text_over_as_it_is() {
    let s1 = open_channel();
    let s2 = open_channel();
    let mut server = Server::new();
    connect(&mut server, "s1", &s1);
    connect(&mut server, "s2", &s2);

    let (payload, sent) = deliveries(server.send_message(Ok(String::from("ping")), push));

    assert_eq!(payload, "ping");
    assert_eq!(sent.len(), 2);
    assert_eq!(frames(&s1), vec![String::from("ping")]);
    assert_eq!(frames(&s2), vec![String::from("ping")]);
}
