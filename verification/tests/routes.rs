use question_broker::errors::Error;
use question_broker::routes::{create, new_question_event, CreateRequest};
use question_broker::websocket::message::{Connect, Message};
use question_broker::websocket::server::{Fanout, Server};
use std::cell::RefCell;

#[test]
fn test_create_body_required() {
    let decision = create(&CreateRequest { body: "".to_string() });

    let error = decision.unwrap_err();
    assert_eq!(error, Error::BadRequest("Body is required".to_string()));
    let reply = error.error_response();
    assert_eq!(reply.status, 400);
    assert_eq!(reply.body.errors, vec!["Body is required"]);
}

#[test]
fn test_create_question() {
    let inbox: RefCell<Vec<String>> = RefCell::new(Vec::new());
    let mut server: Server<u8> = Server::new();
    server.subscribe(Connect { addr: 0, id: "ws".to_string() });

    let question = create(&CreateRequest { body: "A new question".to_string() }).unwrap();
    assert_eq!(question.body, "A new question");

    let mut stored = serde_json::Map::new();
    stored.insert("id".to_string(), serde_json::Value::from(1));
    stored.insert("body".to_string(), serde_json::Value::from(question.body));
    let event = new_question_event(serde_json::Value::Object(stored));
    assert_eq!(event.msg_type, "newquestion");

    let outcome = server.broadcast(event, |_: &u8, frame: Message| {
        inbox.borrow_mut().push(frame.0);
        Ok::<(), ()>(())
    });
    assert!(matches!(outcome, Fanout::Delivered { .. }));

    let received = inbox.borrow();
    assert_eq!(received.len(), 1);
    let msg: serde_json::Value = serde_json::from_str(&received[0]).unwrap();
    assert_eq!(msg["msg_type"], "newquestion");
    assert_eq!(msg["data"]["body"], "A new question");
    assert_eq!(
        received[0],
        r#"{"msg_type":"newquestion","data":{"id":1,"body":"A new question"}}"#
    );
}

#[test]
fn blank_but_not_empty_body_is_accepted() {
    let question = create(&CreateRequest { body: " ".to_string() }).unwrap();
    assert_eq!(question.body, " ");
}
