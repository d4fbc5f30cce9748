//! What the request handlers decide, apart from the transport around them.

use vstd::prelude::*;
use crate::errors::{Error, ErrorView};
use crate::models::NewQuestion;
use crate::websocket::message::MessageToClient;

verus! {

/// The body of a request to create a question.
#[derive(Clone)]
pub struct CreateRequest {
    pub body: String,
}

/// Decides on a request to create a question. A request with an empty body is
/// turned away as a bad request, and nothing is stored or announced for it;
/// any other request gives the question that is to be stored.
pub fn create(params: &CreateRequest) -> (decision: Result<NewQuestion, Error>)
    ensures
        match decision {
            Ok(question) => params.body@.len() > 0 && question.body@ == params.body@,
            Err(error) => params.body@.len() == 0 && error@ == ErrorView::BadRequest(
                "Body is required"@,
            ),
        },
{
    if params.body.as_str().is_empty() {
        return Err(Error::BadRequest("Body is required".to_owned()));
    }
    Ok(NewQuestion { body: params.body.clone() })
}

/// The event that announces a stored question to every subscriber: the tag
/// `newquestion` with the question as payload.
pub fn new_question_event(question: serde_json::Value) -> (event: MessageToClient)
    ensures
        event.msg_type@ == "newquestion"@,
        event.data == question,
{
    MessageToClient::new("newquestion", question)
}

} // verus!
