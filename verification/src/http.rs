//! The decisions of the HTTP surface: which request is passed on to the
//! store, and which response answers each outcome.

use crate::json::{json_text, lemma_object_view, members_view, parsed_json, Json, JsonValue};
use crate::model::{TestRun, TestRunView};
use crate::schema::{json_testrun, testrun_json};
use vstd::prelude::*;

verus! {

/// Status of a response that carries the test run asked for.
pub const STATUS_OK: u16 = 200;

/// Status of a response to a test run that was accepted.
pub const STATUS_CREATED: u16 = 201;

/// Status of a response to a request that is refused as it stands.
pub const STATUS_BAD_REQUEST: u16 = 400;

/// Status of a response to a request for a test run that is not stored.
pub const STATUS_NOT_FOUND: u16 = 404;

/// Status of a response where the store failed.
pub const STATUS_INTERNAL_SERVER_ERROR: u16 = 500;

/// A response with a JSON body.
#[derive(Clone, Debug)]
pub struct HttpResponse {
    pub status: u16,
    pub content_type: String,
    pub body: String,
}

/// The mathematical value of an [`HttpResponse`].
pub struct HttpResponseView {
    pub status: u16,
    pub content_type: Seq<char>,
    pub body: Seq<char>,
}

impl View for HttpResponse {
    type V = HttpResponseView;

    open spec fn view(&self) -> HttpResponseView {
        HttpResponseView {
            status: self.status,
            content_type: self.content_type@,
            body: self.body@,
        }
    }
}

/// The response with this status and this body, marked as JSON.
pub open spec fn reply(status: u16, body: Seq<char>) -> HttpResponseView {
    HttpResponseView { status, content_type: "application/json"@, body }
}

/// The document that carries a message.
pub open spec fn message_json(message: Seq<char>) -> JsonValue {
    JsonValue::Object(seq![("message"@, JsonValue::Str(message))])
}

/// The response with this status whose body carries a message.
pub open spec fn message_reply(status: u16, message: Seq<char>) -> HttpResponseView {
    reply(status, json_text(message_json(message)))
}

/// The test run that a text stands for as a JSON document.
pub open spec fn testrun_of_text(text: Seq<char>) -> Option<TestRunView> {
    match parsed_json(text) {
        Some(document) => json_testrun(document),
        None => None,
    }
}

/// A response with a JSON body.
pub fn response(status: u16, body: String) -> (r: HttpResponse)
    ensures
        r@ == reply(status, body@),
{
    HttpResponse { status, content_type: "application/json".to_owned(), body }
}

/// A response whose body carries a message.
pub fn message_response(status: u16, message: &str) -> (r: HttpResponse)
    ensures
        r@ == message_reply(status, message@),
{
    let mut members: Vec<(String, Json)> = Vec::new();
    members.push(("message".to_owned(), Json::Str(message.to_owned())));
    proof {
        lemma_object_view(members);
        assert(members_view(members@) =~= message_json(message@)->Object_0);
    }
    response(status, Json::Object(members).to_text())
}

/// Reads a test run from the text of a JSON document.
pub fn parse_testrun(text: &str) -> (r: Option<TestRun>)
    ensures
        match r {
            Some(run) => run@.wf() && testrun_of_text(text@) == Some(run@),
            None => testrun_of_text(text@) is None,
        },
{
    match Json::parse(text) {
        Some(document) => TestRun::from_json(&document),
        None => None,
    }
}

/// What a request for a test run leads to before the store is asked: the id
/// to fetch, or the response that refuses the request.
pub open spec fn get_request_spec(id: Option<Seq<char>>) -> Result<Seq<char>, HttpResponseView> {
    match id {
        Some(id) => Ok(id),
        None => Err(message_reply(STATUS_BAD_REQUEST, "Missing 'id' parameter in path"@)),
    }
}

/// Checks a request for a test run: `id` is the parameter of the path,
/// where the path has one.
pub fn get_request(id: Option<&str>) -> (r: Result<String, HttpResponse>)
    ensures
        match r {
            Ok(found) => get_request_spec(
                match id {
                    Some(s) => Some(s@),
                    None => None,
                },
            ) == Ok::<_, HttpResponseView>(found@),
            Err(refusal) => get_request_spec(
                match id {
                    Some(s) => Some(s@),
                    None => None,
                },
            ) == Err::<Seq<char>, _>(refusal@),
        },
{
    match id {
        Some(id) => Ok(id.to_owned()),
        None => Err(message_response(STATUS_BAD_REQUEST, "Missing 'id' parameter in path")),
    }
}

/// The response to a request for a test run, once the store has answered.
pub open spec fn get_response_spec<E>(outcome: Result<Option<TestRun>, E>) -> HttpResponseView {
    match outcome {
        Ok(Some(run)) => reply(STATUS_OK, json_text(testrun_json(run@))),
        Ok(None) => message_reply(STATUS_NOT_FOUND, "TestRun not found"@),
        Err(_) => message_reply(STATUS_INTERNAL_SERVER_ERROR, "Error fetching testrun"@),
    }
}

/// Answers a request for a test run with what the store returned.
pub fn get_response<E>(outcome: &Result<Option<TestRun>, E>) -> (r: HttpResponse)
    ensures
        r@ == get_response_spec(*outcome),
{
    match outcome {
        Ok(Some(run)) => response(STATUS_OK, run.to_json().to_text()),
        Ok(None) => message_response(STATUS_NOT_FOUND, "TestRun not found"),
        Err(_) => message_response(STATUS_INTERNAL_SERVER_ERROR, "Error fetching testrun"),
    }
}

/// What a request to store a test run leads to before the store is asked:
/// the test run to store, or the response that refuses the request. The
/// path must give an id, the body must hold a test run, and the two ids must
/// agree; the first of these that fails decides the response.
pub open spec fn put_request_spec(id: Option<Seq<char>>, body: Option<Seq<char>>) -> Result<
    TestRunView,
    HttpResponseView,
> {
    match id {
        None => Err(message_reply(STATUS_BAD_REQUEST, "Missing 'id' parameter in path"@)),
        Some(id) => match body {
            None => Err(message_reply(STATUS_BAD_REQUEST, "Missing testrun in request body"@)),
            Some(text) => match testrun_of_text(text) {
                None => Err(
                    message_reply(
                        STATUS_BAD_REQUEST,
                        "Failed to parse testrun from request body"@,
                    ),
                ),
                Some(run) => if run.id != id {
                    Err(
                        message_reply(
                            STATUS_BAD_REQUEST,
                            "TestRun ID in path does not match ID in body"@,
                        ),
                    )
                } else {
                    Ok(run)
                },
            },
        },
    }
}

/// The characters of a text that may be absent.
pub open spec fn text_view(text: Option<&str>) -> Option<Seq<char>> {
    match text {
        Some(s) => Some(s@),
        None => None,
    }
}

/// Checks a request to store a test run: `id` is the parameter of the path
/// and `body` the text of the request's body, each where there is one.
pub fn put_request(id: Option<&str>, body: Option<&str>) -> (r: Result<TestRun, HttpResponse>)
    ensures
        match r {
            Ok(run) => run@.wf() && put_request_spec(text_view(id), text_view(body)) == Ok::<
                _,
                HttpResponseView,
            >(run@),
            Err(refusal) => put_request_spec(text_view(id), text_view(body)) == Err::<
                TestRunView,
                _,
            >(refusal@),
        },
{
    let id = match id {
        Some(id) => id,
        None => {
            return Err(message_response(STATUS_BAD_REQUEST, "Missing 'id' parameter in path"));
        },
    };
    let text = match body {
        Some(text) => text,
        None => {
            return Err(message_response(STATUS_BAD_REQUEST, "Missing testrun in request body"));
        },
    };
    let run = match parse_testrun(text) {
        Some(run) => run,
        None => {
            return Err(
                message_response(STATUS_BAD_REQUEST, "Failed to parse testrun from request body"),
            );
        },
    };
    if run.id != id.to_owned() {
        return Err(
            message_response(STATUS_BAD_REQUEST, "TestRun ID in path does not match ID in body"),
        );
    }
    Ok(run)
}

/// The response to a request to store a test run, once the store has
/// answered.
pub open spec fn put_response_spec<E>(outcome: Result<(), E>) -> HttpResponseView {
    match outcome {
        Ok(_) => message_reply(STATUS_CREATED, "Testrun queued"@),
        Err(_) => message_reply(STATUS_INTERNAL_SERVER_ERROR, "Failed to create testrun"@),
    }
}

/// Answers a request to store a test run with what the store returned.
pub fn put_response<E>(outcome: &Result<(), E>) -> (r: HttpResponse)
    ensures
        r@ == put_response_spec(*outcome),
{
    match outcome {
        Ok(_) => message_response(STATUS_CREATED, "Testrun queued"),
        Err(_) => message_response(STATUS_INTERNAL_SERVER_ERROR, "Failed to create testrun"),
    }
}

} // verus!
