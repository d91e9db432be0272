//! Answers to requests that are not forwarded.

use crate::json::json_string;
use crate::json_reader::{JsonValue, MembersRead, ValueRead};
use crate::types::SwitchError;
use vstd::prelude::*;

verus! {

/// An error answer: its status code, its content type and its body.
#[derive(Debug)]
pub struct ErrorReply {
    pub status: u16,
    pub content_type: String,
    pub body: String,
}

/// The JSON body that reports an error.
pub open spec fn error_body(message: Seq<char>) -> Seq<char> {
    "{\"error\":{\"message\":"@ + crate::json::json_quoted(message)
        + ",\"type\":\"llmux_error\"}}"@
}

impl ErrorReply {
    /// The reply has a status and reports a message, in JSON.
    pub open spec fn reports(self, status: u16, message: Seq<char>) -> bool {
        &&& self.status == status
        &&& self.content_type@ == "application/json"@
        &&& self.body@ == error_body(message)
    }
}

/// What an error body says: an object with an `error`, which is an object with the message and
/// the type of the error, and nothing else.
pub open spec fn error_document(message: Seq<char>) -> JsonValue {
    JsonValue::Object(
        seq![
            (
                "error"@,
                JsonValue::Object(
                    seq![
                        ("message"@, JsonValue::Text(message)),
                        ("type"@, JsonValue::Text("llmux_error"@)),
                    ],
                ),
            ),
        ],
    )
}

/// The reply that reports a message under a status.
pub fn error_response(status: u16, message: &str) -> (reply: ErrorReply)
    ensures
        reply.reports(status, message@),
        crate::json_reader::read_document(reply.body@) == Some(error_document(message@)),
{
    proof {
        law_error_body_reads_back(message@);
    }
    let body = "{\"error\":{\"message\":".to_owned().concat(json_string(message).as_str()).concat(
        ",\"type\":\"llmux_error\"}}",
    );
    ErrorReply { status, content_type: "application/json".to_owned(), body }
}

/// The status under which a switch error is reported.
pub open spec fn switch_error_status(error: SwitchError) -> u16 {
    match error {
        SwitchError::ModelNotFound(_) => 404,
        SwitchError::NotReady(_) => 503,
        SwitchError::Timeout => 504,
        SwitchError::HookFailed { .. } => 500,
        SwitchError::Internal(_) => 500,
    }
}

/// The message by which a switch error is reported.
pub open spec fn switch_error_message(error: SwitchError) -> Seq<char> {
    match error {
        SwitchError::ModelNotFound(model) => "Model not found: "@ + model@,
        SwitchError::NotReady(model) => "Model not ready: "@ + model@,
        SwitchError::Timeout => "Request timed out waiting for model"@,
        SwitchError::HookFailed { model, detail } => "Hook failed for "@ + model@ + ": "@ + detail@,
        SwitchError::Internal(detail) => "Internal error: "@ + detail@,
    }
}

/// The reply to a request whose model cannot be made ready.
pub fn switch_error_response(error: &SwitchError) -> (reply: ErrorReply)
    ensures
        reply.reports(switch_error_status(*error), switch_error_message(*error)),
{
    let (status, message): (u16, String) = match error {
        SwitchError::ModelNotFound(model) => (404, not_found_message(model.as_str())),
        SwitchError::NotReady(model) => (
            503,
            "Model not ready: ".to_owned().concat(model.as_str()),
        ),
        SwitchError::Timeout => (504, "Request timed out waiting for model".to_owned()),
        SwitchError::HookFailed { model, detail } => (
            500,
            "Hook failed for ".to_owned().concat(model.as_str()).concat(": ").concat(
                detail.as_str(),
            ),
        ),
        SwitchError::Internal(detail) => (
            500,
            "Internal error: ".to_owned().concat(detail.as_str()),
        ),
    };
    error_response(status, message.as_str())
}

/// The message for a model that is not configured.
pub fn not_found_message(model: &str) -> (message: String)
    ensures
        message@ == "Model not found: "@ + model@,
{
    "Model not found: ".to_owned().concat(model)
}

/// A request that cannot be served is never answered with a success, and the status tells an
/// unknown model, a model that is not ready and a timeout from everything else.
pub proof fn law_switch_error_status(error: SwitchError)
    ensures
        400 <= switch_error_status(error) < 600,
        switch_error_status(error) == 404 <==> error is ModelNotFound,
        switch_error_status(error) == 503 <==> error is NotReady,
        switch_error_status(error) == 504 <==> error is Timeout,
        switch_error_status(error) == 500 <==> error is HookFailed || error is Internal,
{
}

/// The words for each switch error, with what it is about in full.
pub proof fn law_switch_error_words(error: SwitchError)
    ensures
        error matches SwitchError::ModelNotFound(model) ==> switch_error_message(error)
            == "Model not found: "@ + model@,
        error matches SwitchError::NotReady(model) ==> switch_error_message(error)
            == "Model not ready: "@ + model@,
        error is Timeout ==> switch_error_message(error) == "Request timed out waiting for model"@,
        error matches SwitchError::HookFailed { model, detail } ==> switch_error_message(error)
            == "Hook failed for "@ + model@ + ": "@ + detail@,
        error matches SwitchError::Internal(detail) ==> switch_error_message(error)
            == "Internal error: "@ + detail@,
{
}

/// The fixed part of an error body in front of the message.
proof fn lemma_error_head()
    ensures
        "{\"error\":{\"message\":"@ == seq!['{'] + crate::json::json_quoted("error"@)
            + seq![':', '{'] + crate::json::json_quoted("message"@) + seq![':'],
{
    reveal_strlit("{\"error\":{\"message\":");
    reveal_strlit("error");
    reveal_strlit("message");
    crate::json_reader::lemma_plain_is_not_escaped("error"@);
    crate::json_reader::lemma_plain_is_not_escaped("message"@);
}

/// The fixed part of an error body behind the message.
proof fn lemma_error_tail()
    ensures
        ",\"type\":\"llmux_error\"}}"@ == seq![','] + crate::json::json_quoted("type"@) + seq![':']
            + crate::json::json_quoted("llmux_error"@) + seq!['}', '}'],
{
    reveal_strlit(",\"type\":\"llmux_error\"}}");
    reveal_strlit("type");
    reveal_strlit("llmux_error");
    crate::json_reader::lemma_plain_is_not_escaped("type"@);
    crate::json_reader::lemma_plain_is_not_escaped("llmux_error"@);
}

/// An error body is an object in an object, member by member.
proof fn lemma_error_body_parts(message: Seq<char>)
    ensures
        ({
            let last_text = crate::json::json_quoted("llmux_error"@) + seq!['}', '}'];
            let last_member = crate::json::json_quoted("type"@) + seq![':'] + last_text;
            let message_text = crate::json::json_quoted(message) + (seq![','] + last_member);
            let inner_members = crate::json::json_quoted("message"@) + seq![':'] + message_text;
            let inner_text = seq!['{'] + inner_members;
            let members = crate::json::json_quoted("error"@) + seq![':'] + inner_text;
            error_body(message) == seq!['{'] + members
        }),
{
    let last_text = crate::json::json_quoted("llmux_error"@) + seq!['}', '}'];
    let last_member = crate::json::json_quoted("type"@) + seq![':'] + last_text;
    lemma_error_head();
    lemma_error_tail();
    assert(seq![','] + last_member == ",\"type\":\"llmux_error\"}}"@);
}

/// An error body, read as JSON, gives back the message, whatever characters it holds: it is the
/// document with the message and the type of the error.
pub proof fn law_error_body_reads_back(message: Seq<char>)
    ensures
        crate::json_reader::read_document(error_body(message)) == Some(error_document(message)),
{
    // From the end of the body to its beginning.
    let last = JsonValue::Text("llmux_error"@);
    let last_text = crate::json::json_quoted("llmux_error"@) + seq!['}', '}'];
    assert(seq!['}', '}'] == seq!['}'] + seq!['}']);
    crate::json_reader::lemma_read_quoted("llmux_error"@, seq!['}'] + seq!['}']);
    crate::json_reader::lemma_read_last_member("type"@, last_text, last, seq!['}']);
    let last_member = crate::json::json_quoted("type"@) + seq![':'] + last_text;
    let last_read = MembersRead { members: seq![("type"@, last)], rest: seq!['}'] };

    let message_text = crate::json::json_quoted(message) + (seq![','] + last_member);
    crate::json_reader::lemma_read_quoted(message, seq![','] + last_member);
    crate::json_reader::lemma_read_member(
        "message"@,
        message_text,
        JsonValue::Text(message),
        last_member,
        last_read,
    );
    let inner_members = crate::json::json_quoted("message"@) + seq![':'] + message_text;
    let inner_read = MembersRead {
        members: seq![("message"@, JsonValue::Text(message))] + last_read.members,
        rest: seq!['}'],
    };

    let inner_text = seq!['{'] + inner_members;
    crate::json_reader::lemma_read_object(inner_members, inner_read);
    let inner = JsonValue::Object(inner_read.members);
    assert(seq!['}'] + Seq::<char>::empty() == seq!['}']);
    crate::json_reader::lemma_read_last_member("error"@, inner_text, inner, Seq::empty());
    let members = crate::json::json_quoted("error"@) + seq![':'] + inner_text;
    let read = MembersRead { members: seq![("error"@, inner)], rest: Seq::empty() };

    crate::json_reader::lemma_read_object(members, read);
    lemma_error_body_parts(message);
    assert(inner_read.members == seq![
        ("message"@, JsonValue::Text(message)),
        ("type"@, JsonValue::Text("llmux_error"@)),
    ]);
    assert(crate::json_reader::read_value(error_body(message)) == Some(
        ValueRead { value: JsonValue::Object(read.members), rest: Seq::empty() },
    ));
}

/// A reply that reports a message under a status has that status, says that it is JSON, and its
/// body read as JSON holds the message and the type of the error alone. So two replies to the
/// same report are the same.
pub proof fn law_error_reply(reply: ErrorReply, other: ErrorReply, status: u16, message: Seq<char>)
    requires
        reply.reports(status, message),
        other.reports(status, message),
    ensures
        reply.status == status,
        reply.content_type@ == "application/json"@,
        crate::json_reader::read_document(reply.body@) == Some(error_document(message)),
        ({
            &&& crate::json_reader::read_document(reply.body@) matches Some(
                JsonValue::Object(members),
            )
            &&& members.len() == 1
            &&& members[0].0 == "error"@
            &&& members[0].1 matches JsonValue::Object(inner)
            &&& inner.len() == 2
            &&& inner[0] == ("message"@, JsonValue::Text(message))
            &&& inner[1] == ("type"@, JsonValue::Text("llmux_error"@))
        }),
        reply.body@ == "{\"error\":{\"message\":"@ + crate::json::json_quoted(message)
            + ",\"type\":\"llmux_error\"}}"@,
        other.status == reply.status,
        other.content_type@ == reply.content_type@,
        other.body@ == reply.body@,
{
    law_error_body_reads_back(message);
}

/// Different messages make different error bodies.
pub proof fn law_error_body_determines_message(left: Seq<char>, right: Seq<char>)
    requires
        error_body(left) == error_body(right),
    ensures
        left == right,
{
    law_error_body_reads_back(left);
    law_error_body_reads_back(right);
    let members = error_document(left)->Object_0;
    let others = error_document(right)->Object_0;
    assert(members[0] == others[0]);
    assert(members[0].1->Object_0[0] == others[0].1->Object_0[0]);
}

} // verus!
