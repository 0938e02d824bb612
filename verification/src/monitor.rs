//! The monitor of a host session: whom it listens to, and what it says.
use crate::json::{content, holds_text, is_true, member, text_field, text_member, Json};
use crate::runtime::MonitorRecord;
use crate::text::same;
use vstd::prelude::*;
use vstd::string::*;

verus! {

/// Why a monitor ends a connection.
#[derive(Debug, Clone, Copy, PartialEq, Eq, Structural)]
pub enum MonitorError {
    IdentityMismatch,
    UnknownMessage,
    MissingSession,
}

impl MonitorError {
    pub open spec fn spec_describe(self) -> Seq<char> {
        match self {
            MonitorError::IdentityMismatch => "monitor identity mismatch"@,
            MonitorError::UnknownMessage => "unknown monitor message"@,
            MonitorError::MissingSession => "missing session id"@,
        }
    }

    /// The error in words.
    pub fn describe(self) -> (text: String)
        ensures
            text@ == self.spec_describe(),
    {
        match self {
            MonitorError::IdentityMismatch => "monitor identity mismatch".to_string(),
            MonitorError::UnknownMessage => "unknown monitor message".to_string(),
            MonitorError::MissingSession => "missing session id".to_string(),
        }
    }
}

/// Checks the first message of a connection: it registers with this very monitor.
pub fn check_hello(hello: &serde_json::Value, record: &MonitorRecord) -> (r: Result<
    (),
    MonitorError,
>)
    ensures
        r == (if text_member(content(*hello), "action"@) == Some("register"@) && text_member(
            content(*hello),
            "host_session_id"@,
        ) == Some(record.host_session_id@) && text_member(content(*hello), "generation"@) == Some(
            record.generation@,
        ) {
            Ok::<(), MonitorError>(())
        } else {
            Err(MonitorError::IdentityMismatch)
        }),
{
    if holds_text(hello, "action", "register") && holds_text(
        hello,
        "host_session_id",
        record.host_session_id.as_str(),
    ) && holds_text(hello, "generation", record.generation.as_str()) {
        Ok(())
    } else {
        Err(MonitorError::IdentityMismatch)
    }
}

/// What an owner asks of a monitor.
#[derive(Debug, Clone, Copy, PartialEq, Eq, Structural)]
pub enum MonitorRequest {
    Ping,
    /// A reminder may be due; the owner is asked to check again once it can be printed.
    Offer,
}

/// Reads a request.
pub fn read_request(request: &serde_json::Value) -> (r: Result<MonitorRequest, MonitorError>)
    ensures
        r == (match text_member(content(*request), "action"@) {
            Some(action) => if action == "ping"@ {
                Ok::<MonitorRequest, MonitorError>(MonitorRequest::Ping)
            } else if action == "offer"@ {
                Ok(MonitorRequest::Offer)
            } else {
                Err(MonitorError::UnknownMessage)
            },
            None => Err(MonitorError::UnknownMessage),
        }),
{
    match text_field(request, "action") {
        Some(action) => if same(action, "ping") {
            Ok(MonitorRequest::Ping)
        } else if same(action, "offer") {
            Ok(MonitorRequest::Offer)
        } else {
            Err(MonitorError::UnknownMessage)
        },
        None => Err(MonitorError::UnknownMessage),
    }
}

/// The reminder about a session.
pub open spec fn reminder_text(session: Seq<char>) -> Seq<char> {
    "PTY "@ + session + " 疑似停滞，请调用 read 检查。"@
}

pub fn reminder(session: &str) -> (text: String)
    ensures
        text@ == reminder_text(session@),
{
    let mut text = "PTY ".to_string();
    text.append(session);
    text.append(" 疑似停滞，请调用 read 检查。");
    text
}

/// The line to print about an offer, once the owner answered whether the reminder is still due.
pub fn notice(offer: &serde_json::Value, answer: &serde_json::Value) -> (r: Result<
    Option<String>,
    MonitorError,
>)
    ensures
        ({
            let due = member(content(*answer), "notify"@) == Some(Json::Bool(true));
            let session = text_member(content(*offer), "session_id"@);
            match r {
                Ok(Some(line)) => due && session is Some && line@ == reminder_text(session->0),
                Ok(None) => !due,
                Err(error) => due && session is None && error == MonitorError::MissingSession,
            }
        }),
{
    if !is_true(answer, "notify") {
        return Ok(None);
    }
    match text_field(offer, "session_id") {
        Some(session) => Ok(Some(reminder(session))),
        None => Err(MonitorError::MissingSession),
    }
}

/// A reminder names its session between words that do not depend on it.
pub proof fn law_reminders_name_their_session(session: Seq<char>)
    ensures
        reminder_text(session).take(4) == seq!['P', 'T', 'Y', ' '],
        reminder_text(session).subrange(4, 4 + session.len() as int) == session,
        reminder_text(session).skip(4 + session.len() as int) == " 疑似停滞，请调用 read 检查。"@,
{
    reveal_strlit("PTY ");
    let text = reminder_text(session);
    assert("PTY "@ =~= seq!['P', 'T', 'Y', ' ']);
    assert(text.take(4) =~= seq!['P', 'T', 'Y', ' ']);
    assert(text.subrange(4, 4 + session.len() as int) =~= session);
    assert(text.skip(4 + session.len() as int) =~= " 疑似停滞，请调用 read 检查。"@);
}

/// A connection is for this very monitor, or is refused. It then pings or offers, and nothing else. A
/// reminder is printed where the owner says that it is still due, and names the session of the offer.
pub proof fn law_what_a_monitor_listens_to(
    message: &serde_json::Value,
    answer: &serde_json::Value,
    record: &MonitorRecord,
    hello: Result<(), MonitorError>,
    request: Result<MonitorRequest, MonitorError>,
    line: Result<Option<String>, MonitorError>,
)
    requires
        call_ensures(check_hello, (message, record), hello),
        call_ensures(read_request, (message,), request),
        call_ensures(notice, (message, answer), line),
    ensures
        ({
            let json = content(*message);
            let action = text_member(json, "action"@);
            let session = text_member(json, "session_id"@);
            let due = member(content(*answer), "notify"@) == Some(Json::Bool(true));
            &&& hello is Ok <==> action == Some("register"@) && text_member(json, "host_session_id"@)
                == Some(record.host_session_id@) && text_member(json, "generation"@) == Some(
                record.generation@,
            )
            &&& hello is Err ==> hello->Err_0 is IdentityMismatch
            &&& request == Ok::<MonitorRequest, MonitorError>(MonitorRequest::Ping) <==> action
                == Some("ping"@)
            &&& request == Ok::<MonitorRequest, MonitorError>(MonitorRequest::Offer) <==> action
                == Some("offer"@)
            &&& request is Err ==> request->Err_0 is UnknownMessage
            &&& !due ==> line is Ok && line->Ok_0 is None
            &&& due && session is None ==> line is Err && line->Err_0 is MissingSession
            &&& due && session is Some ==> line is Ok && line->Ok_0 is Some && line->Ok_0->0@
                == reminder_text(session->0)
        }),
{
    reveal_strlit("ping");
    reveal_strlit("offer");
    assert("ping"@.len() == 4 && "offer"@.len() == 5);
}

/// Every reason to end a connection is put in words of its own.
pub proof fn law_monitor_errors_in_words(error: MonitorError, text: String)
    requires
        call_ensures(MonitorError::describe, (error,), text),
    ensures
        error matches MonitorError::IdentityMismatch ==> text@ == "monitor identity mismatch"@,
        error matches MonitorError::UnknownMessage ==> text@ == "unknown monitor message"@,
        error matches MonitorError::MissingSession ==> text@ == "missing session id"@,
{
}

} // verus!
