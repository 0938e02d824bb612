//! What the local processes of a host session ask of a server, and what it accepts from them.
use crate::json::{
    as_u64, content, get, holds_text, is_object, is_true, member, object_len, text_field,
    text_member, Json,
};
use crate::silence::Candidate;
use vstd::prelude::*;
use vstd::string::*;

verus! {

/// Why a request is refused.
#[derive(Debug, Clone, Copy, PartialEq, Eq, Structural)]
pub enum ControlError {
    ShuttingDown,
    LimitReached,
    MonitorDisconnected,
    MonitorNotReady,
    UnknownSession,
    InstanceMismatch,
    MissingSession,
    MissingReceipt,
    AlreadyWaiting,
    UnknownRequest,
    HandshakeRejected,
    HeartbeatRejected,
    InvalidClaim,
    NotificationFailed,
}

impl ControlError {
    pub open spec fn spec_describe(self) -> Seq<char> {
        match self {
            ControlError::ShuttingDown => "PTY server is shutting down"@,
            ControlError::LimitReached => "PTY session limit reached"@,
            ControlError::MonitorDisconnected => "monitor disconnected during PTY creation"@,
            ControlError::MonitorNotReady => "monitor not ready within 5 seconds; no PTY was started"@,
            ControlError::UnknownSession => "unknown PTY session"@,
            ControlError::InstanceMismatch => "PTY instance mismatch"@,
            ControlError::MissingSession => "missing session id"@,
            ControlError::MissingReceipt => "missing receipt id"@,
            ControlError::AlreadyWaiting => "a bgshell already waits for this PTY"@,
            ControlError::UnknownRequest => "unknown control request"@,
            ControlError::HandshakeRejected => "monitor handshake rejected"@,
            ControlError::HeartbeatRejected => "monitor heartbeat rejected"@,
            ControlError::InvalidClaim => "invalid monitor claim"@,
            ControlError::NotificationFailed => "monitor notification failed"@,
        }
    }

    /// The error in words.
    pub fn describe(self) -> (text: String)
        ensures
            text@ == self.spec_describe(),
    {
        match self {
            ControlError::ShuttingDown => "PTY server is shutting down".to_string(),
            ControlError::LimitReached => "PTY session limit reached".to_string(),
            ControlError::MonitorDisconnected => "monitor disconnected during PTY creation".to_string(),
            ControlError::MonitorNotReady => "monitor not ready within 5 seconds; no PTY was started".to_string(),
            ControlError::UnknownSession => "unknown PTY session".to_string(),
            ControlError::InstanceMismatch => "PTY instance mismatch".to_string(),
            ControlError::MissingSession => "missing session id".to_string(),
            ControlError::MissingReceipt => "missing receipt id".to_string(),
            ControlError::AlreadyWaiting => "a bgshell already waits for this PTY".to_string(),
            ControlError::UnknownRequest => "unknown control request".to_string(),
            ControlError::HandshakeRejected => "monitor handshake rejected".to_string(),
            ControlError::HeartbeatRejected => "monitor heartbeat rejected".to_string(),
            ControlError::InvalidClaim => "invalid monitor claim".to_string(),
            ControlError::NotificationFailed => "monitor notification failed".to_string(),
        }
    }
}

/// What a control connection asks for.
#[derive(Debug)]
pub enum ControlRequest {
    /// Wait for a session, as the only one.
    Wait { session_id: String },
    /// Acknowledge a returned read.
    Observe { session_id: String, receipt: String },
    /// End a session whose owner ended.
    FinishOwned { session_id: String },
}

/// Whether this is what a message asks of the given instance.
pub open spec fn asks(message: Json, instance: Seq<char>, r: Result<ControlRequest, ControlError>) -> bool {
    let session = text_member(message, "session_id"@);
    let action = text_member(message, "action"@);
    let receipt = text_member(message, "receipt_id"@);
    if text_member(message, "instance_id"@) != Some(instance) {
        r == Err::<ControlRequest, ControlError>(ControlError::InstanceMismatch)
    } else if session is None {
        r == Err::<ControlRequest, ControlError>(ControlError::MissingSession)
    } else if action == Some("wait"@) {
        r matches Ok(ControlRequest::Wait { session_id }) && session_id@ == session->0
    } else if action == Some("observe"@) {
        if receipt is None {
            r == Err::<ControlRequest, ControlError>(ControlError::MissingReceipt)
        } else {
            r matches Ok(ControlRequest::Observe { session_id, receipt: id }) && session_id@
                == session->0 && id@ == receipt->0
        }
    } else if action == Some("finish_owned"@) {
        r matches Ok(ControlRequest::FinishOwned { session_id }) && session_id@ == session->0
    } else {
        r == Err::<ControlRequest, ControlError>(ControlError::UnknownRequest)
    }
}

/// Reads what a control connection asks of the given instance.
pub fn read_control(message: &serde_json::Value, instance: &str) -> (r: Result<
    ControlRequest,
    ControlError,
>)
    ensures
        asks(content(*message), instance@, r),
{
    proof {
        reveal_strlit("wait");
        reveal_strlit("observe");
        reveal_strlit("finish_owned");
        assert("wait"@.len() == 4 && "observe"@.len() == 7 && "finish_owned"@.len() == 12);
    }
    if !holds_text(message, "instance_id", instance) {
        return Err(ControlError::InstanceMismatch);
    }
    let session_id = match text_field(message, "session_id") {
        Some(session) => session.to_string(),
        None => {
            return Err(ControlError::MissingSession);
        },
    };
    if holds_text(message, "action", "wait") {
        return Ok(ControlRequest::Wait { session_id });
    }
    if holds_text(message, "action", "observe") {
        return match text_field(message, "receipt_id") {
            Some(receipt) => Ok(
                ControlRequest::Observe { session_id, receipt: receipt.to_string() },
            ),
            None => Err(ControlError::MissingReceipt),
        };
    }
    if holds_text(message, "action", "finish_owned") {
        return Ok(ControlRequest::FinishOwned { session_id });
    }
    Err(ControlError::UnknownRequest)
}

/// Checks how a monitor answers a registration: it accepts, as the generation that was asked.
pub fn check_handshake(answer: &serde_json::Value, generation: &str) -> (r: Result<
    (),
    ControlError,
>)
    ensures
        r == (if member(content(*answer), "ok"@) == Some(Json::Bool(true)) && text_member(
            content(*answer),
            "generation"@,
        ) == Some(generation@) {
            Ok::<(), ControlError>(())
        } else {
            Err(ControlError::HandshakeRejected)
        }),
{
    if is_true(answer, "ok") && holds_text(answer, "generation", generation) {
        Ok(())
    } else {
        Err(ControlError::HandshakeRejected)
    }
}

/// Checks how a monitor answers a heartbeat.
pub fn check_heartbeat(answer: &serde_json::Value) -> (r: Result<(), ControlError>)
    ensures
        r == (if member(content(*answer), "ok"@) == Some(Json::Bool(true)) {
            Ok::<(), ControlError>(())
        } else {
            Err(ControlError::HeartbeatRejected)
        }),
{
    if is_true(answer, "ok") {
        Ok(())
    } else {
        Err(ControlError::HeartbeatRejected)
    }
}

/// Checks how a monitor answers once it was told whether to print a reminder.
pub fn check_notified(answer: &serde_json::Value) -> (r: Result<(), ControlError>)
    ensures
        r == (if member(content(*answer), "ok"@) == Some(Json::Bool(true)) {
            Ok::<(), ControlError>(())
        } else {
            Err(ControlError::NotificationFailed)
        }),
{
    if is_true(answer, "ok") {
        Ok(())
    } else {
        Err(ControlError::NotificationFailed)
    }
}

/// The fields of a candidate as they are sent.
pub open spec fn candidate_fields(candidate: Candidate) -> Map<Seq<char>, Json> {
    Map::<Seq<char>, Json>::empty().insert(
        "interaction_id"@,
        Json::Unsigned(candidate.interaction_id),
    ).insert("output_seq"@, Json::Unsigned(candidate.output_seq)).insert(
        "start_cursor"@,
        Json::Unsigned(candidate.start_cursor),
    ).insert("end_cursor"@, Json::Unsigned(candidate.end_cursor))
}

/// A candidate as it is sent.
pub open spec fn candidate_json(candidate: Candidate) -> Json {
    Json::Object(candidate_fields(candidate))
}

proof fn lemma_candidate_keys()
    ensures
        "interaction_id"@ != "output_seq"@,
        "interaction_id"@ != "start_cursor"@,
        "interaction_id"@ != "end_cursor"@,
        "output_seq"@ != "start_cursor"@,
        "output_seq"@ != "end_cursor"@,
        "start_cursor"@ != "end_cursor"@,
{
    reveal_strlit("interaction_id");
    reveal_strlit("output_seq");
    reveal_strlit("start_cursor");
    reveal_strlit("end_cursor");
    assert("interaction_id"@.len() == 14);
    assert("start_cursor"@.len() == 12);
    assert("output_seq"@[0] == 'o');
    assert("end_cursor"@[0] == 'e');
}

/// An object with as many keys as a candidate that holds each field of it is the candidate.
proof fn lemma_candidate_is_whole(map: Map<Seq<char>, Json>, candidate: Candidate)
    requires
        map.dom().finite(),
        map.dom().len() == 4,
        member(Json::Object(map), "interaction_id"@) == Some(
            Json::Unsigned(candidate.interaction_id),
        ),
        member(Json::Object(map), "output_seq"@) == Some(Json::Unsigned(candidate.output_seq)),
        member(Json::Object(map), "start_cursor"@) == Some(
            Json::Unsigned(candidate.start_cursor),
        ),
        member(Json::Object(map), "end_cursor"@) == Some(Json::Unsigned(candidate.end_cursor)),
    ensures
        map == candidate_fields(candidate),
{
    lemma_candidate_keys();
    let fields = candidate_fields(candidate);
    assert(fields.dom() =~= set!["interaction_id"@, "output_seq"@, "start_cursor"@, "end_cursor"@]);
    assert(fields.dom().len() == 4);
    assert(fields.dom().subset_of(map.dom()));
    vstd::set_lib::lemma_subset_equality(fields.dom(), map.dom());
    assert(map =~= fields);
}

/// Checks whether an object holds a number under a key.
fn holds_number(value: &serde_json::Value, key: &str, number: u64) -> (r: bool)
    ensures
        r == (member(content(*value), key@) == Some(Json::Unsigned(number))),
{
    match get(value, key) {
        Some(field) => match as_u64(field) {
            Some(found) => found == number,
            None => false,
        },
        None => false,
    }
}

/// Checks whether a value is a candidate as it is sent.
pub fn is_candidate(value: &serde_json::Value, candidate: &Candidate) -> (r: bool)
    ensures
        r == (content(*value) == candidate_json(*candidate)),
{
    proof {
        lemma_candidate_keys();
        let fields = candidate_fields(*candidate);
        assert(fields.dom() =~= set![
            "interaction_id"@,
            "output_seq"@,
            "start_cursor"@,
            "end_cursor"@,
        ]);
        assert(fields.dom().len() == 4);
    }
    if !is_object(value) || object_len(value) != 4 {
        return false;
    }
    let r = holds_number(value, "interaction_id", candidate.interaction_id) && holds_number(
        value,
        "output_seq",
        candidate.output_seq,
    ) && holds_number(value, "start_cursor", candidate.start_cursor) && holds_number(
        value,
        "end_cursor",
        candidate.end_cursor,
    );
    proof {
        if r {
            lemma_candidate_is_whole(content(*value)->Object_0, *candidate);
        }
    }
    r
}

/// Checks how a monitor answers an offer: it claims the very reminder that was offered.
pub fn check_claim(answer: &serde_json::Value, session: &str, candidate: &Candidate) -> (r: Result<
    (),
    ControlError,
>)
    ensures
        r == (if text_member(content(*answer), "action"@) == Some("claim"@) && text_member(
            content(*answer),
            "session_id"@,
        ) == Some(session@) && member(content(*answer), "candidate"@) == Some(
            candidate_json(*candidate),
        ) {
            Ok::<(), ControlError>(())
        } else {
            Err(ControlError::InvalidClaim)
        }),
{
    let claimed = match get(answer, "candidate") {
        Some(value) => is_candidate(value, candidate),
        None => false,
    };
    if claimed && holds_text(answer, "action", "claim") && holds_text(
        answer,
        "session_id",
        session,
    ) {
        Ok(())
    } else {
        Err(ControlError::InvalidClaim)
    }
}

/// A request has to name this very instance, and a session. It waits, observes with a receipt, or
/// finishes an owned session, as its action says; nothing else is asked.
pub proof fn law_what_a_control_message_asks(
    message: Json,
    instance: Seq<char>,
    r: Result<ControlRequest, ControlError>,
)
    requires
        asks(message, instance, r),
    ensures
        ({
            let session = text_member(message, "session_id"@);
            let action = text_member(message, "action"@);
            let receipt = text_member(message, "receipt_id"@);
            let ours = text_member(message, "instance_id"@) == Some(instance);
            &&& !ours ==> r is Err && r->Err_0 is InstanceMismatch
            &&& ours && session is None ==> r is Err && r->Err_0 is MissingSession
            &&& ours && session is Some && action == Some("wait"@) ==> (r matches Ok(
                ControlRequest::Wait { session_id },
            ) && session_id@ == session->0)
            &&& ours && session is Some && action == Some("observe"@) && receipt is Some ==> (
            r matches Ok(ControlRequest::Observe { session_id, receipt: id }) && session_id@
                == session->0 && id@ == receipt->0)
            &&& ours && session is Some && action == Some("observe"@) && receipt is None ==> r
                is Err && r->Err_0 is MissingReceipt
            &&& ours && session is Some && action == Some("finish_owned"@) ==> (r matches Ok(
                ControlRequest::FinishOwned { session_id },
            ) && session_id@ == session->0)
            &&& ours && session is Some && action != Some("wait"@) && action != Some("observe"@)
                && action != Some("finish_owned"@) ==> r is Err && r->Err_0 is UnknownRequest
        }),
{
    reveal_strlit("wait");
    reveal_strlit("observe");
    reveal_strlit("finish_owned");
    assert("wait"@.len() == 4 && "observe"@.len() == 7 && "finish_owned"@.len() == 12);
}

/// A candidate is sent with its four numbers, each under its own name, and two that are sent alike
/// are one.
pub proof fn law_candidates_are_sent_whole(a: Candidate, b: Candidate)
    ensures
        member(candidate_json(a), "interaction_id"@) == Some(Json::Unsigned(a.interaction_id)),
        member(candidate_json(a), "output_seq"@) == Some(Json::Unsigned(a.output_seq)),
        member(candidate_json(a), "start_cursor"@) == Some(Json::Unsigned(a.start_cursor)),
        member(candidate_json(a), "end_cursor"@) == Some(Json::Unsigned(a.end_cursor)),
        candidate_fields(a).dom() == set![
            "interaction_id"@,
            "output_seq"@,
            "start_cursor"@,
            "end_cursor"@,
        ],
        candidate_json(a) == candidate_json(b) ==> a == b,
{
    lemma_candidate_keys();
    assert(candidate_fields(a).dom() =~= set![
        "interaction_id"@,
        "output_seq"@,
        "start_cursor"@,
        "end_cursor"@,
    ]);
    assert(member(candidate_json(b), "interaction_id"@) == Some(Json::Unsigned(b.interaction_id)));
    assert(member(candidate_json(b), "output_seq"@) == Some(Json::Unsigned(b.output_seq)));
    assert(member(candidate_json(b), "start_cursor"@) == Some(Json::Unsigned(b.start_cursor)));
    assert(member(candidate_json(b), "end_cursor"@) == Some(Json::Unsigned(b.end_cursor)));
}

/// A monitor accepts by `true` under `ok` alone. A registration has to be accepted by the generation
/// that was asked, and a claim has to be for the very reminder and session that were offered.
pub proof fn law_which_answers_are_accepted(
    answer: &serde_json::Value,
    generation: &str,
    session: &str,
    candidate: &Candidate,
    handshake: Result<(), ControlError>,
    heartbeat: Result<(), ControlError>,
    notified: Result<(), ControlError>,
    claim: Result<(), ControlError>,
)
    requires
        call_ensures(check_handshake, (answer, generation), handshake),
        call_ensures(check_heartbeat, (answer,), heartbeat),
        call_ensures(check_notified, (answer,), notified),
        call_ensures(check_claim, (answer, session, candidate), claim),
    ensures
        ({
            let json = content(*answer);
            let accepted = member(json, "ok"@) == Some(Json::Bool(true));
            &&& heartbeat is Ok <==> accepted
            &&& notified is Ok <==> accepted
            &&& handshake is Ok <==> accepted && text_member(json, "generation"@) == Some(
                generation@,
            )
            &&& claim is Ok <==> text_member(json, "action"@) == Some("claim"@) && text_member(
                json,
                "session_id"@,
            ) == Some(session@) && member(json, "candidate"@) == Some(candidate_json(*candidate))
            &&& handshake is Err ==> handshake->Err_0 is HandshakeRejected
            &&& heartbeat is Err ==> heartbeat->Err_0 is HeartbeatRejected
            &&& notified is Err ==> notified->Err_0 is NotificationFailed
            &&& claim is Err ==> claim->Err_0 is InvalidClaim
        }),
{
}

/// Every refusal of a request is put in words of its own.
pub proof fn law_control_errors_in_words(error: ControlError, text: String)
    requires
        call_ensures(ControlError::describe, (error,), text),
    ensures
        error matches ControlError::ShuttingDown ==> text@ == "PTY server is shutting down"@,
        error matches ControlError::LimitReached ==> text@ == "PTY session limit reached"@,
        error matches ControlError::MonitorDisconnected ==> text@ == "monitor disconnected during PTY creation"@,
        error matches ControlError::MonitorNotReady ==> text@ == "monitor not ready within 5 seconds; no PTY was started"@,
        error matches ControlError::UnknownSession ==> text@ == "unknown PTY session"@,
        error matches ControlError::InstanceMismatch ==> text@ == "PTY instance mismatch"@,
        error matches ControlError::MissingSession ==> text@ == "missing session id"@,
        error matches ControlError::MissingReceipt ==> text@ == "missing receipt id"@,
        error matches ControlError::AlreadyWaiting ==> text@ == "a bgshell already waits for this PTY"@,
        error matches ControlError::UnknownRequest ==> text@ == "unknown control request"@,
        error matches ControlError::HandshakeRejected ==> text@ == "monitor handshake rejected"@,
        error matches ControlError::HeartbeatRejected ==> text@ == "monitor heartbeat rejected"@,
        error matches ControlError::InvalidClaim ==> text@ == "invalid monitor claim"@,
        error matches ControlError::NotificationFailed ==> text@ == "monitor notification failed"@,
{
}

/// A message is read as what it asks.
pub proof fn law_messages_are_read_as_what_they_ask(
    message: &serde_json::Value,
    instance: &str,
    r: Result<ControlRequest, ControlError>,
    value: &serde_json::Value,
    candidate: &Candidate,
    same: bool,
)
    requires
        call_ensures(read_control, (message, instance), r),
        call_ensures(is_candidate, (value, candidate), same),
    ensures
        asks(content(*message), instance@, r),
        same <==> content(*value) == candidate_json(*candidate),
{
}

} // verus!
