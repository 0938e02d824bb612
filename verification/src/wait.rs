//! What the command that waits for a session reports, and how it exits.
use crate::hooks::reason_text;
use crate::json::{
    as_u64, content, get, is_true, member, text_field, text_member, value_text, written, Json,
};
use crate::text::same;
use crate::types::FinishReason;
use vstd::prelude::*;
use vstd::string::*;

verus! {

/// Why waiting failed.
#[derive(Debug)]
pub enum WaitError {
    /// The owner does not let this command wait, for the reason that it wrote.
    Rejected(String),
    /// The owner went away without a result.
    Disconnected,
}

impl WaitError {
    pub open spec fn spec_describe(self) -> Seq<char> {
        match self {
            WaitError::Rejected(reason) => "bgshell registration rejected: "@ + reason@,
            WaitError::Disconnected => "owner disconnected without a terminal result"@,
        }
    }

    /// The error in words.
    pub fn describe(&self) -> (text: String)
        ensures
            text@ == self.spec_describe(),
    {
        match self {
            WaitError::Rejected(reason) => {
                let mut text = "bgshell registration rejected: ".to_string();
                text.append(reason.as_str());
                text
            },
            WaitError::Disconnected => "owner disconnected without a terminal result".to_string(),
        }
    }
}

/// Checks whether the owner lets this command wait.
pub fn check_registration(answer: &serde_json::Value) -> (r: Result<(), WaitError>)
    ensures
        match r {
            Ok(()) => member(content(*answer), "ok"@) == Some(Json::Bool(true)),
            Err(WaitError::Rejected(reason)) => {
                &&& member(content(*answer), "ok"@) != Some(Json::Bool(true))
                &&& reason@ == reason_text(member(content(*answer), "error"@))
            },
            Err(_) => false,
        },
{
    if is_true(answer, "ok") {
        return Ok(());
    }
    let reason = match get(answer, "error") {
        Some(error) => value_text(error),
        None => "null".to_string(),
    };
    Err(WaitError::Rejected(reason))
}

/// What the command prints and exits with.
#[derive(Debug)]
pub struct WaitReport {
    pub line: String,
    pub exit_code: i32,
}

/// The line that reports how a session ended.
pub open spec fn report_line(session: Seq<char>, end: Json, reason: Seq<char>) -> Seq<char> {
    "["@ + session + "] finished reason="@ + reason + " exit_code="@ + reason_text(
        member(end, "exit_code"@),
    ) + (match text_member(end, "message"@) {
        Some(message) => " message="@ + message,
        None => Seq::empty(),
    })
}

/// How the command exits: successfully where the session ended as it should, that is with a
/// successful exit of its own or because it was told to.
pub open spec fn exit_code_of(end: Json, reason: Seq<char>) -> i32 {
    if reason == "natural_exit"@ {
        if member(end, "exit_code"@) == Some(Json::Unsigned(0)) {
            0
        } else {
            1
        }
    } else if reason == "explicit_close"@ || reason == "terminated"@ || reason == "killed"@ || reason
        == "host_session_ended"@ {
        0
    } else {
        1
    }
}

/// The termination in the message with which the owner reports the end.
pub open spec fn reported_end(message: Json) -> Option<(Json, Seq<char>)> {
    match member(message, "termination"@) {
        Some(end) => match text_member(end, "reason"@) {
            Some(reason) => Some((end, reason)),
            None => None,
        },
        None => None,
    }
}

/// Makes the owner's last message into a report.
pub fn report(session: &str, message: &serde_json::Value) -> (r: Result<WaitReport, WaitError>)
    ensures
        match r {
            Ok(report) => {
                let (end, reason) = reported_end(content(*message))->0;
                &&& reported_end(content(*message)) is Some
                &&& report.line@ == report_line(session@, end, reason)
                &&& report.exit_code == exit_code_of(end, reason)
            },
            Err(WaitError::Disconnected) => reported_end(content(*message)) is None,
            Err(_) => false,
        },
{
    let end = match get(message, "termination") {
        Some(end) => end,
        None => {
            return Err(WaitError::Disconnected);
        },
    };
    let reason = match text_field(end, "reason") {
        Some(reason) => reason,
        None => {
            return Err(WaitError::Disconnected);
        },
    };
    let mut line = "[".to_string();
    line.append(session);
    line.append("] finished reason=");
    line.append(reason);
    line.append(" exit_code=");
    let exit_code = get(end, "exit_code");
    match exit_code {
        Some(code) => {
            line.append(value_text(code).as_str());
        },
        None => {
            line.append("null");
        },
    }
    if let Some(message) = text_field(end, "message") {
        line.append(" message=");
        line.append(message);
    }
    let succeeded = if same(reason, "natural_exit") {
        match exit_code {
            Some(code) => match as_u64(code) {
                Some(number) => number == 0,
                None => false,
            },
            None => false,
        }
    } else {
        same(reason, "explicit_close") || same(reason, "terminated") || same(reason, "killed")
            || same(reason, "host_session_ended")
    };
    assert(line@ =~= report_line(session@, content(*end), reason@));
    Ok(
        WaitReport {
            line,
            exit_code: if succeeded {
                0
            } else {
                1
            },
        },
    )
}

/// The command succeeds exactly where the session ended as it should: with a successful exit of its
/// own, or, whatever its exit code, because it was closed, terminated, killed or ended with its host
/// session. For every other reason it fails.
pub proof fn law_exit_code_says_whether_the_session_ended_well(end: Json, reason: Seq<char>)
    ensures
        reason == FinishReason::NaturalExit.spec_name() ==> exit_code_of(end, reason) == (if member(
            end,
            "exit_code"@,
        ) == Some(Json::Unsigned(0)) {
            0i32
        } else {
            1
        }),
        reason == FinishReason::ExplicitClose.spec_name() ==> exit_code_of(end, reason) == 0,
        reason == FinishReason::Terminated.spec_name() ==> exit_code_of(end, reason) == 0,
        reason == FinishReason::Killed.spec_name() ==> exit_code_of(end, reason) == 0,
        reason == "host_session_ended"@ ==> exit_code_of(end, reason) == 0,
        reason != FinishReason::NaturalExit.spec_name() && reason
            != FinishReason::ExplicitClose.spec_name() && reason
            != FinishReason::Terminated.spec_name() && reason != FinishReason::Killed.spec_name()
            && reason != "host_session_ended"@ ==> exit_code_of(end, reason) == 1,
{
    reveal_strlit("natural_exit");
    reveal_strlit("explicit_close");
    reveal_strlit("terminated");
    reveal_strlit("killed");
    reveal_strlit("host_session_ended");
    assert("natural_exit"@.len() == 12);
    assert("explicit_close"@.len() == 14);
    assert("terminated"@.len() == 10);
    assert("killed"@.len() == 6);
    assert("host_session_ended"@.len() == 18);
}

/// A session that failed on its own account, or lost its owner, makes the command fail.
pub proof fn law_failures_are_reported_as_failures(end: Json, reason: FinishReason)
    requires
        reason is ReaderFailed || reason is WriterFailed || reason is WriteTimeout || reason is WaitFailed
            || reason is OwnerDisconnected || reason is OwnerEnded || reason is Shutdown,
    ensures
        exit_code_of(end, reason.spec_name()) == 1,
{
    crate::types::lemma_reason_names();
    reveal_strlit("host_session_ended");
    assert("host_session_ended"@.len() == 18);
    assert("host_session_ended"@[0] == 'h');
    assert("owner_disconnected"@[0] == 'o');
}

/// What the owner reports under `termination` is reported where it names a reason, and nothing else
/// is.
pub proof fn law_only_a_termination_is_reported(message: Json, end: Json, reason: Seq<char>)
    ensures
        reported_end(message) == Some((end, reason)) <==> {
            &&& message is Object
            &&& message->Object_0.dom().contains("termination"@)
            &&& message->Object_0["termination"@] == end
            &&& end is Object
            &&& end->Object_0.dom().contains("reason"@)
            &&& end->Object_0["reason"@] == Json::Text(reason)
        },
{
}

/// The line names the session and the reason as they are given, writes `null` for a missing exit
/// code, and has the message at its end where there is one.
pub proof fn law_report_lines(session: Seq<char>, end: Json, reason: Seq<char>)
    ensures
        ({
            let line = report_line(session, end, reason);
            let head = seq!['['] + session + "] finished reason="@ + reason + " exit_code="@;
            let code = match member(end, "exit_code"@) {
                Some(code) => written(code),
                None => "null"@,
            };
            match text_member(end, "message"@) {
                Some(message) => line == head + code + " message="@ + message,
                None => line == head + code,
            }
        }),
{
    reveal_strlit("[");
    assert("["@ =~= seq!['[']);
    let head = seq!['['] + session + "] finished reason="@ + reason + " exit_code="@;
    let code = reason_text(member(end, "exit_code"@));
    assert(head + code + Seq::<char>::empty() =~= head + code);
    if let Some(message) = text_member(end, "message"@) {
        assert(head + code + (" message="@ + message) =~= head + code + " message="@ + message);
    }
}

/// A command waits where its owner says `true` under `ok`; otherwise it fails with the owner's error.
/// It reports exactly where the owner's last message names a reason, and otherwise fails because the
/// owner went away.
pub proof fn law_what_a_waiting_command_does(
    session: &str,
    message: &serde_json::Value,
    registered: Result<(), WaitError>,
    r: Result<WaitReport, WaitError>,
)
    requires
        call_ensures(check_registration, (message,), registered),
        call_ensures(report, (session, message), r),
    ensures
        registered is Ok <==> member(content(*message), "ok"@) == Some(Json::Bool(true)),
        registered is Err ==> (registered->Err_0 matches WaitError::Rejected(reason) && reason@
            == reason_text(member(content(*message), "error"@))),
        r is Ok <==> reported_end(content(*message)) is Some,
        r is Err ==> r->Err_0 is Disconnected,
        r matches Ok(report) ==> (reported_end(content(*message)) matches Some((end, reason))
            && report.line@ == report_line(session@, end, reason) && report.exit_code
            == exit_code_of(end, reason)),
{
}

/// Every failure to wait says why.
pub proof fn law_wait_errors_in_words(error: &WaitError, text: String)
    requires
        call_ensures(WaitError::describe, (error,), text),
    ensures
        *error matches WaitError::Rejected(reason) ==> text@ == "bgshell registration rejected: "@ + reason@,
        *error matches WaitError::Disconnected ==> text@ == "owner disconnected without a terminal result"@,
{
}

} // verus!
