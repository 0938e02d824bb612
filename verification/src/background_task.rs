//! A background task that shows the life of a session: what it prints, and how it ends.
use crate::text::{decimal, decimal_string};
use crate::types::{elapsed, Nanos};
use vstd::prelude::*;
use vstd::string::*;

verus! {

/// The least time between two previews of output.
pub const PREVIEW_INTERVAL: Nanos = 1_000_000_000;

/// Why a session ended, as its background task is told.
#[derive(Debug, Clone, Copy, PartialEq, Eq, Structural)]
pub enum EndReason {
    NaturalExit,
    StartFailed,
    TicketExpired,
    ExplicitClose,
    BackgroundTaskDisconnected,
    HostSessionEnded,
    ServerShutdown,
    Terminated,
    Killed,
}

impl EndReason {
    /// The name under which the reason is printed.
    pub open spec fn spec_name(self) -> Seq<char> {
        match self {
            EndReason::NaturalExit => "NaturalExit"@,
            EndReason::StartFailed => "StartFailed"@,
            EndReason::TicketExpired => "TicketExpired"@,
            EndReason::ExplicitClose => "ExplicitClose"@,
            EndReason::BackgroundTaskDisconnected => "BackgroundTaskDisconnected"@,
            EndReason::HostSessionEnded => "HostSessionEnded"@,
            EndReason::ServerShutdown => "ServerShutdown"@,
            EndReason::Terminated => "Terminated"@,
            EndReason::Killed => "Killed"@,
        }
    }

    pub fn name(self) -> (name: String)
        ensures
            name@ == self.spec_name(),
    {
        match self {
            EndReason::NaturalExit => "NaturalExit".to_string(),
            EndReason::StartFailed => "StartFailed".to_string(),
            EndReason::TicketExpired => "TicketExpired".to_string(),
            EndReason::ExplicitClose => "ExplicitClose".to_string(),
            EndReason::BackgroundTaskDisconnected => "BackgroundTaskDisconnected".to_string(),
            EndReason::HostSessionEnded => "HostSessionEnded".to_string(),
            EndReason::ServerShutdown => "ServerShutdown".to_string(),
            EndReason::Terminated => "Terminated".to_string(),
            EndReason::Killed => "Killed".to_string(),
        }
    }
}

/// How a session ended, as its background task is told.
#[derive(Debug)]
pub struct End {
    pub reason: EndReason,
    pub exit_code: Option<u32>,
    pub message: Option<String>,
}

/// What happens in the life of a session.
#[derive(Debug)]
pub enum SessionEvent {
    Attached,
    Running { program: String },
    Output { preview: String },
    Finished { termination: End },
}

/// Why a background task fails.
#[derive(Debug)]
pub enum TaskError {
    Exited(Option<u32>),
    /// The session failed, for the reason that was given.
    Failed(Option<String>),
    /// The service went away before the session ended.
    Disconnected,
}

/// An exit code as it is printed.
pub open spec fn code_text(code: Option<u32>) -> Seq<char> {
    match code {
        Some(code) => "Some("@ + decimal(code as nat) + ")"@,
        None => "None"@,
    }
}

fn print_code(code: Option<u32>) -> (text: String)
    ensures
        text@ == code_text(code),
{
    match code {
        Some(code) => {
            let mut text = "Some(".to_string();
            text.append(decimal_string(code as u64).as_str());
            text.append(")");
            text
        },
        None => "None".to_string(),
    }
}

impl TaskError {
    pub open spec fn spec_describe(self) -> Seq<char> {
        match self {
            TaskError::Exited(code) => "PTY process exited with code "@ + code_text(code),
            TaskError::Failed(Some(message)) => "PTY failed: "@ + message@,
            TaskError::Failed(None) => "PTY failed: "@ + "unknown failure"@,
            TaskError::Disconnected => "PTY service disconnected before a terminal lifecycle event"@,
        }
    }

    /// The error in words.
    pub fn describe(&self) -> (text: String)
        ensures
            text@ == self.spec_describe(),
    {
        match self {
            TaskError::Exited(code) => {
                let mut text = "PTY process exited with code ".to_string();
                text.append(print_code(*code).as_str());
                text
            },
            TaskError::Failed(reason) => {
                let mut text = "PTY failed: ".to_string();
                match reason {
                    Some(message) => {
                        text.append(message.as_str());
                    },
                    None => {
                        text.append("unknown failure");
                    },
                }
                text
            },
            TaskError::Disconnected => "PTY service disconnected before a terminal lifecycle event".to_string(),
        }
    }
}

/// The line with which something about a session is printed.
pub open spec fn labelled(session: Seq<char>, text: Seq<char>) -> Seq<char> {
    "["@ + session + "] "@ + text
}

pub fn label(session: &str, text: &str) -> (line: String)
    ensures
        line@ == labelled(session@, text@),
{
    let mut line = "[".to_string();
    line.append(session);
    line.append("] ");
    line.append(text);
    line
}

/// What a background task does about an event: what it prints, and what it ends with if it does.
#[derive(Debug)]
pub struct TaskStep {
    pub line: Option<String>,
    pub end: Option<Result<(), TaskError>>,
}

/// A background task of a session.
#[derive(Debug)]
pub struct BackgroundTask {
    pub session_id: String,
    /// When output was printed last.
    pub last_output: Option<Nanos>,
}

/// What a background task prints about the end of a session.
pub open spec fn end_text(end: End) -> Seq<char> {
    "finished reason="@ + end.reason.spec_name() + " exit_code="@ + code_text(end.exit_code)
}

/// What a background task ends with.
pub open spec fn end_result(end: End) -> Result<(), TaskError> {
    match end.reason {
        EndReason::NaturalExit => if end.exit_code == Some(0u32) {
            Ok(())
        } else {
            Err(TaskError::Exited(end.exit_code))
        },
        EndReason::StartFailed | EndReason::TicketExpired => Err(TaskError::Failed(end.message)),
        _ => Ok(()),
    }
}

impl BackgroundTask {
    pub fn new(session_id: String) -> (task: Self)
        ensures
            task == (BackgroundTask { session_id, last_output: None }),
    {
        BackgroundTask { session_id, last_output: None }
    }

    /// Whether a preview of output is printed: not within a second after the last.
    pub open spec fn prints_output(&self, now: Nanos) -> bool {
        match self.last_output {
            Some(last) => elapsed(last, now) >= PREVIEW_INTERVAL,
            None => true,
        }
    }

    /// What is printed about an event.
    pub open spec fn text_of_event(&self, event: SessionEvent, now: Nanos) -> Option<Seq<char>> {
        match event {
            SessionEvent::Attached => Some("attached"@),
            SessionEvent::Running { program } => Some("running "@ + program@),
            SessionEvent::Output { preview } => if self.prints_output(now) {
                Some(preview@)
            } else {
                None
            },
            SessionEvent::Finished { termination } => Some(end_text(termination)),
        }
    }

    /// Takes in an event.
    pub fn on_event(&mut self, event: SessionEvent, now: Nanos) -> (step: TaskStep)
        ensures
            final(self).session_id == old(self).session_id,
            final(self).last_output == if event is Output && old(self).prints_output(now) {
                Some(now)
            } else {
                old(self).last_output
            },
            match old(self).text_of_event(event, now) {
                Some(text) => step.line is Some && step.line->0@ == labelled(
                    old(self).session_id@,
                    text,
                ),
                None => step.line is None,
            },
            step.end == match event {
                SessionEvent::Finished { termination } => Some(end_result(termination)),
                _ => None,
            },
    {
        let id = self.session_id.clone();
        match event {
            SessionEvent::Attached => TaskStep {
                line: Some(label(id.as_str(), "attached")),
                end: None,
            },
            SessionEvent::Running { program } => {
                let mut text = "running ".to_string();
                text.append(program.as_str());
                TaskStep { line: Some(label(id.as_str(), text.as_str())), end: None }
            },
            SessionEvent::Output { preview } => {
                let prints = match self.last_output {
                    Some(last) => now.saturating_sub(last) >= PREVIEW_INTERVAL,
                    None => true,
                };
                if !prints {
                    return TaskStep { line: None, end: None };
                }
                self.last_output = Some(now);
                TaskStep { line: Some(label(id.as_str(), preview.as_str())), end: None }
            },
            SessionEvent::Finished { termination } => {
                let mut text = "finished reason=".to_string();
                text.append(termination.reason.name().as_str());
                text.append(" exit_code=");
                text.append(print_code(termination.exit_code).as_str());
                let line = label(id.as_str(), text.as_str());
                let end = match termination.reason {
                    EndReason::NaturalExit => match termination.exit_code {
                        Some(0) => Ok(()),
                        code => Err(TaskError::Exited(code)),
                    },
                    EndReason::StartFailed | EndReason::TicketExpired => Err(
                        TaskError::Failed(termination.message),
                    ),
                    _ => Ok(()),
                };
                TaskStep { line: Some(line), end: Some(end) }
            },
        }
    }
}

/// Two previews of output are never printed within one second.
pub proof fn law_previews_are_a_second_apart(
    task: BackgroundTask,
    preview: String,
    last: Nanos,
    now: Nanos,
)
    requires
        task.last_output == Some(last),
        now < last + PREVIEW_INTERVAL,
    ensures
        task.text_of_event(SessionEvent::Output { preview }, now) is None,
{
}

/// A background task succeeds where the session exited with zero, or ended because it was closed,
/// signalled or lost its owner. It fails with the exit code where that is another or is not known, and
/// with the message where the session could not be started or nobody came for it.
pub proof fn law_how_a_background_task_ends(end: End)
    ensures
        end.reason is NaturalExit && end.exit_code == Some(0u32) ==> end_result(end) is Ok,
        end.reason is NaturalExit && end.exit_code != Some(0u32) ==> (end_result(end) matches Err(
            TaskError::Exited(code),
        ) && code == end.exit_code),
        end.reason is StartFailed || end.reason is TicketExpired ==> (end_result(end) matches Err(
            TaskError::Failed(message),
        ) && message == end.message),
        end.reason is ExplicitClose || end.reason is BackgroundTaskDisconnected || end.reason
            is HostSessionEnded || end.reason is ServerShutdown || end.reason is Terminated
            || end.reason is Killed ==> end_result(end) is Ok,
{
}

/// Output is printed where none was before, or a second or more ago; every other event is printed
/// always.
pub proof fn law_what_a_background_task_prints(
    task: BackgroundTask,
    preview: String,
    program: String,
    end: End,
    now: Nanos,
)
    ensures
        task.text_of_event(SessionEvent::Attached, now) == Some("attached"@),
        task.text_of_event(SessionEvent::Running { program }, now) == Some("running "@ + program@),
        task.text_of_event(SessionEvent::Finished { termination: end }, now) == Some(end_text(end)),
        task.last_output is None ==> task.text_of_event(SessionEvent::Output { preview }, now)
            == Some(preview@),
        task.last_output matches Some(last) ==> task.text_of_event(
            SessionEvent::Output { preview },
            now,
        ) == (if now >= last + 1_000_000_000 {
            Some(preview@)
        } else {
            None
        }),
{
}

/// The end of a session is printed with its reason and exit code, and every line names its session
/// first.
pub proof fn law_how_ends_are_printed(end: End, session: Seq<char>, text: Seq<char>)
    ensures
        end_text(end) == "finished reason="@ + end.reason.spec_name() + " exit_code="@ + (
        match end.exit_code {
            Some(code) => "Some("@ + decimal(code as nat) + ")"@,
            None => "None"@,
        }),
        labelled(session, text) == "["@ + session + "] "@ + text,
{
}

/// No two reasons are printed under one name.
pub proof fn law_end_reasons_have_names_of_their_own(a: EndReason, b: EndReason)
    ensures
        a.spec_name() == b.spec_name() ==> a == b,
{
    reveal_strlit("NaturalExit");
    reveal_strlit("StartFailed");
    reveal_strlit("TicketExpired");
    reveal_strlit("ExplicitClose");
    reveal_strlit("BackgroundTaskDisconnected");
    reveal_strlit("HostSessionEnded");
    reveal_strlit("ServerShutdown");
    reveal_strlit("Terminated");
    reveal_strlit("Killed");
    assert("NaturalExit"@.len() == 11 && "NaturalExit"@[0] == 'N');
    assert("StartFailed"@.len() == 11 && "StartFailed"@[0] == 'S');
    assert("TicketExpired"@.len() == 13 && "TicketExpired"@[0] == 'T');
    assert("ExplicitClose"@.len() == 13 && "ExplicitClose"@[0] == 'E');
    assert("BackgroundTaskDisconnected"@.len() == 26);
    assert("HostSessionEnded"@.len() == 16);
    assert("ServerShutdown"@.len() == 14);
    assert("Terminated"@.len() == 10);
    assert("Killed"@.len() == 6);
}

/// The names under which the reasons are printed.
pub proof fn law_names_of_end_reasons()
    ensures
        EndReason::NaturalExit.spec_name() == "NaturalExit"@,
        EndReason::StartFailed.spec_name() == "StartFailed"@,
        EndReason::TicketExpired.spec_name() == "TicketExpired"@,
        EndReason::ExplicitClose.spec_name() == "ExplicitClose"@,
        EndReason::BackgroundTaskDisconnected.spec_name() == "BackgroundTaskDisconnected"@,
        EndReason::HostSessionEnded.spec_name() == "HostSessionEnded"@,
        EndReason::ServerShutdown.spec_name() == "ServerShutdown"@,
        EndReason::Terminated.spec_name() == "Terminated"@,
        EndReason::Killed.spec_name() == "Killed"@,
{
}

/// Every failure of a background task says why.
pub proof fn law_task_errors_in_words(error: &TaskError, text: String)
    requires
        call_ensures(TaskError::describe, (error,), text),
    ensures
        *error matches TaskError::Exited(code) ==> text@ == "PTY process exited with code "@ + code_text(code),
        *error matches TaskError::Failed(Some(message)) ==> text@ == "PTY failed: "@ + message@,
        *error matches TaskError::Failed(None) ==> text@ == "PTY failed: "@ + "unknown failure"@,
        *error matches TaskError::Disconnected ==> text@ == "PTY service disconnected before a terminal lifecycle event"@,
{
}

/// A background task ends with the end of its session and with nothing else, remembers when output was
/// printed last, and prints what there is to print under the name of its session.
pub proof fn law_what_a_background_task_does()
    ensures
        forall|task: &mut BackgroundTask, event: SessionEvent, now: Nanos, step: TaskStep|
            #[trigger] call_ensures(BackgroundTask::on_event, (task, event, now), step) ==> {
                &&& step.end is Some <==> event is Finished
                &&& event matches SessionEvent::Finished { termination } ==> step.end == Some(
                    end_result(termination),
                )
                &&& step.line is Some <==> task.text_of_event(event, now) is Some
                &&& step.line is Some ==> step.line->0@ == "["@ + task.session_id@ + "] "@
                    + task.text_of_event(event, now)->0
                &&& event is Output && step.line is Some ==> final(task).last_output == Some(now)
                &&& event !is Output || step.line is None ==> final(task).last_output
                    == task.last_output
            },
{
}

} // verus!
