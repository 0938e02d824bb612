//! The plain data of a session: how it starts, what it is doing and how it ended.
//!
//! Points in time are nanoseconds on one monotonic clock, spans of time are nanoseconds.
use crate::text::{decimal, decimal_string};
use std::collections::HashMap;
use vstd::prelude::*;
use vstd::string::*;

verus! {

/// Nanoseconds: a span of time, or a point in time on the monotonic clock.
pub type Nanos = u64;

pub const MILLISECOND: Nanos = 1_000_000;

pub const SECOND: Nanos = 1_000_000_000;

/// Bytes of output that a session retains.
pub const OUTPUT_CAPACITY: usize = 1_048_576;

/// How long an input may take to be written.
pub const WRITE_TIMEOUT: Nanos = 5_000_000_000;

/// How long the workers of an exited child may take to drain.
pub const DRAIN_TIMEOUT: Nanos = 2_000_000_000;

/// A path of the host's file system, carried through unread.
#[verifier::external_type_specification]
#[verifier::external_body]
pub struct ExPathBuf(std::path::PathBuf);

/// What to start, and in which terminal.
#[derive(Debug)]
pub struct StartSpec {
    pub program: String,
    pub args: Vec<String>,
    pub cwd: std::path::PathBuf,
    pub env: HashMap<String, String>,
    pub rows: u16,
    pub cols: u16,
}

impl StartSpec {
    /// A program with its arguments in a terminal of 24 rows by 80 columns and an environment
    /// that adds nothing.
    pub fn new<S: Into<String>>(
        program: S,
        args: Vec<String>,
        cwd: std::path::PathBuf,
    ) -> (spec: Self)
        ensures
            call_ensures(S::into, (program,), spec.program),
            spec.args == args,
            spec.cwd == cwd,
            spec.env@ == Map::<String, String>::empty(),
            spec.rows == 24,
            spec.cols == 80,
    {
        Self { program: program.into(), args, cwd, env: HashMap::new(), rows: 24, cols: 80 }
    }
}

#[derive(Debug, Clone, Copy, PartialEq, Eq, Structural)]
pub enum SessionState {
    Starting,
    Running,
    Finished,
}

impl SessionState {
    /// The name under which the state is reported.
    pub open spec fn spec_name(self) -> Seq<char> {
        match self {
            SessionState::Starting => "starting"@,
            SessionState::Running => "running"@,
            SessionState::Finished => "finished"@,
        }
    }

    pub fn name(self) -> (name: String)
        ensures
            name@ == self.spec_name(),
    {
        match self {
            SessionState::Starting => "starting".to_string(),
            SessionState::Running => "running".to_string(),
            SessionState::Finished => "finished".to_string(),
        }
    }
}

#[derive(Debug, Clone, Copy, PartialEq, Eq, Structural)]
pub enum FinishReason {
    NaturalExit,
    ExplicitClose,
    Terminated,
    Killed,
    ReaderFailed,
    WriterFailed,
    WriteTimeout,
    WaitFailed,
    OwnerDisconnected,
    OwnerEnded,
    Shutdown,
}

impl FinishReason {
    /// The name under which the reason is reported.
    pub open spec fn spec_name(self) -> Seq<char> {
        match self {
            FinishReason::NaturalExit => "natural_exit"@,
            FinishReason::ExplicitClose => "explicit_close"@,
            FinishReason::Terminated => "terminated"@,
            FinishReason::Killed => "killed"@,
            FinishReason::ReaderFailed => "reader_failed"@,
            FinishReason::WriterFailed => "writer_failed"@,
            FinishReason::WriteTimeout => "write_timeout"@,
            FinishReason::WaitFailed => "wait_failed"@,
            FinishReason::OwnerDisconnected => "owner_disconnected"@,
            FinishReason::OwnerEnded => "owner_ended"@,
            FinishReason::Shutdown => "shutdown"@,
        }
    }

    pub fn name(self) -> (name: String)
        ensures
            name@ == self.spec_name(),
    {
        match self {
            FinishReason::NaturalExit => "natural_exit".to_string(),
            FinishReason::ExplicitClose => "explicit_close".to_string(),
            FinishReason::Terminated => "terminated".to_string(),
            FinishReason::Killed => "killed".to_string(),
            FinishReason::ReaderFailed => "reader_failed".to_string(),
            FinishReason::WriterFailed => "writer_failed".to_string(),
            FinishReason::WriteTimeout => "write_timeout".to_string(),
            FinishReason::WaitFailed => "wait_failed".to_string(),
            FinishReason::OwnerDisconnected => "owner_disconnected".to_string(),
            FinishReason::OwnerEnded => "owner_ended".to_string(),
            FinishReason::Shutdown => "shutdown".to_string(),
        }
    }
}

/// How a session ended.
#[derive(Debug)]
pub struct Termination {
    pub reason: FinishReason,
    pub exit_code: Option<u32>,
    pub message: Option<String>,
}

impl Clone for Termination {
    fn clone(&self) -> (copy: Self)
        ensures
            copy == *self,
    {
        let message = match &self.message {
            Some(text) => Some(text.clone()),
            None => None,
        };
        Termination { reason: self.reason, exit_code: self.exit_code, message }
    }
}

/// Byte activity and input boundaries, independent of any consumer's interpretation.
#[derive(Debug, Clone, Copy)]
pub struct Activity {
    pub interaction_id: u64,
    pub interaction_at: Nanos,
    pub interaction_output_seq: u64,
    pub interaction_cursor: u64,
    pub output_seq: u64,
    pub last_output_at: Option<Nanos>,
    pub pending_inputs: usize,
}

/// The state of a session at one moment. Wall-clock times are milliseconds since the epoch.
#[derive(Debug)]
pub struct Snapshot {
    pub state: SessionState,
    pub termination: Option<Termination>,
    pub rows: u16,
    pub cols: u16,
    pub created_at_ms: u64,
    pub last_output_at_ms: Option<u64>,
    pub last_input_at_ms: Option<u64>,
    pub retained_start: u64,
    pub retained_end: u64,
    pub ending: bool,
    pub activity: Activity,
}

impl Clone for Snapshot {
    fn clone(&self) -> (copy: Self)
        ensures
            copy == *self,
    {
        let termination = match &self.termination {
            Some(termination) => Some(termination.clone()),
            None => None,
        };
        Snapshot {
            state: self.state,
            termination,
            rows: self.rows,
            cols: self.cols,
            created_at_ms: self.created_at_ms,
            last_output_at_ms: self.last_output_at_ms,
            last_input_at_ms: self.last_input_at_ms,
            retained_start: self.retained_start,
            retained_end: self.retained_end,
            ending: self.ending,
            activity: self.activity,
        }
    }
}

/// Confirms an input: how much was written, and the interaction that is now current.
#[derive(Debug, Clone, Copy)]
pub struct WriteReceipt {
    pub bytes_written: usize,
    pub interaction_id: u64,
}

/// An input that was not confirmed as a whole.
#[derive(Debug, Clone)]
pub struct WriteFailure {
    pub bytes_written: usize,
    pub delivery_uncertain: bool,
    pub message: String,
}

impl WriteFailure {
    /// The failure in words: its message, the confirmed count and whether more may have arrived.
    pub fn describe(&self) -> (text: String)
        ensures
            text@ == self.message@ + "; confirmed bytes written="@ + decimal(
                self.bytes_written as nat,
            ) + ", delivery uncertain="@ + (if self.delivery_uncertain {
                "true"@
            } else {
                "false"@
            }),
    {
        let mut text = self.message.clone();
        text.append("; confirmed bytes written=");
        text.append(decimal_string(self.bytes_written as u64).as_str());
        text.append(", delivery uncertain=");
        if self.delivery_uncertain {
            text.append("true");
        } else {
            text.append("false");
        }
        text
    }
}

/// The later point in time by `span`, or the end of the clock.
pub open spec fn later(at: Nanos, span: Nanos) -> Nanos {
    if at + span > Nanos::MAX {
        Nanos::MAX
    } else {
        (at + span) as Nanos
    }
}

/// How long after `since` the point `now` is; nothing where it is not after it.
pub open spec fn elapsed(since: Nanos, now: Nanos) -> Nanos {
    if now <= since {
        0
    } else {
        (now - since) as Nanos
    }
}

/// Milliseconds since the epoch from the nanoseconds since it; the epoch itself on a clock that
/// is set before it.
pub open spec fn epoch_ms(since_epoch: Option<u64>) -> u64 {
    match since_epoch {
        Some(nanos) => nanos / 1_000_000,
        None => 0,
    }
}

/// The time of day in milliseconds.
pub fn now_ms(since_epoch: Option<u64>) -> (ms: u64)
    ensures
        ms == epoch_ms(since_epoch),
{
    match since_epoch {
        Some(nanos) => nanos / 1_000_000,
        None => 0,
    }
}

proof fn lemma_reason_literals()
    ensures
        "natural_exit"@.len() == 12 && "natural_exit"@[0] == 'n',
        "explicit_close"@.len() == 14,
        "terminated"@.len() == 10,
        "killed"@.len() == 6,
        "reader_failed"@.len() == 13 && "reader_failed"@[0] == 'r',
        "writer_failed"@.len() == 13 && "writer_failed"@[0] == 'w' && "writer_failed"@[4] == 'e'
            && "writer_failed"@[5] == 'r',
        "write_timeout"@.len() == 13 && "write_timeout"@[0] == 'w' && "write_timeout"@[5] == '_',
        "wait_failed"@.len() == 11 && "wait_failed"@[0] == 'w',
        "owner_disconnected"@.len() == 18 && "owner_disconnected"@[0] == 'o',
        "owner_ended"@.len() == 11 && "owner_ended"@[0] == 'o',
        "shutdown"@.len() == 8,
{
    reveal_strlit("natural_exit");
    reveal_strlit("explicit_close");
    reveal_strlit("terminated");
    reveal_strlit("killed");
    reveal_strlit("reader_failed");
    reveal_strlit("writer_failed");
    reveal_strlit("write_timeout");
    reveal_strlit("wait_failed");
    reveal_strlit("owner_disconnected");
    reveal_strlit("owner_ended");
    reveal_strlit("shutdown");
}

/// What tells the names of reasons apart.
pub(crate) proof fn lemma_reason_names()
    ensures
        FinishReason::NaturalExit.spec_name() == "natural_exit"@ && "natural_exit"@.len() == 12,
        FinishReason::ExplicitClose.spec_name() == "explicit_close"@ && "explicit_close"@.len()
            == 14,
        FinishReason::Terminated.spec_name() == "terminated"@ && "terminated"@.len() == 10,
        FinishReason::Killed.spec_name() == "killed"@ && "killed"@.len() == 6,
        FinishReason::ReaderFailed.spec_name() == "reader_failed"@ && "reader_failed"@.len() == 13,
        FinishReason::WriterFailed.spec_name() == "writer_failed"@ && "writer_failed"@.len() == 13,
        FinishReason::WriteTimeout.spec_name() == "write_timeout"@ && "write_timeout"@.len() == 13,
        FinishReason::WaitFailed.spec_name() == "wait_failed"@ && "wait_failed"@.len() == 11,
        FinishReason::OwnerDisconnected.spec_name() == "owner_disconnected"@
            && "owner_disconnected"@.len() == 18 && "owner_disconnected"@[0] == 'o',
        FinishReason::OwnerEnded.spec_name() == "owner_ended"@ && "owner_ended"@.len() == 11,
        FinishReason::Shutdown.spec_name() == "shutdown"@ && "shutdown"@.len() == 8,
{
    lemma_reason_literals();
}

/// No two reasons for an end are reported under one name.
pub proof fn law_reasons_have_names_of_their_own(a: FinishReason, b: FinishReason)
    ensures
        a.spec_name() == b.spec_name() ==> a == b,
{
    lemma_reason_literals();
}

/// No two states of a session are reported under one name.
pub proof fn law_states_have_names_of_their_own(a: SessionState, b: SessionState)
    ensures
        a.spec_name() == b.spec_name() ==> a == b,
{
    reveal_strlit("starting");
    reveal_strlit("running");
    reveal_strlit("finished");
    assert("starting"@[0] == 's' && "running"@[0] == 'r' && "finished"@[0] == 'f');
}

/// A point that is later by a span is not before the point, and the span lies between them unless
/// the clock ends first.
pub proof fn law_later_points_lie_a_span_ahead(at: Nanos, span: Nanos)
    ensures
        at <= later(at, span) <= at + span,
        at + span <= Nanos::MAX ==> later(at, span) == at + span && elapsed(at, later(at, span))
            == span,
        elapsed(at, at) == 0,
        elapsed(later(at, span), at) == 0,
{
}

/// A failure is described by its message, the confirmed count and whether more may have arrived, in
/// this order. Times of day are whole milliseconds.
pub proof fn law_how_failures_are_described(
    failure: &WriteFailure,
    text: String,
    nanos: u64,
    ms: u64,
    before: u64,
)
    requires
        call_ensures(WriteFailure::describe, (failure,), text),
        call_ensures(now_ms, (Some(nanos),), ms),
        call_ensures(now_ms, (None::<u64>,), before),
    ensures
        text@ == failure.message@ + "; confirmed bytes written="@ + decimal(
            failure.bytes_written as nat,
        ) + ", delivery uncertain="@ + (if failure.delivery_uncertain {
            "true"@
        } else {
            "false"@
        }),
        ms * 1_000_000 <= nanos < (ms + 1) * 1_000_000,
        before == 0,
{
}

/// The names under which states and reasons are reported.
pub proof fn law_names_of_states_and_reasons()
    ensures
        SessionState::Starting.spec_name() == "starting"@,
        SessionState::Running.spec_name() == "running"@,
        SessionState::Finished.spec_name() == "finished"@,
        FinishReason::NaturalExit.spec_name() == "natural_exit"@,
        FinishReason::ExplicitClose.spec_name() == "explicit_close"@,
        FinishReason::Terminated.spec_name() == "terminated"@,
        FinishReason::Killed.spec_name() == "killed"@,
        FinishReason::ReaderFailed.spec_name() == "reader_failed"@,
        FinishReason::WriterFailed.spec_name() == "writer_failed"@,
        FinishReason::WriteTimeout.spec_name() == "write_timeout"@,
        FinishReason::WaitFailed.spec_name() == "wait_failed"@,
        FinishReason::OwnerDisconnected.spec_name() == "owner_disconnected"@,
        FinishReason::OwnerEnded.spec_name() == "owner_ended"@,
        FinishReason::Shutdown.spec_name() == "shutdown"@,
{
}

/// A program is started with its arguments where it is told to, in a terminal of 24 rows by 80 columns
/// and an environment that adds nothing, unless more is said.
pub proof fn law_usual_starts<S: Into<String>>(
    program: S,
    args: Vec<String>,
    cwd: std::path::PathBuf,
    spec: StartSpec,
)
    requires
        call_ensures(StartSpec::new::<S>, (program, args, cwd), spec),
    ensures
        spec.rows == 24 && spec.cols == 80,
        spec.args == args && spec.cwd == cwd,
        spec.env@.dom().len() == 0,
{
}

} // verus!
