//! How input reaches a session: accepted, queued, written piece by piece and confirmed.
use crate::platform::{kill_of, Kill, ProcessError};
use crate::session::Session;
use crate::types::{
    epoch_ms, later, now_ms, Activity, FinishReason, Nanos, SessionState, Snapshot, WriteFailure,
    WriteReceipt, WRITE_TIMEOUT,
};
use vstd::prelude::*;

verus! {

/// The most bytes that are handed to the terminal at once.
pub const WRITE_PIECE: usize = 4096;

/// One input on its way to the terminal.
#[derive(Debug)]
pub struct Input {
    pub bytes: Vec<u8>,
    /// Whether a user sent it; the terminal's own answers are inputs too.
    pub user: bool,
    pub deadline: Nanos,
}

/// How a request to write begins.
#[derive(Debug)]
pub enum WriteStart {
    /// It is answered already.
    Answered(Result<WriteReceipt, WriteFailure>),
    /// It is to be queued, and `queued` to be called with the outcome.
    Queue(Input),
}

/// What waiting for the answer to a queued input came to.
#[derive(Debug)]
pub enum WriteOutcome {
    Answered(Result<WriteReceipt, WriteFailure>),
    /// The writer ended without an answer.
    WriterStopped,
    /// The session finished first. A finished session never acknowledges input, even while the
    /// write to the system stays blocked.
    Finished,
    TimedOut,
}

/// Writes input to a session.
pub struct PtyWriter;

/// Whether this is a failure with the given message, of an input of which no byte was written.
pub open spec fn refused(failure: WriteFailure, message: Seq<char>) -> bool {
    failure.bytes_written == 0 && !failure.delivery_uncertain && failure.message@ == message
}

/// Whether this is a failure with the given message, of an input of which at least so many bytes
/// were written.
pub open spec fn uncertain(failure: WriteFailure, progress: usize, message: Seq<char>) -> bool {
    failure.bytes_written == progress && failure.delivery_uncertain && failure.message@ == message
}

impl PtyWriter {
    /// Begins to write with the usual timeout.
    pub fn write(session: &mut Session, bytes: Vec<u8>, now: Nanos) -> (start: WriteStart)
        requires
            old(session).wf(),
            old(session).snapshot.activity.pending_inputs < usize::MAX,
        ensures
            final(session).wf(),
            begun(*old(session), *final(session), bytes, WRITE_TIMEOUT, now, start),
            start matches WriteStart::Queue(input) ==> input.deadline == later(now, 5_000_000_000),
    {
        Self::write_with_timeout(session, bytes, WRITE_TIMEOUT, now)
    }

    /// Begins to write. An empty input is confirmed at once and changes nothing; any other is
    /// queued where the session runs and is not ending.
    pub fn write_with_timeout(
        session: &mut Session,
        bytes: Vec<u8>,
        timeout: Nanos,
        now: Nanos,
    ) -> (start: WriteStart)
        requires
            old(session).wf(),
            old(session).snapshot.activity.pending_inputs < usize::MAX,
        ensures
            final(session).wf(),
            begun(*old(session), *final(session), bytes, timeout, now, start),
    {
        if bytes.len() == 0 {
            return WriteStart::Answered(
                Ok(
                    WriteReceipt {
                        bytes_written: 0,
                        interaction_id: session.snapshot.activity.interaction_id,
                    },
                ),
            );
        }
        if session.snapshot.ending || session.snapshot.state != SessionState::Running {
            return WriteStart::Answered(
                Err(
                    WriteFailure {
                        bytes_written: 0,
                        delivery_uncertain: false,
                        message: "session is not writable".to_string(),
                    },
                ),
            );
        }
        session.snapshot.activity.pending_inputs = session.snapshot.activity.pending_inputs + 1;
        WriteStart::Queue(Input { bytes, user: true, deadline: now.saturating_add(timeout) })
    }

    /// Notes whether the input was queued. One that was not is no longer pending.
    pub fn queued(session: &mut Session, sent: bool) -> (failure: Option<WriteFailure>)
        requires
            old(session).wf(),
            old(session).snapshot.activity.pending_inputs > 0,
        ensures
            final(session).wf(),
            sent ==> failure is None && *final(session) == *old(session),
            !sent ==> failure is Some && refused(failure->0, "writer queue is full or closed"@)
                && *final(session) == with_pending(
                *old(session),
                (old(session).snapshot.activity.pending_inputs - 1) as usize,
            ),
    {
        if sent {
            return None;
        }
        session.snapshot.activity.pending_inputs = session.snapshot.activity.pending_inputs - 1;
        Some(
            WriteFailure {
                bytes_written: 0,
                delivery_uncertain: false,
                message: "writer queue is full or closed".to_string(),
            },
        )
    }

    /// What the request to write is answered, given what waiting for it came to and how many
    /// bytes were confirmed by then. An input that took too long stops the session by the signal
    /// that is returned.
    pub fn conclude(session: &mut Session, outcome: WriteOutcome, progress: usize) -> (r: (
        Result<WriteReceipt, WriteFailure>,
        Option<Result<Kill, ProcessError>>,
    ))
        requires
            old(session).wf(),
        ensures
            final(session).wf(),
            outcome !is TimedOut ==> r.1 is None && *final(session) == *old(session),
            outcome is TimedOut ==> {
                &&& old(session).beyond_stopping() ==> r.1 is None && *final(session) == *old(
                    session,
                )
                &&& !old(session).beyond_stopping() ==> r.1 == Some(
                    kill_of(old(session).process@, true),
                ) && exists|message: String|
                    message@ == "input write deadline exceeded"@ && *final(session)
                        == #[trigger] old(session).stopped(
                        FinishReason::WriteTimeout,
                        Some(message),
                    )
            },
            match outcome {
                WriteOutcome::Answered(answer) => r.0 == answer,
                WriteOutcome::WriterStopped => r.0 is Err && uncertain(
                    r.0->Err_0,
                    progress,
                    "writer stopped before acknowledging input"@,
                ),
                WriteOutcome::Finished => r.0 is Err && uncertain(
                    r.0->Err_0,
                    progress,
                    "session finished before acknowledging input"@,
                ),
                WriteOutcome::TimedOut => r.0 is Err && uncertain(
                    r.0->Err_0,
                    progress,
                    "input write deadline exceeded; do not retry automatically"@,
                ),
            },
    {
        match outcome {
            WriteOutcome::Answered(answer) => (answer, None),
            WriteOutcome::WriterStopped => (
                Err(
                    WriteFailure {
                        bytes_written: progress,
                        delivery_uncertain: true,
                        message: "writer stopped before acknowledging input".to_string(),
                    },
                ),
                None,
            ),
            WriteOutcome::Finished => (
                Err(
                    WriteFailure {
                        bytes_written: progress,
                        delivery_uncertain: true,
                        message: "session finished before acknowledging input".to_string(),
                    },
                ),
                None,
            ),
            WriteOutcome::TimedOut => {
                let message = "input write deadline exceeded".to_string();
                let signal = session.stop(FinishReason::WriteTimeout, true, Some(message));
                (
                    Err(
                        WriteFailure {
                            bytes_written: progress,
                            delivery_uncertain: true,
                            message: "input write deadline exceeded; do not retry automatically".to_string(),
                        },
                    ),
                    signal,
                )
            },
        }
    }
}

/// The session with another number of inputs under way.
pub open spec fn with_pending(session: Session, pending_inputs: usize) -> Session {
    Session {
        snapshot: Snapshot {
            activity: Activity { pending_inputs, ..session.snapshot.activity },
            ..session.snapshot
        },
        ..session
    }
}

/// How a request to write begins, and what becomes of the session.
pub open spec fn begun(
    before: Session,
    after: Session,
    bytes: Vec<u8>,
    timeout: Nanos,
    now: Nanos,
    start: WriteStart,
) -> bool {
    if bytes@.len() == 0 {
        after == before && start == WriteStart::Answered(
            Ok(
                WriteReceipt {
                    bytes_written: 0,
                    interaction_id: before.snapshot.activity.interaction_id,
                },
            ),
        )
    } else if before.snapshot.ending || before.snapshot.state != SessionState::Running {
        &&& after == before
        &&& start is Answered
        &&& start->Answered_0 is Err
        &&& refused(start->Answered_0->Err_0, "session is not writable"@)
    } else {
        &&& after == with_pending(before, (before.snapshot.activity.pending_inputs + 1) as usize)
        &&& start == WriteStart::Queue(Input { bytes, user: true, deadline: later(now, timeout) })
    }
}

/// Why an input could not be written.
#[derive(Debug)]
pub struct WriterFault {
    pub timed_out: bool,
    pub message: String,
}

/// What the writer does next about an input.
#[derive(Debug)]
pub enum WriterAction {
    /// Write the bytes from `start` to `end`.
    Write { start: usize, end: usize },
    /// Everything is written: flush.
    Flush,
    GiveUp(WriterFault),
}

/// What writing a piece returned.
#[derive(Debug)]
pub enum PieceWritten {
    /// So many bytes were taken.
    Wrote(usize),
    /// Nothing happened; the write is to be repeated.
    Interrupted,
    Failed(WriterFault),
}

/// An input that is being written.
#[derive(Debug)]
pub struct Writing {
    pub input: Input,
    /// How many bytes the terminal has taken.
    pub written: usize,
    /// The output of the session when this began.
    pub output_seq: u64,
    pub cursor: u64,
}

impl Writing {
    pub open spec fn wf(&self) -> bool {
        self.written <= self.input.bytes@.len()
    }

    /// Begins to write an input; `None` where the session is ending, which ends the writer.
    pub fn begin(session: &mut Session, input: Input) -> (writing: Option<Writing>)
        requires
            old(session).wf(),
        ensures
            final(session).wf(),
            old(session).snapshot.ending ==> writing is None && *final(session) == *old(session),
            !old(session).snapshot.ending ==> {
                &&& writing == Some(
                    Writing {
                        input,
                        written: 0,
                        output_seq: old(session).snapshot.activity.output_seq,
                        cursor: old(session).output.end() as u64,
                    },
                )
                &&& *final(session) == (Session {
                    active_write: Some(input.deadline),
                    ..*old(session)
                })
            },
    {
        if session.snapshot.ending {
            return None;
        }
        session.active_write = Some(input.deadline);
        let (_, cursor) = session.output.range();
        Some(
            Writing {
                input,
                written: 0,
                output_seq: session.snapshot.activity.output_seq,
                cursor,
            },
        )
    }

    /// What to do next: write the next piece, unless the deadline passed or the session is ending.
    pub fn next(&self, ending: bool, now: Nanos) -> (action: WriterAction)
        requires
            self.wf(),
        ensures
            match action {
                WriterAction::Flush => self.written == self.input.bytes@.len(),
                WriterAction::GiveUp(fault) => {
                    &&& self.written < self.input.bytes@.len()
                    &&& now >= self.input.deadline || ending
                    &&& fault.timed_out == (now >= self.input.deadline)
                    &&& fault.message@ == if fault.timed_out {
                        "write deadline exceeded"@
                    } else {
                        "session is ending"@
                    }
                },
                WriterAction::Write { start, end } => {
                    &&& self.written < self.input.bytes@.len()
                    &&& now < self.input.deadline && !ending
                    &&& start == self.written
                    &&& end == if self.written + WRITE_PIECE <= self.input.bytes@.len() {
                        self.written + WRITE_PIECE
                    } else {
                        self.input.bytes@.len() as int
                    }
                },
            },
    {
        let len: usize = self.input.bytes.len();
        if self.written >= len {
            return WriterAction::Flush;
        }
        if now >= self.input.deadline {
            return WriterAction::GiveUp(
                WriterFault { timed_out: true, message: "write deadline exceeded".to_string() },
            );
        }
        if ending {
            return WriterAction::GiveUp(
                WriterFault { timed_out: false, message: "session is ending".to_string() },
            );
        }
        let end: usize = if len - self.written > WRITE_PIECE {
            self.written + WRITE_PIECE
        } else {
            len
        };
        WriterAction::Write { start: self.written, end }
    }

    /// Takes in what writing a piece returned. A terminal that takes nothing has failed.
    pub fn on_piece(&mut self, piece: PieceWritten) -> (fault: Option<WriterFault>)
        requires
            old(self).wf(),
            piece matches PieceWritten::Wrote(count) ==> count <= old(self).input.bytes@.len()
                - old(self).written,
        ensures
            final(self).wf(),
            match piece {
                PieceWritten::Interrupted => fault is None && *final(self) == *old(self),
                PieceWritten::Failed(failed) => fault == Some(failed) && *final(self) == *old(self),
                PieceWritten::Wrote(count) => {
                    &&& *final(self) == (Writing {
                        written: (old(self).written + count) as usize,
                        ..*old(self)
                    })
                    &&& fault is Some == (count == 0)
                    &&& fault is Some ==> !fault->0.timed_out && fault->0.message@ == "write zero"@
                },
            },
    {
        match piece {
            PieceWritten::Interrupted => None,
            PieceWritten::Failed(failed) => Some(failed),
            PieceWritten::Wrote(count) => {
                assert(self.written + count <= self.input.bytes.len());
                self.written = self.written + count;
                if count == 0 {
                    Some(WriterFault { timed_out: false, message: "write zero".to_string() })
                } else {
                    None
                }
            },
        }
    }

    /// The activity after an input was dealt with. Only a user's input that was written as a whole
    /// begins a new interaction, which starts at the output there was when the writing began.
    pub open spec fn activity_after(&self, before: Activity, complete: bool, now: Nanos) -> Activity {
        let fewer = if self.input.user {
            (before.pending_inputs - 1) as usize
        } else {
            before.pending_inputs
        };
        if complete && self.input.user {
            Activity {
                interaction_id: (before.interaction_id + 1) as u64,
                interaction_at: now,
                interaction_output_seq: self.output_seq,
                interaction_cursor: self.cursor,
                pending_inputs: fewer,
                ..before
            }
        } else {
            Activity { pending_inputs: fewer, ..before }
        }
    }

    /// The session after an input was dealt with, but for a stop that its failure asks for.
    pub open spec fn settled(
        &self,
        before: Session,
        complete: bool,
        now: Nanos,
        since_epoch: Option<u64>,
    ) -> Session {
        Session {
            snapshot: Snapshot {
                activity: self.activity_after(before.snapshot.activity, complete, now),
                last_input_at_ms: if complete && self.input.user {
                    Some(epoch_ms(since_epoch))
                } else {
                    before.snapshot.last_input_at_ms
                },
                ..before.snapshot
            },
            active_write: None,
            ..before
        }
    }

    /// Ends the writing of an input, with a fault where it failed. Without one all of it was written,
    /// and all of it is confirmed. A failure stops the session, by the signal that is returned, and
    /// ends the writer.
    pub fn settle(
        self,
        session: &mut Session,
        fault: Option<WriterFault>,
        now: Nanos,
        since_epoch: Option<u64>,
    ) -> (r: (Result<WriteReceipt, WriteFailure>, Option<Result<Kill, ProcessError>>))
        requires
            old(session).wf(),
            fault is None ==> self.written == self.input.bytes@.len(),
            self.input.user ==> old(session).snapshot.activity.pending_inputs > 0,
            self.input.user && fault is None ==> old(session).snapshot.activity.interaction_id
                < u64::MAX,
        ensures
            final(session).wf(),
            ({
                let settled = self.settled(*old(session), fault is None, now, since_epoch);
                match fault {
                    None => {
                        &&& *final(session) == settled
                        &&& r.1 is None
                        &&& r.0 == Ok::<WriteReceipt, WriteFailure>(
                            WriteReceipt {
                                bytes_written: self.input.bytes@.len() as usize,
                                interaction_id: settled.snapshot.activity.interaction_id,
                            },
                        )
                    },
                    Some(fault) => {
                        &&& r.0 is Err
                        &&& r.0->Err_0 == (WriteFailure {
                            bytes_written: self.written,
                            delivery_uncertain: false,
                            message: r.0->Err_0.message,
                        })
                        &&& r.0->Err_0.message@ == fault.message@
                        &&& settled.beyond_stopping() ==> r.1 is None && *final(session) == settled
                        &&& !settled.beyond_stopping() ==> r.1 == Some(
                            kill_of(settled.process@, true),
                        ) && *final(session) == settled.stopped(
                            if fault.timed_out {
                                FinishReason::WriteTimeout
                            } else {
                                FinishReason::WriterFailed
                            },
                            Some(fault.message),
                        )
                    },
                }
            }),
    {
        session.active_write = None;
        if self.input.user {
            session.snapshot.activity.pending_inputs = session.snapshot.activity.pending_inputs - 1;
        }
        match fault {
            None => {
                if self.input.user {
                    session.snapshot.activity.interaction_id =
                    session.snapshot.activity.interaction_id + 1;
                    session.snapshot.activity.interaction_at = now;
                    session.snapshot.activity.interaction_output_seq = self.output_seq;
                    session.snapshot.activity.interaction_cursor = self.cursor;
                    session.snapshot.last_input_at_ms = Some(now_ms(since_epoch));
                }
                (
                    Ok(
                        WriteReceipt {
                            bytes_written: self.written,
                            interaction_id: session.snapshot.activity.interaction_id,
                        },
                    ),
                    None,
                )
            },
            Some(fault) => {
                let reason = if fault.timed_out {
                    FinishReason::WriteTimeout
                } else {
                    FinishReason::WriterFailed
                };
                let message = fault.message.clone();
                let signal = session.stop(reason, true, Some(fault.message));
                (
                    Err(
                        WriteFailure {
                            bytes_written: self.written,
                            delivery_uncertain: false,
                            message,
                        },
                    ),
                    signal,
                )
            },
        }
    }
}

/// A user's input that was written as a whole begins exactly one new interaction, at the output
/// there was when the writing began, and is no longer pending.
pub proof fn law_confirmed_input_begins_an_interaction(
    before: Session,
    writing: Writing,
    now: Nanos,
    since_epoch: Option<u64>,
)
    requires
        before.wf(),
        writing.input.user,
        before.snapshot.activity.pending_inputs > 0,
        before.snapshot.activity.interaction_id < u64::MAX,
    ensures
        ({
            let after = writing.settled(before, true, now, since_epoch);
            &&& after.wf()
            &&& after.snapshot.activity.interaction_id == before.snapshot.activity.interaction_id
                + 1
            &&& after.snapshot.activity.pending_inputs == before.snapshot.activity.pending_inputs
                - 1
            &&& after.snapshot.activity.interaction_cursor == writing.cursor
            &&& after.snapshot.activity.output_seq == before.snapshot.activity.output_seq
        }),
{
}

/// An input that could not be written as a whole ends the session.
pub proof fn law_failed_input_ends_the_session(
    before: Session,
    writing: Writing,
    now: Nanos,
    since_epoch: Option<u64>,
    reason: FinishReason,
    message: Option<String>,
)
    requires
        before.wf(),
        writing.input.user ==> before.snapshot.activity.pending_inputs > 0,
    ensures
        ({
            let settled = writing.settled(before, false, now, since_epoch);
            let after = if settled.beyond_stopping() {
                settled
            } else {
                settled.stopped(reason, message)
            };
            after.snapshot.ending
        }),
{
}

/// The terminal's own answers, and inputs that failed, begin no interaction.
pub proof fn law_only_user_input_begins_an_interaction(
    before: Session,
    writing: Writing,
    complete: bool,
    now: Nanos,
    since_epoch: Option<u64>,
)
    requires
        before.wf(),
        !writing.input.user || !complete,
        writing.input.user ==> before.snapshot.activity.pending_inputs > 0,
    ensures
        ({
            let after = writing.settled(before, complete, now, since_epoch).snapshot.activity;
            after == (Activity {
                pending_inputs: after.pending_inputs,
                ..before.snapshot.activity
            })
        }),
{
}

/// A request to write that is refused, or that is empty, leaves the session as it was; so does one
/// that is queued and then turned away.
pub proof fn law_unsent_input_leaves_no_trace(
    before: Session,
    after: Session,
    bytes: Vec<u8>,
    timeout: Nanos,
    now: Nanos,
    start: WriteStart,
)
    requires
        before.wf(),
        before.snapshot.activity.pending_inputs < usize::MAX,
        begun(before, after, bytes, timeout, now, start),
    ensures
        start is Answered ==> after == before,
        start is Queue ==> after.snapshot.activity.pending_inputs > 0 && with_pending(
            after,
            (after.snapshot.activity.pending_inputs - 1) as usize,
        ) == before,
{
}

/// An input is queued where there is something to write and the session runs and is not ending: as it
/// is, as a user's, to be written within the time given, and counted as pending. An empty one is
/// confirmed at once, whatever the session does, and any other is refused with nothing written.
pub proof fn law_inputs_are_queued_while_the_session_runs(
    before: Session,
    after: Session,
    bytes: Vec<u8>,
    timeout: Nanos,
    now: Nanos,
    start: WriteStart,
)
    requires
        before.wf(),
        before.snapshot.activity.pending_inputs < usize::MAX,
        begun(before, after, bytes, timeout, now, start),
    ensures
        ({
            let writable = before.snapshot.state is Running && !before.snapshot.ending;
            &&& bytes@.len() > 0 && writable ==> (start matches WriteStart::Queue(input) && {
                &&& input.bytes@ == bytes@
                &&& input.user
                &&& now + timeout <= Nanos::MAX ==> input.deadline == now + timeout
                &&& after.snapshot.activity.pending_inputs
                    == before.snapshot.activity.pending_inputs + 1
            })
            &&& bytes@.len() == 0 ==> (start matches WriteStart::Answered(Ok(receipt))
                && receipt.bytes_written == 0 && receipt.interaction_id
                == before.snapshot.activity.interaction_id && after == before)
            &&& bytes@.len() > 0 && !writable ==> (start matches WriteStart::Answered(Err(failure))
                && failure.bytes_written == 0 && !failure.delivery_uncertain
                && failure.message@ == "session is not writable"@ && after == before)
        }),
{
}

/// A failure before anything was written says so; one whose outcome is not known says how much was
/// confirmed and that more may have arrived.
pub proof fn law_failures_say_what_is_known(
    failure: WriteFailure,
    progress: usize,
    message: Seq<char>,
)
    ensures
        refused(failure, message) ==> failure.bytes_written == 0 && !failure.delivery_uncertain
            && failure.message@ == message,
        uncertain(failure, progress, message) ==> failure.bytes_written == progress
            && failure.delivery_uncertain && failure.message@ == message,
{
}

/// Once an input is dealt with, none is being written. A user's input that was written as a whole
/// dates the interaction and the last input from now, and the interaction counts the output from when
/// the writing began. Nothing else changes.
pub proof fn law_settling_an_input(
    before: Session,
    writing: Writing,
    complete: bool,
    now: Nanos,
    since_epoch: Option<u64>,
)
    requires
        before.wf(),
        writing.input.user ==> before.snapshot.activity.pending_inputs > 0,
        before.snapshot.activity.interaction_id < u64::MAX,
    ensures
        ({
            let after = writing.settled(before, complete, now, since_epoch);
            let (old_activity, activity) = (before.snapshot.activity, after.snapshot.activity);
            let begins = complete && writing.input.user;
            &&& after.active_write is None
            &&& begins ==> {
                &&& activity.interaction_at == now
                &&& activity.interaction_output_seq == writing.output_seq
                &&& activity.interaction_cursor == writing.cursor
                &&& activity.interaction_id == old_activity.interaction_id + 1
                &&& since_epoch matches Some(nanos) ==> after.snapshot.last_input_at_ms == Some(
                    (nanos / 1_000_000) as u64,
                )
            }
            &&& !begins ==> {
                &&& activity.interaction_at == old_activity.interaction_at
                &&& activity.interaction_id == old_activity.interaction_id
                &&& after.snapshot.last_input_at_ms == before.snapshot.last_input_at_ms
            }
            &&& activity.output_seq == old_activity.output_seq
            &&& activity.last_output_at == old_activity.last_output_at
            &&& activity.pending_inputs == (if writing.input.user {
                old_activity.pending_inputs - 1
            } else {
                old_activity.pending_inputs as int
            })
            &&& after.snapshot.state == before.snapshot.state
            &&& after.snapshot.ending == before.snapshot.ending
            &&& after.snapshot.termination == before.snapshot.termination
            &&& after.snapshot.last_output_at_ms == before.snapshot.last_output_at_ms
            &&& after.snapshot.rows == before.snapshot.rows && after.snapshot.cols
                == before.snapshot.cols
            &&& after.output == before.output && after.screen == before.screen
            &&& after.requested == before.requested && after.process == before.process
            &&& after.open == before.open
        }),
{
}

/// An input is written from where it stands, in pieces of at most 4096 bytes, none of which is empty
/// or goes beyond the input, while there is time and the session is not ending. One that is written as
/// a whole is flushed even then.
pub proof fn law_how_inputs_are_written(
    writing: &Writing,
    ending: bool,
    now: Nanos,
    action: WriterAction,
)
    requires
        writing.wf(),
        call_ensures(Writing::next, (writing, ending, now), action),
    ensures
        ({
            let len = writing.input.bytes@.len();
            let late = now >= writing.input.deadline;
            &&& action is Flush <==> writing.written == len
            &&& action is GiveUp <==> writing.written < len && (late || ending)
            &&& action matches WriterAction::GiveUp(fault) ==> (fault.timed_out <==> late)
            &&& action matches WriterAction::Write { start, end } ==> {
                &&& start == writing.written
                &&& start < end <= len
                &&& end - start <= 4096
                &&& end == len || end - start == 4096
            }
        }),
{
}

/// An input that was queued stays pending. One that was not is no longer, and the request fails with
/// nothing written and nothing uncertain.
pub proof fn law_inputs_that_are_not_queued_fail()
    ensures
        forall|session: &mut Session, failure: Option<WriteFailure>|
            #[trigger] call_ensures(PtyWriter::queued, (session, true), failure) ==> failure is None
                && *final(session) == *session,
        forall|session: &mut Session, failure: Option<WriteFailure>|
            #[trigger] call_ensures(PtyWriter::queued, (session, false), failure)
                && session.snapshot.activity.pending_inputs > 0 ==> {
                &&& failure is Some
                &&& failure->0.bytes_written == 0 && !failure->0.delivery_uncertain
                &&& failure->0.message@ == "writer queue is full or closed"@
                &&& final(session).snapshot.activity.pending_inputs
                    == session.snapshot.activity.pending_inputs - 1
                &&& final(session).snapshot.activity.interaction_id
                    == session.snapshot.activity.interaction_id
                &&& final(session).snapshot.ending == session.snapshot.ending
            },
{
}

/// A request is answered as its writer answered it. Without an answer it fails with what was confirmed
/// by then, and more may have arrived; only one that took too long stops its session.
pub proof fn law_how_requests_to_write_end()
    ensures
        forall|
            session: &mut Session,
            answer: Result<WriteReceipt, WriteFailure>,
            progress: usize,
            r: (Result<WriteReceipt, WriteFailure>, Option<Result<Kill, ProcessError>>),
        |
            #[trigger] call_ensures(
                PtyWriter::conclude,
                (session, WriteOutcome::Answered(answer), progress),
                r,
            ) ==> r.0 == answer && r.1 is None && *final(session) == *session,
        forall|
            session: &mut Session,
            outcome: WriteOutcome,
            progress: usize,
            r: (Result<WriteReceipt, WriteFailure>, Option<Result<Kill, ProcessError>>),
        |
            #[trigger] call_ensures(PtyWriter::conclude, (session, outcome, progress), r)
                && outcome !is Answered ==> {
                &&& r.0 is Err
                &&& r.0->Err_0.bytes_written == progress
                &&& r.0->Err_0.delivery_uncertain
                &&& outcome !is TimedOut ==> r.1 is None && *final(session) == *session
                &&& outcome is TimedOut && session.wf() && !session.snapshot.ending ==> {
                    &&& r.1 == Some(kill_of(session.process@, true))
                    &&& final(session).snapshot.ending
                    &&& final(session).requested is Some
                    &&& final(session).requested->0.reason is WriteTimeout
                }
            },
{
}

/// An input begins to be written with nothing written, at the output there is, and its deadline is
/// watched from then on. Nothing is begun once the session is ending.
pub proof fn law_how_writing_begins()
    ensures
        forall|session: &mut Session, input: Input, writing: Option<Writing>|
            #[trigger] call_ensures(Writing::begin, (session, input), writing) ==> {
                &&& writing is Some <==> !session.snapshot.ending
                &&& writing is None ==> *final(session) == *session
                &&& writing matches Some(begun) ==> {
                    &&& begun.input == input
                    &&& begun.written == 0
                    &&& begun.output_seq == session.snapshot.activity.output_seq
                    &&& session.wf() ==> begun.cursor == session.output.end()
                    &&& final(session).active_write == Some(input.deadline)
                    &&& final(session).snapshot == session.snapshot
                }
            },
{
}

/// What the terminal took is counted; taking nothing is a failure, and being interrupted is not.
pub proof fn law_what_was_taken_is_counted()
    ensures
        forall|writing: &mut Writing, piece: PieceWritten, fault: Option<WriterFault>|
            #[trigger] call_ensures(Writing::on_piece, (writing, piece), fault) ==> {
                &&& piece is Interrupted ==> fault is None && final(writing).written
                    == writing.written
                &&& piece matches PieceWritten::Failed(failed) ==> fault == Some(failed) && final(writing).written == writing.written
                &&& piece matches PieceWritten::Wrote(count) ==> (fault is Some <==> count == 0) && (
                writing.written + count <= usize::MAX ==> final(writing).written
                    == writing.written + count)
                &&& final(writing).input == writing.input
                &&& final(writing).cursor == writing.cursor && final(writing).output_seq
                    == writing.output_seq
            },
{
}

/// An input that was written as a whole is confirmed with all its bytes and the interaction that is
/// current from then on. One that failed is reported with what was written, its message and no
/// uncertainty, and ends a session that was not ending: as a timeout where it took too long, as a
/// failure of the writer otherwise.
pub proof fn law_how_inputs_are_settled()
    ensures
        forall|
            writing: Writing,
            session: &mut Session,
            now: Nanos,
            since_epoch: Option<u64>,
            r: (Result<WriteReceipt, WriteFailure>, Option<Result<Kill, ProcessError>>),
        |
            #[trigger] call_ensures(
                Writing::settle,
                (writing, session, None::<WriterFault>, now, since_epoch),
                r,
            ) ==> {
                &&& r.0 is Ok
                &&& r.0->Ok_0.bytes_written == writing.input.bytes@.len() as usize
                &&& r.0->Ok_0.interaction_id
                    == final(session).snapshot.activity.interaction_id
                &&& r.1 is None
                &&& final(session).active_write is None
                &&& final(session).snapshot.ending == session.snapshot.ending
            },
        forall|
            writing: Writing,
            session: &mut Session,
            fault: WriterFault,
            now: Nanos,
            since_epoch: Option<u64>,
            r: (Result<WriteReceipt, WriteFailure>, Option<Result<Kill, ProcessError>>),
        |
            #[trigger] call_ensures(
                Writing::settle,
                (writing, session, Some(fault), now, since_epoch),
                r,
            ) && session.wf() && !session.snapshot.ending ==> {
                &&& r.0 is Err
                &&& r.0->Err_0.bytes_written == writing.written
                &&& !r.0->Err_0.delivery_uncertain
                &&& r.0->Err_0.message@ == fault.message@
                &&& r.1 == Some(kill_of(session.process@, true))
                &&& final(session).snapshot.ending
                &&& final(session).requested is Some
                &&& fault.timed_out ==> final(session).requested->0.reason is WriteTimeout
                &&& !fault.timed_out ==> final(session).requested->0.reason is WriterFailed
                &&& final(session).requested->0.message == Some(fault.message)
                &&& final(session).active_write is None
                &&& final(session).snapshot.activity.interaction_id
                    == session.snapshot.activity.interaction_id
            },
{
}

/// An input is to be written within five seconds unless another time is given.
pub proof fn law_inputs_have_five_seconds()
    ensures
        forall|session: &mut Session, bytes: Vec<u8>, now: Nanos, start: WriteStart|
            #[trigger] call_ensures(PtyWriter::write, (session, bytes, now), start) ==> begun(
                *session,
                *final(session),
                bytes,
                5_000_000_000,
                now,
                start,
            ),
        forall|
            session: &mut Session,
            bytes: Vec<u8>,
            timeout: Nanos,
            now: Nanos,
            start: WriteStart,
        |
            #[trigger] call_ensures(
                PtyWriter::write_with_timeout,
                (session, bytes, timeout, now),
                start,
            ) ==> begun(*session, *final(session), bytes, timeout, now, start),
{
}

} // verus!
