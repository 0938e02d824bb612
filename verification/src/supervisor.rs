//! Watches over the child of a session and its workers, and decides how the session ended.
use crate::platform::{kill_of, Kill, ProcessError};
use crate::session::Session;
use crate::types::{elapsed, FinishReason, Nanos, SessionState, Snapshot, Termination, DRAIN_TIMEOUT};
use vstd::prelude::*;

verus! {

/// How long a closed output channel is tolerated while the child lives.
pub const READER_GRACE: Nanos = 100_000_000;

/// What a worker reports when it ends.
#[derive(Debug)]
pub enum WorkerEvent {
    /// The reader ended, with a message where it failed.
    ReaderEnded(Option<String>),
    WriterEnded,
}

/// What asking for the state of the child returned.
#[derive(Debug)]
pub enum ChildPoll {
    Running,
    Exited(u32),
    /// The child's state could not be had.
    Failed(String),
}

/// What has to be done about a poll, in this order: tell whoever waits for changes where `changed`
/// says so, send the signal, wait for the child where `reap` says so.
#[derive(Debug)]
pub struct PollAction {
    pub changed: bool,
    pub signal: Option<Result<Kill, ProcessError>>,
    pub reap: bool,
}

/// What the supervisor knows of the child and of the workers.
pub struct Supervisor {
    pub child_exit: Option<u32>,
    pub exit_at: Option<Nanos>,
    pub reader_end: Option<(Nanos, Option<String>)>,
    pub writer_done: bool,
}

impl Supervisor {
    pub fn new() -> (supervisor: Self)
        ensures
            supervisor == (Supervisor {
                child_exit: None,
                exit_at: None,
                reader_end: None,
                writer_done: false,
            }),
    {
        Supervisor { child_exit: None, exit_at: None, reader_end: None, writer_done: false }
    }

    /// Notes that a worker ended.
    pub fn on_event(&mut self, event: WorkerEvent, now: Nanos)
        ensures
            *final(self) == (match event {
                WorkerEvent::ReaderEnded(error) => Supervisor {
                    reader_end: Some((now, error)),
                    ..*old(self)
                },
                WorkerEvent::WriterEnded => Supervisor { writer_done: true, ..*old(self) },
            }),
    {
        match event {
            WorkerEvent::ReaderEnded(error) => {
                self.reader_end = Some((now, error));
            },
            WorkerEvent::WriterEnded => {
                self.writer_done = true;
            },
        }
    }

    /// Whether the child still has to be asked for its state.
    pub fn polls(&self) -> (r: bool)
        ensures
            r == (self.exit_at is None),
    {
        self.exit_at.is_none()
    }

    /// Takes in the child's state. Where it exited, its descendants are killed so that they cannot
    /// keep the terminal of a finished session open; where its state cannot be had, it is killed
    /// and waited for, after which `on_reaped` is due.
    pub fn on_poll(&mut self, session: &mut Session, poll: ChildPoll, now: Nanos) -> (action:
        PollAction)
        requires
            old(self).exit_at is None,
            old(session).wf(),
        ensures
            final(session).wf(),
            match poll {
                ChildPoll::Running => {
                    &&& *final(self) == *old(self)
                    &&& *final(session) == *old(session)
                    &&& action == (PollAction { changed: false, signal: None, reap: false })
                },
                ChildPoll::Exited(code) => {
                    &&& *final(self) == (Supervisor {
                        child_exit: Some(code),
                        exit_at: Some(now),
                        ..*old(self)
                    })
                    &&& *final(session) == (Session {
                        snapshot: Snapshot { ending: true, ..old(session).snapshot },
                        open: false,
                        ..*old(session)
                    })
                    &&& action == (PollAction {
                        changed: true,
                        signal: Some(kill_of(old(session).process@, true)),
                        reap: false,
                    })
                },
                ChildPoll::Failed(message) => {
                    &&& *final(self) == *old(self)
                    &&& action.reap
                    &&& action.changed == action.signal is Some
                    &&& old(session).beyond_stopping() ==> action.signal is None
                        && *final(session) == *old(session)
                    &&& !old(session).beyond_stopping() ==> action.signal == Some(
                        kill_of(old(session).process@, true),
                    ) && *final(session) == old(session).stopped(
                        FinishReason::WaitFailed,
                        Some(message),
                    )
                },
            },
    {
        match poll {
            ChildPoll::Running => PollAction { changed: false, signal: None, reap: false },
            ChildPoll::Exited(code) => {
                self.child_exit = Some(code);
                self.exit_at = Some(now);
                session.snapshot.ending = true;
                let signal = session.process.signal(true);
                session.shutdown_io();
                PollAction { changed: true, signal: Some(signal), reap: false }
            },
            ChildPoll::Failed(message) => {
                let signal = session.stop(FinishReason::WaitFailed, true, Some(message));
                PollAction { changed: signal.is_some(), signal, reap: true }
            },
        }
    }

    /// Notes that a child whose state could not be had was waited for.
    pub fn on_reaped(&mut self, session: &mut Session, now: Nanos)
        requires
            old(session).wf(),
        ensures
            final(session).wf(),
            *final(self) == (Supervisor { exit_at: Some(now), ..*old(self) }),
            *final(session) == (Session { open: false, ..*old(session) }),
    {
        self.exit_at = Some(now);
        session.shutdown_io();
    }

    /// Stops a session whose input is not written by its deadline. Returns the signal to send.
    pub fn check_write(&self, session: &mut Session, now: Nanos) -> (signal: Option<
        Result<Kill, ProcessError>,
    >)
        requires
            old(session).wf(),
        ensures
            final(session).wf(),
            ({
                let due = old(session).active_write is Some && now >= old(session).active_write->0
                    && !old(session).beyond_stopping();
                &&& !due ==> signal is None && *final(session) == *old(session)
                &&& due ==> signal == Some(kill_of(old(session).process@, true)) && exists|
                    message: String,
                |
                    message@ == "writer deadline exceeded"@ && *final(session) == #[trigger] old(
                        session,
                    ).stopped(FinishReason::WriteTimeout, Some(message))
            }),
    {
        let expired = match session.active_write {
            Some(deadline) => now >= deadline,
            None => false,
        };
        if !expired {
            return None;
        }
        let message = "writer deadline exceeded".to_string();
        session.stop(FinishReason::WriteTimeout, true, Some(message))
    }

    /// The message of a reader that ended too early: its own, where it failed.
    pub open spec fn reader_message(error: Option<String>) -> Seq<char> {
        match error {
            Some(message) => message@,
            None => "output channel closed while child is alive"@,
        }
    }

    /// Whether the end of the reader ends the session: at once where it failed, after a while
    /// where its channel was closed, and not once the child has exited.
    pub open spec fn reader_ends_session(&self, now: Nanos) -> bool {
        self.exit_at is None && match self.reader_end {
            Some((ended, error)) => error is Some || elapsed(ended, now) >= READER_GRACE,
            None => false,
        }
    }

    /// Stops a session whose output cannot be read while its child lives. Returns the signal to
    /// send.
    pub fn check_reader(&self, session: &mut Session, now: Nanos) -> (signal: Option<
        Result<Kill, ProcessError>,
    >)
        requires
            old(session).wf(),
        ensures
            final(session).wf(),
            ({
                let due = self.reader_ends_session(now) && !old(session).beyond_stopping();
                let (_, error) = self.reader_end->0;
                &&& !due ==> signal is None && *final(session) == *old(session)
                &&& due ==> signal == Some(kill_of(old(session).process@, true)) && exists|
                    message: String,
                |
                    message@ == Self::reader_message(error) && *final(session) == #[trigger] old(
                        session,
                    ).stopped(FinishReason::ReaderFailed, Some(message))
            }),
    {
        if self.exit_at.is_some() {
            return None;
        }
        if let Some((ended, error)) = &self.reader_end {
            if error.is_some() || now.saturating_sub(*ended) >= READER_GRACE {
                let message = match error {
                    Some(message) => message.clone(),
                    None => "output channel closed while child is alive".to_string(),
                };
                return session.stop(FinishReason::ReaderFailed, true, Some(message));
            }
        }
        None
    }

    /// Whether the session is over: the child exited, and its workers ended or took too long.
    pub open spec fn over(&self, now: Nanos) -> bool {
        self.exit_at is Some && ((self.reader_end is Some && self.writer_done) || elapsed(
            self.exit_at->0,
            now,
        ) >= DRAIN_TIMEOUT)
    }

    /// What went wrong while the workers drained.
    pub open spec fn drain_error(&self) -> Option<Seq<char>> {
        if self.reader_end is None || !self.writer_done {
            Some("PTY workers exceeded drain deadline"@)
        } else {
            let (_, error) = self.reader_end->0;
            match error {
                Some(message) => Some(message@),
                None => None,
            }
        }
    }

    /// Whether the termination is the one to report: what was asked for first, else a natural exit
    /// unless the output could not be drained; always with the exit code of the child.
    pub open spec fn explains(&self, requested: Option<Termination>, end: Termination) -> bool {
        &&& end.exit_code == self.child_exit
        &&& match requested {
            Some(first) => end.reason == first.reason && end.message == first.message,
            None => {
                &&& end.reason == if self.drain_error() is Some {
                    FinishReason::ReaderFailed
                } else {
                    FinishReason::NaturalExit
                }
                &&& end.message is Some == self.drain_error() is Some
                &&& end.message is Some ==> end.message->0@ == self.drain_error()->0
            },
        }
    }

    /// Finishes the session once it is over, and says whether it did.
    pub fn finish(&self, session: &mut Session, now: Nanos) -> (finished: bool)
        requires
            old(session).wf(),
            old(session).snapshot.state != SessionState::Finished,
        ensures
            final(session).wf(),
            finished == self.over(now),
            !finished ==> *final(session) == *old(session),
            finished ==> {
                let end = final(session).snapshot.termination;
                &&& end is Some
                &&& self.explains(old(session).requested, end->0)
                &&& *final(session) == (Session {
                    snapshot: Snapshot {
                        state: SessionState::Finished,
                        termination: end,
                        ending: true,
                        ..old(session).snapshot
                    },
                    requested: None,
                    ..*old(session)
                })
            },
    {
        let over = match self.exit_at {
            Some(exited) => (self.reader_end.is_some() && self.writer_done) || now.saturating_sub(
                exited,
            ) >= DRAIN_TIMEOUT,
            None => false,
        };
        if !over {
            return false;
        }
        let termination = match session.requested.take() {
            Some(first) => Termination {
                reason: first.reason,
                exit_code: self.child_exit,
                message: first.message,
            },
            None => {
                let drain_error = match &self.reader_end {
                    Some((_, error)) if self.writer_done => match error {
                        Some(message) => Some(message.clone()),
                        None => None,
                    },
                    _ => Some("PTY workers exceeded drain deadline".to_string()),
                };
                Termination {
                    reason: if drain_error.is_some() {
                        FinishReason::ReaderFailed
                    } else {
                        FinishReason::NaturalExit
                    },
                    exit_code: self.child_exit,
                    message: drain_error,
                }
            },
        };
        session.snapshot.state = SessionState::Finished;
        session.snapshot.ending = true;
        session.snapshot.termination = Some(termination);
        true
    }
}

/// A session that was asked to stop reports, once it is over, the reason that was given first,
/// together with the exit code of its child.
pub proof fn law_stopped_session_reports_its_reason(
    session: Session,
    reason: FinishReason,
    message: Option<String>,
    supervisor: Supervisor,
    end: Termination,
)
    requires
        session.wf(),
        !session.beyond_stopping(),
        session.requested is None,
        supervisor.explains(session.stopped(reason, message).requested, end),
    ensures
        end == (Termination { reason, exit_code: supervisor.child_exit, message }),
{
}

/// A session that nobody asked to stop and whose workers drained ends naturally, with the exit
/// code of its child and no message.
pub proof fn law_undisturbed_session_ends_naturally(
    supervisor: Supervisor,
    ended: Nanos,
    end: Termination,
)
    requires
        supervisor.reader_end == Some((ended, None::<String>)),
        supervisor.writer_done,
        supervisor.explains(None, end),
    ensures
        end == (Termination {
            reason: FinishReason::NaturalExit,
            exit_code: supervisor.child_exit,
            message: None,
        }),
{
}

/// A finished session is final: no request to stop it and no deadline changes it.
pub proof fn law_finished_is_final(session: Session)
    requires
        session.wf(),
        session.snapshot.state == SessionState::Finished,
    ensures
        session.beyond_stopping(),
        session.snapshot.termination is Some,
        session.snapshot.ending,
{
}

/// Once the child has exited, the session is over after the drain timeout at the latest.
pub proof fn law_drain_is_bounded(supervisor: Supervisor, exited: Nanos, now: Nanos)
    requires
        supervisor.exit_at == Some(exited),
        now >= exited + DRAIN_TIMEOUT,
    ensures
        supervisor.over(now),
{
}

/// A reader that failed ends the session at once, one whose channel was closed a tenth of a second
/// later, and none once the child has exited.
pub proof fn law_an_ended_reader_ends_the_session(supervisor: Supervisor, now: Nanos)
    ensures
        supervisor.exit_at is Some || supervisor.reader_end is None
            ==> !supervisor.reader_ends_session(now),
        supervisor.exit_at is None ==> (supervisor.reader_end matches Some((ended, error)) ==> {
            &&& error is Some ==> supervisor.reader_ends_session(now)
            &&& error is None ==> (supervisor.reader_ends_session(now) <==> now >= ended
                + 100_000_000)
        }),
{
}

/// A reader that failed is reported in its own words.
pub proof fn law_readers_are_reported_in_their_own_words(message: String)
    ensures
        Supervisor::reader_message(Some(message)) == message@,
        Supervisor::reader_message(None) == "output channel closed while child is alive"@,
{
}

/// A session is over exactly when its child has exited and either both workers have ended or two
/// seconds have passed since the exit.
pub proof fn law_when_a_session_is_over(supervisor: Supervisor, now: Nanos)
    ensures
        supervisor.exit_at is None ==> !supervisor.over(now),
        supervisor.exit_at matches Some(exited) ==> (supervisor.over(now) <==> (
        supervisor.reader_end is Some && supervisor.writer_done) || now >= exited + 2_000_000_000),
{
}

/// A session that was not asked to stop and whose output could not be drained is reported as failed,
/// with the reader's message where both workers ended and a message about the deadline where not.
/// What was asked for is reported whether or not the output could be drained.
pub proof fn law_output_that_was_not_drained_is_reported(
    supervisor: Supervisor,
    requested: Option<Termination>,
    end: Termination,
)
    requires
        supervisor.explains(requested, end),
    ensures
        end.exit_code == supervisor.child_exit,
        requested matches Some(first) ==> end.reason == first.reason && end.message
            == first.message,
        requested is None ==> (end.reason is NaturalExit || end.reason is ReaderFailed),
        requested is None ==> (end.reason is NaturalExit <==> end.message is None),
        requested is None && (supervisor.reader_end is None || !supervisor.writer_done) ==> {
            &&& end.reason is ReaderFailed
            &&& end.message is Some
            &&& end.message->0@ == "PTY workers exceeded drain deadline"@
        },
        requested is None && supervisor.writer_done ==> (supervisor.reader_end matches Some(
            (_, error),
        ) ==> (error matches Some(message) ==> {
            &&& end.reason is ReaderFailed
            &&& end.message is Some
            &&& end.message->0@ == message@
        })),
{
}

/// A child that exited is noted with its code and the time, and all that is left of its tree is
/// killed; the session is ending from then on, and its terminal let go. A child that runs changes
/// nothing, and one whose state cannot be had is killed and waited for.
pub proof fn law_what_becomes_of_a_child()
    ensures
        forall|supervisor: &mut Supervisor, session: &mut Session, now: Nanos, action: PollAction|
            #[trigger] call_ensures(
                Supervisor::on_poll,
                (supervisor, session, ChildPoll::Running, now),
                action,
            ) ==> !action.changed && action.signal is None && !action.reap && *final(session)
                == *session && *final(supervisor) == *supervisor,
        forall|
            supervisor: &mut Supervisor,
            session: &mut Session,
            code: u32,
            now: Nanos,
            action: PollAction,
        |
            #[trigger] call_ensures(
                Supervisor::on_poll,
                (supervisor, session, ChildPoll::Exited(code), now),
                action,
            ) ==> {
                &&& action.changed && !action.reap
                &&& action.signal == Some(kill_of(session.process@, true))
                &&& final(supervisor).child_exit == Some(code)
                &&& final(supervisor).exit_at == Some(now)
                &&& final(supervisor).reader_end == supervisor.reader_end
                &&& final(session).snapshot.ending && !final(session).open
                &&& final(session).requested == session.requested
                &&& final(session).snapshot.state == session.snapshot.state
                &&& final(session).output == session.output
            },
        forall|
            supervisor: &mut Supervisor,
            session: &mut Session,
            message: String,
            now: Nanos,
            action: PollAction,
        |
            #[trigger] call_ensures(
                Supervisor::on_poll,
                (supervisor, session, ChildPoll::Failed(message), now),
                action,
            ) && session.wf() && !session.snapshot.ending ==> {
                &&& action.changed && action.reap
                &&& action.signal == Some(kill_of(session.process@, true))
                &&& final(session).snapshot.ending
                &&& final(session).requested is Some
                &&& final(session).requested->0.reason is WaitFailed
                &&& final(session).requested->0.message == Some(message)
                &&& final(supervisor).exit_at is None <==> supervisor.exit_at is None
            },
        forall|supervisor: &mut Supervisor, session: &mut Session, now: Nanos, unit: ()|
            #[trigger] call_ensures(Supervisor::on_reaped, (supervisor, session, now), unit) ==> {
                &&& final(supervisor).exit_at == Some(now)
                &&& final(supervisor).child_exit == supervisor.child_exit
                &&& !final(session).open
                &&& final(session).requested == session.requested
            },
{
}

/// A worker that ends is noted, the reader with the time and its message, and nothing else changes.
pub proof fn law_ends_of_workers_are_noted()
    ensures
        forall|supervisor: &mut Supervisor, error: Option<String>, now: Nanos, unit: ()|
            #[trigger] call_ensures(
                Supervisor::on_event,
                (supervisor, WorkerEvent::ReaderEnded(error), now),
                unit,
            ) ==> final(supervisor).reader_end == Some((now, error)) && final(supervisor).writer_done
                == supervisor.writer_done && final(supervisor).exit_at == supervisor.exit_at
                && final(supervisor).child_exit == supervisor.child_exit,
        forall|supervisor: &mut Supervisor, now: Nanos, unit: ()|
            #[trigger] call_ensures(
                Supervisor::on_event,
                (supervisor, WorkerEvent::WriterEnded, now),
                unit,
            ) ==> final(supervisor).writer_done && final(supervisor).reader_end
                == supervisor.reader_end && final(supervisor).exit_at == supervisor.exit_at
                && final(supervisor).child_exit == supervisor.child_exit,
        forall|supervisor: &Supervisor, r: bool|
            #[trigger] call_ensures(Supervisor::polls, (supervisor,), r) ==> (r
                <==> supervisor.exit_at is None),
{
}

/// A session is killed where the input in progress is not written by its deadline, and where its
/// output cannot be read while its child lives; each is reported as what it is.
pub proof fn law_sessions_that_hang_are_killed()
    ensures
        forall|
            supervisor: &Supervisor,
            session: &mut Session,
            now: Nanos,
            signal: Option<Result<Kill, ProcessError>>,
        |
            #[trigger] call_ensures(Supervisor::check_write, (supervisor, session, now), signal)
                && session.wf() && !session.snapshot.ending ==> {
                let expired = session.active_write matches Some(deadline) && now >= deadline;
                &&& !expired ==> signal is None && *final(session) == *session
                &&& expired ==> {
                    &&& signal == Some(kill_of(session.process@, true))
                    &&& final(session).requested is Some
                    &&& final(session).requested->0.reason is WriteTimeout
                    &&& final(session).requested->0.message is Some
                    &&& final(session).requested->0.message->0@ == "writer deadline exceeded"@
                }
            },
        forall|
            supervisor: &Supervisor,
            session: &mut Session,
            now: Nanos,
            signal: Option<Result<Kill, ProcessError>>,
        |
            #[trigger] call_ensures(Supervisor::check_reader, (supervisor, session, now), signal)
                && session.wf() && !session.snapshot.ending ==> {
                &&& !supervisor.reader_ends_session(now) ==> signal is None && *final(session)
                    == *session
                &&& supervisor.reader_ends_session(now) ==> {
                    &&& signal == Some(kill_of(session.process@, true))
                    &&& final(session).requested is Some
                    &&& final(session).requested->0.reason is ReaderFailed
                    &&& final(session).requested->0.message is Some
                }
            },
{
}

/// A session finishes exactly when it is over. It is then finished, has an end, keeps its output, and
/// its end is explained by what was asked for and what its child returned.
pub proof fn law_sessions_finish_when_they_are_over()
    ensures
        forall|supervisor: &Supervisor, session: &mut Session, now: Nanos, finished: bool|
            #[trigger] call_ensures(Supervisor::finish, (supervisor, session, now), finished) ==> {
                &&& finished <==> supervisor.over(now)
                &&& !finished ==> *final(session) == *session
                &&& finished ==> {
                    &&& final(session).snapshot.state is Finished
                    &&& final(session).snapshot.ending
                    &&& final(session).snapshot.termination is Some
                    &&& final(session).snapshot.termination->0.exit_code == supervisor.child_exit
                    &&& supervisor.explains(
                        session.requested,
                        final(session).snapshot.termination->0,
                    )
                    &&& final(session).output == session.output
                    &&& final(session).screen == session.screen
                    &&& final(session).snapshot.activity == session.snapshot.activity
                }
            },
{
}

} // verus!
