//! A session among those of a server: what is reported of it, how it is read and how it is stopped.
use crate::control::ControlError;
use crate::mcp::ReadMode;
use crate::monitor::{reminder, reminder_text};
use crate::observation::{newest, without, ObservationState, Receipt};
use crate::platform::{kill_of, Kill, ProcessError};
use crate::reading::{extract, extractable, extracts, Extract, ReadBody};
use crate::session::Session;
use crate::silence::{Candidate, Observation};
use crate::text::{same, texts};
use crate::types::{FinishReason, Nanos, SessionState, Snapshot, Termination};
use crate::waiting::text_of;
use vstd::prelude::*;
use vstd::string::*;

verus! {

/// How a session ended, as it is reported: with the reason that was given for stopping it, where it
/// ended for that reason.
#[derive(Debug)]
pub struct Ending {
    pub reason: String,
    pub exit_code: Option<u32>,
    pub message: Option<String>,
}

/// What a read returns.
#[derive(Debug)]
pub struct ReadResult {
    pub session_id: String,
    pub receipt: String,
    pub mode: ReadMode,
    /// Where the output begins, where that is not where it was asked for.
    pub start_cursor: Option<u64>,
    pub next_cursor: u64,
    /// How many bytes were lost before they were read, if any.
    pub dropped_bytes: Option<u64>,
    pub state: SessionState,
    pub termination: Option<Ending>,
    /// A reminder, and its text.
    pub silence: Option<(Candidate, String)>,
    pub body: ReadBody,
}

/// What is reported of a session.
#[derive(Debug)]
pub struct EntryReport {
    pub session_id: String,
    pub program: String,
    pub args: Vec<String>,
    pub cwd: String,
    pub rows: u16,
    pub cols: u16,
    pub state: SessionState,
    pub ending: bool,
    pub termination: Option<Ending>,
    pub created_at_ms: u64,
    pub last_output_at_ms: Option<u64>,
    pub last_input_at_ms: Option<u64>,
    pub retained_start: u64,
    pub retained_end: u64,
    pub interaction_id: u64,
}

/// A session among those of a server, with a handle for whoever runs it.
pub struct Entry<H> {
    pub id: String,
    /// The host session that owns it.
    pub host: String,
    /// The connection to the monitor of that host session.
    pub link: u64,
    pub program: String,
    pub args: Vec<String>,
    pub cwd: String,
    pub handle: H,
    pub observation: ObservationState,
    /// The reason that was given first for stopping the session, and under which it is stopped.
    pub stop_reason: Option<(String, FinishReason)>,
    /// Whether a command waits for the session.
    pub waiting: bool,
}

/// Which sessions are meant.
#[derive(Debug, Clone, Copy)]
pub enum Whose<'a> {
    /// Those that depend on a connection to a monitor.
    Link(u64),
    /// Those of a host session.
    Host(&'a str),
    /// All.
    Anyone,
}

fn copy_texts(list: &Vec<String>) -> (copy: Vec<String>)
    ensures
        texts(copy@) == texts(list@),
{
    let mut copy: Vec<String> = Vec::new();
    let mut i: usize = 0;
    assert(texts(copy@) == texts(list@).take(0));
    while i < list.len()
        invariant
            i <= list@.len(),
            texts(copy@) == texts(list@).take(i as int),
        decreases list@.len() - i,
    {
        let ghost before = texts(copy@);
        copy.push(list[i].clone());
        i += 1;
        assert(texts(copy@) == before.push(list@[i - 1]@));
        assert(texts(list@).take(i as int) == texts(list@).take(i - 1).push(list@[i - 1]@));
    }
    assert(texts(list@).take(i as int) == texts(list@));
    copy
}

impl<H> Entry<H> {
    /// The name under which the end of the session is reported.
    pub open spec fn label(&self, termination: Termination) -> Seq<char> {
        match self.stop_reason {
            Some((label, requested)) => if termination.reason == requested {
                label@
            } else {
                termination.reason.spec_name()
            },
            None => termination.reason.spec_name(),
        }
    }

    /// Whether this is how the end of the session is reported.
    pub open spec fn reports(&self, termination: Option<Termination>, ending: Option<Ending>) -> bool {
        match termination {
            None => ending is None,
            Some(end) => {
                &&& ending is Some
                &&& ending->0.reason@ == self.label(end)
                &&& ending->0.exit_code == end.exit_code
                &&& text_of(ending->0.message) == text_of(end.message)
            },
        }
    }

    /// Reports the end of the session.
    pub fn termination(&self, termination: &Termination) -> (ending: Ending)
        ensures
            self.reports(Some(*termination), Some(ending)),
    {
        let mut reason = termination.reason.name();
        if let Some((label, requested)) = &self.stop_reason {
            if termination.reason == *requested {
                reason = label.clone();
            }
        }
        let message = match &termination.message {
            Some(message) => Some(message.clone()),
            None => None,
        };
        Ending { reason, exit_code: termination.exit_code, message }
    }

    fn ending(&self, snapshot: &Snapshot) -> (ending: Option<Ending>)
        ensures
            self.reports(snapshot.termination, ending),
    {
        match &snapshot.termination {
            Some(termination) => Some(self.termination(termination)),
            None => None,
        }
    }

    /// Whether this is what is reported of the session.
    pub open spec fn describes(&self, snapshot: Snapshot, report: EntryReport) -> bool {
        &&& report.session_id@ == self.id@
        &&& report.program@ == self.program@
        &&& texts(report.args@) == texts(self.args@)
        &&& report.cwd@ == self.cwd@
        &&& report.rows == snapshot.rows
        &&& report.cols == snapshot.cols
        &&& report.state == snapshot.state
        &&& report.ending == snapshot.ending
        &&& self.reports(snapshot.termination, report.termination)
        &&& report.created_at_ms == snapshot.created_at_ms
        &&& report.last_output_at_ms == snapshot.last_output_at_ms
        &&& report.last_input_at_ms == snapshot.last_input_at_ms
        &&& report.retained_start == snapshot.retained_start
        &&& report.retained_end == snapshot.retained_end
        &&& report.interaction_id == snapshot.activity.interaction_id
    }

    /// Reports on the session. The report holds no terminal text and acknowledges nothing.
    pub fn snapshot(&self, snapshot: &Snapshot) -> (report: EntryReport)
        ensures
            self.describes(*snapshot, report),
    {
        EntryReport {
            session_id: self.id.clone(),
            program: self.program.clone(),
            args: copy_texts(&self.args),
            cwd: self.cwd.clone(),
            rows: snapshot.rows,
            cols: snapshot.cols,
            state: snapshot.state,
            ending: snapshot.ending,
            termination: self.ending(snapshot),
            created_at_ms: snapshot.created_at_ms,
            last_output_at_ms: snapshot.last_output_at_ms,
            last_input_at_ms: snapshot.last_input_at_ms,
            retained_start: snapshot.retained_start,
            retained_end: snapshot.retained_end,
            interaction_id: snapshot.activity.interaction_id,
        }
    }

    /// The reason under which the session is stopped once it was asked to stop for the given one:
    /// the first that was given.
    pub open spec fn reason_after(
        &self,
        reason: Seq<char>,
        core: FinishReason,
        after: Option<(String, FinishReason)>,
    ) -> bool {
        if self.stop_reason is Some {
            after == self.stop_reason
        } else {
            let (label, requested) = after->0;
            after is Some && label@ == reason && requested == core
        }
    }

    /// Whether the session was stopped for a reason, by the signal that is to be sent: the first
    /// reason counts, and a session that is beyond stopping is left as it is.
    pub open spec fn stops(
        &self,
        after: Self,
        session: Session,
        later: Session,
        reason: Seq<char>,
        core: FinishReason,
        force: bool,
        signal: Option<Result<Kill, ProcessError>>,
    ) -> bool {
        &&& if session.snapshot.state == SessionState::Finished {
            after.stop_reason == self.stop_reason
        } else {
            self.reason_after(reason, core, after.stop_reason)
        }
        &&& if session.beyond_stopping() {
            signal is None && later == session
        } else {
            signal == Some(kill_of(session.process@, force)) && later == session.stopped(core, None)
        }
    }

    /// Whether the session is among those that are meant.
    pub open spec fn belongs(&self, whose: Whose) -> bool {
        match whose {
            Whose::Link(link) => self.link == link,
            Whose::Host(host) => self.host@ == host@,
            Whose::Anyone => true,
        }
    }

    /// Checks whether the session is among those that are meant.
    pub fn is_whose(&self, whose: &Whose) -> (r: bool)
        ensures
            r == self.belongs(*whose),
    {
        match whose {
            Whose::Link(link) => self.link == *link,
            Whose::Host(host) => same(self.host.as_str(), host),
            Whose::Anyone => true,
        }
    }

    /// Whether the session was forced to stop for a reason if it is among those that are meant, and
    /// was left alone if it is not.
    pub open spec fn is_stopped(
        &self,
        after: Self,
        whose: Whose,
        reason: Seq<char>,
        core: FinishReason,
        session: Session,
        later: Session,
        signal: Option<Result<Kill, ProcessError>>,
    ) -> bool {
        if self.belongs(whose) {
            &&& after == (Entry { stop_reason: after.stop_reason, ..*self })
            &&& self.stops(after, session, later, reason, core, true, signal)
        } else {
            after == *self && later == session && signal is None
        }
    }

    /// Stops the session for a reason. Returns the signal to send; a finished session is left as it
    /// is.
    pub fn stop(&mut self, session: &mut Session, reason: &str, core: FinishReason, force: bool) -> (
    signal: Option<Result<Kill, ProcessError>>)
        requires
            old(session).wf(),
        ensures
            final(session).wf(),
            *final(self) == (Entry { stop_reason: final(self).stop_reason, ..*old(self) }),
            old(self).stops(
                *final(self),
                *old(session),
                *final(session),
                reason@,
                core,
                force,
                signal,
            ),
    {
        if session.snapshot.state == SessionState::Finished {
            return None;
        }
        if self.stop_reason.is_none() {
            self.stop_reason = Some((reason.to_string(), core));
        }
        session.stop(core, force, None)
    }

    /// Closes the session for its user.
    pub fn close(&mut self, session: &mut Session) -> (signal: Option<Result<Kill, ProcessError>>)
        requires
            old(session).wf(),
        ensures
            final(session).wf(),
            *final(self) == (Entry { stop_reason: final(self).stop_reason, ..*old(self) }),
            old(self).stops(
                *final(self),
                *old(session),
                *final(session),
                "explicit_close"@,
                FinishReason::ExplicitClose,
                true,
                signal,
            ),
    {
        self.stop(session, "explicit_close", FinishReason::ExplicitClose, true)
    }

    /// Terminates or kills the process tree of the session.
    pub fn signal(&mut self, session: &mut Session, force: bool) -> (signal: Option<
        Result<Kill, ProcessError>,
    >)
        requires
            old(session).wf(),
        ensures
            final(session).wf(),
            *final(self) == (Entry { stop_reason: final(self).stop_reason, ..*old(self) }),
            ({
                let core = if force {
                    FinishReason::Killed
                } else {
                    FinishReason::Terminated
                };
                old(self).stops(
                    *final(self),
                    *old(session),
                    *final(session),
                    core.spec_name(),
                    core,
                    force,
                    signal,
                )
            }),
    {
        if force {
            self.stop(session, "killed", FinishReason::Killed, true)
        } else {
            self.stop(session, "terminated", FinishReason::Terminated, false)
        }
    }

    /// Lets a command wait for the session, unless another does.
    pub fn begin_wait(&mut self) -> (r: Result<(), ControlError>)
        ensures
            old(self).waiting ==> r == Err::<(), ControlError>(ControlError::AlreadyWaiting)
                && *final(self) == *old(self),
            !old(self).waiting ==> r == Ok::<(), ControlError>(()) && *final(self) == (Entry {
                waiting: true,
                ..*old(self)
            }),
    {
        if self.waiting {
            return Err(ControlError::AlreadyWaiting);
        }
        self.waiting = true;
        Ok(())
    }

    /// Notes that the command no longer waits. A session that has not finished by then is stopped,
    /// by the signal that is returned.
    pub fn end_wait(&mut self, session: &mut Session) -> (signal: Option<
        Result<Kill, ProcessError>,
    >)
        requires
            old(session).wf(),
        ensures
            final(session).wf(),
            *final(self) == (Entry {
                waiting: false,
                stop_reason: final(self).stop_reason,
                ..*old(self)
            }),
            old(self).stops(
                *final(self),
                *old(session),
                *final(session),
                "bgshell_disconnected"@,
                FinishReason::OwnerDisconnected,
                true,
                signal,
            ),
    {
        self.waiting = false;
        self.stop(session, "bgshell_disconnected", FinishReason::OwnerDisconnected, true)
    }

    /// Reads the output of the session, and notes which of it can now be acknowledged under the
    /// given receipt.
    pub fn read(
        &mut self,
        session: &Session,
        cursor: u64,
        max: usize,
        mode: ReadMode,
        receipt: String,
        now: Nanos,
    ) -> (result: ReadResult)
        requires
            old(self).observation.wf(),
            session.wf(),
            extractable(*session, cursor, max, mode),
        ensures
            final(self).observation.wf(),
            *final(self) == (Entry { observation: final(self).observation, ..*old(self) }),
            result.session_id@ == old(self).id@,
            result.receipt@ == receipt@,
            result.state == session.snapshot.state,
            old(self).reports(session.snapshot.termination, result.termination),
            exists|found: Extract|
                #[trigger] extracts(*session, cursor, max, mode, found) && returned(
                    *old(self),
                    *final(self),
                    *session,
                    cursor,
                    now,
                    found,
                    result,
                ),
    {
        let found = extract(session, cursor, max, mode);
        let ghost whole = found;
        let snapshot = session.snapshot();
        let id = receipt.clone();
        let notice = self.observation.issue(
            id,
            found.covered_from,
            found.next_cursor,
            &snapshot,
            now,
        );
        let silence = match notice {
            Some(candidate) => Some((candidate, reminder(self.id.as_str()))),
            None => None,
        };
        let result = ReadResult {
            session_id: self.id.clone(),
            receipt,
            mode: found.mode,
            start_cursor: if found.start_cursor == cursor {
                None
            } else {
                Some(found.start_cursor)
            },
            next_cursor: found.next_cursor,
            dropped_bytes: if found.dropped_bytes == 0 {
                None
            } else {
                Some(found.dropped_bytes)
            },
            state: snapshot.state,
            termination: self.ending(&snapshot),
            silence,
            body: found.body,
        };
        assert(extracts(*session, cursor, max, mode, whole));
        result
    }
}

/// Whether a read returns what was extracted, under a receipt that covers exactly that range and
/// carries the reminder that the read carries.
pub open spec fn returned<H>(
    before: Entry<H>,
    after: Entry<H>,
    session: Session,
    cursor: u64,
    now: Nanos,
    found: Extract,
    result: ReadResult,
) -> bool {
    let notice = match result.silence {
        Some((candidate, _)) => Some(candidate),
        None => None,
    };
    let snapshot = Snapshot {
        retained_start: session.output.start() as u64,
        retained_end: session.output.end() as u64,
        ..session.snapshot
    };
    &&& result.mode == found.mode
    &&& result.body == found.body
    &&& result.next_cursor == found.next_cursor
    &&& result.start_cursor == if found.start_cursor == cursor {
        None
    } else {
        Some(found.start_cursor)
    }
    &&& result.dropped_bytes == if found.dropped_bytes == 0 {
        None
    } else {
        Some(found.dropped_bytes)
    }
    &&& notice == if after.observation.observed.due(snapshot, now)
        && !before.observation.kept_back(Observation::reminder(snapshot), now) {
        Some(Observation::reminder(snapshot))
    } else {
        None
    }
    &&& result.silence matches Some((_, message)) ==> message@ == reminder_text(before.id@)
    &&& after.observation.receipts@.len() > 0
    &&& after.observation.receipts@ == newest(
        without(before.observation.receipts@, result.receipt@).push(
            after.observation.receipts@.last(),
        ),
    )
    &&& after.observation.receipts@.last() == (Receipt {
        id: after.observation.receipts@.last().id,
        start: found.covered_from,
        end: found.next_cursor,
        notice,
        at: now,
    })
    &&& after.observation.receipts@.last().id@ == result.receipt@
    &&& after.observation.observed.forgot(before.observation.observed, snapshot.retained_start)
    &&& after.observation.observed.notified() == before.observation.observed.notified()
}

/// Whether an entry is what is left of another once a returned read was acknowledged.
pub open spec fn observed<H>(before: Entry<H>, after: Entry<H>, receipt: Seq<char>) -> bool {
    &&& after == (Entry { observation: after.observation, ..before })
    &&& before.observation.acknowledged(after.observation, receipt)
}

/// A session that was stopped for a reason, and ends for it, is reported with it, whatever was
/// asked later.
pub proof fn law_first_reason_is_reported<H>(
    before: Entry<H>,
    once: Entry<H>,
    twice: Entry<H>,
    first: Seq<char>,
    first_core: FinishReason,
    second: Seq<char>,
    second_core: FinishReason,
    end: Termination,
)
    requires
        before.stop_reason is None,
        before.reason_after(first, first_core, once.stop_reason),
        once.reason_after(second, second_core, twice.stop_reason),
        end.reason == first_core,
    ensures
        twice.label(end) == first,
{
}

/// The end of a session is reported under the reason that was given for stopping it exactly where it
/// ended for that reason; otherwise under the name of the reason for which it ended. Its exit code and
/// message are reported as they are.
pub proof fn law_ends_are_reported_as_they_came<H>(
    entry: Entry<H>,
    end: Termination,
    ending: Option<Ending>,
)
    requires
        entry.reports(Some(end), ending),
    ensures
        ending is Some,
        entry.stop_reason is None ==> ending->0.reason@ == end.reason.spec_name(),
        entry.stop_reason matches Some((given, core)) ==> ending->0.reason@ == (if end.reason == core {
            given@
        } else {
            end.reason.spec_name()
        }),
        ending->0.exit_code == end.exit_code,
        end.message is None ==> ending->0.message is None,
        end.message matches Some(message) ==> ending->0.message is Some && ending->0.message->0@
            == message@,
        entry.reports(None, None),
{
}

/// A report says of a session who it is and what it runs, how large it is, what it is doing, since
/// when, and which output is retained, as all of that is.
pub proof fn law_reports_show_the_session<H>(
    entry: Entry<H>,
    snapshot: Snapshot,
    report: EntryReport,
)
    requires
        entry.describes(snapshot, report),
    ensures
        report.session_id@ == entry.id@ && report.program@ == entry.program@ && report.cwd@
            == entry.cwd@,
        report.args@.len() == entry.args@.len(),
        forall|i: int|
            0 <= i < entry.args@.len() ==> (#[trigger] report.args@[i])@ == entry.args@[i]@,
        report.rows == snapshot.rows && report.cols == snapshot.cols,
        report.state == snapshot.state && report.ending == snapshot.ending,
        report.termination is Some <==> snapshot.termination is Some,
        report.created_at_ms == snapshot.created_at_ms,
        report.last_output_at_ms == snapshot.last_output_at_ms,
        report.last_input_at_ms == snapshot.last_input_at_ms,
        report.retained_start == snapshot.retained_start && report.retained_end
            == snapshot.retained_end,
        report.interaction_id == snapshot.activity.interaction_id,
{
    assert(texts(report.args@).len() == texts(entry.args@).len());
    assert forall|i: int| 0 <= i < entry.args@.len() implies (#[trigger] report.args@[i])@
        == entry.args@[i]@ by {
        assert(texts(report.args@)[i] == texts(entry.args@)[i]);
    }
}

/// A finished session is left as it is by whatever asks it to stop. One whose child exited by itself
/// gets no signal. Any other is ending from then on, and its process tree gets the signal, forced
/// where that was asked for. The reason that was given first stays.
pub proof fn law_stopping_a_session<H>(
    before: Entry<H>,
    after: Entry<H>,
    session: Session,
    later: Session,
    reason: Seq<char>,
    core: FinishReason,
    force: bool,
    signal: Option<Result<Kill, ProcessError>>,
)
    requires
        session.wf(),
        before.stops(after, session, later, reason, core, force, signal),
    ensures
        session.snapshot.state is Finished ==> after.stop_reason == before.stop_reason && later
            == session && signal is None,
        session.snapshot.state !is Finished && before.stop_reason is Some ==> after.stop_reason
            == before.stop_reason,
        session.snapshot.state !is Finished && before.stop_reason is None ==> {
            &&& after.stop_reason matches Some((given, under)) && given@ == reason && under == core
        },
        !session.snapshot.ending || session.requested is Some ==> {
            &&& signal == Some(kill_of(session.process@, force))
            &&& later.snapshot.ending
            &&& later.requested is Some
            &&& session.requested is None ==> later.requested->0.reason == core
            &&& session.requested is Some ==> later.requested == session.requested
        },
        session.snapshot.ending && session.requested is None ==> signal is None && later == session,
        later.output == session.output && later.screen == session.screen,
{
}

/// A session belongs to the connection to the monitor that it was started with and to its own host
/// session, and to no other; where all are meant, it is meant.
pub proof fn law_whose_a_session_is<H>(entry: Entry<H>, link: u64, host: &str)
    ensures
        entry.belongs(Whose::Link(link)) <==> entry.link == link,
        entry.belongs(Whose::Host(host)) <==> entry.host@ == host@,
        entry.belongs(Whose::Anyone),
{
}

/// What does not belong is left alone, and what belongs is forced to stop.
pub proof fn law_only_those_meant_are_stopped<H>(
    before: Entry<H>,
    after: Entry<H>,
    whose: Whose,
    reason: Seq<char>,
    core: FinishReason,
    session: Session,
    later: Session,
    signal: Option<Result<Kill, ProcessError>>,
)
    requires
        session.wf(),
        before.is_stopped(after, whose, reason, core, session, later, signal),
    ensures
        !before.belongs(whose) ==> after == before && later == session && signal is None,
        before.belongs(whose) && !session.snapshot.ending ==> later.snapshot.ending && signal == Some(
            kill_of(session.process@, true),
        ),
        after.id == before.id && after.host == before.host && after.link == before.link
            && after.observation == before.observation && after.waiting == before.waiting
            && after.handle == before.handle,
{
}

/// A read says where its output begins where that is not where it was asked to, and how many bytes
/// were lost where any were. It carries a reminder where one is due and no returned read keeps it
/// back, and the reminder is about the session and all its output of the interaction.
pub proof fn law_reads_say_what_they_return<H>(
    before: Entry<H>,
    after: Entry<H>,
    session: Session,
    cursor: u64,
    now: Nanos,
    found: Extract,
    result: ReadResult,
)
    requires
        session.wf(),
        returned(before, after, session, cursor, now, found, result),
    ensures
        result.mode == found.mode && result.body == found.body && result.next_cursor
            == found.next_cursor,
        result.start_cursor is None <==> found.start_cursor == cursor,
        result.start_cursor matches Some(start) ==> start == found.start_cursor,
        result.dropped_bytes is None <==> found.dropped_bytes == 0,
        result.dropped_bytes matches Some(lost) ==> lost == found.dropped_bytes,
        result.silence matches Some((candidate, message)) ==> {
            &&& candidate.interaction_id == session.snapshot.activity.interaction_id
            &&& candidate.output_seq == session.snapshot.activity.output_seq
            &&& candidate.start_cursor == session.snapshot.activity.interaction_cursor
            &&& candidate.end_cursor == session.output.end()
            &&& message@ == reminder_text(before.id@)
            &&& session.snapshot.state is Running
            &&& !session.snapshot.ending
            &&& session.snapshot.activity.pending_inputs == 0
            &&& before.observation.observed.notified() != Some(candidate.interaction_id)
        },
        after.observation.receipts@.len() > 0,
        after.observation.receipts@.last().id@ == result.receipt@,
        after.observation.receipts@.last().start == found.covered_from,
        after.observation.receipts@.last().end == found.next_cursor,
        after.observation.receipts@.last().at == now,
        after.observation.receipts@.last().notice is Some <==> result.silence is Some,
{
}

/// Acknowledging a read touches what is known of the reader alone.
pub proof fn law_observing_touches_the_observation_alone<H>(
    before: Entry<H>,
    after: Entry<H>,
    receipt: Seq<char>,
)
    requires
        observed(before, after, receipt),
    ensures
        before.observation.acknowledged(after.observation, receipt),
        after.id == before.id && after.host == before.host && after.link == before.link,
        after.program == before.program && after.args == before.args && after.cwd == before.cwd,
        after.handle == before.handle,
        after.stop_reason == before.stop_reason,
        after.waiting == before.waiting,
{
}

/// One command waits for a session at a time. When it no longer does, a session that still runs is
/// killed, and reported as left by its command.
pub proof fn law_one_command_waits_for_a_session<H>()
    ensures
        forall|entry: &mut Entry<H>, r: Result<(), ControlError>|
            #[trigger] call_ensures(Entry::<H>::begin_wait, (entry,), r) ==> {
                &&& r is Ok <==> !entry.waiting
                &&& r is Err ==> r->Err_0 is AlreadyWaiting
                &&& final(entry).waiting
                &&& final(entry).stop_reason == entry.stop_reason
                &&& final(entry).observation == entry.observation
            },
        forall|
            entry: &mut Entry<H>,
            session: &mut Session,
            signal: Option<Result<Kill, ProcessError>>,
        |
            #[trigger] call_ensures(Entry::<H>::end_wait, (entry, session), signal) ==> {
                &&& !final(entry).waiting
                &&& session.snapshot.state is Finished ==> signal is None && *final(session)
                    == *session && final(entry).stop_reason == entry.stop_reason
                &&& session.wf() && !session.snapshot.ending ==> {
                    &&& signal == Some(kill_of(session.process@, true))
                    &&& final(session).requested is Some
                    &&& final(session).requested->0.reason is OwnerDisconnected
                    &&& entry.stop_reason is None ==> (final(entry).stop_reason matches Some(
                        (given, _),
                    ) && given@ == "bgshell_disconnected"@)
                }
            },
{
}

/// Closing kills, and is reported as such; a signal terminates or kills as asked, and is reported as
/// what it was.
pub proof fn law_how_sessions_are_closed_and_signalled<H>()
    ensures
        forall|
            entry: &mut Entry<H>,
            session: &mut Session,
            signal: Option<Result<Kill, ProcessError>>,
        |
            #[trigger] call_ensures(Entry::<H>::close, (entry, session), signal) && session.wf()
                && !session.snapshot.ending && entry.stop_reason is None ==> {
                &&& signal == Some(kill_of(session.process@, true))
                &&& final(session).requested is Some
                &&& final(session).requested->0.reason is ExplicitClose
                &&& final(entry).stop_reason matches Some((given, _))
                &&& given@ == "explicit_close"@
            },
        forall|
            entry: &mut Entry<H>,
            session: &mut Session,
            force: bool,
            signal: Option<Result<Kill, ProcessError>>,
        |
            #[trigger] call_ensures(Entry::<H>::signal, (entry, session, force), signal)
                && session.wf() && !session.snapshot.ending && entry.stop_reason is None ==> {
                &&& signal == Some(kill_of(session.process@, force))
                &&& final(session).requested is Some
                &&& force ==> final(session).requested->0.reason is Killed
                &&& !force ==> final(session).requested->0.reason is Terminated
                &&& final(entry).stop_reason matches Some((given, _))
                &&& given@ == (if force {
                    "killed"@
                } else {
                    "terminated"@
                })
            },
{
}

/// A session is reported on as it is described, ends as it is reported, and is stopped as asked; a
/// read returns what was extracted.
pub proof fn law_what_entries_do<H>(
    entry: &Entry<H>,
    snapshot: &Snapshot,
    report: EntryReport,
    end: &Termination,
    ending: Ending,
    whose: &Whose<'_>,
    meant: bool,
)
    requires
        call_ensures(Entry::<H>::snapshot, (entry, snapshot), report),
        call_ensures(Entry::<H>::termination, (entry, end), ending),
        call_ensures(Entry::<H>::is_whose, (entry, whose), meant),
    ensures
        entry.describes(*snapshot, report),
        entry.reports(Some(*end), Some(ending)),
        meant <==> entry.belongs(*whose),
        forall|
            stopped: &mut Entry<H>,
            session: &mut Session,
            reason: &str,
            core: FinishReason,
            force: bool,
            signal: Option<Result<Kill, ProcessError>>,
        |
            #[trigger] call_ensures(
                Entry::<H>::stop,
                (stopped, session, reason, core, force),
                signal,
            ) ==> stopped.stops(
                *final(stopped),
                *session,
                *final(session),
                reason@,
                core,
                force,
                signal,
            ) && final(stopped).observation == stopped.observation && final(stopped).waiting
                == stopped.waiting,
        forall|
            read: &mut Entry<H>,
            session: &Session,
            cursor: u64,
            max: usize,
            mode: ReadMode,
            receipt: String,
            now: Nanos,
            result: ReadResult,
        |
            #[trigger] call_ensures(
                Entry::<H>::read,
                (read, session, cursor, max, mode, receipt, now),
                result,
            ) ==> result.session_id@ == read.id@ && result.receipt@ == receipt@ && result.state
                == session.snapshot.state && read.reports(
                session.snapshot.termination,
                result.termination,
            ) && exists|found: Extract|
                #[trigger] extracts(*session, cursor, max, mode, found) && returned(
                    *read,
                    *final(read),
                    *session,
                    cursor,
                    now,
                    found,
                    result,
                ),
{
}

} // verus!
