//! One terminal session: the state behind its handles, and how it starts and stops.
use crate::buffer::{tail_of, OutputBuffer};
use crate::emulator::{
    after_output, drawable, emulated_application_cursor, emulated_cursor, lemma_after_output,
    lemma_byte_by_byte, output_of, seen, size_after, TerminalEvent,
};
use crate::platform::{kill_of, Kill, Process, ProcessError, ProcessLocator};
use crate::screen::{answer_text, stopped_at, Screen};
use crate::terminal::Query;
use crate::types::{
    epoch_ms, now_ms, Activity, FinishReason, Nanos, SessionState, Snapshot, StartSpec, Termination,
    OUTPUT_CAPACITY,
};
use vstd::prelude::*;

verus! {

/// Everything that the handles of one session share. Whoever hosts sessions guards each by a
/// lock.
pub struct Session {
    /// What is reported of the session, but for the range of retained output.
    pub snapshot: Snapshot,
    pub output: OutputBuffer,
    /// Emulated screen, advanced together with `output` so both share one cursor.
    pub screen: Screen,
    /// The termination that was asked for first.
    pub requested: Option<Termination>,
    /// Until when the input in progress has to be written.
    pub active_write: Option<Nanos>,
    pub process: Process,
    /// Whether the terminal and the queue of inputs are still held.
    pub open: bool,
}

/// A request that a terminal cannot be resized for.
#[derive(Debug, Clone, Copy, PartialEq, Eq, Structural)]
pub enum ResizeError {
    ZeroSize,
    Ending,
    Finished,
}

impl ResizeError {
    pub open spec fn spec_describe(self) -> Seq<char> {
        match self {
            ResizeError::ZeroSize => "rows and cols must be greater than zero"@,
            ResizeError::Ending => "session is ending"@,
            ResizeError::Finished => "session is finished"@,
        }
    }

    /// The error in words.
    pub fn describe(self) -> (text: String)
        ensures
            text@ == self.spec_describe(),
    {
        match self {
            ResizeError::ZeroSize => "rows and cols must be greater than zero".to_string(),
            ResizeError::Ending => "session is ending".to_string(),
            ResizeError::Finished => "session is finished".to_string(),
        }
    }
}

/// The activity of a session that was just started: its first interaction, and no output.
pub open spec fn first_activity(now: Nanos) -> Activity {
    Activity {
        interaction_id: 1,
        interaction_at: now,
        interaction_output_seq: 0,
        interaction_cursor: 0,
        output_seq: 0,
        last_output_at: None,
        pending_inputs: 0,
    }
}

impl Session {
    pub open spec fn wf(&self) -> bool {
        &&& self.output.wf()
        &&& self.output.capacity() == OUTPUT_CAPACITY
        &&& self.screen.wf()
        &&& size_after(self.screen@) == (self.snapshot.rows, self.snapshot.cols)
        &&& self.snapshot.state == SessionState::Finished <==> self.snapshot.termination is Some
        &&& self.snapshot.state == SessionState::Finished ==> self.snapshot.ending
            && self.requested is None
        &&& self.requested is Some ==> self.snapshot.ending
    }

    /// Whether this is a session that was just set up around a child, and nothing happened yet.
    pub open spec fn fresh(
        &self,
        rows: u16,
        cols: u16,
        locator: ProcessLocator,
        now: Nanos,
        created_at_ms: u64,
    ) -> bool {
        &&& self.snapshot == (Snapshot {
            state: SessionState::Starting,
            termination: None,
            rows,
            cols,
            created_at_ms,
            last_output_at_ms: None,
            last_input_at_ms: None,
            retained_start: 0,
            retained_end: 0,
            ending: false,
            activity: first_activity(now),
        })
        &&& self.output@ == Seq::<u8>::empty()
        &&& self.output.start() == 0
        &&& self.output.end() == 0
        &&& self.output.capacity() == OUTPUT_CAPACITY
        &&& self.screen@ == seq![TerminalEvent::Opened { rows, cols, scrollback: 0 }]
        &&& self.requested is None
        &&& self.active_write is None
        &&& self.process@ == locator
        &&& self.open
    }

    /// A session around a child that was just spawned in a terminal of the given size.
    pub fn new(rows: u16, cols: u16, process: Process, now: Nanos, since_epoch: Option<u64>) -> (s:
        Self)
        requires
            rows > 0,
            cols > 0,
        ensures
            s.wf(),
            s.fresh(
                rows,
                cols,
                process@,
                now,
                epoch_ms(since_epoch),
            ),
    {
        let s = Session {
            snapshot: Snapshot {
                state: SessionState::Starting,
                termination: None,
                rows,
                cols,
                created_at_ms: now_ms(since_epoch),
                last_output_at_ms: None,
                last_input_at_ms: None,
                retained_start: 0,
                retained_end: 0,
                ending: false,
                activity: Activity {
                    interaction_id: 1,
                    interaction_at: now,
                    interaction_output_seq: 0,
                    interaction_cursor: 0,
                    output_seq: 0,
                    last_output_at: None,
                    pending_inputs: 0,
                },
            },
            output: OutputBuffer::new(OUTPUT_CAPACITY),
            screen: Screen::new(rows, cols, 0),
            requested: None,
            active_write: None,
            process,
            open: true,
        };
        assert(s.screen@.last() == s.screen@[0]);
        s
    }

    /// What is reported of the session at this moment.
    pub fn snapshot(&self) -> (snapshot: Snapshot)
        requires
            self.wf(),
        ensures
            snapshot == (Snapshot {
                retained_start: self.output.start() as u64,
                retained_end: self.output.end() as u64,
                ..self.snapshot
            }),
    {
        let mut snapshot = self.snapshot.clone();
        let (start, end) = self.output.range();
        snapshot.retained_start = start;
        snapshot.retained_end = end;
        snapshot
    }

    /// Whether a request to stop finds nothing left to do: the session is over, or its child
    /// exited by itself.
    pub open spec fn beyond_stopping(&self) -> bool {
        self.snapshot.state == SessionState::Finished || (self.snapshot.ending && self.requested
            is None)
    }

    /// The session once a request to stop was noted. The first request decides what is reported.
    pub open spec fn stopped(&self, reason: FinishReason, message: Option<String>) -> Session {
        Session {
            snapshot: Snapshot { ending: true, ..self.snapshot },
            requested: if self.requested is None {
                Some(Termination { reason, exit_code: None, message })
            } else {
                self.requested
            },
            ..*self
        }
    }

    /// The session once its child is attended to.
    pub open spec fn running(&self) -> Session {
        Session { snapshot: Snapshot { state: SessionState::Running, ..self.snapshot }, ..*self }
    }

    /// Asks the session to stop. Returns the signal to send once whoever waits for changes has
    /// been told, or nothing where there is nothing left to stop.
    pub fn stop(&mut self, reason: FinishReason, force: bool, message: Option<String>) -> (signal:
        Option<Result<Kill, ProcessError>>)
        requires
            old(self).wf(),
        ensures
            final(self).wf(),
            old(self).beyond_stopping() ==> signal is None && *final(self) == *old(self),
            !old(self).beyond_stopping() ==> signal == Some(kill_of(old(self).process@, force))
                && *final(self) == old(self).stopped(reason, message),
    {
        if self.snapshot.state == SessionState::Finished || (self.snapshot.ending
            && self.requested.is_none()) {
            return None;
        }
        if self.requested.is_none() {
            self.requested = Some(Termination { reason, exit_code: None, message });
        }
        self.snapshot.ending = true;
        Some(self.process.signal(force))
    }

    /// Stops the session at the request of its user.
    pub fn close(&mut self) -> (signal: Option<Result<Kill, ProcessError>>)
        requires
            old(self).wf(),
        ensures
            final(self).wf(),
            old(self).beyond_stopping() ==> signal is None && *final(self) == *old(self),
            !old(self).beyond_stopping() ==> signal == Some(kill_of(old(self).process@, true))
                && *final(self) == old(self).stopped(FinishReason::ExplicitClose, None),
    {
        self.stop(FinishReason::ExplicitClose, true, None)
    }

    /// Takes in output of the child: retains it and draws it. Output that was read just now counts
    /// as activity, even where none of it is visible. Says whether all of it was drawn.
    pub fn record(
        &mut self,
        raw_activity: bool,
        bytes: &[u8],
        now: Nanos,
        since_epoch: Option<u64>,
    ) -> (complete: bool)
        requires
            old(self).wf(),
            old(self).output.end() + bytes@.len() <= u64::MAX,
            raw_activity ==> old(self).snapshot.activity.output_seq < u64::MAX,
        ensures
            final(self).wf(),
            final(self).output@ == tail_of(
                old(self).output@ + bytes@,
                old(self).output.capacity(),
            ),
            final(self).output.end() == old(self).output.end() + bytes@.len(),
            final(self).output.capacity() == old(self).output.capacity(),
            complete == (bytes@.len() == 0 || drawable(old(self).screen@, bytes@)),
            complete ==> final(self).screen@ == if bytes@.len() > 0 {
                after_output(old(self).screen@, bytes@)
            } else {
                old(self).screen@
            },
            !complete ==> exists|n: int| #[trigger]
                stopped_at(old(self).screen@, final(self).screen@, bytes@, n),
            final(self).snapshot == if raw_activity {
                old(self).active(now, since_epoch)
            } else {
                old(self).snapshot
            },
            *final(self) == (Session {
                snapshot: final(self).snapshot,
                output: final(self).output,
                screen: final(self).screen,
                ..*old(self)
            }),
    {
        if raw_activity {
            self.snapshot.activity.output_seq = self.snapshot.activity.output_seq + 1;
            self.snapshot.activity.last_output_at = Some(now);
            self.snapshot.last_output_at_ms = Some(now_ms(since_epoch));
        }
        self.output.append(bytes);
        if bytes.len() == 0 {
            return true;
        }
        let ghost before = self.screen@;
        let complete = self.screen.process(bytes);
        proof {
            lemma_after_output(before, bytes@);
            if !complete {
                let n = choose|n: int| #[trigger] stopped_at(before, self.screen@, bytes@, n);
                lemma_byte_by_byte(before, seen(output_of(before), bytes@).take(n));
            }
        }
        complete
    }

    /// The snapshot after output at the given time.
    pub open spec fn active(&self, now: Nanos, since_epoch: Option<u64>) -> Snapshot {
        Snapshot {
            activity: Activity {
                output_seq: (self.snapshot.activity.output_seq + 1) as u64,
                last_output_at: Some(now),
                ..self.snapshot.activity
            },
            last_output_at_ms: Some(epoch_ms(since_epoch)),
            ..self.snapshot
        }
    }

    /// Answers a query from the screen as it is now.
    pub fn answer(&self, query: Query) -> (bytes: Vec<u8>)
        ensures
            bytes@ == answer_text(
                query,
                emulated_cursor(self.screen@).0,
                emulated_cursor(self.screen@).1,
            ),
    {
        query.answer(&self.screen)
    }

    /// Lets go of the terminal and of the queue of inputs.
    pub fn shutdown_io(&mut self)
        ensures
            *final(self) == (Session { open: false, ..*old(self) }),
    {
        self.open = false;
    }

    /// Whether the application enabled cursor-key mode, which changes arrow key encoding.
    pub fn application_cursor(&self) -> (r: bool)
        ensures
            r == emulated_application_cursor(self.screen@),
    {
        self.screen.application_cursor()
    }

    pub fn process_locator(&self) -> (locator: ProcessLocator)
        ensures
            locator == self.process@,
    {
        self.process.locator()
    }

    /// Checks whether the terminal may be given a new size.
    pub fn resize(&self, rows: u16, cols: u16) -> (r: Result<(), ResizeError>)
        ensures
            r == (if rows == 0 || cols == 0 {
                Err(ResizeError::ZeroSize)
            } else if self.snapshot.ending {
                Err(ResizeError::Ending)
            } else if !self.open {
                Err(ResizeError::Finished)
            } else {
                Ok(())
            }),
    {
        if rows == 0 || cols == 0 {
            return Err(ResizeError::ZeroSize);
        }
        if self.snapshot.ending {
            return Err(ResizeError::Ending);
        }
        if !self.open {
            return Err(ResizeError::Finished);
        }
        Ok(())
    }

    /// Notes the size that the terminal was given. Activity is not affected.
    pub fn resized(&mut self, rows: u16, cols: u16)
        requires
            old(self).wf(),
            rows > 0,
            cols > 0,
        ensures
            final(self).wf(),
            final(self).screen@ == old(self).screen@.push(TerminalEvent::Resized { rows, cols }),
            *final(self) == (Session {
                snapshot: Snapshot { rows, cols, ..old(self).snapshot },
                screen: final(self).screen,
                ..*old(self)
            }),
    {
        let ghost before = self.screen@;
        self.snapshot.rows = rows;
        self.snapshot.cols = cols;
        self.screen.resize(rows, cols);
        assert(self.screen@.drop_last() == before);
    }

    /// How the session ended, once it has.
    pub fn wait(&self) -> (termination: Option<Termination>)
        ensures
            termination == self.snapshot.termination,
    {
        match &self.snapshot.termination {
            Some(termination) => Some(termination.clone()),
            None => None,
        }
    }
}

/// Once a session has finished, nothing that asks it to stop changes it, and once a stop was
/// asked for, no later request changes the reason that will be reported.
pub proof fn law_first_stop_decides(
    session: Session,
    first: FinishReason,
    first_message: Option<String>,
    second: FinishReason,
    second_message: Option<String>,
)
    requires
        session.wf(),
        session.requested is None,
        !session.beyond_stopping(),
    ensures
        ({
            let once = session.stopped(first, first_message);
            let twice = once.stopped(second, second_message);
            &&& once.wf()
            &&& !once.beyond_stopping()
            &&& twice == once
            &&& twice.requested == Some(
                Termination { reason: first, exit_code: None, message: first_message },
            )
        }),
{
}

/// A start-up that was refused before anything was opened.
#[derive(Debug, Clone, Copy, PartialEq, Eq, Structural)]
pub enum StartError {
    /// The program is missing, or the terminal would have no rows or no columns.
    Incomplete,
}

impl StartError {
    pub open spec fn spec_describe(self) -> Seq<char> {
        "program and nonzero terminal dimensions are required"@
    }

    /// The error in words.
    pub fn describe(self) -> (text: String)
        ensures
            text@ == self.spec_describe(),
    {
        "program and nonzero terminal dimensions are required".to_string()
    }
}

/// What is to be done next to start a session, or to clean up after a start that failed.
#[derive(Debug, Clone, Copy, PartialEq, Eq, Structural)]
pub enum StartStep {
    OpenTerminal,
    SpawnChild,
    /// Ask the child for its process id and the terminal for its process group.
    IdentifyChild,
    CloneReader,
    TakeWriter,
    StartWriter,
    StartReader,
    StartSupervisor,
    /// A real child and all supervising workers were created.
    Ready,
    /// End a child that no session was set up around.
    KillChild,
    /// Send the signal that stops the session's process tree.
    StopChild,
    /// Let go of the terminal and of the queue of inputs.
    CloseIo,
    /// Wait for the child that was ended.
    ReapChild,
    Failed,
}

impl StartStep {
    /// The step after this one, given whether this one succeeded. Cleaning up goes on whatever
    /// its steps return.
    pub open spec fn next(self, ok: bool) -> StartStep {
        match self {
            StartStep::OpenTerminal => if ok {
                StartStep::SpawnChild
            } else {
                StartStep::Failed
            },
            StartStep::SpawnChild => if ok {
                StartStep::IdentifyChild
            } else {
                StartStep::Failed
            },
            StartStep::IdentifyChild => if ok {
                StartStep::CloneReader
            } else {
                StartStep::KillChild
            },
            StartStep::CloneReader => if ok {
                StartStep::TakeWriter
            } else {
                StartStep::KillChild
            },
            StartStep::TakeWriter => if ok {
                StartStep::StartWriter
            } else {
                StartStep::KillChild
            },
            StartStep::StartWriter => if ok {
                StartStep::StartReader
            } else {
                StartStep::StopChild
            },
            StartStep::StartReader => if ok {
                StartStep::StartSupervisor
            } else {
                StartStep::StopChild
            },
            StartStep::StartSupervisor => if ok {
                StartStep::Ready
            } else {
                StartStep::StopChild
            },
            StartStep::Ready => StartStep::Ready,
            StartStep::KillChild => StartStep::ReapChild,
            StartStep::StopChild => StartStep::CloseIo,
            StartStep::CloseIo => StartStep::ReapChild,
            StartStep::ReapChild => StartStep::Failed,
            StartStep::Failed => StartStep::Failed,
        }
    }

    /// Whether this step starts one of the workers of a session.
    pub open spec fn starts_worker(self) -> bool {
        self == StartStep::StartWriter || self == StartStep::StartReader || self
            == StartStep::StartSupervisor
    }

    fn after(self, ok: bool) -> (step: StartStep)
        ensures
            step == self.next(ok),
    {
        match self {
            StartStep::OpenTerminal => if ok {
                StartStep::SpawnChild
            } else {
                StartStep::Failed
            },
            StartStep::SpawnChild => if ok {
                StartStep::IdentifyChild
            } else {
                StartStep::Failed
            },
            StartStep::IdentifyChild => if ok {
                StartStep::CloneReader
            } else {
                StartStep::KillChild
            },
            StartStep::CloneReader => if ok {
                StartStep::TakeWriter
            } else {
                StartStep::KillChild
            },
            StartStep::TakeWriter => if ok {
                StartStep::StartWriter
            } else {
                StartStep::KillChild
            },
            StartStep::StartWriter => if ok {
                StartStep::StartReader
            } else {
                StartStep::StopChild
            },
            StartStep::StartReader => if ok {
                StartStep::StartSupervisor
            } else {
                StartStep::StopChild
            },
            StartStep::StartSupervisor => if ok {
                StartStep::Ready
            } else {
                StartStep::StopChild
            },
            StartStep::Ready => StartStep::Ready,
            StartStep::KillChild => StartStep::ReapChild,
            StartStep::StopChild => StartStep::CloseIo,
            StartStep::CloseIo => StartStep::ReapChild,
            StartStep::ReapChild => StartStep::Failed,
            StartStep::Failed => StartStep::Failed,
        }
    }
}

/// A session that is being started.
pub struct Startup {
    pub step: StartStep,
    pub rows: u16,
    pub cols: u16,
    /// The child, from when it was identified until a session is set up around it.
    pub process: Option<Process>,
}

impl Startup {
    pub open spec fn wf(&self) -> bool {
        &&& self.rows > 0
        &&& self.cols > 0
        &&& (self.step == StartStep::CloneReader || self.step == StartStep::TakeWriter)
            ==> self.process is Some
    }

    /// Notes what the child and its terminal said when they were asked who they are.
    pub fn identified(&mut self, process_id: Option<u32>, process_group: Option<i32>) -> (r: Result<
        (),
        ProcessError,
    >)
        requires
            old(self).wf(),
            old(self).step == StartStep::IdentifyChild,
        ensures
            final(self).wf(),
            final(self).step == StartStep::IdentifyChild.next(r is Ok),
            match r {
                Ok(()) => process_id is Some && process_id->0 <= i32::MAX && final(self).process
                    is Some && final(self).process->0@ == (ProcessLocator::Unix {
                    process_id: process_id->0 as i32,
                    process_group,
                }),
                Err(error) => (process_id is None || process_id->0 > i32::MAX) && error
                    == ProcessError::NoProcessId,
            },
            final(self).rows == old(self).rows,
            final(self).cols == old(self).cols,
    {
        match Process::new(process_id, process_group) {
            Ok(process) => {
                self.process = Some(process);
                self.step = StartStep::CloneReader;
                Ok(())
            },
            Err(error) => {
                self.step = StartStep::KillChild;
                Err(error)
            },
        }
    }

    /// Notes whether the child was put into a job of its own, and into which.
    pub fn contained(&mut self, job: Option<String>)
        requires
            old(self).wf(),
            old(self).step == StartStep::IdentifyChild,
        ensures
            final(self).wf(),
            final(self).step == StartStep::IdentifyChild.next(job is Some),
            job matches Some(name) ==> final(self).process is Some && final(self).process->0@
                == (ProcessLocator::WindowsJob { name }),
            final(self).rows == old(self).rows,
            final(self).cols == old(self).cols,
    {
        match job {
            Some(name) => {
                self.process = Some(Process::of_job(name));
                self.step = StartStep::CloneReader;
            },
            None => {
                self.step = StartStep::KillChild;
            },
        }
    }

    /// Sets the session up, once both ends of the terminal are there.
    pub fn set_up(&mut self, now: Nanos, since_epoch: Option<u64>) -> (session: Session)
        requires
            old(self).wf(),
            old(self).step == StartStep::TakeWriter,
        ensures
            final(self).wf(),
            final(self).step == StartStep::TakeWriter.next(true),
            final(self).rows == old(self).rows,
            final(self).cols == old(self).cols,
            session.wf(),
            session.fresh(
                old(self).rows,
                old(self).cols,
                old(self).process->0@,
                now,
                epoch_ms(since_epoch),
            ),
    {
        self.step = StartStep::StartWriter;
        let process = self.process.take().unwrap();
        Session::new(self.rows, self.cols, process, now, since_epoch)
    }

    /// Notes whether any other step succeeded, and says what comes next.
    pub fn proceed(&mut self, ok: bool) -> (step: StartStep)
        requires
            old(self).wf(),
            old(self).step != StartStep::IdentifyChild,
            old(self).step == StartStep::TakeWriter ==> !ok,
        ensures
            final(self).wf(),
            step == old(self).step.next(ok),
            *final(self) == (Startup { step, ..*old(self) }),
    {
        self.step = self.step.after(ok);
        self.step
    }
}

impl Session {
    /// Begins to start a session; refused where the program or the size is missing.
    pub fn start(spec: &StartSpec) -> (r: Result<Startup, StartError>)
        ensures
            match r {
                Ok(startup) => {
                    &&& spec.program@.len() > 0 && spec.rows > 0 && spec.cols > 0
                    &&& startup.wf()
                    &&& startup == (Startup {
                        step: StartStep::OpenTerminal,
                        rows: spec.rows,
                        cols: spec.cols,
                        process: None,
                    })
                },
                Err(error) => {
                    &&& spec.program@.len() == 0 || spec.rows == 0 || spec.cols == 0
                    &&& error == StartError::Incomplete
                },
            },
    {
        if spec.program.as_str().is_empty() || spec.rows == 0 || spec.cols == 0 {
            return Err(StartError::Incomplete);
        }
        Ok(
            Startup {
                step: StartStep::OpenTerminal,
                rows: spec.rows,
                cols: spec.cols,
                process: None,
            },
        )
    }

    /// Notes whether a worker could be started. The session runs once those that move bytes do; it
    /// is stopped, by the signal that is returned, where one could not be started.
    pub fn worker_started(&mut self, step: StartStep, ok: bool) -> (signal: Option<
        Result<Kill, ProcessError>,
    >)
        requires
            old(self).wf(),
            step.starts_worker(),
            old(self).snapshot.state != SessionState::Finished,
        ensures
            final(self).wf(),
            ok ==> signal is None && *final(self) == if step == StartStep::StartReader {
                old(self).running()
            } else {
                *old(self)
            },
            !ok && old(self).beyond_stopping() ==> signal is None && *final(self) == *old(self),
            !ok && !old(self).beyond_stopping() ==> signal == Some(
                kill_of(old(self).process@, true),
            ) && *final(self) == old(self).stopped(FinishReason::Shutdown, None),
    {
        if !ok {
            return self.stop(FinishReason::Shutdown, true, None);
        }
        if step == StartStep::StartReader {
            self.snapshot.state = SessionState::Running;
        }
        None
    }
}

/// The step that a start-up is at after steps with the given outcomes.
pub open spec fn step_after(outcomes: Seq<bool>) -> StartStep
    decreases outcomes.len(),
{
    if outcomes.len() == 0 {
        StartStep::OpenTerminal
    } else {
        step_after(outcomes.drop_last()).next(outcomes.last())
    }
}

/// Whether a child was spawned on the way.
pub open spec fn spawned(outcomes: Seq<bool>) -> bool
    decreases outcomes.len(),
{
    outcomes.len() > 0 && (spawned(outcomes.drop_last()) || (step_after(outcomes.drop_last())
        == StartStep::SpawnChild && outcomes.last()))
}

/// Whether the child was waited for on the way.
pub open spec fn reaped(outcomes: Seq<bool>) -> bool
    decreases outcomes.len(),
{
    outcomes.len() > 0 && (reaped(outcomes.drop_last()) || step_after(outcomes.drop_last())
        == StartStep::ReapChild)
}

/// Whatever fails, a start that failed has waited for the child that it spawned, if it spawned
/// one, and a start that succeeded has spawned a child and not waited for it.
pub proof fn law_failed_start_leaves_no_child(outcomes: Seq<bool>)
    ensures
        step_after(outcomes) == StartStep::Failed ==> (spawned(outcomes) <==> reaped(outcomes)),
        step_after(outcomes) == StartStep::Ready ==> spawned(outcomes) && !reaped(outcomes),
    decreases outcomes.len(),
{
    lemma_child_so_far(outcomes);
}

proof fn lemma_child_so_far(outcomes: Seq<bool>)
    ensures
        match step_after(outcomes) {
            StartStep::OpenTerminal | StartStep::SpawnChild => !spawned(outcomes) && !reaped(
                outcomes,
            ),
            StartStep::Failed => spawned(outcomes) == reaped(outcomes),
            _ => spawned(outcomes) && !reaped(outcomes),
        },
    decreases outcomes.len(),
{
    if outcomes.len() > 0 {
        lemma_child_so_far(outcomes.drop_last());
    }
}

/// How many steps a start-up takes at most from the given one on.
pub open spec fn steps_left(step: StartStep) -> nat {
    match step {
        StartStep::OpenTerminal => 11,
        StartStep::SpawnChild => 10,
        StartStep::IdentifyChild => 9,
        StartStep::CloneReader => 8,
        StartStep::TakeWriter => 7,
        StartStep::StartWriter => 6,
        StartStep::StartReader => 5,
        StartStep::StartSupervisor => 4,
        StartStep::StopChild => 3,
        StartStep::KillChild => 2,
        StartStep::CloseIo => 2,
        StartStep::ReapChild => 1,
        StartStep::Ready => 0,
        StartStep::Failed => 0,
    }
}

/// A start-up comes to an end: after eleven steps at most it has succeeded or failed.
pub proof fn law_start_comes_to_an_end(outcomes: Seq<bool>)
    ensures
        outcomes.len() >= 11 ==> step_after(outcomes) == StartStep::Ready || step_after(outcomes)
            == StartStep::Failed,
        steps_left(step_after(outcomes)) == 0 || steps_left(step_after(outcomes)) + outcomes.len()
            <= 11,
    decreases outcomes.len(),
{
    if outcomes.len() > 0 {
        law_start_comes_to_an_end(outcomes.drop_last());
    }
}

/// A session that was just set up is starting, has no end and is not ending, retains a mebibyte of
/// output of which there is none, and is in its first interaction, which begins with it.
pub proof fn law_sessions_begin_with_nothing(
    session: Session,
    rows: u16,
    cols: u16,
    locator: ProcessLocator,
    now: Nanos,
    created_at_ms: u64,
)
    requires
        session.fresh(rows, cols, locator, now, created_at_ms),
    ensures
        session.snapshot.state is Starting,
        session.snapshot.termination is None && session.requested is None,
        !session.snapshot.ending,
        session.open,
        session.active_write is None,
        session.snapshot.rows == rows && session.snapshot.cols == cols,
        size_after(session.screen@) == (rows, cols),
        session.snapshot.created_at_ms == created_at_ms,
        session.snapshot.last_output_at_ms is None && session.snapshot.last_input_at_ms is None,
        session.output@.len() == 0 && session.output.end() == 0,
        session.output.capacity() == 1024 * 1024,
        session.snapshot.activity.interaction_id == 1,
        session.snapshot.activity.interaction_at == now,
        session.snapshot.activity.interaction_cursor == session.output.end(),
        session.snapshot.activity.output_seq == 0,
        session.snapshot.activity.interaction_output_seq
            == session.snapshot.activity.output_seq,
        session.snapshot.activity.last_output_at is None,
        session.snapshot.activity.pending_inputs == 0,
        session.process@ == locator,
        !session.beyond_stopping(),
{
    assert(session.screen@.last() == session.screen@[0]);
}

/// A request to stop finds something to do unless the session has finished, or is ending without
/// anyone having asked for it, because its child exited.
pub proof fn law_what_can_be_stopped(session: Session)
    requires
        session.wf(),
    ensures
        session.snapshot.state is Finished ==> session.beyond_stopping(),
        !session.snapshot.ending ==> !session.beyond_stopping(),
        session.requested is Some ==> !session.beyond_stopping(),
        session.snapshot.ending && session.requested is None ==> session.beyond_stopping(),
{
}

/// A stop is noted and touches nothing else: not the output, the screen, the child, the queue of
/// inputs or the rest of what is reported. It is not yet the end.
pub proof fn law_stopping_touches_nothing_else(
    session: Session,
    reason: FinishReason,
    message: Option<String>,
)
    ensures
        ({
            let stopped = session.stopped(reason, message);
            &&& stopped.snapshot.ending
            &&& stopped.snapshot == (Snapshot { ending: true, ..session.snapshot })
            &&& stopped.snapshot.state == session.snapshot.state
            &&& stopped.snapshot.termination == session.snapshot.termination
            &&& stopped.output == session.output
            &&& stopped.screen == session.screen
            &&& stopped.active_write == session.active_write
            &&& stopped.process == session.process
            &&& stopped.open == session.open
            &&& session.requested is Some ==> stopped.requested == session.requested
            &&& session.requested is None ==> stopped.requested is Some
                && stopped.requested->0.reason == reason && stopped.requested->0.message == message
                && stopped.requested->0.exit_code is None
        }),
{
}

/// Output counts once as activity at the time it came, and leaves the interaction, the size and the
/// state alone.
pub proof fn law_output_is_activity(session: Session, now: Nanos, since_epoch: Option<u64>)
    requires
        session.snapshot.activity.output_seq < u64::MAX,
    ensures
        ({
            let (before, after) = (session.snapshot, session.active(now, since_epoch));
            &&& after.activity.output_seq == before.activity.output_seq + 1
            &&& after.activity.last_output_at == Some(now)
            &&& after.last_output_at_ms is Some
            &&& since_epoch matches Some(nanos) ==> after.last_output_at_ms->0 * 1_000_000 <= nanos
                < (after.last_output_at_ms->0 + 1) * 1_000_000
            &&& since_epoch is None ==> after.last_output_at_ms->0 == 0
            &&& after.activity.interaction_id == before.activity.interaction_id
            &&& after.activity.interaction_at == before.activity.interaction_at
            &&& after.activity.interaction_cursor == before.activity.interaction_cursor
            &&& after.activity.interaction_output_seq == before.activity.interaction_output_seq
            &&& after.activity.pending_inputs == before.activity.pending_inputs
            &&& after.state == before.state && after.termination == before.termination
            &&& after.ending == before.ending
            &&& after.rows == before.rows && after.cols == before.cols
            &&& after.created_at_ms == before.created_at_ms
            &&& after.last_input_at_ms == before.last_input_at_ms
        }),
{
}

/// A session that runs differs from one that starts in its state alone.
pub proof fn law_running_changes_the_state_alone(session: Session)
    ensures
        session.running().snapshot.state is Running,
        session.running().snapshot == (Snapshot {
            state: SessionState::Running,
            ..session.snapshot
        }),
        session.running().output == session.output,
        session.running().screen == session.screen,
        session.running().requested == session.requested,
        session.running().active_write == session.active_write,
        session.running().process == session.process,
        session.running().open == session.open,
{
}

/// A start takes its steps in one order: a terminal, a child in it, who the child is, both ends of
/// the terminal, then the workers, of which the writer is first and the supervisor last.
pub proof fn law_starts_take_their_steps_in_order()
    ensures
        step_after(Seq::empty()) is OpenTerminal,
        StartStep::OpenTerminal.next(true) is SpawnChild,
        StartStep::SpawnChild.next(true) is IdentifyChild,
        StartStep::IdentifyChild.next(true) is CloneReader,
        StartStep::CloneReader.next(true) is TakeWriter,
        StartStep::TakeWriter.next(true) is StartWriter,
        StartStep::StartWriter.next(true) is StartReader,
        StartStep::StartReader.next(true) is StartSupervisor,
        StartStep::StartSupervisor.next(true) is Ready,
{
}

/// A start that fails cleans up what there is, whatever its steps return. Without a child there is
/// nothing to clean up. A child that no session was set up around is killed and waited for. One with
/// a session is stopped, its terminal let go, and it is waited for.
pub proof fn law_failed_starts_clean_up(step: StartStep, a: bool, b: bool, c: bool)
    ensures
        step is OpenTerminal || step is SpawnChild ==> step.next(false) is Failed,
        step is IdentifyChild || step is CloneReader || step is TakeWriter ==> {
            &&& step.next(false) is KillChild
            &&& step.next(false).next(a) is ReapChild
            &&& step.next(false).next(a).next(b) is Failed
        },
        step.starts_worker() ==> {
            &&& step.next(false) is StopChild
            &&& step.next(false).next(a) is CloseIo
            &&& step.next(false).next(a).next(b) is ReapChild
            &&& step.next(false).next(a).next(b).next(c) is Failed
        },
        step is Ready || step is Failed ==> step.next(a) == step,
        step.starts_worker() <==> step is StartWriter || step is StartReader || step
            is StartSupervisor,
{
}

/// A terminal can be given any size but none, while the session neither ends nor has ended.
pub proof fn law_when_a_terminal_can_be_resized(
    session: &Session,
    rows: u16,
    cols: u16,
    r: Result<(), ResizeError>,
)
    requires
        call_ensures(Session::resize, (session, rows, cols), r),
    ensures
        r is Ok <==> rows > 0 && cols > 0 && !session.snapshot.ending && session.open,
        rows == 0 || cols == 0 ==> r is Err && r->Err_0 is ZeroSize,
        rows > 0 && cols > 0 && session.snapshot.ending ==> r is Err && r->Err_0 is Ending,
        rows > 0 && cols > 0 && !session.snapshot.ending && !session.open ==> r is Err && r->Err_0
            is Finished,
{
}

/// A start is refused exactly where there is no program, no row or no column, and otherwise begins by
/// opening a terminal of the size asked for.
pub proof fn law_which_starts_are_refused(spec: &StartSpec, r: Result<Startup, StartError>)
    requires
        call_ensures(Session::start, (spec,), r),
    ensures
        r is Err <==> spec.program@.len() == 0 || spec.rows == 0 || spec.cols == 0,
        r matches Ok(startup) ==> startup.step is OpenTerminal && startup.rows == spec.rows
            && startup.cols == spec.cols && startup.process is None,
{
}

/// What is reported of a session is its own state with the range of output that it retains, and how
/// it ended where it has.
pub proof fn law_what_is_reported_of_a_session(
    session: &Session,
    snapshot: Snapshot,
    end: Option<Termination>,
)
    requires
        session.wf(),
        call_ensures(Session::snapshot, (session,), snapshot),
        call_ensures(Session::wait, (session,), end),
    ensures
        snapshot.retained_start == session.output.start(),
        snapshot.retained_end == session.output.end(),
        snapshot.retained_end - snapshot.retained_start == session.output@.len(),
        snapshot.state == session.snapshot.state,
        snapshot.termination == session.snapshot.termination,
        snapshot.ending == session.snapshot.ending,
        snapshot.activity == session.snapshot.activity,
        snapshot.rows == session.snapshot.rows && snapshot.cols == session.snapshot.cols,
        end == session.snapshot.termination,
        end is Some <==> snapshot.state is Finished,
{
}

/// Every refusal of a size says why.
pub proof fn law_resize_errors_in_words(error: ResizeError, text: String)
    requires
        call_ensures(ResizeError::describe, (error,), text),
    ensures
        error matches ResizeError::ZeroSize ==> text@ == "rows and cols must be greater than zero"@,
        error matches ResizeError::Ending ==> text@ == "session is ending"@,
        error matches ResizeError::Finished ==> text@ == "session is finished"@,
{
}

/// Closing kills the process tree of a session that can be stopped and is its reason to end unless
/// there was one; of any other it changes nothing.
pub proof fn law_closing_kills_the_session()
    ensures
        forall|session: &mut Session, signal: Option<Result<Kill, ProcessError>>|
            #[trigger] call_ensures(Session::close, (session,), signal) && session.wf() ==> {
                &&& session.snapshot.state is Finished ==> signal is None && *final(session)
                    == *session
                &&& !session.snapshot.ending ==> {
                    &&& signal == Some(kill_of(session.process@, true))
                    &&& final(session).snapshot.ending
                    &&& final(session).requested is Some
                    &&& final(session).requested->0.reason is ExplicitClose
                    &&& final(session).requested->0.message is None
                    &&& final(session).snapshot.state == session.snapshot.state
                }
                &&& session.requested is Some ==> final(session).requested == session.requested
                    && signal == Some(kill_of(session.process@, true))
            },
{
}

/// A session runs once its reader does. One of whose workers could not be started is killed.
pub proof fn law_sessions_run_once_they_are_read()
    ensures
        forall|
            session: &mut Session,
            step: StartStep,
            ok: bool,
            signal: Option<Result<Kill, ProcessError>>,
        |
            #[trigger] call_ensures(Session::worker_started, (session, step, ok), signal)
                && session.wf() && !session.snapshot.ending ==> {
                &&& ok ==> signal is None && final(session).snapshot.state == (if step
                    is StartReader {
                    SessionState::Running
                } else {
                    session.snapshot.state
                }) && !final(session).snapshot.ending
                &&& !ok ==> signal == Some(kill_of(session.process@, true)) && final(session).snapshot.ending && final(session).requested is Some && final(session).requested->0.reason is Shutdown
            },
{
}

/// A new size is that of the terminal and of what is reported, and is no activity.
pub proof fn law_resizing_is_no_activity()
    ensures
        forall|session: &mut Session, rows: u16, cols: u16, unit: ()|
            #[trigger] call_ensures(Session::resized, (session, rows, cols), unit) ==> {
                &&& final(session).snapshot.rows == rows && final(session).snapshot.cols == cols
                &&& final(session).screen@.len() > 0 && size_after(final(session).screen@) == (
                    rows,
                    cols,
                )
                &&& final(session).snapshot.activity == session.snapshot.activity
                &&& final(session).snapshot.last_output_at_ms == session.snapshot.last_output_at_ms
                &&& final(session).output == session.output
                &&& final(session).snapshot.state == session.snapshot.state
            },
{
}

/// A start-up goes on from one step to the next by what came of it, and a child that cannot be
/// identified, or not be put into a job, is cleaned up.
pub proof fn law_start_ups_go_on_by_what_came_of_them()
    ensures
        forall|startup: &mut Startup, ok: bool, step: StartStep|
            #[trigger] call_ensures(Startup::proceed, (startup, ok), step) ==> step
                == startup.step.next(ok) && final(startup).step == step && final(startup).process
                == startup.process,
        forall|
            startup: &mut Startup,
            id: Option<u32>,
            group: Option<i32>,
            r: Result<(), ProcessError>,
        |
            #[trigger] call_ensures(Startup::identified, (startup, id, group), r) ==> {
                &&& r is Ok <==> id is Some && id->0 < 0x8000_0000
                &&& r is Ok ==> final(startup).step is CloneReader && final(startup).process is Some
                &&& r is Err ==> final(startup).step is KillChild
            },
        forall|startup: &mut Startup, job: Option<String>, unit: ()|
            #[trigger] call_ensures(Startup::contained, (startup, job), unit) ==> {
                &&& job is Some ==> final(startup).step is CloneReader && final(startup).process
                    is Some
                &&& job is None ==> final(startup).step is KillChild
            },
        forall|startup: &mut Startup, now: Nanos, since_epoch: Option<u64>, session: Session|
            #[trigger] call_ensures(Startup::set_up, (startup, now, since_epoch), session) ==> {
                &&& final(startup).step is StartWriter
                &&& session.snapshot.rows == startup.rows && session.snapshot.cols == startup.cols
                &&& session.snapshot.activity.interaction_at == now
                &&& session.process@ == startup.process->0@
            },
{
}

} // verus!
