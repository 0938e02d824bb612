use pty_bridge::platform::{
    job_opened, signal_outcome, signal_unix, terminate_tree, Host, Kill, Process, ProcessError,
    ProcessLocator,
};
use pty_bridge::reader::{reader_end, Ingested, ReadStop};
use pty_bridge::session::{ResizeError, Session, StartError, StartStep};
use pty_bridge::supervisor::{ChildPoll, Supervisor, WorkerEvent};
use pty_bridge::terminal::TerminalProtocol;
use pty_bridge::types::{
    now_ms, FinishReason, SessionState, StartSpec, WriteFailure, WriteReceipt, MILLISECOND, SECOND,
    WRITE_TIMEOUT,
};
use pty_bridge::writer::{
    Input, PieceWritten, PtyWriter, WriteOutcome, WriteStart, WriterAction, WriterFault, Writing,
};
use std::path::PathBuf;

const NOW: u64 = 50 * SECOND;
const EPOCH: Option<u64> = Some(1_700_000_000_123_456_789);

fn spec() -> StartSpec {
    StartSpec::new(
        "/bin/sh",
        vec!["-c".to_string(), "sleep 30".to_string()],
        PathBuf::from("/"),
    )
}

fn started() -> Session {
    let mut startup = Session::start(&spec()).unwrap();
    assert_eq!(startup.step, StartStep::OpenTerminal);
    assert_eq!(startup.proceed(true), StartStep::SpawnChild);
    assert_eq!(startup.proceed(true), StartStep::IdentifyChild);
    startup.identified(Some(4242), Some(4242)).unwrap();
    assert_eq!(startup.step, StartStep::CloneReader);
    assert_eq!(startup.proceed(true), StartStep::TakeWriter);
    let mut session = startup.set_up(NOW, EPOCH);
    assert_eq!(session.snapshot().state, SessionState::Starting);
    assert!(session.worker_started(StartStep::StartWriter, true).is_none());
    assert_eq!(startup.proceed(true), StartStep::StartReader);
    assert!(session.worker_started(StartStep::StartReader, true).is_none());
    assert_eq!(startup.proceed(true), StartStep::StartSupervisor);
    assert!(session.worker_started(StartStep::StartSupervisor, true).is_none());
    assert_eq!(startup.proceed(true), StartStep::Ready);
    session
}

fn output(session: &mut Session, protocol: &mut TerminalProtocol, bytes: &[u8], now: u64) -> Option<Input> {
    let chunks = protocol.process(bytes);
    match session.ingest(chunks, now, EPOCH) {
        Ingested::Taken(reply) => reply,
        Ingested::Stuck => panic!("stuck"),
    }
}

const KILLED: Kill = Kill::Signal { target: -4242, force: true };

#[test]
fn a_started_session_runs_with_its_first_interaction() {
    let session = started();
    let snapshot = session.snapshot();
    assert_eq!(snapshot.state, SessionState::Running);
    assert_eq!((snapshot.rows, snapshot.cols), (24, 80));
    assert_eq!(snapshot.created_at_ms, 1_700_000_000_123);
    assert_eq!(snapshot.activity.interaction_id, 1);
    assert_eq!(snapshot.activity.interaction_at, NOW);
    assert_eq!((snapshot.retained_start, snapshot.retained_end), (0, 0));
    assert!(!snapshot.ending);
    assert!(snapshot.termination.is_none());
    assert!(session.wait().is_none());
    assert_eq!(
        session.process_locator(),
        ProcessLocator::Unix {
            process_id: 4242,
            process_group: Some(4242)
        }
    );
}

#[test]
fn starts_without_program_or_size_are_refused() {
    let mut missing = spec();
    missing.program = String::new();
    let error = Session::start(&missing).err().unwrap();
    assert_eq!(error, StartError::Incomplete);
    assert_eq!(
        error.describe(),
        "program and nonzero terminal dimensions are required"
    );
    let mut flat = spec();
    flat.rows = 0;
    assert!(Session::start(&flat).is_err());
    let mut thin = spec();
    thin.cols = 0;
    assert!(Session::start(&thin).is_err());
}

#[test]
fn failed_starts_reap_the_child_they_spawned() {
    let mut startup = Session::start(&spec()).unwrap();
    assert_eq!(startup.proceed(false), StartStep::Failed);

    let mut startup = Session::start(&spec()).unwrap();
    startup.proceed(true);
    assert_eq!(startup.proceed(false), StartStep::Failed);

    let mut startup = Session::start(&spec()).unwrap();
    startup.proceed(true);
    startup.proceed(true);
    assert_eq!(
        startup.identified(None, None).unwrap_err(),
        ProcessError::NoProcessId
    );
    assert_eq!(startup.step, StartStep::KillChild);
    assert_eq!(startup.proceed(true), StartStep::ReapChild);
    assert_eq!(startup.proceed(true), StartStep::Failed);

    let mut startup = Session::start(&spec()).unwrap();
    startup.proceed(true);
    startup.proceed(true);
    startup.identified(Some(7), None).unwrap();
    startup.proceed(true);
    let mut session = startup.set_up(NOW, None);
    let signal = session.worker_started(StartStep::StartWriter, false);
    assert_eq!(signal, Some(Ok(Kill::Signal { target: 7, force: true })));
    assert!(session.snapshot().ending);
    assert_eq!(startup.proceed(false), StartStep::StopChild);
    assert_eq!(startup.proceed(false), StartStep::CloseIo);
    session.shutdown_io();
    assert!(!session.open);
    assert_eq!(startup.proceed(false), StartStep::ReapChild);
    assert_eq!(startup.proceed(false), StartStep::Failed);
}

#[test]
fn process_trees_are_signalled_by_group_or_root() {
    let group = ProcessLocator::Unix { process_id: 5, process_group: Some(9) };
    assert_eq!(signal_unix(&group, false), Ok(Kill::Signal { target: -9, force: false }));
    let root = ProcessLocator::Unix { process_id: 5, process_group: Some(0) };
    assert_eq!(terminate_tree(Host::Unix, &root), Ok(Kill::Signal { target: 5, force: true }));
    let nobody = ProcessLocator::Unix { process_id: 0, process_group: None };
    assert_eq!(signal_unix(&nobody, true), Err(ProcessError::InvalidLocator));
    let job = ProcessLocator::WindowsJob { name: "Local\\x".to_string() };
    assert_eq!(terminate_tree(Host::Unix, &job), Err(ProcessError::WrongPlatform));
    assert_eq!(signal_unix(&job, true), Err(ProcessError::WrongPlatform));
    assert_eq!(signal_outcome(Ok(())), Ok(()));
    assert_eq!(signal_outcome(Err(Some(3))), Ok(()));
    let refused = signal_outcome(Err(Some(1)));
    assert_eq!(refused, Err(ProcessError::Signal(Some(1))));
    assert_eq!(refused.unwrap_err().describe(), "signal PTY process tree");
    assert_eq!(ProcessError::WrongPlatform.describe(), "wrong platform locator");
    assert_eq!(ProcessError::InvalidLocator.describe(), "invalid process locator");
    assert_eq!(
        Process::new(Some(0x8000_0000), None).unwrap_err().describe(),
        "PTY child has no process id"
    );
}

#[test]
fn jobs_are_ended_on_windows() {
    let name = "Local\\pty-core-x".to_string();
    let job = ProcessLocator::WindowsJob { name: name.clone() };
    assert_eq!(terminate_tree(Host::Windows, &job), Ok(Kill::Job { name: name.clone() }));
    let root = ProcessLocator::Unix { process_id: 5, process_group: None };
    assert_eq!(terminate_tree(Host::Windows, &root), Err(ProcessError::WrongPlatform));
    let process = Process::of_job(name.clone());
    assert_eq!(process.locator(), job);
    assert_eq!(process.signal(false), Ok(Kill::Job { name: name.clone() }));
    assert_eq!(job_opened(Ok(())), Ok(true));
    assert_eq!(job_opened(Err(Some(2))), Ok(false));
    let refused = job_opened(Err(Some(5))).unwrap_err();
    assert_eq!(refused, ProcessError::OpenJob(Some(5)));
    assert_eq!(refused.describe(), "open PTY job");
    assert_eq!(ProcessError::EndJob(None).describe(), "terminate PTY job");

    let spec = StartSpec::new("cmd.exe", vec![], std::path::PathBuf::from("/"));
    let mut startup = Session::start(&spec).unwrap();
    startup.proceed(true);
    startup.proceed(true);
    startup.contained(Some(name.clone()));
    assert_eq!(startup.step, StartStep::CloneReader);
    startup.proceed(true);
    let mut session = startup.set_up(NOW, EPOCH);
    assert_eq!(session.process_locator(), job);
    assert_eq!(session.close(), Some(Ok(Kill::Job { name })));

    let mut startup = Session::start(&spec).unwrap();
    startup.proceed(true);
    startup.proceed(true);
    startup.contained(None);
    assert_eq!(startup.step, StartStep::KillChild);
}

#[test]
fn the_first_reason_to_stop_wins_and_closing_twice_is_closing_once() {
    let mut session = started();
    assert_eq!(session.close(), Some(Ok(KILLED)));
    assert_eq!(
        session.stop(FinishReason::Killed, false, None),
        Some(Ok(Kill::Signal { target: -4242, force: false }))
    );
    let mut supervisor = Supervisor::new();
    assert!(supervisor.polls());
    let action = supervisor.on_poll(&mut session, ChildPoll::Exited(137), NOW + SECOND);
    assert!(action.changed && !action.reap);
    assert_eq!(action.signal, Some(Ok(KILLED)));
    assert!(!supervisor.polls());
    assert!(!supervisor.finish(&mut session, NOW + SECOND));
    supervisor.on_event(WorkerEvent::ReaderEnded(None), NOW + SECOND);
    supervisor.on_event(WorkerEvent::WriterEnded, NOW + SECOND);
    assert!(supervisor.finish(&mut session, NOW + SECOND));
    let end = session.wait().unwrap();
    assert_eq!(end.reason, FinishReason::ExplicitClose);
    assert_eq!(end.exit_code, Some(137));
    assert!(end.message.is_none());
    assert_eq!(session.close(), None);
    assert_eq!(session.wait().unwrap().reason, FinishReason::ExplicitClose);
    assert_eq!(session.snapshot().state, SessionState::Finished);
}

#[test]
fn children_that_exit_by_themselves_end_naturally() {
    let mut session = started();
    let mut supervisor = Supervisor::new();
    supervisor.on_poll(&mut session, ChildPoll::Running, NOW);
    assert!(supervisor.polls());
    supervisor.on_poll(&mut session, ChildPoll::Exited(7), NOW);
    // A stop that comes too late changes nothing.
    assert_eq!(session.close(), None);
    supervisor.on_event(WorkerEvent::WriterEnded, NOW);
    supervisor.on_event(WorkerEvent::ReaderEnded(None), NOW);
    assert!(supervisor.finish(&mut session, NOW));
    let end = session.wait().unwrap();
    assert_eq!(end.reason, FinishReason::NaturalExit);
    assert_eq!(end.exit_code, Some(7));
}

#[test]
fn workers_that_do_not_drain_are_a_fault() {
    let mut session = started();
    let mut supervisor = Supervisor::new();
    supervisor.on_poll(&mut session, ChildPoll::Exited(0), NOW);
    supervisor.on_event(WorkerEvent::ReaderEnded(None), NOW);
    assert!(!supervisor.finish(&mut session, NOW + 2 * SECOND - 1));
    assert!(supervisor.finish(&mut session, NOW + 2 * SECOND));
    let end = session.wait().unwrap();
    assert_eq!(end.reason, FinishReason::ReaderFailed);
    assert_eq!(end.exit_code, Some(0));
    assert_eq!(
        end.message.as_deref(),
        Some("PTY workers exceeded drain deadline")
    );
}

#[test]
fn a_reader_that_fails_ends_a_live_child_at_once() {
    let mut session = started();
    let mut supervisor = Supervisor::new();
    supervisor.on_event(
        WorkerEvent::ReaderEnded(Some("injected read failure".to_string())),
        NOW,
    );
    assert_eq!(supervisor.check_reader(&mut session, NOW), Some(Ok(KILLED)));
    supervisor.on_poll(&mut session, ChildPoll::Exited(9), NOW);
    supervisor.on_event(WorkerEvent::WriterEnded, NOW);
    assert!(supervisor.finish(&mut session, NOW));
    let end = session.wait().unwrap();
    assert_eq!(end.reason, FinishReason::ReaderFailed);
    assert_eq!(end.message.as_deref(), Some("injected read failure"));
}

#[test]
fn a_closed_output_channel_is_tolerated_for_a_moment() {
    let mut session = started();
    let mut supervisor = Supervisor::new();
    supervisor.on_event(WorkerEvent::ReaderEnded(None), NOW);
    assert_eq!(
        supervisor.check_reader(&mut session, NOW + 99 * MILLISECOND),
        None
    );
    assert!(supervisor
        .check_reader(&mut session, NOW + 100 * MILLISECOND)
        .is_some());
    assert_eq!(
        session.requested.unwrap().message.as_deref(),
        Some("output channel closed while child is alive")
    );
}

#[test]
fn a_child_whose_state_is_unknown_is_killed_and_reaped() {
    let mut session = started();
    let mut supervisor = Supervisor::new();
    let action = supervisor.on_poll(&mut session, ChildPoll::Failed("wait broke".to_string()), NOW);
    assert!(action.changed && action.reap);
    assert_eq!(action.signal, Some(Ok(KILLED)));
    supervisor.on_reaped(&mut session, NOW);
    assert!(!session.open);
    assert!(supervisor.finish(&mut session, NOW + 5 * SECOND));
    let end = session.wait().unwrap();
    assert_eq!(end.reason, FinishReason::WaitFailed);
    assert_eq!(end.exit_code, None);
    assert_eq!(end.message.as_deref(), Some("wait broke"));
}

#[test]
fn inputs_are_written_in_pieces_and_confirmed() {
    let mut session = started();
    let mut protocol = TerminalProtocol::default();
    output(&mut session, &mut protocol, b"ready", NOW);
    let bytes = vec![b'x'; 5000];
    let start = PtyWriter::write(&mut session, bytes, NOW + 1);
    let input = match start {
        WriteStart::Queue(input) => input,
        WriteStart::Answered(_) => panic!("not queued"),
    };
    assert!(input.user);
    assert_eq!(input.deadline, NOW + 1 + WRITE_TIMEOUT);
    assert_eq!(session.snapshot().activity.pending_inputs, 1);
    assert!(PtyWriter::queued(&mut session, true).is_none());
    let mut writing = Writing::begin(&mut session, input).unwrap();
    assert_eq!(session.active_write, Some(NOW + 1 + WRITE_TIMEOUT));
    // Output during the write belongs to the new interaction.
    output(&mut session, &mut protocol, b"echo", NOW + 2);
    match writing.next(false, NOW + 3) {
        WriterAction::Write { start, end } => assert_eq!((start, end), (0, 4096)),
        other => panic!("{other:?}"),
    }
    assert!(writing.on_piece(PieceWritten::Wrote(4096)).is_none());
    assert!(writing.on_piece(PieceWritten::Interrupted).is_none());
    match writing.next(false, NOW + 3) {
        WriterAction::Write { start, end } => assert_eq!((start, end), (4096, 5000)),
        other => panic!("{other:?}"),
    }
    assert!(writing.on_piece(PieceWritten::Wrote(904)).is_none());
    assert!(matches!(writing.next(true, NOW + SECOND * 60), WriterAction::Flush));
    let (answer, signal) = writing.settle(&mut session, None, NOW + 4, EPOCH);
    assert!(signal.is_none());
    let receipt = answer.unwrap();
    assert_eq!((receipt.bytes_written, receipt.interaction_id), (5000, 2));
    let snapshot = session.snapshot();
    assert_eq!(snapshot.activity.interaction_id, 2);
    assert_eq!(snapshot.activity.interaction_at, NOW + 4);
    assert_eq!(snapshot.activity.interaction_cursor, 5);
    assert_eq!(snapshot.activity.interaction_output_seq, 1);
    assert_eq!(snapshot.activity.output_seq, 2);
    assert_eq!(snapshot.activity.pending_inputs, 0);
    assert_eq!(snapshot.last_input_at_ms, Some(1_700_000_000_123));
    assert_eq!(session.active_write, None);
}

#[test]
fn a_partial_write_reports_confirmed_bytes_and_stops_the_session() {
    let mut session = started();
    let input = match PtyWriter::write(&mut session, b"abcdef".to_vec(), NOW) {
        WriteStart::Queue(input) => input,
        WriteStart::Answered(_) => panic!("not queued"),
    };
    let mut writing = Writing::begin(&mut session, input).unwrap();
    assert!(writing.on_piece(PieceWritten::Wrote(2)).is_none());
    let fault = writing.on_piece(PieceWritten::Failed(WriterFault {
        timed_out: false,
        message: "injected write failure".to_string(),
    }));
    let (answer, signal) = writing.settle(&mut session, fault, NOW, EPOCH);
    let failure = answer.unwrap_err();
    assert_eq!(failure.bytes_written, 2);
    assert!(!failure.delivery_uncertain);
    assert_eq!(
        failure.describe(),
        "injected write failure; confirmed bytes written=2, delivery uncertain=false"
    );
    assert_eq!(signal, Some(Ok(KILLED)));
    assert_eq!(session.requested.as_ref().unwrap().reason, FinishReason::WriterFailed);
    assert_eq!(session.snapshot().activity.interaction_id, 1);
    assert_eq!(session.snapshot().activity.pending_inputs, 0);
}

#[test]
fn writers_give_up_at_the_deadline_or_when_the_session_ends() {
    let writing = Writing {
        input: Input { bytes: b"abc".to_vec(), user: true, deadline: NOW },
        written: 1,
        output_seq: 0,
        cursor: 0,
    };
    match writing.next(true, NOW) {
        WriterAction::GiveUp(fault) => {
            assert!(fault.timed_out);
            assert_eq!(fault.message, "write deadline exceeded");
        }
        other => panic!("{other:?}"),
    }
    match writing.next(true, NOW - 1) {
        WriterAction::GiveUp(fault) => {
            assert!(!fault.timed_out);
            assert_eq!(fault.message, "session is ending");
        }
        other => panic!("{other:?}"),
    }
    let mut stuck = writing;
    let fault = stuck.on_piece(PieceWritten::Wrote(0)).unwrap();
    assert_eq!(fault.message, "write zero");
    let mut session = started();
    session.snapshot.activity.pending_inputs = 1;
    let late = Some(WriterFault { timed_out: true, message: "late".to_string() });
    let _ = stuck.settle(&mut session, late, NOW, None);
    assert_eq!(session.requested.unwrap().reason, FinishReason::WriteTimeout);
}

#[test]
fn empty_and_refused_inputs_leave_no_trace() {
    let mut session = started();
    match PtyWriter::write(&mut session, Vec::new(), NOW) {
        WriteStart::Answered(answer) => {
            let receipt = answer.unwrap();
            assert_eq!((receipt.bytes_written, receipt.interaction_id), (0, 1));
        }
        WriteStart::Queue(_) => panic!("queued"),
    }
    assert!(matches!(
        PtyWriter::write(&mut session, b"x".to_vec(), NOW),
        WriteStart::Queue(_)
    ));
    let failure = PtyWriter::queued(&mut session, false).unwrap();
    assert_eq!(failure.message, "writer queue is full or closed");
    assert_eq!(session.snapshot().activity.pending_inputs, 0);
    session.close();
    match PtyWriter::write(&mut session, b"x".to_vec(), NOW) {
        WriteStart::Answered(answer) => {
            assert_eq!(answer.unwrap_err().message, "session is not writable")
        }
        WriteStart::Queue(_) => panic!("queued"),
    }
    assert!(Writing::begin(
        &mut session,
        Input { bytes: b"x".to_vec(), user: false, deadline: NOW }
    )
    .is_none());
}

#[test]
fn unanswered_inputs_are_uncertain() {
    let mut session = started();
    let receipt = WriteReceipt { bytes_written: 3, interaction_id: 2 };
    let (answer, signal) = PtyWriter::conclude(&mut session, WriteOutcome::Answered(Ok(receipt)), 0);
    assert_eq!(answer.unwrap().bytes_written, 3);
    assert!(signal.is_none());
    let known = WriteFailure {
        bytes_written: 1,
        delivery_uncertain: false,
        message: "known".to_string(),
    };
    let (answer, _) = PtyWriter::conclude(&mut session, WriteOutcome::Answered(Err(known)), 0);
    assert_eq!(answer.unwrap_err().message, "known");
    let (answer, signal) = PtyWriter::conclude(&mut session, WriteOutcome::WriterStopped, 4);
    let failure = answer.unwrap_err();
    assert!(failure.delivery_uncertain && signal.is_none());
    assert_eq!(failure.bytes_written, 4);
    assert_eq!(failure.message, "writer stopped before acknowledging input");
    let (answer, _) = PtyWriter::conclude(&mut session, WriteOutcome::Finished, 5);
    assert_eq!(
        answer.unwrap_err().message,
        "session finished before acknowledging input"
    );
    assert!(!session.snapshot().ending);
    let (answer, signal) = PtyWriter::conclude(&mut session, WriteOutcome::TimedOut, 6);
    assert_eq!(
        answer.unwrap_err().message,
        "input write deadline exceeded; do not retry automatically"
    );
    assert_eq!(signal, Some(Ok(KILLED)));
    let requested = session.requested.unwrap();
    assert_eq!(requested.reason, FinishReason::WriteTimeout);
    assert_eq!(requested.message.as_deref(), Some("input write deadline exceeded"));
}

#[test]
fn blocked_inputs_time_out() {
    let mut session = started();
    let supervisor = Supervisor::new();
    assert!(supervisor.check_write(&mut session, NOW).is_none());
    session.active_write = Some(NOW + 10);
    assert!(supervisor.check_write(&mut session, NOW + 9).is_none());
    assert_eq!(
        supervisor.check_write(&mut session, NOW + 10),
        Some(Ok(KILLED))
    );
    assert_eq!(
        session.requested.unwrap().message.as_deref(),
        Some("writer deadline exceeded")
    );
}

#[test]
fn resizing_does_not_touch_activity() {
    let mut session = started();
    let before = session.snapshot().activity;
    assert_eq!(session.resize(0, 10), Err(ResizeError::ZeroSize));
    assert_eq!(session.resize(30, 100), Ok(()));
    session.resized(30, 100);
    let after = session.snapshot();
    assert_eq!((after.rows, after.cols), (30, 100));
    assert_eq!(session.screen.size(), (30, 100));
    assert_eq!(after.activity.interaction_id, before.interaction_id);
    assert_eq!(after.activity.interaction_at, before.interaction_at);
    session.shutdown_io();
    let closed = session.resize(1, 1).unwrap_err();
    assert_eq!(closed.describe(), "session is finished");
    session.close();
    let ending = session.resize(1, 1).unwrap_err();
    assert_eq!(ending.describe(), "session is ending");
    assert_eq!(
        ResizeError::ZeroSize.describe(),
        "rows and cols must be greater than zero"
    );
}

#[test]
fn queries_are_answered_from_the_screen_and_are_no_interaction() {
    let mut session = started();
    let mut protocol = TerminalProtocol::default();
    let reply = output(&mut session, &mut protocol, b"\n\nabc\x1b[6n\x1b[c", NOW).unwrap();
    assert_eq!(reply.bytes, b"\x1b[3;4R\x1b[?1;2c");
    assert!(!reply.user);
    assert_eq!(reply.deadline, NOW + WRITE_TIMEOUT);
    let snapshot = session.snapshot();
    assert_eq!(snapshot.activity.output_seq, 1);
    assert_eq!(snapshot.activity.last_output_at, Some(NOW));
    assert_eq!(snapshot.last_output_at_ms, Some(1_700_000_000_123));
    assert_eq!(snapshot.retained_end, 5);
    let mut writing = Writing::begin(&mut session, reply).unwrap();
    assert!(writing.on_piece(PieceWritten::Wrote(13)).is_none());
    let (answer, _) = writing.settle(&mut session, None, NOW, EPOCH);
    assert_eq!(answer.unwrap().interaction_id, 1);
    assert_eq!(session.snapshot().activity.interaction_id, 1);
    // Once the session is ending, nobody is answered.
    session.close();
    assert!(output(&mut session, &mut protocol, b"\x1b[5n", NOW).is_none());
    assert_eq!(session.snapshot().activity.output_seq, 2);
}

#[test]
fn arrow_keys_follow_the_mode_of_the_application() {
    let mut session = started();
    let mut protocol = TerminalProtocol::default();
    assert!(!session.application_cursor());
    output(&mut session, &mut protocol, b"\x1b[?1hKEYS_READY", NOW);
    assert!(session.application_cursor());
}

#[test]
fn readers_see_bytes_text_and_screen() {
    let mut session = started();
    let mut protocol = TerminalProtocol::default();
    output(&mut session, &mut protocol, b"one\r\ntwo\r\nthree", NOW);
    let reader = session.reader();
    assert_eq!(reader.read(0, 3).bytes, b"one");
    assert_eq!(reader.screen().lines, vec!["one", "two", "three"]);
    assert_eq!(reader.screen().end_cursor, 15);
    let text = reader.read_text(0, 100);
    assert_eq!(text.text, "one\ntwo\nthree");
    assert_eq!((text.start_cursor, text.next_cursor), (0, 15));
    // A truncated range ends at a line boundary, and the next one goes on there.
    let first = reader.read_text(0, 7);
    assert_eq!(first.text, "one");
    assert_eq!(first.next_cursor, 5);
    let second = reader.read_text(first.next_cursor, 7);
    assert_eq!(second.text, "two");
    assert_eq!((second.start_cursor, second.next_cursor), (5, 10));
    assert_eq!(reader.text_range(0, 2).bytes, b"on");
    assert!(reader.wait_output(14));
    assert!(!reader.wait_output(15));
}

#[test]
fn records_without_activity_keep_the_silence() {
    let mut session = started();
    session.record(false, b"tail", NOW + SECOND, EPOCH);
    let snapshot = session.snapshot();
    assert_eq!(snapshot.activity.output_seq, 0);
    assert_eq!(snapshot.activity.last_output_at, None);
    assert_eq!(snapshot.retained_end, 4);
    session.record(true, b"", NOW + SECOND, None);
    assert_eq!(session.snapshot().activity.output_seq, 1);
    assert_eq!(session.snapshot().last_output_at_ms, Some(0));
}

#[test]
fn readers_end_for_known_reasons() {
    assert_eq!(reader_end(Host::Unix, ReadStop::EndOfOutput), Some(None));
    assert_eq!(reader_end(Host::Unix, ReadStop::Interrupted), None);
    assert_eq!(
        reader_end(Host::Unix, ReadStop::QueueUnavailable),
        Some(Some("terminal response queue unavailable".to_string()))
    );
    assert_eq!(
        reader_end(Host::Unix, ReadStop::Stuck),
        Some(Some("terminal output cannot be drawn".to_string()))
    );
    let gone = ReadStop::Failed { os_error: Some(5), message: "EIO".to_string() };
    assert_eq!(reader_end(Host::Unix, gone), Some(None));
    let denied = ReadStop::Failed { os_error: Some(5), message: "denied".to_string() };
    assert_eq!(reader_end(Host::Windows, denied), Some(Some("denied".to_string())));
    let broken = ReadStop::Failed { os_error: Some(9), message: "EBADF".to_string() };
    assert_eq!(reader_end(Host::Unix, broken), Some(Some("EBADF".to_string())));
}

#[test]
fn states_and_reasons_have_names() {
    assert_eq!(SessionState::Starting.name(), "starting");
    assert_eq!(SessionState::Finished.name(), "finished");
    assert_eq!(FinishReason::OwnerDisconnected.name(), "owner_disconnected");
    assert_eq!(FinishReason::WriteTimeout.name(), "write_timeout");
    assert_eq!(now_ms(Some(2_500_000)), 2);
    assert_eq!(now_ms(None), 0);
}
