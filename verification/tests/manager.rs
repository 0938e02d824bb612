use pty_bridge::control::{
    check_claim, check_handshake, check_heartbeat, check_notified, is_candidate, read_control,
    ControlError, ControlRequest,
};
use pty_bridge::entry::Entry;
use pty_bridge::launch::{
    LaunchStep, MonitorEvent, MonitorStep, MonitorWait, MONITOR_READY_TIMEOUT, MONITOR_RETRY,
};
use pty_bridge::manager::{snapshots_order, Manager, Standing};
use pty_bridge::mcp::ReadMode;
use pty_bridge::observation::{ObservationState, MOST_RECEIPTS};
use pty_bridge::platform::Kill;
use pty_bridge::reader::Ingested;
use pty_bridge::reading::{extract, is_extractable, ReadBody};
use pty_bridge::session::{Session, StartStep};
use pty_bridge::silence::{Candidate, OUTPUT_SILENCE};
use pty_bridge::supervisor::{ChildPoll, Supervisor, WorkerEvent};
use pty_bridge::terminal::TerminalProtocol;
use pty_bridge::types::{FinishReason, SessionState, StartSpec, SECOND};
use pty_bridge::MAX_SESSIONS;
use serde_json::Value;
use std::path::PathBuf;

const NOW: u64 = 50 * SECOND;

fn json(text: &str) -> Value {
    serde_json::from_str(text).unwrap()
}

fn started() -> Session {
    let spec = StartSpec::new("sh", Vec::new(), PathBuf::from("/"));
    let mut startup = Session::start(&spec).unwrap();
    startup.proceed(true);
    startup.proceed(true);
    startup.identified(Some(9), Some(9)).unwrap();
    startup.proceed(true);
    let mut session = startup.set_up(NOW, None);
    session.worker_started(StartStep::StartReader, true);
    session
}

fn output(session: &mut Session, bytes: &[u8], now: u64) {
    let chunks = TerminalProtocol::default().process(bytes);
    assert!(matches!(session.ingest(chunks, now, None), Ingested::Taken(_)));
}

fn finish(session: &mut Session) {
    let mut supervisor = Supervisor::new();
    supervisor.on_poll(session, ChildPoll::Exited(0), NOW);
    supervisor.on_event(WorkerEvent::ReaderEnded(None), NOW);
    supervisor.on_event(WorkerEvent::WriterEnded, NOW);
    assert!(supervisor.finish(session, NOW));
}

fn entry(id: &str, host: &str, link: u64) -> Entry<u32> {
    Entry {
        id: id.to_string(),
        host: host.to_string(),
        link,
        program: "sh".to_string(),
        args: vec!["-c".to_string(), "x".to_string()],
        cwd: "/".to_string(),
        handle: 0,
        observation: ObservationState::default(),
        stop_reason: None,
        waiting: false,
    }
}

fn filled(count: usize) -> Manager<u32> {
    let mut manager = Manager::new(7);
    let link = manager.connected("host");
    for i in 0..count {
        assert!(manager.reserve(&standings(&manager, SessionState::Running)).unwrap().is_none());
        assert!(manager.register(entry(&format!("pty_{i}"), "host", link)).is_ok());
    }
    manager
}

fn standings(manager: &Manager<u32>, state: SessionState) -> Vec<Standing> {
    (0..manager.entries.len())
        .map(|i| Standing { state, created_at_ms: 100 - i as u64 })
        .collect()
}

#[test]
fn servers_have_names_of_their_own() {
    let manager: Manager<u32> = Manager::new(7);
    assert!(manager.instance_id().starts_with("inst_"));
    assert_eq!(manager.port(), 7);
    assert_ne!(manager.instance_id(), Manager::<u32>::new(7).instance_id());
}

#[test]
fn sessions_are_found_by_name() {
    let manager = filled(3);
    assert_eq!(manager.get("pty_1"), Ok(1));
    let unknown = manager.get("pty_9").unwrap_err();
    assert_eq!(unknown, ControlError::UnknownSession);
    assert_eq!(unknown.describe(), "unknown PTY session");
}

#[test]
fn the_limit_is_kept_and_the_oldest_finished_session_makes_room() {
    let mut manager = filled(MAX_SESSIONS);
    let refused = manager.reserve(&standings(&manager, SessionState::Running));
    assert_eq!(refused.err().unwrap().describe(), "PTY session limit reached");
    manager.entries[MAX_SESSIONS - 1].waiting = true;
    let finished = standings(&manager, SessionState::Finished);
    let evicted = manager.reserve(&finished).unwrap().unwrap();
    // The last one was created first, but somebody waits for it.
    assert_eq!(evicted.id, format!("pty_{}", MAX_SESSIONS - 2));
    assert_eq!(manager.entries.len(), MAX_SESSIONS - 1);
    assert_eq!(manager.starting, 1);
    manager.abandon();
    assert_eq!(manager.starting, 0);
    assert_eq!(manager.get("pty_63"), Ok(MAX_SESSIONS - 2));
}

#[test]
fn sessions_without_monitor_or_server_are_handed_back() {
    let mut manager: Manager<u32> = Manager::new(1);
    let link = manager.connected("host");
    manager.reserve(&vec![]).unwrap();
    assert!(manager.monitor_lost(link, vec![]).is_empty());
    assert!(!manager.link_alive(link));
    assert_eq!(manager.register(entry("a", "host", link)).err().unwrap().id, "a");
    assert_eq!(manager.starting, 0);
    let next = manager.connected("host");
    assert_ne!(next, link);
    manager.reserve(&vec![]).unwrap();
    assert!(manager.check_open().is_ok());
    assert!(manager.shutdown(vec![]).is_empty());
    assert_eq!(
        manager.check_open().unwrap_err().describe(),
        "PTY server is shutting down"
    );
    assert!(manager.register(entry("a", "host", next)).is_err());
    assert!(manager.entries.is_empty());
}

#[test]
fn broken_monitors_concern_their_own_sessions_only() {
    let mut manager: Manager<u32> = Manager::new(1);
    let first = manager.connected("one");
    let second = manager.connected("two");
    for (id, host, link) in [("a", "one", first), ("b", "two", second), ("c", "one", first)] {
        let facts = standings(&manager, SessionState::Running);
        manager.reserve(&facts).unwrap();
        assert!(manager.register(entry(id, host, link)).is_ok());
    }
    assert_eq!(manager.owned_by("two"), vec![1]);
    assert_eq!(manager.owned_by("three"), Vec::<usize>::new());
    let mut states = [started(), started(), started()];
    finish(&mut states[2]);
    let signals = manager.monitor_lost(first, states.iter_mut().collect());
    assert_eq!(
        signals,
        vec![Some(Ok(Kill::Signal { target: -9, force: true })), None, None]
    );
    assert_eq!(manager.live_link("one"), None);
    assert_eq!(manager.live_link("two"), Some(second));
    assert!(states[0].snapshot().ending && !states[1].snapshot().ending);
    let reason = manager.entries[0].stop_reason.as_ref().unwrap();
    assert_eq!(reason.0, "monitor_disconnected");
    assert_eq!(reason.1, FinishReason::OwnerDisconnected);
    assert!(manager.entries[1].stop_reason.is_none());
    // A session that finished before was not stopped.
    assert!(manager.entries[2].stop_reason.is_none());
}

#[test]
fn hosts_and_servers_end_their_sessions() {
    let mut manager = filled(3);
    manager.entries[1].host = "other".to_string();
    let mut states = [started(), started(), started()];
    let killed = || Some(Ok(Kill::Signal { target: -9, force: true }));
    let signals = manager.finish_host(
        "other",
        "host_session_ended",
        FinishReason::OwnerEnded,
        states.iter_mut().collect(),
    );
    assert_eq!(signals, vec![None, killed(), None]);
    assert_eq!(manager.entries[1].stop_reason.as_ref().unwrap().0, "host_session_ended");
    assert!(manager.entries[0].stop_reason.is_none());
    assert!(!manager.shutting_down);
    let signals = manager.shutdown(states.iter_mut().collect());
    assert_eq!(signals, vec![killed(), killed(), killed()]);
    assert!(manager.shutting_down);
    assert_eq!(manager.entries[0].stop_reason.as_ref().unwrap().0, "server_shutdown");
    // The first reason stays.
    assert_eq!(manager.entries[1].stop_reason.as_ref().unwrap().0, "host_session_ended");
}

#[test]
fn targets_are_started_only_with_a_monitor_and_a_place() {
    let order = [
        LaunchStep::CheckOpen,
        LaunchStep::ConnectMonitor,
        LaunchStep::Reserve,
        LaunchStep::StartSession,
        LaunchStep::Register,
    ];
    let mut step = order[0];
    for expected in order {
        assert_eq!(step, expected);
        assert_eq!(step.after(false), LaunchStep::Failed);
        step = step.after(true);
    }
    assert_eq!(step, LaunchStep::Done);
    assert_eq!(LaunchStep::Done.after(false), LaunchStep::Done);
    assert_eq!(LaunchStep::Failed.after(true), LaunchStep::Failed);
}

#[test]
fn monitors_are_waited_for_up_to_five_seconds() {
    let wait = MonitorWait::begin(NOW);
    assert_eq!(MONITOR_RETRY, SECOND / 20);
    assert_eq!(wait.deadline(), NOW + 5 * SECOND);
    let late = MonitorStep::Failed(ControlError::MonitorNotReady);
    for event in [MonitorEvent::Missing, MonitorEvent::Unreachable] {
        let just = NOW + MONITOR_READY_TIMEOUT - 1;
        assert_eq!(wait.after(event, just), MonitorStep::Retry { at: just + MONITOR_RETRY });
        assert_eq!(wait.after(event, just + 1), late);
    }
    assert_eq!(wait.after(MonitorEvent::Late, NOW), late);
    assert_eq!(wait.after(MonitorEvent::Accepted, NOW), MonitorStep::Connected);
    assert_eq!(wait.after(MonitorEvent::Broken, NOW), MonitorStep::Broken);
    assert_eq!(
        wait.after(MonitorEvent::Rejected, NOW),
        MonitorStep::Failed(ControlError::HandshakeRejected)
    );
    assert_eq!(
        ControlError::MonitorNotReady.describe(),
        "monitor not ready within 5 seconds; no PTY was started"
    );
}

#[test]
fn sessions_are_listed_by_age() {
    assert_eq!(snapshots_order(&vec![30, 10, 20, 10]), vec![1, 3, 2, 0]);
    assert_eq!(snapshots_order(&vec![]), Vec::<usize>::new());
}

#[test]
fn the_first_reason_is_the_one_reported() {
    let mut session = started();
    let mut owner = entry("a", "h", 0);
    let signal = owner.stop(&mut session, "monitor_disconnected", FinishReason::OwnerDisconnected, true);
    assert_eq!(signal, Some(Ok(Kill::Signal { target: -9, force: true })));
    owner.close(&mut session);
    finish(&mut session);
    let report = owner.snapshot(&session.snapshot());
    let end = report.termination.unwrap();
    assert_eq!(end.reason, "monitor_disconnected");
    assert_eq!(end.exit_code, Some(0));
    assert_eq!(report.state, SessionState::Finished);
    assert_eq!(report.args, vec!["-c", "x"]);
    assert_eq!(report.interaction_id, 1);
    // Nothing can be asked of a finished session.
    assert_eq!(owner.signal(&mut session, true), None);
    assert_eq!(owner.stop_reason.as_ref().unwrap().0, "monitor_disconnected");
}

#[test]
fn signals_are_reported_by_their_kind() {
    let mut session = started();
    let mut owner = entry("a", "h", 0);
    assert_eq!(
        owner.signal(&mut session, false),
        Some(Ok(Kill::Signal { target: -9, force: false }))
    );
    assert_eq!(owner.stop_reason.as_ref().unwrap().0, "terminated");
    let mut session = started();
    let mut owner = entry("a", "h", 0);
    owner.signal(&mut session, true);
    finish(&mut session);
    assert_eq!(owner.termination(&session.wait().unwrap()).reason, "killed");
}

#[test]
fn duplicate_waiters_cannot_displace_the_first() {
    let mut session = started();
    let mut owner = entry("a", "h", 0);
    assert!(owner.begin_wait().is_ok());
    assert_eq!(
        owner.begin_wait().unwrap_err().describe(),
        "a bgshell already waits for this PTY"
    );
    assert!(owner.waiting);
    assert!(owner.end_wait(&mut session).is_some());
    assert!(!owner.waiting);
    assert_eq!(owner.stop_reason.as_ref().unwrap().0, "bgshell_disconnected");
    let mut done = started();
    finish(&mut done);
    let mut other = entry("b", "h", 0);
    other.begin_wait().unwrap();
    assert_eq!(other.end_wait(&mut done), None);
    assert!(other.stop_reason.is_none());
    assert_eq!(
        other.snapshot(&done.snapshot()).termination.unwrap().reason,
        "natural_exit"
    );
}

#[test]
fn reads_come_as_text_screen_or_bytes() {
    let mut session = started();
    output(&mut session, b"one\r\ntwo", NOW);
    assert!(is_extractable(&session, 0, 100, ReadMode::Auto));
    let text = extract(&session, 0, 100, ReadMode::Auto);
    assert_eq!(text.mode, ReadMode::Text);
    assert_eq!((text.covered_from, text.next_cursor), (0, 8));
    match text.body {
        ReadBody::Text { text, rows_dropped } => {
            assert_eq!(text, "one\ntwo");
            assert!(!rows_dropped);
        }
        other => panic!("{other:?}"),
    }
    let raw = extract(&session, 2, 3, ReadMode::Raw);
    assert_eq!((raw.start_cursor, raw.next_cursor), (2, 5));
    match raw.body {
        ReadBody::Raw { text, text_lossy, base64 } => {
            assert_eq!(text, "e\r\n");
            assert!(!text_lossy);
            assert_eq!(base64, "ZQ0K");
        }
        other => panic!("{other:?}"),
    }
    output(&mut session, b"\x1b[?1049h", NOW);
    let screen = extract(&session, 3, 100, ReadMode::Auto);
    assert_eq!(screen.mode, ReadMode::Screen);
    assert_eq!((screen.covered_from, screen.start_cursor), (0, 3));
    assert_eq!(screen.next_cursor, 16);
    assert!(matches!(screen.body, ReadBody::Screen(_)));
}

#[test]
fn bytes_that_are_no_text_come_in_base64_too() {
    let mut session = started();
    output(&mut session, b"\xff\xfeab", NOW);
    match extract(&session, 0, 100, ReadMode::Raw).body {
        ReadBody::Raw { text, text_lossy, base64 } => {
            assert_eq!(text, "\u{fffd}\u{fffd}ab");
            assert!(text_lossy);
            assert_eq!(base64, "//5hYg==");
        }
        other => panic!("{other:?}"),
    }
}

#[test]
fn reads_carry_receipts_and_reminders() {
    let mut session = started();
    output(&mut session, b"prompt", NOW);
    let mut owner = entry("pty_x", "h", 0);
    let late = NOW + OUTPUT_SILENCE;
    let first = owner.read(&session, 0, 100, ReadMode::Text, "read_1".to_string(), late);
    assert_eq!(first.receipt, "read_1");
    assert_eq!(first.session_id, "pty_x");
    assert_eq!((first.start_cursor, first.next_cursor), (None, 6));
    assert_eq!(first.dropped_bytes, None);
    let (candidate, message) = first.silence.unwrap();
    assert_eq!(candidate.interaction_id, 1);
    assert_eq!(message, "PTY pty_x 疑似停滞，请调用 read 检查。");
    // While the read is being acknowledged, the reminder is not repeated.
    assert!(owner.observation.candidate(&session.snapshot(), late + SECOND).is_none());
    assert!(!owner.observation.claim(&session.snapshot(), &candidate, late + SECOND));
    // A receipt that nobody acknowledges does not hold it back for long.
    assert!(owner
        .observation
        .candidate(&session.snapshot(), late + 2 * SECOND)
        .is_some());
    owner.observation.observe("read_1");
    assert!(owner.observation.receipts.is_empty());
    assert!(owner
        .observation
        .candidate(&session.snapshot(), late + 9 * SECOND)
        .is_none());
    owner.observation.observe("read_1");
    let moved = owner.read(&session, 99, 10, ReadMode::Raw, "read_2".to_string(), late);
    assert_eq!((moved.start_cursor, moved.next_cursor), (Some(6), 6));
    assert!(moved.silence.is_none());
    assert_eq!(moved.state, SessionState::Running);
    assert!(moved.termination.is_none());
}

#[test]
fn dropped_output_is_reported_once_there_is_any() {
    let mut session = started();
    session.record(true, &vec![b'a'; 1_048_576], NOW, None);
    session.record(true, b"bc", NOW, None);
    let mut owner = entry("p", "h", 0);
    let read = owner.read(&session, 0, 4, ReadMode::Raw, "r".to_string(), NOW);
    assert_eq!(read.dropped_bytes, Some(2));
    assert_eq!(read.start_cursor, Some(2));
    assert_eq!(read.next_cursor, 6);
}

#[test]
fn reminders_are_claimed_once() {
    let mut session = started();
    output(&mut session, b"x", NOW);
    let mut state = ObservationState::default();
    let late = NOW + OUTPUT_SILENCE;
    let candidate = state.candidate(&session.snapshot(), late).unwrap();
    assert!(state.claim(&session.snapshot(), &candidate, late));
    assert!(!state.claim(&session.snapshot(), &candidate, late));
}

#[test]
fn only_recent_receipts_are_kept() {
    let session = started();
    let mut state = ObservationState::default();
    for i in 0..MOST_RECEIPTS + 3 {
        state.issue(format!("r{i}"), 0, 0, &session.snapshot(), NOW);
    }
    assert_eq!(state.receipts.len(), MOST_RECEIPTS);
    assert_eq!(state.receipts[0].id, "r3");
    // A name stands for one read only.
    state.issue("r7".to_string(), 4, 9, &session.snapshot(), NOW);
    assert_eq!(state.receipts.len(), MOST_RECEIPTS);
    assert_eq!(state.receipts.iter().filter(|receipt| receipt.id == "r7").count(), 1);
    assert_eq!(state.receipts[MOST_RECEIPTS - 1].end, 9);
}

#[test]
fn reads_count_once_and_only_when_observed() {
    let mut session = started();
    output(&mut session, b"hello", NOW);
    let mut manager = filled(1);
    let id = manager.entries[0].id.clone();
    let late = NOW + OUTPUT_SILENCE;
    let result = manager
        .try_read(&id, &session, 1, 3, ReadMode::Raw, late)
        .unwrap()
        .unwrap();
    assert!(result.silence.is_some());
    let told = |manager: &mut Manager<u32>| {
        let later = late + 2 * OUTPUT_SILENCE;
        manager.entries[0].observation.candidate(&session.snapshot(), later).is_some()
    };
    // Reading alone acknowledges nothing, nor does a receipt that nobody was given.
    assert!(told(&mut manager));
    assert!(manager.observe(&id, "read_nothing").is_ok());
    assert!(told(&mut manager));
    assert_eq!(manager.entries[0].observation.receipts.len(), 1);
    assert!(manager.observe(&id, &result.receipt).is_ok());
    assert!(manager.entries[0].observation.receipts.is_empty());
    assert!(!told(&mut manager));
    assert!(manager.observe(&id, &result.receipt).is_ok());
    assert!(manager.entries[0].observation.receipts.is_empty());
    assert!(manager.observe("pty_unknown", &result.receipt).is_err());
}

#[test]
fn control_requests_are_understood() {
    let request = |text: &str| read_control(&json(text), "inst");
    assert_eq!(
        request("{\"instance_id\":\"other\"}").unwrap_err().describe(),
        "PTY instance mismatch"
    );
    assert_eq!(
        request("{\"instance_id\":\"inst\"}").unwrap_err().describe(),
        "missing session id"
    );
    assert_eq!(
        request("{\"instance_id\":\"inst\",\"session_id\":\"s\"}").unwrap_err(),
        ControlError::UnknownRequest
    );
    match request("{\"instance_id\":\"inst\",\"session_id\":\"s\",\"action\":\"wait\"}").unwrap() {
        ControlRequest::Wait { session_id } => assert_eq!(session_id, "s"),
        other => panic!("{other:?}"),
    }
    assert_eq!(
        request("{\"instance_id\":\"inst\",\"session_id\":\"s\",\"action\":\"observe\"}")
            .unwrap_err()
            .describe(),
        "missing receipt id"
    );
    match request(
        "{\"instance_id\":\"inst\",\"session_id\":\"s\",\"action\":\"observe\",\"receipt_id\":\"r\"}",
    )
    .unwrap()
    {
        ControlRequest::Observe { session_id, receipt } => {
            assert_eq!((session_id.as_str(), receipt.as_str()), ("s", "r"))
        }
        other => panic!("{other:?}"),
    }
    assert!(matches!(
        request("{\"instance_id\":\"inst\",\"session_id\":\"s\",\"action\":\"finish_owned\"}").unwrap(),
        ControlRequest::FinishOwned { .. }
    ));
    assert_eq!(
        ControlError::UnknownRequest.describe(),
        "unknown control request"
    );
}

#[test]
fn monitors_have_to_answer_as_expected() {
    let ok = json("{\"ok\":true,\"generation\":\"g\"}");
    assert!(check_handshake(&ok, "g").is_ok());
    assert_eq!(
        check_handshake(&ok, "h").unwrap_err().describe(),
        "monitor handshake rejected"
    );
    assert!(check_heartbeat(&ok).is_ok());
    assert_eq!(
        check_heartbeat(&json("{\"ok\":1}")).unwrap_err().describe(),
        "monitor heartbeat rejected"
    );
    assert!(check_notified(&ok).is_ok());
    assert_eq!(
        check_notified(&json("{}")).unwrap_err().describe(),
        "monitor notification failed"
    );
}

#[test]
fn claims_name_the_reminder_that_was_offered() {
    let candidate = Candidate { interaction_id: 1, output_seq: 2, start_cursor: 3, end_cursor: 4 };
    let sent = "{\"interaction_id\":1,\"output_seq\":2,\"start_cursor\":3,\"end_cursor\":4}";
    assert!(is_candidate(&json(sent), &candidate));
    assert!(!is_candidate(&json("{\"interaction_id\":1}"), &candidate));
    let extra =
        "{\"interaction_id\":1,\"output_seq\":2,\"start_cursor\":3,\"end_cursor\":4,\"x\":0}";
    assert!(!is_candidate(&json(extra), &candidate));
    let claim = format!("{{\"action\":\"claim\",\"session_id\":\"s\",\"candidate\":{sent}}}");
    assert!(check_claim(&json(&claim), "s", &candidate).is_ok());
    assert_eq!(
        check_claim(&json(&claim), "t", &candidate).unwrap_err().describe(),
        "invalid monitor claim"
    );
    assert_eq!(
        ControlError::MonitorDisconnected.describe(),
        "monitor disconnected during PTY creation"
    );
}

#[test]
fn named_sessions_are_read_and_acknowledged() {
    let mut manager = filled(2);
    let mut session = started();
    output(&mut session, b"hello", NOW);
    assert!(is_extractable(&session, 0, 100, ReadMode::Text));
    let read = manager.read("pty_1", &session, 0, 100, ReadMode::Text, NOW).unwrap();
    assert_eq!(read.session_id, "pty_1");
    assert!(read.receipt.starts_with("read_"));
    assert_eq!(read.receipt.len(), 37);
    assert_eq!(read.next_cursor, 5);
    assert_eq!(manager.entries[1].observation.receipts.len(), 1);
    assert!(manager.entries[0].observation.receipts.is_empty());
    assert!(manager.observe("pty_1", "read_unknown").is_ok());
    assert_eq!(manager.entries[1].observation.receipts.len(), 1);
    assert!(manager.observe("pty_1", &read.receipt).is_ok());
    assert!(manager.entries[1].observation.receipts.is_empty());
    let unknown = ControlError::UnknownSession;
    assert_eq!(manager.observe("pty_9", &read.receipt), Err(unknown));
    let missing = manager.read("pty_9", &session, 0, 100, ReadMode::Text, NOW);
    assert_eq!(missing.err(), Some(unknown));
}

#[test]
fn named_sessions_are_closed_and_signalled() {
    let mut manager = filled(2);
    let mut session = started();
    assert_eq!(
        manager.signal("pty_0", &mut session, false),
        Ok(Some(Ok(Kill::Signal { target: -9, force: false })))
    );
    assert_eq!(
        manager.close("pty_0", &mut session),
        Ok(Some(Ok(Kill::Signal { target: -9, force: true })))
    );
    assert_eq!(manager.entries[0].stop_reason.as_ref().unwrap().0, "terminated");
    assert!(manager.entries[1].stop_reason.is_none());
    finish(&mut session);
    // Closing is idempotent.
    assert_eq!(manager.close("pty_0", &mut session), Ok(None));
    let unknown = ControlError::UnknownSession;
    assert_eq!(manager.close("pty_9", &mut session), Err(unknown));
    assert_eq!(manager.signal("pty_9", &mut session, true), Err(unknown));
}

#[test]
fn sessions_are_reported_by_name_or_all_by_age() {
    let manager = filled(3);
    let created = [30, 10, 20];
    let snapshots: Vec<_> = created
        .iter()
        .map(|ms| {
            let mut snapshot = started().snapshot();
            snapshot.created_at_ms = *ms;
            snapshot
        })
        .collect();
    let names = |id: Option<&str>| -> Result<Vec<String>, ControlError> {
        let reports = manager.snapshots(id, &snapshots)?;
        Ok(reports.into_iter().map(|report| report.session_id).collect())
    };
    assert_eq!(names(None).unwrap(), vec!["pty_1", "pty_2", "pty_0"]);
    assert_eq!(names(Some("pty_2")).unwrap(), vec!["pty_2"]);
    assert_eq!(names(Some("pty_9")), Err(ControlError::UnknownSession));
}

#[test]
fn sessions_that_cannot_be_rendered_are_left_alone() {
    let mut manager = filled(1);
    let mut session = started();
    output(&mut session, b"hello", NOW);
    let read = manager.try_read("pty_0", &session, 0, 100, ReadMode::Text, NOW);
    assert_eq!(read.unwrap().unwrap().next_cursor, 5);
    // On a single row the text would wrap.
    session.resized(1, 4);
    assert!(manager.try_read("pty_0", &session, 0, 100, ReadMode::Text, NOW).is_none());
    assert_eq!(manager.entries[0].observation.receipts.len(), 1);
    let raw = manager.try_read("pty_0", &session, 0, 100, ReadMode::Raw, NOW);
    assert_eq!(raw.unwrap().unwrap().next_cursor, 5);
    let unknown = manager.try_read("pty_9", &session, 0, 100, ReadMode::Raw, NOW);
    assert_eq!(unknown.unwrap().err(), Some(ControlError::UnknownSession));
}

#[test]
fn sessions_get_stuck_at_output_that_cannot_be_drawn() {
    let mut session = started();
    session.resized(1, 4);
    let mut protocol = TerminalProtocol::default();
    match session.ingest(protocol.process(b"abcd\x1b[6n"), NOW, None) {
        Ingested::Taken(reply) => assert_eq!(reply.unwrap().bytes, b"\x1b[1;5R"),
        Ingested::Stuck => panic!("stuck"),
    }
    assert_eq!(session.output.range(), (0, 4));
    assert_eq!(session.snapshot.activity.output_seq, 1);
    let stuck = session.ingest(protocol.process(b"\rxy\x1b[6nabcde"), NOW, None);
    assert!(matches!(stuck, Ingested::Stuck));
    // The output is retained all the same.
    assert_eq!(session.output.range(), (0, 12));
    assert_eq!(session.snapshot.activity.output_seq, 2);
}
