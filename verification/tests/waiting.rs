use pty_bridge::mcp::ReadMode;
use pty_bridge::reader::Ingested;
use pty_bridge::session::{Session, StartStep};
use pty_bridge::supervisor::{ChildPoll, Supervisor, WorkerEvent};
use pty_bridge::terminal::TerminalProtocol;
use pty_bridge::types::{StartSpec, MILLISECOND, SECOND};
use pty_bridge::waiting::{
    new_match, pick_match, pick_unseen, screen_matches, text_match, trim_lines, WaitOptions,
    WaitReason, WaitStep, Waiting,
};
use std::path::PathBuf;

const NOW: u64 = 50 * SECOND;

fn started() -> Session {
    let spec = StartSpec::new("sh", Vec::new(), PathBuf::from("/"));
    let mut startup = Session::start(&spec).unwrap();
    startup.proceed(true);
    startup.proceed(true);
    startup.identified(Some(1), Some(1)).unwrap();
    startup.proceed(true);
    let mut session = startup.set_up(NOW, None);
    session.worker_started(StartStep::StartReader, true);
    session
}

fn output(session: &mut Session, bytes: &[u8], now: u64) {
    let chunks = TerminalProtocol::default().process(bytes);
    assert!(matches!(session.ingest(chunks, now, None), Ingested::Taken(_)));
}

fn finish(session: &mut Session) {
    let mut supervisor = Supervisor::new();
    supervisor.on_poll(session, ChildPoll::Exited(0), NOW);
    supervisor.on_event(WorkerEvent::ReaderEnded(None), NOW);
    supervisor.on_event(WorkerEvent::WriterEnded, NOW);
    assert!(supervisor.finish(session, NOW));
}

fn look(waiting: &Waiting, session: &Session, options: &WaitOptions, now: u64) -> WaitStep {
    assert!(waiting.is_renderable(session, options));
    waiting.evaluate(session, options, now)
}

fn reason(step: WaitStep) -> WaitReason {
    match step {
        WaitStep::Done(outcome) => outcome.reason,
        WaitStep::Sleep(_) => panic!("still waiting"),
    }
}

fn wakes(step: WaitStep) -> u64 {
    match step {
        WaitStep::Sleep(until) => until,
        WaitStep::Done(outcome) => panic!("{outcome:?}"),
    }
}

#[test]
fn requests_have_documented_defaults() {
    let plain = WaitOptions::from_request(None, None, None).unwrap();
    assert_eq!((plain.timeout, plain.idle), (0, None));
    assert!(plain.until.is_none());
    let capped = WaitOptions::from_request(Some(99_000), None, None).unwrap();
    assert_eq!(capped.timeout, 30 * SECOND);
    let idle = WaitOptions::from_request(None, Some(250), None).unwrap();
    assert_eq!(
        (idle.timeout, idle.idle),
        (10 * SECOND, Some(250 * MILLISECOND))
    );
    let until = WaitOptions::from_request(None, None, Some("x")).unwrap();
    assert_eq!((until.timeout, until.idle), (10 * SECOND, Some(5 * SECOND)));
    assert!(until.until.is_some());
    let endless = WaitOptions::from_request(Some(7), Some(0), Some("x")).unwrap();
    assert_eq!((endless.timeout, endless.idle), (7 * MILLISECOND, None));
    let huge = WaitOptions::from_request(None, Some(u64::MAX), None).unwrap();
    assert_eq!(huge.idle, Some(u64::MAX));
    let error = WaitOptions::from_request(None, None, Some("(")).err().unwrap();
    assert!(error.contains("unclosed group"));
}

#[test]
fn patterns_are_multi_line() {
    let options = WaitOptions::from_request(None, None, Some("^b$")).unwrap();
    let regex = options.until.unwrap();
    assert_eq!(new_match(&regex, "a\nb\nc", ""), Some("b".to_string()));
    assert_eq!(new_match(&regex, "a\nb\nc", "a\nb"), None);
    assert_eq!(new_match(&regex, "a\nb\nc", "other"), Some("b".to_string()));
}

#[test]
fn without_conditions_the_first_output_ends_the_wait() {
    let mut session = started();
    let options = WaitOptions::from_request(Some(1000), None, None).unwrap();
    let waiting = Waiting::begin(&session, 0, 100, ReadMode::Auto, &options, NOW);
    assert_eq!(wakes(look(&waiting, &session, &options, NOW)), NOW + SECOND);
    output(&mut session, b"x", NOW + 5);
    assert_eq!(
        reason(look(&waiting, &session, &options, NOW + 6)),
        WaitReason::Output
    );
}

#[test]
fn waits_end_at_their_deadline() {
    let session = started();
    let options = WaitOptions::from_request(Some(1000), None, None).unwrap();
    let waiting = Waiting::begin(&session, 0, 100, ReadMode::Auto, &options, NOW);
    match look(&waiting, &session, &options, NOW + SECOND) {
        WaitStep::Done(outcome) => {
            assert_eq!(outcome.reason, WaitReason::Timeout);
            assert_eq!(outcome.waited_ms, 1000);
            assert!(outcome.matched.is_none());
        }
        WaitStep::Sleep(_) => panic!("still waiting"),
    }
    assert_eq!(
        waiting.batch_until(NOW + SECOND - 30 * MILLISECOND),
        NOW + SECOND - 5 * MILLISECOND
    );
    assert_eq!(waiting.batch_until(NOW + SECOND - 1), NOW + SECOND);
    let cancelled = waiting.done(WaitReason::Cancelled, None, NOW + 2 * MILLISECOND);
    assert_eq!(cancelled.waited_ms, 2);
    assert_eq!(cancelled.reason.name(), "cancelled");
}

#[test]
fn quiet_output_ends_an_idle_wait() {
    let mut session = started();
    let options = WaitOptions::from_request(None, Some(100), None).unwrap();
    let waiting = Waiting::begin(&session, 0, 100, ReadMode::Text, &options, NOW);
    output(&mut session, b"x", NOW + 10);
    let quiet = NOW + 10 + 100 * MILLISECOND;
    assert_eq!(wakes(look(&waiting, &session, &options, NOW + 11)), quiet);
    assert_eq!(
        reason(look(&waiting, &session, &options, quiet)),
        WaitReason::Idle
    );
}

#[test]
fn a_full_read_ends_a_wait() {
    let mut session = started();
    let options = WaitOptions::from_request(None, Some(100), None).unwrap();
    let waiting = Waiting::begin(&session, 0, 4, ReadMode::Text, &options, NOW);
    output(&mut session, b"abcd", NOW);
    assert_eq!(
        reason(look(&waiting, &session, &options, NOW)),
        WaitReason::Limit
    );
}

#[test]
fn finished_sessions_are_not_waited_for() {
    let mut session = started();
    let options = WaitOptions::from_request(Some(9000), None, Some("never")).unwrap();
    let waiting = Waiting::begin(&session, 0, 100, ReadMode::Auto, &options, NOW);
    output(&mut session, b"bye", NOW);
    finish(&mut session);
    assert_eq!(
        reason(look(&waiting, &session, &options, NOW)),
        WaitReason::Exited
    );
}

#[test]
fn a_pattern_in_new_text_ends_a_wait() {
    let mut session = started();
    output(&mut session, b"$ make\r\n", NOW);
    let cursor = 8;
    let options = WaitOptions::from_request(None, None, Some("\\$ $")).unwrap();
    let waiting = Waiting::begin(&session, cursor, 100, ReadMode::Auto, &options, NOW);
    output(&mut session, b"building\r\n", NOW);
    assert!(matches!(
        look(&waiting, &session, &options, NOW),
        WaitStep::Sleep(_)
    ));
    output(&mut session, b"$ ", NOW);
    match look(&waiting, &session, &options, NOW) {
        WaitStep::Done(outcome) => {
            assert_eq!(outcome.reason, WaitReason::Matched);
            assert_eq!(outcome.matched.as_deref(), Some("$ "));
        }
        WaitStep::Sleep(_) => panic!("still waiting"),
    }
}

#[test]
fn a_prompt_split_across_reads_matches_without_its_space() {
    let mut session = started();
    output(&mut session, b"one\r\n>>", NOW);
    output(&mut session, b"> ", NOW);
    let options = WaitOptions::from_request(None, None, Some("^>>>$")).unwrap();
    let regex = options.until.as_ref().unwrap();
    assert_eq!(
        text_match(&session.output, 7, 100, 24, 80, regex),
        Some(">>>".to_string())
    );
    // What was there before the cursor is not new.
    output(&mut session, b"x", NOW);
    assert_eq!(text_match(&session.output, 9, 100, 24, 80, regex), None);
}

#[test]
fn only_new_matches_on_a_screen_count() {
    let mut session = started();
    output(&mut session, b"\x1b[?1049h\x1b[Hmenu", NOW);
    let end = session.snapshot().retained_end;
    let options = WaitOptions::from_request(None, None, Some("menu|done")).unwrap();
    let waiting = Waiting::begin(&session, end, 100, ReadMode::Auto, &options, NOW);
    assert_eq!(waiting.baseline.len(), 2);
    output(&mut session, b"\x1b[5;1Hworking", NOW);
    assert!(matches!(
        look(&waiting, &session, &options, NOW),
        WaitStep::Sleep(_)
    ));
    output(&mut session, b"\x1b[6;1Hdone", NOW);
    match look(&waiting, &session, &options, NOW) {
        WaitStep::Done(outcome) => assert_eq!(outcome.matched.as_deref(), Some("done")),
        WaitStep::Sleep(_) => panic!("still waiting"),
    }
}

#[test]
fn screen_rows_are_matched_with_and_without_their_spaces() {
    let options = WaitOptions::from_request(None, None, Some("\\$$")).unwrap();
    let regex = options.until.unwrap();
    let lines = vec!["a".to_string(), "$ ".to_string(), "$".to_string()];
    assert_eq!(
        screen_matches(&regex, &lines),
        vec![
            (1, "$".to_string()),
            (2, "$".to_string()),
            (2, "$".to_string())
        ]
    );
}

#[test]
fn matches_are_picked_in_order() {
    let matches = vec![(3, "a".to_string()), (6, "b".to_string()), (9, "c".to_string())];
    assert_eq!(pick_match(&matches, 3), Some("b".to_string()));
    assert_eq!(pick_match(&matches, 9), None);
    let seen = vec![(3, "a".to_string())];
    assert_eq!(pick_unseen(&matches, &seen), Some("b".to_string()));
    assert_eq!(pick_unseen(&matches, &matches), None);
}

#[test]
fn lines_are_trimmed_at_their_ends() {
    assert_eq!(trim_lines("a  \n b\t\n\nc \n"), "a\n b\n\nc");
    assert_eq!(trim_lines(""), "");
    assert_eq!(trim_lines("\n"), "");
}

#[test]
fn patterns_are_looked_for_only_in_text_that_can_be_rendered() {
    let mut session = started();
    output(&mut session, b"ready", NOW);
    let options = WaitOptions::from_request(None, None, Some("ready")).unwrap();
    let waiting = Waiting::begin(&session, 0, 100, ReadMode::Text, &options, NOW);
    let step = waiting.try_evaluate(&session, &options, NOW).unwrap();
    assert_eq!(reason(step), WaitReason::Matched);
    // On a single row the text would wrap.
    session.resized(1, 4);
    assert!(waiting.try_evaluate(&session, &options, NOW).is_none());
}
