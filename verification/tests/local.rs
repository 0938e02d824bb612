use pty_bridge::background_task::{BackgroundTask, End, EndReason, SessionEvent, TaskError};
use pty_bridge::encoding::new_name;
use pty_bridge::monitor::{
    check_hello, notice, read_request, reminder, MonitorError, MonitorRequest,
};
use pty_bridge::platform::ProcessLocator;
use pty_bridge::protocol::{receive, send, ProtocolError};
use pty_bridge::runtime::{
    check_monitor, check_ownership, is_record_file, local_root, monitor_path, new_id,
    ownership_directory, ownership_path, root, validate_id, MonitorRecord, Ownership, RecordError, Root,
};
use pty_bridge::types::SECOND;
use pty_bridge::wait::{check_registration, report, WaitError};
use pty_bridge::watcher::{is_ticket_for, WatchTicket, Watcher};
use serde_json::Value;

fn json(text: &str) -> Value {
    serde_json::from_str(text).unwrap()
}

fn monitor() -> MonitorRecord {
    MonitorRecord {
        host_session_id: "host".to_string(),
        generation: "g1".to_string(),
        port: 7,
    }
}

#[test]
fn names_are_short_and_plain() {
    assert!(validate_id("pty_0-Z").is_ok());
    assert!(validate_id("").is_err());
    assert!(validate_id(&"x".repeat(128)).is_ok());
    assert!(validate_id(&"x".repeat(129)).is_err());
    assert!(validate_id("a/b").is_err());
    assert!(validate_id("..").is_err());
    assert!(validate_id("é").is_err());
    assert_eq!(
        validate_id("a b").unwrap_err().describe(),
        "invalid identifier"
    );
}

#[test]
fn new_names_are_valid_and_differ() {
    let first = new_id("pty_");
    let second = new_id("pty_");
    assert!(first.starts_with("pty_"));
    assert_eq!(first.len(), 36);
    assert!(first[4..].bytes().all(|b| b.is_ascii_digit() || (b'a'..=b'f').contains(&b)));
    assert!(validate_id(&first).is_ok());
    assert_ne!(first, second);
    assert_eq!(new_name("").len(), 32);
}

#[test]
fn records_lie_below_the_root() {
    assert_eq!(monitor_path("h").unwrap(), vec!["monitors", "h.json"]);
    assert_eq!(
        ownership_path("h", "inst_1", "pty_1").unwrap(),
        vec!["owners", "h", "inst_1--pty_1.json"]
    );
    assert_eq!(ownership_directory("h").unwrap(), vec!["owners", "h"]);
    assert_eq!(
        ownership_path("h", "..", "s").unwrap_err(),
        RecordError::InvalidIdentifier
    );
    assert!(monitor_path("a/b").is_err());
    assert!(is_record_file("inst_1--pty_1.json"));
    assert!(!is_record_file(".json"));
    assert!(!is_record_file("x.jsn"));
    assert_eq!(local_root(), vec!["pty-bridge", "runtime"]);
    match root(true, 7) {
        Root::Runtime(name) => assert_eq!(name, "pty-bridge"),
        Root::Temporary(_) => panic!("not in the runtime directory"),
    }
    match root(false, 1000) {
        Root::Temporary(name) => assert_eq!(name, "pty-bridge-1000"),
        Root::Runtime(_) => panic!("not among the temporary files"),
    }
}

#[test]
fn records_of_others_are_not_believed() {
    assert!(check_monitor(&monitor(), "host").is_ok());
    assert_eq!(
        check_monitor(&monitor(), "other").unwrap_err().describe(),
        "invalid monitor record"
    );
    let mut closed = monitor();
    closed.port = 0;
    assert!(check_monitor(&closed, "host").is_err());
    let record = Ownership {
        host_session_id: "host".to_string(),
        instance_id: "i".to_string(),
        session_id: "s".to_string(),
        port: 1,
        process: ProcessLocator::Unix { process_id: 1, process_group: None },
    };
    assert!(check_ownership(&record, "host").is_ok());
    assert_eq!(
        check_ownership(&record, "other").unwrap_err().describe(),
        "owner record mismatch"
    );
}

#[test]
fn messages_are_lines_of_json() {
    let line = send("{\"action\":\"ping\"}");
    assert_eq!(line, "{\"action\":\"ping\"}\n");
    assert_eq!(receive(&line).unwrap()["action"], "ping");
    let cut = receive("{\"action\":\"pi").unwrap_err();
    assert!(matches!(cut, ProtocolError::Incomplete));
    assert_eq!(
        cut.describe(),
        "local connection closed or message incomplete"
    );
    assert!(matches!(receive("").unwrap_err(), ProtocolError::Incomplete));
    let broken = receive("{]\n").unwrap_err();
    assert!(matches!(broken, ProtocolError::Malformed(_)));
    assert!(broken.describe().contains("line 1"));
}

#[test]
fn monitors_listen_to_their_own_owners() {
    let hello = json("{\"action\":\"register\",\"host_session_id\":\"host\",\"generation\":\"g1\"}");
    assert!(check_hello(&hello, &monitor()).is_ok());
    let stale = json("{\"action\":\"register\",\"host_session_id\":\"host\",\"generation\":\"g0\"}");
    assert_eq!(
        check_hello(&stale, &monitor()).unwrap_err().describe(),
        "monitor identity mismatch"
    );
    assert_eq!(
        read_request(&json("{\"action\":\"ping\"}")),
        Ok(MonitorRequest::Ping)
    );
    assert_eq!(
        read_request(&json("{\"action\":\"offer\"}")),
        Ok(MonitorRequest::Offer)
    );
    assert_eq!(
        read_request(&json("{\"action\":5}")),
        Err(MonitorError::UnknownMessage)
    );
    assert_eq!(
        MonitorError::UnknownMessage.describe(),
        "unknown monitor message"
    );
}

#[test]
fn reminders_are_printed_when_they_are_still_due() {
    let offer = json("{\"action\":\"offer\",\"session_id\":\"pty_x\"}");
    let due = json("{\"notify\":true}");
    let line = notice(&offer, &due).unwrap().unwrap();
    assert_eq!(line, "PTY pty_x 疑似停滞，请调用 read 检查。");
    assert_eq!(line, reminder("pty_x"));
    assert!(notice(&offer, &json("{\"notify\":false}")).unwrap().is_none());
    assert_eq!(
        notice(&json("{}"), &due).unwrap_err().describe(),
        "missing session id"
    );
}

#[test]
fn waiting_commands_report_how_sessions_ended() {
    assert!(check_registration(&json("{\"ok\":true}")).is_ok());
    assert_eq!(
        check_registration(&json("{\"ok\":false,\"error\":\"busy\"}"))
            .unwrap_err()
            .describe(),
        "bgshell registration rejected: \"busy\""
    );
    let clean = json("{\"termination\":{\"reason\":\"natural_exit\",\"exit_code\":0}}");
    let done = report("pty_x", &clean).unwrap();
    assert_eq!(done.line, "[pty_x] finished reason=natural_exit exit_code=0");
    assert_eq!(done.exit_code, 0);
    let failed = json("{\"termination\":{\"reason\":\"natural_exit\",\"exit_code\":7}}");
    assert_eq!(report("p", &failed).unwrap().exit_code, 1);
    let closed = json("{\"termination\":{\"reason\":\"explicit_close\",\"exit_code\":137}}");
    assert_eq!(report("p", &closed).unwrap().exit_code, 0);
    let broken =
        json("{\"termination\":{\"reason\":\"reader_failed\",\"exit_code\":null,\"message\":\"EIO\"}}");
    let report_of = report("p", &broken).unwrap();
    assert_eq!(
        report_of.line,
        "[p] finished reason=reader_failed exit_code=null message=EIO"
    );
    assert_eq!(report_of.exit_code, 1);
    let gone = report("p", &json("{}")).unwrap_err();
    assert!(matches!(gone, WaitError::Disconnected));
    assert_eq!(
        gone.describe(),
        "owner disconnected without a terminal result"
    );
}

#[test]
fn background_tasks_show_a_preview_a_second() {
    let mut task = BackgroundTask::new("pty_x".to_string());
    let attached = task.on_event(SessionEvent::Attached, 0);
    assert_eq!(attached.line.as_deref(), Some("[pty_x] attached"));
    assert!(attached.end.is_none());
    let running = task.on_event(SessionEvent::Running { program: "sh".to_string() }, 0);
    assert_eq!(running.line.as_deref(), Some("[pty_x] running sh"));
    let preview = |text: &str| SessionEvent::Output { preview: text.to_string() };
    assert_eq!(
        task.on_event(preview("a"), 5).line.as_deref(),
        Some("[pty_x] a")
    );
    assert!(task.on_event(preview("b"), 5 + SECOND - 1).line.is_none());
    assert!(task.on_event(preview("c"), 5 + SECOND).line.is_some());
}

#[test]
fn background_tasks_end_with_their_session() {
    let end = |reason, exit_code, message: Option<&str>| {
        let mut task = BackgroundTask::new("p".to_string());
        let termination = End { reason, exit_code, message: message.map(|m| m.to_string()) };
        let step = task.on_event(SessionEvent::Finished { termination }, 0);
        (step.line.unwrap(), step.end.unwrap())
    };
    let (line, result) = end(EndReason::NaturalExit, Some(0), None);
    assert_eq!(line, "[p] finished reason=NaturalExit exit_code=Some(0)");
    assert!(result.is_ok());
    let (_, result) = end(EndReason::NaturalExit, None, None);
    assert_eq!(
        result.unwrap_err().describe(),
        "PTY process exited with code None"
    );
    let (_, result) = end(EndReason::StartFailed, None, Some("no shell"));
    assert_eq!(result.unwrap_err().describe(), "PTY failed: no shell");
    let (_, result) = end(EndReason::TicketExpired, None, None);
    assert_eq!(result.unwrap_err().describe(), "PTY failed: unknown failure");
    assert!(end(EndReason::Killed, Some(9), None).1.is_ok());
    assert_eq!(
        TaskError::Disconnected.describe(),
        "PTY service disconnected before a terminal lifecycle event"
    );
}

#[test]
fn watchers_leave_out_rapid_output() {
    let mut watcher = Watcher::new("p".to_string());
    assert_eq!(
        watcher.on_line("[output] a", 0).as_deref(),
        Some("[p] [output] a")
    );
    assert!(watcher.on_line("[output] b", SECOND - 1).is_none());
    assert!(watcher.on_line("state", SECOND - 1).is_some());
    assert!(watcher.on_line("[output] c", SECOND).is_some());
    let ticket = WatchTicket {
        instance_id: "i".to_string(),
        session_id: "s".to_string(),
        token: "t".to_string(),
        port: 1,
    };
    assert!(is_ticket_for(&ticket, "i", "s"));
    assert!(!is_ticket_for(&ticket, "i", "x"));
}
