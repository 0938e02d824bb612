use pty_bridge::entry::Ending;
use pty_bridge::mcp::{
    powershell_quote, powershell_wait_launch, read_limit, shell_command, shell_quote, start_result,
    wait_launch, working_directory, ReadMode, RequestError, Shell, Signal, SignalAction,
    StartRequest, WriteRequest, DEFAULT_COLS, DEFAULT_ROWS,
};
use pty_bridge::types::SessionState;
use std::collections::HashMap;
use std::path::PathBuf;

fn request() -> StartRequest {
    StartRequest {
        program: Some("sh".to_string()),
        command: None,
        args: vec!["-c".to_string()],
        cwd: None,
        env: HashMap::from([("A".to_string(), "b".to_string())]),
        rows: None,
        cols: Some(7),
        host_session_id: Some("host".to_string()),
    }
}

fn start(request: StartRequest) -> Result<(String, pty_bridge::types::StartSpec), RequestError> {
    request.start(false, Shell::Login(Some("/bin/zsh".to_string())), PathBuf::from("/tmp"))
}

#[test]
fn commands_run_through_a_login_shell() {
    let (shell, args) = shell_command("ls | head".into(), Shell::Login(Some("/bin/zsh".to_string())));
    assert!(!shell.is_empty());
    assert_eq!(args, ["-lc", "ls | head"]);
    assert_eq!(shell, "/bin/zsh");
    assert_eq!(shell_command("x".into(), Shell::Login(Some(String::new()))).0, "/bin/sh");
    assert_eq!(shell_command("x".into(), Shell::Login(None)).0, "/bin/sh");
}

#[test]
fn start_result_carries_only_what_the_model_acts_on() {
    let launch = wait_launch("/bin/pty-bridge", "inst_x", "pty_x", 123);
    let running = start_result("pty_x", SessionState::Running, None, launch);
    assert_eq!(running.session_id, "pty_x");
    assert_eq!(running.state, SessionState::Running);
    assert!(running.background_task.run_in_background);
    assert!(running.termination.is_none());
    let launch = wait_launch("/bin/pty-bridge", "inst_x", "pty_x", 123);
    let ending = Ending {
        reason: "natural_exit".to_string(),
        exit_code: Some(0),
        message: None,
    };
    let exited = start_result("pty_x", SessionState::Finished, Some(ending), launch);
    assert_eq!(exited.termination.unwrap().reason, "natural_exit");
}

#[test]
fn wait_command_quotes_paths_and_has_no_start_phase() {
    let launch = wait_launch("/o'k/pty", "inst_x", "pty_x", 123);
    let command = launch.command.as_str();
    assert!(command.contains(" wait "));
    assert!(command.contains("--port 123"));
    assert!(shell_quote("a'b c").starts_with('\''));
    assert_eq!(launch.tool, "Bash");
    assert_eq!(
        command,
        "'/o'\\''k/pty' wait --instance 'inst_x' --session 'pty_x' --port 123"
    );
}

#[test]
fn quoted_words_hold_any_text() {
    assert_eq!(shell_quote(""), "''");
    assert_eq!(shell_quote("a'b c"), "'a'\\''b c'");
    assert_eq!(shell_quote("$x `y` \\z"), "'$x `y` \\z'");
}

#[test]
fn starts_take_a_program_or_a_command() {
    let (host, spec) = start(request()).unwrap();
    assert_eq!(host, "host");
    assert_eq!(spec.program, "sh");
    assert_eq!(spec.args, vec!["-c"]);
    assert_eq!(spec.env.get("A").map(String::as_str), Some("b"));
    assert_eq!((spec.rows, spec.cols), (DEFAULT_ROWS, 7));
    assert_eq!((DEFAULT_ROWS, DEFAULT_COLS), (40, 120));
    assert_eq!(spec.cwd, PathBuf::from("/tmp"));
    let mut command = request();
    command.program = None;
    command.command = Some("echo hi | wc -c".to_string());
    let error = start(command).unwrap_err();
    assert_eq!(error.describe(), "args cannot be combined with command");
    let mut command = request();
    command.program = None;
    command.args = Vec::new();
    command.command = Some("echo hi | wc -c".to_string());
    let (_, spec) = start(command).unwrap();
    assert_eq!(spec.program, "/bin/zsh");
    assert_eq!(spec.args, vec!["-lc", "echo hi | wc -c"]);
}

#[test]
fn incomplete_starts_are_refused() {
    let mut both = request();
    both.command = Some("x".to_string());
    assert_eq!(
        start(both).unwrap_err().describe(),
        "provide exactly one of program or command"
    );
    let mut neither = request();
    neither.program = None;
    assert!(matches!(
        start(neither).unwrap_err(),
        RequestError::ProgramOrCommand
    ));
    let mut orphan = request();
    orphan.host_session_id = None;
    assert_eq!(
        start(orphan).unwrap_err().describe(),
        "missing host_session_id; the PTY Bridge PreToolUse hook must be enabled"
    );
    let disabled = request().start(true, Shell::Login(None), PathBuf::new()).unwrap_err();
    assert!(matches!(disabled, RequestError::BackgroundTasksDisabled));
    assert!(disabled.describe().starts_with("Background Tasks are disabled"));
}

#[test]
fn sessions_start_where_they_are_asked_to() {
    let a = PathBuf::from("/a");
    let b = PathBuf::from("/b");
    let c = PathBuf::from("/c");
    assert_eq!(working_directory(Some(a.clone()), Some(b.clone()), c.clone()), a);
    assert_eq!(working_directory(None, Some(b.clone()), c.clone()), b);
    assert_eq!(working_directory(None, None, c.clone()), c);
}

#[test]
fn reads_are_limited() {
    assert_eq!(read_limit(None).unwrap(), 65536);
    assert_eq!(read_limit(Some(10)).unwrap(), 10);
    assert_eq!(read_limit(Some(usize::MAX)).unwrap(), 1048576);
    assert_eq!(
        read_limit(Some(0)).unwrap_err().describe(),
        "max_output_bytes must be greater than zero"
    );
    assert_eq!(ReadMode::default(), ReadMode::Auto);
    assert!(ReadMode::Auto.shows_screen(true));
    assert!(!ReadMode::Raw.shows_screen(true));
}

#[test]
fn writes_take_text_or_keys() {
    let write = |text: Option<&str>, keys: Option<Vec<&str>>| WriteRequest {
        session_id: "pty_x".to_string(),
        text: text.map(|t| t.to_string()),
        keys: keys.map(|k| k.iter().map(|name| name.to_string()).collect()),
    };
    assert_eq!(write(Some("hé\n"), None).bytes(false).unwrap(), "hé\n".as_bytes());
    assert_eq!(
        write(None, Some(vec!["C-c", "Up"])).bytes(true).unwrap(),
        b"\x03\x1bOA"
    );
    assert_eq!(
        write(Some("x"), Some(vec![])).bytes(false).unwrap_err().describe(),
        "provide exactly one of text or keys"
    );
    assert!(write(None, None).bytes(false).is_err());
    assert_eq!(
        write(None, Some(vec!["Hyper"])).bytes(false).unwrap_err().describe(),
        "unknown key \"Hyper\""
    );
    let long = "x".repeat(65536);
    assert!(write(Some(&long), None).bytes(false).is_ok());
    let longer = "x".repeat(65537);
    assert_eq!(
        write(Some(&longer), None).bytes(false).unwrap_err().describe(),
        "input exceeds 65536 bytes"
    );
}

#[test]
fn interrupts_are_written_and_other_signals_sent() {
    assert_eq!(Signal::Interrupt.action(), SignalAction::Write(3));
    assert_eq!(Signal::Terminate.action(), SignalAction::Stop { force: false });
    assert_eq!(Signal::Kill.action(), SignalAction::Stop { force: true });
}

#[test]
fn windows_hosts_run_commands_through_their_interpreter() {
    let (shell, args) = shell_command("dir".into(), Shell::Interpreter(None));
    assert_eq!(shell, "cmd.exe");
    assert_eq!(args, vec!["/C".to_string(), "dir".to_string()]);
    let (shell, _) = shell_command(
        "dir".into(),
        Shell::Interpreter(Some("C:\\Windows\\cmd.exe".to_string())),
    );
    assert_eq!(shell, "C:\\Windows\\cmd.exe");
    assert_eq!(shell_command("dir".into(), Shell::Interpreter(Some(String::new()))).0, "");
}

#[test]
fn powershell_words_double_their_apostrophes() {
    assert_eq!(powershell_quote(""), "''");
    assert_eq!(powershell_quote("a'b c"), "'a''b c'");
    let launch = powershell_wait_launch("C:\\o'k\\pty.exe", "inst_x", "pty_x", 123);
    assert_eq!(launch.tool, "PowerShell");
    assert_eq!(
        launch.command,
        "& 'C:\\o''k\\pty.exe' wait --instance 'inst_x' --session 'pty_x' --port 123; exit $LASTEXITCODE"
    );
    assert!(launch.run_in_background);
}
