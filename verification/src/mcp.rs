//! The requests of the tools, and what is decided about each before a session is touched.
use crate::entry::Ending;
use crate::keys::{encode_all, encodings, KeyError};
use crate::text::{chars_of, decimal, decimal_string, texts};
use crate::types::{SessionState, StartSpec};
use std::collections::HashMap;
use vstd::prelude::*;
use vstd::string::*;
use vstd::utf8::encode_utf8;

verus! {

/// How output is returned.
#[derive(Debug, Clone, Copy, PartialEq, Eq, Structural)]
pub enum ReadMode {
    /// The screen while the program uses the alternate screen, otherwise text.
    Auto,
    /// Plain text of new output, with line-editor redraws resolved.
    Text,
    /// The current emulated screen with cursor and reverse-video highlights.
    Screen,
    /// Terminal bytes including escape sequences.
    Raw,
}

impl Default for ReadMode {
    fn default() -> (mode: Self)
        ensures
            mode == ReadMode::Auto,
    {
        ReadMode::Auto
    }
}

impl ReadMode {
    /// Whether a read in this mode returns the screen.
    pub open spec fn spec_shows_screen(self, alternate_screen: bool) -> bool {
        self == ReadMode::Screen || (self == ReadMode::Auto && alternate_screen)
    }

    pub fn shows_screen(self, alternate_screen: bool) -> (r: bool)
        ensures
            r == self.spec_shows_screen(alternate_screen),
    {
        match self {
            ReadMode::Screen => true,
            ReadMode::Auto => alternate_screen,
            ReadMode::Text | ReadMode::Raw => false,
        }
    }
}

/// Starts a session.
#[derive(Debug)]
pub struct StartRequest {
    /// Executable to start with args. Exactly one of program or command is given.
    pub program: Option<String>,
    /// Command line run by the login shell.
    pub command: Option<String>,
    pub args: Vec<String>,
    pub cwd: Option<String>,
    pub env: HashMap<String, String>,
    pub rows: Option<u16>,
    pub cols: Option<u16>,
    /// The host session that will own it.
    pub host_session_id: Option<String>,
}

/// Reads the output of a session.
#[derive(Debug)]
pub struct ReadRequest {
    pub session_id: String,
    pub cursor: u64,
    pub mode: ReadMode,
    pub max_output_bytes: Option<usize>,
    /// Longest wait in milliseconds.
    pub yield_time_ms: Option<u64>,
    /// Return once new output has been quiet this long.
    pub idle_ms: Option<u64>,
    /// Return as soon as this pattern matches new output.
    pub until: Option<String>,
}

/// Writes input to a session.
#[derive(Debug)]
pub struct WriteRequest {
    pub session_id: String,
    /// The input as text. Exactly one of text or keys is given.
    pub text: Option<String>,
    /// Named keys, written in order as one input.
    pub keys: Option<Vec<String>>,
}

/// Gives the terminal of a session another size.
#[derive(Debug)]
pub struct ResizeRequest {
    pub session_id: String,
    pub rows: u16,
    pub cols: u16,
}

/// Signals the program of a session.
#[derive(Debug)]
pub struct SignalRequest {
    pub session_id: String,
    pub signal: Signal,
}

#[derive(Debug, Clone, Copy, PartialEq, Eq, Structural)]
pub enum Signal {
    Interrupt,
    Terminate,
    Kill,
}

/// Asks for the state of one session or of all.
#[derive(Debug)]
pub struct StatusRequest {
    pub session_id: Option<String>,
}

/// Abandons a session.
#[derive(Debug)]
pub struct CloseRequest {
    pub session_id: String,
}

/// Why a request is refused.
#[derive(Debug)]
pub enum RequestError {
    BackgroundTasksDisabled,
    MissingHost,
    ArgsWithCommand,
    ProgramOrCommand,
    ZeroOutput,
    TextOrKeys,
    Key(KeyError),
    InputTooLong,
}

impl RequestError {
    pub open spec fn spec_describe(self) -> Seq<char> {
        match self {
            RequestError::BackgroundTasksDisabled => "Background Tasks are disabled; PTY Bridge requires the native monitor and a bgshell per PTY"@,
            RequestError::MissingHost => "missing host_session_id; the PTY Bridge PreToolUse hook must be enabled"@,
            RequestError::ArgsWithCommand => "args cannot be combined with command"@,
            RequestError::ProgramOrCommand => "provide exactly one of program or command"@,
            RequestError::ZeroOutput => "max_output_bytes must be greater than zero"@,
            RequestError::TextOrKeys => "provide exactly one of text or keys"@,
            RequestError::Key(error) => error.spec_describe(),
            RequestError::InputTooLong => "input exceeds 65536 bytes"@,
        }
    }

    /// The error in words.
    pub fn describe(&self) -> (text: String)
        ensures
            text@ == self.spec_describe(),
    {
        match self {
            RequestError::BackgroundTasksDisabled => "Background Tasks are disabled; PTY Bridge requires the native monitor and a bgshell per PTY".to_string(),
            RequestError::MissingHost => "missing host_session_id; the PTY Bridge PreToolUse hook must be enabled".to_string(),
            RequestError::ArgsWithCommand => "args cannot be combined with command".to_string(),
            RequestError::ProgramOrCommand => "provide exactly one of program or command".to_string(),
            RequestError::ZeroOutput => "max_output_bytes must be greater than zero".to_string(),
            RequestError::TextOrKeys => "provide exactly one of text or keys".to_string(),
            RequestError::Key(error) => error.describe(),
            RequestError::InputTooLong => "input exceeds 65536 bytes".to_string(),
        }
    }
}

/// The size of a terminal that is started without one.
pub const DEFAULT_ROWS: u16 = 40;

pub const DEFAULT_COLS: u16 = 120;

/// Bytes of output that a read returns at most unless it is said otherwise, and at most of all.
pub const DEFAULT_OUTPUT: usize = 65_536;

pub const MOST_OUTPUT: usize = 1_048_576;

/// Bytes of one input.
pub const MOST_INPUT: usize = 65_536;

/// The shell that command lines are run by, each with what the environment says of it.
#[derive(Debug)]
pub enum Shell {
    /// The login shell of the user.
    Login(Option<String>),
    /// The command interpreter of a Windows host.
    Interpreter(Option<String>),
}

/// The program of a shell: a login shell named by an empty text counts as not named.
pub open spec fn shell_of(shell: Shell) -> Seq<char> {
    match shell {
        Shell::Login(Some(shell)) => if shell@.len() > 0 {
            shell@
        } else {
            "/bin/sh"@
        },
        Shell::Login(None) => "/bin/sh"@,
        Shell::Interpreter(Some(shell)) => shell@,
        Shell::Interpreter(None) => "cmd.exe"@,
    }
}

/// The option after which a shell takes a command line.
pub open spec fn shell_option(shell: Shell) -> Seq<char> {
    match shell {
        Shell::Login(_) => "-lc"@,
        Shell::Interpreter(_) => "/C"@,
    }
}

/// Runs a command line through the user's shell.
pub fn shell_command(command: String, shell: Shell) -> (r: (String, Vec<String>))
    ensures
        r.0@ == shell_of(shell),
        r.1@.len() == 2,
        r.1@[0]@ == shell_option(shell),
        r.1@[1]@ == command@,
{
    let (program, option) = match shell {
        Shell::Login(Some(shell)) => if shell.as_str().is_empty() {
            ("/bin/sh".to_string(), "-lc".to_string())
        } else {
            (shell, "-lc".to_string())
        },
        Shell::Login(None) => ("/bin/sh".to_string(), "-lc".to_string()),
        Shell::Interpreter(Some(shell)) => (shell, "/C".to_string()),
        Shell::Interpreter(None) => ("cmd.exe".to_string(), "/C".to_string()),
    };
    let mut args: Vec<String> = Vec::new();
    args.push(option);
    args.push(command);
    (program, args)
}

/// What a start request asks to run, or why it is refused.
pub open spec fn launch_of(
    request: StartRequest,
    background_tasks_disabled: bool,
    shell: Shell,
) -> Result<(Seq<char>, Seq<Seq<char>>), RequestError> {
    if background_tasks_disabled {
        Err(RequestError::BackgroundTasksDisabled)
    } else if request.host_session_id is None {
        Err(RequestError::MissingHost)
    } else {
        match (request.program, request.command) {
            (Some(program), None) => Ok((program@, texts(request.args@))),
            (None, Some(command)) => if request.args@.len() == 0 {
                Ok((shell_of(shell), seq![shell_option(shell), command@]))
            } else {
                Err(RequestError::ArgsWithCommand)
            },
            _ => Err(RequestError::ProgramOrCommand),
        }
    }
}

impl StartRequest {
    /// Makes the request into what to start and for which host session, in the given directory.
    pub fn start(
        self,
        background_tasks_disabled: bool,
        shell: Shell,
        cwd: std::path::PathBuf,
    ) -> (r: Result<(String, StartSpec), RequestError>)
        ensures
            match r {
                Ok((host, spec)) => {
                    &&& self.host_session_id == Some(host)
                    &&& launch_of(self, background_tasks_disabled, shell) == Ok::<
                        (Seq<char>, Seq<Seq<char>>),
                        RequestError,
                    >((spec.program@, texts(spec.args@)))
                    &&& spec.cwd == cwd
                    &&& spec.env == self.env
                    &&& spec.rows == match self.rows {
                        Some(rows) => rows,
                        None => DEFAULT_ROWS,
                    }
                    &&& spec.cols == match self.cols {
                        Some(cols) => cols,
                        None => DEFAULT_COLS,
                    }
                    &&& self.rows is None ==> spec.rows == 40
                    &&& self.cols is None ==> spec.cols == 120
                },
                Err(error) => launch_of(self, background_tasks_disabled, shell) == Err::<
                    (Seq<char>, Seq<Seq<char>>),
                    RequestError,
                >(error),
            },
    {
        if background_tasks_disabled {
            return Err(RequestError::BackgroundTasksDisabled);
        }
        let host = match self.host_session_id {
            Some(host) => host,
            None => {
                return Err(RequestError::MissingHost);
            },
        };
        let (program, args) = match self.program {
            Some(program) => {
                if self.command.is_some() {
                    return Err(RequestError::ProgramOrCommand);
                }
                (program, self.args)
            },
            None => match self.command {
                Some(command) => {
                    if self.args.len() > 0 {
                        return Err(RequestError::ArgsWithCommand);
                    }
                    let (program, args) = shell_command(command, shell);
                    assert(texts(args@) =~= seq![shell_option(shell), command@]);
                    (program, args)
                },
                None => {
                    return Err(RequestError::ProgramOrCommand);
                },
            },
        };
        let rows: u16 = match self.rows {
            Some(rows) => rows,
            None => DEFAULT_ROWS,
        };
        let cols: u16 = match self.cols {
            Some(cols) => cols,
            None => DEFAULT_COLS,
        };
        Ok((host, StartSpec { program, args, cwd, env: self.env, rows, cols }))
    }
}

/// The directory to start in: the one asked for, else that of the project, else the current one.
pub fn working_directory(
    asked: Option<std::path::PathBuf>,
    project: Option<std::path::PathBuf>,
    current: std::path::PathBuf,
) -> (cwd: std::path::PathBuf)
    ensures
        cwd == match (asked, project) {
            (Some(path), _) => path,
            (None, Some(path)) => path,
            (None, None) => current,
        },
{
    match asked {
        Some(path) => path,
        None => match project {
            Some(path) => path,
            None => current,
        },
    }
}

/// How many bytes a read returns at most.
pub fn read_limit(max_output_bytes: Option<usize>) -> (r: Result<usize, RequestError>)
    ensures
        match max_output_bytes {
            None => r == Ok::<usize, RequestError>(DEFAULT_OUTPUT),
            Some(asked) => r == (if asked == 0 {
                Err(RequestError::ZeroOutput)
            } else if asked > MOST_OUTPUT {
                Ok(MOST_OUTPUT)
            } else {
                Ok(asked)
            }),
        },
        r matches Ok(limit) ==> 0 < limit <= 1_048_576,
        max_output_bytes is None ==> r == Ok::<usize, RequestError>(65_536),
        max_output_bytes matches Some(asked) ==> 0 < asked <= 1_048_576 ==> r == Ok::<
            usize,
            RequestError,
        >(asked),
        max_output_bytes matches Some(asked) ==> asked > 1_048_576 ==> r == Ok::<
            usize,
            RequestError,
        >(1_048_576),
{
    match max_output_bytes {
        None => Ok(DEFAULT_OUTPUT),
        Some(asked) => if asked == 0 {
            Err(RequestError::ZeroOutput)
        } else if asked > MOST_OUTPUT {
            Ok(MOST_OUTPUT)
        } else {
            Ok(asked)
        },
    }
}

impl WriteRequest {
    /// Whether this is what the request writes, or why it is refused.
    pub open spec fn writes(&self, application_cursor: bool, r: Result<Vec<u8>, RequestError>) -> bool {
        match (self.text, self.keys) {
            (Some(text), None) => if encode_utf8(text@).len() > MOST_INPUT {
                r == Err::<Vec<u8>, RequestError>(RequestError::InputTooLong)
            } else {
                r is Ok && r->Ok_0@ == encode_utf8(text@)
            },
            (None, Some(keys)) => match encodings(texts(keys@), application_cursor) {
                Ok(bytes) => if bytes.len() > MOST_INPUT {
                    r == Err::<Vec<u8>, RequestError>(RequestError::InputTooLong)
                } else {
                    r is Ok && r->Ok_0@ == bytes
                },
                Err((name, fault)) => r matches Err(RequestError::Key(error)) && error.name@ == name
                    && error.fault == fault,
            },
            _ => r == Err::<Vec<u8>, RequestError>(RequestError::TextOrKeys),
        }
    }

    /// The bytes that the request writes, given whether the application enabled cursor-key mode.
    pub fn bytes(&self, application_cursor: bool) -> (r: Result<Vec<u8>, RequestError>)
        ensures
            self.writes(application_cursor, r),
    {
        let bytes = match (&self.text, &self.keys) {
            (Some(text), None) => {
                let mut bytes: Vec<u8> = Vec::new();
                bytes.extend_from_slice(text.as_str().as_bytes());
                assert(bytes@ =~= encode_utf8(text@));
                bytes
            },
            (None, Some(keys)) => match encode_all(keys.as_slice(), application_cursor) {
                Ok(bytes) => bytes,
                Err(error) => {
                    return Err(RequestError::Key(error));
                },
            },
            _ => {
                return Err(RequestError::TextOrKeys);
            },
        };
        if bytes.len() > MOST_INPUT {
            return Err(RequestError::InputTooLong);
        }
        Ok(bytes)
    }
}

/// What is done about a signal.
#[derive(Debug, Clone, Copy, PartialEq, Eq, Structural)]
pub enum SignalAction {
    /// Write this byte, which the terminal makes into an interrupt.
    Write(u8),
    /// Signal the process tree, whatever the writer does.
    Stop { force: bool },
}

impl Signal {
    /// What is done about the signal: an interrupt is Ctrl-C.
    pub fn action(self) -> (action: SignalAction)
        ensures
            action == match self {
                Signal::Interrupt => SignalAction::Write(0x03),
                Signal::Terminate => SignalAction::Stop { force: false },
                Signal::Kill => SignalAction::Stop { force: true },
            },
    {
        match self {
            Signal::Interrupt => SignalAction::Write(0x03),
            Signal::Terminate => SignalAction::Stop { force: false },
            Signal::Kill => SignalAction::Stop { force: true },
        }
    }
}

/// A text with every apostrophe replaced by one that ends a quotation, stands for itself and begins
/// another.
pub open spec fn escaped_quotes(value: Seq<char>) -> Seq<char>
    decreases value.len(),
{
    if value.len() == 0 {
        value
    } else if value.last() == '\'' {
        escaped_quotes(value.drop_last()) + seq!['\'', '\\', '\'', '\'']
    } else {
        escaped_quotes(value.drop_last()).push(value.last())
    }
}

/// A text as one word of a shell.
pub open spec fn quoted_word(value: Seq<char>) -> Seq<char> {
    seq!['\''] + escaped_quotes(value) + seq!['\'']
}

/// Quotes a text as one word of a shell.
pub fn shell_quote(value: &str) -> (word: String)
    ensures
        word@ == quoted_word(value@),
{
    let chars = chars_of(value);
    let mut word = String::new();
    word.push('\'');
    let mut i: usize = 0;
    assert(word@ =~= seq!['\''] + escaped_quotes(chars@.take(0)));
    while i < chars.len()
        invariant
            i <= chars@.len(),
            word@ == seq!['\''] + escaped_quotes(chars@.take(i as int)),
        decreases chars@.len() - i,
    {
        let c = chars[i];
        assert(chars@.take(i + 1).drop_last() == chars@.take(i as int));
        assert(chars@.take(i + 1).last() == c);
        if c == '\'' {
            word.push('\'');
            word.push('\\');
            word.push('\'');
            word.push('\'');
        } else {
            word.push(c);
        }
        i += 1;
        assert(word@ =~= seq!['\''] + escaped_quotes(chars@.take(i as int)));
    }
    word.push('\'');
    assert(chars@.take(i as int) == chars@);
    assert(word@ =~= quoted_word(value@));
    word
}

/// What a shell makes of characters that are quoted by apostrophes or backslashes: the text they
/// stand for, whether a quotation is still open, and whether a backslash is still to be followed.
/// Characters outside of quotation are no part of such a word.
pub open spec fn shell_reads(word: Seq<char>) -> Option<(Seq<char>, bool, bool)>
    decreases word.len(),
{
    if word.len() == 0 {
        Some((Seq::empty(), false, false))
    } else {
        match shell_reads(word.drop_last()) {
            None => None,
            Some((text, quoted, escaped)) => {
                let c = word.last();
                if quoted {
                    if c == '\'' {
                        Some((text, false, false))
                    } else {
                        Some((text.push(c), true, false))
                    }
                } else if escaped {
                    Some((text.push(c), false, false))
                } else if c == '\'' {
                    Some((text, true, false))
                } else if c == '\\' {
                    Some((text, false, true))
                } else {
                    None
                }
            },
        }
    }
}

proof fn lemma_shell_reads_open(value: Seq<char>)
    ensures
        shell_reads(seq!['\''] + escaped_quotes(value)) == Some((value, true, false)),
    decreases value.len(),
{
    let word = seq!['\''] + escaped_quotes(value);
    if value.len() == 0 {
        assert(word.drop_last() == Seq::<char>::empty());
        assert(word.last() == '\'');
        assert(value == Seq::<char>::empty());
        reveal_with_fuel(shell_reads, 2);
    } else {
        let shorter = value.drop_last();
        lemma_shell_reads_open(shorter);
        let before = seq!['\''] + escaped_quotes(shorter);
        assert(shorter.push(value.last()) == value);
        if value.last() == '\'' {
            let a = before.push('\'');
            let b = a.push('\\');
            let c = b.push('\'');
            let d = c.push('\'');
            assert(word =~= d);
            assert(a.drop_last() == before);
            assert(b.drop_last() == a);
            assert(c.drop_last() == b);
            assert(d.drop_last() == c);
            assert(shell_reads(a) == Some((shorter, false, false)));
            assert(shell_reads(b) == Some((shorter, false, true)));
            assert(shell_reads(c) == Some((value, false, false)));
            assert(shell_reads(d) == Some((value, true, false)));
        } else {
            assert(word =~= before.push(value.last()));
            assert(word.drop_last() == before);
        }
    }
}

/// A shell reads a quoted word back as the text that was quoted, whatever it holds.
pub proof fn law_shell_reads_quoted_words_back(value: Seq<char>)
    ensures
        shell_reads(quoted_word(value)) == Some((value, false, false)),
{
    lemma_shell_reads_open(value);
    let open = seq!['\''] + escaped_quotes(value);
    assert(quoted_word(value) =~= open.push('\''));
    assert(open.push('\'').drop_last() == open);
}

/// The command by which a host waits for a session in the background.
#[derive(Debug)]
pub struct Launch {
    pub tool: String,
    pub command: String,
    pub run_in_background: bool,
}

/// The command line that waits for a session.
pub open spec fn wait_command(
    exe: Seq<char>,
    instance: Seq<char>,
    session: Seq<char>,
    port: u16,
) -> Seq<char> {
    quoted_word(exe) + " wait --instance "@ + quoted_word(instance) + " --session "@ + quoted_word(
        session,
    ) + " --port "@ + decimal(port as nat)
}

/// The command by which a host waits for a session. It does not start anything.
pub fn wait_launch(exe: &str, instance: &str, session: &str, port: u16) -> (launch: Launch)
    ensures
        launch.tool@ == "Bash"@,
        launch.command@ == wait_command(exe@, instance@, session@, port),
        launch.run_in_background,
{
    let mut command = shell_quote(exe);
    command.append(" wait --instance ");
    command.append(shell_quote(instance).as_str());
    command.append(" --session ");
    command.append(shell_quote(session).as_str());
    command.append(" --port ");
    command.append(decimal_string(port as u64).as_str());
    Launch { tool: "Bash".to_string(), command, run_in_background: true }
}

/// The text with every apostrophe doubled.
pub open spec fn doubled_quotes(value: Seq<char>) -> Seq<char>
    decreases value.len(),
{
    if value.len() == 0 {
        value
    } else if value.last() == '\'' {
        doubled_quotes(value.drop_last()) + seq!['\'', '\'']
    } else {
        doubled_quotes(value.drop_last()).push(value.last())
    }
}

/// The word of PowerShell that stands for a text.
pub open spec fn powershell_word(value: Seq<char>) -> Seq<char> {
    seq!['\''] + doubled_quotes(value) + seq!['\'']
}

/// Quotes a text as one word of PowerShell.
pub fn powershell_quote(value: &str) -> (word: String)
    ensures
        word@ == powershell_word(value@),
{
    let chars = chars_of(value);
    let mut word = String::new();
    word.push('\'');
    let mut i: usize = 0;
    assert(word@ =~= seq!['\''] + doubled_quotes(chars@.take(0)));
    while i < chars.len()
        invariant
            i <= chars@.len(),
            word@ == seq!['\''] + doubled_quotes(chars@.take(i as int)),
        decreases chars@.len() - i,
    {
        let c = chars[i];
        assert(chars@.take(i + 1).drop_last() == chars@.take(i as int));
        assert(chars@.take(i + 1).last() == c);
        if c == '\'' {
            word.push('\'');
        }
        word.push(c);
        i += 1;
        assert(word@ =~= seq!['\''] + doubled_quotes(chars@.take(i as int)));
    }
    word.push('\'');
    assert(chars@.take(i as int) == chars@);
    assert(word@ =~= powershell_word(value@));
    word
}

/// What PowerShell makes of a word between apostrophes: the text it stands for so far, and whether
/// an apostrophe has just ended it, unless a second one follows. Nothing else may follow.
pub open spec fn powershell_reads(word: Seq<char>) -> Option<(Seq<char>, bool)>
    decreases word.len(),
{
    if word.len() == 0 {
        None
    } else if word.len() == 1 {
        if word[0] == '\'' {
            Some((Seq::empty(), false))
        } else {
            None
        }
    } else {
        match powershell_reads(word.drop_last()) {
            None => None,
            Some((text, ended)) => if word.last() == '\'' {
                if ended {
                    Some((text.push('\''), false))
                } else {
                    Some((text, true))
                }
            } else if ended {
                None
            } else {
                Some((text.push(word.last()), false))
            },
        }
    }
}

proof fn lemma_powershell_reads_open(value: Seq<char>)
    ensures
        powershell_reads(seq!['\''] + doubled_quotes(value)) == Some((value, false)),
    decreases value.len(),
{
    let word = seq!['\''] + doubled_quotes(value);
    if value.len() == 0 {
        assert(word.len() == 1 && word[0] == '\'');
        assert(value == Seq::<char>::empty());
    } else {
        let shorter = value.drop_last();
        lemma_powershell_reads_open(shorter);
        let before = seq!['\''] + doubled_quotes(shorter);
        assert(shorter.push(value.last()) == value);
        if value.last() == '\'' {
            let once = before.push('\'');
            assert(word =~= once.push('\''));
            assert(once.drop_last() == before);
            assert(once.push('\'').drop_last() == once);
            assert(powershell_reads(once) == Some((shorter, true)));
        } else {
            assert(word =~= before.push(value.last()));
            assert(word.drop_last() == before);
        }
    }
}

/// PowerShell reads a quoted word back as the text that was quoted, whatever it holds.
pub proof fn law_powershell_reads_quoted_words_back(value: Seq<char>)
    ensures
        powershell_reads(powershell_word(value)) == Some((value, true)),
{
    lemma_powershell_reads_open(value);
    let open = seq!['\''] + doubled_quotes(value);
    assert(powershell_word(value) =~= open.push('\''));
    assert(open.push('\'').drop_last() == open);
}

/// The command line that waits for a session on a Windows host.
pub open spec fn powershell_wait_command(
    exe: Seq<char>,
    instance: Seq<char>,
    session: Seq<char>,
    port: u16,
) -> Seq<char> {
    "& "@ + powershell_word(exe) + " wait --instance "@ + powershell_word(instance)
        + " --session "@ + powershell_word(session) + " --port "@ + decimal(port as nat)
        + "; exit $LASTEXITCODE"@
}

/// The command by which a Windows host waits for a session. It does not start anything.
pub fn powershell_wait_launch(exe: &str, instance: &str, session: &str, port: u16) -> (launch:
    Launch)
    ensures
        launch.tool@ == "PowerShell"@,
        launch.command@ == powershell_wait_command(exe@, instance@, session@, port),
        launch.run_in_background,
{
    let mut command = "& ".to_string();
    command.append(powershell_quote(exe).as_str());
    command.append(" wait --instance ");
    command.append(powershell_quote(instance).as_str());
    command.append(" --session ");
    command.append(powershell_quote(session).as_str());
    command.append(" --port ");
    command.append(decimal_string(port as u64).as_str());
    command.append("; exit $LASTEXITCODE");
    Launch { tool: "PowerShell".to_string(), command, run_in_background: true }
}

/// What a start returns. The instance and port live inside the command, so they are left out.
#[derive(Debug)]
pub struct StartResult {
    pub session_id: String,
    pub state: SessionState,
    pub background_task: Launch,
    /// How the session ended, where it already has.
    pub termination: Option<Ending>,
}

/// Makes what a start returns.
pub fn start_result(
    session_id: &str,
    state: SessionState,
    termination: Option<Ending>,
    launch: Launch,
) -> (result: StartResult)
    ensures
        result.session_id@ == session_id@,
        result.state == state,
        result.background_task == launch,
        result.termination == termination,
{
    StartResult {
        session_id: session_id.to_string(),
        state,
        background_task: launch,
        termination,
    }
}

/// A command line is run by the login shell with `-lc`, which is `/bin/sh` where it is not named or
/// named by nothing, and on Windows by the command interpreter with `/C`, which is `cmd.exe` where it
/// is not named.
pub proof fn law_commands_are_run_by_the_shell(named: String)
    ensures
        shell_of(Shell::Login(Some(named))) == (if named@.len() == 0 {
            "/bin/sh"@
        } else {
            named@
        }),
        shell_of(Shell::Login(None)) == "/bin/sh"@,
        shell_of(Shell::Interpreter(Some(named))) == named@,
        shell_of(Shell::Interpreter(None)) == "cmd.exe"@,
        shell_option(Shell::Login(Some(named))) == "-lc"@,
        shell_option(Shell::Login(None)) == "-lc"@,
        shell_option(Shell::Interpreter(Some(named))) == "/C"@,
        shell_option(Shell::Interpreter(None)) == "/C"@,
{
}

/// A start names exactly one of a program and a command. A program is started with its arguments, a
/// command by the shell with the command line as its last argument, and it takes no others. Nothing is
/// started without background tasks or without a host session.
pub proof fn law_what_a_start_runs(request: StartRequest, disabled: bool, shell: Shell)
    ensures
        ({
            let launch = launch_of(request, disabled, shell);
            let one = request.program is Some != request.command is Some;
            &&& disabled ==> launch is Err && launch->Err_0 is BackgroundTasksDisabled
            &&& !disabled && request.host_session_id is None ==> launch is Err && launch->Err_0
                is MissingHost
            &&& !disabled && request.host_session_id is Some && !one ==> launch is Err
                && launch->Err_0 is ProgramOrCommand
            &&& !disabled && request.host_session_id is Some && one && request.program is Some ==> {
                &&& launch is Ok
                &&& launch->Ok_0 == (request.program->0@, texts(request.args@))
            }
            &&& !disabled && request.host_session_id is Some && one && request.command is Some ==> {
                &&& request.args@.len() > 0 ==> launch is Err && launch->Err_0 is ArgsWithCommand
                &&& request.args@.len() == 0 ==> launch is Ok && launch->Ok_0 == (
                    shell_of(shell),
                    seq![shell_option(shell), request.command->0@],
                )
            }
        }),
{
}

/// An input is exactly one of a text and keys, and at most 65536 bytes long. A text is written as it
/// is, in UTF-8; keys are written as they are encoded, and the first without an encoding is reported.
pub proof fn law_what_a_write_sends(
    request: WriteRequest,
    application_cursor: bool,
    r: Result<Vec<u8>, RequestError>,
)
    requires
        request.writes(application_cursor, r),
    ensures
        r matches Ok(bytes) ==> bytes@.len() <= 65_536,
        request.text is Some == request.keys is Some ==> r is Err && r->Err_0 is TextOrKeys,
        request.text is Some && request.keys is None ==> {
            let bytes = encode_utf8(request.text->0@);
            &&& bytes.len() <= 65_536 ==> r is Ok && r->Ok_0@ == bytes
            &&& bytes.len() > 65_536 ==> r is Err && r->Err_0 is InputTooLong
        },
        request.text is None && request.keys is Some ==> match encodings(
            texts(request.keys->0@),
            application_cursor,
        ) {
            Ok(bytes) => {
                &&& bytes.len() <= 65_536 ==> r is Ok && r->Ok_0@ == bytes
                &&& bytes.len() > 65_536 ==> r is Err && r->Err_0 is InputTooLong
            },
            Err((name, fault)) => r matches Err(RequestError::Key(error)) && error.name@ == name
                && error.fault == fault,
        },
{
}

/// The command line names the program, the instance and the session as quoted words and the port as
/// a number, each behind what says which it is.
pub proof fn law_wait_commands_name_the_session(
    exe: Seq<char>,
    instance: Seq<char>,
    session: Seq<char>,
    port: u16,
)
    ensures
        wait_command(exe, instance, session, port) == quoted_word(exe) + (" wait --instance "@
            + quoted_word(instance)) + (" --session "@ + quoted_word(session)) + (" --port "@
            + decimal(port as nat)),
        powershell_wait_command(exe, instance, session, port) == "& "@ + powershell_word(exe) + (
        " wait --instance "@ + powershell_word(instance)) + (" --session "@ + powershell_word(
            session,
        )) + (" --port "@ + decimal(port as nat)) + "; exit $LASTEXITCODE"@,
{
    assert(wait_command(exe, instance, session, port) =~= quoted_word(exe) + (" wait --instance "@
        + quoted_word(instance)) + (" --session "@ + quoted_word(session)) + (" --port "@ + decimal(
        port as nat,
    )));
    assert(powershell_wait_command(exe, instance, session, port) =~= "& "@ + powershell_word(exe) + (
    " wait --instance "@ + powershell_word(instance)) + (" --session "@ + powershell_word(session))
        + (" --port "@ + decimal(port as nat)) + "; exit $LASTEXITCODE"@);
}

/// A read in a mode shows the screen where the mode asks for it, or leaves the choice and the
/// alternate screen is in use.
pub proof fn law_when_the_screen_is_shown(alternate_screen: bool)
    ensures
        ReadMode::Screen.spec_shows_screen(alternate_screen),
        !ReadMode::Text.spec_shows_screen(alternate_screen),
        !ReadMode::Raw.spec_shows_screen(alternate_screen),
        ReadMode::Auto.spec_shows_screen(alternate_screen) <==> alternate_screen,
{
}

/// An interrupt is written as Ctrl-C, to be made into a signal by the terminal; the other signals go
/// to the process tree, and a kill is forced.
pub proof fn law_what_signals_do(signal: Signal, action: SignalAction)
    requires
        call_ensures(Signal::action, (signal,), action),
    ensures
        signal is Interrupt <==> action is Write,
        action matches SignalAction::Write(byte) ==> byte == ('C' as int) - 64,
        action matches SignalAction::Stop { force } ==> (force <==> signal is Kill),
{
}

/// A read returns at least one byte where there is one and never more than a mebibyte; more is asked
/// for in vain, and what is asked for within these bounds is what is given.
pub proof fn law_how_much_a_read_returns(
    a: usize,
    b: usize,
    first: Result<usize, RequestError>,
    second: Result<usize, RequestError>,
    usual: Result<usize, RequestError>,
)
    requires
        a <= b,
        call_ensures(read_limit, (Some(a),), first),
        call_ensures(read_limit, (Some(b),), second),
        call_ensures(read_limit, (None::<usize>,), usual),
    ensures
        first is Err <==> a == 0,
        first is Err ==> first->Err_0 is ZeroOutput,
        first is Ok ==> second is Ok && first->Ok_0 <= second->Ok_0,
        first is Ok && a <= 1024 * 1024 ==> first->Ok_0 == a,
        first is Ok && a > 1024 * 1024 ==> first->Ok_0 == 1024 * 1024,
        usual is Ok && usual->Ok_0 == 64 * 1024,
{
}

/// A session starts in the directory that was asked for, else in that of the project, else in the
/// current one.
pub proof fn law_where_a_session_starts(
    asked: std::path::PathBuf,
    project: std::path::PathBuf,
    other: Option<std::path::PathBuf>,
    current: std::path::PathBuf,
    a: std::path::PathBuf,
    b: std::path::PathBuf,
    c: std::path::PathBuf,
)
    requires
        call_ensures(working_directory, (Some(asked), other, current), a),
        call_ensures(working_directory, (None, Some(project), current), b),
        call_ensures(working_directory, (None, None, current), c),
    ensures
        a == asked,
        b == project,
        c == current,
{
}

/// A session is waited for in the background, by a command of the host's own shell.
pub proof fn law_sessions_are_waited_for_in_the_background(
    exe: &str,
    instance: &str,
    session: &str,
    port: u16,
    unix: Launch,
    windows: Launch,
)
    requires
        call_ensures(wait_launch, (exe, instance, session, port), unix),
        call_ensures(powershell_wait_launch, (exe, instance, session, port), windows),
    ensures
        unix.run_in_background && windows.run_in_background,
        unix.tool@ == "Bash"@,
        windows.tool@ == "PowerShell"@,
        unix.command@ == wait_command(exe@, instance@, session@, port),
        windows.command@ == powershell_wait_command(exe@, instance@, session@, port),
{
}

/// What is started is for the host session that was named, with the environment and the size that
/// were asked for, in a terminal of 40 rows by 120 columns where none was.
pub proof fn law_starts_are_what_was_asked_for(
    request: StartRequest,
    disabled: bool,
    shell: Shell,
    cwd: std::path::PathBuf,
    r: Result<(String, StartSpec), RequestError>,
)
    requires
        call_ensures(StartRequest::start, (request, disabled, shell, cwd), r),
    ensures
        r is Ok <==> launch_of(request, disabled, shell) is Ok,
        r matches Err(error) ==> launch_of(request, disabled, shell)->Err_0 == error,
        r matches Ok((host, spec)) ==> {
            &&& request.host_session_id == Some(host)
            &&& (spec.program@, texts(spec.args@)) == launch_of(request, disabled, shell)->Ok_0
            &&& spec.cwd == cwd
            &&& spec.env == request.env
            &&& request.rows matches Some(rows) ==> spec.rows == rows
            &&& request.cols matches Some(cols) ==> spec.cols == cols
            &&& request.rows is None ==> spec.rows == 40
            &&& request.cols is None ==> spec.cols == 120
        },
{
}

/// Every refusal of a request says what is wrong with it.
pub proof fn law_request_errors_in_words(error: &RequestError, text: String)
    requires
        call_ensures(RequestError::describe, (error,), text),
    ensures
        *error matches RequestError::BackgroundTasksDisabled ==> text@ == "Background Tasks are disabled; PTY Bridge requires the native monitor and a bgshell per PTY"@,
        *error matches RequestError::MissingHost ==> text@ == "missing host_session_id; the PTY Bridge PreToolUse hook must be enabled"@,
        *error matches RequestError::ArgsWithCommand ==> text@ == "args cannot be combined with command"@,
        *error matches RequestError::ProgramOrCommand ==> text@ == "provide exactly one of program or command"@,
        *error matches RequestError::ZeroOutput ==> text@ == "max_output_bytes must be greater than zero"@,
        *error matches RequestError::TextOrKeys ==> text@ == "provide exactly one of text or keys"@,
        *error matches RequestError::Key(error) ==> text@ == error.spec_describe(),
        *error matches RequestError::InputTooLong ==> text@ == "input exceeds 65536 bytes"@,
{
}

/// A request writes the bytes that it sends, and a start returns the session that was started with the
/// command that waits for it.
pub proof fn law_what_requests_come_to(
    request: &WriteRequest,
    application_cursor: bool,
    bytes: Result<Vec<u8>, RequestError>,
    session: &str,
    state: SessionState,
    end: Option<Ending>,
    launch: Launch,
    result: StartResult,
)
    requires
        call_ensures(WriteRequest::bytes, (request, application_cursor), bytes),
        call_ensures(start_result, (session, state, end, launch), result),
    ensures
        request.writes(application_cursor, bytes),
        result.session_id@ == session@,
        result.state == state,
        result.termination == end,
        result.background_task == launch,
{
}

} // verus!
