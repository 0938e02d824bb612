//! Which process a session controls, and how it is signalled.
use vstd::prelude::*;

verus! {

/// Names the process tree of a session for whoever has to end it.
#[derive(Debug, PartialEq, Eq)]
pub enum ProcessLocator {
    Unix { process_id: i32, process_group: Option<i32> },
    WindowsJob { name: String },
}

impl Clone for ProcessLocator {
    fn clone(&self) -> (copy: Self)
        ensures
            copy == *self,
    {
        match self {
            ProcessLocator::Unix { process_id, process_group } => ProcessLocator::Unix {
                process_id: *process_id,
                process_group: *process_group,
            },
            ProcessLocator::WindowsJob { name } => ProcessLocator::WindowsJob {
                name: name.clone(),
            },
        }
    }
}

/// Why a process cannot be located or signalled.
#[derive(Debug, Clone, Copy, PartialEq, Eq, Structural)]
pub enum ProcessError {
    NoProcessId,
    WrongPlatform,
    InvalidLocator,
    /// The system refused the signal, with its error number where there is one.
    Signal(Option<i32>),
    /// The system refused to open the job, with its error number where there is one.
    OpenJob(Option<i32>),
    /// The system refused to end the job, with its error number where there is one.
    EndJob(Option<i32>),
}

impl ProcessError {
    pub open spec fn spec_describe(self) -> Seq<char> {
        match self {
            ProcessError::NoProcessId => "PTY child has no process id"@,
            ProcessError::WrongPlatform => "wrong platform locator"@,
            ProcessError::InvalidLocator => "invalid process locator"@,
            ProcessError::Signal(_) => "signal PTY process tree"@,
            ProcessError::OpenJob(_) => "open PTY job"@,
            ProcessError::EndJob(_) => "terminate PTY job"@,
        }
    }

    /// The error in words.
    pub fn describe(self) -> (text: String)
        ensures
            text@ == self.spec_describe(),
    {
        match self {
            ProcessError::NoProcessId => "PTY child has no process id".to_string(),
            ProcessError::WrongPlatform => "wrong platform locator".to_string(),
            ProcessError::InvalidLocator => "invalid process locator".to_string(),
            ProcessError::Signal(_) => "signal PTY process tree".to_string(),
            ProcessError::OpenJob(_) => "open PTY job".to_string(),
            ProcessError::EndJob(_) => "terminate PTY job".to_string(),
        }
    }
}

/// What a process runs on.
#[derive(Debug, Clone, Copy, PartialEq, Eq, Structural)]
pub enum Host {
    Unix,
    Windows,
}

/// How to reach a process tree.
#[derive(Debug, PartialEq, Eq)]
pub enum Kill {
    /// A signal to a process, or to the process group of a negative target. It cannot be caught
    /// where it is forced.
    Signal { target: i32, force: bool },
    /// The end of a whole job.
    Job { name: String },
}

/// The error number for a process that does not exist.
pub const NO_SUCH_PROCESS: i32 = 3;

/// The error number for a job that does not exist.
pub const NO_SUCH_JOB: i32 = 2;

/// The signal that reaches a process tree on Unix: its group where it leads one, else its root.
pub open spec fn unix_kill_of(locator: ProcessLocator, force: bool) -> Result<Kill, ProcessError> {
    match locator {
        ProcessLocator::WindowsJob { .. } => Err(ProcessError::WrongPlatform),
        ProcessLocator::Unix { process_id, process_group } => {
            if process_group is Some && process_group->0 > 0 {
                Ok(Kill::Signal { target: (-process_group->0) as i32, force })
            } else if process_id > 0 {
                Ok(Kill::Signal { target: process_id, force })
            } else {
                Err(ProcessError::InvalidLocator)
            }
        },
    }
}

/// How a process tree is reached where it runs. A job knows no gentle end.
pub open spec fn kill_of(locator: ProcessLocator, force: bool) -> Result<Kill, ProcessError> {
    match locator {
        ProcessLocator::WindowsJob { name } => Ok(Kill::Job { name }),
        ProcessLocator::Unix { .. } => unix_kill_of(locator, force),
    }
}

/// How a process tree is ended from a host, which reaches only trees of its own kind.
pub open spec fn tree_kill_of(host: Host, locator: ProcessLocator) -> Result<Kill, ProcessError> {
    match host {
        Host::Unix => unix_kill_of(locator, true),
        Host::Windows => match locator {
            ProcessLocator::WindowsJob { name } => Ok(Kill::Job { name }),
            ProcessLocator::Unix { .. } => Err(ProcessError::WrongPlatform),
        },
    }
}

/// Picks the signal for a process tree on Unix.
pub fn signal_unix(locator: &ProcessLocator, force: bool) -> (kill: Result<Kill, ProcessError>)
    ensures
        kill == unix_kill_of(*locator, force),
        kill matches Ok(Kill::Signal { target, .. }) ==> target != 0,
{
    match locator {
        ProcessLocator::WindowsJob { .. } => Err(ProcessError::WrongPlatform),
        ProcessLocator::Unix { process_id, process_group } => {
            if let Some(group) = process_group {
                if *group > 0 {
                    return Ok(Kill::Signal { target: -*group, force });
                }
            }
            if *process_id > 0 {
                Ok(Kill::Signal { target: *process_id, force })
            } else {
                Err(ProcessError::InvalidLocator)
            }
        },
    }
}

/// Picks how an external owner ends a process tree after the process hosting the session has
/// disappeared.
pub fn terminate_tree(host: Host, locator: &ProcessLocator) -> (kill: Result<Kill, ProcessError>)
    ensures
        kill == tree_kill_of(host, *locator),
{
    match host {
        Host::Unix => signal_unix(locator, true),
        Host::Windows => match locator {
            ProcessLocator::WindowsJob { name } => Ok(Kill::Job { name: name.clone() }),
            ProcessLocator::Unix { .. } => Err(ProcessError::WrongPlatform),
        },
    }
}

/// Whether a job that was looked for is to be ended: one that is already gone is not.
pub fn job_opened(opened: Result<(), Option<i32>>) -> (outcome: Result<bool, ProcessError>)
    ensures
        outcome == (match opened {
            Ok(()) => Ok::<bool, ProcessError>(true),
            Err(error) => if error == Some(NO_SUCH_JOB) {
                Ok(false)
            } else {
                Err(ProcessError::OpenJob(error))
            },
        }),
{
    match opened {
        Ok(()) => Ok(true),
        Err(error) => {
            if let Some(number) = error {
                if number == NO_SUCH_JOB {
                    return Ok(false);
                }
            }
            Err(ProcessError::OpenJob(error))
        },
    }
}

/// What a sent signal amounts to: a tree that is already gone needs none.
pub fn signal_outcome(sent: Result<(), Option<i32>>) -> (outcome: Result<(), ProcessError>)
    ensures
        outcome == (match sent {
            Ok(()) => Ok::<(), ProcessError>(()),
            Err(error) => if error == Some(NO_SUCH_PROCESS) {
                Ok(())
            } else {
                Err(ProcessError::Signal(error))
            },
        }),
{
    match sent {
        Ok(()) => Ok(()),
        Err(error) => {
            if let Some(number) = error {
                if number == NO_SUCH_PROCESS {
                    return Ok(());
                }
            }
            Err(ProcessError::Signal(error))
        },
    }
}

/// The process tree that a session controls.
#[derive(Debug)]
pub struct Process {
    locator: ProcessLocator,
}

impl View for Process {
    type V = ProcessLocator;

    closed spec fn view(&self) -> ProcessLocator {
        self.locator
    }
}

impl Process {
    /// The tree below a child with the given process id, in the group that leads its terminal.
    pub fn new(process_id: Option<u32>, process_group: Option<i32>) -> (process: Result<
        Self,
        ProcessError,
    >)
        ensures
            match process {
                Ok(process) => process_id is Some && process_id->0 <= i32::MAX && process@
                    == (ProcessLocator::Unix { process_id: process_id->0 as i32, process_group }),
                Err(error) => (process_id is None || process_id->0 > i32::MAX) && error
                    == ProcessError::NoProcessId,
            },
    {
        match process_id {
            Some(id) if id <= 0x7fff_ffff => Ok(
                Process { locator: ProcessLocator::Unix { process_id: id as i32, process_group } },
            ),
            _ => Err(ProcessError::NoProcessId),
        }
    }

    /// The tree within a job of its own.
    pub fn of_job(name: String) -> (process: Self)
        ensures
            process@ == (ProcessLocator::WindowsJob { name }),
    {
        Process { locator: ProcessLocator::WindowsJob { name } }
    }

    pub fn locator(&self) -> (locator: ProcessLocator)
        ensures
            locator == self@,
    {
        self.locator.clone()
    }

    /// What stops the tree.
    pub fn signal(&self, force: bool) -> (kill: Result<Kill, ProcessError>)
        ensures
            kill == kill_of(self@, force),
    {
        match &self.locator {
            ProcessLocator::WindowsJob { name } => Ok(Kill::Job { name: name.clone() }),
            ProcessLocator::Unix { .. } => signal_unix(&self.locator, force),
        }
    }
}

/// A tree is ended from a host if it was located there, and in the way in which the session itself
/// would force it to end.
pub proof fn law_trees_end_where_they_run(host: Host, locator: ProcessLocator)
    ensures
        (host == Host::Windows) == (locator is WindowsJob) ==> tree_kill_of(host, locator)
            == kill_of(locator, true),
        (host == Host::Windows) != (locator is WindowsJob) ==> tree_kill_of(host, locator)
            == Err::<Kill, ProcessError>(ProcessError::WrongPlatform),
{
}

/// A signal goes to the whole group that leads the terminal, by its negative number; to the child
/// alone where there is no group; and to nobody where neither is a process. It is forced exactly
/// where that was asked for. A job is ended as a whole either way.
pub proof fn law_signals_reach_the_whole_tree(
    process_id: i32,
    process_group: Option<i32>,
    name: String,
    force: bool,
)
    ensures
        ({
            let kill = kill_of(ProcessLocator::Unix { process_id, process_group }, force);
            &&& process_group matches Some(group) ==> group > 0 ==> (kill matches Ok(
                Kill::Signal { target, force: forced },
            ) && target + group == 0 && forced == force)
            &&& process_group is None || process_group->0 <= 0 ==> (if process_id > 0 {
                kill == Ok::<Kill, ProcessError>(Kill::Signal { target: process_id, force })
            } else {
                kill == Err::<Kill, ProcessError>(ProcessError::InvalidLocator)
            })
        }),
        kill_of(ProcessLocator::WindowsJob { name }, force) == Ok::<Kill, ProcessError>(
            Kill::Job { name },
        ),
        unix_kill_of(ProcessLocator::WindowsJob { name }, force) == Err::<Kill, ProcessError>(
            ProcessError::WrongPlatform,
        ),
        unix_kill_of(ProcessLocator::Unix { process_id, process_group }, force) == kill_of(
            ProcessLocator::Unix { process_id, process_group },
            force,
        ),
{
}

/// A tree or a job that is already gone needs no signal and no end; any other error is reported with
/// its number.
pub proof fn law_what_is_gone_needs_no_end(
    error: Option<i32>,
    sent: Result<(), ProcessError>,
    opened: Result<bool, ProcessError>,
    done: Result<(), ProcessError>,
    found: Result<bool, ProcessError>,
)
    requires
        call_ensures(signal_outcome, (Err::<(), Option<i32>>(error),), sent),
        call_ensures(job_opened, (Err::<(), Option<i32>>(error),), opened),
        call_ensures(signal_outcome, (Ok::<(), Option<i32>>(()),), done),
        call_ensures(job_opened, (Ok::<(), Option<i32>>(()),), found),
    ensures
        sent is Ok <==> error == Some(3i32),
        sent is Err ==> sent->Err_0 == ProcessError::Signal(error),
        opened is Ok <==> error == Some(2i32),
        opened is Ok ==> !opened->Ok_0,
        opened is Err ==> opened->Err_0 == ProcessError::OpenJob(error),
        done is Ok,
        found is Ok && found->Ok_0,
{
}

/// A child is controlled under its own process id, which has to be one, and in the group that leads
/// its terminal.
pub proof fn law_which_child_is_controlled(
    process_id: Option<u32>,
    process_group: Option<i32>,
    process: Result<Process, ProcessError>,
)
    requires
        call_ensures(Process::new, (process_id, process_group), process),
    ensures
        process is Ok <==> process_id is Some && process_id->0 < 0x8000_0000,
        process is Err ==> process->Err_0 is NoProcessId,
        process matches Ok(known) ==> (known@ matches ProcessLocator::Unix {
            process_id: id,
            process_group: group,
        } && id == process_id->0 && group == process_group),
{
}

/// A session is stopped by its own locator, forced or not as asked.
pub proof fn law_processes_are_stopped_by_their_locator(
    process: &Process,
    force: bool,
    kill: Result<Kill, ProcessError>,
    host: Host,
    ended: Result<Kill, ProcessError>,
)
    requires
        call_ensures(Process::signal, (process, force), kill),
        call_ensures(terminate_tree, (host, &process@), ended),
    ensures
        kill == kill_of(process@, force),
        ended == tree_kill_of(host, process@),
{
}

/// Every failure to reach a process says what failed.
pub proof fn law_process_errors_in_words(error: ProcessError, text: String)
    requires
        call_ensures(ProcessError::describe, (error,), text),
    ensures
        error matches ProcessError::NoProcessId ==> text@ == "PTY child has no process id"@,
        error matches ProcessError::WrongPlatform ==> text@ == "wrong platform locator"@,
        error matches ProcessError::InvalidLocator ==> text@ == "invalid process locator"@,
        error matches ProcessError::Signal(_) ==> text@ == "signal PTY process tree"@,
        error matches ProcessError::OpenJob(_) ==> text@ == "open PTY job"@,
        error matches ProcessError::EndJob(_) ==> text@ == "terminate PTY job"@,
{
}

} // verus!
