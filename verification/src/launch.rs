//! The order in which a server starts a session for a host session, and how long it waits for the
//! monitor.
use crate::control::ControlError;
use crate::types::{later, Nanos};
use vstd::prelude::*;

verus! {

/// What is to be done next to start a session.
#[derive(Debug, Clone, Copy, PartialEq, Eq, Structural)]
pub enum LaunchStep {
    /// Ask whether the server still starts sessions.
    CheckOpen,
    /// Find the live connection to the monitor of the host session, or make one.
    ConnectMonitor,
    /// Make room for the session.
    Reserve,
    /// Start the target. Its place is released where that fails.
    StartSession,
    /// Take the session in. It is stopped where it is not wanted by now.
    Register,
    /// The session runs among those of the server.
    Done,
    /// There is no session.
    Failed,
}

impl LaunchStep {
    /// What comes after a step, by whether it succeeded.
    pub open spec fn next(self, ok: bool) -> LaunchStep {
        match self {
            LaunchStep::Done => LaunchStep::Done,
            LaunchStep::Failed => LaunchStep::Failed,
            _ if !ok => LaunchStep::Failed,
            LaunchStep::CheckOpen => LaunchStep::ConnectMonitor,
            LaunchStep::ConnectMonitor => LaunchStep::Reserve,
            LaunchStep::Reserve => LaunchStep::StartSession,
            LaunchStep::StartSession => LaunchStep::Register,
            LaunchStep::Register => LaunchStep::Done,
        }
    }

    /// Says what comes after a step.
    pub fn after(self, ok: bool) -> (step: LaunchStep)
        ensures
            step == self.next(ok),
    {
        match self {
            LaunchStep::Done => LaunchStep::Done,
            LaunchStep::Failed => LaunchStep::Failed,
            _ if !ok => LaunchStep::Failed,
            LaunchStep::CheckOpen => LaunchStep::ConnectMonitor,
            LaunchStep::ConnectMonitor => LaunchStep::Reserve,
            LaunchStep::Reserve => LaunchStep::StartSession,
            LaunchStep::StartSession => LaunchStep::Register,
            LaunchStep::Register => LaunchStep::Done,
        }
    }
}

/// The step that a launch is at after steps with the given outcomes.
pub open spec fn launch_after(outcomes: Seq<bool>) -> LaunchStep
    decreases outcomes.len(),
{
    if outcomes.len() == 0 {
        LaunchStep::CheckOpen
    } else {
        launch_after(outcomes.drop_last()).next(outcomes.last())
    }
}

/// Whether the given step was taken on the way and succeeded.
pub open spec fn succeeded(outcomes: Seq<bool>, step: LaunchStep) -> bool
    decreases outcomes.len(),
{
    outcomes.len() > 0 && (succeeded(outcomes.drop_last(), step) || (launch_after(
        outcomes.drop_last(),
    ) == step && outcomes.last()))
}

/// No target runs without a live monitor: it is started only once the server was found open, the
/// monitor connected and a place reserved, and a launch that is done has taken every step.
pub proof fn law_targets_run_only_monitored(outcomes: Seq<bool>)
    ensures
        ({
            let step = launch_after(outcomes);
            &&& step == LaunchStep::StartSession || succeeded(outcomes, LaunchStep::StartSession)
                ==> succeeded(outcomes, LaunchStep::CheckOpen) && succeeded(
                outcomes,
                LaunchStep::ConnectMonitor,
            ) && succeeded(outcomes, LaunchStep::Reserve)
            &&& step == LaunchStep::Register ==> succeeded(outcomes, LaunchStep::StartSession)
            &&& step == LaunchStep::Done ==> succeeded(outcomes, LaunchStep::StartSession)
                && succeeded(outcomes, LaunchStep::Register)
        }),
    decreases outcomes.len(),
{
    if outcomes.len() > 0 {
        law_targets_run_only_monitored(outcomes.drop_last());
        lemma_earlier_steps(outcomes.drop_last());
    }
}

proof fn lemma_earlier_steps(outcomes: Seq<bool>)
    ensures
        ({
            let step = launch_after(outcomes);
            &&& step == LaunchStep::ConnectMonitor || step == LaunchStep::Reserve || step
                == LaunchStep::StartSession ==> succeeded(outcomes, LaunchStep::CheckOpen)
            &&& step == LaunchStep::Reserve || step == LaunchStep::StartSession ==> succeeded(
                outcomes,
                LaunchStep::ConnectMonitor,
            )
            &&& step == LaunchStep::StartSession ==> succeeded(outcomes, LaunchStep::Reserve)
        }),
    decreases outcomes.len(),
{
    if outcomes.len() > 0 {
        lemma_earlier_steps(outcomes.drop_last());
    }
}

/// Whatever step fails first, no later one is taken: without a monitor nothing is reserved and
/// nothing started.
pub proof fn law_a_failed_launch_ends(outcomes: Seq<bool>, more: bool)
    requires
        launch_after(outcomes) == LaunchStep::Failed,
    ensures
        launch_after(outcomes.push(more)) == LaunchStep::Failed,
        forall|step: LaunchStep|
            step != LaunchStep::Failed ==> #[trigger] succeeded(outcomes.push(more), step)
                == succeeded(outcomes, step),
{
    assert(outcomes.push(more).drop_last() =~= outcomes);
}

/// How long the monitor of a host session may take to be ready.
pub const MONITOR_READY_TIMEOUT: Nanos = 5_000_000_000;

/// How long to wait before a monitor that is not there is looked for again.
pub const MONITOR_RETRY: Nanos = 50_000_000;

/// What came of looking for a monitor.
#[derive(Debug, Clone, Copy, PartialEq, Eq, Structural)]
pub enum MonitorEvent {
    /// No usable record of it lies where it would be.
    Missing,
    /// Nobody listens where its record says.
    Unreachable,
    /// The connection broke before it answered.
    Broken,
    /// It answered as it should not.
    Rejected,
    /// It answered as it should.
    Accepted,
    /// The time was over before anything came of it.
    Late,
}

/// What to do about a monitor.
#[derive(Debug, Clone, Copy, PartialEq, Eq, Structural)]
pub enum MonitorStep {
    /// Look for it again at the given time.
    Retry { at: Nanos },
    /// The connection is live.
    Connected,
    /// Give up, for what broke the connection.
    Broken,
    /// Give up.
    Failed(ControlError),
}

/// The wait for the monitor of a host session.
#[derive(Debug, Clone, Copy)]
pub struct MonitorWait {
    pub since: Nanos,
}

impl MonitorWait {
    /// Begins to wait.
    pub fn begin(now: Nanos) -> (wait: Self)
        ensures
            wait.since == now,
    {
        MonitorWait { since: now }
    }

    /// When the time is over.
    pub open spec fn spec_deadline(self) -> Nanos {
        later(self.since, MONITOR_READY_TIMEOUT)
    }

    /// When the time is over.
    pub fn deadline(&self) -> (deadline: Nanos)
        ensures
            deadline == self.spec_deadline(),
    {
        self.since.saturating_add(MONITOR_READY_TIMEOUT)
    }

    /// Says what comes after a look for the monitor. One that is not there yet is looked for again
    /// until the time is over; any answer decides.
    pub fn after(&self, event: MonitorEvent, now: Nanos) -> (step: MonitorStep)
        ensures
            step == match event {
                MonitorEvent::Missing | MonitorEvent::Unreachable => if now
                    >= self.spec_deadline() {
                    MonitorStep::Failed(ControlError::MonitorNotReady)
                } else {
                    MonitorStep::Retry { at: later(now, MONITOR_RETRY) }
                },
                MonitorEvent::Broken => MonitorStep::Broken,
                MonitorEvent::Rejected => MonitorStep::Failed(ControlError::HandshakeRejected),
                MonitorEvent::Accepted => MonitorStep::Connected,
                MonitorEvent::Late => MonitorStep::Failed(ControlError::MonitorNotReady),
            },
            step matches MonitorStep::Retry { at } ==> now < self.since + 5_000_000_000 && at
                == later(now, 50_000_000),
    {
        match event {
            MonitorEvent::Missing | MonitorEvent::Unreachable => if now >= self.deadline() {
                MonitorStep::Failed(ControlError::MonitorNotReady)
            } else {
                MonitorStep::Retry { at: now.saturating_add(MONITOR_RETRY) }
            },
            MonitorEvent::Broken => MonitorStep::Broken,
            MonitorEvent::Rejected => MonitorStep::Failed(ControlError::HandshakeRejected),
            MonitorEvent::Accepted => MonitorStep::Connected,
            MonitorEvent::Late => MonitorStep::Failed(ControlError::MonitorNotReady),
        }
    }
}

/// A launch asks whether the server is open, finds the monitor, makes room, starts the target and
/// takes it in, in this order, and ends with the first step that fails.
pub proof fn law_launches_take_their_steps_in_order(step: LaunchStep)
    ensures
        launch_after(Seq::empty()) is CheckOpen,
        LaunchStep::CheckOpen.next(true) is ConnectMonitor,
        LaunchStep::ConnectMonitor.next(true) is Reserve,
        LaunchStep::Reserve.next(true) is StartSession,
        LaunchStep::StartSession.next(true) is Register,
        LaunchStep::Register.next(true) is Done,
        step !is Done ==> step.next(false) is Failed,
        step is Done || step is Failed ==> step.next(true) == step && step.next(false) == step,
{
}

/// A monitor has five seconds to be ready.
pub proof fn law_monitors_have_five_seconds(wait: MonitorWait)
    requires
        wait.since + 5_000_000_000 <= Nanos::MAX,
    ensures
        wait.spec_deadline() == wait.since + 5_000_000_000,
{
}

/// A monitor that is not there yet is looked for again 50 milliseconds later while it has time; once
/// it has none, and whatever else comes, the wait is over.
pub proof fn law_how_monitors_are_waited_for(
    wait: &MonitorWait,
    event: MonitorEvent,
    now: Nanos,
    step: MonitorStep,
)
    requires
        wait.since + 5_000_000_000 <= Nanos::MAX,
        now + 50_000_000 <= Nanos::MAX,
        call_ensures(MonitorWait::after, (wait, event, now), step),
    ensures
        ({
            let absent = event is Missing || event is Unreachable;
            let late = now >= wait.since + 5_000_000_000;
            &&& step is Retry <==> absent && !late
            &&& step matches MonitorStep::Retry { at } ==> at == now + 50_000_000
            &&& step is Connected <==> event is Accepted
            &&& step is Broken <==> event is Broken
            &&& (absent && late) || event is Late ==> step == MonitorStep::Failed(
                ControlError::MonitorNotReady,
            )
            &&& event is Rejected ==> step == MonitorStep::Failed(ControlError::HandshakeRejected)
        }),
{
}

} // verus!
