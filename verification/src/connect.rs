//! The course of a connect: which step follows which, what has been
//! started at each step, and what is torn down when a step fails. The
//! caller performs each step and reports how it went.

use crate::control::Host;
use crate::text::text_of_two;
use vstd::prelude::*;

verus! {

/// The milliseconds that the master, the agent's port and the agent's
/// health are each waited for.
pub const READY_TIMEOUT_MS: u64 = 30000;

/// The milliseconds between two probes.
pub const POLL_INTERVAL_MS: u64 = 100;

/// One step of a connect, in the order in which the steps are taken.
#[derive(Clone, Copy, Debug, PartialEq, Eq)]
pub enum Step {
    /// See that `ssh` can be run.
    CheckSsh,
    /// Parse the command line.
    Parse,
    /// Tear down the session that the slot holds.
    CloseOld,
    /// Draw key and password, pick the local port.
    Plan,
    /// Make the scratch directory.
    CreateDir,
    /// Start the prompt listener.
    StartAskpass,
    /// Find the program that `ssh` runs as its helper.
    LocateHelper,
    /// Start the master of the shared connection.
    StartMaster,
    /// Wait until the master is ready.
    AwaitMaster,
    /// Ask the remote host for the version of its agent.
    QueryVersion,
    /// Install the agent on the remote host.
    Install,
    /// Start the agent on the remote host.
    StartServer,
    /// Wait until the agent has announced its port.
    AwaitPort,
    /// Start the forward to the agent.
    StartForward,
    /// Wait until the agent answers through the forward.
    AwaitHealth,
    /// Put the session into the slot.
    Publish,
}

/// The place of a step in the order of the steps.
pub open spec fn rank(step: Step) -> int {
    match step {
        Step::CheckSsh => 0,
        Step::Parse => 1,
        Step::CloseOld => 2,
        Step::Plan => 3,
        Step::CreateDir => 4,
        Step::StartAskpass => 5,
        Step::LocateHelper => 6,
        Step::StartMaster => 7,
        Step::AwaitMaster => 8,
        Step::QueryVersion => 9,
        Step::Install => 10,
        Step::StartServer => 11,
        Step::AwaitPort => 12,
        Step::StartForward => 13,
        Step::AwaitHealth => 14,
        Step::Publish => 15,
    }
}

/// How a step went.
#[derive(Clone, Copy, Debug, PartialEq, Eq)]
pub enum Event {
    /// The step did what it was to do. Of the version query: the agent on
    /// the remote host has the wanted version.
    Done,
    /// The step failed.
    Failed,
    /// The answer of the version query where the agent on the remote host
    /// is absent or has another version.
    Outdated,
}

/// What of a session has been started and not torn down.
#[derive(Clone, Copy, Debug, PartialEq, Eq)]
pub struct Started {
    pub dir: bool,
    pub askpass: bool,
    pub master: bool,
    pub server: bool,
    pub forward: bool,
}

impl Started {
    /// Nothing is started.
    pub open spec fn none() -> Started {
        Started { dir: false, askpass: false, master: false, server: false, forward: false }
    }

    /// All of a live session: the master only where connections are shared.
    pub open spec fn live(unix: bool) -> Started {
        Started { dir: true, askpass: true, master: unix, server: true, forward: true }
    }

    /// What is started when the steps before `step` are done, and none
    /// after them.
    pub open spec fn before(step: Step, unix: bool) -> Started {
        Started {
            dir: rank(step) > rank(Step::CreateDir),
            askpass: rank(step) > rank(Step::StartAskpass),
            master: unix && rank(step) > rank(Step::StartMaster),
            server: rank(step) > rank(Step::StartServer),
            forward: rank(step) > rank(Step::StartForward),
        }
    }

    /// What is started once `step` is done as well. A step that fails may
    /// have started its part before it failed, so this is also what a
    /// failure of `step` may leave behind.
    pub open spec fn with(self, step: Step) -> Started {
        match step {
            Step::CreateDir => Started { dir: true, ..self },
            Step::StartAskpass => Started { askpass: true, ..self },
            Step::StartMaster => Started { master: true, ..self },
            Step::StartServer => Started { server: true, ..self },
            Step::StartForward => Started { forward: true, ..self },
            _ => self,
        }
    }

    /// Nothing is started.
    pub fn empty() -> (r: Started)
        ensures
            r == Started::none(),
    {
        Started { dir: false, askpass: false, master: false, server: false, forward: false }
    }

    /// All of a live session.
    pub fn of_session(has_master: bool) -> (r: Started)
        ensures
            r == Started::live(has_master),
    {
        Started { dir: true, askpass: true, master: has_master, server: true, forward: true }
    }
}

/// One act of a teardown.
#[derive(Clone, Copy, Debug, PartialEq, Eq)]
pub enum Teardown {
    KillForward,
    KillServer,
    KillMaster,
    AbortAskpass,
    RemoveDir,
}

/// The teardown of what is started: the children are killed, the forward
/// first, then the server, then the master; then the listener is aborted;
/// the scratch directory is removed last.
pub open spec fn teardown_of(started: Started) -> Seq<Teardown> {
    (if started.forward {
        seq![Teardown::KillForward]
    } else {
        Seq::empty()
    }) + (if started.server {
        seq![Teardown::KillServer]
    } else {
        Seq::empty()
    }) + (if started.master {
        seq![Teardown::KillMaster]
    } else {
        Seq::empty()
    }) + (if started.askpass {
        seq![Teardown::AbortAskpass]
    } else {
        Seq::empty()
    }) + (if started.dir {
        seq![Teardown::RemoveDir]
    } else {
        Seq::empty()
    })
}

/// Lists the acts that tear down what is started, in their order.
pub fn teardown_plan(started: &Started) -> (plan: Vec<Teardown>)
    ensures
        plan@ == teardown_of(*started),
{
    let mut plan: Vec<Teardown> = Vec::new();
    if started.forward {
        plan.push(Teardown::KillForward);
    }
    if started.server {
        plan.push(Teardown::KillServer);
    }
    if started.master {
        plan.push(Teardown::KillMaster);
    }
    if started.askpass {
        plan.push(Teardown::AbortAskpass);
    }
    if started.dir {
        plan.push(Teardown::RemoveDir);
    }
    assert(plan@ =~= teardown_of(*started));
    plan
}

/// Where a connect stands.
#[derive(Clone, Copy, Debug, PartialEq, Eq)]
pub enum Stage {
    /// The step is to be performed next.
    Run(Step),
    /// A step failed: what is started is to be torn down.
    Unwind,
    /// The session is live.
    Connected,
    /// The connect failed, and nothing of it is left.
    Failed,
}

/// The state of a connect.
#[derive(Clone, Copy, Debug)]
pub struct Connect {
    /// Where the connect stands.
    pub stage: Stage,
    /// What has been started and not torn down.
    pub started: Started,
    /// Whether the machine shares connections.
    pub unix: bool,
    /// The step that failed, once one has.
    pub failed_at: Option<Step>,
}

/// The step that follows `step` when it is done: the master is started and
/// awaited only where connections are shared; `None` behind the last step.
pub open spec fn following(step: Step, unix: bool) -> Option<Step> {
    match step {
        Step::CheckSsh => Some(Step::Parse),
        Step::Parse => Some(Step::CloseOld),
        Step::CloseOld => Some(Step::Plan),
        Step::Plan => Some(Step::CreateDir),
        Step::CreateDir => Some(Step::StartAskpass),
        Step::StartAskpass => Some(Step::LocateHelper),
        Step::LocateHelper => if unix {
            Some(Step::StartMaster)
        } else {
            Some(Step::QueryVersion)
        },
        Step::StartMaster => Some(Step::AwaitMaster),
        Step::AwaitMaster => Some(Step::QueryVersion),
        Step::QueryVersion => Some(Step::StartServer),
        Step::Install => Some(Step::StartServer),
        Step::StartServer => Some(Step::AwaitPort),
        Step::AwaitPort => Some(Step::StartForward),
        Step::StartForward => Some(Step::AwaitHealth),
        Step::AwaitHealth => Some(Step::Publish),
        Step::Publish => None,
    }
}

/// The state of a connect that has not begun.
pub open spec fn initial(unix: bool) -> Connect {
    Connect {
        stage: Stage::Run(Step::CheckSsh),
        started: Started::none(),
        unix,
        failed_at: None,
    }
}

/// The state after `event` in the state `c`.
///
/// A step that is done is followed by the next one, and what it started
/// is recorded; behind the last step the session is live. The version
/// query cannot fail the connect: unless it found the wanted version, the
/// agent is installed. Any other step that is not done fails the connect:
/// what is started, the part of the failed step included, is torn down,
/// and only then has the connect failed, with nothing left. A connect that
/// is over stays as it is.
pub open spec fn next(c: Connect, event: Event) -> Connect {
    match c.stage {
        Stage::Run(step) => if step == Step::QueryVersion && event != Event::Done {
            Connect { stage: Stage::Run(Step::Install), ..c }
        } else if event == Event::Done {
            Connect {
                stage: match following(step, c.unix) {
                    Some(s) => Stage::Run(s),
                    None => Stage::Connected,
                },
                started: c.started.with(step),
                ..c
            }
        } else {
            Connect {
                stage: Stage::Unwind,
                started: c.started.with(step),
                failed_at: Some(step),
                ..c
            }
        },
        Stage::Unwind => Connect { stage: Stage::Failed, started: Started::none(), ..c },
        Stage::Connected => c,
        Stage::Failed => c,
    }
}

impl Connect {
    /// The invariant of a connect: at each step exactly what the steps
    /// before it start is started; a live session has all of its parts; of
    /// a failed connect nothing is left.
    pub open spec fn wf(self) -> bool {
        match self.stage {
            Stage::Run(step) => {
                &&& self.started == Started::before(step, self.unix)
                &&& self.failed_at is None
                &&& !self.unix ==> step != Step::StartMaster && step != Step::AwaitMaster
            },
            Stage::Unwind => self.failed_at is Some,
            Stage::Connected => self.started == Started::live(self.unix) && self.failed_at is None,
            Stage::Failed => self.started == Started::none() && self.failed_at is Some,
        }
    }

    /// The state of a connect that has not begun.
    pub fn begin(host: &Host) -> (r: Connect)
        ensures
            r == initial(host.unix),
            r.wf(),
    {
        Connect {
            stage: Stage::Run(Step::CheckSsh),
            started: Started::empty(),
            unix: host.unix,
            failed_at: None,
        }
    }

    /// The state after `event`. The invariant is kept.
    pub fn advance(&self, event: Event) -> (r: Connect)
        ensures
            r == next(*self, event),
            self.wf() ==> r.wf(),
    {
        proof {
            lemma_next_wf(*self, event);
        }
        let done = match event {
            Event::Done => true,
            _ => false,
        };
        match self.stage {
            Stage::Run(step) => {
                match step {
                    Step::QueryVersion => {
                        if !done {
                            return Connect {
                                stage: Stage::Run(Step::Install),
                                started: self.started,
                                unix: self.unix,
                                failed_at: self.failed_at,
                            };
                        }
                    },
                    _ => {},
                }
                if done {
                    let stage = match step_after(step, self.unix) {
                        Some(s) => Stage::Run(s),
                        None => Stage::Connected,
                    };
                    Connect {
                        stage,
                        started: record(self.started, step),
                        unix: self.unix,
                        failed_at: self.failed_at,
                    }
                } else {
                    Connect {
                        stage: Stage::Unwind,
                        started: record(self.started, step),
                        unix: self.unix,
                        failed_at: Some(step),
                    }
                }
            },
            Stage::Unwind => Connect {
                stage: Stage::Failed,
                started: Started::empty(),
                unix: self.unix,
                failed_at: self.failed_at,
            },
            Stage::Connected => *self,
            Stage::Failed => *self,
        }
    }

    /// The acts that tear down what this connect has started, in their
    /// order.
    pub fn unwind_plan(&self) -> (plan: Vec<Teardown>)
        ensures
            plan@ == teardown_of(self.started),
    {
        teardown_plan(&self.started)
    }
}

fn step_after(step: Step, unix: bool) -> (r: Option<Step>)
    ensures
        r == following(step, unix),
{
    match step {
        Step::CheckSsh => Some(Step::Parse),
        Step::Parse => Some(Step::CloseOld),
        Step::CloseOld => Some(Step::Plan),
        Step::Plan => Some(Step::CreateDir),
        Step::CreateDir => Some(Step::StartAskpass),
        Step::StartAskpass => Some(Step::LocateHelper),
        Step::LocateHelper => if unix {
            Some(Step::StartMaster)
        } else {
            Some(Step::QueryVersion)
        },
        Step::StartMaster => Some(Step::AwaitMaster),
        Step::AwaitMaster => Some(Step::QueryVersion),
        Step::QueryVersion => Some(Step::StartServer),
        Step::Install => Some(Step::StartServer),
        Step::StartServer => Some(Step::AwaitPort),
        Step::AwaitPort => Some(Step::StartForward),
        Step::StartForward => Some(Step::AwaitHealth),
        Step::AwaitHealth => Some(Step::Publish),
        Step::Publish => None,
    }
}

fn record(started: Started, step: Step) -> (r: Started)
    ensures
        r == started.with(step),
{
    let mut r = started;
    match step {
        Step::CreateDir => {
            r.dir = true;
        },
        Step::StartAskpass => {
            r.askpass = true;
        },
        Step::StartMaster => {
            r.master = true;
        },
        Step::StartServer => {
            r.server = true;
        },
        Step::StartForward => {
            r.forward = true;
        },
        _ => {},
    }
    r
}

/// Every event keeps the invariant of a connect.
pub proof fn lemma_next_wf(c: Connect, event: Event)
    ensures
        c.wf() ==> next(c, event).wf(),
{
}

/// The old session goes first: while the steps up to the teardown of the
/// session in the slot are taken, nothing of the new session is started.
pub proof fn lemma_old_session_first(c: Connect)
    requires
        c.wf(),
    ensures
        c.stage matches Stage::Run(step) ==> (rank(step) <= rank(Step::CreateDir) ==> c.started
            == Started::none()),
        c.stage matches Stage::Run(step) ==> (c.started != Started::none() ==> rank(step) > rank(
            Step::CloseOld,
        )),
{
}

/// The place of an act in the order of a teardown.
pub open spec fn teardown_rank(act: Teardown) -> int {
    match act {
        Teardown::KillForward => 0,
        Teardown::KillServer => 1,
        Teardown::KillMaster => 2,
        Teardown::AbortAskpass => 3,
        Teardown::RemoveDir => 4,
    }
}

/// What the act tears down is started.
pub open spec fn is_due(started: Started, act: Teardown) -> bool {
    match act {
        Teardown::KillForward => started.forward,
        Teardown::KillServer => started.server,
        Teardown::KillMaster => started.master,
        Teardown::AbortAskpass => started.askpass,
        Teardown::RemoveDir => started.dir,
    }
}

/// A teardown holds an act exactly for what is started, each once, and in
/// the order forward, server, master, listener, directory.
pub proof fn lemma_teardown(started: Started)
    ensures
        forall|act: Teardown| #[trigger] teardown_of(started).contains(act) <==> is_due(started, act),
        forall|i: int, j: int|
            0 <= i < j < teardown_of(started).len() ==> teardown_rank(
                #[trigger] teardown_of(started)[i],
            ) < teardown_rank(#[trigger] teardown_of(started)[j]),
{
    let plan = teardown_of(started);
    let a: Seq<Teardown> = if started.forward {
        seq![Teardown::KillForward]
    } else {
        Seq::empty()
    };
    let b: Seq<Teardown> = if started.server {
        seq![Teardown::KillServer]
    } else {
        Seq::empty()
    };
    let m: Seq<Teardown> = if started.master {
        seq![Teardown::KillMaster]
    } else {
        Seq::empty()
    };
    let k: Seq<Teardown> = if started.askpass {
        seq![Teardown::AbortAskpass]
    } else {
        Seq::empty()
    };
    let d: Seq<Teardown> = if started.dir {
        seq![Teardown::RemoveDir]
    } else {
        Seq::empty()
    };
    assert(plan == a + b + m + k + d);
    let at_b = a.len() as int;
    let at_m = at_b + b.len();
    let at_k = at_m + m.len();
    let at_d = at_k + k.len();
    assert forall|i: int| 0 <= i < plan.len() implies is_due(started, #[trigger] plan[i]) && (i
        < at_b ==> plan[i] == Teardown::KillForward) && (at_b <= i < at_m ==> plan[i]
        == Teardown::KillServer) && (at_m <= i < at_k ==> plan[i] == Teardown::KillMaster) && (
    at_k <= i < at_d ==> plan[i] == Teardown::AbortAskpass) && (at_d <= i ==> plan[i]
        == Teardown::RemoveDir) by {}
    assert forall|act: Teardown| is_due(started, act) implies #[trigger] plan.contains(act) by {
        match act {
            Teardown::KillForward => assert(plan[0] == act),
            Teardown::KillServer => assert(plan[at_b] == act),
            Teardown::KillMaster => assert(plan[at_m] == act),
            Teardown::AbortAskpass => assert(plan[at_k] == act),
            Teardown::RemoveDir => assert(plan[at_d] == act),
        }
    }
}

/// All or nothing. A connect fails only out of a teardown, and of a failed
/// connect nothing is left. When a step fails, everything that is started,
/// the part of the failed step included, goes into the teardown. A session
/// goes live only with all of its parts.
pub proof fn lemma_all_or_nothing(c: Connect, event: Event)
    requires
        c.wf(),
    ensures
        next(c, event).stage is Failed ==> (c.stage is Unwind || c.stage is Failed) && next(
            c,
            event,
        ).started == Started::none(),
        c.stage matches Stage::Run(step) ==> (next(c, event).stage is Unwind ==> next(
            c,
            event,
        ).started == Started::before(step, c.unix).with(step) && next(c, event).failed_at == Some(
            step,
        )),
        c.stage matches Stage::Run(step) ==> (event != Event::Done && step != Step::QueryVersion
            ==> next(c, event).stage is Unwind),
        next(c, event).stage is Connected ==> next(c, event).started == Started::live(c.unix),
{
}

/// What a waiting loop does next.
#[derive(Clone, Copy, Debug, PartialEq, Eq)]
pub enum Poll {
    /// Probe now.
    Probe,
    /// Sleep for so many milliseconds, then ask again.
    Sleep(u64),
    /// What was waited for is there.
    Ready,
    /// The time is up.
    TimedOut,
}

/// What a waiting loop does next: before a probe, it gives up once more
/// than the time limit has passed, and probes otherwise; after a probe, it
/// is done if the probe succeeded, and sleeps otherwise.
pub open spec fn poll_of(elapsed_ms: u64, probed: Option<bool>) -> Poll {
    match probed {
        Some(true) => Poll::Ready,
        Some(false) => Poll::Sleep(POLL_INTERVAL_MS),
        None => if elapsed_ms > READY_TIMEOUT_MS {
            Poll::TimedOut
        } else {
            Poll::Probe
        },
    }
}

/// Decides what a waiting loop does next. `elapsed_ms` is the time since
/// the loop began; `probed` is the result of the probe that was just made,
/// and `None` at the start of a round.
pub fn poll(elapsed_ms: u64, probed: Option<bool>) -> (r: Poll)
    ensures
        r == poll_of(elapsed_ms, probed),
{
    match probed {
        Some(true) => Poll::Ready,
        Some(false) => Poll::Sleep(POLL_INTERVAL_MS),
        None => if elapsed_ms > READY_TIMEOUT_MS {
            Poll::TimedOut
        } else {
            Poll::Probe
        },
    }
}

/// How the wait for the agent's port ended.
#[derive(Clone, Copy, Debug, PartialEq, Eq)]
pub enum PortWait {
    /// The agent announced the port.
    Port(u16),
    /// The time was up before a port was announced.
    TimedOut,
    /// The agent's output ended before a port was announced.
    Closed,
}

/// The error for an agent that announces no port in time.
pub open spec fn msg_port_timeout() -> Seq<char> {
    "Timed out waiting for remote server to start"@
}

/// The error for an agent that exits before it announces a port.
pub open spec fn msg_port_closed() -> Seq<char> {
    "Remote server exited before becoming ready"@
}

/// The result of the wait for the agent's port.
pub open spec fn port_outcome(wait: PortWait) -> Result<u16, Seq<char>> {
    match wait {
        PortWait::Port(port) => Ok(port),
        PortWait::TimedOut => Err(msg_port_timeout()),
        PortWait::Closed => Err(msg_port_closed()),
    }
}

/// The view of a result that holds a port.
pub open spec fn port_view(r: Result<u16, String>) -> Result<u16, Seq<char>> {
    match r {
        Ok(port) => Ok(port),
        Err(e) => Err(e@),
    }
}

/// Makes the result of the wait for the agent's port.
pub fn port_result(wait: PortWait) -> (r: Result<u16, String>)
    ensures
        port_view(r) == port_outcome(wait),
{
    match wait {
        PortWait::Port(port) => Ok(port),
        PortWait::TimedOut => Err("Timed out waiting for remote server to start".to_owned()),
        PortWait::Closed => Err("Remote server exited before becoming ready".to_owned()),
    }
}

/// The kind of a failed connect.
#[derive(Clone, Copy, Debug, PartialEq, Eq)]
pub enum ErrorKind {
    /// `ssh` cannot be run.
    NotInstalled,
    /// The command line is refused.
    BadCommand,
    /// The scratch directory, the listener or a process could not be set
    /// up.
    SetupFailure,
    /// The master was not ready in time.
    AuthTimeout,
    /// The agent could not be installed on the remote host.
    RemoteBootstrapFailure,
    /// The agent did not announce a port.
    RemoteLaunchFailure,
    /// The forward could not be started.
    ForwardFailure,
    /// The agent did not answer through the forward in time.
    HealthTimeout,
}

/// The kind of a connect that failed at `step`.
pub open spec fn kind_of(step: Step) -> ErrorKind {
    match step {
        Step::CheckSsh => ErrorKind::NotInstalled,
        Step::Parse => ErrorKind::BadCommand,
        Step::AwaitMaster => ErrorKind::AuthTimeout,
        Step::QueryVersion => ErrorKind::RemoteBootstrapFailure,
        Step::Install => ErrorKind::RemoteBootstrapFailure,
        Step::StartServer => ErrorKind::RemoteLaunchFailure,
        Step::AwaitPort => ErrorKind::RemoteLaunchFailure,
        Step::StartForward => ErrorKind::ForwardFailure,
        Step::AwaitHealth => ErrorKind::HealthTimeout,
        _ => ErrorKind::SetupFailure,
    }
}

/// Names the kind of a connect that failed at `step`.
pub fn error_kind(step: Step) -> (r: ErrorKind)
    ensures
        r == kind_of(step),
{
    match step {
        Step::CheckSsh => ErrorKind::NotInstalled,
        Step::Parse => ErrorKind::BadCommand,
        Step::AwaitMaster => ErrorKind::AuthTimeout,
        Step::QueryVersion => ErrorKind::RemoteBootstrapFailure,
        Step::Install => ErrorKind::RemoteBootstrapFailure,
        Step::StartServer => ErrorKind::RemoteLaunchFailure,
        Step::AwaitPort => ErrorKind::RemoteLaunchFailure,
        Step::StartForward => ErrorKind::ForwardFailure,
        Step::AwaitHealth => ErrorKind::HealthTimeout,
        _ => ErrorKind::SetupFailure,
    }
}

/// The error that the user reads when a connect failed at `step`, `detail`
/// being what the step itself reported.
pub open spec fn message_of(windows: bool, step: Step, detail: Seq<char>) -> Seq<char> {
    match step {
        Step::CheckSsh => if windows {
            "ssh.exe was not found on PATH. Install Windows OpenSSH or Git for Windows and ensure ssh.exe is on PATH."@
        } else {
            "ssh was not found on PATH"@
        },
        Step::CreateDir => "Failed to create temp dir: "@ + detail,
        Step::LocateHelper => "Failed to locate current binary: "@ + detail,
        Step::StartMaster => "Failed to start ssh: "@ + detail,
        Step::AwaitMaster => "Timed out waiting for SSH connection"@,
        Step::StartServer => "Failed to start remote server: "@ + detail,
        Step::StartForward => "Failed to start port forward: "@ + detail,
        Step::AwaitHealth => "Timed out waiting for forwarded server health"@,
        _ => detail,
    }
}

/// Writes the error that the user reads when a connect failed at `step`.
pub fn failure_message(host: &Host, step: Step, detail: &str) -> (r: String)
    ensures
        r@ == message_of(host.windows, step, detail@),
{
    match step {
        Step::CheckSsh => if host.windows {
            "ssh.exe was not found on PATH. Install Windows OpenSSH or Git for Windows and ensure ssh.exe is on PATH.".to_owned()
        } else {
            "ssh was not found on PATH".to_owned()
        },
        Step::CreateDir => text_of_two("Failed to create temp dir: ", detail),
        Step::LocateHelper => text_of_two("Failed to locate current binary: ", detail),
        Step::StartMaster => text_of_two("Failed to start ssh: ", detail),
        Step::AwaitMaster => "Timed out waiting for SSH connection".to_owned(),
        Step::StartServer => text_of_two("Failed to start remote server: ", detail),
        Step::StartForward => text_of_two("Failed to start port forward: ", detail),
        Step::AwaitHealth => "Timed out waiting for forwarded server health".to_owned(),
        _ => detail.to_owned(),
    }
}

} // verus!
