//! The node supervisor's decision logic: the process lifecycle state
//! machine, the start plan with orphan cleanup, the health-monitor policy
//! and the log-fault classes. Spawning, killing and probing processes is
//! done outside the library, which acts on the decisions made here.

use vstd::prelude::*;
use crate::errors::ArchivistError;
use crate::daemon::sat_add_u32;
use crate::text::has_sub;

verus! {

/// Lifecycle state of the node child process.
#[derive(Debug, Clone, Copy, PartialEq, Eq, Structural)]
pub enum NodeState {
    Stopped,
    Starting,
    Running,
    Stopping,
    Error,
}

/// Detailed node status.
#[derive(Debug)]
pub struct NodeStatus {
    pub state: NodeState,
    pub pid: Option<u32>,
    pub version: Option<String>,
    pub uptime_seconds: Option<u64>,
    pub peer_count: u32,
    pub storage_used_bytes: u64,
    pub storage_available_bytes: u64,
    pub last_error: Option<String>,
    pub restart_count: u32,
    pub api_url: Option<String>,
}

/// Node process configuration.
#[derive(Debug)]
pub struct NodeConfig {
    pub data_dir: String,
    pub api_port: u16,
    pub p2p_port: u16,
    pub max_storage_bytes: u64,
    pub auto_start: bool,
    pub auto_restart: bool,
    pub max_restart_attempts: u32,
    pub health_check_interval_secs: u64,
}

/// Events the supervisor surfaces to observers.
#[derive(Debug)]
pub enum NodeEvent {
    StateChanged { state: NodeState },
    Log { level: String, message: String },
    Fault { message: String },
}

impl NodeStatus {
    /// A stopped node with empty counters.
    pub fn initial() -> (r: NodeStatus)
        ensures
            r.state is Stopped,
            r.pid is None,
            r.uptime_seconds is None,
            r.peer_count == 0,
            r.storage_used_bytes == 0,
            r.last_error is None,
            r.restart_count == 0,
            r.api_url is None,
    {
        NodeStatus {
            state: NodeState::Stopped,
            pid: None,
            version: None,
            uptime_seconds: None,
            peer_count: 0,
            storage_used_bytes: 0,
            storage_available_bytes: 107374182400,
            last_error: None,
            restart_count: 0,
            api_url: None,
        }
    }

    /// Enters the starting state. Refused while the node is already
    /// running or starting.
    pub fn begin_start(&mut self) -> (r: Result<(), ArchivistError>)
        ensures
            match r {
                Ok(_) => {
                    &&& !(old(self).state is Running) && !(old(self).state is Starting)
                    &&& final(self).state is Starting
                    &&& final(self).last_error is None
                    &&& final(self).pid == old(self).pid
                    &&& final(self).restart_count == old(self).restart_count
                },
                Err(e) => {
                    &&& *final(self) == *old(self)
                    &&& e is NodeAlreadyRunning
                    &&& (old(self).state is Running || old(self).state is Starting)
                },
            },
    {
        if matches!(self.state, NodeState::Running) || matches!(self.state, NodeState::Starting) {
            return Err(ArchivistError::NodeAlreadyRunning);
        }
        self.state = NodeState::Starting;
        self.last_error = None;
        Ok(())
    }

    /// Enters the running state once the child process is up and its
    /// health probe answered.
    pub fn mark_running(&mut self, pid: u32, api_url: String)
        ensures
            final(self).state is Running,
            final(self).pid == Some(pid),
            final(self).api_url == Some(api_url),
            final(self).restart_count == old(self).restart_count,
            final(self).last_error == old(self).last_error,
    {
        self.state = NodeState::Running;
        self.pid = Some(pid);
        self.api_url = Some(api_url);
    }

    /// Enters the stopping state. Refused while the node is already
    /// stopped or stopping.
    pub fn begin_stop(&mut self) -> (r: Result<(), ArchivistError>)
        ensures
            match r {
                Ok(_) => {
                    &&& !(old(self).state is Stopped) && !(old(self).state is Stopping)
                    &&& final(self).state is Stopping
                    &&& final(self).pid == old(self).pid
                },
                Err(e) => {
                    &&& *final(self) == *old(self)
                    &&& e is NodeNotRunning
                    &&& (old(self).state is Stopped || old(self).state is Stopping)
                },
            },
    {
        if matches!(self.state, NodeState::Stopped) || matches!(self.state, NodeState::Stopping) {
            return Err(ArchivistError::NodeNotRunning);
        }
        self.state = NodeState::Stopping;
        Ok(())
    }

    /// Enters the stopped state after the child process ended cleanly.
    pub fn mark_stopped(&mut self)
        ensures
            final(self).state is Stopped,
            final(self).pid is None,
            final(self).uptime_seconds is None,
            final(self).api_url is None,
            final(self).restart_count == old(self).restart_count,
            final(self).last_error == old(self).last_error,
    {
        self.state = NodeState::Stopped;
        self.pid = None;
        self.uptime_seconds = None;
        self.api_url = None;
    }

    /// Enters the error state after the child process died unexpectedly,
    /// also when the liveness probe on its PID failed while the handle
    /// still looked alive.
    pub fn mark_terminated(&mut self, error: Option<String>)
        ensures
            final(self).state is Error,
            final(self).pid is None,
            final(self).uptime_seconds is None,
            final(self).api_url is None,
            final(self).restart_count == old(self).restart_count,
            match error {
                Some(m) => final(self).last_error == Some(m),
                None => final(self).last_error == old(self).last_error,
            },
    {
        self.state = NodeState::Error;
        self.pid = None;
        self.uptime_seconds = None;
        self.api_url = None;
        match error {
            Some(m) => {
                self.last_error = Some(m);
            }
            None => {}
        }
    }

    /// Counts one restart attempt, saturating.
    pub fn record_restart(&mut self)
        ensures
            final(self).restart_count == crate::daemon::sat32(old(self).restart_count, 1),
            final(self).state == old(self).state,
    {
        self.restart_count = sat_add_u32(self.restart_count, 1);
    }

    /// Clears the restart counter after a long healthy stretch.
    pub fn reset_restart_count(&mut self)
        ensures
            final(self).restart_count == 0,
            final(self).state == old(self).state,
            final(self).pid == old(self).pid,
    {
        self.restart_count = 0;
    }

    /// Whether the policy allows one more automatic restart.
    pub fn should_auto_restart(&self, config: &NodeConfig) -> (r: bool)
        ensures
            r == (config.auto_restart && self.restart_count < config.max_restart_attempts),
    {
        config.auto_restart && self.restart_count < config.max_restart_attempts
    }
}

impl Default for NodeConfig {
    /// Default node configuration; the data directory comes from the
    /// platform data directory when there is one.
    fn default() -> (r: Self)
        ensures
            r.api_port == 5001,
            r.p2p_port == 4001,
            r.max_storage_bytes == 10737418240,
            !r.auto_start,
            r.auto_restart,
            r.max_restart_attempts == 3,
            r.health_check_interval_secs == 30,
    {
        let data_dir = match crate::ext::data_dir_string() {
            Some(mut base) => {
                base.append("/archivist/node");
                base
            }
            None => String::from_str(".archivist/node"),
        };
        NodeConfig {
            data_dir,
            api_port: 5001,
            p2p_port: 4001,
            max_storage_bytes: 10737418240,
            auto_start: false,
            auto_restart: true,
            max_restart_attempts: 3,
            health_check_interval_secs: 30,
        }
    }
}

/// One step of the start procedure, in order.
#[derive(Debug, Clone, PartialEq, Eq, Structural)]
pub enum StartAction {
    /// Terminate the leftover process holding the configured port, then
    /// wait briefly for it to die.
    KillOrphan(u32),
    /// Create the data directory if it does not exist.
    EnsureDataDir,
    /// Spawn the node child process with the configured ports and paths.
    SpawnNode,
    /// Poll the health route until the node answers or the readiness
    /// window closes.
    AwaitHealthy,
}

/// The start plan: orphan cleanup first when a leftover process holds the
/// API port, then directory setup, spawn, and the readiness poll.
pub fn start_plan(orphan_pid: Option<u32>) -> (r: Vec<StartAction>)
    ensures
        match orphan_pid {
            Some(p) => r@ == seq![
                StartAction::KillOrphan(p),
                StartAction::EnsureDataDir,
                StartAction::SpawnNode,
                StartAction::AwaitHealthy,
            ],
            None => r@ == seq![
                StartAction::EnsureDataDir,
                StartAction::SpawnNode,
                StartAction::AwaitHealthy,
            ],
        },
{
    let mut plan: Vec<StartAction> = Vec::new();
    match orphan_pid {
        Some(p) => {
            plan.push(StartAction::KillOrphan(p));
            plan.push(StartAction::EnsureDataDir);
            plan.push(StartAction::SpawnNode);
            plan.push(StartAction::AwaitHealthy);
            proof {
                assert(plan@ =~= seq![
                    StartAction::KillOrphan(p),
                    StartAction::EnsureDataDir,
                    StartAction::SpawnNode,
                    StartAction::AwaitHealthy,
                ]);
            }
        }
        None => {
            plan.push(StartAction::EnsureDataDir);
            plan.push(StartAction::SpawnNode);
            plan.push(StartAction::AwaitHealthy);
            proof {
                assert(plan@ =~= seq![
                    StartAction::EnsureDataDir,
                    StartAction::SpawnNode,
                    StartAction::AwaitHealthy,
                ]);
            }
        }
    }
    plan
}

/// What the health monitor decides on one tick.
#[derive(Debug, Clone, Copy, PartialEq, Eq, Structural)]
pub enum MonitorDecision {
    /// The node is not supposed to be running; nothing to do.
    Ignore,
    /// The probe answered; note the healthy stretch.
    NoteHealthy,
    /// The probe failed but the process is alive; wait for the next tick.
    Wait,
    /// The process died and the policy allows another automatic restart.
    Restart,
    /// The process died and the restart budget is spent.
    GiveUp,
}

/// The health monitor's policy for one tick, from the probe answer and the
/// process liveness.
pub fn monitor_decision(
    state: NodeState,
    healthy: bool,
    process_alive: bool,
    restart_count: u32,
    config: &NodeConfig,
) -> (r: MonitorDecision)
    ensures
        !(state is Running) ==> r is Ignore,
        (state is Running && healthy) ==> r is NoteHealthy,
        (state is Running && !healthy && process_alive) ==> r is Wait,
        (state is Running && !healthy && !process_alive && config.auto_restart && restart_count
            < config.max_restart_attempts) ==> r is Restart,
        (state is Running && !healthy && !process_alive && !(config.auto_restart && restart_count
            < config.max_restart_attempts)) ==> r is GiveUp,
{
    if !matches!(state, NodeState::Running) {
        MonitorDecision::Ignore
    } else if healthy {
        MonitorDecision::NoteHealthy
    } else if process_alive {
        MonitorDecision::Wait
    } else if config.auto_restart && restart_count < config.max_restart_attempts {
        MonitorDecision::Restart
    } else {
        MonitorDecision::GiveUp
    }
}

/// Recoverable fault classes scanned out of the node's log lines.
#[derive(Debug, Clone, Copy, PartialEq, Eq, Structural)]
pub enum LogFault {
    /// Nothing recognizable in the line.
    Benign,
    /// The discovery datastore is corrupted; wiping the data directory and
    /// restarting recovers it.
    CorruptDatastore,
    /// Another process holds the node's port; a terminal error.
    PortConflict,
}

/// Scans a node log line for the two recoverable fault classes.
pub fn classify_log_line(line: &String) -> (r: LogFault)
    ensures
        has_sub(line@, "Should create discovery datastore!"@) ==> r is CorruptDatastore,
        (!has_sub(line@, "Should create discovery datastore!"@) && has_sub(
            line@,
            "Address already in use"@,
        )) ==> r is PortConflict,
        (!has_sub(line@, "Should create discovery datastore!"@) && !has_sub(
            line@,
            "Address already in use"@,
        )) ==> r is Benign,
{
    let v = crate::ext::str_chars(line.as_str());
    if crate::text::contains_sub(&v, "Should create discovery datastore!") {
        LogFault::CorruptDatastore
    } else if crate::text::contains_sub(&v, "Address already in use") {
        LogFault::PortConflict
    } else {
        LogFault::Benign
    }
}

} // verus!
