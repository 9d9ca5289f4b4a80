//! How the agent starts, serves and stops.
use vstd::prelude::*;
use crate::host::home_dir;
use crate::paths;
use crate::paths::{joined_path, native_style, PathStyle};
use crate::protocol::Response;
use crate::text::{parse_u32, trim, trimmed, u32_value};

verus! {

/// The seconds between two looks at whether the agent is idle.
pub const IDLE_CHECK_SECS: u64 = 5;

/// Where the agent keeps its files and how long it stays without connections.
#[derive(Debug, Clone)]
pub struct AgentConfig {
    /// How its paths are written.
    pub style: PathStyle,
    pub data_dir: String,
    pub idle_timeout_secs: u64,
}

/// The data directory below the home directory, or below the working directory where there is none.
pub open spec fn data_dir_in(style: PathStyle, home: Option<Seq<char>>) -> Seq<char> {
    match home {
        Some(h) => joined_path(style, h, ".vimo"@),
        None => joined_path(style, "."@, ".vimo"@),
    }
}

/// A home directory, as far as there is one.
pub open spec fn home_view(home: Option<&str>) -> Option<Seq<char>> {
    match home {
        Some(h) => Some(h@),
        None => None,
    }
}

/// The data directory below the home directory of the user.
pub fn user_data_dir(style: PathStyle) -> (r: String)
    ensures
        exists|home: Option<Seq<char>>| r@ == #[trigger] data_dir_in(style, home),
{
    let home = home_dir();
    match &home {
        Some(h) => default_data_dir(style, Some(h.as_str())),
        None => default_data_dir(style, None),
    }
}

/// The data directory below the home directory.
pub fn default_data_dir(style: PathStyle, home: Option<&str>) -> (r: String)
    ensures
        r@ == data_dir_in(style, home_view(home)),
{
    match home {
        Some(h) => paths::join(style, h, ".vimo"),
        None => paths::join(style, ".", ".vimo"),
    }
}

impl Default for AgentConfig {
    /// The usual configuration, below the home directory of the user.
    fn default() -> (r: AgentConfig)
        ensures
            exists|home: Option<Seq<char>>| r.data_dir@ == #[trigger] data_dir_in(
                r.style,
                home,
            ),
            r.idle_timeout_secs == 30,
    {
        let style = native_style();
        AgentConfig { style, data_dir: user_data_dir(style), idle_timeout_secs: 30 }
    }
}

impl AgentConfig {
    /// The usual configuration, below the home directory given.
    pub fn in_home(style: PathStyle, home: Option<&str>) -> (r: AgentConfig)
        ensures
            r.style == style,
            r.data_dir@ == data_dir_in(style, home_view(home)),
            r.idle_timeout_secs == 30,
    {
        AgentConfig { style, data_dir: default_data_dir(style, home), idle_timeout_secs: 30 }
    }

    /// The socket that clients connect to.
    pub fn socket_path(&self) -> (r: String)
        ensures
            r@ == joined_path(self.style, self.data_dir@, "agent.sock"@),
    {
        paths::join(self.style, self.data_dir.as_str(), "agent.sock")
    }

    /// The file that holds the number of the agent's process.
    pub fn pid_path(&self) -> (r: String)
        ensures
            r@ == joined_path(self.style, self.data_dir@, "agent.pid"@),
    {
        paths::join(self.style, self.data_dir.as_str(), "agent.pid")
    }

    /// The store.
    pub fn db_path(&self) -> (r: String)
        ensures
            r@ == joined_path(self.style, joined_path(self.style, self.data_dir@, "db"@), "ai-cli-session.db"@),
    {
        paths::join(
            self.style,
            paths::join(self.style, self.data_dir.as_str(), "db").as_str(),
            "ai-cli-session.db",
        )
    }
}

/// The number of the process that a file names, where the file could be read and holds one.
pub open spec fn pid_in(content: Option<&str>) -> Option<u32> {
    match content {
        Some(s) => u32_value(trimmed(s@)),
        None => None,
    }
}

/// The number of the process that a file names.
pub fn recorded_pid(content: Option<&str>) -> (r: Option<u32>)
    ensures
        r == pid_in(content),
{
    match content {
        Some(s) => parse_u32(trim(s).as_str()),
        None => None,
    }
}

/// Whether an agent runs: a process is recorded, and it is alive.
pub fn is_agent_running(pid: Option<u32>, process_alive: bool) -> (r: bool)
    ensures
        r == (pid is Some && process_alive),
{
    pid.is_some() && process_alive
}

/// What the agent does on its way from start to end.
#[derive(Debug)]
pub enum Stage {
    /// Records the number of its process.
    WritePid,
    /// Removes the socket of an earlier agent.
    RemoveSocket,
    /// Listens on the socket.
    Bind,
    /// Keeps others from using the socket.
    Protect,
    /// Collects all sessions once.
    Scan,
    /// Watches the session files.
    Watch,
    /// Takes connections until it must stop.
    Serve,
    /// Removes its files.
    Cleanup,
    /// Has come to its end.
    Finished,
    /// Has given up, for the reason given.
    Failed(String),
}

/// Whether `next` follows `stage`, which came out as given; `socket_exists` tells of the socket
/// once the process is recorded.
pub open spec fn follows(
    stage: Stage,
    outcome: Result<(), String>,
    socket_exists: bool,
    next: Stage,
) -> bool {
    match (stage, outcome) {
        (Stage::WritePid, Ok(_)) => if socket_exists {
            next is RemoveSocket
        } else {
            next is Bind
        },
        (Stage::RemoveSocket, Ok(_)) => next is Bind,
        (Stage::Bind, Ok(_)) => next is Protect,
        (Stage::Bind, Err(_)) => next matches Stage::Failed(why) && why@
            == "Failed to bind socket"@,
        (Stage::Protect, Ok(_)) => next is Scan,
        (Stage::Scan, _) => next is Watch,
        (Stage::Watch, Ok(_)) => next is Serve,
        (Stage::Serve, _) => next is Cleanup,
        (Stage::Cleanup, _) => next is Finished,
        (Stage::Finished, _) => next is Finished,
        (Stage::Failed(why), _) => next == Stage::Failed(why),
        (_, Err(why)) => next == Stage::Failed(why),
    }
}

/// What the agent does after `stage`, which came out as given. A scan or a removal of files that
/// fails stops nothing.
pub fn run(stage: Stage, outcome: Result<(), String>, socket_exists: bool) -> (r: Stage)
    ensures
        follows(stage, outcome, socket_exists, r),
{
    match stage {
        Stage::Scan => Stage::Watch,
        Stage::Serve => Stage::Cleanup,
        Stage::Cleanup => Stage::Finished,
        Stage::Finished => Stage::Finished,
        Stage::Failed(why) => Stage::Failed(why),
        Stage::WritePid => match outcome {
            Ok(_) => if socket_exists {
                Stage::RemoveSocket
            } else {
                Stage::Bind
            },
            Err(why) => Stage::Failed(why),
        },
        Stage::RemoveSocket => match outcome {
            Ok(_) => Stage::Bind,
            Err(why) => Stage::Failed(why),
        },
        Stage::Bind => match outcome {
            Ok(_) => Stage::Protect,
            Err(_) => Stage::Failed("Failed to bind socket".to_owned()),
        },
        Stage::Protect => match outcome {
            Ok(_) => Stage::Scan,
            Err(why) => Stage::Failed(why),
        },
        Stage::Watch => match outcome {
            Ok(_) => Stage::Serve,
            Err(why) => Stage::Failed(why),
        },
    }
}

/// How far the agent has come.
pub open spec fn place(stage: Stage) -> int {
    match stage {
        Stage::WritePid => 0,
        Stage::RemoveSocket => 1,
        Stage::Bind => 2,
        Stage::Protect => 3,
        Stage::Scan => 4,
        Stage::Watch => 5,
        Stage::Serve => 6,
        Stage::Cleanup => 7,
        Stage::Finished => 8,
        Stage::Failed(_) => 8,
    }
}

/// The agent never goes back: each step brings it closer to its end.
pub proof fn agent_goes_on(
    stage: Stage,
    outcome: Result<(), String>,
    socket_exists: bool,
    next: Stage,
)
    requires
        follows(stage, outcome, socket_exists, next),
    ensures
        place(stage) < 8 ==> place(next) > place(stage),
        place(stage) == 8 ==> next == stage,
{
}

/// An agent that has served removes its files before it ends.
pub proof fn served_agent_cleans_up(
    stage: Stage,
    outcome: Result<(), String>,
    socket_exists: bool,
    next: Stage,
)
    requires
        follows(stage, outcome, socket_exists, next),
        next is Finished,
        stage !is Finished,
    ensures
        stage is Cleanup,
{
}

/// Whether the agent stops before it waits once more: it was told to, and nobody is connected.
pub fn must_stop(shutdown: bool, has_connections: bool) -> (r: bool)
    ensures
        r == (shutdown && !has_connections),
{
    shutdown && !has_connections
}

/// What ends a wait of the agent.
#[derive(Debug, Clone, Copy, PartialEq, Eq, Structural)]
pub enum Awaited {
    /// A client has connected.
    Accepted,
    /// A client could not connect.
    AcceptFailed,
    /// The process was asked to end.
    Signal,
    /// Nothing has happened.
    Elapsed,
}

/// What the agent does after a wait.
#[derive(Debug, Clone, Copy, PartialEq, Eq, Structural)]
pub enum AfterWait {
    /// Serves the client and waits on.
    Serve,
    /// Waits on.
    Wait,
    /// Stops.
    Stop,
}

/// What the agent does after a wait that ended as given.
pub fn after_wait(awaited: Awaited) -> (r: AfterWait)
    ensures
        r == match awaited {
            Awaited::Accepted => AfterWait::Serve,
            Awaited::AcceptFailed => AfterWait::Wait,
            Awaited::Signal => AfterWait::Stop,
            Awaited::Elapsed => AfterWait::Wait,
        },
{
    match awaited {
        Awaited::Accepted => AfterWait::Serve,
        Awaited::AcceptFailed => AfterWait::Wait,
        Awaited::Signal => AfterWait::Stop,
        Awaited::Elapsed => AfterWait::Wait,
    }
}

/// The answer to a line that is no request.
pub fn invalid_request(error: &str) -> (r: Response)
    ensures
        r matches Response::Error { code, message } && code == 400 && message@ == "Invalid JSON: "@
            + error@,
{
    let mut message = "Invalid JSON: ".to_owned();
    message.push_str(error);
    Response::Error { code: 400, message }
}

/// Whether the agent is idle.
#[derive(Debug, Clone, Copy)]
pub struct IdleChecker {
    /// How often in a row nobody was connected.
    pub idle_count: u64,
    /// How often in a row that may be.
    pub idle_threshold: u64,
    /// Whether the agent is to stop.
    pub shutdown: bool,
}

/// What a check makes of the number of idle checks in a row and of whether the agent is to stop.
pub open spec fn checked(state: (int, bool), threshold: int, has_connections: bool) -> (int, bool) {
    if has_connections {
        (0, false)
    } else {
        (state.0 + 1, state.1 || state.0 + 1 >= threshold)
    }
}

/// What the checks make of it, one after the other.
pub open spec fn all_checked(state: (int, bool), threshold: int, checks: Seq<bool>) -> (int, bool)
    decreases checks.len(),
{
    if checks.len() == 0 {
        state
    } else {
        checked(all_checked(state, threshold, checks.drop_last()), threshold, checks.last())
    }
}

impl IdleChecker {
    /// The idle count of an agent that was just started.
    pub fn new(config: &AgentConfig) -> (r: IdleChecker)
        ensures
            r.idle_count == 0,
            r.idle_threshold == config.idle_timeout_secs / 5,
            !r.shutdown,
    {
        IdleChecker {
            idle_count: 0,
            idle_threshold: config.idle_timeout_secs / IDLE_CHECK_SECS,
            shutdown: false,
        }
    }

    /// Takes note of whether anybody is connected.
    pub fn idle_checker(&mut self, has_connections: bool)
        requires
            old(self).idle_count < u64::MAX,
        ensures
            final(self).idle_threshold == old(self).idle_threshold,
            (final(self).idle_count as int, final(self).shutdown) == checked(
                (old(self).idle_count as int, old(self).shutdown),
                old(self).idle_threshold as int,
                has_connections,
            ),
    {
        if has_connections {
            self.idle_count = 0;
            self.shutdown = false;
        } else {
            self.idle_count = self.idle_count + 1;
            if self.idle_count >= self.idle_threshold {
                self.shutdown = true;
            }
        }
    }
}

/// An agent that nobody has connected to is to stop once it was idle as often as it may be, and
/// not before.
pub proof fn idle_agent_stops(threshold: int, checks: Seq<bool>)
    requires
        checks.len() > 0,
        forall|i: int| 0 <= i < checks.len() ==> !checks[i],
    ensures
        all_checked((0, false), threshold, checks) == (
            checks.len() as int,
            checks.len() >= threshold,
        ),
    decreases checks.len(),
{
    let d = checks.drop_last();
    assert(!checks[checks.len() - 1]);
    if d.len() > 0 {
        assert forall|i: int| 0 <= i < d.len() implies !d[i] by {
            assert(d[i] == checks[i]);
        }
        idle_agent_stops(threshold, d);
    } else {
        assert(all_checked((0, false), threshold, d) == (0int, false));
    }
}

/// A connection cancels the end of the agent, whatever came before.
pub proof fn connection_cancels_the_end(state: (int, bool), threshold: int, checks: Seq<bool>)
    requires
        checks.len() > 0,
        checks.last(),
    ensures
        all_checked(state, threshold, checks) == (0int, false),
{
}

} // verus!
