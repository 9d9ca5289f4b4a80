//! Connecting to the agent, or starting it first.
use vstd::prelude::*;
use crate::agent::server::{data_dir_in, user_data_dir};
use crate::paths;
use crate::paths::{joined_path, native_style, parent_of, PathStyle};
use crate::protocol::Response;
use crate::text::{holds_text, opt_view, same_text, signed_decimal, signed_decimal_of, views};

verus! {

/// How a component connects to the agent.
#[derive(Debug, Clone)]
pub struct ClientConfig {
    /// How its paths are written.
    pub style: PathStyle,
    pub data_dir: String,
    pub component: String,
    pub version: String,
    /// How often it tries to connect before it starts the agent.
    pub connect_retries: u32,
    /// The pause between two tries, in milliseconds.
    pub retry_interval_ms: u64,
    /// The program of the agent, before any other.
    pub agent_binary_override: Option<String>,
    /// Where the program of the agent comes from, where none is installed.
    pub agent_source_dir: Option<String>,
}

/// The tries to reach an agent that was just started.
pub const READY_ATTEMPTS: u32 = 10;

/// The pause before each of them, in milliseconds.
pub const READY_INTERVAL_MS: u64 = 200;

impl ClientConfig {
    /// Whether this is the usual configuration of a component.
    pub open spec fn is_usual(self, component: Seq<char>, version: Seq<char>) -> bool {
        &&& self.component@ == component
        &&& self.version@ == version
        &&& self.connect_retries == 3
        &&& self.retry_interval_ms == 500
        &&& self.agent_binary_override is None
        &&& self.agent_source_dir is None
    }

    /// The usual configuration of a component of the version given that keeps its name to itself.
    pub fn default(version: &str) -> (r: ClientConfig)
        ensures
            exists|home: Option<Seq<char>>| r.data_dir@ == #[trigger] data_dir_in(
                r.style,
                home,
            ),
            r.is_usual("unknown"@, version@),
    {
        ClientConfig::new("unknown", version)
    }

    /// The usual configuration of the component named, below the home directory of the user.
    pub fn new(component: &str, version: &str) -> (r: ClientConfig)
        ensures
            exists|home: Option<Seq<char>>| r.data_dir@ == #[trigger] data_dir_in(
                r.style,
                home,
            ),
            r.is_usual(component@, version@),
    {
        let style = native_style();
        ClientConfig::in_style(style, component, version, user_data_dir(style))
    }

    /// The usual configuration of the component named, with the data directory given.
    pub fn in_dir(component: &str, version: &str, data_dir: String) -> (r: ClientConfig)
        ensures
            r.data_dir == data_dir,
            r.is_usual(component@, version@),
    {
        ClientConfig::in_style(native_style(), component, version, data_dir)
    }

    /// The usual configuration of the component named, with the data directory given and paths
    /// written in the style given.
    pub fn in_style(style: PathStyle, component: &str, version: &str, data_dir: String) -> (r:
        ClientConfig)
        ensures
            r.style == style,
            r.data_dir == data_dir,
            r.is_usual(component@, version@),
    {
        ClientConfig {
            style,
            data_dir,
            component: component.to_owned(),
            version: version.to_owned(),
            connect_retries: 3,
            retry_interval_ms: 500,
            agent_binary_override: None,
            agent_source_dir: None,
        }
    }

    /// The configuration with the program of the agent given.
    pub fn with_agent_binary(self, path: String) -> (r: ClientConfig)
        ensures
            r == (ClientConfig { agent_binary_override: Some(path), ..self }),
    {
        let mut config = self;
        config.agent_binary_override = Some(path);
        config
    }

    /// The configuration with the directory given that the program of the agent comes from.
    pub fn with_agent_source_dir(self, path: String) -> (r: ClientConfig)
        ensures
            r == (ClientConfig { agent_source_dir: Some(path), ..self }),
    {
        let mut config = self;
        config.agent_source_dir = Some(path);
        config
    }

    /// The socket of the agent.
    pub fn socket_path(&self) -> (r: String)
        ensures
            r@ == joined_path(self.style, self.data_dir@, "agent.sock"@),
    {
        paths::join(self.style, self.data_dir.as_str(), "agent.sock")
    }

    /// The file that holds the number of the agent's process.
    pub fn pid_path(&self) -> (r: String)
        ensures
            r@ == joined_path(self.style, self.data_dir@, "agent.pid"@),
    {
        paths::join(self.style, self.data_dir.as_str(), "agent.pid")
    }

    /// Where the program of the agent is installed.
    pub open spec fn installed(&self) -> Seq<char> {
        joined_path(self.style, joined_path(self.style, self.data_dir@, "bin"@), "vimo-agent"@)
    }

    /// Where the program of the agent is installed.
    pub fn default_agent_binary_path(&self) -> (r: String)
        ensures
            r@ == self.installed(),
    {
        paths::join(
            self.style,
            paths::join(self.style, self.data_dir.as_str(), "bin").as_str(),
            "vimo-agent",
        )
    }

    /// The programs that may be run as they are, the preferred ones first.
    pub open spec fn programs(&self, env_path: Option<&str>) -> Seq<Seq<char>> {
        some_of(opt_view(self.agent_binary_override)) + some_of(
            match env_path {
                Some(p) => Some(p@),
                None => None,
            },
        ) + seq![self.installed()]
    }

    /// The programs that may be run as they are, the preferred ones first: the one configured, the
    /// one that `VIMO_AGENT_PATH` names, and the one installed.
    pub fn agent_programs(&self, env_path: Option<&str>) -> (r: Vec<String>)
        ensures
            views(r@) == self.programs(env_path),
    {
        let mut r: Vec<String> = Vec::new();
        match &self.agent_binary_override {
            Some(p) => {
                r.push(p.clone());
            },
            None => {},
        }
        match env_path {
            Some(p) => {
                r.push(p.to_owned());
            },
            None => {},
        }
        r.push(self.default_agent_binary_path());
        assert(views(r@) =~= self.programs(env_path));
        r
    }

    /// The programs that the agent may be installed from, the preferred ones first.
    pub open spec fn sources(&self, manifest_dir: Option<&str>, exe: Option<&str>) -> Seq<Seq<char>> {
        some_of(
            match self.agent_source_dir {
                Some(d) => Some(joined_path(self.style, d@, "vimo-agent"@)),
                None => None,
            },
        ) + built(self.style, "target/release/vimo-agent"@, manifest_dir) + built(
            self.style,
            "target/debug/vimo-agent"@,
            manifest_dir,
        ) + some_of(beside(self.style, exe, "vimo-agent"@))
    }

    /// The programs that the agent may be installed from, the preferred ones first: the one in the
    /// directory configured, those that a build has left, and the one beside the running program.
    pub fn find_agent_source(&self, manifest_dir: Option<&str>, exe: Option<&str>) -> (r: Vec<
        String,
    >)
        ensures
            views(r@) == self.sources(manifest_dir, exe),
    {
        let mut r: Vec<String> = Vec::new();
        match &self.agent_source_dir {
            Some(d) => {
                r.push(paths::join(self.style, d.as_str(), "vimo-agent"));
            },
            None => {},
        }
        r.push("target/release/vimo-agent".to_owned());
        match join_beside(self.style, manifest_dir, "target/release/vimo-agent") {
            Some(p) => {
                r.push(p);
            },
            None => {},
        }
        r.push("target/debug/vimo-agent".to_owned());
        match join_beside(self.style, manifest_dir, "target/debug/vimo-agent") {
            Some(p) => {
                r.push(p);
            },
            None => {},
        }
        match join_beside(self.style, exe, "vimo-agent") {
            Some(p) => {
                r.push(p);
            },
            None => {},
        }
        assert(views(r@) =~= self.sources(manifest_dir, exe));
        r
    }

    /// The program of the agent, where `present` holds those of the candidates that are there.
    pub fn find_agent_binary(
        &self,
        env_path: Option<&str>,
        manifest_dir: Option<&str>,
        exe: Option<&str>,
        present: &Vec<String>,
    ) -> (r: AgentBinary)
        ensures
            match first_present(self.programs(env_path), views(present@)) {
                Some(p) => r matches AgentBinary::Ready(path) && path@ == p,
                None => match first_present(self.sources(manifest_dir, exe), views(present@)) {
                    Some(p) => r matches AgentBinary::Deploy(path) && path@ == p,
                    None => r is Missing,
                },
            },
    {
        match find_present(&self.agent_programs(env_path), present) {
            Some(p) => AgentBinary::Ready(p),
            None => match find_present(&self.find_agent_source(manifest_dir, exe), present) {
                Some(p) => AgentBinary::Deploy(p),
                None => AgentBinary::Missing,
            },
        }
    }

    /// The program that is run once installing it from `source` was tried: where that failed, the
    /// source itself.
    pub fn after_deploy(&self, source: String, deployed: bool) -> (r: String)
        ensures
            r@ == if deployed {
                self.installed()
            } else {
                source@
            },
    {
        if deployed {
            self.default_agent_binary_path()
        } else {
            source
        }
    }
}

/// Where the program of the agent is.
#[derive(Debug, Clone)]
pub enum AgentBinary {
    /// It can be run from there.
    Ready(String),
    /// It is to be installed from there first.
    Deploy(String),
    /// It is nowhere.
    Missing,
}

/// What is given, if anything.
pub open spec fn some_of(p: Option<Seq<char>>) -> Seq<Seq<char>> {
    match p {
        Some(s) => seq![s],
        None => seq![],
    }
}

/// The path of `name` in the directory that holds `path`.
pub open spec fn beside(style: PathStyle, path: Option<&str>, name: Seq<char>) -> Option<Seq<char>> {
    match path {
        Some(p) => match parent_of(style, p@) {
            Some(d) => Some(joined_path(style, d, name)),
            None => None,
        },
        None => None,
    }
}

/// The programs that a build leaves: in the working directory, and beside the package.
pub open spec fn built(style: PathStyle, program: Seq<char>, manifest_dir: Option<&str>) -> Seq<Seq<char>> {
    seq![program] + some_of(beside(style, manifest_dir, program))
}

fn join_beside(style: PathStyle, path: Option<&str>, name: &str) -> (r: Option<String>)
    ensures
        opt_view(r) == beside(style, path, name@),
{
    match path {
        Some(p) => match paths::parent(style, p) {
            Some(d) => Some(paths::join(style, d.as_str(), name)),
            None => None,
        },
        None => None,
    }
}

/// The first of the candidates that is there.
pub open spec fn first_present(candidates: Seq<Seq<char>>, present: Seq<Seq<char>>) -> Option<
    Seq<char>,
>
    decreases candidates.len(),
{
    if candidates.len() == 0 {
        None
    } else if present.contains(candidates[0]) {
        Some(candidates[0])
    } else {
        first_present(candidates.drop_first(), present)
    }
}

fn find_present(candidates: &Vec<String>, present: &Vec<String>) -> (r: Option<String>)
    ensures
        opt_view(r) == first_present(views(candidates@), views(present@)),
{
    let ghost all = views(candidates@);
    let mut i: usize = 0;
    assert(all.skip(0) =~= all);
    while i < candidates.len()
        invariant
            i <= candidates@.len(),
            all == views(candidates@),
            first_present(all, views(present@)) == first_present(
                all.skip(i as int),
                views(present@),
            ),
        decreases candidates@.len() - i,
    {
        assert(all.skip(i as int)[0] == candidates@[i as int]@);
        if holds_text(present, candidates[i].as_str()) {
            return Some(candidates[i].clone());
        }
        assert(all.skip(i as int).drop_first() =~= all.skip(i + 1));
        i += 1;
    }
    None
}

/// How far connecting has come.
#[derive(Debug, Clone, Copy, PartialEq, Eq, Structural)]
pub enum ConnectState {
    /// Tries to connect to a running agent, for the time given.
    Connect { attempt: u32 },
    /// Removes what a stuck agent has left.
    CleanUp,
    /// Starts the agent.
    Start,
    /// Tries to connect to the agent that was started, for the time given.
    Await { attempt: u32 },
}

/// How a step of connecting came out.
#[derive(Debug)]
pub enum ConnectEvent {
    /// There is a connection, or the step is done.
    Done,
    /// There is no connection, or the step failed, for the reason given.
    Failed(String),
}

/// What follows a step of connecting.
#[derive(Debug)]
pub enum ConnectMove {
    /// Introduces the component over the connection.
    Finish,
    /// Goes on after a pause.
    Pause { ms: u64, next: ConnectState },
    /// Goes on at once.
    Go(ConnectState),
    /// Gives up, for the reason given.
    GiveUp(String),
}

/// Where connecting begins.
pub fn connect_begin(config: &ClientConfig) -> (r: ConnectState)
    ensures
        r == if config.connect_retries == 0 {
            ConnectState::CleanUp
        } else {
            ConnectState::Connect { attempt: 1 }
        },
{
    if config.connect_retries == 0 {
        ConnectState::CleanUp
    } else {
        ConnectState::Connect { attempt: 1 }
    }
}

/// Whether `m` follows the step, which came out as given.
pub open spec fn is_move(
    retries: u32,
    interval: u64,
    state: ConnectState,
    event: ConnectEvent,
    m: ConnectMove,
) -> bool {
    match (state, event) {
        (ConnectState::Connect { .. }, ConnectEvent::Done) => m is Finish,
        (ConnectState::Connect { attempt }, ConnectEvent::Failed(_)) => if attempt < retries {
            m == (ConnectMove::Pause {
                ms: interval,
                next: ConnectState::Connect { attempt: (attempt + 1) as u32 },
            })
        } else {
            m == ConnectMove::Go(ConnectState::CleanUp)
        },
        (ConnectState::CleanUp, ConnectEvent::Done) => m == ConnectMove::Go(ConnectState::Start),
        (ConnectState::CleanUp, ConnectEvent::Failed(why)) => m == ConnectMove::GiveUp(why),
        (ConnectState::Start, ConnectEvent::Done) => m == (ConnectMove::Pause {
            ms: READY_INTERVAL_MS,
            next: ConnectState::Await { attempt: 1 },
        }),
        (ConnectState::Start, ConnectEvent::Failed(why)) => m == ConnectMove::GiveUp(why),
        (ConnectState::Await { .. }, ConnectEvent::Done) => m is Finish,
        (ConnectState::Await { attempt }, ConnectEvent::Failed(_)) => if attempt < READY_ATTEMPTS {
            m == (ConnectMove::Pause {
                ms: READY_INTERVAL_MS,
                next: ConnectState::Await { attempt: (attempt + 1) as u32 },
            })
        } else {
            m matches ConnectMove::GiveUp(why) && why@ == "Timeout starting Agent"@
        },
    }
}

/// What follows a step of connecting, which came out as given.
pub fn connect_or_start_agent(config: &ClientConfig, state: ConnectState, event: ConnectEvent) -> (r:
    ConnectMove)
    ensures
        is_move(config.connect_retries, config.retry_interval_ms, state, event, r),
{
    match state {
        ConnectState::Connect { attempt } => match event {
            ConnectEvent::Done => ConnectMove::Finish,
            ConnectEvent::Failed(_) => if attempt < config.connect_retries {
                ConnectMove::Pause {
                    ms: config.retry_interval_ms,
                    next: ConnectState::Connect { attempt: attempt + 1 },
                }
            } else {
                ConnectMove::Go(ConnectState::CleanUp)
            },
        },
        ConnectState::CleanUp => match event {
            ConnectEvent::Done => ConnectMove::Go(ConnectState::Start),
            ConnectEvent::Failed(why) => ConnectMove::GiveUp(why),
        },
        ConnectState::Start => match event {
            ConnectEvent::Done => ConnectMove::Pause {
                ms: READY_INTERVAL_MS,
                next: ConnectState::Await { attempt: 1 },
            },
            ConnectEvent::Failed(why) => ConnectMove::GiveUp(why),
        },
        ConnectState::Await { attempt } => match event {
            ConnectEvent::Done => ConnectMove::Finish,
            ConnectEvent::Failed(_) => if attempt < READY_ATTEMPTS {
                ConnectMove::Pause {
                    ms: READY_INTERVAL_MS,
                    next: ConnectState::Await { attempt: attempt + 1 },
                }
            } else {
                ConnectMove::GiveUp("Timeout starting Agent".to_owned())
            },
        },
    }
}

/// How many steps connecting may still take.
pub open spec fn steps_left(retries: u32, state: ConnectState) -> int {
    match state {
        ConnectState::Connect { attempt } => READY_ATTEMPTS + 2 + if attempt < retries {
            retries - attempt + 1
        } else {
            1
        },
        ConnectState::CleanUp => READY_ATTEMPTS + 2,
        ConnectState::Start => READY_ATTEMPTS + 1,
        ConnectState::Await { attempt } => if attempt < READY_ATTEMPTS {
            READY_ATTEMPTS - attempt + 1
        } else {
            1
        },
    }
}

/// The state in which connecting goes on.
pub open spec fn state_after(m: ConnectMove) -> Option<ConnectState> {
    match m {
        ConnectMove::Pause { ms: _, next } => Some(next),
        ConnectMove::Go(next) => Some(next),
        _ => None,
    }
}

/// Connecting comes to an end: each step leaves fewer to take.
pub proof fn connecting_ends(
    retries: u32,
    interval: u64,
    state: ConnectState,
    event: ConnectEvent,
    m: ConnectMove,
)
    requires
        is_move(retries, interval, state, event, m),
    ensures
        steps_left(retries, state) > 0,
        state_after(m) matches Some(next) ==> steps_left(retries, next) < steps_left(
            retries,
            state,
        ),
{
}

/// The agent is not started while connecting may be tried again: what a stuck agent has left is
/// removed only after the last try, and the agent is started only after that.
pub proof fn agent_is_started_last(
    retries: u32,
    interval: u64,
    state: ConnectState,
    event: ConnectEvent,
    m: ConnectMove,
)
    requires
        is_move(retries, interval, state, event, m),
    ensures
        state_after(m) == Some(ConnectState::Start) ==> state is CleanUp,
        state_after(m) == Some(ConnectState::CleanUp) ==> (state matches ConnectState::Connect {
            attempt,
        } && attempt >= retries && event is Failed),
{
}

/// Whether an agent is stuck: its process is recorded and alive, but has no socket.
pub fn is_agent_stuck(pid: Option<u32>, process_alive: bool, socket_exists: bool) -> (r: bool)
    ensures
        r == (pid is Some && process_alive && !socket_exists),
{
    pid.is_some() && process_alive && !socket_exists
}

/// What is said of a request that failed.
pub open spec fn failed_text(what: Seq<char>, message: Seq<char>, code: i32) -> Seq<char> {
    what + " failed: "@ + message + " (code="@ + signed_decimal(code as int) + ")"@
}

fn failed(what: &str, message: &str, code: i32) -> (r: String)
    ensures
        r@ == failed_text(what@, message@, code),
{
    let mut r = what.to_owned();
    r.push_str(" failed: ");
    r.push_str(message);
    r.push_str(" (code=");
    r.push_str(signed_decimal_of(code as i64).as_str());
    r.push_str(")");
    r
}

/// What an answer means for the request that is called `what`.
pub open spec fn is_settled(what: Seq<char>, response: Response, r: Result<(), String>) -> bool {
    match response {
        Response::Success => r is Ok,
        Response::Error { code, message } => r matches Err(e) && e@ == failed_text(
            what,
            message@,
            code,
        ),
        _ => r matches Err(e) && e@ == "Unexpected response"@,
    }
}

fn settle(what: &str, response: &Response) -> (r: Result<(), String>)
    ensures
        is_settled(what@, *response, r),
{
    match response {
        Response::Success => Ok(()),
        Response::Error { code, message } => Err(failed(what, message.as_str(), *code)),
        _ => Err("Unexpected response".to_owned()),
    }
}

/// What the answer to a subscription means.
pub fn subscribe(response: &Response) -> (r: Result<(), String>)
    ensures
        is_settled("Subscribe"@, *response, r),
{
    settle("Subscribe", response)
}

/// What the answer to a file change means.
pub fn notify_file_change(response: &Response) -> (r: Result<(), String>)
    ensures
        is_settled("NotifyFileChange"@, *response, r),
{
    settle("NotifyFileChange", response)
}

/// What the answer to a resolved approval means.
pub fn write_approve_result(response: &Response) -> (r: Result<(), String>)
    ensures
        is_settled("WriteApproveResult"@, *response, r),
{
    settle("WriteApproveResult", response)
}

/// What the answer to an introduction means: the version of the agent, or why there is none.
pub fn finish_connect(response: &Response) -> (r: Result<String, String>)
    ensures
        match response {
            Response::HandshakeOk { agent_version } => r matches Ok(v) && v@ == agent_version@,
            Response::Error { code, message } => r matches Err(e) && e@ == failed_text(
                "Handshake"@,
                message@,
                *code,
            ),
            _ => r matches Err(e) && e@ == "Unexpected handshake response"@,
        },
{
    match response {
        Response::HandshakeOk { agent_version } => Ok(agent_version.clone()),
        Response::Error { code, message } => Err(failed("Handshake", message.as_str(), *code)),
        _ => Err("Unexpected handshake response".to_owned()),
    }
}

/// The name of a platform that the agent is built for.
pub open spec fn platform_of(os: Seq<char>, arch: Seq<char>) -> Option<Seq<char>> {
    if os == "macos"@ && arch == "aarch64"@ {
        Some("darwin-arm64"@)
    } else if os == "macos"@ && arch == "x86_64"@ {
        Some("darwin-x64"@)
    } else if os == "linux"@ && arch == "x86_64"@ {
        Some("linux-x64"@)
    } else if os == "linux"@ && arch == "aarch64"@ {
        Some("linux-arm64"@)
    } else if os == "windows"@ && arch == "x86_64"@ {
        Some("windows-x64"@)
    } else {
        None
    }
}

/// The name of the platform, where the agent is built for it.
pub fn detect_platform(os: &str, arch: &str) -> (r: Result<String, String>)
    ensures
        match r {
            Ok(p) => platform_of(os@, arch@) == Some(p@),
            Err(e) => platform_of(os@, arch@) is None && e@ == "Unsupported platform: os="@ + os@
                + ", arch="@ + arch@,
        },
{
    let arm = same_text(arch, "aarch64");
    let intel = same_text(arch, "x86_64");
    if same_text(os, "macos") && arm {
        return Ok("darwin-arm64".to_owned());
    }
    if same_text(os, "macos") && intel {
        return Ok("darwin-x64".to_owned());
    }
    if same_text(os, "linux") && intel {
        return Ok("linux-x64".to_owned());
    }
    if same_text(os, "linux") && arm {
        return Ok("linux-arm64".to_owned());
    }
    if same_text(os, "windows") && intel {
        return Ok("windows-x64".to_owned());
    }
    let mut e = "Unsupported platform: os=".to_owned();
    e.push_str(os);
    e.push_str(", arch=");
    e.push_str(arch);
    Err(e)
}

} // verus!
