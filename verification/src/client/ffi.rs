//! The client of the agent as C sees it.
use vstd::prelude::*;
use crate::agent::server::data_dir_in;
use crate::calls::{required, required_text, shown, CText};
use crate::client::connect::ClientConfig;
use crate::ffi::FfiError;
use crate::text::{contains_text, occurs_in, stands_at};

verus! {

/// Whether a string that may be missing is one or the other, and can be read.
pub open spec fn is_optional_text(a: CText, r: Option<String>) -> bool {
    match a {
        CText::Null => r is None,
        CText::NotUtf8 => false,
        CText::Text(s) => r == Some(s),
    }
}

fn optional_text(a: CText) -> (r: Result<Option<String>, FfiError>)
    ensures
        match r {
            Ok(o) => is_optional_text(a, o),
            Err(e) => e == FfiError::InvalidUtf8 && a is NotUtf8,
        },
{
    match a {
        CText::Null => Ok(None),
        CText::NotUtf8 => Err(FfiError::InvalidUtf8),
        CText::Text(s) => Ok(Some(s)),
    }
}

/// The configuration of a component, with a data directory and a source of the agent's program
/// where they are given.
pub fn agent_client_create(
    missing: bool,
    component: CText,
    data_dir: CText,
    agent_source_dir: CText,
    version: &str,
) -> (r: Result<ClientConfig, FfiError>)
    ensures
        match required(missing, component) {
            Err(e) => r == Err::<ClientConfig, FfiError>(e),
            Ok(name) => if data_dir is NotUtf8 || agent_source_dir is NotUtf8 {
                r == Err::<ClientConfig, FfiError>(FfiError::InvalidUtf8)
            } else {
                &&& r is Ok
                &&& match data_dir {
                    CText::Text(d) => (r->Ok_0).data_dir == d,
                    _ => exists|home: Option<Seq<char>>|
                        (r->Ok_0).data_dir@ == #[trigger] data_dir_in(
                            (r->Ok_0).style,
                            home,
                        ),
                }
                &&& (ClientConfig { agent_source_dir: None, ..r->Ok_0 }).is_usual(name, version@)
                &&& is_optional_text(agent_source_dir, (r->Ok_0).agent_source_dir)
            },
        },
{
    let component = match required_text(missing, component) {
        Ok(c) => c,
        Err(e) => {
            return Err(e);
        },
    };
    match (optional_text(data_dir), optional_text(agent_source_dir)) {
        (Ok(dir), Ok(source)) => {
            let mut config = match dir {
                Some(d) => ClientConfig::in_dir(component.as_str(), version, d),
                None => ClientConfig::new(component.as_str(), version),
            };
            config.agent_source_dir = source;
            Ok(config)
        },
        _ => Err(FfiError::InvalidUtf8),
    }
}

/// Whether a client is connected.
#[derive(Debug, Clone, Copy, PartialEq, Eq, Structural)]
pub struct ClientState {
    pub connected: bool,
    pub has_client: bool,
}

/// The number of an attempt to connect that ended as given.
pub open spec fn connect_result(error: Option<&str>) -> FfiError {
    match error {
        None => FfiError::Success,
        Some(e) => if occurs_in(e@, "Agent binary not found"@) {
            FfiError::AgentNotFound
        } else {
            FfiError::ConnectionFailed
        },
    }
}

/// What says that the program of the agent is not there begins with this.
pub const AGENT_NOT_FOUND: &'static str = "Agent binary not found and auto-download failed: ";

/// What is said where the program of the agent is not there and could not be fetched for the cause
/// given, with the places where it was looked for.
pub fn agent_not_found(cause: &str, configured: &str, named: &str, usual: &str) -> (r: String)
    ensures
        r@ == AGENT_NOT_FOUND@ + cause@ + "\n\nTried paths:\n- Config override: "@ + configured@
            + "\n- Environment variable VIMO_AGENT_PATH: "@ + named@ + "\n- Default path: "@ + usual@
            + "\n- Cargo target directory\n- GitHub Release auto-download\n\nPlease set VIMO_AGENT_PATH environment variable or run `cargo build -p ai-cli-session-db --features agent --bin vimo-agent`"@,
{
    let mut r = AGENT_NOT_FOUND.to_owned();
    r.push_str(cause);
    r.push_str("\n\nTried paths:\n- Config override: ");
    r.push_str(configured);
    r.push_str("\n- Environment variable VIMO_AGENT_PATH: ");
    r.push_str(named);
    r.push_str("\n- Default path: ");
    r.push_str(usual);
    r.push_str(
        "\n- Cargo target directory\n- GitHub Release auto-download\n\nPlease set VIMO_AGENT_PATH environment variable or run `cargo build -p ai-cli-session-db --features agent --bin vimo-agent`",
    );
    r
}

/// Connecting that fails because the program of the agent is not there has a number of its own,
/// whatever else is said of it.
pub proof fn missing_agent_has_its_number(message: &str, rest: Seq<char>)
    requires
        message@ == AGENT_NOT_FOUND@ + rest,
    ensures
        connect_result(Some(message)) == FfiError::AgentNotFound,
{
    reveal_strlit("Agent binary not found");
    reveal_strlit("Agent binary not found and auto-download failed: ");
    let w = "Agent binary not found"@;
    assert(message@.subrange(0, w.len() as int) =~= w);
    assert(stands_at(message@, w, 0));
}

impl ClientState {
    /// A client that has not connected yet.
    pub fn new() -> (r: ClientState)
        ensures
            !r.connected,
            !r.has_client,
    {
        ClientState { connected: false, has_client: false }
    }

    /// Whether connecting is needed.
    pub fn must_connect(&self) -> (r: bool)
        ensures
            r == !self.connected,
    {
        !self.connected
    }

    /// Takes note of how connecting ended.
    pub fn agent_client_connect(&mut self, error: Option<&str>) -> (r: FfiError)
        ensures
            r == connect_result(error),
            *final(self) == if error is None {
                (ClientState { connected: true, has_client: true })
            } else {
                *old(self)
            },
    {
        match error {
            None => {
                self.connected = true;
                self.has_client = true;
                FfiError::Success
            },
            Some(e) => if contains_text(e, "Agent binary not found") {
                FfiError::AgentNotFound
            } else {
                FfiError::ConnectionFailed
            },
        }
    }

    /// Whether a request can be sent.
    pub fn agent_client_request(&self) -> (r: Result<(), FfiError>)
        ensures
            r == if self.connected && self.has_client {
                Ok::<(), FfiError>(())
            } else {
                Err(FfiError::NotConnected)
            },
    {
        if self.connected && self.has_client {
            Ok(())
        } else {
            Err(FfiError::NotConnected)
        }
    }

    /// The path of the file whose change the agent is told, where it can be told.
    pub fn agent_client_notify_file_change(&self, missing: bool, path: CText) -> (r: Result<
        String,
        FfiError,
    >)
        ensures
            shown(r) == self.sent(required(missing, path)),
    {
        self.sends(missing, path)
    }

    /// The call of a tool whose approval the agent is told, where it can be told.
    pub fn agent_client_write_approve_result(&self, missing: bool, tool_call_id: CText) -> (r: Result<
        String,
        FfiError,
    >)
        ensures
            shown(r) == self.sent(required(missing, tool_call_id)),
    {
        self.sends(missing, tool_call_id)
    }

    /// What is sent of what is to be sent: nothing without a connection.
    pub open spec fn sent(self, text: Result<Seq<char>, FfiError>) -> Result<Seq<char>, FfiError> {
        if text is Ok && !(self.connected && self.has_client) {
            Err(FfiError::NotConnected)
        } else {
            text
        }
    }

    fn sends(&self, missing: bool, a: CText) -> (r: Result<String, FfiError>)
        ensures
            shown(r) == self.sent(required(missing, a)),
    {
        match required_text(missing, a) {
            Ok(s) => match self.agent_client_request() {
                Ok(_) => Ok(s),
                Err(e) => Err(e),
            },
            Err(e) => Err(e),
        }
    }

    /// Whether the client is connected.
    pub fn agent_client_is_connected(&self) -> (r: bool)
        ensures
            r == self.connected,
    {
        self.connected
    }

    /// Gives the connection up.
    pub fn agent_client_disconnect(&mut self)
        ensures
            !final(self).connected,
            !final(self).has_client,
    {
        self.connected = false;
        self.has_client = false;
    }
}

/// The number of a request that ended well or not.
pub fn request_code(succeeded: bool) -> (r: FfiError)
    ensures
        r == if succeeded {
            FfiError::Success
        } else {
            FfiError::RequestFailed
        },
{
    if succeeded {
        FfiError::Success
    } else {
        FfiError::RequestFailed
    }
}

} // verus!
