//! Pushing over a long-lived connection.
use vstd::prelude::*;
use crate::sync::client::{trim_slashes, without_slashes};
use crate::text::{begins_with, chars_of, starts_with, string_of_range};

verus! {

/// The address of the stream of a server: `wss` for `https`, `ws` for anything else.
pub open spec fn stream_url(server: Seq<char>) -> Seq<char> {
    let base = without_slashes(server);
    (if begins_with(base, "https://"@) {
        "wss://"@ + base.skip("https://"@.len() as int)
    } else if begins_with(base, "http://"@) {
        "ws://"@ + base.skip("http://"@.len() as int)
    } else {
        "ws://"@ + base
    }) + "/api/sync/stream"@
}

/// The address of the stream of a server.
pub fn http_to_ws_url(server: &str) -> (r: String)
    ensures
        r@ == stream_url(server@),
{
    let base = trim_slashes(server);
    let v = chars_of(base.as_str());
    proof {
        reveal_strlit("https://");
        reveal_strlit("http://");
    }
    let mut r;
    if starts_with(base.as_str(), "https://") {
        r = "wss://".to_owned();
        let rest = string_of_range(&v, 8, v.len());
        assert(rest@ =~= base@.skip(8));
        r.push_str(rest.as_str());
    } else if starts_with(base.as_str(), "http://") {
        r = "ws://".to_owned();
        let rest = string_of_range(&v, 7, v.len());
        assert(rest@ =~= base@.skip(7));
        r.push_str(rest.as_str());
    } else {
        r = "ws://".to_owned();
        r.push_str(base.as_str());
    }
    r.push_str("/api/sync/stream");
    r
}

/// The server's answer to a greeting.
#[derive(Debug, Clone)]
pub enum AuthAck {
    /// The client is known.
    Accepted { server_version: String },
    /// The client is refused.
    Refused { message: String },
    /// Something else was answered; the text shows what.
    Other { shown: String },
}

/// Whether the client may push over the stream, or why not.
pub fn authenticate(ack: AuthAck) -> (r: Result<String, String>)
    ensures
        match ack {
            AuthAck::Accepted { server_version } => r == Ok::<String, String>(server_version),
            AuthAck::Refused { message } => r is Err && r->Err_0@ == "ws auth failed: "@ + message@,
            AuthAck::Other { shown } => r is Err && r->Err_0@ == "unexpected auth response: "@
                + shown@,
        },
{
    match ack {
        AuthAck::Accepted { server_version } => Ok(server_version),
        AuthAck::Refused { message } => {
            let mut e = "ws auth failed: ".to_owned();
            e.push_str(message.as_str());
            Err(e)
        },
        AuthAck::Other { shown } => {
            let mut e = "unexpected auth response: ".to_owned();
            e.push_str(shown.as_str());
            Err(e)
        },
    }
}

/// What comes over the stream.
#[derive(Debug, Clone)]
pub enum Received {
    Text(String),
    Close,
    /// Something that carries no answer.
    Other,
    /// Nothing more.
    Ended,
}

/// What is made of it.
#[derive(Debug, Clone)]
pub enum AckStep {
    /// The text is the answer.
    Parse(String),
    /// The answer is still to come.
    Wait,
    /// There will be no answer, for the reason given.
    Failed(String),
}

/// What is made of what comes over the stream while an answer is awaited.
pub fn recv_ack(received: Received) -> (r: AckStep)
    ensures
        match received {
            Received::Text(t) => r == AckStep::Parse(t),
            Received::Close => r matches AckStep::Failed(e) && e@
                == "ws connection closed by server"@,
            Received::Other => r is Wait,
            Received::Ended => r matches AckStep::Failed(e) && e@ == "ws connection closed"@,
        },
{
    match received {
        Received::Text(t) => AckStep::Parse(t),
        Received::Close => AckStep::Failed("ws connection closed by server".to_owned()),
        Received::Other => AckStep::Wait,
        Received::Ended => AckStep::Failed("ws connection closed".to_owned()),
    }
}

} // verus!
