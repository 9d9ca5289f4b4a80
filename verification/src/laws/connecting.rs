//! What holds of a client that looks for the agent.
use vstd::prelude::*;
use crate::client::connect::{
    connect_begin, connect_or_start_agent, detect_platform, finish_connect, first_present,
    is_agent_stuck, notify_file_change, subscribe, write_approve_result, AgentBinary,
    ClientConfig, ConnectEvent, ConnectMove, ConnectState,
};
use crate::client::download::{
    download_file_simple, download_request, headers_end, location_line, DownloadReply,
    DownloadRequest,
};
use crate::agent::server::AgentConfig;
use crate::paths::PathStyle;
use crate::protocol::Response;
use crate::text::{begins_with, lines_of, lossy_text, lowercase, views};

verus! {

proof fn lemma_first_present(candidates: Seq<Seq<char>>, present: Seq<Seq<char>>)
    ensures
        match first_present(candidates, present) {
            Some(p) => exists|i: int|
                #![trigger candidates[i]]
                {
                    &&& 0 <= i < candidates.len()
                    &&& candidates[i] == p
                    &&& present.contains(p)
                    &&& forall|k: int| 0 <= k < i ==> !present.contains(#[trigger] candidates[k])
                },
            None => forall|k: int|
                0 <= k < candidates.len() ==> !present.contains(#[trigger] candidates[k]),
        },
    decreases candidates.len(),
{
    if candidates.len() > 0 && !present.contains(candidates[0]) {
        let d = candidates.drop_first();
        lemma_first_present(d, present);
        assert forall|k: int| 0 < k < candidates.len() implies #[trigger] candidates[k] == d[k - 1] by {}
        if let Some(p) = first_present(d, present) {
            let i = choose|i: int|
                #![trigger d[i]]
                {
                    &&& 0 <= i < d.len()
                    &&& d[i] == p
                    &&& present.contains(p)
                    &&& forall|k: int| 0 <= k < i ==> !present.contains(#[trigger] d[k])
                };
            assert(candidates[i + 1] == p);
        }
    } else if candidates.len() > 0 {
        assert(candidates[0] == candidates[0]);
    }
}

/// The program of the agent that is configured is run wherever it is there, before the one that the
/// environment names, and that one before the one installed; a program is installed only where none of
/// them is there, and it is then one that is there.
pub proof fn configured_program_comes_first(
    c: &ClientConfig,
    env_path: Option<&str>,
    manifest_dir: Option<&str>,
    exe: Option<&str>,
    present: &Vec<String>,
    installed: String,
    r: AgentBinary,
)
    requires
        call_ensures(
            ClientConfig::find_agent_binary,
            (c, env_path, manifest_dir, exe, present),
            r,
        ),
        call_ensures(ClientConfig::default_agent_binary_path, (c,), installed),
    ensures
        ({
            let there = views(present@);
            let configured = c.agent_binary_override is Some && there.contains(
                c.agent_binary_override->0@,
            );
            let named = env_path is Some && there.contains(env_path->0@);
            &&& configured ==> r is Ready && r->Ready_0@ == c.agent_binary_override->0@
            &&& !configured && named ==> r is Ready && r->Ready_0@ == env_path->0@
            &&& !configured && !named && there.contains(installed@) ==> r is Ready && r->Ready_0@
                == installed@
            &&& !configured && !named && !there.contains(installed@) ==> !(r is Ready)
            &&& r is Ready ==> there.contains(r->Ready_0@)
            &&& r is Deploy ==> there.contains(r->Deploy_0@)
        }),
{
    let there = views(present@);
    let programs = c.programs(env_path);
    lemma_first_present(programs, there);
    lemma_first_present(c.sources(manifest_dir, exe), there);
    let n = programs.len() - 1;
    assert(programs[n] == installed@);
    if c.agent_binary_override is Some {
        assert(programs[0] == c.agent_binary_override->0@);
        if env_path is Some {
            assert(programs[1] == env_path->0@);
        }
    } else if env_path is Some {
        assert(programs[0] == env_path->0@);
    }
}

/// A client tries to connect as often as it may before it cleans up and starts the agent; then it tries
/// ten times more, a fifth of a second apart. It never starts the agent twice, and a connection ends the search.
pub proof fn agent_is_started_once(
    c: &ClientConfig,
    state: ConnectState,
    event: ConnectEvent,
    r: ConnectMove,
)
    requires
        call_ensures(connect_or_start_agent, (c, state, event), r),
    ensures
        event is Done && (state is Connect || state is Await) ==> r is Finish,
        r is Finish ==> event is Done && (state is Connect || state is Await),
        state matches ConnectState::Connect { attempt } ==> event is Failed && attempt
            < c.connect_retries ==> {
            &&& r matches ConnectMove::Pause { ms, next }
            &&& ms == c.retry_interval_ms
            &&& next matches ConnectState::Connect { attempt: again }
            &&& again == attempt + 1
        },
        state matches ConnectState::Connect { attempt } ==> event is Failed && attempt
            >= c.connect_retries ==> r == ConnectMove::Go(ConnectState::CleanUp),
        state is CleanUp && event is Done ==> r == ConnectMove::Go(ConnectState::Start),
        state is Start && event is Done ==> {
            &&& r matches ConnectMove::Pause { ms, next }
            &&& ms == 200
            &&& next == (ConnectState::Await { attempt: 1 })
        },
        state matches ConnectState::Await { attempt } ==> event is Failed ==> {
            &&& attempt < 10 ==> (r matches ConnectMove::Pause { ms, next } && ms == 200 && next == (
            ConnectState::Await { attempt: (attempt + 1) as u32 }))
            &&& attempt >= 10 ==> r is GiveUp
        },
        (state is CleanUp || state is Start) && event is Failed ==> r is GiveUp,
{
}

/// The search begins with a try to connect, unless none is allowed.
pub proof fn connecting_begins_with_a_try(c: &ClientConfig, r: ConnectState)
    requires
        call_ensures(connect_begin, (c,), r),
    ensures
        c.connect_retries > 0 ==> r == (ConnectState::Connect { attempt: 1 }),
        c.connect_retries == 0 ==> r is CleanUp,
{
}

/// An agent is stuck where its process lives but nobody can reach it.
pub proof fn stuck_agent_cannot_be_reached(pid: Option<u32>, alive: bool, socket: bool, r: bool)
    requires
        call_ensures(is_agent_stuck, (pid, alive, socket), r),
    ensures
        socket ==> !r,
        !alive ==> !r,
        pid is None ==> !r,
        pid is Some && alive && !socket ==> r,
{
}

/// A request succeeds exactly where the agent says so, whatever it was for.
pub proof fn success_is_what_the_agent_says(
    response: &Response,
    a: Result<(), String>,
    b: Result<(), String>,
    c: Result<(), String>,
    d: Result<String, String>,
)
    requires
        call_ensures(subscribe, (response,), a),
        call_ensures(notify_file_change, (response,), b),
        call_ensures(write_approve_result, (response,), c),
        call_ensures(finish_connect, (response,), d),
    ensures
        a is Ok <==> response is Success,
        b is Ok <==> response is Success,
        c is Ok <==> response is Success,
        d is Ok <==> response is HandshakeOk,
        d is Ok ==> d->Ok_0@ == response->agent_version@,
{
}

/// Each platform has a name of its own: two that are known are named alike only where they are the same.
pub proof fn platforms_have_their_names(
    os: (&str, &str),
    arch: (&str, &str),
    a: Result<String, String>,
    b: Result<String, String>,
)
    requires
        call_ensures(detect_platform, (os.0, arch.0), a),
        call_ensures(detect_platform, (os.1, arch.1), b),
        a is Ok,
        b is Ok,
        a->Ok_0@ == b->Ok_0@,
    ensures
        os.0@ == os.1@,
        arch.0@ == arch.1@,
        os.0@ == "macos"@ && arch.0@ == "aarch64"@ ==> a->Ok_0@ == "darwin-arm64"@,
        os.0@ == "macos"@ && arch.0@ == "x86_64"@ ==> a->Ok_0@ == "darwin-x64"@,
        os.0@ == "linux"@ && arch.0@ == "x86_64"@ ==> a->Ok_0@ == "linux-x64"@,
        os.0@ == "linux"@ && arch.0@ == "aarch64"@ ==> a->Ok_0@ == "linux-arm64"@,
        os.0@ == "windows"@ && arch.0@ == "x86_64"@ ==> a->Ok_0@ == "windows-x64"@,
{
    reveal_strlit("macos");
    reveal_strlit("linux");
    reveal_strlit("windows");
    reveal_strlit("aarch64");
    reveal_strlit("x86_64");
    reveal_strlit("darwin-arm64");
    reveal_strlit("darwin-x64");
    reveal_strlit("linux-x64");
    reveal_strlit("linux-arm64");
    reveal_strlit("windows-x64");
    assert("macos"@ != "linux"@) by {
        assert("macos"@[0] != "linux"@[0]);
    }
    assert("macos"@.len() != "windows"@.len() && "linux"@.len() != "windows"@.len());
    assert("aarch64"@.len() != "x86_64"@.len());
    assert("darwin-arm64"@[0] == 'd' && "darwin-x64"@[0] == 'd' && "linux-x64"@[0] == 'l'
        && "linux-arm64"@[0] == 'l' && "windows-x64"@[0] == 'w');
    assert("darwin-arm64"@.len() == 12 && "darwin-x64"@.len() == 10 && "linux-x64"@.len() == 9
        && "linux-arm64"@.len() == 11 && "windows-x64"@.len() == 11);
}

/// A secure address is asked for at its host with its path; an address that is not secure, or names no
/// path, is not asked for at all.
pub proof fn only_secure_addresses_are_asked(
    url: &str,
    host: Seq<char>,
    path: Seq<char>,
    r: Result<DownloadRequest, String>,
)
    requires
        call_ensures(download_request, (url,), r),
        !host.contains('/'),
    ensures
        url@ == "https://"@ + host.push('/') + path ==> r is Ok && r->Ok_0.host@ == host
            && r->Ok_0.path@ == path,
        !begins_with(url@, "https://"@) ==> r is Err,
        url@ == "https://"@ + host ==> r is Err,
{
    reveal_strlit("https://");
    let rest = host.push('/') + path;
    if url@ == "https://"@ + host.push('/') + path {
        assert(url@.subrange(0, 8) =~= "https://"@);
        assert(url@.skip(8) =~= rest);
        assert(rest[host.len() as int] == '/');
        let d = r->Ok_0;
        let n = d.host@.len() as int;
        assert(rest[n] == '/');
        if n < host.len() {
            assert(host[n] == '/');
        }
        if n > host.len() {
            assert(d.host@[host.len() as int] == rest[host.len() as int]);
        }
        assert(d.host@ =~= rest.take(n));
        assert(host =~= rest.take(n));
        assert(d.path@ =~= rest.skip(n + 1));
        assert(path =~= rest.skip(n + 1));
    }
    if url@ == "https://"@ + host {
        assert(url@.subrange(0, 8) =~= "https://"@);
        assert(url@.skip(8) =~= host);
    }
}

proof fn lemma_location(lines: Seq<Seq<char>>)
    ensures
        location_line(lines) is None <==> forall|i: int|
            0 <= i < lines.len() ==> !begins_with(lowercase(#[trigger] lines[i]), "location:"@),
        location_line(lines) matches Some(l) ==> lines.contains(l) && begins_with(
            lowercase(l),
            "location:"@,
        ),
    decreases lines.len(),
{
    if lines.len() > 0 {
        let d = lines.drop_first();
        lemma_location(d);
        assert forall|i: int| 0 < i < lines.len() implies #[trigger] lines[i] == d[i - 1] by {}
        if begins_with(lowercase(lines[0]), "location:"@) {
            assert(lines.contains(lines[0]));
        } else {
            if let Some(l) = location_line(d) {
                let i = choose|i: int| 0 <= i < d.len() && d[i] == l;
                assert(lines[i + 1] == l);
            }
            if location_line(d) is None {
                assert forall|i: int| 0 <= i < lines.len() implies !begins_with(
                    lowercase(#[trigger] lines[i]),
                    "location:"@,
                ) by {
                    if i > 0 {
                        assert(lines[i] == d[i - 1]);
                    }
                }
            } else {
                let l = location_line(d)->0;
                let i = choose|i: int| 0 <= i < d.len() && d[i] == l;
                assert(lines[i + 1] == l);
            }
        }
    }
}

/// A file that the server has comes whole, from behind the first blank line of the answer; one that has
/// moved is asked for where it went; and any other answer is a failure.
pub proof fn answer_decides_the_download(bytes: &Vec<u8>, r: DownloadReply)
    requires
        call_ensures(download_file_simple, (bytes,), r),
    ensures
        ({
            let text = lossy_text(bytes@);
            let found = begins_with(text, "HTTP/1.1 200"@) || begins_with(text, "HTTP/1.0 200"@)
                || begins_with(text, "HTTP/2 200"@);
            let moved = begins_with(text, "HTTP/1.1 301"@) || begins_with(text, "HTTP/1.1 302"@)
                || begins_with(text, "HTTP/1.1 307"@) || begins_with(text, "HTTP/1.1 308"@);
            &&& r is Body ==> found
            &&& r is Redirect ==> moved && !found && exists|line: Seq<char>| #[trigger]
                lines_of(text).contains(line) && begins_with(lowercase(line), "location:"@)
            &&& found ==> !(r is Redirect)
            &&& !found && !moved ==> r is Failed
            &&& r is Body ==> exists|at: int| #[trigger]
                headers_end(bytes@, at) && r->Body_0@ == bytes@.skip(at + 4) && forall|k: int|
                    k < at ==> !#[trigger] headers_end(bytes@, k)
            &&& found && (exists|at: int| headers_end(bytes@, at)) ==> r is Body
        }),
{
    lemma_location(lines_of(lossy_text(bytes@)));
}

/// In a directory that does not end in a slash.
spec fn inside(dir: Seq<char>, name: Seq<char>) -> Seq<char> {
    dir.push('/') + name
}

/// The agent and its clients meet in one directory: a client that is told the agent's directory looks for
/// the socket and the process where the agent puts them.
pub proof fn client_and_agent_meet(
    a: &AgentConfig,
    c: &ClientConfig,
    sockets: (String, String),
    pids: (String, String),
    store: String,
    program: String,
)
    requires
        a.style == PathStyle::Unix,
        c.style == PathStyle::Unix,
        a.data_dir@ == c.data_dir@,
        a.data_dir@.len() > 0,
        a.data_dir@.last() != '/',
        call_ensures(AgentConfig::socket_path, (a,), sockets.0),
        call_ensures(ClientConfig::socket_path, (c,), sockets.1),
        call_ensures(AgentConfig::pid_path, (a,), pids.0),
        call_ensures(ClientConfig::pid_path, (c,), pids.1),
        call_ensures(AgentConfig::db_path, (a,), store),
        call_ensures(ClientConfig::default_agent_binary_path, (c,), program),
    ensures
        sockets.0@ == sockets.1@,
        pids.0@ == pids.1@,
        sockets.0@ == a.data_dir@.push('/') + "agent.sock"@,
        pids.0@ == a.data_dir@.push('/') + "agent.pid"@,
        store@ == (a.data_dir@.push('/') + "db"@).push('/') + "ai-cli-session.db"@,
        program@ == (a.data_dir@.push('/') + "bin"@).push('/') + "vimo-agent"@,
{
    reveal_strlit("agent.sock");
    reveal_strlit("agent.pid");
    reveal_strlit("db");
    reveal_strlit("bin");
    reveal_strlit("vimo-agent");
    reveal_strlit("ai-cli-session.db");
    assert(inside(a.data_dir@, "db"@).last() == 'b');
    assert(inside(a.data_dir@, "bin"@).last() == 'n');
}

/// The agent's directory lies in the home directory, and it waits half a minute without connections.
pub proof fn agent_lives_at_home(home: &str, r: AgentConfig)
    requires
        call_ensures(AgentConfig::in_home, (PathStyle::Unix, Some(home)), r),
        home@.len() > 0,
        home@.last() != '/',
    ensures
        r.data_dir@ == home@.push('/') + ".vimo"@,
        r.idle_timeout_secs == 30,
{
    reveal_strlit(".vimo");
}

/// A client tries three times, half a second apart, and is told of no program unless it is told so.
pub proof fn usual_client_tries_three_times(
    component: &str,
    version: &str,
    dir: String,
    path: String,
    r: ClientConfig,
    s: ClientConfig,
    t: ClientConfig,
)
    requires
        call_ensures(ClientConfig::in_style, (PathStyle::Unix, component, version, dir), r),
        call_ensures(ClientConfig::with_agent_binary, (r, path), s),
        call_ensures(ClientConfig::with_agent_source_dir, (r, path), t),
    ensures
        r.component@ == component@,
        r.version@ == version@,
        r.data_dir@ == dir@,
        r.connect_retries == 3,
        r.retry_interval_ms == 500,
        r.agent_binary_override is None && r.agent_source_dir is None,
        s.agent_binary_override == Some(path) && s.agent_source_dir is None,
        t.agent_source_dir == Some(path) && t.agent_binary_override is None,
        s.data_dir@ == dir@ && t.data_dir@ == dir@,
        s.connect_retries == 3 && t.connect_retries == 3,
{
}

/// Where a program could be put into place that place is run, and otherwise the one that was found.
pub proof fn deployed_program_is_run(
    c: &ClientConfig,
    source: String,
    deployed: bool,
    installed: String,
    r: String,
)
    requires
        call_ensures(ClientConfig::after_deploy, (c, source, deployed), r),
        call_ensures(ClientConfig::default_agent_binary_path, (c,), installed),
    ensures
        deployed ==> r@ == installed@,
        !deployed ==> r@ == source@,
{
}

/// A program is looked for where it was said to lie, then among what was built for release, then among
/// what was built for finding faults.
pub proof fn release_comes_before_debug(
    c: &ClientConfig,
    r: Vec<String>,
    dir: Seq<char>,
)
    requires
        call_ensures(ClientConfig::find_agent_source, (c, None, None), r),
        c.style == PathStyle::Unix,
        c.agent_source_dir is Some ==> c.agent_source_dir->0@ == dir && dir.len() > 0
            && dir.last() != '/',
    ensures
        c.agent_source_dir is None ==> views(r@) == seq![
            "target/release/vimo-agent"@,
            "target/debug/vimo-agent"@,
        ],
        c.agent_source_dir is Some ==> views(r@) == seq![
            dir.push('/') + "vimo-agent"@,
            "target/release/vimo-agent"@,
            "target/debug/vimo-agent"@,
        ],
{
    reveal_strlit("vimo-agent");
    assert(c.sources(None, None) =~= if c.agent_source_dir is Some {
        seq![
            dir.push('/') + "vimo-agent"@,
            "target/release/vimo-agent"@,
            "target/debug/vimo-agent"@,
        ]
    } else {
        seq!["target/release/vimo-agent"@, "target/debug/vimo-agent"@]
    });
}

/// The request asks for the path at the host, and for the connection to be closed behind the answer.
pub proof fn request_asks_for_the_path(url: &str, r: Result<DownloadRequest, String>)
    requires
        call_ensures(download_request, (url,), r),
        r is Ok,
    ensures
        begins_with(r->Ok_0.request@, "GET /"@ + r->Ok_0.path@ + " HTTP/1.1\r\nHost: "@ + r->Ok_0.host@),
        crate::laws::searching::says(r->Ok_0.request@, "Connection: close\r\n\r\n"@),
{
    let d = r->Ok_0;
    let head = "GET /"@ + d.path@ + " HTTP/1.1\r\nHost: "@ + d.host@;
    assert(d.request@.subrange(0, head.len() as int) =~= head);
    reveal_strlit("\r\nUser-Agent: vimo-agent-downloader/1.0\r\nConnection: close\r\n\r\n");
    reveal_strlit("Connection: close\r\n\r\n");
    let tail = "Connection: close\r\n\r\n"@;
    let before = d.request@.take(d.request@.len() - tail.len());
    let after = Seq::<char>::empty();
    assert(before + tail + after =~= d.request@);
}

} // verus!
