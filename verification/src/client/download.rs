//! Fetching the program of the agent.
use vstd::prelude::*;
use crate::text::{
    begins_with, chars_of, from_utf8_lossy, is_split, join, joined, lines_of, lossy_text, lowercase,
    split_lines, split_once, starts_with, string_of_range, to_lowercase, trim, trimmed, views,
};

verus! {

/// Where the program of the agent is fetched from.
pub const AGENT_URL: &'static str = "https://github.com/vimo-ai/ai-cli-session-db/releases/download/v0.0.1-beta.5/vimo-agent";

/// A request for a file.
#[derive(Debug, Clone)]
pub struct DownloadRequest {
    pub host: String,
    pub path: String,
    pub request: String,
}

/// The text of a request for the file at `path` of the host.
pub open spec fn request_text(host: Seq<char>, path: Seq<char>) -> Seq<char> {
    "GET /"@ + path + " HTTP/1.1\r\nHost: "@ + host
        + "\r\nUser-Agent: vimo-agent-downloader/1.0\r\nConnection: close\r\n\r\n"@
}

/// The request for the file at an address.
pub fn download_request(url: &str) -> (r: Result<DownloadRequest, String>)
    ensures
        if !begins_with(url@, "https://"@) {
            r matches Err(e) && e@ == "Only HTTPS is supported"@
        } else if !url@.skip(8).contains('/') {
            r matches Err(e) && e@ == "Invalid URL format"@
        } else {
            r matches Ok(d) && is_split(url@.skip(8), '/', d.host@, d.path@) && d.request@
                == request_text(d.host@, d.path@)
        },
{
    if !starts_with(url, "https://") {
        return Err("Only HTTPS is supported".to_owned());
    }
    proof {
        reveal_strlit("https://");
    }
    let v = chars_of(url);
    let rest = string_of_range(&v, 8, v.len());
    assert(rest@ =~= url@.skip(8));
    match split_once(rest.as_str(), '/') {
        None => Err("Invalid URL format".to_owned()),
        Some((host, path)) => {
            proof {
                let s = rest@;
                assert(s[host@.len() as int] == '/');
            }
            let mut request = "GET /".to_owned();
            request.push_str(path.as_str());
            request.push_str(" HTTP/1.1\r\nHost: ");
            request.push_str(host.as_str());
            request.push_str(
                "\r\nUser-Agent: vimo-agent-downloader/1.0\r\nConnection: close\r\n\r\n",
            );
            Ok(DownloadRequest { host, path, request })
        },
    }
}

/// What a reply means.
#[derive(Debug, Clone)]
pub enum DownloadReply {
    /// It holds the file.
    Body(Vec<u8>),
    /// The file is at another address.
    Redirect(String),
    /// There is no file, for the reason given.
    Failed(String),
}

/// Whether the reply says that it holds the file.
pub open spec fn says_found(text: Seq<char>) -> bool {
    begins_with(text, "HTTP/1.1 200"@) || begins_with(text, "HTTP/1.0 200"@) || begins_with(
        text,
        "HTTP/2 200"@,
    )
}

/// Whether the reply says that the file is at another address.
pub open spec fn says_moved(text: Seq<char>) -> bool {
    begins_with(text, "HTTP/1.1 302"@) || begins_with(text, "HTTP/1.1 301"@) || begins_with(
        text,
        "HTTP/1.1 307"@,
    ) || begins_with(text, "HTTP/1.1 308"@)
}

/// The first of the lines that says where the file is.
pub open spec fn location_line(lines: Seq<Seq<char>>) -> Option<Seq<char>>
    decreases lines.len(),
{
    if lines.len() == 0 {
        None
    } else if begins_with(lowercase(lines[0]), "location:"@) {
        Some(lines[0])
    } else {
        location_line(lines.drop_first())
    }
}

/// Whether the headers of a reply end at `at`.
pub open spec fn headers_end(bytes: Seq<u8>, at: int) -> bool {
    &&& 0 <= at <= bytes.len() - 4
    &&& bytes[at] == 13
    &&& bytes[at + 1] == 10
    &&& bytes[at + 2] == 13
    &&& bytes[at + 3] == 10
}

/// Whether `body` is what stands behind the headers of a reply.
pub open spec fn is_body(bytes: Seq<u8>, body: Seq<u8>) -> bool {
    exists|at: int| #[trigger]
        headers_end(bytes, at) && body == bytes.skip(at + 4) && forall|k: int|
            k < at ==> !#[trigger] headers_end(bytes, k)
}

/// Whether `r` is what a reply means whose bytes stand for the text.
pub open spec fn is_reply(text: Seq<char>, bytes: Seq<u8>, r: DownloadReply) -> bool {
    if says_found(text) {
        if exists|at: int| headers_end(bytes, at) {
            r matches DownloadReply::Body(body) && is_body(bytes, body@)
        } else {
            r matches DownloadReply::Failed(why) && why@ == "HTTP body not found"@
        }
    } else if says_moved(text) {
        match location_line(lines_of(text)) {
            Some(line) => if line.contains(':') {
                r matches DownloadReply::Redirect(url) && exists|name: Seq<char>, value: Seq<char>|
                    is_split(line, ':', name, value) && url@ == trimmed(value)
            } else {
                r matches DownloadReply::Failed(why) && why@ == "Cannot parse Location header"@
            },
            None => r matches DownloadReply::Failed(why) && why@
                == "Download failed: Received redirect but Location header not found"@,
        }
    } else {
        r matches DownloadReply::Failed(why) && why@
            == "Download failed: Unexpected HTTP status\nResponse headers: "@ + joined(
            first_lines(lines_of(text)),
            "\n"@,
        )
    }
}

/// The lines that are told of a reply that was not expected.
pub open spec fn first_lines(lines: Seq<Seq<char>>) -> Seq<Seq<char>> {
    if lines.len() <= 10 {
        lines
    } else {
        lines.take(10)
    }
}

fn find_location(lines: &Vec<String>) -> (r: Option<usize>)
    ensures
        match r {
            Some(i) => i < lines@.len() && location_line(views(lines@)) == Some(lines@[i as int]@),
            None => location_line(views(lines@)) is None,
        },
{
    let ghost all = views(lines@);
    let mut i: usize = 0;
    assert(all.skip(0) =~= all);
    while i < lines.len()
        invariant
            i <= lines@.len(),
            all == views(lines@),
            location_line(all) == location_line(all.skip(i as int)),
        decreases lines@.len() - i,
    {
        assert(all.skip(i as int)[0] == lines@[i as int]@);
        if starts_with(to_lowercase(lines[i].as_str()).as_str(), "location:") {
            return Some(i);
        }
        assert(all.skip(i as int).drop_first() =~= all.skip(i + 1));
        i += 1;
    }
    None
}

fn body_of(bytes: &Vec<u8>) -> (r: Option<Vec<u8>>)
    ensures
        match r {
            Some(body) => is_body(bytes@, body@),
            None => !exists|at: int| headers_end(bytes@, at),
        },
{
    let n: usize = bytes.len();
    if n < 4 {
        return None;
    }
    let mut at: usize = 0;
    while at <= n - 4
        invariant
            n == bytes@.len() >= 4,
            at <= n - 3,
            forall|k: int| k < at ==> !#[trigger] headers_end(bytes@, k),
        decreases n - at,
    {
        if bytes[at] == 13 && bytes[at + 1] == 10 && bytes[at + 2] == 13 && bytes[at + 3] == 10 {
            assert(headers_end(bytes@, at as int));
            let mut body: Vec<u8> = Vec::new();
            let mut i: usize = at + 4;
            while i < n
                invariant
                    n == bytes@.len(),
                    at + 4 <= i <= n,
                    body@ == bytes@.subrange(at + 4, i as int),
                decreases n - i,
            {
                body.push(bytes[i]);
                i += 1;
                assert(body@ =~= bytes@.subrange(at + 4, i as int));
            }
            assert(body@ =~= bytes@.skip(at + 4));
            return Some(body);
        }
        at += 1;
    }
    None
}

/// What a reply means whose bytes stand for the text.
pub fn read_reply(text: &str, bytes: &Vec<u8>) -> (r: DownloadReply)
    ensures
        is_reply(text@, bytes@, r),
{
    if starts_with(text, "HTTP/1.1 200") || starts_with(text, "HTTP/1.0 200") || starts_with(
        text,
        "HTTP/2 200",
    ) {
        return match body_of(bytes) {
            Some(body) => {
                proof {
                    let at = choose|at: int| #[trigger]
                        headers_end(bytes@, at) && body@ == bytes@.skip(at + 4) && forall|k: int|
                            k < at ==> !#[trigger] headers_end(bytes@, k);
                    assert(headers_end(bytes@, at));
                }
                DownloadReply::Body(body)
            },
            None => DownloadReply::Failed("HTTP body not found".to_owned()),
        };
    }
    let lines = split_lines(text);
    if starts_with(text, "HTTP/1.1 302") || starts_with(text, "HTTP/1.1 301") || starts_with(
        text,
        "HTTP/1.1 307",
    ) || starts_with(text, "HTTP/1.1 308") {
        return match find_location(&lines) {
            Some(i) => match split_once(lines[i].as_str(), ':') {
                Some((name, value)) => {
                    proof {
                        let line = lines@[i as int]@;
                        assert(line[name@.len() as int] == ':');
                        assert(is_split(line, ':', name@, value@));
                    }
                    DownloadReply::Redirect(trim(value.as_str()))
                },
                None => DownloadReply::Failed("Cannot parse Location header".to_owned()),
            },
            None => DownloadReply::Failed(
                "Download failed: Received redirect but Location header not found".to_owned(),
            ),
        };
    }
    let n: usize = if lines.len() <= 10 {
        lines.len()
    } else {
        10
    };
    let mut head: Vec<String> = Vec::new();
    let mut i: usize = 0;
    while i < n
        invariant
            i <= n <= lines@.len(),
            views(head@) == views(lines@).take(i as int),
        decreases n - i,
    {
        let ghost before = head@;
        head.push(lines[i].clone());
        i += 1;
        assert(views(head@) =~= views(before).push(lines@[i - 1]@));
        assert(views(head@) =~= views(lines@).take(i as int));
    }
    assert(views(head@) =~= first_lines(views(lines@)));
    let mut why = "Download failed: Unexpected HTTP status\nResponse headers: ".to_owned();
    why.push_str(join(&head, "\n").as_str());
    DownloadReply::Failed(why)
}

/// What a reply means.
pub fn download_file_simple(bytes: &Vec<u8>) -> (r: DownloadReply)
    ensures
        is_reply(lossy_text(bytes@), bytes@, r),
{
    read_reply(from_utf8_lossy(bytes).as_str(), bytes)
}

/// A file that is found is handed on whole: what was sent behind the headers is what comes out.
pub proof fn file_is_whole(text: Seq<char>, headers: Seq<u8>, file: Seq<u8>, r: DownloadReply)
    requires
        says_found(text),
        headers_end(headers, headers.len() - 4),
        forall|k: int| k < headers.len() - 4 ==> !#[trigger] headers_end(headers + file, k),
        is_reply(text, headers + file, r),
    ensures
        r matches DownloadReply::Body(body) && body@ == file,
{
    let bytes = headers + file;
    let end = headers.len() - 4;
    assert(headers_end(bytes, end));
    let body = r->Body_0@;
    let at = choose|at: int| #[trigger]
        headers_end(bytes, at) && body == bytes.skip(at + 4) && forall|k: int|
            k < at ==> !#[trigger] headers_end(bytes, k);
    assert(at == end);
    assert(bytes.skip(end + 4) =~= file);
}

} // verus!
