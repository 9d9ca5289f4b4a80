//! Reading sessions from the files of the command-line tools: which projects and
//! sessions there are, a page of messages at a time, and what a session's last
//! message looks like in one line.
use vstd::prelude::*;
use crate::collector::{extract_project_name, project_name_of};
use crate::host::home_dir;
use crate::json::{
    array_of,
    field,
    json_of_text,
    json_view,
    json_views,
    opt_json_view,
    parse_json,
    text_of,
    Json,
    JsonView,
};
use crate::order::{activity_rank, arranged, highest_first, later, Ranked};
use crate::laws::listing::{last_activity_is_the_latest, sessions_are_counted};
use crate::laws::reading::session_is_measured;
use crate::paths;
use crate::paths::{file_name_of, joined_path, native_style, stem_of, PathStyle};
use crate::session::{ParseResult, ParsedMessage, SessionMeta, Source};
use crate::text::{
    begins_with,
    chars_of,
    ends_with,
    finishes_with,
    opt_view,
    same_text,
    starts_with,
    string_of_range,
    trim,
    trimmed,
};
use crate::time::{
    parse_timestamp_to_millis,
    rfc3339_millis,
    rfc3339_seconds_between,
    seconds_between,
    timestamp_millis,
};
use crate::types::MessageType;

verus! {

/// A text cut to a number of characters, with dots where something was cut off.
pub open spec fn truncated(s: Seq<char>, max_chars: int) -> Seq<char> {
    if s.len() > max_chars {
        s.take(max_chars) + "..."@
    } else {
        s
    }
}

/// `s` cut to `max_chars` characters, with dots where something was cut off.
pub fn truncate_chars(s: &str, max_chars: usize) -> (r: String)
    ensures
        r@ == truncated(s@, max_chars as int),
{
    let v = chars_of(s);
    if v.len() > max_chars {
        let mut r = string_of_range(&v, 0, max_chars);
        assert(v@.subrange(0, max_chars as int) =~= s@.take(max_chars as int));
        r.push_str("...");
        r
    } else {
        s.to_owned()
    }
}

/// The number of characters that a preview has at most.
pub const PREVIEW_CHARS: usize = 100;

/// A text cut to a preview: where it is too long, its beginning and three dots, which count too.
pub open spec fn shortened(s: Seq<char>) -> Seq<char> {
    if s.len() > PREVIEW_CHARS {
        truncated(s, PREVIEW_CHARS - 3)
    } else {
        s
    }
}

/// A shortened text is no longer than a preview may be.
proof fn lemma_shortened_fits(s: Seq<char>)
    ensures
        shortened(s).len() <= PREVIEW_CHARS,
{
    reveal_strlit("...");
}

/// The text cut to a preview.
pub fn shorten(s: &str) -> (r: String)
    ensures
        r@ == shortened(s@),
        r@.len() <= PREVIEW_CHARS,
{
    proof {
        lemma_shortened_fits(s@);
    }
    if chars_of(s).len() > PREVIEW_CHARS {
        truncate_chars(s, PREVIEW_CHARS - 3)
    } else {
        s.to_owned()
    }
}

/// The argument of a tool call that says most about it.
pub open spec fn tool_argument(style: PathStyle, name: Seq<char>, input: Option<JsonView>) -> Option<
    Seq<char>,
> {
    match input {
        Some(i) => if name == "Bash"@ {
            text_of(field(i, "command"@))
        } else if name == "Read"@ || name == "Write"@ || name == "Edit"@ {
            match text_of(field(i, "file_path"@)) {
                Some(path) => Some(project_name_of(style, path)),
                None => None,
            }
        } else if name == "Glob"@ || name == "Grep"@ {
            text_of(field(i, "pattern"@))
        } else {
            None
        },
        None => None,
    }
}

/// A tool call in one line.
pub open spec fn tool_line(style: PathStyle, name: Seq<char>, input: Option<JsonView>) -> Seq<char> {
    match tool_argument(style, name, input) {
        Some(arg) => "🔧 "@ + name + ": "@ + truncated(arg, 30),
        None => "🔧 "@ + name,
    }
}

/// A tool call in one line: the tool, and the command, file name or pattern that it is given.
pub fn generate_tool_use_preview(style: PathStyle, name: &str, input: Option<&Json>) -> (r: String)
    ensures
        r@ == tool_line(
            style,
            name@,
            match input {
                Some(j) => Some(json_view(*j)),
                None => None,
            },
        ),
{
    let arg: Option<String> = match input {
        Some(i) => {
            if same_text(name, "Bash") {
                match i.text_field("command") {
                    Some(s) => Some(s.clone()),
                    None => None,
                }
            } else if same_text(name, "Read") || same_text(name, "Write") || same_text(
                name,
                "Edit",
            ) {
                match i.text_field("file_path") {
                    Some(s) => Some(extract_project_name(style, s.as_str())),
                    None => None,
                }
            } else if same_text(name, "Glob") || same_text(name, "Grep") {
                match i.text_field("pattern") {
                    Some(s) => Some(s.clone()),
                    None => None,
                }
            } else {
                None
            }
        },
        None => None,
    };
    let mut r = "🔧 ".to_owned();
    r.push_str(name);
    match arg {
        Some(a) => {
            r.push_str(": ");
            r.push_str(truncate_chars(a.as_str(), 30).as_str());
        },
        None => {},
    }
    r
}

/// The kind of a content block.
pub open spec fn block_kind(block: JsonView) -> Seq<char> {
    match text_of(field(block, "type"@)) {
        Some(kind) => kind,
        None => ""@,
    }
}

/// What a content block adds to the preview.
pub open spec fn block_line(style: PathStyle, block: JsonView) -> Option<Seq<char>> {
    if block_kind(block) == "text"@ {
        text_of(field(block, "text"@))
    } else if block_kind(block) == "tool_use"@ {
        let name = match text_of(field(block, "name"@)) {
            Some(name) => name,
            None => "tool"@,
        };
        Some(tool_line(style, name, field(block, "input"@)))
    } else {
        None
    }
}

/// What the content blocks add up to, with a space before what does not come first.
pub open spec fn gathered(style: PathStyle, blocks: Seq<JsonView>) -> Seq<char>
    decreases blocks.len(),
{
    if blocks.len() == 0 {
        seq![]
    } else {
        let p = gathered(style, blocks.drop_last());
        match block_line(style, blocks.last()) {
            Some(line) => if p.len() == 0 {
                line
            } else {
                p.push(' ') + line
            },
            None => p,
        }
    }
}

/// The preview of a message of content blocks.
pub open spec fn blocks_preview(style: PathStyle, blocks: Seq<JsonView>) -> Seq<char> {
    if gathered(style, blocks).len() > 0 {
        shortened(gathered(style, blocks))
    } else if forall|i: int|
        0 <= i < blocks.len() ==> block_kind(#[trigger] blocks[i]) == "thinking"@ {
        "💭 思考中..."@
    } else {
        "（空消息）"@
    }
}

/// The preview of a message of content blocks: its texts and tool calls, or a stand-in where
/// there are none.
pub fn generate_preview_from_content_blocks(style: PathStyle, blocks: &Vec<Json>) -> (r: String)
    ensures
        r@ == blocks_preview(style, json_views(blocks@)),
        r@.len() <= PREVIEW_CHARS,
{
    proof {
        reveal_strlit("💭 思考中...");
        reveal_strlit("（空消息）");
    }
    let ghost views = json_views(blocks@);
    let mut result = String::new();
    let mut only_thinking = true;
    let mut i: usize = 0;
    assert(views.take(0) =~= Seq::<JsonView>::empty());
    while i < blocks.len()
        invariant
            i <= blocks@.len(),
            views == json_views(blocks@),
            result@ == gathered(style, views.take(i as int)),
            only_thinking == (forall|k: int|
                0 <= k < i ==> block_kind(#[trigger] views[k]) == "thinking"@),
        decreases blocks@.len() - i,
    {
        let block = &blocks[i];
        let ghost b = views[i as int];
        assert(b == json_view(*block));
        assert(views.take(i + 1).drop_last() =~= views.take(i as int));
        let kind: String = match block.text_field("type") {
            Some(kind) => kind.clone(),
            None => "".to_owned(),
        };
        if same_text(kind.as_str(), "text") {
            proof {
                lemma_kinds_differ();
            }
            only_thinking = false;
            match block.text_field("text") {
                Some(text) => {
                    if !result.as_str().is_empty() {
                        result.push(' ');
                    } else {
                        assert(result@ + text@ =~= text@);
                    }
                    result.push_str(text.as_str());
                },
                None => {},
            }
        } else if same_text(kind.as_str(), "tool_use") {
            proof {
                lemma_kinds_differ();
            }
            only_thinking = false;
            let name: String = match block.text_field("name") {
                Some(name) => name.clone(),
                None => "tool".to_owned(),
            };
            let line = generate_tool_use_preview(style, name.as_str(), block.get("input"));
            if !result.as_str().is_empty() {
                result.push(' ');
            } else {
                assert(result@ + line@ =~= line@);
            }
            result.push_str(line.as_str());
        } else if !same_text(kind.as_str(), "thinking") {
            only_thinking = false;
        }
        assert(block_kind(views[i as int]) == kind@);
        i += 1;
    }
    assert(views.take(views.len() as int) =~= views);
    if !result.as_str().is_empty() {
        shorten(result.as_str())
    } else if only_thinking {
        "💭 思考中...".to_owned()
    } else {
        "（空消息）".to_owned()
    }
}

proof fn lemma_kinds_differ()
    ensures
        "text"@ != "thinking"@,
        "tool_use"@ != "thinking"@,
        "text"@ != "tool_use"@,
{
    reveal_strlit("text");
    reveal_strlit("tool_use");
    reveal_strlit("thinking");
    assert("text"@.len() == 4);
    assert("tool_use"@.len() == 8 && "thinking"@.len() == 8);
    assert("tool_use"@[1] == 'o' && "thinking"@[1] == 'h');
}

/// The content blocks of a message in the form that its tool writes.
pub open spec fn content_blocks(json: Option<JsonView>) -> Option<Seq<JsonView>> {
    match json {
        Some(v) => match field(v, "message"@) {
            Some(message) => array_of(field(message, "content"@)),
            None => None,
        },
        None => None,
    }
}

/// The preview of an assistant's message, given what its raw form says.
pub open spec fn assistant_preview(
    style: PathStyle,
    json: Option<JsonView>,
    fallback: Seq<char>,
) -> Seq<char> {
    match content_blocks(json) {
        Some(blocks) => blocks_preview(style, blocks),
        None => shortened(fallback),
    }
}

/// The preview of an assistant's message, given what its raw form says.
pub fn preview_of_json(style: PathStyle, json: &Option<Json>, fallback_text: &str) -> (r: String)
    ensures
        r@ == assistant_preview(style, opt_json_view(*json), fallback_text@),
        r@.len() <= PREVIEW_CHARS,
{
    match json {
        Some(v) => match v.get("message") {
            Some(message) => match message.get("content") {
                Some(content) => match content.as_array() {
                    Some(blocks) => {
                        return generate_preview_from_content_blocks(style, blocks);
                    },
                    None => {},
                },
                None => {},
            },
            None => {},
        },
        None => {},
    }
    shorten(fallback_text)
}

/// The preview of an assistant's message: its content blocks, or its text where the raw form
/// holds none.
pub fn generate_assistant_preview(style: PathStyle, raw: &str, fallback_text: &str) -> (r: String)
    ensures
        r@ == assistant_preview(style, json_of_text(raw@), fallback_text@),
        r@.len() <= PREVIEW_CHARS,
{
    preview_of_json(style, &parse_json(raw), fallback_text)
}

/// The preview of a message.
pub open spec fn preview_of(style: PathStyle, message: ParsedMessage) -> Seq<char> {
    let text = message.content.text@;
    match message.message_type {
        MessageType::User => shortened(text),
        MessageType::Assistant => match message.raw {
            Some(raw) => assistant_preview(style, json_of_text(raw@), text),
            None => shortened(text),
        },
        _ => if text.len() > PREVIEW_CHARS {
            text.take(PREVIEW_CHARS as int)
        } else {
            text
        },
    }
}

/// The preview of a message, of at most a hundred characters.
pub fn generate_preview(style: PathStyle, message: &ParsedMessage) -> (r: String)
    ensures
        r@ == preview_of(style, *message),
        r@.len() <= 100,
{
    match message.message_type {
        MessageType::User => shorten(message.content.text.as_str()),
        MessageType::Assistant => match &message.raw {
            Some(raw) => generate_assistant_preview(
                style,
                raw.as_str(),
                message.content.text.as_str(),
            ),
            None => shorten(message.content.text.as_str()),
        },
        _ => {
            let v = chars_of(message.content.text.as_str());
            if v.len() > PREVIEW_CHARS {
                assert(v@.subrange(0, PREVIEW_CHARS as int) =~= v@.take(PREVIEW_CHARS as int));
                string_of_range(&v, 0, PREVIEW_CHARS)
            } else {
                message.content.text.clone()
            }
        },
    }
}

/// Which end of a session comes first.
#[derive(Debug, Clone, Copy, PartialEq, Eq, Structural)]
pub enum Order {
    Asc,
    Desc,
}

/// A project with its sessions counted.
#[derive(Debug, Clone)]
pub struct ProjectInfo {
    /// The name of its directory.
    pub encoded_name: String,
    /// Its real path.
    pub path: String,
    /// The last component of its path.
    pub name: String,
    /// The number of its sessions, agents' sessions left out.
    pub session_count: usize,
    /// When it was last active, in milliseconds.
    pub last_active: Option<u64>,
}

impl Ranked for ProjectInfo {
    open spec fn rank_of(self) -> int {
        activity_rank(self.last_active)
    }

    fn ranks_above(&self, other: &Self) -> (r: bool) {
        later(self.last_active, other.last_active)
    }
}

impl Ranked for SessionMeta {
    open spec fn rank_of(self) -> int {
        activity_rank(self.file_mtime)
    }

    fn ranks_above(&self, other: &Self) -> (r: bool) {
        later(self.file_mtime, other.file_mtime)
    }
}

/// A page of messages.
#[derive(Debug, Clone)]
pub struct MessagesResult {
    pub messages: Vec<ParsedMessage>,
    pub total: usize,
    pub has_more: bool,
}

/// A page of messages as their tool writes them.
#[derive(Debug)]
pub struct RawMessagesResult {
    pub messages: Vec<Json>,
    pub total: usize,
    pub has_more: bool,
}

/// What a session amounts to.
#[derive(Debug, Clone, Copy, PartialEq, Eq, Structural)]
pub struct SessionMetrics {
    pub message_count: usize,
    pub user_message_count: usize,
    pub assistant_message_count: usize,
    pub estimated_tokens: usize,
    pub duration_seconds: Option<u64>,
}

/// The items in the order asked for.
pub open spec fn in_order<T>(all: Seq<T>, order: Order) -> Seq<T> {
    match order {
        Order::Asc => all,
        Order::Desc => all.reverse(),
    }
}

/// Where a page begins.
pub open spec fn page_start(total: int, offset: int) -> int {
    if offset <= total {
        offset
    } else {
        total
    }
}

/// Where a page ends.
pub open spec fn page_end(total: int, offset: int, limit: int) -> int {
    if offset + limit <= total {
        offset + limit
    } else {
        total
    }
}

/// The items of a page.
pub open spec fn page_of<T>(all: Seq<T>, limit: int, offset: int, order: Order) -> Seq<T> {
    in_order(all, order).subrange(
        page_start(all.len() as int, offset),
        page_end(all.len() as int, offset, limit),
    )
}

/// The items `start..end` of `all` in the order asked for.
fn slice_in_order<T>(all: Vec<T>, start: usize, end: usize, order: Order) -> (r: Vec<T>)
    requires
        start <= end <= all@.len(),
    ensures
        r@ == in_order(all@, order).subrange(start as int, end as int),
{
    let ghost items = all@;
    let mut rest = all;
    match order {
        Order::Asc => {
            rest.truncate(end);
            let r = rest.split_off(start);
            assert(r@ =~= items.subrange(start as int, end as int));
            r
        },
        Order::Desc => {
            let total: usize = rest.len();
            rest.truncate(total - start);
            let mut r: Vec<T> = Vec::new();
            while r.len() < end - start
                invariant
                    start <= end <= total == items.len(),
                    r@.len() <= end - start,
                    rest@ == items.take(total - start - r@.len()),
                    r@ == items.reverse().subrange(start as int, start + r@.len()),
                decreases end - start - r@.len(),
            {
                match rest.pop() {
                    Some(x) => {
                        r.push(x);
                        assert(r@ =~= items.reverse().subrange(start as int, start + r@.len()));
                    },
                    None => {},
                }
            }
            r
        },
    }
}

/// Whether the answer is the page asked for of `all`.
pub open spec fn is_page<T>(
    messages: Seq<T>,
    total: usize,
    has_more: bool,
    all: Seq<T>,
    limit: int,
    offset: int,
    order: Order,
) -> bool {
    &&& messages == page_of(all, limit, offset, order)
    &&& total == all.len()
    &&& has_more == (page_end(all.len() as int, offset, limit) < all.len())
}

/// The page of at most `limit` items behind the first `offset`, the number of all items, and
/// whether some follow behind the page.
fn page<T>(all: Vec<T>, limit: usize, offset: usize, order: Order) -> (r: (Vec<T>, usize, bool))
    requires
        offset + limit <= usize::MAX,
    ensures
        is_page(r.0@, r.1, r.2, all@, limit as int, offset as int, order),
{
    let total: usize = all.len();
    let start: usize = if offset <= total { offset } else { total };
    let end: usize = if offset + limit <= total { offset + limit } else { total };
    let has_more = end < total;
    (slice_in_order(all, start, end, order), total, has_more)
}

/// The path of a session file: `{projects_path}/{encoded_dir_name}/{session_id}.jsonl`.
pub open spec fn session_path_of(
    style: PathStyle,
    projects_path: Seq<char>,
    encoded_dir_name: Seq<char>,
    session_id: Seq<char>,
) -> Seq<char> {
    joined_path(
        style,
        joined_path(style, projects_path, encoded_dir_name),
        session_id + ".jsonl"@,
    )
}

/// The path of a session file: `{projects_path}/{encoded_dir_name}/{session_id}.jsonl`.
pub fn compute_session_path(
    style: PathStyle,
    projects_path: &str,
    encoded_dir_name: &str,
    session_id: &str,
) -> (r: String)
    ensures
        r@ == session_path_of(style, projects_path@, encoded_dir_name@, session_id@),
{
    let mut file = session_id.to_owned();
    file.push_str(".jsonl");
    paths::join(
        style,
        paths::join(style, projects_path, encoded_dir_name).as_str(),
        file.as_str(),
    )
}

/// What was read of one file in a project's directory.
#[derive(Debug, Clone)]
pub struct DirFile {
    pub name: String,
    /// Whether it is a plain file.
    pub is_file: bool,
    /// When it was modified, in milliseconds, where that is known.
    pub mtime: Option<u64>,
    /// Its lines as far as they were read; a line that could not be read is missing.
    pub lines: Vec<Option<String>>,
}

/// What was read of one entry of the directory of projects.
#[derive(Debug, Clone)]
pub struct ProjectDir {
    pub name: String,
    pub is_dir: bool,
    /// The files in it, where it could be read.
    pub files: Option<Vec<DirFile>>,
}

/// What was seen of one entry of the directory of projects in the search for a session file.
#[derive(Debug, Clone)]
pub struct DirProbe {
    pub name: String,
    pub is_dir: bool,
    /// Whether the session file that is looked for is in it.
    pub holds_file: bool,
}

/// The name of the first directory that holds the file that is looked for, leaving hidden ones out.
pub open spec fn first_holder(dirs: Seq<DirProbe>) -> Option<Seq<char>>
    decreases dirs.len(),
{
    if dirs.len() == 0 {
        None
    } else if dirs[0].is_dir && !begins_with(dirs[0].name@, "."@) && dirs[0].holds_file {
        Some(dirs[0].name@)
    } else {
        first_holder(dirs.drop_first())
    }
}

/// A text without a suffix at its end, however often it stands there.
pub open spec fn without_suffix(s: Seq<char>, suffix: Seq<char>) -> Seq<char>
    decreases s.len(),
{
    if suffix.len() > 0 && finishes_with(s, suffix) {
        without_suffix(s.take(s.len() - suffix.len()), suffix)
    } else {
        s
    }
}

fn trim_end_matches(s: &str, suffix: &str) -> (r: String)
    requires
        suffix@.len() > 0,
    ensures
        r@ == without_suffix(s@, suffix@),
    decreases s@.len(),
{
    if ends_with(s, suffix) {
        let v = chars_of(s);
        let n: usize = v.len() - chars_of(suffix).len();
        let shorter = string_of_range(&v, 0, n);
        assert(shorter@ =~= s@.take(s@.len() - suffix@.len()));
        trim_end_matches(shorter.as_str(), suffix)
    } else {
        s.to_owned()
    }
}

/// Whether a file holds a session of a person: its name is that of a session, and not of an
/// agent's.
pub open spec fn is_session_file(f: DirFile) -> bool {
    let id = without_suffix(f.name@, ".jsonl"@);
    &&& f.is_file
    &&& finishes_with(f.name@, ".jsonl"@)
    &&& id.len() > 0
    &&& !begins_with(id, "agent-"@)
}

fn session_file(f: &DirFile) -> (r: bool)
    ensures
        r == is_session_file(*f),
{
    if !f.is_file || !ends_with(f.name.as_str(), ".jsonl") {
        return false;
    }
    proof {
        reveal_strlit(".jsonl");
    }
    let id = trim_end_matches(f.name.as_str(), ".jsonl");
    !id.as_str().is_empty() && !starts_with(id.as_str(), "agent-")
}

/// The session files of a directory, in the order listed.
pub open spec fn session_files(files: Seq<DirFile>) -> Seq<DirFile>
    decreases files.len(),
{
    if files.len() == 0 {
        seq![]
    } else {
        let p = session_files(files.drop_last());
        if is_session_file(files.last()) {
            p.push(files.last())
        } else {
            p
        }
    }
}

/// The latest time at which one of the files was modified.
pub open spec fn latest_mtime(files: Seq<DirFile>) -> Option<u64>
    decreases files.len(),
{
    if files.len() == 0 {
        None
    } else {
        match (latest_mtime(files.drop_last()), files.last().mtime) {
            (Some(a), Some(b)) => Some(if a >= b { a } else { b }),
            (a, None) => a,
            (None, b) => b,
        }
    }
}

/// The working directory that a line names, given what it says as JSON.
pub open spec fn cwd_of_line(line: Seq<char>, json: Option<JsonView>) -> Option<Seq<char>> {
    match json {
        Some(v) => if trimmed(line).len() == 0 {
            None
        } else {
            text_of(field(v, "cwd"@))
        },
        None => None,
    }
}

/// The working directory that the lines from `i` on name first. Nothing is read behind the tenth
/// line or behind one that could not be read.
pub open spec fn first_cwd(lines: Seq<Option<String>>, i: int) -> Option<Seq<char>>
    decreases lines.len() - i,
{
    if i < 0 || i >= lines.len() || i >= 10 {
        None
    } else {
        match lines[i] {
            Some(line) => match cwd_of_line(line@, json_of_text(line@)) {
                Some(cwd) => Some(cwd),
                None => first_cwd(lines, i + 1),
            },
            None => None,
        }
    }
}

/// The working directory that a line names, given what it says as JSON.
pub fn cwd_in_line(line: &str, json: &Option<Json>) -> (r: Option<String>)
    ensures
        opt_view(r) == cwd_of_line(line@, opt_json_view(*json)),
{
    if trim(line).as_str().is_empty() {
        return None;
    }
    match json {
        Some(v) => match v.text_field("cwd") {
            Some(cwd) => Some(cwd.clone()),
            None => None,
        },
        None => None,
    }
}

/// The working directory that the first ten lines of a session file name.
pub fn read_cwd_from_jsonl(lines: &Vec<Option<String>>) -> (r: Option<String>)
    ensures
        opt_view(r) == first_cwd(lines@, 0),
{
    let mut i: usize = 0;
    while i < lines.len() && i < 10
        invariant
            i <= lines@.len(),
            first_cwd(lines@, 0) == first_cwd(lines@, i as int),
        decreases lines@.len() - i,
    {
        match &lines[i] {
            Some(line) => {
                let found = cwd_in_line(line.as_str(), &parse_json(line.as_str()));
                if found.is_some() {
                    return found;
                }
            },
            None => {
                return None;
            },
        }
        i += 1;
    }
    None
}

/// The working directory that the files name first.
pub open spec fn cwd_of_files(files: Seq<DirFile>) -> Option<Seq<char>>
    decreases files.len(),
{
    if files.len() == 0 {
        None
    } else {
        match cwd_of_files(files.drop_last()) {
            Some(cwd) => Some(cwd),
            None => first_cwd(files.last().lines@, 0),
        }
    }
}

/// What a scan of a project's directory finds: the path of the project, which is the name of the
/// directory where no session tells, the number of sessions, and when it was last active.
pub open spec fn scan_of(files: Option<Vec<DirFile>>, encoded_name: Seq<char>) -> (
    Seq<char>,
    nat,
    Option<u64>,
) {
    match files {
        Some(files) => {
            let sessions = session_files(files@);
            (
                match cwd_of_files(sessions) {
                    Some(cwd) => cwd,
                    None => encoded_name,
                },
                sessions.len(),
                latest_mtime(sessions),
            )
        },
        None => (encoded_name, 0, None),
    }
}

/// Scans the directory of a project.
pub fn scan_project_dir(files: &Option<Vec<DirFile>>, encoded_name: &str) -> (r: (
    String,
    usize,
    Option<u64>,
))
    ensures
        (r.0@, r.1 as nat, r.2) == scan_of(*files, encoded_name@),
        match (files, r.2) {
            (Some(files), Some(t)) => {
                &&& exists|i: int|
                    0 <= i < files@.len() && is_session_file(#[trigger] files@[i])
                        && files@[i].mtime == Some(t)
                &&& forall|i: int|
                    0 <= i < files@.len() && is_session_file(#[trigger] files@[i])
                        && files@[i].mtime is Some ==> files@[i].mtime->0 <= t
            },
            (Some(files), None) => forall|i: int|
                0 <= i < files@.len() && is_session_file(#[trigger] files@[i]) ==> files@[i].mtime
                    is None,
            (None, last) => last is None,
        },
        files is Some ==> r.1 == files->0@.filter(|f: DirFile| is_session_file(f)).len(),
{
    let mut session_count: usize = 0;
    let mut last_active: Option<u64> = None;
    let mut decoded_path: Option<String> = None;
    match files {
        Some(files) => {
            let mut i: usize = 0;
            assert(files@.take(0) =~= Seq::<DirFile>::empty());
            while i < files.len()
                invariant
                    i <= files@.len(),
                    session_count <= i,
                    session_count == session_files(files@.take(i as int)).len(),
                    last_active == latest_mtime(session_files(files@.take(i as int))),
                    opt_view(decoded_path) == cwd_of_files(session_files(files@.take(i as int))),
                decreases files@.len() - i,
            {
                let ghost p = session_files(files@.take(i as int));
                let ghost q = session_files(files@.take(i + 1));
                assert(files@.take(i + 1).drop_last() =~= files@.take(i as int));
                let f = &files[i];
                if session_file(f) {
                    assert(q == p.push(*f));
                    assert(q.drop_last() =~= p);
                    session_count = session_count + 1;
                    match f.mtime {
                        Some(ts) => {
                            last_active = match last_active {
                                Some(t) => Some(if t >= ts { t } else { ts }),
                                None => Some(ts),
                            };
                        },
                        None => {},
                    }
                    if decoded_path.is_none() {
                        decoded_path = read_cwd_from_jsonl(&f.lines);
                    }
                }
                i += 1;
            }
            assert(files@.take(files@.len() as int) =~= files@);
        },
        None => {},
    }
    let path = match decoded_path {
        Some(cwd) => cwd,
        None => encoded_name.to_owned(),
    };
    proof {
        if let Some(files) = files {
            last_activity_is_the_latest(files@, last_active);
            sessions_are_counted(*files, encoded_name@);
        }
    }
    (path, session_count, last_active)
}

/// The last pair of the given key.
pub open spec fn lookup(pairs: Seq<(String, String)>, key: Seq<char>) -> Option<Seq<char>>
    decreases pairs.len(),
{
    if pairs.len() == 0 {
        None
    } else if pairs.last().0@ == key {
        Some(pairs.last().1@)
    } else {
        lookup(pairs.drop_last(), key)
    }
}

/// Reads what the tools keep of their sessions. It remembers the directory of each project that
/// it has seen.
#[derive(Debug, Clone)]
pub struct SessionReader {
    /// How its paths are written.
    pub style: PathStyle,
    pub projects_path: String,
    /// Project paths with the names of their directories; the last pair of a path counts.
    pub encoded_dir_cache: Vec<(String, String)>,
}

/// What a listing of sessions tells of the directory of a project: what the last of its sessions
/// says that says anything.
pub open spec fn told_by_sessions(sessions: Seq<SessionMeta>, key: Seq<char>) -> Option<Seq<char>>
    decreases sessions.len(),
{
    if sessions.len() == 0 {
        None
    } else if sessions.last().project_path@ == key && sessions.last().encoded_dir_name is Some {
        Some(sessions.last().encoded_dir_name->0@)
    } else {
        told_by_sessions(sessions.drop_last(), key)
    }
}

/// What a listing of projects tells of the directory of a project.
pub open spec fn told_by_projects(projects: Seq<ProjectInfo>, key: Seq<char>) -> Option<Seq<char>>
    decreases projects.len(),
{
    if projects.len() == 0 {
        None
    } else if projects.last().path@ == key {
        Some(projects.last().encoded_name@)
    } else {
        told_by_projects(projects.drop_last(), key)
    }
}

/// What is told now, or else what was known before.
pub open spec fn told_or_known(told: Option<Seq<char>>, known: Option<Seq<char>>) -> Option<
    Seq<char>,
> {
    match told {
        Some(t) => Some(t),
        None => known,
    }
}

/// Whether an entry of the directory of projects is a project.
pub open spec fn is_project_dir(d: ProjectDir) -> bool {
    d.is_dir && d.name@.len() > 0 && d.name@[0] != '.'
}

/// Whether `p` is what a scan of the directory `d` finds.
pub open spec fn is_info_of(style: PathStyle, p: ProjectInfo, d: ProjectDir) -> bool {
    let scan = scan_of(d.files, d.name@);
    &&& p.encoded_name == d.name
    &&& p.path@ == scan.0
    &&& p.name@ == project_name_of(style, scan.0)
    &&& p.session_count == scan.1
    &&& p.last_active == scan.2
}

/// The projects among the entries of a directory, in the order listed.
pub open spec fn project_dirs(dirs: Seq<ProjectDir>) -> Seq<ProjectDir>
    decreases dirs.len(),
{
    if dirs.len() == 0 {
        seq![]
    } else {
        let p = project_dirs(dirs.drop_last());
        if is_project_dir(dirs.last()) {
            p.push(dirs.last())
        } else {
            p
        }
    }
}

/// Whether `infos` is what scans of the projects among `dirs` find, in the order listed.
pub open spec fn are_infos_of(
    style: PathStyle,
    infos: Seq<ProjectInfo>,
    dirs: Seq<ProjectDir>,
) -> bool {
    &&& infos.len() == project_dirs(dirs).len()
    &&& forall|i: int|
        0 <= i < infos.len() ==> is_info_of(style, #[trigger] infos[i], project_dirs(dirs)[i])
}

/// Whether a session is asked for.
pub open spec fn is_wanted(s: SessionMeta, project_path: Option<Seq<char>>, include_agents: bool) -> bool {
    &&& include_agents || !begins_with(s.id@, "agent-"@)
    &&& project_path is Some ==> s.project_path@ == project_path->0
}

/// The sessions that are asked for, in the order listed.
pub open spec fn wanted(
    sessions: Seq<SessionMeta>,
    project_path: Option<Seq<char>>,
    include_agents: bool,
) -> Seq<SessionMeta>
    decreases sessions.len(),
{
    if sessions.len() == 0 {
        seq![]
    } else {
        let p = wanted(sessions.drop_last(), project_path, include_agents);
        if is_wanted(sessions.last(), project_path, include_agents) {
            p.push(sessions.last())
        } else {
            p
        }
    }
}

/// The text of an optional string slice.
pub open spec fn opt_str_view(o: Option<&str>) -> Option<Seq<char>> {
    match o {
        Some(s) => Some(s@),
        None => None,
    }
}

/// Whether a session was active recently enough.
pub open spec fn is_recent(meta: SessionMeta, within_seconds: Option<u64>, now: u64) -> bool {
    match (within_seconds, meta.file_mtime) {
        (Some(secs), Some(mtime)) => now - mtime <= secs * 1000,
        _ => true,
    }
}

/// Whether `s` is `before` with what its last message adds to it.
pub open spec fn has_preview_of(
    style: PathStyle,
    s: SessionMeta,
    before: SessionMeta,
    last: Option<ParsedMessage>,
) -> bool {
    match last {
        Some(m) => {
            &&& s == (SessionMeta {
                last_message_type: s.last_message_type,
                last_message_preview: s.last_message_preview,
                last_message_at: s.last_message_at,
                ..before
            })
            &&& s.last_message_type is Some
            &&& s.last_message_type->0@ == (match m.message_type {
                MessageType::User => "user"@,
                MessageType::Assistant => "assistant"@,
                _ => "system"@,
            })
            &&& s.last_message_preview is Some
            &&& s.last_message_preview->0@ == preview_of(style, m)
            &&& s.last_message_at == (match m.timestamp {
                Some(ts) => timestamp_millis(ts@, rfc3339_millis(ts@)),
                None => None,
            })
        },
        None => s == before,
    }
}

/// `session` with what its last message adds to it: who it comes from, its preview and its time.
pub fn with_last_message(
    style: PathStyle,
    session: SessionMeta,
    last: &Option<ParsedMessage>,
) -> (r: SessionMeta)
    ensures
        has_preview_of(style, r, session, *last),
{
    let mut s = session;
    match last {
        Some(m) => {
            s.last_message_type = Some(
                match m.message_type {
                    MessageType::User => "user".to_owned(),
                    MessageType::Assistant => "assistant".to_owned(),
                    _ => "system".to_owned(),
                },
            );
            s.last_message_preview = Some(generate_preview(style, m));
            s.last_message_at = match &m.timestamp {
                Some(ts) => parse_timestamp_to_millis(ts.as_str()),
                None => None,
            };
        },
        None => {},
    }
    s
}

impl SessionReader {
    /// A reader of the projects below `projects_path` that has seen nothing yet.
    pub fn new(projects_path: String) -> (r: SessionReader)
        ensures
            r.projects_path == projects_path,
            r.encoded_dir_cache@ == Seq::<(String, String)>::empty(),
    {
        SessionReader::in_style(native_style(), projects_path)
    }

    /// A reader of the projects below `projects_path` that has seen nothing yet, with paths written
    /// in the style given.
    pub fn in_style(style: PathStyle, projects_path: String) -> (r: SessionReader)
        ensures
            r.style == style,
            r.projects_path == projects_path,
            r.encoded_dir_cache@ == Seq::<(String, String)>::empty(),
    {
        SessionReader { style, projects_path, encoded_dir_cache: Vec::new() }
    }

    /// The directory below a home directory where a tool keeps its projects.
    pub open spec fn default_path(style: PathStyle, home: Seq<char>, tool: Seq<char>) -> Seq<char> {
        joined_path(style, home, "."@ + tool + "/projects"@)
    }

    /// Whether `r` is the reader of what a tool keeps in a home directory: there is one exactly
    /// where there is a home directory, and it has seen nothing yet.
    pub open spec fn is_default(
        r: Option<SessionReader>,
        style: PathStyle,
        home: Option<Seq<char>>,
        tool: Seq<char>,
    ) -> bool {
        match home {
            Some(h) => {
                &&& r is Some
                &&& (r->0).style == style
                &&& (r->0).projects_path@ == SessionReader::default_path(style, h, tool)
                &&& (r->0).encoded_dir_cache@ == Seq::<(String, String)>::empty()
            },
            None => r is None,
        }
    }

    /// A reader of what the tool keeps in the home directory of the user, where there is one.
    /// Whether there is one, and which, depends on the environment.
    pub fn with_default_path(tool: &str) -> (r: Option<SessionReader>)
        ensures
            exists|style: PathStyle, home: Option<Seq<char>>| #[trigger]
                SessionReader::is_default(r, style, home, tool@),
    {
        let style = native_style();
        let home = home_dir();
        let r = SessionReader::where_home(style, &home, tool);
        assert(SessionReader::is_default(r, style, opt_view(home), tool@));
        r
    }

    /// A reader of what the tool keeps in the home directory, where there is one.
    pub fn where_home(style: PathStyle, home: &Option<String>, tool: &str) -> (r: Option<
        SessionReader,
    >)
        ensures
            SessionReader::is_default(r, style, opt_view(*home), tool@),
    {
        match home {
            Some(h) => Some(SessionReader::in_home(style, h.as_str(), tool)),
            None => None,
        }
    }

    /// A reader of what the tool keeps in the home directory given.
    pub fn in_home(style: PathStyle, home: &str, tool: &str) -> (r: SessionReader)
        ensures
            r.style == style,
            r.projects_path@ == SessionReader::default_path(style, home@, tool@),
            r.encoded_dir_cache@ == Seq::<(String, String)>::empty(),
    {
        let mut dir = ".".to_owned();
        dir.push_str(tool);
        dir.push_str("/projects");
        SessionReader::in_style(style, paths::join(style, home, dir.as_str()))
    }

    /// The name of the project at `path`.
    pub fn extract_project_name(style: PathStyle, path: &str) -> (r: String)
        ensures
            r@ == project_name_of(style, path@),
    {
        extract_project_name(style, path)
    }

    /// The directory of a project, as far as it is remembered.
    pub fn cached_dir_name(&self, project_path: &str) -> (r: Option<String>)
        ensures
            opt_view(r) == lookup(self.encoded_dir_cache@, project_path@),
    {
        let mut i: usize = self.encoded_dir_cache.len();
        assert(self.encoded_dir_cache@.take(i as int) =~= self.encoded_dir_cache@);
        while i > 0
            invariant
                i <= self.encoded_dir_cache@.len(),
                lookup(self.encoded_dir_cache@, project_path@) == lookup(
                    self.encoded_dir_cache@.take(i as int),
                    project_path@,
                ),
            decreases i,
        {
            assert(self.encoded_dir_cache@.take(i as int).drop_last()
                =~= self.encoded_dir_cache@.take(i - 1));
            i -= 1;
            if same_text(self.encoded_dir_cache[i].0.as_str(), project_path) {
                return Some(self.encoded_dir_cache[i].1.clone());
            }
        }
        None
    }

    /// Remembers the directory of a project.
    fn remember(&mut self, project_path: &str, encoded: &str)
        ensures
            final(self).style == old(self).style,
            final(self).projects_path == old(self).projects_path,
            forall|key: Seq<char>| #[trigger]
                lookup(final(self).encoded_dir_cache@, key) == if key == project_path@ {
                    Some(encoded@)
                } else {
                    lookup(old(self).encoded_dir_cache@, key)
                },
    {
        match self.cached_dir_name(project_path) {
            Some(known) => {
                if same_text(known.as_str(), encoded) {
                    return;
                }
            },
            None => {},
        }
        self.encoded_dir_cache.push((project_path.to_owned(), encoded.to_owned()));
        assert(self.encoded_dir_cache@.drop_last() =~= old(self).encoded_dir_cache@);
    }

    /// The projects among the entries of the directory of projects, the last active first, and at
    /// most `limit` of them. Their directories are remembered.
    pub fn list_projects(&mut self, dirs: &Vec<ProjectDir>, limit: Option<usize>) -> (r: Vec<
        ProjectInfo,
    >)
        ensures
            exists|infos: Seq<ProjectInfo>, sorted: Seq<ProjectInfo>|
                {
                    &&& are_infos_of(old(self).style, infos, dirs@)
                    &&& #[trigger] arranged(infos, sorted)
                    &&& r@ == (match limit {
                        Some(n) if n < sorted.len() => sorted.take(n as int),
                        _ => sorted,
                    })
                    &&& forall|key: Seq<char>| #[trigger]
                        lookup(final(self).encoded_dir_cache@, key) == told_or_known(
                            told_by_projects(infos, key),
                            lookup(old(self).encoded_dir_cache@, key),
                        )
                },
            final(self).style == old(self).style,
            final(self).projects_path == old(self).projects_path,
    {
        let mut infos: Vec<ProjectInfo> = Vec::new();
        let mut i: usize = 0;
        assert(dirs@.take(0) =~= Seq::<ProjectDir>::empty());
        while i < dirs.len()
            invariant
                i <= dirs@.len(),
                are_infos_of(self.style, infos@, dirs@.take(i as int)),
                forall|key: Seq<char>| #[trigger]
                    lookup(self.encoded_dir_cache@, key) == told_or_known(
                        told_by_projects(infos@, key),
                        lookup(old(self).encoded_dir_cache@, key),
                    ),
                self.style == old(self).style,
                self.projects_path == old(self).projects_path,
            decreases dirs@.len() - i,
        {
            assert(dirs@.take(i + 1).drop_last() =~= dirs@.take(i as int));
            let d = &dirs[i];
            let name = chars_of(d.name.as_str());
            if d.is_dir && name.len() > 0 && name[0] != '.' {
                let (path, session_count, last_active) = scan_project_dir(
                    &d.files,
                    d.name.as_str(),
                );
                self.remember(path.as_str(), d.name.as_str());
                let ghost before = infos@;
                infos.push(
                    ProjectInfo {
                        encoded_name: d.name.clone(),
                        name: extract_project_name(self.style, path.as_str()),
                        path,
                        session_count,
                        last_active,
                    },
                );
                assert(infos@.drop_last() =~= before);
                assert forall|k: int| 0 <= k < infos@.len() implies is_info_of(
                    self.style,
                    #[trigger] infos@[k],
                    project_dirs(dirs@.take(i + 1))[k],
                ) by {
                    if k < before.len() {
                        assert(infos@[k] == before[k]);
                    }
                }
            }
            i += 1;
        }
        assert(dirs@.take(dirs@.len() as int) =~= dirs@);
        let ghost all = infos@;
        let mut r = highest_first(infos);
        let ghost sorted = r@;
        match limit {
            Some(n) => {
                if n < r.len() {
                    r.truncate(n);
                }
            },
            None => {},
        }
        assert(r@ =~= match limit {
            Some(n) if n < sorted.len() => sorted.take(n as int),
            _ => sorted,
        });
        assert(arranged(all, sorted));
        r
    }

    /// The sessions of the listing that are asked for, the last modified first: those of one
    /// project where a path is given, and agents' sessions only on request. The directories that
    /// the listing names are remembered. A listing that failed holds no sessions.
    pub fn list_sessions(
        &mut self,
        listed: Option<Vec<SessionMeta>>,
        project_path: Option<&str>,
        include_agents: bool,
    ) -> (r: Vec<SessionMeta>)
        ensures
            final(self).style == old(self).style,
            final(self).projects_path == old(self).projects_path,
            match listed {
                Some(sessions) => {
                    &&& arranged(
                        wanted(sessions@, opt_str_view(project_path), include_agents),
                        r@,
                    )
                    &&& forall|key: Seq<char>| #[trigger]
                        lookup(final(self).encoded_dir_cache@, key) == told_or_known(
                            told_by_sessions(sessions@, key),
                            lookup(old(self).encoded_dir_cache@, key),
                        )
                },
                None => r@.len() == 0 && *final(self) == *old(self),
            },
    {
        let sessions = match listed {
            Some(s) => s,
            None => {
                return Vec::new();
            },
        };
        let ghost all = sessions@;
        let ghost path = opt_str_view(project_path);
        let mut kept: Vec<SessionMeta> = Vec::new();
        assert(all.take(0) =~= Seq::<SessionMeta>::empty());
        for s in it: sessions
            invariant
                it.seq() == all,
                path == opt_str_view(project_path),
                kept@ == wanted(all.take(it.index()), path, include_agents),
                forall|key: Seq<char>| #[trigger]
                    lookup(self.encoded_dir_cache@, key) == told_or_known(
                        told_by_sessions(all.take(it.index()), key),
                        lookup(old(self).encoded_dir_cache@, key),
                    ),
                self.style == old(self).style,
                self.projects_path == old(self).projects_path,
        {
            let ghost i = it.index();
            assert(all.take(i + 1).drop_last() =~= all.take(i));
            assert(s == all[i]);
            match &s.encoded_dir_name {
                Some(encoded) => {
                    self.remember(s.project_path.as_str(), encoded.as_str());
                },
                None => {},
            }
            let wanted_one = (include_agents || !starts_with(s.id.as_str(), "agent-"))
                && match project_path {
                Some(p) => same_text(s.project_path.as_str(), p),
                None => true,
            };
            if wanted_one {
                kept.push(s);
            }
        }
        assert(all.take(all.len() as int) =~= all);
        highest_first(kept)
    }

    /// The sessions as `list_sessions` gives them, each with what its last message adds to it.
    /// `last_messages` holds the last message of each of them, where one could be read.
    pub fn list_sessions_with_preview(
        style: PathStyle,
        sessions: Vec<SessionMeta>,
        last_messages: &Vec<Option<ParsedMessage>>,
    ) -> (r: Vec<SessionMeta>)
        requires
            sessions@.len() == last_messages@.len(),
        ensures
            r@.len() == sessions@.len(),
            forall|i: int|
                0 <= i < r@.len() ==> has_preview_of(
                    style,
                    #[trigger] r@[i],
                    sessions@[i],
                    if sessions@[i].session_path is Some {
                        last_messages@[i]
                    } else {
                        None
                    },
                ),
    {
        let ghost all = sessions@;
        let mut r: Vec<SessionMeta> = Vec::new();
        for s in it: sessions
            invariant
                it.seq() == all,
                all.len() == last_messages@.len(),
                r@.len() == it.index(),
                forall|i: int|
                    0 <= i < r@.len() ==> has_preview_of(
                        style,
                        #[trigger] r@[i],
                        all[i],
                        if all[i].session_path is Some {
                            last_messages@[i]
                        } else {
                            None
                        },
                    ),
        {
            let i: usize = r.len();
            if s.session_path.is_some() {
                r.push(with_last_message(style, s, &last_messages[i]));
            } else {
                r.push(s);
            }
        }
        r
    }

    /// The last message of a session that has been read.
    pub fn read_last_message(parsed: Option<ParseResult>) -> (r: Option<ParsedMessage>)
        ensures
            r == match parsed {
                Some(p) => if p.messages@.len() > 0 {
                    Some(p.messages@.last())
                } else {
                    None
                },
                None => None,
            },
    {
        match Self::read_messages(parsed, 1, 0, Order::Desc) {
            Some(result) => {
                let mut messages = result.messages;
                let r = messages.pop();
                proof {
                    let all = parsed->0.messages@;
                    if all.len() > 0 {
                        assert(all.reverse().subrange(0, 1)[0] == all.last());
                    }
                }
                r
            },
            None => None,
        }
    }

    /// The session of a project that was modified last, unless that is longer ago than
    /// `within_seconds`. Agents' sessions do not count.
    pub fn find_latest_session(
        &mut self,
        listed: Option<Vec<SessionMeta>>,
        project_path: &str,
        within_seconds: Option<u64>,
        now: u64,
    ) -> (r: Option<SessionMeta>)
        requires
            within_seconds is Some ==> within_seconds->0 * 1000 <= u64::MAX,
        ensures
            final(self).style == old(self).style,
            final(self).projects_path == old(self).projects_path,
            match listed {
                Some(sessions) => {
                    &&& forall|key: Seq<char>| #[trigger]
                        lookup(final(self).encoded_dir_cache@, key) == told_or_known(
                            told_by_sessions(sessions@, key),
                            lookup(old(self).encoded_dir_cache@, key),
                        )
                    &&& exists|sorted: Seq<SessionMeta>|
                        {
                            &&& #[trigger] arranged(
                                wanted(sessions@, Some(project_path@), false),
                                sorted,
                            )
                            &&& r == (if sorted.len() > 0 && is_recent(
                                sorted[0],
                                within_seconds,
                                now,
                            ) {
                                Some(sorted[0])
                            } else {
                                None
                            })
                        }
                },
                None => r is None && *final(self) == *old(self),
            },
    {
        let mut sessions = self.list_sessions(listed, Some(project_path), false);
        let ghost sorted = sessions@;
        if sessions.len() == 0 {
            return None;
        }
        let latest = sessions.swap_remove(0);
        match (within_seconds, latest.file_mtime) {
            (Some(secs), Some(mtime)) => {
                let ago: u64 = if now >= mtime { now - mtime } else { 0 };
                if ago > secs * 1000 {
                    return None;
                }
            },
            _ => {},
        }
        Some(latest)
    }

    /// The path of the file of a session, in the first directory of a project that holds it.
    pub fn get_session_path(&self, session_id: &str, dirs: &Vec<DirProbe>) -> (r: Option<String>)
        ensures
            opt_view(r) == match first_holder(dirs@) {
                Some(name) => Some(session_path_of(self.style, self.projects_path@, name, session_id@)),
                None => None,
            },
    {
        let mut i: usize = 0;
        assert(dirs@.skip(0) =~= dirs@);
        while i < dirs.len()
            invariant
                i <= dirs@.len(),
                first_holder(dirs@) == first_holder(dirs@.skip(i as int)),
            decreases dirs@.len() - i,
        {
            assert(dirs@.skip(i as int).drop_first() =~= dirs@.skip(i + 1));
            assert(dirs@.skip(i as int)[0] == dirs@[i as int]);
            let d = &dirs[i];
            if d.is_dir && !starts_with(d.name.as_str(), ".") && d.holds_file {
                return Some(
                    compute_session_path(
                        self.style,
                        self.projects_path.as_str(),
                        d.name.as_str(),
                        session_id,
                    ),
                );
            }
            i += 1;
        }
        None
    }

    /// The directory of a project: as it is remembered, or else as the entries of the directory of
    /// projects tell, which are then remembered.
    pub fn get_encoded_dir_name(&mut self, project_path: &str, dirs: &Vec<ProjectDir>) -> (r: Option<
        String,
    >)
        ensures
            final(self).style == old(self).style,
            final(self).projects_path == old(self).projects_path,
            match lookup(old(self).encoded_dir_cache@, project_path@) {
                Some(name) => opt_view(r) == Some(name) && *final(self) == *old(self),
                None => exists|infos: Seq<ProjectInfo>|
                    {
                        &&& #[trigger] are_infos_of(old(self).style, infos, dirs@)
                        &&& opt_view(r) == told_by_projects(infos, project_path@)
                        &&& forall|key: Seq<char>| #[trigger]
                            lookup(final(self).encoded_dir_cache@, key) == told_or_known(
                                told_by_projects(infos, key),
                                lookup(old(self).encoded_dir_cache@, key),
                            )
                    },
            },
    {
        let known = self.cached_dir_name(project_path);
        if known.is_some() {
            return known;
        }
        let _ = self.list_projects(dirs, None);
        self.cached_dir_name(project_path)
    }

    /// What the adapter is told of the session file at `session_path`.
    pub fn session_meta(style: PathStyle, session_path: &str, source: Source) -> (r: SessionMeta)
        ensures
            r.is_bare(
                match file_name_of(style, session_path@) {
                    Some(name) => stem_of(name),
                    None => "unknown"@,
                },
                source,
                session_path@,
                None,
            ),
    {
        let id = match paths::file_stem(style, session_path) {
            Some(stem) => stem,
            None => "unknown".to_owned(),
        };
        SessionMeta::bare(id.as_str(), source, session_path, None)
    }

    /// A page of the messages of a session that has been read.
    pub fn read_messages(
        parsed: Option<ParseResult>,
        limit: usize,
        offset: usize,
        order: Order,
    ) -> (r: Option<MessagesResult>)
        requires
            offset + limit <= usize::MAX,
        ensures
            match parsed {
                Some(p) => r is Some && is_page(
                    r->0.messages@,
                    r->0.total,
                    r->0.has_more,
                    p.messages@,
                    limit as int,
                    offset as int,
                    order,
                ),
                None => r is None,
            },
    {
        match parsed {
            Some(p) => {
                let (messages, total, has_more) = page(p.messages, limit, offset, order);
                Some(MessagesResult { messages, total, has_more })
            },
            None => None,
        }
    }

    /// A page of the messages of a session as its tool writes them, given what the lines of the
    /// file say as JSON.
    pub fn read_messages_raw_from(
        all: Vec<Json>,
        limit: usize,
        offset: usize,
        order: Order,
    ) -> (r: RawMessagesResult)
        requires
            offset + limit <= usize::MAX,
        ensures
            is_page(
                r.messages@,
                r.total,
                r.has_more,
                all@,
                limit as int,
                offset as int,
                order,
            ),
    {
        let (messages, total, has_more) = page(all, limit, offset, order);
        RawMessagesResult { messages, total, has_more }
    }

    /// A page of the messages of a session as its tool writes them. Lines that are blank or no
    /// JSON do not count; a line that could not be read leaves nothing.
    pub fn read_messages_raw(
        lines: &Vec<Option<String>>,
        limit: usize,
        offset: usize,
        order: Order,
    ) -> (r: Option<RawMessagesResult>)
        requires
            offset + limit <= usize::MAX,
        ensures
            match json_lines(lines@) {
                Some(all) => r is Some && is_page(
                    json_views(r->0.messages@),
                    r->0.total,
                    r->0.has_more,
                    all,
                    limit as int,
                    offset as int,
                    order,
                ),
                None => r is None,
            },
    {
        let mut all: Vec<Json> = Vec::new();
        let mut i: usize = 0;
        assert(lines@.take(0) =~= Seq::<Option<String>>::empty());
        assert(json_views(all@) =~= Seq::<JsonView>::empty());
        while i < lines.len()
            invariant
                i <= lines@.len(),
                json_lines(lines@.take(i as int)) == Some(json_views(all@)),
            decreases lines@.len() - i,
        {
            assert(lines@.take(i + 1).drop_last() =~= lines@.take(i as int));
            match &lines[i] {
                Some(line) => {
                    if !trim(line.as_str()).as_str().is_empty() {
                        match parse_json(line.as_str()) {
                            Some(json) => {
                                let ghost before = all@;
                                all.push(json);
                                assert(json_views(all@) =~= json_views(before).push(
                                    json_view(json),
                                ));
                            },
                            None => {},
                        }
                    }
                },
                None => {
                    proof {
                        lemma_unread_line(lines@, i as int);
                    }
                    return None;
                },
            }
            i += 1;
        }
        assert(lines@.take(lines@.len() as int) =~= lines@);
        let ghost values = all@;
        let r = Self::read_messages_raw_from(all, limit, offset, order);
        proof {
            let t = values.len() as int;
            let s = page_start(t, offset as int);
            let e = page_end(t, offset as int, limit as int);
            assert(json_views(in_order(values, order)) =~= in_order(json_views(values), order));
            assert(json_views(in_order(values, order).subrange(s, e)) =~= json_views(
                in_order(values, order),
            ).subrange(s, e));
        }
        Some(r)
    }

    /// What a session that has been read amounts to: its messages counted, a quarter of their
    /// bytes as an estimate of tokens, and its duration as far as its ends are known.
    pub fn calculate_metrics(parsed: &Option<ParseResult>) -> (r: Option<SessionMetrics>)
        requires
            parsed is Some ==> total_bytes(parsed->0.messages@) <= usize::MAX,
        ensures
            r == match parsed {
                Some(p) => Some(
                    metrics_of(
                        *p,
                        match (p.created_at, p.updated_at) {
                            (Some(first), Some(last)) => rfc3339_seconds_between(first@, last@),
                            _ => None,
                        },
                    ),
                ),
                None => None,
            },
            parsed is Some ==> {
                let all = parsed->0.messages@;
                &&& r is Some
                &&& r->0.message_count == all.len()
                &&& r->0.user_message_count == all.filter(
                    |m: ParsedMessage| m.message_type == MessageType::User,
                ).len()
                &&& r->0.assistant_message_count == all.filter(
                    |m: ParsedMessage| m.message_type == MessageType::Assistant,
                ).len()
            },
    {
        match parsed {
            Some(p) => {
                let seconds = match (&p.created_at, &p.updated_at) {
                    (Some(first), Some(last)) => seconds_between(first.as_str(), last.as_str()),
                    _ => None,
                };
                Some(Self::metrics_with_duration(p, seconds))
            },
            None => None,
        }
    }

    /// What a session that has been read amounts to, given the seconds between its ends.
    pub fn metrics_with_duration(p: &ParseResult, seconds: Option<i64>) -> (r: SessionMetrics)
        requires
            total_bytes(p.messages@) <= usize::MAX,
        ensures
            r == metrics_of(*p, seconds),
            r.message_count == p.messages@.len(),
            r.user_message_count == p.messages@.filter(
                |m: ParsedMessage| m.message_type == MessageType::User,
            ).len(),
            r.assistant_message_count == p.messages@.filter(
                |m: ParsedMessage| m.message_type == MessageType::Assistant,
            ).len(),
            4 * r.estimated_tokens <= total_bytes(p.messages@) < 4 * r.estimated_tokens + 4,
    {
        let mut user: usize = 0;
        let mut assistant: usize = 0;
        let mut bytes: usize = 0;
        let mut i: usize = 0;
        assert(p.messages@.take(0) =~= Seq::<ParsedMessage>::empty());
        while i < p.messages.len()
            invariant
                i <= p.messages@.len(),
                user <= i,
                assistant <= i,
                user == count_of(p.messages@.take(i as int), MessageType::User),
                assistant == count_of(p.messages@.take(i as int), MessageType::Assistant),
                bytes == total_bytes(p.messages@.take(i as int)),
                total_bytes(p.messages@) <= usize::MAX,
            decreases p.messages@.len() - i,
        {
            let ghost q = p.messages@.take(i + 1);
            assert(q.drop_last() =~= p.messages@.take(i as int));
            proof {
                lemma_bytes_grow(p.messages@, i + 1);
            }
            let m = &p.messages[i];
            if m.message_type == MessageType::User {
                user = user + 1;
            }
            if m.message_type == MessageType::Assistant {
                assistant = assistant + 1;
            }
            let full: &str = m.content.full.as_str();
            bytes = bytes + full.len();
            i += 1;
        }
        assert(p.messages@.take(p.messages@.len() as int) =~= p.messages@);
        proof {
            session_is_measured(*p, seconds, metrics_of(*p, seconds));
        }
        SessionMetrics {
            message_count: p.messages.len(),
            user_message_count: user,
            assistant_message_count: assistant,
            estimated_tokens: bytes / 4,
            duration_seconds: match seconds {
                Some(s) => Some(if s >= 0 { s as u64 } else { 0 }),
                None => None,
            },
        }
    }

    /// A session that has been read for the index; one that could not be read is none.
    pub fn parse_jsonl_for_index<S, E>(parsed: Result<Option<S>, E>) -> (r: Option<S>)
        ensures
            r == match parsed {
                Ok(session) => session,
                Err(_) => None,
            },
    {
        match parsed {
            Ok(session) => session,
            Err(_) => None,
        }
    }
}

/// What the lines of a file say as JSON; nothing where one of them could not be read.
pub open spec fn json_lines(lines: Seq<Option<String>>) -> Option<Seq<JsonView>>
    decreases lines.len(),
{
    if lines.len() == 0 {
        Some(seq![])
    } else {
        match (json_lines(lines.drop_last()), lines.last()) {
            (Some(p), Some(line)) => if trimmed(line@).len() == 0 {
                Some(p)
            } else {
                match json_of_text(line@) {
                    Some(v) => Some(p.push(v)),
                    None => Some(p),
                }
            },
            _ => None,
        }
    }
}

proof fn lemma_unread_line(lines: Seq<Option<String>>, i: int)
    requires
        0 <= i < lines.len(),
        lines[i] is None,
    ensures
        json_lines(lines) is None,
    decreases lines.len(),
{
    if i < lines.len() - 1 {
        lemma_unread_line(lines.drop_last(), i);
    }
}

/// How many of the messages come from `t`.
pub open spec fn count_of(messages: Seq<ParsedMessage>, t: MessageType) -> nat
    decreases messages.len(),
{
    if messages.len() == 0 {
        0
    } else {
        count_of(messages.drop_last(), t) + if messages.last().message_type == t {
            1nat
        } else {
            0
        }
    }
}

/// How many bytes a text takes.
pub open spec fn byte_len(s: Seq<char>) -> nat {
    vstd::utf8::encode_utf8(s).len()
}

/// How many bytes the messages take.
pub open spec fn total_bytes(messages: Seq<ParsedMessage>) -> nat
    decreases messages.len(),
{
    if messages.len() == 0 {
        0
    } else {
        total_bytes(messages.drop_last()) + byte_len(messages.last().content.full@)
    }
}

proof fn lemma_bytes_grow(messages: Seq<ParsedMessage>, i: int)
    requires
        0 <= i <= messages.len(),
    ensures
        total_bytes(messages.take(i)) <= total_bytes(messages),
    decreases messages.len(),
{
    if i < messages.len() {
        lemma_bytes_grow(messages.drop_last(), i);
        assert(messages.drop_last().take(i) =~= messages.take(i));
    } else {
        assert(messages.take(i) =~= messages);
    }
}

/// What a session amounts to, given the seconds between its ends.
pub open spec fn metrics_of(p: ParseResult, seconds: Option<i64>) -> SessionMetrics {
    SessionMetrics {
        message_count: p.messages@.len() as usize,
        user_message_count: count_of(p.messages@, MessageType::User) as usize,
        assistant_message_count: count_of(p.messages@, MessageType::Assistant) as usize,
        estimated_tokens: (total_bytes(p.messages@) / 4) as usize,
        duration_seconds: match seconds {
            Some(s) => Some(if s >= 0 { s as u64 } else { 0 }),
            None => None,
        },
    }
}

/// Pages follow on from each other: a page and the one behind it are one longer page.
pub proof fn pages_follow_on<T>(all: Seq<T>, first: int, second: int, offset: int, order: Order)
    requires
        first >= 0,
        second >= 0,
        offset >= 0,
    ensures
        page_of(all, first, offset, order) + page_of(all, second, offset + first, order) == page_of(
            all,
            first + second,
            offset,
            order,
        ),
{
    assert(in_order(all, order).len() == all.len());
    assert(page_of(all, first, offset, order) + page_of(all, second, offset + first, order)
        =~= page_of(all, first + second, offset, order));
}

/// A page that is long enough holds everything.
pub proof fn long_page_holds_all<T>(all: Seq<T>, limit: int, order: Order)
    requires
        limit >= all.len(),
    ensures
        page_of(all, limit, 0, order) == in_order(all, order),
{
    assert(page_of(all, limit, 0, order) =~= in_order(all, order));
}

} // verus!
