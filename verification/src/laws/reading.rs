//! What holds of reading and measuring a session.
use vstd::prelude::*;
use crate::json::{field, json_of_text, json_view, json_views, Json, JsonView};
use crate::paths::{file_name_of, PathStyle};
use crate::reader::{
    block_kind, block_line, count_of, gathered, generate_assistant_preview, generate_preview,
    generate_preview_from_content_blocks, generate_tool_use_preview, is_page, json_lines,
    metrics_of, shortened, tool_line, total_bytes, truncated, with_last_message, MessagesResult,
    Order, RawMessagesResult, SessionMetrics, SessionReader,
};
use crate::session::{ParseResult, ParsedMessage, SessionMeta};
use crate::text::trimmed;
use crate::time::rfc3339_millis;
use crate::types::MessageType;

verus! {

/// A page holds the messages behind the first `offset`, at most `limit` of them, from the beginning
/// of the session or from its end; the total is that of all messages, and there is more exactly where
/// the session goes on behind the page.
pub proof fn page_holds_what_was_asked_for<T>(
    messages: Seq<T>,
    total: usize,
    has_more: bool,
    all: Seq<T>,
    limit: int,
    offset: int,
    order: Order,
)
    requires
        is_page(messages, total, has_more, all, limit, offset, order),
        limit >= 0,
        offset >= 0,
    ensures
        total == all.len(),
        has_more <==> offset + limit < all.len(),
        messages.len() <= limit,
        offset + limit <= all.len() ==> messages.len() == limit,
        offset <= all.len() < offset + limit ==> messages.len() == all.len() - offset,
        all.len() < offset ==> messages.len() == 0,
        forall|i: int|
            0 <= i < messages.len() && order == Order::Asc ==> #[trigger] messages[i] == all[offset
                + i],
        forall|i: int|
            0 <= i < messages.len() && order == Order::Desc ==> #[trigger] messages[i]
                == all[all.len() - 1 - offset - i],
{
    assert(all.reverse().len() == all.len());
}

proof fn lemma_count_filtered(messages: Seq<ParsedMessage>, t: MessageType)
    ensures
        count_of(messages, t) == messages.filter(|m: ParsedMessage| m.message_type == t).len(),
        count_of(messages, t) <= messages.len(),
    decreases messages.len(),
{
    reveal(Seq::filter);
    if messages.len() > 0 {
        lemma_count_filtered(messages.drop_last(), t);
    }
}

proof fn lemma_bytes_of_two(a: Seq<ParsedMessage>, b: Seq<ParsedMessage>)
    ensures
        total_bytes(a + b) == total_bytes(a) + total_bytes(b),
    decreases b.len(),
{
    if b.len() == 0 {
        assert(a + b =~= a);
    } else {
        lemma_bytes_of_two(a, b.drop_last());
        assert((a + b).drop_last() =~= a + b.drop_last());
        assert((a + b).last() == b.last());
    }
}

/// A session is measured by its messages: all are counted, and those of the user and of the assistant
/// each by themselves; a token is taken to be four bytes of the full texts; and the duration is that
/// between its ends, never below zero and unknown where that is.
pub proof fn session_is_measured(p: ParseResult, seconds: Option<i64>, r: SessionMetrics)
    requires
        r == metrics_of(p, seconds),
        p.messages@.len() <= usize::MAX,
        total_bytes(p.messages@) <= usize::MAX,
    ensures
        r.message_count == p.messages@.len(),
        r.user_message_count == p.messages@.filter(
            |m: ParsedMessage| m.message_type == MessageType::User,
        ).len(),
        r.assistant_message_count == p.messages@.filter(
            |m: ParsedMessage| m.message_type == MessageType::Assistant,
        ).len(),
        4 * r.estimated_tokens <= total_bytes(p.messages@) < 4 * r.estimated_tokens + 4,
        match seconds {
            Some(s) => r.duration_seconds is Some && (s >= 0 ==> r.duration_seconds->0 == s) && (s
                < 0 ==> r.duration_seconds->0 == 0),
            None => r.duration_seconds is None,
        },
{
    lemma_count_filtered(p.messages@, MessageType::User);
    lemma_count_filtered(p.messages@, MessageType::Assistant);
}

/// In a session of the user's messages alone every message is the user's and none the assistant's;
/// and the other way round.
pub proof fn one_sided_session_counts_one_side(p: ParseResult, seconds: Option<i64>)
    requires
        p.messages@.len() <= usize::MAX,
    ensures
        (forall|i: int|
            0 <= i < p.messages@.len() ==> (#[trigger] p.messages@[i]).message_type
                == MessageType::User) ==> {
            &&& metrics_of(p, seconds).user_message_count == p.messages@.len()
            &&& metrics_of(p, seconds).assistant_message_count == 0
        },
        (forall|i: int|
            0 <= i < p.messages@.len() ==> (#[trigger] p.messages@[i]).message_type
                == MessageType::Assistant) ==> {
            &&& metrics_of(p, seconds).user_message_count == 0
            &&& metrics_of(p, seconds).assistant_message_count == p.messages@.len()
        },
{
    lemma_uniform(p.messages@, MessageType::User, MessageType::Assistant);
    lemma_uniform(p.messages@, MessageType::Assistant, MessageType::User);
}

proof fn lemma_uniform(messages: Seq<ParsedMessage>, t: MessageType, other: MessageType)
    requires
        t != other,
    ensures
        (forall|i: int|
            0 <= i < messages.len() ==> (#[trigger] messages[i]).message_type == t) ==> count_of(
            messages,
            t,
        ) == messages.len() && count_of(messages, other) == 0,
    decreases messages.len(),
{
    if messages.len() > 0 {
        let d = messages.drop_last();
        lemma_uniform(d, t, other);
        assert(forall|i: int| 0 <= i < d.len() ==> #[trigger] d[i] == messages[i]);
        assert(messages.last() == messages[messages.len() - 1]);
    }
}

/// The bytes of a session are those of the full texts of its messages, each counted once.
pub proof fn bytes_add_up(a: Seq<ParsedMessage>, m: ParsedMessage, b: Seq<ParsedMessage>)
    ensures
        total_bytes(a + seq![m] + b) == total_bytes(a) + vstd::utf8::encode_utf8(
            m.content.full@,
        ).len() + total_bytes(b),
        total_bytes(Seq::empty()) == 0,
{
    lemma_bytes_of_two(a + seq![m], b);
    lemma_bytes_of_two(a, seq![m]);
    assert(seq![m].drop_last() =~= Seq::<ParsedMessage>::empty());
    assert(total_bytes(seq![m].drop_last()) == 0);
    assert(seq![m].last() == m);
}

/// A text of at most a hundred characters is its own preview; of a longer one the preview is its first
/// ninety-seven characters and three dots.
pub proof fn preview_is_the_beginning(s: Seq<char>)
    ensures
        s.len() <= 100 ==> shortened(s) == s,
        s.len() > 100 ==> shortened(s) == s.take(97) + "..."@,
        shortened(s).len() <= 100,
        forall|n: int| 0 <= n < s.len() ==> #[trigger] truncated(s, n) == s.take(n) + "..."@,
        forall|n: int| s.len() <= n ==> #[trigger] truncated(s, n) == s,
{
    reveal_strlit("...");
}

/// The user's and the assistant's messages of a session are counted each on their own side, and a
/// message more of one side counts there and nowhere else.
pub proof fn metrics_count_each_side(
    p: &ParseResult,
    seconds: Option<i64>,
    r: SessionMetrics,
    q: &ParseResult,
    m: ParsedMessage,
    s: SessionMetrics,
)
    requires
        call_ensures(SessionReader::metrics_with_duration, (p, seconds), r),
        call_ensures(SessionReader::metrics_with_duration, (q, seconds), s),
        q.messages@ == p.messages@.push(m),
    ensures
        r.message_count == p.messages@.len(),
        s.message_count == r.message_count + 1,
        s.user_message_count == r.user_message_count + (if m.message_type == MessageType::User {
            1int
        } else {
            0
        }),
        s.assistant_message_count == r.assistant_message_count + (if m.message_type
            == MessageType::Assistant {
            1int
        } else {
            0
        }),
        p.messages@.len() == 0 ==> r.user_message_count == 0 && r.assistant_message_count == 0,
{
    reveal(Seq::filter);
    assert(q.messages@.drop_last() =~= p.messages@);
}

/// A session of user messages alone has as many user messages as messages, and none of the assistant;
/// and the other way round.
pub proof fn one_side_is_the_whole(p: &ParseResult, seconds: Option<i64>, r: SessionMetrics)
    requires
        call_ensures(SessionReader::metrics_with_duration, (p, seconds), r),
    ensures
        (forall|i: int|
            0 <= i < p.messages@.len() ==> (#[trigger] p.messages@[i]).message_type
                == MessageType::User) ==> r.user_message_count == r.message_count
            && r.assistant_message_count == 0,
        (forall|i: int|
            0 <= i < p.messages@.len() ==> (#[trigger] p.messages@[i]).message_type
                == MessageType::Assistant) ==> r.assistant_message_count == r.message_count
            && r.user_message_count == 0,
{
    let user = |m: ParsedMessage| m.message_type == MessageType::User;
    let assistant = |m: ParsedMessage| m.message_type == MessageType::Assistant;
    if forall|i: int|
        0 <= i < p.messages@.len() ==> (#[trigger] p.messages@[i]).message_type
            == MessageType::User {
        lemma_all_pass(p.messages@, user);
        lemma_none_passes(p.messages@, assistant);
    }
    if forall|i: int|
        0 <= i < p.messages@.len() ==> (#[trigger] p.messages@[i]).message_type
            == MessageType::Assistant {
        lemma_all_pass(p.messages@, assistant);
        lemma_none_passes(p.messages@, user);
    }
}

proof fn lemma_all_pass<T>(s: Seq<T>, pass: spec_fn(T) -> bool)
    requires
        forall|i: int| 0 <= i < s.len() ==> pass(#[trigger] s[i]),
    ensures
        s.filter(pass) == s,
    decreases s.len(),
{
    reveal(Seq::filter);
    if s.len() > 0 {
        let d = s.drop_last();
        assert forall|i: int| 0 <= i < d.len() implies pass(#[trigger] d[i]) by {
            assert(d[i] == s[i]);
        }
        lemma_all_pass(d, pass);
        assert(pass(s[s.len() - 1]));
    }
    assert(s.filter(pass) =~= s);
}

proof fn lemma_none_passes<T>(s: Seq<T>, pass: spec_fn(T) -> bool)
    requires
        forall|i: int| 0 <= i < s.len() ==> !pass(#[trigger] s[i]),
    ensures
        s.filter(pass).len() == 0,
    decreases s.len(),
{
    reveal(Seq::filter);
    if s.len() > 0 {
        let d = s.drop_last();
        assert forall|i: int| 0 <= i < d.len() implies !pass(#[trigger] d[i]) by {
            assert(d[i] == s[i]);
        }
        lemma_none_passes(d, pass);
        assert(!pass(s[s.len() - 1]));
    }
}

/// The metrics of a session that was read count its messages; without one there are none.
pub proof fn read_session_is_measured(parsed: &Option<ParseResult>, r: Option<SessionMetrics>)
    requires
        call_ensures(SessionReader::calculate_metrics, (parsed,), r),
    ensures
        r is Some <==> parsed is Some,
        parsed is Some ==> {
            &&& r->0.message_count == parsed->0.messages@.len()
            &&& r->0.user_message_count == parsed->0.messages@.filter(
                |m: ParsedMessage| m.message_type == MessageType::User,
            ).len()
            &&& r->0.assistant_message_count == parsed->0.messages@.filter(
                |m: ParsedMessage| m.message_type == MessageType::Assistant,
            ).len()
        },
{
}

/// A page of a session: as many messages as asked for, as far as there are so many behind the offset,
/// from the beginning on or from the end back.
pub proof fn page_is_read(
    p: ParseResult,
    limit: usize,
    offset: usize,
    order: Order,
    r: Option<MessagesResult>,
)
    requires
        call_ensures(SessionReader::read_messages, (Some(p), limit, offset, order), r),
    ensures
        r is Some,
        r->0.total == p.messages@.len(),
        r->0.has_more <==> offset + limit < p.messages@.len(),
        r->0.messages@.len() <= limit,
        offset + limit <= p.messages@.len() ==> r->0.messages@.len() == limit,
        offset <= p.messages@.len() < offset + limit ==> r->0.messages@.len() == p.messages@.len()
            - offset,
        forall|i: int|
            0 <= i < r->0.messages@.len() && order == Order::Asc ==> #[trigger] r->0.messages@[i]
                == p.messages@[offset + i],
        forall|i: int|
            0 <= i < r->0.messages@.len() && order == Order::Desc ==> #[trigger] r->0.messages@[i]
                == p.messages@[p.messages@.len() - 1 - offset - i],
{
    page_holds_what_was_asked_for(
        r->0.messages@,
        r->0.total,
        r->0.has_more,
        p.messages@,
        limit as int,
        offset as int,
        order,
    );
}

/// The pages of lines are cut as the pages of messages are.
pub proof fn raw_page_is_read(
    all: Vec<Json>,
    limit: usize,
    offset: usize,
    order: Order,
    r: RawMessagesResult,
)
    requires
        call_ensures(SessionReader::read_messages_raw_from, (all, limit, offset, order), r),
    ensures
        r.total == all@.len(),
        r.has_more <==> offset + limit < all@.len(),
        offset + limit <= all@.len() ==> r.messages@.len() == limit,
        offset <= all@.len() < offset + limit ==> r.messages@.len() == all@.len() - offset,
        forall|i: int|
            0 <= i < r.messages@.len() && order == Order::Asc ==> #[trigger] r.messages@[i]
                == all@[offset + i],
        forall|i: int|
            0 <= i < r.messages@.len() && order == Order::Desc ==> #[trigger] r.messages@[i]
                == all@[all@.len() - 1 - offset - i],
{
    page_holds_what_was_asked_for(
        r.messages@,
        r.total,
        r.has_more,
        all@,
        limit as int,
        offset as int,
        order,
    );
}

/// The last message of a session is the last one.
pub proof fn last_message_is_the_last(p: ParseResult, r: Option<ParsedMessage>)
    requires
        call_ensures(SessionReader::read_last_message, (Some(p),), r),
    ensures
        r is None <==> p.messages@.len() == 0,
        r is Some ==> r->0 == p.messages@[p.messages@.len() - 1],
{
}

/// A line on a tool begins with its sign and name; a tool that runs a command shows the command, one
/// that touches a file the file's name, one that looks for something the pattern, and any other
/// nothing more. No more than thirty characters are shown of it.
pub proof fn tool_line_shows_its_argument(
    style: PathStyle,
    name: &str,
    input: Option<&Json>,
    r: String,
    arg: Seq<char>,
)
    requires
        call_ensures(generate_tool_use_preview, (style, name, input), r),
        input is Some,
        arg.len() <= 30,
    ensures
        ({
            let v = json_view(*input->0);
            let head = "🔧 "@ + name@;
            &&& name@ == "Bash"@ && field(v, "command"@) == Some(JsonView::Text(arg)) ==> r@ == head
                + ": "@ + arg
            &&& (name@ == "Grep"@ || name@ == "Glob"@) && field(v, "pattern"@) == Some(
                JsonView::Text(arg),
            ) ==> r@ == head + ": "@ + arg
            &&& name@ != "Bash"@ && name@ != "Grep"@ && name@ != "Glob"@ && name@ != "Read"@
                && name@ != "Write"@ && name@ != "Edit"@ ==> r@ == head
        }),
{
    reveal_strlit("Bash");
    reveal_strlit("Grep");
    reveal_strlit("Glob");
    reveal_strlit("Read");
    reveal_strlit("Write");
    reveal_strlit("Edit");
    assert("Grep"@[0] == 'G' && "Glob"@[0] == 'G' && "Bash"@[0] == 'B' && "Read"@[0] == 'R'
        && "Write"@[0] == 'W' && "Edit"@[0] == 'E');
}

/// A tool that touches a file shows the name of the file, not the way to it.
pub proof fn tool_line_shows_the_file(
    name: &str,
    input: Option<&Json>,
    r: String,
    dir: Seq<char>,
    file: Seq<char>,
)
    requires
        call_ensures(generate_tool_use_preview, (PathStyle::Unix, name, input), r),
        input is Some,
        name@ == "Read"@ || name@ == "Write"@ || name@ == "Edit"@,
        field(json_view(*input->0), "file_path"@) == Some(JsonView::Text(dir.push('/') + file)),
        file_name_of(PathStyle::Unix, dir.push('/') + file) == Some(file),
    ensures
        file.len() <= 30 ==> r@ == "🔧 "@ + name@ + ": "@ + file,
        file.len() > 30 ==> r@ == "🔧 "@ + name@ + ": "@ + file.take(30) + "..."@,
{
    reveal_strlit("Bash");
    reveal_strlit("Read");
    reveal_strlit("Write");
    reveal_strlit("Edit");
    assert("Bash"@[0] == 'B' && "Read"@[0] == 'R' && "Write"@[0] == 'W' && "Edit"@[0] == 'E');
    assert("🔧 "@ + name@ + ": "@ + (file.take(30) + "..."@) =~= "🔧 "@ + name@ + ": "@ + file.take(
        30,
    ) + "..."@);
}

/// The preview of a message that the user wrote, or of an assistant's message of which nothing more is
/// kept, is the beginning of its text, and it always fits.
pub proof fn preview_begins_the_message(style: PathStyle, m: &ParsedMessage, r: String)
    requires
        call_ensures(generate_preview, (style, m), r),
    ensures
        r@.len() <= 100,
        m.content.text@.len() <= 100 && (m.message_type != MessageType::Assistant || m.raw is None)
            ==> r@ == m.content.text@,
        m.content.text@.len() > 100 && (m.message_type == MessageType::User || m.message_type
            == MessageType::Assistant && m.raw is None) ==> r@ == m.content.text@.take(97) + "..."@,
        m.content.text@.len() > 100 && m.message_type != MessageType::User && m.message_type
            != MessageType::Assistant ==> r@ == m.content.text@.take(100),
{
}

/// What a block gives to a preview: a text its text, a tool its line, and anything else nothing.
pub proof fn block_gives_its_text(style: PathStyle, block: JsonView, text: Seq<char>)
    ensures
        field(block, "type"@) == Some(JsonView::Text("text"@)) && field(block, "text"@) == Some(
            JsonView::Text(text),
        ) ==> block_line(style, block) == Some(text),
        field(block, "type"@) == Some(JsonView::Text("tool_use"@)) && field(block, "name"@) == Some(
            JsonView::Text(text),
        ) ==> block_line(style, block) == Some(tool_line(style, text, field(block, "input"@))),
        field(block, "type"@) == Some(JsonView::Text("tool_use"@)) && field(block, "name"@) is None
            ==> block_line(style, block) == Some(tool_line(style, "tool"@, field(block, "input"@))),
        field(block, "type"@) == Some(JsonView::Text("thinking"@)) ==> block_line(style, block)
            is None,
        field(block, "type"@) is None ==> block_line(style, block) is None,
{
    reveal_strlit("text");
    reveal_strlit("tool_use");
    reveal_strlit("thinking");
    reveal_strlit("");
    assert("text"@.len() == 4 && "tool_use"@.len() == 8 && "thinking"@.len() == 8 && ""@.len() == 0);
    assert("tool_use"@[1] != "thinking"@[1]);
}

/// The blocks of a message are gathered in their order with a space between; those that give nothing
/// leave no trace.
pub proof fn blocks_are_gathered_in_order(style: PathStyle, blocks: Seq<JsonView>, block: JsonView)
    ensures
        gathered(style, Seq::empty()).len() == 0,
        block_line(style, block) is None ==> gathered(style, blocks.push(block)) == gathered(
            style,
            blocks,
        ),
        block_line(style, block) is Some && gathered(style, blocks).len() > 0 ==> gathered(
            style,
            blocks.push(block),
        ) == gathered(style, blocks).push(' ') + block_line(style, block)->0,
        block_line(style, block) is Some && gathered(style, blocks).len() == 0 ==> gathered(
            style,
            blocks.push(block),
        ) == block_line(style, block)->0,
{
    assert(blocks.push(block).drop_last() =~= blocks);
}

/// The preview of blocks is what they gave, as far as it fits; where they gave nothing the preview says
/// that there is thought, or that the message is empty where anything but thought was in it.
pub proof fn preview_shows_what_blocks_gave(style: PathStyle, blocks: &Vec<Json>, r: String)
    requires
        call_ensures(generate_preview_from_content_blocks, (style, blocks), r),
    ensures
        r@.len() <= 100,
        ({
            let given = gathered(style, json_views(blocks@));
            &&& 0 < given.len() <= 100 ==> r@ == given
            &&& given.len() > 100 ==> r@ == given.take(97) + "..."@
            &&& given.len() == 0 && (exists|i: int|
                0 <= i < blocks@.len() && field(#[trigger] json_views(blocks@)[i], "type"@)
                    is None) ==> r@ == "（空消息）"@
            &&& given.len() == 0 && (forall|i: int|
                0 <= i < blocks@.len() ==> field(#[trigger] json_views(blocks@)[i], "type"@)
                    == Some(JsonView::Text("thinking"@))) ==> r@ == "💭 思考中..."@
        }),
{
    reveal_strlit("thinking");
    reveal_strlit("");
    let all = json_views(blocks@);
    assert(all.len() == blocks@.len());
    assert(""@.len() != "thinking"@.len());
    if exists|i: int| 0 <= i < all.len() && field(#[trigger] all[i], "type"@) is None {
        let i = choose|i: int| 0 <= i < all.len() && field(#[trigger] all[i], "type"@) is None;
        assert(block_kind(all[i]) == ""@);
    }
}

/// An assistant's message whose blocks cannot be read shows its text.
pub proof fn unread_message_shows_its_text(style: PathStyle, raw: &str, text: &str, r: String)
    requires
        call_ensures(generate_assistant_preview, (style, raw, text), r),
        json_of_text(raw@) is None || field(json_of_text(raw@)->0, "message"@) is None,
    ensures
        text@.len() <= 100 ==> r@ == text@,
        text@.len() > 100 ==> r@ == text@.take(97) + "..."@,
{
}

/// A session that is listed with its last message shows who wrote it, its preview and its time, and is
/// otherwise as it was; without one it is as it was.
pub proof fn last_message_is_shown(
    style: PathStyle,
    s: SessionMeta,
    m: ParsedMessage,
    preview: String,
    r: SessionMeta,
    q: SessionMeta,
)
    requires
        call_ensures(with_last_message, (style, s, &Some(m)), r),
        call_ensures(with_last_message, (style, s, &None::<ParsedMessage>), q),
        call_ensures(generate_preview, (style, &m), preview),
    ensures
        q == s,
        r.id == s.id && r.project_path == s.project_path && r.file_mtime == s.file_mtime,
        r.session_path == s.session_path && r.encoded_dir_name == s.encoded_dir_name,
        r.last_message_preview is Some && r.last_message_preview->0@ == preview@,
        r.last_message_type is Some,
        m.message_type == MessageType::User ==> r.last_message_type->0@ == "user"@,
        m.message_type == MessageType::Assistant ==> r.last_message_type->0@ == "assistant"@,
        m.timestamp is None ==> r.last_message_at is None,
        m.timestamp is Some && rfc3339_millis(m.timestamp->0@) is Some ==> r.last_message_at
            == rfc3339_millis(m.timestamp->0@),
{
}

/// The lines of a file are read one by one: a blank one and one that is no value are passed over, any
/// other is a message more; and a line that cannot be read ends the reading.
pub proof fn lines_are_read_one_by_one(lines: Seq<Option<String>>, line: String)
    ensures
        json_lines(Seq::empty()) == Some(Seq::<JsonView>::empty()),
        json_lines(lines.push(None)) is None,
        json_lines(lines) is None ==> json_lines(lines.push(Some(line))) is None,
        json_lines(lines) is Some && trimmed(line@).len() == 0 ==> json_lines(lines.push(Some(line)))
            == json_lines(lines),
        json_lines(lines) is Some && json_of_text(line@) is None ==> json_lines(
            lines.push(Some(line)),
        ) == json_lines(lines),
        json_lines(lines) is Some && trimmed(line@).len() > 0 && json_of_text(line@) is Some
            ==> json_lines(lines.push(Some(line))) == Some(
            json_lines(lines)->0.push(json_of_text(line@)->0),
        ),
{
    assert(lines.push(Some(line)).drop_last() =~= lines);
    assert(lines.push(None).drop_last() =~= lines);
    assert(json_lines(Seq::empty())->0 =~= Seq::<JsonView>::empty());
}

/// A value has the fields that it was written with: the first of a name is the one that is found.
pub proof fn first_field_of_a_name_is_found(
    members: Seq<(Seq<char>, JsonView)>,
    key: Seq<char>,
    v: JsonView,
    other: Seq<char>,
)
    ensures
        field(JsonView::Object(seq![(key, v)] + members), key) == Some(v),
        other != key ==> field(JsonView::Object(seq![(other, v)] + members), key) == field(
            JsonView::Object(members),
            key,
        ),
        field(JsonView::Object(Seq::empty()), key) is None,
        field(JsonView::Text(key), key) is None,
        field(JsonView::Null, key) is None,
{
    assert((seq![(key, v)] + members)[0] == (key, v));
    assert((seq![(other, v)] + members)[0] == (other, v));
    assert((seq![(other, v)] + members).drop_first() =~= members);
}

/// An assistant's message shows what the blocks of its content gave.
pub proof fn read_message_shows_its_blocks(
    style: PathStyle,
    raw: &str,
    text: &str,
    message: JsonView,
    blocks: Seq<JsonView>,
    r: String,
)
    requires
        call_ensures(generate_assistant_preview, (style, raw, text), r),
        json_of_text(raw@) is Some,
        field(json_of_text(raw@)->0, "message"@) == Some(message),
        field(message, "content"@) == Some(JsonView::Array(blocks)),
        0 < gathered(style, blocks).len() <= 100,
    ensures
        r@ == gathered(style, blocks),
{
}

/// The lines of a file are read a page at a time; a file with a line that cannot be read is not read.
pub proof fn page_of_lines_is_read(
    lines: &Vec<Option<String>>,
    limit: usize,
    offset: usize,
    order: Order,
    r: Option<RawMessagesResult>,
)
    requires
        call_ensures(SessionReader::read_messages_raw, (lines, limit, offset, order), r),
    ensures
        r is Some <==> json_lines(lines@) is Some,
        r is Some ==> {
            let all = json_lines(lines@)->0;
            &&& r->0.total == all.len()
            &&& r->0.has_more <==> offset + limit < all.len()
            &&& offset + limit <= all.len() ==> r->0.messages@.len() == limit
            &&& forall|i: int|
                0 <= i < r->0.messages@.len() && order == Order::Asc
                    ==> #[trigger] json_views(r->0.messages@)[i] == all[offset + i]
            &&& forall|i: int|
                0 <= i < r->0.messages@.len() && order == Order::Desc
                    ==> #[trigger] json_views(r->0.messages@)[i] == all[all.len() - 1 - offset - i]
        },
{
    if r is Some {
        assert(json_views(r->0.messages@).len() == r->0.messages@.len());
        page_holds_what_was_asked_for(
            json_views(r->0.messages@),
            r->0.total,
            r->0.has_more,
            json_lines(lines@)->0,
            limit as int,
            offset as int,
            order,
        );
    }
}

/// A text that is cut keeps its beginning, with three dots behind it; one that fits is not cut.
pub proof fn cut_text_keeps_its_beginning(s: &str, n: usize, r: String, t: String)
    requires
        call_ensures(crate::reader::truncate_chars, (s, n), r),
        call_ensures(crate::reader::shorten, (s,), t),
    ensures
        s@.len() <= n ==> r@ == s@,
        s@.len() > n ==> r@ == s@.take(n as int) + "..."@,
        s@.len() <= 100 ==> t@ == s@,
        s@.len() > 100 ==> t@ == s@.take(97) + "..."@,
{
}

} // verus!
