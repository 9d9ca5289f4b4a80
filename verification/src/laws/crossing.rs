//! What holds of the interface to C.
use vstd::prelude::*;
use crate::calls;
use crate::calls::CText;
use crate::client::ffi::{agent_client_create, request_code, ClientState};
use crate::client::connect::ClientConfig;
use crate::collector::CollectResult;
use crate::coordination::{Role, WriterHealth, WriterType};
use crate::db::MessageInput;
use crate::error::Error;
use crate::ffi;
use crate::ffi::{
    checkpoint_code, export_collect_result, export_messages, export_project_infos,
    export_projects, export_registration_result, export_search_results, export_session_metas,
    export_sessions, find_latest_session, first_fault, health_code, info_fits_c, infos_for_c,
    map_error, message_type_code, messages_from_c, meta_fits_c, metas_for_c, optional,
    optional_limit, parsed_message_fits_c, parsed_messages_for_c, read_session_messages,
    role_code, writer_type_of, CollectResultOut, FfiError, MessageIn, MessageOut, MessagesPage,
    ProjectInfoOut, SearchOrderByC, SessionMetaOut, SessionOut,
};
use crate::paths::PathStyle;
use crate::reader::{ProjectInfo, SessionReader};
use crate::search::SearchRequest;
use crate::config::{ConnectionMode, DbConfig};
use crate::session::{IndexableSession, ParsedMessage, SessionMeta};
use crate::text::{joined, views};
use crate::types::{Message, MessageType, Project, SearchOrderBy, SearchResult, Session};

verus! {

/// A text that is required is taken as it is; one that is missing, or no text, has an error of its own.
pub proof fn required_text_is_taken(missing: bool, a: CText, r: Result<String, FfiError>)
    requires
        call_ensures(calls::required_text, (missing, a), r),
    ensures
        missing || a is Null ==> r == Err::<String, FfiError>(FfiError::NullPointer),
        !missing && a is NotUtf8 ==> r == Err::<String, FfiError>(FfiError::InvalidUtf8),
        !missing && a is Text ==> r is Ok && r->Ok_0@ == a->Text_0@,
{
}

/// Errors keep their kind: who may not write is told so, and what went wrong between writers is told
/// apart from what went wrong in the store.
pub proof fn errors_keep_their_kind(e: &Error, r: FfiError)
    requires
        call_ensures(map_error, (e,), r),
    ensures
        r is PermissionDenied <==> e is PermissionDenied,
        r is CoordinationError <==> e is Coordination,
        !(e is PermissionDenied) && !(e is Coordination) ==> r is DatabaseError,
{
}

/// The numbers of the kinds of writers, roles and states of health tell them apart.
pub proof fn codes_tell_apart(
    kinds: (
        Result<WriterType, FfiError>,
        Result<WriterType, FfiError>,
        Result<WriterType, FfiError>,
        Result<WriterType, FfiError>,
    ),
    other: (i32, Result<WriterType, FfiError>),
    roles: (i32, i32),
    health: (i32, i32, i32),
)
    requires
        call_ensures(writer_type_of, (0i32,), kinds.0),
        call_ensures(writer_type_of, (1i32,), kinds.1),
        call_ensures(writer_type_of, (2i32,), kinds.2),
        call_ensures(writer_type_of, (3i32,), kinds.3),
        other.0 < 0 || other.0 > 3,
        call_ensures(writer_type_of, (other.0,), other.1),
        call_ensures(role_code, (Role::Writer,), roles.0),
        call_ensures(role_code, (Role::Reader,), roles.1),
        call_ensures(health_code, (WriterHealth::Alive,), health.0),
        call_ensures(health_code, (WriterHealth::Timeout,), health.1),
        call_ensures(health_code, (WriterHealth::Released,), health.2),
    ensures
        kinds.0 == Ok::<WriterType, FfiError>(WriterType::MemexDaemon),
        kinds.1 == Ok::<WriterType, FfiError>(WriterType::VlaudeDaemon),
        kinds.2 == Ok::<WriterType, FfiError>(WriterType::MemexKit),
        kinds.3 == Ok::<WriterType, FfiError>(WriterType::VlaudeKit),
        other.1 is Err,
        roles == (0i32, 1i32),
        health == (0i32, 1i32, 2i32),
{
}

/// A negative number stands for none, and so does a limit of zero.
pub proof fn none_has_its_number(n: i64, a: Option<i64>, limit: u32, b: Option<usize>)
    requires
        call_ensures(optional, (n,), a),
        call_ensures(optional_limit, (limit,), b),
    ensures
        n < 0 ==> a is None,
        n >= 0 ==> a == Some(n),
        limit == 0 ==> b is None,
        limit > 0 ==> b == Some(limit as usize),
{
}

proof fn lemma_first_fault(messages: Seq<MessageIn>)
    ensures
        first_fault(messages) is None <==> forall|i: int|
            0 <= i < messages.len() ==> {
                &&& (#[trigger] messages[i]).uuid is Some
                &&& messages[i].content is Some
                &&& 0 <= messages[i].role <= 2
            },
    decreases messages.len(),
{
    if messages.len() > 0 {
        let d = messages.drop_first();
        lemma_first_fault(d);
        assert forall|i: int| 0 < i < messages.len() implies #[trigger] messages[i] == d[i - 1] by {}
        if first_fault(messages) is None {
            assert forall|i: int| 0 <= i < messages.len() implies {
                &&& (#[trigger] messages[i]).uuid is Some
                &&& messages[i].content is Some
                &&& 0 <= messages[i].role <= 2
            } by {
                if i > 0 {
                    assert(messages[i] == d[i - 1]);
                }
            }
        } else if ffi::fault_of_message(messages[0]) is None {
            let k = choose|k: int|
                0 <= k < d.len() && !({
                    &&& (#[trigger] d[k]).uuid is Some
                    &&& d[k].content is Some
                    &&& 0 <= d[k].role <= 2
                });
            assert(messages[k + 1] == d[k]);
        }
    }
}

/// Messages are taken from C all together or not at all: each with its uuid and content, the role by its
/// number, and time and place as given.
pub proof fn messages_come_in_whole(messages: Vec<MessageIn>, r: Result<Vec<MessageInput>, FfiError>)
    requires
        call_ensures(messages_from_c, (messages,), r),
    ensures
        r is Ok <==> forall|i: int|
            0 <= i < messages@.len() ==> {
                &&& (#[trigger] messages@[i]).uuid is Some
                &&& messages@[i].content is Some
                &&& 0 <= messages@[i].role <= 2
            },
        r is Ok ==> {
            &&& r->Ok_0@.len() == messages@.len()
            &&& forall|i: int|
                0 <= i < messages@.len() ==> {
                    let m = #[trigger] r->Ok_0@[i];
                    &&& m.uuid == messages@[i].uuid->0
                    &&& m.content_full == messages@[i].content->0
                    &&& m.content_text == messages@[i].content->0
                    &&& m.timestamp == messages@[i].timestamp
                    &&& m.sequence == messages@[i].sequence
                    &&& messages@[i].role == 0 <==> m.message_type == MessageType::User
                    &&& messages@[i].role == 1 <==> m.message_type == MessageType::Assistant
                    &&& messages@[i].role == 2 <==> m.message_type == MessageType::Tool
                }
        },
{
    lemma_first_fault(messages@);
}

/// Messages are handed to C all together, unless one of them holds what C cannot: each with its id, its
/// session, its full content, its role by number, its time and its place.
pub proof fn messages_go_out_whole(messages: Vec<Message>, r: Result<Vec<MessageOut>, FfiError>)
    requires
        call_ensures(export_messages, (messages,), r),
    ensures
        r is Ok <==> forall|i: int|
            0 <= i < messages@.len() ==> {
                &&& !(#[trigger] messages@[i]).session_id@.contains('\0')
                &&& !messages@[i].uuid@.contains('\0')
                &&& !messages@[i].content_full@.contains('\0')
            },
        r is Ok ==> {
            &&& r->Ok_0@.len() == messages@.len()
            &&& forall|i: int|
                0 <= i < messages@.len() ==> {
                    let m = #[trigger] r->Ok_0@[i];
                    &&& m.id == messages@[i].id
                    &&& m.session_id == messages@[i].session_id
                    &&& m.uuid == messages@[i].uuid
                    &&& m.content == messages@[i].content_full
                    &&& m.timestamp == messages@[i].timestamp
                    &&& m.sequence == messages@[i].sequence
                    &&& m.role == 0 <==> messages@[i].message_type == MessageType::User
                    &&& m.role == 1 <==> messages@[i].message_type == MessageType::Assistant
                    &&& m.role == 2 <==> messages@[i].message_type == MessageType::Tool
                    &&& m.role == 3 <==> messages@[i].message_type == MessageType::System
                }
        },
{
    if r is Ok {
        assert forall|i: int| 0 <= i < messages@.len() implies {
            &&& !(#[trigger] messages@[i]).session_id@.contains('\0')
            &&& !messages@[i].uuid@.contains('\0')
            &&& !messages@[i].content_full@.contains('\0')
        } by {
            assert(ffi::message_fits_c(messages@[i]));
        }
    } else {
        let k = choose|k: int|
            0 <= k < messages@.len() && !ffi::message_fits_c(#[trigger] messages@[k]);
        assert(!({
            &&& !messages@[k].session_id@.contains('\0')
            &&& !messages@[k].uuid@.contains('\0')
            &&& !messages@[k].content_full@.contains('\0')
        }));
    }
}

/// Sessions are handed to C with their counts and times; a time that is not known is below zero.
pub proof fn sessions_go_out_whole(sessions: Vec<Session>, r: Result<Vec<SessionOut>, FfiError>)
    requires
        call_ensures(export_sessions, (sessions,), r),
        r is Ok,
    ensures
        r->Ok_0@.len() == sessions@.len(),
        forall|i: int|
            0 <= i < sessions@.len() ==> {
                let s = #[trigger] r->Ok_0@[i];
                &&& s.session_id == sessions@[i].session_id
                &&& s.project_id == sessions@[i].project_id
                &&& s.message_count == sessions@[i].message_count
                &&& sessions@[i].last_message_at is Some ==> s.last_message_at
                    == sessions@[i].last_message_at->0
                &&& sessions@[i].last_message_at is None ==> s.last_message_at == -1
                &&& s.created_at == sessions@[i].created_at
                &&& s.updated_at == sessions@[i].updated_at
            },
{
}

proof fn lemma_infos(projects: Seq<ProjectInfo>)
    requires
        forall|i: int| 0 <= i < projects.len() ==> info_fits_c(#[trigger] projects[i]),
    ensures
        infos_for_c(projects).len() == projects.len(),
        forall|i: int|
            0 <= i < projects.len() ==> #[trigger] infos_for_c(projects)[i] == ffi::info_for_c(
                projects[i],
            ),
    decreases projects.len(),
{
    if projects.len() > 0 {
        let d = projects.drop_last();
        assert forall|i: int| 0 <= i < d.len() implies info_fits_c(#[trigger] d[i]) by {
            assert(d[i] == projects[i]);
        }
        lemma_infos(d);
        assert(info_fits_c(projects[projects.len() - 1]));
    }
}

/// Projects that C can hold are handed to it one for one and in order; one that was never active has the
/// time zero.
pub proof fn projects_go_out_in_order(projects: Vec<ProjectInfo>, r: Vec<ProjectInfoOut>)
    requires
        call_ensures(export_project_infos, (projects,), r),
        forall|i: int|
            0 <= i < projects@.len() ==> {
                &&& !(#[trigger] projects@[i]).encoded_name@.contains('\0')
                &&& !projects@[i].path@.contains('\0')
                &&& !projects@[i].name@.contains('\0')
            },
    ensures
        r@.len() == projects@.len(),
        forall|i: int|
            0 <= i < r@.len() ==> {
                &&& (#[trigger] r@[i]).path == projects@[i].path
                &&& r@[i].name == projects@[i].name
                &&& r@[i].encoded_name == projects@[i].encoded_name
                &&& r@[i].session_count == projects@[i].session_count
                &&& projects@[i].last_active is Some ==> r@[i].last_active
                    == projects@[i].last_active->0
                &&& projects@[i].last_active is None ==> r@[i].last_active == 0
            },
{
    lemma_infos(projects@);
}

proof fn lemma_metas(sessions: Seq<SessionMeta>)
    requires
        forall|i: int| 0 <= i < sessions.len() ==> meta_fits_c(#[trigger] sessions[i]),
    ensures
        metas_for_c(sessions).len() == sessions.len(),
        forall|i: int|
            0 <= i < sessions.len() ==> #[trigger] metas_for_c(sessions)[i] == ffi::meta_for_c(
                sessions[i],
            ),
    decreases sessions.len(),
{
    if sessions.len() > 0 {
        let d = sessions.drop_last();
        assert forall|i: int| 0 <= i < d.len() implies meta_fits_c(#[trigger] d[i]) by {
            assert(d[i] == sessions[i]);
        }
        lemma_metas(d);
        assert(meta_fits_c(sessions[sessions.len() - 1]));
    }
}

/// Sessions that C can hold are handed to it one for one and in order; a time or a count that is not
/// known is below zero.
pub proof fn metas_go_out_in_order(sessions: Vec<SessionMeta>, r: Vec<SessionMetaOut>)
    requires
        call_ensures(export_session_metas, (sessions,), r),
        forall|i: int|
            0 <= i < sessions@.len() ==> {
                &&& !(#[trigger] sessions@[i]).id@.contains('\0')
                &&& !sessions@[i].project_path@.contains('\0')
            },
    ensures
        r@.len() == sessions@.len(),
        forall|i: int|
            0 <= i < r@.len() ==> {
                &&& (#[trigger] r@[i]).id == sessions@[i].id
                &&& r@[i].project_path == sessions@[i].project_path
                &&& sessions@[i].file_mtime is None ==> r@[i].file_mtime == -1
                &&& sessions@[i].file_mtime is Some ==> r@[i].file_mtime
                    == sessions@[i].file_mtime->0 as i64
                &&& sessions@[i].message_count is None ==> r@[i].message_count == -1
            },
{
    lemma_metas(sessions@);
}

/// The latest session is the first of the listing, unless it is older than asked for; zero seconds ask
/// for any age.
pub proof fn first_session_is_the_latest(
    sessions: Vec<SessionMetaOut>,
    within: u64,
    now: i64,
    r: Option<SessionMetaOut>,
)
    requires
        call_ensures(find_latest_session, (sessions, within, now), r),
        within * 1000 <= i64::MAX,
    ensures
        sessions@.len() == 0 ==> r is None,
        r is Some ==> r->0 == sessions@[0],
        sessions@.len() > 0 && within == 0 ==> r is Some,
        sessions@.len() > 0 && within > 0 && sessions@[0].file_mtime > 0 ==> (r is Some <==> now
            <= sessions@[0].file_mtime + within * 1000),
{
}

proof fn lemma_parsed(messages: Seq<ParsedMessage>)
    requires
        forall|i: int| 0 <= i < messages.len() ==> parsed_message_fits_c(#[trigger] messages[i]),
    ensures
        parsed_messages_for_c(messages).len() == messages.len(),
        forall|i: int|
            0 <= i < messages.len() ==> #[trigger] parsed_messages_for_c(messages)[i]
                == ffi::parsed_message_for_c(messages[i]),
    decreases messages.len(),
{
    if messages.len() > 0 {
        let d = messages.drop_last();
        assert forall|i: int| 0 <= i < d.len() implies parsed_message_fits_c(#[trigger] d[i]) by {
            assert(d[i] == messages[i]);
        }
        lemma_parsed(d);
        assert(parsed_message_fits_c(messages[messages.len() - 1]));
    }
}

/// A page of a session's messages, all of which C can hold: those behind the offset, as many as asked
/// for or all where zero are asked for, from the beginning or from the end; the total counts all, and
/// there is more exactly where messages follow behind the page.
pub proof fn page_goes_out_in_order(
    messages: Vec<ParsedMessage>,
    limit: usize,
    offset: usize,
    rising: bool,
    r: MessagesPage,
)
    requires
        call_ensures(read_session_messages, (Some(messages), limit, offset, rising), r),
        offset <= messages@.len(),
        forall|i: int|
            0 <= i < messages@.len() ==> {
                &&& !(#[trigger] messages@[i]).uuid@.contains('\0')
                &&& !messages@[i].session_id@.contains('\0')
                &&& !messages@[i].content.full@.contains('\0')
            },
    ensures
        r.total == messages@.len(),
        limit == 0 ==> r.messages@.len() == messages@.len() - offset,
        limit > 0 && offset + limit <= messages@.len() ==> r.messages@.len() == limit,
        limit > 0 && offset + limit > messages@.len() ==> r.messages@.len() == messages@.len()
            - offset,
        r.has_more <==> offset + r.messages@.len() < messages@.len(),
        forall|i: int|
            0 <= i < r.messages@.len() ==> {
                let m = if rising {
                    messages@[offset + i]
                } else {
                    messages@[messages@.len() - 1 - offset - i]
                };
                &&& (#[trigger] r.messages@[i]).uuid == m.uuid
                &&& r.messages@[i].content == m.content.full
                &&& r.messages@[i].session_id == m.session_id
            },
{
    let all = messages@;
    let ordered = crate::reader::in_order(
        all,
        if rising {
            crate::reader::Order::Asc
        } else {
            crate::reader::Order::Desc
        },
    );
    let n = all.len() as int;
    let part = ordered.subrange(
        ffi::c_page_start(n, offset as int),
        ffi::c_page_end(n, limit as int, offset as int),
    );
    assert forall|i: int| 0 <= i < part.len() implies parsed_message_fits_c(#[trigger] part[i]) by {
        let k = if rising {
            offset + i
        } else {
            n - 1 - offset - i
        };
        assert(part[i] == all[k]);
    }
    lemma_parsed(part);
}

/// What a collection did is told in numbers, with the first of its errors.
pub proof fn collection_is_told(result: CollectResult, r: CollectResultOut)
    requires
        call_ensures(export_collect_result, (result,), r),
    ensures
        r.projects_scanned == result.projects_scanned,
        r.sessions_scanned == result.sessions_scanned,
        r.messages_inserted == result.messages_inserted,
        r.error_count == result.errors@.len(),
        result.errors@.len() == 0 ==> r.first_error is None,
        result.errors@.len() > 0 && !result.errors@[0]@.contains('\0') ==> r.first_error is Some
            && r.first_error->0@ == result.errors@[0]@,
{
}

/// A search from C asks for what it is given: the order by its name, and project and times as far as they
/// are not below zero.
pub proof fn search_asks_for_what_is_given(
    query: CText,
    limit: usize,
    project_id: i64,
    order_by: SearchOrderByC,
    start: i64,
    end: i64,
    r: Result<SearchRequest, FfiError>,
)
    requires
        call_ensures(
            calls::session_db_search_fts_full,
            (false, query, limit, project_id, order_by, start, end),
            r,
        ),
        query is Text,
    ensures
        r is Ok,
        r->Ok_0.limit == limit,
        r->Ok_0.order_by == SearchOrderBy::TimeDesc <==> order_by is TimeDesc,
        r->Ok_0.order_by == SearchOrderBy::TimeAsc <==> order_by is TimeAsc,
        r->Ok_0.order_by == SearchOrderBy::Score <==> order_by is Score,
        project_id >= 0 ==> r->Ok_0.project_id == Some(project_id),
        project_id < 0 ==> r->Ok_0.project_id is None,
        start >= 0 ==> r->Ok_0.start_timestamp == Some(start),
        start < 0 ==> r->Ok_0.start_timestamp is None,
        end >= 0 ==> r->Ok_0.end_timestamp == Some(end),
        end < 0 ==> r->Ok_0.end_timestamp is None,
{
}

/// Only the writer collects.
pub proof fn only_the_writer_collects(
    missing: bool,
    writer: bool,
    path: CText,
    all: Result<(), FfiError>,
    one: Result<String, FfiError>,
)
    requires
        call_ensures(calls::session_db_collect, (missing, writer), all),
        call_ensures(calls::session_db_collect_by_path, (missing, path, writer), one),
    ensures
        all is Ok <==> !missing && writer,
        one is Ok <==> !missing && writer && path is Text,
        one is Ok ==> one->Ok_0@ == path->Text_0@,
        !missing && !writer ==> all == Err::<(), FfiError>(FfiError::PermissionDenied),
{
}

/// Every error has a number of its own, and success is zero.
pub proof fn error_numbers_tell_apart(a: &FfiError, b: &FfiError, na: i32, nb: i32)
    requires
        call_ensures(FfiError::code, (a,), na),
        call_ensures(FfiError::code, (b,), nb),
    ensures
        na == nb ==> *a == *b,
        na == 0 <==> *a is Success,
        *a is NullPointer ==> na == 1,
        *a is InvalidUtf8 ==> na == 2,
        *a is DatabaseError ==> na == 3,
        *a is CoordinationError ==> na == 4,
        *a is PermissionDenied ==> na == 5,
        *a is Unknown ==> na == 99,
{
}

/// The kinds of messages are told by number, in the order in which they are named.
pub proof fn message_kinds_have_numbers(
    user: i32,
    assistant: i32,
    tool: i32,
    system: i32,
)
    requires
        call_ensures(message_type_code, (MessageType::User,), user),
        call_ensures(message_type_code, (MessageType::Assistant,), assistant),
        call_ensures(message_type_code, (MessageType::Tool,), tool),
        call_ensures(message_type_code, (MessageType::System,), system),
    ensures
        user == 0 && assistant == 1 && tool == 2 && system == 3,
{
}

/// A checkpoint that is not there is below zero.
pub proof fn missing_checkpoint_is_below_zero(c: Option<i64>, r: i64)
    requires
        call_ensures(checkpoint_code, (c,), r),
    ensures
        c is None ==> r == -1,
        c is Some ==> r == c->0,
{
}

/// What a registration collected is told in numbers, with all of its errors in one text.
pub proof fn registration_is_told(result: CollectResult, r: CollectResultOut)
    requires
        call_ensures(export_registration_result, (result,), r),
    ensures
        r.projects_scanned == result.projects_scanned,
        r.sessions_scanned == result.sessions_scanned,
        r.messages_inserted == result.messages_inserted,
        r.error_count == result.errors@.len(),
        result.errors@.len() == 0 ==> r.first_error is None,
        r.first_error is Some ==> r.first_error->0@ == joined(views(result.errors@), "; "@),
{
}

/// A store is opened where it is said to be; without a place it is the usual one.
pub proof fn store_is_opened_where_it_is(
    path: CText,
    url: Option<String>,
    r: Result<DbConfig, FfiError>,
    none: Result<DbConfig, FfiError>,
)
    requires
        call_ensures(calls::session_db_connect, (false, path, url), r),
        call_ensures(calls::session_db_connect, (true, path, url), none),
    ensures
        path is Text ==> r is Ok && r->Ok_0.url@ == path->Text_0@ && r->Ok_0.mode
            == ConnectionMode::Local,
        path is NotUtf8 ==> r is Err,
        path is Null ==> r is Ok,
        path is Null && url is Some ==> r->Ok_0.url@ == url->0@,
        none is Err,
{
}

/// Whoever gained the writer's place collects, and whoever did not does not.
pub proof fn new_writer_collects(
    writer: Result<(i32, bool), FfiError>,
    reader: Result<(i32, bool), FfiError>,
)
    requires
        call_ensures(
            calls::session_db_register_writer_and_collect::<Error>,
            (Ok(Role::Writer),),
            writer,
        ),
        call_ensures(
            calls::session_db_register_writer_and_collect::<Error>,
            (Ok(Role::Reader),),
            reader,
        ),
    ensures
        writer is Ok && reader is Ok,
        (writer->Ok_0).1 && !(reader->Ok_0).1,
        (writer->Ok_0).0 == 0 && (reader->Ok_0).0 == 1,
{
}

/// A client is connected exactly from a connection that succeeded until it is closed, and only while it is
/// does it send.
pub proof fn connected_client_sends(
    c: &mut ClientState,
    d: &mut ClientState,
    state: &ClientState,
    error: Option<&str>,
    code: FfiError,
    gone: (),
    sent: Result<(), FfiError>,
    text: Result<String, FfiError>,
    a: CText,
)
    requires
        call_ensures(ClientState::agent_client_connect, (c, error), code),
        call_ensures(ClientState::agent_client_disconnect, (d,), gone),
        call_ensures(ClientState::agent_client_request, (state,), sent),
        call_ensures(ClientState::agent_client_notify_file_change, (state, false, a), text),
    ensures
        code is Success <==> error is None,
        error is None ==> final(c).connected && final(c).has_client,
        error is Some ==> *final(c) == *old(c),
        !final(d).connected && !final(d).has_client,
        sent is Ok <==> state.connected && state.has_client,
        text is Ok <==> state.connected && state.has_client && a is Text,
        text is Ok ==> text->Ok_0@ == a->Text_0@,
{
}

/// A request is told as done exactly where it was.
pub proof fn request_is_told_as_it_went(succeeded: bool, r: FfiError)
    requires
        call_ensures(request_code, (succeeded,), r),
    ensures
        r is Success <==> succeeded,
        !succeeded ==> r is RequestFailed,
{
}

/// A search that names neither order nor times asks for the best messages of any time; its query is one
/// phrase.
pub proof fn plain_search_asks_for_the_best(
    query: CText,
    limit: usize,
    project: i64,
    order: SearchOrderByC,
    a: Result<SearchRequest, FfiError>,
    b: Result<SearchRequest, FfiError>,
    c: Result<SearchRequest, FfiError>,
)
    requires
        call_ensures(calls::session_db_search_fts, (false, query, limit), a),
        call_ensures(calls::session_db_search_fts_with_project, (false, query, limit, project), b),
        call_ensures(
            calls::session_db_search_fts_with_options,
            (false, query, limit, project, order),
            c,
        ),
        query is Text,
    ensures
        a is Ok && b is Ok && c is Ok,
        a->Ok_0.limit == limit && b->Ok_0.limit == limit && c->Ok_0.limit == limit,
        a->Ok_0.project_id is None,
        project >= 0 ==> b->Ok_0.project_id == Some(project) && c->Ok_0.project_id == Some(project),
        project < 0 ==> b->Ok_0.project_id is None && c->Ok_0.project_id is None,
        a->Ok_0.order_by == SearchOrderBy::Score && b->Ok_0.order_by == SearchOrderBy::Score,
        order is TimeDesc ==> c->Ok_0.order_by == SearchOrderBy::TimeDesc,
        order is TimeAsc ==> c->Ok_0.order_by == SearchOrderBy::TimeAsc,
        a->Ok_0.start_timestamp is None && a->Ok_0.end_timestamp is None,
        a->Ok_0.query@ == ffi::quoted_phrase(query->Text_0@),
        b->Ok_0.query@ == a->Ok_0.query@ && c->Ok_0.query@ == a->Ok_0.query@,
{
}

/// Projects are listed where they are said to lie, and otherwise in the home directory; zero asks for all
/// of them.
pub proof fn projects_are_listed_where_they_lie(
    dir: CText,
    limit: u32,
    home: Option<&str>,
    tool: &str,
    r: Result<(SessionReader, Option<usize>), FfiError>,
)
    requires
        call_ensures(
            calls::session_db_list_file_projects,
            (false, dir, limit, PathStyle::Unix, home, tool),
            r,
        ),
    ensures
        dir is Text ==> r is Ok && (r->Ok_0).0.projects_path@ == dir->Text_0@,
        dir is NotUtf8 ==> r is Err,
        dir is Null && home is None ==> r is Err,
        dir is Null && home is Some ==> r is Ok,
        r is Ok && limit == 0 ==> (r->Ok_0).1 is None,
        r is Ok && limit > 0 ==> (r->Ok_0).1 == Some(limit as usize),
        r is Ok ==> (r->Ok_0).0.encoded_dir_cache@.len() == 0,
{
}

/// Sessions are listed of all projects where none is named, but the latest is always that of a project.
pub proof fn latest_session_needs_a_project(
    dir: CText,
    project: CText,
    home: Option<&str>,
    tool: &str,
    a: Result<(SessionReader, Option<String>), FfiError>,
    b: Result<(SessionReader, Option<String>), FfiError>,
)
    requires
        call_ensures(
            calls::session_db_list_session_metas,
            (false, dir, project, PathStyle::Unix, home, tool),
            a,
        ),
        call_ensures(
            calls::session_db_find_latest_session,
            (false, dir, project, PathStyle::Unix, home, tool),
            b,
        ),
        dir is Text,
    ensures
        project is Null ==> a is Ok && (a->Ok_0).1 is None,
        project is Null ==> b is Err,
        project is Text ==> a is Ok && (a->Ok_0).1 is Some && (a->Ok_0).1->0@ == project->Text_0@,
        project is Text ==> b is Ok && (b->Ok_0).1 is Some && (b->Ok_0).1->0@ == project->Text_0@,
        project is NotUtf8 ==> a is Err && b is Err,
        a is Ok ==> (a->Ok_0).0.projects_path@ == dir->Text_0@,
{
}

/// A project is written with the name, the path and the tool that are given, all of them texts.
pub proof fn project_is_written_as_given(
    name: CText,
    path: CText,
    source: CText,
    r: Result<calls::ProjectNamed, FfiError>,
)
    requires
        call_ensures(calls::session_db_upsert_project, (false, name, path, source), r),
    ensures
        r is Ok <==> name is Text && path is Text && source is Text,
        r is Ok ==> r->Ok_0.name@ == name->Text_0@ && r->Ok_0.path@ == path->Text_0@
            && r->Ok_0.source@ == source->Text_0@,
        name is Null || path is Null || source is Null ==> r == Err::<calls::ProjectNamed, FfiError>(
            FfiError::NullPointer,
        ),
{
}

/// Messages are written to the session that is named, all or none.
pub proof fn messages_are_written_to_their_session(
    id: CText,
    messages: Vec<MessageIn>,
    r: Result<(String, Vec<MessageInput>), FfiError>,
)
    requires
        call_ensures(calls::session_db_insert_messages, (false, id, messages), r),
    ensures
        id is Null ==> r is Err,
        id is NotUtf8 ==> r is Err,
        r is Ok ==> id is Text && (r->Ok_0).0@ == id->Text_0@ && (r->Ok_0).1@.len()
            == messages@.len(),
        r is Ok ==> forall|i: int|
            0 <= i < messages@.len() ==> messages@[i].uuid == Some((#[trigger] (r->Ok_0).1@[i]).uuid)
                && (r->Ok_0).1@[i].timestamp == messages@[i].timestamp && (r->Ok_0).1@[i].sequence
                == messages@[i].sequence,
{
}

/// Projects are handed to C all together and as they are, unless one holds what C cannot.
pub proof fn projects_go_out_whole(projects: Vec<Project>, r: Result<Vec<Project>, FfiError>)
    requires
        call_ensures(export_projects, (projects,), r),
    ensures
        r is Ok ==> r->Ok_0@ == projects@,
        r is Ok <==> forall|i: int|
            0 <= i < projects@.len() ==> {
                &&& !(#[trigger] projects@[i]).name@.contains('\0')
                &&& !projects@[i].path@.contains('\0')
                &&& !projects@[i].source@.contains('\0')
            },
{
    if r is Ok {
        assert forall|i: int| 0 <= i < projects@.len() implies {
            &&& !(#[trigger] projects@[i]).name@.contains('\0')
            &&& !projects@[i].path@.contains('\0')
            &&& !projects@[i].source@.contains('\0')
        } by {
            assert(ffi::project_fits_c(projects@[i]));
        }
    } else {
        let k = choose|k: int|
            0 <= k < projects@.len() && !ffi::project_fits_c(#[trigger] projects@[k]);
        assert(!({
            &&& !projects@[k].name@.contains('\0')
            &&& !projects@[k].path@.contains('\0')
            &&& !projects@[k].source@.contains('\0')
        }));
    }
}

/// Results of a search are handed to C in order; a time that is not known is below zero.
pub proof fn results_go_out_in_order(results: &Vec<SearchResult>, r: Result<Vec<i64>, FfiError>, i: int)
    requires
        call_ensures(export_search_results, (results,), r),
        r is Ok,
        0 <= i < results@.len(),
    ensures
        r->Ok_0@.len() == results@.len(),
        results@[i].timestamp is Some ==> r->Ok_0@[i] == results@[i].timestamp->0,
        results@[i].timestamp is None ==> r->Ok_0@[i] == -1,
{
}

/// A client is made for the component that is named, in the directory that is given.
pub proof fn client_is_made_as_given(
    component: CText,
    dir: CText,
    source: CText,
    version: &str,
    r: Result<ClientConfig, FfiError>,
)
    requires
        call_ensures(agent_client_create, (false, component, dir, source, version), r),
    ensures
        r is Ok <==> component is Text && !(dir is NotUtf8) && !(source is NotUtf8),
        r is Ok ==> r->Ok_0.component@ == component->Text_0@ && r->Ok_0.version@ == version@,
        r is Ok && dir is Text ==> r->Ok_0.data_dir@ == dir->Text_0@,
        r is Ok && source is Text ==> r->Ok_0.agent_source_dir is Some
            && r->Ok_0.agent_source_dir->0@ == source->Text_0@,
        r is Ok && source is Null ==> r->Ok_0.agent_source_dir is None,
{
}

/// A connection that failed for want of the agent's program is told apart from one that failed otherwise.
pub proof fn missing_agent_is_told_apart(c: &mut ClientState, error: &str, r: FfiError)
    requires
        call_ensures(ClientState::agent_client_connect, (c, Some(error)), r),
    ensures
        r is AgentNotFound <==> crate::text::occurs_in(error@, "Agent binary not found"@),
        !(r is AgentNotFound) ==> r is ConnectionFailed,
{
}

/// A session for the index is handed to C as it is, unless it holds what C cannot; one that is not there
/// is no failure.
pub proof fn session_for_the_index_goes_out_whole(
    s: IndexableSession,
    r: (Option<IndexableSession>, FfiError),
    none: (Option<IndexableSession>, FfiError),
    failed: (Option<IndexableSession>, FfiError),
    e: Error,
)
    requires
        call_ensures(ffi::export_indexable::<Error>, (Ok(Some(s)),), r),
        call_ensures(ffi::export_indexable::<Error>, (Ok(None),), none),
        call_ensures(ffi::export_indexable::<Error>, (Err(e),), failed),
    ensures
        r.0 is Some ==> r.0->0 == s,
        r.0 is Some <==> r.1 is Success,
        r.0 is Some <==> {
            &&& !s.session_id@.contains('\0')
            &&& !s.project_path@.contains('\0')
            &&& !s.project_name@.contains('\0')
            &&& forall|i: int|
                0 <= i < s.messages@.len() ==> !(#[trigger] s.messages@[i]).uuid@.contains('\0')
                    && !s.messages@[i].role@.contains('\0') && !s.messages@[i].content.full@.contains(
                    '\0',
                )
        },
        none.0 is None && none.1 is Success,
        failed.0 is None && failed.1 is DatabaseError,
{
    if r.0 is Some {
        assert forall|i: int| 0 <= i < s.messages@.len() implies !(#[trigger] s.messages@[i]).uuid@.contains(
            '\0',
        ) && !s.messages@[i].role@.contains('\0') && !s.messages@[i].content.full@.contains('\0') by {
            assert(ffi::indexed_message_fits_c(s.messages@[i]));
        }
    }
}

/// The raw text of a message goes to C where C can hold it.
pub proof fn raw_text_goes_out_where_it_can(
    messages: Vec<Message>,
    r: Result<Vec<MessageOut>, FfiError>,
    i: int,
)
    requires
        call_ensures(export_messages, (messages,), r),
        r is Ok,
        0 <= i < messages@.len(),
    ensures
        messages@[i].raw is None ==> r->Ok_0@[i].raw is None,
        messages@[i].raw is Some && messages@[i].raw->0@.contains('\0') ==> r->Ok_0@[i].raw is None,
        messages@[i].raw is Some && !messages@[i].raw->0@.contains('\0') ==> r->Ok_0@[i].raw
            == messages@[i].raw,
{
    assert(r->Ok_0@[i] == r->Ok_0@[i]);
}

} // verus!
