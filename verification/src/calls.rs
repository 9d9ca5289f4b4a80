//! The calls of the C interface: what each is handed, and what it asks for. An
//! argument that is missing is told before one that cannot be read.
use vstd::prelude::*;
use crate::config::{ConnectionMode, DbConfig};
use crate::coordination::{Role, WriterType};
use crate::db::MessageInput;
use crate::ffi::{
    escape_fts5_query,
    first_fault,
    holds_nul,
    is_message_from_c,
    messages_from_c,
    optional,
    optional_limit,
    quoted_phrase,
    role_code,
    writer_type_of,
    FfiError,
    MessageIn,
    SearchOrderByC,
};
use crate::paths::PathStyle;
use crate::reader::{compute_session_path, session_path_of, SessionReader};
use crate::search::{
    search_fts,
    search_fts_full,
    search_fts_with_options,
    search_fts_with_project,
    SearchRequest,
};
use crate::types::SearchOrderBy;

verus! {

/// A string as C hands it over.
#[derive(Debug, Clone)]
pub enum CText {
    Null,
    NotUtf8,
    Text(String),
}

/// What a string that must be there says, where nothing else that must be there is missing.
pub open spec fn required(missing: bool, a: CText) -> Result<Seq<char>, FfiError> {
    if missing || a is Null {
        Err(FfiError::NullPointer)
    } else {
        match a {
            CText::Text(s) => Ok(s@),
            _ => Err(FfiError::InvalidUtf8),
        }
    }
}

/// A result, with the text that it holds.
pub open spec fn shown(r: Result<String, FfiError>) -> Result<Seq<char>, FfiError> {
    match r {
        Ok(s) => Ok(s@),
        Err(e) => Err(e),
    }
}

/// A string that must be there, where nothing else that must be there is missing. A session that is
/// written, scanned, or whose messages are listed, a call of a tool that is decided on, and a
/// session file that is parsed are named by one.
pub fn required_text(missing: bool, a: CText) -> (r: Result<String, FfiError>)
    ensures
        shown(r) == required(missing, a),
{
    match a {
        CText::Null => Err(FfiError::NullPointer),
        CText::NotUtf8 => if missing {
            Err(FfiError::NullPointer)
        } else {
            Err(FfiError::InvalidUtf8)
        },
        CText::Text(s) => if missing {
            Err(FfiError::NullPointer)
        } else {
            Ok(s)
        },
    }
}

/// The store to open: the one at the path, or the usual one where there is no path.
pub fn session_db_connect(missing: bool, path: CText, url: Option<String>) -> (r: Result<
    DbConfig,
    FfiError,
>)
    ensures
        if missing {
            r == Err::<DbConfig, FfiError>(FfiError::NullPointer)
        } else {
            match path {
                CText::Null => r is Ok && exists|style: PathStyle, home: Option<Seq<char>>| #[trigger]
                    (r->Ok_0).is_store(style, url, home),
                CText::NotUtf8 => r == Err::<DbConfig, FfiError>(FfiError::InvalidUtf8),
                CText::Text(s) => r is Ok && r->Ok_0 == (DbConfig { url: s, mode: ConnectionMode::Local }),
            }
        },
{
    if missing {
        return Err(FfiError::NullPointer);
    }
    match path {
        CText::Null => Ok(DbConfig::from_env(url)),
        CText::NotUtf8 => Err(FfiError::InvalidUtf8),
        CText::Text(s) => Ok(DbConfig::local(s)),
    }
}

/// The kind of process that wants to write.
pub fn session_db_register_writer(missing: bool, writer_type: i32) -> (r: Result<
    WriterType,
    FfiError,
>)
    ensures
        r == if missing {
            Err::<WriterType, FfiError>(FfiError::NullPointer)
        } else {
            match writer_type {
                0 => Ok(WriterType::MemexDaemon),
                1 => Ok(WriterType::VlaudeDaemon),
                2 => Ok(WriterType::MemexKit),
                3 => Ok(WriterType::VlaudeKit),
                _ => Err(FfiError::Unknown),
            }
        },
{
    if missing {
        Err(FfiError::NullPointer)
    } else {
        writer_type_of(writer_type)
    }
}

/// How a call on the competition for writing ends.
pub fn coordination_outcome<T, E>(reply: Result<T, E>) -> (r: Result<T, FfiError>)
    ensures
        r == match reply {
            Ok(t) => Ok::<T, FfiError>(t),
            Err(_) => Err(FfiError::CoordinationError),
        },
{
    match reply {
        Ok(t) => Ok(t),
        Err(_) => Err(FfiError::CoordinationError),
    }
}

/// What a registration that collects tells: the number of the role, and whether there is anything
/// to collect, which a writer alone does.
pub fn session_db_register_writer_and_collect<E>(reply: Result<Role, E>) -> (r: Result<
    (i32, bool),
    FfiError,
>)
    ensures
        r == match reply {
            Ok(Role::Writer) => Ok::<(i32, bool), FfiError>((0i32, true)),
            Ok(Role::Reader) => Ok((1i32, false)),
            Err(_) => Err(FfiError::CoordinationError),
        },
{
    match coordination_outcome(reply) {
        Ok(role) => Ok((role_code(role), role == Role::Writer)),
        Err(e) => Err(e),
    }
}

/// How a call that only reads the store ends.
pub fn database_outcome<T, E>(reply: Result<T, E>) -> (r: Result<T, FfiError>)
    ensures
        r == match reply {
            Ok(t) => Ok::<T, FfiError>(t),
            Err(_) => Err(FfiError::DatabaseError),
        },
{
    match reply {
        Ok(t) => Ok(t),
        Err(_) => Err(FfiError::DatabaseError),
    }
}

/// A project as C names it.
#[derive(Debug, Clone)]
pub struct ProjectNamed {
    pub name: String,
    pub path: String,
    pub source: String,
}

/// The project to write.
pub fn session_db_upsert_project(missing: bool, name: CText, path: CText, source: CText) -> (r:
    Result<ProjectNamed, FfiError>)
    ensures
        match r {
            Ok(p) => {
                &&& !missing
                &&& name == CText::Text(p.name)
                &&& path == CText::Text(p.path)
                &&& source == CText::Text(p.source)
            },
            Err(e) => if missing || name is Null || path is Null || source is Null {
                e == FfiError::NullPointer
            } else {
                &&& e == FfiError::InvalidUtf8
                &&& name is NotUtf8 || path is NotUtf8 || source is NotUtf8
            },
        },
{
    if missing {
        return Err(FfiError::NullPointer);
    }
    match (name, path, source) {
        (CText::Text(name), CText::Text(path), CText::Text(source)) => Ok(
            ProjectNamed { name, path, source },
        ),
        (CText::Null, _, _) => Err(FfiError::NullPointer),
        (_, CText::Null, _) => Err(FfiError::NullPointer),
        (_, _, CText::Null) => Err(FfiError::NullPointer),
        _ => Err(FfiError::InvalidUtf8),
    }
}

/// The session and the messages to write into it.
pub fn session_db_insert_messages(missing: bool, session_id: CText, messages: Vec<MessageIn>) -> (r:
    Result<(String, Vec<MessageInput>), FfiError>)
    ensures
        match required(missing, session_id) {
            Err(e) => r == Err::<(String, Vec<MessageInput>), FfiError>(e),
            Ok(id) => match r {
                Ok((s, v)) => {
                    &&& s@ == id
                    &&& first_fault(messages@) is None
                    &&& v@.len() == messages@.len()
                    &&& forall|i: int|
                        0 <= i < v@.len() ==> is_message_from_c(#[trigger] v@[i], messages@[i])
                },
                Err(e) => first_fault(messages@) == Some(e),
            },
        },
{
    match required_text(missing, session_id) {
        Err(e) => Err(e),
        Ok(id) => match messages_from_c(messages) {
            Ok(v) => Ok((id, v)),
            Err(e) => Err(e),
        },
    }
}

/// Whether `r` is a search for a query as one phrase; a negative number sets no bound.
pub open spec fn is_search(
    r: SearchRequest,
    query: Seq<char>,
    limit: usize,
    project_id: int,
    order: SearchOrderBy,
    start: int,
    end: int,
) -> bool {
    &&& r.query@ == quoted_phrase(query)
    &&& r.limit == limit
    &&& r.project_id == if project_id >= 0 {
        Some(project_id as i64)
    } else {
        None
    }
    &&& r.order_by == order
    &&& r.start_timestamp == if start >= 0 {
        Some(start as i64)
    } else {
        None
    }
    &&& r.end_timestamp == if end >= 0 {
        Some(end as i64)
    } else {
        None
    }
    &&& r.session_ids@.len() == 0
}

/// Whether `r` is a search as asked for, or says why there is none.
pub open spec fn answers_search(
    r: Result<SearchRequest, FfiError>,
    asked: Result<Seq<char>, FfiError>,
    limit: usize,
    project_id: int,
    order: SearchOrderBy,
    start: int,
    end: int,
) -> bool {
    match asked {
        Ok(q) => r is Ok && is_search(r->Ok_0, q, limit, project_id, order, start, end),
        Err(e) => r == Err::<SearchRequest, FfiError>(e),
    }
}

/// The order that C asks for.
pub open spec fn order_of(order_by: SearchOrderByC) -> SearchOrderBy {
    match order_by {
        SearchOrderByC::Score => SearchOrderBy::Score,
        SearchOrderByC::TimeDesc => SearchOrderBy::TimeDesc,
        SearchOrderByC::TimeAsc => SearchOrderBy::TimeAsc,
    }
}

/// A search of everything.
pub fn session_db_search_fts(missing: bool, query: CText, limit: usize) -> (r: Result<
    SearchRequest,
    FfiError,
>)
    ensures
        answers_search(
            r,
            required(missing, query),
            limit,
            -1,
            SearchOrderBy::Score,
            -1,
            -1,
        ),
{
    match required_text(missing, query) {
        Ok(q) => Ok(search_fts(escape_fts5_query(q.as_str()).as_str(), limit)),
        Err(e) => Err(e),
    }
}

/// A search of a project, or of everything where its number is negative.
pub fn session_db_search_fts_with_project(
    missing: bool,
    query: CText,
    limit: usize,
    project_id: i64,
) -> (r: Result<SearchRequest, FfiError>)
    ensures
        answers_search(
            r,
            required(missing, query),
            limit,
            project_id as int,
            SearchOrderBy::Score,
            -1,
            -1,
        ),
{
    match required_text(missing, query) {
        Ok(q) => Ok(
            search_fts_with_project(
                escape_fts5_query(q.as_str()).as_str(),
                limit,
                optional(project_id),
            ),
        ),
        Err(e) => Err(e),
    }
}

/// A search of a project, or of everything where its number is negative, in the order asked for.
pub fn session_db_search_fts_with_options(
    missing: bool,
    query: CText,
    limit: usize,
    project_id: i64,
    order_by: SearchOrderByC,
) -> (r: Result<SearchRequest, FfiError>)
    ensures
        answers_search(
            r,
            required(missing, query),
            limit,
            project_id as int,
            order_of(order_by),
            -1,
            -1,
        ),
{
    match required_text(missing, query) {
        Ok(q) => Ok(
            search_fts_with_options(
                escape_fts5_query(q.as_str()).as_str(),
                limit,
                optional(project_id),
                SearchOrderBy::from(order_by),
            ),
        ),
        Err(e) => Err(e),
    }
}

/// A search within some time of a project, or of everything where its number is negative, in the
/// order asked for. A time that is negative sets no bound.
pub fn session_db_search_fts_full(
    missing: bool,
    query: CText,
    limit: usize,
    project_id: i64,
    order_by: SearchOrderByC,
    start_timestamp: i64,
    end_timestamp: i64,
) -> (r: Result<SearchRequest, FfiError>)
    ensures
        answers_search(
            r,
            required(missing, query),
            limit,
            project_id as int,
            order_of(order_by),
            start_timestamp as int,
            end_timestamp as int,
        ),
{
    match required_text(missing, query) {
        Ok(q) => Ok(
            search_fts_full(
                escape_fts5_query(q.as_str()).as_str(),
                limit,
                optional(project_id),
                SearchOrderBy::from(order_by),
                optional(start_timestamp),
                optional(end_timestamp),
            ),
        ),
        Err(e) => Err(e),
    }
}

/// The directory of the projects: the one named, or where none is named the tool's own in the home
/// directory.
pub open spec fn projects_dir_of(
    projects_path: CText,
    style: PathStyle,
    home: Option<Seq<char>>,
    tool: Seq<char>,
) -> Result<Seq<char>, FfiError> {
    match projects_path {
        CText::Null => match home {
            Some(h) => Ok(SessionReader::default_path(style, h, tool)),
            None => Err(FfiError::Unknown),
        },
        CText::NotUtf8 => Err(FfiError::InvalidUtf8),
        CText::Text(s) => Ok(s@),
    }
}

/// A home directory, as far as there is one.
pub open spec fn home_of(home: Option<&str>) -> Option<Seq<char>> {
    match home {
        Some(h) => Some(h@),
        None => None,
    }
}

/// Whether a reader is one that has seen nothing yet of the projects below a directory.
pub open spec fn is_fresh(reader: SessionReader, style: PathStyle, dir: Seq<char>) -> bool {
    &&& reader.style == style
    &&& reader.projects_path@ == dir
    &&& reader.encoded_dir_cache@ == Seq::<(String, String)>::empty()
}

/// A reader of the projects below the directory named, or below the tool's own in the home
/// directory.
fn reader_of(projects_path: CText, style: PathStyle, home: Option<&str>, tool: &str) -> (r: Result<
    SessionReader,
    FfiError,
>)
    ensures
        match projects_dir_of(projects_path, style, home_of(home), tool@) {
            Ok(dir) => r is Ok && is_fresh(r->Ok_0, style, dir),
            Err(e) => r == Err::<SessionReader, FfiError>(e),
        },
{
    match projects_path {
        CText::Null => match home {
            Some(h) => Ok(SessionReader::in_home(style, h, tool)),
            None => Err(FfiError::Unknown),
        },
        CText::NotUtf8 => Err(FfiError::InvalidUtf8),
        CText::Text(s) => Ok(SessionReader::in_style(style, s)),
    }
}

/// The reader that lists the projects, and how many it lists at most; zero is no bound.
pub fn session_db_list_file_projects(
    missing: bool,
    projects_path: CText,
    limit: u32,
    style: PathStyle,
    home: Option<&str>,
    tool: &str,
) -> (r: Result<(SessionReader, Option<usize>), FfiError>)
    ensures
        if missing {
            r == Err::<(SessionReader, Option<usize>), FfiError>(FfiError::NullPointer)
        } else {
            match projects_dir_of(projects_path, style, home_of(home), tool@) {
                Ok(dir) => {
                    &&& r is Ok
                    &&& is_fresh((r->Ok_0).0, style, dir)
                    &&& (r->Ok_0).1 == if limit > 0 {
                        Some(limit as usize)
                    } else {
                        None
                    }
                },
                Err(e) => r == Err::<(SessionReader, Option<usize>), FfiError>(e),
            }
        },
{
    if missing {
        return Err(FfiError::NullPointer);
    }
    match reader_of(projects_path, style, home, tool) {
        Ok(reader) => Ok((reader, optional_limit(limit))),
        Err(e) => Err(e),
    }
}

/// What a listing of sessions asks for: the directory of the projects, and the one project whose
/// sessions are listed, where one is named.
pub open spec fn listing_of(
    missing: bool,
    projects_path: CText,
    project_path: CText,
    style: PathStyle,
    home: Option<Seq<char>>,
    tool: Seq<char>,
) -> Result<(Seq<char>, Option<Seq<char>>), FfiError> {
    if missing {
        Err(FfiError::NullPointer)
    } else {
        match projects_dir_of(projects_path, style, home, tool) {
            Ok(dir) => match project_path {
                CText::Null => Ok((dir, None)),
                CText::NotUtf8 => Err(FfiError::InvalidUtf8),
                CText::Text(p) => Ok((dir, Some(p@))),
            },
            Err(e) => Err(e),
        }
    }
}

/// Whether `r` is a reader and a project as asked for, or says why there is none.
pub open spec fn answers_listing(
    r: Result<(SessionReader, Option<String>), FfiError>,
    style: PathStyle,
    asked: Result<(Seq<char>, Option<Seq<char>>), FfiError>,
) -> bool {
    match asked {
        Ok((dir, project)) => {
            &&& r is Ok
            &&& is_fresh((r->Ok_0).0, style, dir)
            &&& match (r->Ok_0).1 {
                Some(p) => project == Some(p@),
                None => project is None,
            }
        },
        Err(e) => r == Err::<(SessionReader, Option<String>), FfiError>(e),
    }
}

/// The reader that lists the sessions, and the one project whose sessions it lists, where one is
/// named.
pub fn session_db_list_session_metas(
    missing: bool,
    projects_path: CText,
    project_path: CText,
    style: PathStyle,
    home: Option<&str>,
    tool: &str,
) -> (r: Result<(SessionReader, Option<String>), FfiError>)
    ensures
        answers_listing(
            r,
            style,
            listing_of(missing, projects_path, project_path, style, home_of(home), tool@),
        ),
{
    if missing {
        return Err(FfiError::NullPointer);
    }
    match reader_of(projects_path, style, home, tool) {
        Ok(reader) => match project_path {
            CText::Null => Ok((reader, None)),
            CText::NotUtf8 => Err(FfiError::InvalidUtf8),
            CText::Text(p) => Ok((reader, Some(p))),
        },
        Err(e) => Err(e),
    }
}

/// The reader that lists the sessions of the project whose latest is looked for, which must be
/// named.
pub fn session_db_find_latest_session(
    missing: bool,
    projects_path: CText,
    project_path: CText,
    style: PathStyle,
    home: Option<&str>,
    tool: &str,
) -> (r: Result<(SessionReader, Option<String>), FfiError>)
    ensures
        answers_listing(
            r,
            style,
            listing_of(
                missing || project_path is Null,
                projects_path,
                project_path,
                style,
                home_of(home),
                tool@,
            ),
        ),
{
    let unnamed = match &project_path {
        CText::Null => true,
        _ => false,
    };
    session_db_list_session_metas(missing || unnamed, projects_path, project_path, style, home, tool)
}

/// The reader that is asked about something named, where it is named and the directory of the
/// projects is known.
fn asks_reader(
    projects_path: CText,
    named: CText,
    style: PathStyle,
    home: Option<&str>,
    tool: &str,
) -> (r: Option<(SessionReader, String)>)
    ensures
        match (required(false, named), projects_dir_of(projects_path, style, home_of(home), tool@)) {
            (Ok(n), Ok(dir)) => r is Some && is_fresh((r->0).0, style, dir) && (r->0).1@ == n,
            _ => r is None,
        },
{
    match required_text(false, named) {
        Ok(n) => match reader_of(projects_path, style, home, tool) {
            Ok(reader) => Some((reader, n)),
            Err(_) => None,
        },
        Err(_) => None,
    }
}

/// The reader that looks for the file of a session, and the session.
pub fn session_db_get_session_path(
    projects_path: CText,
    session_id: CText,
    style: PathStyle,
    home: Option<&str>,
    tool: &str,
) -> (r: Option<(SessionReader, String)>)
    ensures
        match (required(false, session_id), projects_dir_of(projects_path, style, home_of(home), tool@)) {
            (Ok(n), Ok(dir)) => r is Some && is_fresh((r->0).0, style, dir) && (r->0).1@ == n,
            _ => r is None,
        },
{
    asks_reader(projects_path, session_id, style, home, tool)
}

/// The reader that looks for the directory of a project, and the project.
pub fn session_db_get_encoded_dir_name(
    projects_path: CText,
    project_path: CText,
    style: PathStyle,
    home: Option<&str>,
    tool: &str,
) -> (r: Option<(SessionReader, String)>)
    ensures
        match (required(false, project_path), projects_dir_of(projects_path, style, home_of(home), tool@)) {
            (Ok(n), Ok(dir)) => r is Some && is_fresh((r->0).0, style, dir) && (r->0).1@ == n,
            _ => r is None,
        },
{
    asks_reader(projects_path, project_path, style, home, tool)
}

/// The path of a session file, where all that it is made of is known and C can hold it.
pub fn session_db_compute_session_path(
    projects_path: CText,
    encoded_dir_name: CText,
    session_id: CText,
    style: PathStyle,
    home: Option<&str>,
    tool: &str,
) -> (r: Option<String>)
    ensures
        match (
            required(false, encoded_dir_name),
            required(false, session_id),
            projects_dir_of(projects_path, style, home_of(home), tool@),
        ) {
            (Ok(name), Ok(id), Ok(dir)) => if session_path_of(style, dir, name, id).contains('\0') {
                r is None
            } else {
                r is Some && (r->0)@ == session_path_of(style, dir, name, id)
            },
            _ => r is None,
        },
{
    match (required_text(false, encoded_dir_name), required_text(false, session_id)) {
        (Ok(name), Ok(id)) => match reader_of(projects_path, style, home, tool) {
            Ok(reader) => {
                let path = compute_session_path(
                    style,
                    reader.projects_path.as_str(),
                    name.as_str(),
                    id.as_str(),
                );
                if holds_nul(path.as_str()) {
                    None
                } else {
                    Some(path)
                }
            },
            Err(_) => None,
        },
        _ => None,
    }
}

/// The session file whose messages are read, and the directory of the tool's projects.
pub fn session_db_read_session_messages(
    missing: bool,
    session_path: CText,
    style: PathStyle,
    home: Option<&str>,
    tool: &str,
) -> (r: Result<(String, SessionReader), FfiError>)
    ensures
        match required(missing, session_path) {
            Ok(path) => match home {
                Some(h) => {
                    &&& r is Ok
                    &&& (r->Ok_0).0@ == path
                    &&& is_fresh((r->Ok_0).1, style, SessionReader::default_path(style, h@, tool@))
                },
                None => r == Err::<(String, SessionReader), FfiError>(FfiError::Unknown),
            },
            Err(e) => r == Err::<(String, SessionReader), FfiError>(e),
        },
{
    match required_text(missing, session_path) {
        Ok(path) => match home {
            Some(h) => Ok((path, SessionReader::in_home(style, h, tool))),
            None => Err(FfiError::Unknown),
        },
        Err(e) => Err(e),
    }
}

/// Whether all sessions are collected: nothing is missing, and the store may be written.
pub fn session_db_collect(missing: bool, is_writer: bool) -> (r: Result<(), FfiError>)
    ensures
        r == if missing {
            Err::<(), FfiError>(FfiError::NullPointer)
        } else if !is_writer {
            Err(FfiError::PermissionDenied)
        } else {
            Ok(())
        },
{
    if missing {
        Err(FfiError::NullPointer)
    } else if !is_writer {
        Err(FfiError::PermissionDenied)
    } else {
        Ok(())
    }
}

/// The session file that is collected, where nothing is missing and the store may be written.
pub fn session_db_collect_by_path(missing: bool, path: CText, is_writer: bool) -> (r: Result<
    String,
    FfiError,
>)
    ensures
        shown(r) == if missing || path is Null {
            Err(FfiError::NullPointer)
        } else if !is_writer {
            Err(FfiError::PermissionDenied)
        } else {
            required(missing, path)
        },
{
    let unnamed = match &path {
        CText::Null => true,
        _ => false,
    };
    match session_db_collect(missing || unnamed, is_writer) {
        Ok(_) => required_text(false, path),
        Err(e) => Err(e),
    }
}

} // verus!
