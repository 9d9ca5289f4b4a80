//! What the agent does when a session file changes.
use vstd::prelude::*;
use crate::paths;
use crate::paths::{extension_of, file_name_of, stem_of, PathStyle};
use crate::protocol::Event;
use crate::text::{holds_text, views};

verus! {

/// Whether a path has one of the extensions.
pub open spec fn has_extension(style: PathStyle, path: Seq<char>, extensions: Seq<Seq<char>>) -> bool {
    match file_name_of(style, path) {
        Some(name) => match extension_of(name) {
            Some(e) => extensions.contains(e),
            None => false,
        },
        None => false,
    }
}

/// Whether a changed file is one that sessions are read from.
pub fn handle_file_change(style: PathStyle, path: &str, supported_extensions: &Vec<String>) -> (r: bool)
    ensures
        r == has_extension(style, path@, views(supported_extensions@)),
{
    match paths::extension(style, path) {
        Some(e) => holds_text(supported_extensions, e.as_str()),
        None => false,
    }
}

/// The session whose file stands at the path: the name of the file without its extension.
pub open spec fn session_of_path(style: PathStyle, path: Seq<char>) -> Seq<char> {
    match file_name_of(style, path) {
        Some(name) => stem_of(name),
        None => Seq::empty(),
    }
}

/// What subscribers are told once a file has been collected: nothing, unless there were new
/// messages.
pub fn trigger_collect(
    style: PathStyle,
    path: &str,
    messages_inserted: usize,
    new_message_ids: Vec<i64>,
) -> (r: Option<Event>)
    ensures
        match r {
            Some(Event::NewMessages { session_id, path: p, count, message_ids }) => {
                &&& messages_inserted > 0
                &&& session_id@ == session_of_path(style, path@)
                &&& p@ == path@
                &&& count == messages_inserted
                &&& message_ids == new_message_ids
            },
            Some(_) => false,
            None => messages_inserted == 0,
        },
{
    if messages_inserted == 0 {
        return None;
    }
    let session_id = match paths::file_stem(style, path) {
        Some(s) => s,
        None => String::new(),
    };
    assert(session_id@ =~= session_of_path(style, path@));
    Some(
        Event::NewMessages {
            session_id,
            path: path.to_owned(),
            count: messages_inserted,
            message_ids: new_message_ids,
        },
    )
}

} // verus!
