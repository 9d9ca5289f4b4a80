//! What the machine and its user give: a home directory, how its paths are
//! written, and identifiers that nobody else has.
use vstd::prelude::*;
use crate::text::begins_with;

verus! {

/// `dirs::home_dir`: the home directory of the user, where there is one. It depends on the
/// environment, and nothing is claimed of it.
#[verifier::external_body]
pub(crate) fn home_dir() -> (r: Option<String>) {
    dirs::home_dir().map(|p| p.to_string_lossy().into_owned())
}

/// `std::path::is_separator`: whether a character separates the components of paths on this
/// machine, as a slash does on every one.
#[verifier::external_body]
pub(crate) fn is_separator(c: char) -> (r: bool)
    ensures
        c == '/' ==> r,
{
    std::path::is_separator(c)
}

/// A path behind a tilde, as it stands in a home directory.
pub open spec fn behind_tilde(home: Seq<char>, path: Seq<char>) -> Seq<char> {
    home + path.skip(1)
}

/// Whether a path came of another with the home directory for its tilde: it is the same path unless
/// that one is a tilde or begins with a tilde and a slash or backslash, and then either the same or
/// the path in some home directory.
pub open spec fn expands(path: Seq<char>, r: Seq<char>) -> bool {
    &&& path != "~"@ && !begins_with(path, "~/"@) && !begins_with(path, "~\\"@) ==> r == path
    &&& r == path || (exists|home: Seq<char>| r == #[trigger] behind_tilde(home, path))
}

/// `shellexpand::tilde`: a path that is a tilde, or begins with a tilde and a slash (on Windows
/// also a backslash), with the home directory for the tilde, or as it is where there is none; any
/// other path as it is. The home directory depends on the environment, and nothing is claimed of it.
#[verifier::external_body]
pub(crate) fn expand_tilde(path: &str) -> (r: String)
    ensures
        expands(path@, r@),
{
    shellexpand::tilde(path).into_owned()
}

/// Whether a character is a hexadecimal digit in lower case.
pub open spec fn is_hex(c: char) -> bool {
    '0' <= c <= '9' || 'a' <= c <= 'f'
}

/// Whether a text is a random identifier: digits in groups of 8, 4, 4, 4 and 12 with hyphens
/// between them, the third group beginning with a 4 and the fourth with one of 8, 9, a and b.
pub open spec fn is_random_id(s: Seq<char>) -> bool {
    &&& s.len() == 36
    &&& forall|i: int|
        0 <= i < 36 ==> if i == 8 || i == 13 || i == 18 || i == 23 {
            #[trigger] s[i] == '-'
        } else {
            is_hex(s[i])
        }
    &&& s[14] == '4'
    &&& s[19] == '8' || s[19] == '9' || s[19] == 'a' || s[19] == 'b'
}

/// `uuid::Uuid::new_v4` as text: a random identifier. Which one is left to chance, and so is that
/// the system has random bytes to give, without which there is no return.
#[verifier::external_body]
pub(crate) fn new_id() -> (r: String)
    ensures
        is_random_id(r@),
{
    uuid::Uuid::new_v4().to_string()
}

} // verus!
