//! Short labels for file paths.

use vstd::prelude::*;

use crate::text::pieces;

verus! {

/// The last component of a path split at `/`, skipping the empty and `.`
/// components, which name no file.
pub open spec fn last_component(parts: Seq<Seq<char>>) -> Option<Seq<char>>
    decreases parts.len(),
{
    if parts.len() == 0 {
        None
    } else if parts.last().len() == 0 || parts.last() == seq!['.'] {
        last_component(parts.drop_last())
    } else {
        Some(parts.last())
    }
}

/// The file name of a Unix path: its last normal component, and none when
/// the path ends in `..` or has no normal component (`/`, `.`, the empty
/// path).
pub open spec fn file_name_of(path: Seq<char>) -> Option<Seq<char>> {
    match last_component(pieces(path, '/')) {
        Some(name) => if name == seq!['.', '.'] {
            None
        } else {
            Some(name)
        },
        None => None,
    }
}

/// `std::path::Path::file_name` on a Unix target, converted back to a
/// `String` (a name cut out of a `&str` is always valid UTF-8).
#[verifier::external_body]
fn path_file_name(path: &str) -> (name: Option<String>)
    ensures
        match name {
            Some(n) => file_name_of(path@) == Some(n@),
            None => file_name_of(path@) is None,
        },
{
    std::path::Path::new(path).file_name().and_then(|name| name.to_str()).map(str::to_owned)
}

/// The label a pane shows for `path`: its file name, or the whole path when
/// it has none.
pub fn file_label(path: &str) -> (label: String)
    ensures
        label@ == match file_name_of(path@) {
            Some(name) => name,
            None => path@,
        },
{
    match path_file_name(path) {
        Some(name) => name,
        None => path.to_owned(),
    }
}

} // verus!
