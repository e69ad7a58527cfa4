//! File names: their extension, and a form of them that is safe to store.

use crate::text::{alphanumeric, is_alphanumeric, lowercased, push_char, text, to_lowercase};
use vstd::prelude::*;

verus! {

/// What `Path::extension` finds in `path`: the part of the file name after
/// its last dot, where the path has a file name and that name has a dot
/// that is not its first character.
pub uninterp spec fn extension_of(path: Seq<char>) -> Option<Seq<char>>;

/// `Path::extension` of the standard library, on a path given as text.
///
/// Trusted: the result is the named function of the path.
#[verifier::external_body]
pub(crate) fn path_extension(path: &str) -> (extension: Option<String>)
    ensures
        text(extension) == extension_of(path@),
{
    match std::path::Path::new(path).extension() {
        Some(extension) => Some(extension.to_string_lossy().into_owned()),
        None => None,
    }
}

/// The extension of a path in lower case.
pub open spec fn lower_extension(path: Seq<char>) -> Option<Seq<char>> {
    match extension_of(path) {
        Some(extension) => Some(lowercased(extension)),
        None => None,
    }
}

/// What stands for `c` in a sanitized name: `c` itself if it is a letter, a
/// digit, a dot, a hyphen or an underscore, and an underscore otherwise.
pub open spec fn sanitized(c: char) -> char {
    if alphanumeric(c) || c == '.' || c == '-' || c == '_' {
        c
    } else {
        '_'
    }
}

/// The extension of the file that `path` names, in lower case.
pub fn get_file_extension(path: &str) -> (extension: Option<String>)
    ensures
        text(extension) == lower_extension(path@),
{
    match path_extension(path) {
        Some(extension) => Some(to_lowercase(extension.as_str())),
        None => None,
    }
}

/// The name with every character that is not a letter, a digit, a dot, a
/// hyphen or an underscore turned into an underscore.
pub fn sanitize_filename(filename: &str) -> (name: String)
    ensures
        name@ == filename@.map_values(|c: char| sanitized(c)),
{
    broadcast use vstd::string::group_string_axioms;

    let ghost target = filename@.map_values(|c: char| sanitized(c));
    let mut name = String::new();
    for c in it: filename.chars()
        invariant
            it.seq() == filename@,
            target == filename@.map_values(|c: char| sanitized(c)),
            name@ == target.take(it.index()),
    {
        let keep = is_alphanumeric(c) || c == '.' || c == '-' || c == '_';
        assert(target.take(it.index() + 1) == target.take(it.index()).push(sanitized(c)));
        if keep {
            push_char(&mut name, c);
        } else {
            push_char(&mut name, '_');
        }
    }
    assert(target.take(target.len() as int) == target);
    name
}

} // verus!
