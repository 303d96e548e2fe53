//! File-system paths as text, resolved by the rules of `std::path`.
//!
//! What counts as absolute, what separates components and how two paths join
//! are the platform's business: `std::path` decides, behind the trusted items
//! below, and the names stand for its answers on the target the crate is
//! built for.

use crate::text::starts_with_char;
use std::path::Path;
use vstd::prelude::*;

verus! {

/// Whether `std::path` takes the path for absolute.
pub uninterp spec fn path_is_absolute(path: Seq<char>) -> bool;

/// The path that `std::path` makes of `path` appended to `base`.
pub uninterp spec fn path_join(base: Seq<char>, path: Seq<char>) -> Seq<char>;

/// The path without its final component, as `std::path` sees it; `None` where
/// the path ends in a root or is empty.
pub uninterp spec fn path_parent(path: Seq<char>) -> Option<Seq<char>>;

/// Whether `std::path` takes the character for a separator of components.
pub uninterp spec fn is_path_separator(c: char) -> bool;

/// Specifies `std::path::is_separator`.
pub assume_specification[ std::path::is_separator ](c: char) -> (r: bool)
    ensures
        r == is_path_separator(c),
;

/// Calls `Path::is_absolute` on the path that the text names.
#[verifier::external_body]
pub(crate) fn is_absolute(path: &str) -> (r: bool)
    ensures
        r == path_is_absolute(path@),
{
    Path::new(path).is_absolute()
}

/// Calls `Path::join` on the paths that the two texts name.
#[verifier::external_body]
pub(crate) fn join(base: &str, path: &str) -> (r: String)
    ensures
        r@ == path_join(base@, path@),
{
    Path::new(base).join(path).to_string_lossy().into_owned()
}

/// Calls `Path::parent` on the path that the text names.
#[verifier::external_body]
pub(crate) fn parent(path: &str) -> (r: Option<String>)
    ensures
        match r {
            Some(dir) => path_parent(path@) == Some(dir@),
            None => path_parent(path@) is None,
        },
{
    match Path::new(path).parent() {
        Some(dir) => Some(dir.to_string_lossy().into_owned()),
        None => None,
    }
}

/// Where a path that may be relative to `base` points: itself where it is
/// absolute, else `base` joined with it.
pub open spec fn resolved_relative(base: Seq<char>, path: Seq<char>) -> Seq<char> {
    if path_is_absolute(path) {
        path
    } else {
        path_join(base, path)
    }
}

/// Resolve `path` against `base` unless it is absolute.
pub fn resolve_relative(base: &str, path: &str) -> (r: String)
    ensures
        r@ == resolved_relative(base@, path@),
{
    if is_absolute(path) {
        path.to_owned()
    } else {
        join(base, path)
    }
}

/// Whether a command names a file rather than a program to look up on the
/// search path: it holds a path separator or begins with a dot.
pub open spec fn names_a_file(command: Seq<char>) -> bool {
    ||| exists|i: int| 0 <= i < command.len() && is_path_separator(#[trigger] command[i])
    ||| (command.len() > 0 && command[0] == '.')
}

/// The program that a manifest's command stands for: a relative command that
/// names a file is taken relative to the manifest's directory, every other
/// command as it is.
pub open spec fn resolved_command(manifest_dir: Seq<char>, command: Seq<char>) -> Seq<char> {
    if !path_is_absolute(command) && names_a_file(command) {
        path_join(manifest_dir, command)
    } else {
        command
    }
}

/// Whether a path separator stands anywhere in the text.
fn has_separator(text: &str) -> (r: bool)
    ensures
        r == (exists|i: int| 0 <= i < text@.len() && is_path_separator(#[trigger] text@[i])),
{
    let mut found = false;
    for c in it: text.chars()
        invariant
            it.seq() == text@,
            found == (exists|k: int|
                0 <= k < it.index() && is_path_separator(#[trigger] it.seq()[k])),
    {
        if std::path::is_separator(c) {
            found = true;
        }
    }
    found
}

/// Whether a command names a file: see [`names_a_file`].
pub fn command_names_a_file(command: &str) -> (r: bool)
    ensures
        r == names_a_file(command@),
{
    has_separator(command) || starts_with_char(command, '.')
}

/// Resolve the command of a manifest entry to the program to launch.
pub fn resolve_command(manifest_dir: &str, command: &str) -> (r: String)
    ensures
        r@ == resolved_command(manifest_dir@, command@),
{
    if is_absolute(command) {
        command.to_owned()
    } else if command_names_a_file(command) {
        join(manifest_dir, command)
    } else {
        command.to_owned()
    }
}

} // verus!
