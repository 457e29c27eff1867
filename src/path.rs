use vstd::prelude::*;

use crate::error::SgrError;
use crate::text::{chars_of, has_prefix, same_text, starts_with, string_of, trim, trimmed};

verus! {

/// The prefix that marks a Windows verbatim path.
pub open spec fn verbatim_prefix() -> Seq<char> {
    seq!['\\', '\\', '?', '\\']
}

/// A canonical path as it is stored: without the verbatim prefix, if it has one.
pub open spec fn plain_path(s: Seq<char>) -> Seq<char> {
    if starts_with(s, verbatim_prefix()) {
        s.subrange(4, s.len() as int)
    } else {
        s
    }
}

/// Drops the Windows verbatim prefix `\\?\` from a canonical path, so that
/// stored paths are plain absolute paths.
pub fn strip_verbatim_prefix(path: &str) -> (r: String)
    ensures
        r@ == plain_path(path@),
{
    let v = chars_of(path);
    let mut prefix: Vec<char> = Vec::new();
    prefix.push('\\');
    prefix.push('\\');
    prefix.push('?');
    prefix.push('\\');
    assert(prefix@ =~= verbatim_prefix());
    if has_prefix(&v, &prefix) {
        string_of(&v, 4, v.len())
    } else {
        assert(v@.subrange(0, v@.len() as int) =~= v@);
        string_of(&v, 0, v.len())
    }
}

/// The error for a path that exists but is not a directory; the path is shown
/// without the verbatim prefix.
pub fn not_a_directory(path: &str) -> (r: SgrError)
    ensures
        r matches SgrError::NotADirectory { path: p } && p@ == plain_path(path@),
{
    SgrError::NotADirectory { path: strip_verbatim_prefix(path) }
}

/// The name that a git repository's own directory has.
pub open spec fn git_dir_name() -> Seq<char> {
    seq!['.', 'g', 'i', 't']
}

/// Whether a directory entry met during a scan is a git directory whose `HEAD`
/// is to be looked for: a directory named `.git`. The directory that holds it,
/// when it holds `HEAD`, is the root of a repository.
pub fn is_git_dir(name: &str, is_dir: bool) -> (r: bool)
    ensures
        r == (is_dir && name@ == git_dir_name()),
{
    if !is_dir {
        return false;
    }
    let v = chars_of(name);
    let mut git: Vec<char> = Vec::new();
    git.push('.');
    git.push('g');
    git.push('i');
    git.push('t');
    assert(git@ =~= git_dir_name());
    same_text(&v, &git)
}

/// The path that the chooser's output names: its text without surrounding
/// white space, or `SelectionCancelled` where the chooser did not succeed.
pub fn selected_path(success: bool, output: &str) -> (r: Result<String, SgrError>)
    ensures
        !success ==> r == Err::<String, SgrError>(SgrError::SelectionCancelled),
        success ==> r is Ok && r->Ok_0@ == trim(output@),
{
    if !success {
        return Err(SgrError::SelectionCancelled);
    }
    Ok(trimmed(output))
}

} // verus!
