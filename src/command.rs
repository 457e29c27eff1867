use vstd::prelude::*;

use crate::error::SgrError;
use crate::text::{chars_of, same_text};

verus! {

/// The commands of the program; `Run` is the one taken without a command word.
#[allow(clippy::upper_case_acronyms)]
#[derive(Clone, Copy, Debug, PartialEq, Eq, Structural)]
pub enum CMD {
    Run,
    Add,
    Remove,
    List,
    Help,
    Version,
}

/// The command that a word names, if any; `Run` has no word.
pub open spec fn command_named(word: Seq<char>) -> Option<CMD> {
    if word == seq!['a', 'd', 'd'] {
        Some(CMD::Add)
    } else if word == seq!['r', 'e', 'm', 'o', 'v', 'e'] {
        Some(CMD::Remove)
    } else if word == seq!['l', 'i', 's', 't'] {
        Some(CMD::List)
    } else if word == seq!['h', 'e', 'l', 'p'] {
        Some(CMD::Help)
    } else if word == seq!['v', 'e', 'r', 's', 'i', 'o', 'n'] {
        Some(CMD::Version)
    } else {
        None
    }
}

fn is_word(v: &Vec<char>, word: &str) -> (r: bool)
    ensures
        r == (v@ == word@),
{
    let w = chars_of(word);
    same_text(v, &w)
}

/// The command that `command` names, or `UnknownCommand`.
pub fn to_command(command: &str) -> (r: Result<CMD, SgrError>)
    ensures
        command_named(command@) matches Some(c) ==> r == Ok::<CMD, SgrError>(c),
        command_named(command@) is None ==> (r matches Err(SgrError::UnknownCommand { command: w })
            && w@ == command@),
{
    let v = chars_of(command);
    proof {
        reveal_strlit("add");
        reveal_strlit("remove");
        reveal_strlit("list");
        reveal_strlit("help");
        reveal_strlit("version");
    }
    if is_word(&v, "add") {
        assert("add"@ =~= seq!['a', 'd', 'd']);
        Ok(CMD::Add)
    } else if is_word(&v, "remove") {
        assert("remove"@ =~= seq!['r', 'e', 'm', 'o', 'v', 'e']);
        Ok(CMD::Remove)
    } else if is_word(&v, "list") {
        assert("list"@ =~= seq!['l', 'i', 's', 't']);
        Ok(CMD::List)
    } else if is_word(&v, "help") {
        assert("help"@ =~= seq!['h', 'e', 'l', 'p']);
        Ok(CMD::Help)
    } else if is_word(&v, "version") {
        assert("version"@ =~= seq!['v', 'e', 'r', 's', 'i', 'o', 'n']);
        Ok(CMD::Version)
    } else {
        assert("add"@ =~= seq!['a', 'd', 'd']);
        assert("remove"@ =~= seq!['r', 'e', 'm', 'o', 'v', 'e']);
        assert("list"@ =~= seq!['l', 'i', 's', 't']);
        assert("help"@ =~= seq!['h', 'e', 'l', 'p']);
        assert("version"@ =~= seq!['v', 'e', 'r', 's', 'i', 'o', 'n']);
        Err(SgrError::UnknownCommand { command: String::from_str(command) })
    }
}

/// Reads the command line (program name first): no command word runs the
/// chooser; otherwise the word must name a command, and the word after it, if
/// any, is its argument. Words after that are not used.
pub fn parse_args(raw_args: &[String]) -> (r: Result<(CMD, Option<String>), SgrError>)
    ensures
        raw_args@.len() < 2 ==> r == Ok::<(CMD, Option<String>), SgrError>((CMD::Run, None)),
        raw_args@.len() >= 2 && command_named(raw_args@[1]@) is None ==> (r matches Err(
            SgrError::UnknownCommand { command: w },
        ) && w@ == raw_args@[1]@),
        raw_args@.len() >= 2 && command_named(raw_args@[1]@) is Some ==> r is Ok && r->Ok_0.0
            == command_named(raw_args@[1]@)->Some_0 && (if raw_args@.len() > 2 {
            r->Ok_0.1 is Some && r->Ok_0.1->Some_0@ == raw_args@[2]@
        } else {
            r->Ok_0.1 is None
        }),
{
    if raw_args.len() < 2 {
        return Ok((CMD::Run, None));
    }
    let cmd = match to_command(raw_args[1].as_str()) {
        Ok(cmd) => cmd,
        Err(e) => return Err(e),
    };
    let arg = if raw_args.len() > 2 {
        Some(raw_args[2].clone())
    } else {
        None
    };
    Ok((cmd, arg))
}

/// The words of the command line past the command's argument, which are not used.
pub fn unused_args(raw_args: &[String]) -> (r: Vec<String>)
    ensures
        raw_args@.len() <= 3 ==> r@.len() == 0,
        raw_args@.len() > 3 ==> r@.len() == raw_args@.len() - 3 && forall|i: int|
            0 <= i < r@.len() ==> (#[trigger] r@[i])@ == raw_args@[i + 3]@,
{
    let mut out: Vec<String> = Vec::new();
    let mut i: usize = 3;
    while i < raw_args.len()
        invariant
            3 <= i,
            i <= raw_args@.len() || raw_args@.len() < 3,
            raw_args@.len() > 3 ==> out@.len() == i - 3,
            raw_args@.len() <= 3 ==> out@.len() == 0,
            forall|j: int| 0 <= j < out@.len() ==> (#[trigger] out@[j])@ == raw_args@[j + 3]@,
        decreases raw_args@.len() - i,
    {
        out.push(raw_args[i].clone());
        i = i + 1;
    }
    out
}

} // verus!
