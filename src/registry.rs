use vstd::prelude::*;

use crate::error::{CollisionKind, SgrError};
use crate::select::{checked_span, list_selector, line_span, listing_selector, Selector};
use crate::text::{
    chars_of, contains, decimal, eq_ignore_ascii_case, has_infix, has_prefix, lower_of, lowercase,
    push_decimal, push_zero_padded, same_ignoring_ascii_case, starts_with, trim, trimmed,
    zero_padded,
};

verus! {

/// The texts of a list of strings.
pub open spec fn texts(v: Seq<String>) -> Seq<Seq<char>> {
    v.map_values(|s: String| s@)
}

/// The ordered list of root directories that are searched for repositories,
/// one entry per line of the registry file.
pub struct Registry {
    pub lines: Vec<String>,
}

impl View for Registry {
    type V = Seq<Seq<char>>;

    open spec fn view(&self) -> Seq<Seq<char>> {
        texts(self.lines@)
    }
}

/// One row of a listing: the line number, zero-padded to two digits, then the entry.
pub open spec fn row_text(n: nat, entry: Seq<char>) -> Seq<char> {
    "| "@ + zero_padded(n, 2) + " | "@ + entry
}

/// The rows of lines `a..=b`, counted from 1.
pub open spec fn rows_between(entries: Seq<Seq<char>>, a: nat, b: nat) -> Seq<Seq<char>> {
    Seq::new((b + 1 - a) as nat, |j: int| row_text((a + j) as nat, entries[a + j - 1]))
}

/// The rows, among the first `upto` lines, whose key holds `pat`; each keeps
/// the number of its line.
pub open spec fn rows_matching(
    entries: Seq<Seq<char>>,
    keys: Seq<Seq<char>>,
    pat: Seq<char>,
    upto: nat,
) -> Seq<Seq<char>>
    decreases upto,
{
    if upto == 0 {
        Seq::empty()
    } else {
        let prev = rows_matching(entries, keys, pat, (upto - 1) as nat);
        if contains(keys[upto - 1], pat) {
            prev.push(row_text(upto, entries[upto - 1]))
        } else {
            prev
        }
    }
}

/// The lower case forms of the entries, against which a pattern is matched.
pub open spec fn lower_keys(entries: Seq<Seq<char>>) -> Seq<Seq<char>> {
    entries.map_values(|e: Seq<char>| lower_of(e))
}

/// What `list` shows for an argument: the rows it picks, or why it refuses.
pub open spec fn listing(entries: Seq<Seq<char>>, arg: Seq<char>) -> Result<
    Seq<Seq<char>>,
    SgrError,
> {
    match listing_selector(arg) {
        Err(f) => Err(SgrError::ParseFailed(f)),
        Ok(Selector::Text) => Ok(
            rows_matching(entries, lower_keys(entries), lower_of(arg), entries.len()),
        ),
        Ok(sel) => match checked_span(sel, entries.len()) {
            Ok((a, b)) => Ok(rows_between(entries, a, b)),
            Err(f) => Err(SgrError::OutOfRange(f)),
        },
    }
}

/// How a new directory with lower case form `path_key` overlaps an entry with
/// lower case form `entry_key`, if it does.
pub open spec fn collision_between(entry_key: Seq<char>, path_key: Seq<char>) -> Option<
    CollisionKind,
> {
    if same_ignoring_ascii_case(entry_key, path_key) {
        Some(CollisionKind::Exists)
    } else if starts_with(path_key, entry_key) {
        Some(CollisionKind::InsideEntry)
    } else if starts_with(entry_key, path_key) {
        Some(CollisionKind::ContainsEntry)
    } else {
        None
    }
}

/// How `path` overlaps the registry line `entry`, compared without white space
/// around the line and ignoring case. A line that names `path` the way
/// `remove` matches it is the directory itself.
pub open spec fn collision_of(entry: Seq<char>, path: Seq<char>) -> Option<CollisionKind> {
    if names_entry(entry, path) {
        Some(CollisionKind::Exists)
    } else {
        collision_between(lower_of(trim(entry)), lower_of(path))
    }
}

/// Line `i` is the first that `path` overlaps.
pub open spec fn first_collision(entries: Seq<Seq<char>>, path: Seq<char>, i: int) -> bool {
    &&& 0 <= i < entries.len()
    &&& collision_of(entries[i], path) is Some
    &&& forall|j: int| 0 <= j < i ==> collision_of(#[trigger] entries[j], path) is None
}

/// `path` overlaps no line of the registry.
pub open spec fn no_collision(entries: Seq<Seq<char>>, path: Seq<char>) -> bool {
    forall|i: int| 0 <= i < entries.len() ==> collision_of(#[trigger] entries[i], path) is None
}

/// The registry line `entry` names `path`: equal to it, ignoring the case of
/// ASCII letters, once white space around the line is dropped or as it stands.
pub open spec fn names_entry(entry: Seq<char>, path: Seq<char>) -> bool {
    same_ignoring_ascii_case(trim(entry), path) || same_ignoring_ascii_case(entry, path)
}

/// The registry without the lines that name `path`, the others in order.
pub open spec fn without(entries: Seq<Seq<char>>, path: Seq<char>) -> Seq<Seq<char>> {
    entries.filter(|e: Seq<char>| !names_entry(e, path))
}

/// Some line of the registry names `path`.
pub open spec fn holds_path(entries: Seq<Seq<char>>, path: Seq<char>) -> bool {
    exists|i: int| 0 <= i < entries.len() && names_entry(#[trigger] entries[i], path)
}

/// The registry file: each entry followed by a line break.
pub open spec fn file_text(entries: Seq<Seq<char>>) -> Seq<char>
    decreases entries.len(),
{
    if entries.len() == 0 {
        Seq::empty()
    } else {
        file_text(entries.drop_last()) + entries.last() + "\n"@
    }
}

/// Whether the registry line `line` names the directory `path`.
fn line_names(line: &str, path: &Vec<char>) -> (r: bool)
    ensures
        r == names_entry(line@, path@),
{
    let t = chars_of(trimmed(line).as_str());
    if eq_ignore_ascii_case(&t, path) {
        return true;
    }
    let whole = chars_of(line);
    eq_ignore_ascii_case(&whole, path)
}

/// How the lower case forms of an entry and of a new directory overlap.
pub fn collision_kind(entry_key: &str, path_key: &str) -> (r: Option<CollisionKind>)
    ensures
        r == collision_between(entry_key@, path_key@),
{
    let e = chars_of(entry_key);
    let p = chars_of(path_key);
    if eq_ignore_ascii_case(&e, &p) {
        Some(CollisionKind::Exists)
    } else if has_prefix(&p, &e) {
        Some(CollisionKind::InsideEntry)
    } else if has_prefix(&e, &p) {
        Some(CollisionKind::ContainsEntry)
    } else {
        None
    }
}

/// The rule above and below a listing's header and below its rows.
pub fn frame_line() -> (r: &'static str)
    ensures
        r@ == "----------------------------------------------------"@,
{
    "----------------------------------------------------"
}

/// The header row of a listing.
pub fn header_row(header: &str) -> (r: String)
    ensures
        r@ == "| "@ + header@,
{
    let mut r = String::from_str("| ");
    r.append(header);
    r
}

/// The header of a listing that was given none: the number of lines, then the
/// file as shown by `path_shown`.
pub fn default_header(count: usize, path_shown: &str) -> (r: String)
    ensures
        r@ == "("@ + decimal(count as nat) + ") "@ + path_shown@,
{
    let mut r = String::from_str("(");
    push_decimal(&mut r, count);
    r.append(") ");
    r.append(path_shown);
    r
}

/// One row of a listing.
pub fn row(n: usize, entry: &str) -> (r: String)
    ensures
        r@ == row_text(n as nat, entry@),
{
    let mut r = String::from_str("| ");
    push_zero_padded(&mut r, n, 2);
    r.append(" | ");
    r.append(entry);
    r
}

impl Registry {
    /// A registry of the given lines, in order.
    pub fn new(lines: Vec<String>) -> (r: Registry)
        ensures
            r@ == texts(lines@),
    {
        Registry { lines }
    }

    /// Number of entries.
    pub fn len(&self) -> (r: usize)
        ensures
            r == self@.len(),
    {
        self.lines.len()
    }

    /// The rows of lines `a..=b`, counted from 1.
    pub fn rows(&self, a: usize, b: usize) -> (r: Vec<String>)
        requires
            1 <= a <= b + 1,
            b <= self@.len(),
        ensures
            texts(r@) == rows_between(self@, a as nat, b as nat),
    {
        let mut out: Vec<String> = Vec::new();
        let mut i: usize = a - 1;
        while i < b
            invariant
                1 <= a <= i + 1 <= b + 1,
                b <= self@.len(),
                out@.len() == i + 1 - a,
                texts(out@) =~= rows_between(self@, a as nat, i as nat),
            decreases b - i,
        {
            let line = row(i + 1, self.lines[i].as_str());
            assert(self@[i as int] == self.lines@[i as int]@);
            let ghost prev = out@;
            out.push(line);
            proof {
                let want = rows_between(self@, a as nat, (i + 1) as nat);
                assert(texts(out@).len() == want.len());
                assert forall|j: int| 0 <= j < want.len() implies texts(out@)[j] == want[j] by {
                    if j < want.len() - 1 {
                        assert(out@[j] == prev[j]);
                        assert(texts(prev)[j] == rows_between(self@, a as nat, i as nat)[j]);
                    }
                }
                assert(texts(out@) =~= want);
            }
            i = i + 1;
        }
        out
    }

    /// The rows whose key holds `pat`, each numbered by its line; `keys` holds
    /// one key per entry.
    pub fn rows_with(&self, keys: &Vec<String>, pat: &str) -> (r: Vec<String>)
        requires
            keys@.len() == self@.len(),
        ensures
            texts(r@) == rows_matching(self@, texts(keys@), pat@, self@.len()),
    {
        let p = chars_of(pat);
        let mut out: Vec<String> = Vec::new();
        let mut i: usize = 0;
        while i < self.lines.len()
            invariant
                keys@.len() == self@.len(),
                p@ == pat@,
                i <= self@.len(),
                texts(out@) == rows_matching(self@, texts(keys@), pat@, i as nat),
            decreases self@.len() - i,
        {
            let key = chars_of(keys[i].as_str());
            assert(self@[i as int] == self.lines@[i as int]@);
            assert(texts(keys@)[i as int] == keys@[i as int]@);
            if has_infix(&key, &p) {
                out.push(row(i + 1, self.lines[i].as_str()));
                assert(texts(out@) =~= rows_matching(self@, texts(keys@), pat@, i as nat).push(
                    row_text((i + 1) as nat, self@[i as int]),
                ));
            }
            i = i + 1;
        }
        out
    }

    /// The rows that `list` shows for `arg`: every line for `all` or nothing, one
    /// line for a number, the lines of an inclusive range `start-end`, and
    /// otherwise the lines that hold `arg`, ignoring case. Rows keep the numbers
    /// of their lines.
    pub fn list(&self, arg: &str) -> (r: Result<Vec<String>, SgrError>)
        ensures
            match listing(self@, arg@) {
                Ok(rows) => r is Ok && texts(r->Ok_0@) == rows,
                Err(e) => r == Err::<Vec<String>, SgrError>(e),
            },
    {
        let sel = list_selector(arg);
        match sel {
            Err(e) => Err(e),
            Ok(Selector::Text) => {
                let mut keys: Vec<String> = Vec::new();
                let mut i: usize = 0;
                while i < self.lines.len()
                    invariant
                        i <= self@.len(),
                        keys@.len() == i,
                        texts(keys@) =~= lower_keys(self@).subrange(0, i as int),
                    decreases self@.len() - i,
                {
                    assert(self@[i as int] == self.lines@[i as int]@);
                    let ghost prev = keys@;
                    keys.push(lowercase(self.lines[i].as_str()));
                    proof {
                        let want = lower_keys(self@).subrange(0, i + 1);
                        assert forall|j: int| 0 <= j < i + 1 implies texts(keys@)[j] == want[j] by {
                            if j < i {
                                assert(keys@[j] == prev[j]);
                                assert(texts(prev)[j] == lower_keys(self@).subrange(0, i as int)[j]);
                            }
                        }
                        assert(texts(keys@) =~= want);
                    }
                    i = i + 1;
                }
                assert(texts(keys@) =~= lower_keys(self@));
                let pat = lowercase(arg);
                Ok(self.rows_with(&keys, pat.as_str()))
            },
            Ok(sel) => match line_span(sel, self.lines.len()) {
                Ok((a, b)) => Ok(self.rows(a, b)),
                Err(e) => Err(e),
            },
        }
    }

    /// Adds the directory `path` as the last line. `repo_found` tells whether
    /// the directory or one below it holds a git repository. Refused without
    /// one, and where `path` is an entry, lies inside one, or holds one; the
    /// first such entry is named.
    pub fn add(&mut self, path: &str, repo_found: bool) -> (r: Result<(), SgrError>)
        ensures
            !repo_found ==> (r matches Err(SgrError::NoRepoFound { path: p }) && p@ == path@),
            !repo_found ==> final(self)@ == old(self)@,
            repo_found && no_collision(old(self)@, path@) ==> r is Ok && final(self)@ == old(
                self,
            )@.push(path@),
            repo_found && !no_collision(old(self)@, path@) ==> final(self)@ == old(self)@ && exists|
                i: int,
            |
                first_collision(old(self)@, path@, i) && (r matches Err(
                    SgrError::Collision { path: p, entry: e, kind: k },
                ) && p@ == path@ && e@ == old(self)@[i] && collision_of(old(self)@[i], path@)
                    == Some(k)),
    {
        if !repo_found {
            return Err(SgrError::NoRepoFound { path: String::from_str(path) });
        }
        let path_key = lowercase(path);
        let p = chars_of(path);
        let mut i: usize = 0;
        while i < self.lines.len()
            invariant
                repo_found,
                i <= self@.len(),
                p@ == path@,
                path_key@ == lower_of(path@),
                forall|j: int| 0 <= j < i ==> collision_of(#[trigger] self@[j], path@) is None,
            decreases self@.len() - i,
        {
            assert(self@[i as int] == self.lines@[i as int]@);
            let entry_text = trimmed(self.lines[i].as_str());
            let found = if line_names(self.lines[i].as_str(), &p) {
                Some(CollisionKind::Exists)
            } else {
                let entry_key = lowercase(entry_text.as_str());
                collision_kind(entry_key.as_str(), path_key.as_str())
            };
            match found {
                Some(kind) => {
                    assert(first_collision(self@, path@, i as int));
                    return Err(
                        SgrError::Collision {
                            path: String::from_str(path),
                            entry: self.lines[i].clone(),
                            kind,
                        },
                    );
                },
                None => {},
            }
            i = i + 1;
        }
        let ghost before = self.lines@;
        self.lines.push(String::from_str(path));
        assert(self@ =~= texts(before).push(path@));
        Ok(())
    }

    /// Removes the lines that a line number or an inclusive range `start-end`
    /// picks, once checked against the number of lines; the others keep their
    /// order.
    pub fn remove_lines(&mut self, sel: Selector) -> (r: Result<(), SgrError>)
        requires
            sel is Line || sel is LinePastAny || sel is Range,
        ensures
            match checked_span(sel, old(self)@.len()) {
                Ok((a, b)) => r is Ok && final(self)@ == old(self)@.subrange(0, a - 1) + old(
                    self,
                )@.subrange(b as int, old(self)@.len() as int),
                Err(f) => r == Err::<(), SgrError>(SgrError::OutOfRange(f)) && final(self)@ == old(
                    self,
                )@,
            },
    {
        match line_span(sel, self.lines.len()) {
            Err(e) => Err(e),
            Ok((a, b)) => {
                let ghost old_view = self@;
                let n = self.lines.len();
                let mut out: Vec<String> = Vec::new();
                let mut i: usize = 0;
                while i < n
                    invariant
                        n == self@.len(),
                        self@ == old_view,
                        1 <= a <= b <= n,
                        i <= n,
                        out@.len() <= i,
                        i < a ==> texts(out@) =~= old_view.subrange(0, i as int),
                        a - 1 <= i <= b ==> texts(out@) =~= old_view.subrange(0, a - 1),
                        b <= i ==> texts(out@) =~= old_view.subrange(0, a - 1) + old_view.subrange(
                            b as int,
                            i as int,
                        ),
                    decreases n - i,
                {
                    let ghost prev = out@;
                    if i + 1 < a || i + 1 > b {
                        assert(self@[i as int] == self.lines@[i as int]@);
                        out.push(self.lines[i].clone());
                        assert(texts(out@) =~= texts(prev).push(old_view[i as int]));
                    }
                    i = i + 1;
                }
                assert(old_view.subrange(0, n as int) =~= old_view);
                self.lines = out;
                Ok(())
            },
        }
    }

    /// Removes every line that names the directory `path`, ignoring white space
    /// around the line and the case of ASCII letters; the others keep their
    /// order. Refused where no line names it.
    pub fn remove_path(&mut self, path: &str) -> (r: Result<(), SgrError>)
        ensures
            holds_path(old(self)@, path@) ==> r is Ok && final(self)@ == without(old(self)@, path@),
            !holds_path(old(self)@, path@) ==> (r matches Err(SgrError::NotFound { path: p })
                && p@ == path@),
            !holds_path(old(self)@, path@) ==> final(self)@ == old(self)@,
    {
        let ghost old_view = self@;
        let ghost keep = |e: Seq<char>| !names_entry(e, path@);
        let p = chars_of(path);
        let n = self.lines.len();
        let mut out: Vec<String> = Vec::new();
        let mut found = false;
        let mut i: usize = 0;
        while i < n
            invariant
                n == self@.len(),
                self@ == old_view,
                p@ == path@,
                i <= n,
                keep == (|e: Seq<char>| !names_entry(e, path@)),
                texts(out@) == old_view.subrange(0, i as int).filter(keep),
                found <==> exists|j: int| 0 <= j < i && names_entry(#[trigger] old_view[j], path@),
            decreases n - i,
        {
            assert(self@[i as int] == self.lines@[i as int]@);
            let named = line_names(self.lines[i].as_str(), &p);
            let ghost prev = out@;
            if named {
                found = true;
            } else {
                out.push(self.lines[i].clone());
                assert(texts(out@) =~= texts(prev).push(old_view[i as int]));
            }
            proof {
                let s1 = old_view.subrange(0, i + 1);
                assert(s1.drop_last() =~= old_view.subrange(0, i as int));
                assert(s1.last() == old_view[i as int]);
                reveal(Seq::filter);
            }
            i = i + 1;
        }
        assert(old_view.subrange(0, n as int) =~= old_view);
        if !found {
            return Err(SgrError::NotFound { path: String::from_str(path) });
        }
        self.lines = out;
        Ok(())
    }

    /// The text of the registry file: each entry followed by a line break.
    pub fn to_text(&self) -> (r: String)
        ensures
            r@ == file_text(self@),
    {
        let mut r = String::new();
        let mut i: usize = 0;
        while i < self.lines.len()
            invariant
                i <= self@.len(),
                r@ == file_text(self@.subrange(0, i as int)),
            decreases self@.len() - i,
        {
            assert(self@[i as int] == self.lines@[i as int]@);
            r.append(self.lines[i].as_str());
            r.append("\n");
            assert(self@.subrange(0, i + 1).drop_last() =~= self@.subrange(0, i as int));
            i = i + 1;
        }
        assert(self@.subrange(0, self@.len() as int) =~= self@);
        r
    }
}

} // verus!
