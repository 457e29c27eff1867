use vstd::prelude::*;

use crate::error::SgrError;
use crate::registry::{
    collision_of, holds_path, listing, names_entry, no_collision, rows_between, row_text,
    without,
};
use crate::select::{
    all_digits, checked_span, is_range_text, num_value, range_bounds,
    range_split_at, Selector,
};
use crate::text::{lower_of, same_ignoring_ascii_case, starts_with, trim};

verus! {

/// A directory whose lower case form starts with that of a registered entry
/// (white space around the entry dropped), or is the start of it, overlaps the
/// registry: `add` refuses it with a collision.
pub proof fn lemma_nested_dirs_collide(entries: Seq<Seq<char>>, i: int, path: Seq<char>)
    requires
        0 <= i < entries.len(),
        starts_with(lower_of(path), lower_of(trim(entries[i]))) || starts_with(
            lower_of(trim(entries[i])),
            lower_of(path),
        ),
    ensures
        collision_of(entries[i], path) is Some,
        !no_collision(entries, path),
{
}

proof fn lemma_filter_keeps_all(s: Seq<Seq<char>>, keep: spec_fn(Seq<char>) -> bool)
    requires
        forall|i: int| 0 <= i < s.len() ==> keep(#[trigger] s[i]),
    ensures
        s.filter(keep) == s,
    decreases s.len(),
{
    reveal(Seq::filter);
    if s.len() > 0 {
        lemma_filter_keeps_all(s.drop_last(), keep);
        assert(s.drop_last().push(s.last()) =~= s);
    }
}

/// After `add` has appended a directory, `remove` of that same directory finds
/// it and gives back the registry as it was, every other line in its place.
pub proof fn lemma_add_then_remove(entries: Seq<Seq<char>>, path: Seq<char>)
    requires
        no_collision(entries, path),
    ensures
        holds_path(entries.push(path), path),
        without(entries.push(path), path) == entries,
{
    let added = entries.push(path);
    assert(same_ignoring_ascii_case(path, path));
    assert(names_entry(added[entries.len() as int], path));
    let keep = |e: Seq<char>| !names_entry(e, path);
    reveal(Seq::filter);
    assert(added.drop_last() =~= entries);
    assert forall|i: int| 0 <= i < entries.len() implies keep(#[trigger] entries[i]) by {
        assert(collision_of(entries[i], path) is None);
    }
    lemma_filter_keeps_all(entries, keep);
}

proof fn lemma_all_is_not_a_number()
    ensures
        !all_digits("all"@),
        !is_range_text("all"@),
{
    reveal_strlit("all");
    assert(!crate::select::is_digit("all"@[0]));
    assert forall|k: int| !range_split_at("all"@, k) by {
        if 0 <= k < 3 {
            assert("all"@[k] != '-');
        }
    }
}

/// Listing a line number outside `1..=count` is refused as out of range.
pub proof fn lemma_list_line_outside(entries: Seq<Seq<char>>, arg: Seq<char>)
    requires
        arg.len() > 0,
        all_digits(arg),
        num_value(arg) < 1 || num_value(arg) > entries.len(),
    ensures
        listing(entries, arg) matches Err(SgrError::OutOfRange(_)),
{
    lemma_all_is_not_a_number();
}

/// Listing a range `start-end` whose start is not below its end is refused:
/// `2-2` as well as `3-1`.
pub proof fn lemma_list_range_not_increasing(entries: Seq<Seq<char>>, arg: Seq<char>)
    requires
        is_range_text(arg),
        range_bounds(arg).0 >= range_bounds(arg).1,
    ensures
        listing(entries, arg) matches Err(SgrError::OutOfRange(_)),
{
    lemma_all_is_not_a_number();
    let k = choose|k: int| range_split_at(arg, k);
    assert(!crate::select::is_digit(arg[k]));
    assert(!all_digits(arg));
    assert(arg != "all"@);
}

/// Removing line `k` of `n` leaves the other `n - 1` lines in their order, and
/// a listing of all of them numbers them again from 1 without a gap.
pub proof fn lemma_remove_line(entries: Seq<Seq<char>>, k: usize)
    requires
        1 <= k <= entries.len(),
    ensures
        checked_span(Selector::Line(k), entries.len()) == Ok::<(nat, nat), crate::error::RangeFault>(
            (k as nat, k as nat),
        ),
        ({
            let after = entries.subrange(0, k - 1) + entries.subrange(k as int, entries.len() as int);
            &&& after == entries.remove(k - 1)
            &&& after.len() == entries.len() - 1
            &&& listing(after, "all"@) == Ok::<Seq<Seq<char>>, SgrError>(
                rows_between(after, 1, after.len()),
            )
            &&& forall|j: int|
                0 <= j < after.len() ==> #[trigger] rows_between(after, 1, after.len())[j]
                    == row_text((j + 1) as nat, after[j])
        }),
{
    let after = entries.subrange(0, k - 1) + entries.subrange(k as int, entries.len() as int);
    assert(after =~= entries.remove(k - 1));
    reveal_strlit("all");
}

} // verus!
