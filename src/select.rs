use vstd::prelude::*;

use crate::error::{ParseFault, RangeFault, SgrError};
use crate::text::{chars_of, same_text};

verus! {

/// An ASCII decimal digit.
pub open spec fn is_digit(c: char) -> bool {
    '0' <= c && c <= '9'
}

/// Every character is an ASCII decimal digit.
pub open spec fn all_digits(s: Seq<char>) -> bool {
    forall|i: int| 0 <= i < s.len() ==> is_digit(#[trigger] s[i])
}

/// The number that a run of decimal digits writes.
pub open spec fn num_value(s: Seq<char>) -> nat
    decreases s.len(),
{
    if s.len() == 0 {
        0
    } else {
        num_value(s.drop_last()) * 10 + ((s.last() as u32) - 48) as nat
    }
}

/// The digits of an unsigned number, after an optional leading `+`.
pub open spec fn unsigned_digits(s: Seq<char>) -> Seq<char> {
    if s.len() > 0 && s[0] == '+' {
        s.drop_first()
    } else {
        s
    }
}

/// The text reads as a `u32`: an optional `+`, then digits whose value fits.
pub open spec fn reads_as_u32(s: Seq<char>) -> bool {
    let d = unsigned_digits(s);
    d.len() > 0 && all_digits(d) && num_value(d) <= u32::MAX
}

/// `s` splits at its dash `k` into two numbers.
pub open spec fn range_split_at(s: Seq<char>, k: int) -> bool {
    0 <= k < s.len() && s[k] == '-' && reads_as_u32(s.subrange(0, k)) && reads_as_u32(
        s.subrange(k + 1, s.len() as int),
    )
}

/// The text is `start-end`, two numbers around one dash.
pub open spec fn is_range_text(s: Seq<char>) -> bool {
    exists|k: int| range_split_at(s, k)
}

/// The two numbers of a range text.
pub open spec fn range_bounds(s: Seq<char>) -> (nat, nat) {
    let k = choose|k: int| range_split_at(s, k);
    (
        num_value(unsigned_digits(s.subrange(0, k))),
        num_value(unsigned_digits(s.subrange(k + 1, s.len() as int))),
    )
}

proof fn lemma_value_prefix(s: Seq<char>, i: int)
    requires
        0 <= i <= s.len(),
        all_digits(s),
    ensures
        num_value(s.subrange(0, i)) <= num_value(s),
    decreases s.len(),
{
    if i < s.len() {
        let t = s.drop_last();
        assert(s.subrange(0, i) =~= t.subrange(0, i));
        lemma_value_prefix(t, i);
    } else {
        assert(s.subrange(0, i) =~= s);
    }
}

/// The value of the digits `v[from..to]`, or `None` where it exceeds `max`.
fn digits_value(v: &Vec<char>, from: usize, to: usize, max: usize) -> (r: Option<usize>)
    requires
        from <= to <= v@.len(),
        all_digits(v@.subrange(from as int, to as int)),
    ensures
        r == (if num_value(v@.subrange(from as int, to as int)) <= max {
            Some(num_value(v@.subrange(from as int, to as int)) as usize)
        } else {
            None::<usize>
        }),
{
    let ghost s = v@.subrange(from as int, to as int);
    let mut acc: usize = 0;
    let mut i: usize = from;
    while i < to
        invariant
            from <= i <= to <= v@.len(),
            s == v@.subrange(from as int, to as int),
            all_digits(s),
            acc == num_value(s.subrange(0, i - from)),
            acc <= max,
        decreases to - i,
    {
        let ghost j: int = i - from;
        assert(is_digit(s[j]));
        let d = ((v[i] as u32) - 48) as usize;
        assert(s.subrange(0, j + 1).drop_last() =~= s.subrange(0, j));
        if d > max || acc > (max - d) / 10 {
            proof {
                assert(num_value(s.subrange(0, j + 1)) == acc * 10 + d);
                assert(acc * 10 + d > max) by (nonlinear_arith)
                    requires
                        d > max || acc > (max - d) / 10,
                ;
                lemma_value_prefix(s, j + 1);
            }
            return None;
        }
        assert(acc * 10 + d <= max) by (nonlinear_arith)
            requires
                acc <= (max - d) / 10,
                d <= max,
        ;
        acc = acc * 10 + d;
        i = i + 1;
    }
    assert(s.subrange(0, to - from) =~= s);
    Some(acc)
}

fn digits_only(v: &Vec<char>, from: usize, to: usize) -> (r: bool)
    requires
        from <= to <= v@.len(),
    ensures
        r == all_digits(v@.subrange(from as int, to as int)),
{
    let ghost s = v@.subrange(from as int, to as int);
    let mut i: usize = from;
    while i < to
        invariant
            from <= i <= to <= v@.len(),
            s == v@.subrange(from as int, to as int),
            forall|j: int| 0 <= j < i - from ==> is_digit(#[trigger] s[j]),
        decreases to - i,
    {
        if !('0' <= v[i] && v[i] <= '9') {
            assert(!is_digit(s[i - from]));
            return false;
        }
        i = i + 1;
    }
    true
}

/// The value of `v[from..to]` read as a `u32`, or `None` where it does not read as one.
fn u32_part(v: &Vec<char>, from: usize, to: usize) -> (r: Option<usize>)
    requires
        from <= to <= v@.len(),
    ensures
        r is Some <==> reads_as_u32(v@.subrange(from as int, to as int)),
        r matches Some(x) ==> x == num_value(unsigned_digits(v@.subrange(from as int, to as int))),
{
    let ghost s = v@.subrange(from as int, to as int);
    let start: usize = if from < to && v[from] == '+' {
        from + 1
    } else {
        from
    };
    assert(unsigned_digits(s) =~= v@.subrange(start as int, to as int));
    if start == to || !digits_only(v, start, to) {
        return None;
    }
    digits_value(v, start, to, 4294967295)
}

proof fn lemma_dash_breaks_part(s: Seq<char>, k: int, m: int)
    requires
        0 <= k < m <= s.len(),
        s[k] == '-',
    ensures
        !reads_as_u32(s.subrange(0, m)),
{
    let t = s.subrange(0, m);
    let d = unsigned_digits(t);
    if t[0] == '+' {
        assert(d[k - 1] == '-');
    } else {
        assert(d[k] == '-');
    }
}

/// The two numbers of `start-end`, or `None` where the text is not such a range.
fn range_parts(v: &Vec<char>) -> (r: Option<(usize, usize)>)
    ensures
        r is Some <==> is_range_text(v@),
        r matches Some((a, b)) ==> a == range_bounds(v@).0 && b == range_bounds(v@).1,
{
    let n = v.len();
    let mut k: usize = 0;
    while k < n && v[k] != '-'
        invariant
            n == v@.len(),
            k <= n,
            forall|j: int| 0 <= j < k ==> v@[j] != '-',
        decreases n - k,
    {
        k = k + 1;
    }
    if k == n {
        return None;
    }
    let first = u32_part(v, 0, k);
    let second = u32_part(v, k + 1, n);
    proof {
        assert forall|m: int| range_split_at(v@, m) implies m == k by {
            if m > k {
                lemma_dash_breaks_part(v@, k as int, m);
            }
        }
    }
    match (first, second) {
        (Some(a), Some(b)) => {
            assert(range_split_at(v@, k as int));
            Some((a, b))
        },
        _ => None,
    }
}

/// Layout and number reading of argument text.
pub trait StrExt {
    /// The text itself.
    spec fn chars_view(&self) -> Seq<char>;

    /// Whether the text is `start-end`: two numbers, each fitting a `u32`, around one dash.
    fn is_digit_range(&self) -> (r: bool)
        ensures
            r == is_range_text(self.chars_view()),
    ;
}

impl StrExt for str {
    open spec fn chars_view(&self) -> Seq<char> {
        self@
    }

    fn is_digit_range(&self) -> (r: bool) {
        let v = chars_of(self);
        range_parts(&v).is_some()
    }
}

/// What a line argument picks out of the registry.
#[derive(Clone, Copy, Debug, PartialEq, Eq, Structural)]
pub enum Selector {
    /// Every line.
    All,
    /// One line, counted from 1.
    Line(usize),
    /// A line number too large for a `usize`, past the last line of any registry.
    LinePastAny,
    /// The lines from the first number to the second, both included.
    Range(usize, usize),
    /// Not a number: the text itself is what is meant.
    Text,
}

/// How a line number, a line range or any other text is told apart.
pub open spec fn numbered_selector(s: Seq<char>) -> Result<Selector, ParseFault> {
    if all_digits(s) {
        if s.len() == 0 {
            Err(ParseFault::Empty)
        } else if num_value(s) <= usize::MAX {
            Ok(Selector::Line(num_value(s) as usize))
        } else {
            Ok(Selector::LinePastAny)
        }
    } else if is_range_text(s) {
        Ok(Selector::Range(range_bounds(s).0 as usize, range_bounds(s).1 as usize))
    } else {
        Ok(Selector::Text)
    }
}

/// A listing argument: `all` or nothing picks every line, the rest as above.
pub open spec fn listing_selector(s: Seq<char>) -> Result<Selector, ParseFault> {
    if s == "all"@ || s.len() == 0 {
        Ok(Selector::All)
    } else {
        numbered_selector(s)
    }
}

/// The error that a refused selector gives.
pub open spec fn selector_result(r: Result<Selector, ParseFault>) -> Result<Selector, SgrError> {
    match r {
        Ok(sel) => Ok(sel),
        Err(f) => Err(SgrError::ParseFailed(f)),
    }
}

fn numbered_of(v: &Vec<char>) -> (r: Result<Selector, SgrError>)
    ensures
        r == selector_result(numbered_selector(v@)),
{
    let n = v.len();
    if digits_only(v, 0, n) {
        assert(v@.subrange(0, n as int) =~= v@);
        if n == 0 {
            return Err(SgrError::ParseFailed(ParseFault::Empty));
        }
        match digits_value(v, 0, n, usize::MAX) {
            Some(x) => Ok(Selector::Line(x)),
            None => Ok(Selector::LinePastAny),
        }
    } else {
        assert(v@.subrange(0, n as int) =~= v@);
        match range_parts(v) {
            Some((a, b)) => Ok(Selector::Range(a, b)),
            None => Ok(Selector::Text),
        }
    }
}

/// Reads the argument of `remove`: a line number, a line range, or a path.
pub fn remove_selector(arg: &str) -> (r: Result<Selector, SgrError>)
    ensures
        r == selector_result(numbered_selector(arg@)),
{
    let v = chars_of(arg);
    numbered_of(&v)
}

/// Reads the argument of `list`: `all` or nothing, a line number, a line range,
/// or a pattern.
pub fn list_selector(arg: &str) -> (r: Result<Selector, SgrError>)
    ensures
        r == selector_result(listing_selector(arg@)),
{
    let v = chars_of(arg);
    let all = chars_of("all");
    if v.len() == 0 || same_text(&v, &all) {
        Ok(Selector::All)
    } else {
        numbered_of(&v)
    }
}

/// The first and last line that a numeric selector picks, counted from 1, once
/// checked against a registry of `count` lines.
pub open spec fn checked_span(sel: Selector, count: nat) -> Result<(nat, nat), RangeFault> {
    match sel {
        Selector::LinePastAny => Err(RangeFault::FarAboveMax { max: count as usize }),
        Selector::Line(n) => if n > count {
            Err(RangeFault::AboveMax { max: count as usize, value: n })
        } else if n < 1 {
            Err(RangeFault::BelowMin { value: n })
        } else {
            Ok((n as nat, n as nat))
        },
        Selector::Range(a, b) => if a < 1 {
            Err(RangeFault::BelowMin { value: a })
        } else if b > count {
            Err(RangeFault::AboveMax { max: count as usize, value: b })
        } else if a > b {
            Err(RangeFault::Reversed { start: a, end: b })
        } else if a == b {
            Err(RangeFault::SingleLine { start: a, end: b })
        } else {
            Ok((a as nat, b as nat))
        },
        _ => Ok((1, count)),
    }
}

/// Checks a numeric selector against a registry of `count` lines.
pub fn line_span(sel: Selector, count: usize) -> (r: Result<(usize, usize), SgrError>)
    ensures
        match checked_span(sel, count as nat) {
            Ok((a, b)) => r == Ok::<(usize, usize), SgrError>((a as usize, b as usize)),
            Err(f) => r == Err::<(usize, usize), SgrError>(SgrError::OutOfRange(f)),
        },
{
    match sel {
        Selector::LinePastAny => Err(SgrError::OutOfRange(RangeFault::FarAboveMax { max: count })),
        Selector::Line(n) => if n > count {
            Err(SgrError::OutOfRange(RangeFault::AboveMax { max: count, value: n }))
        } else if n < 1 {
            Err(SgrError::OutOfRange(RangeFault::BelowMin { value: n }))
        } else {
            Ok((n, n))
        },
        Selector::Range(a, b) => if a < 1 {
            Err(SgrError::OutOfRange(RangeFault::BelowMin { value: a }))
        } else if b > count {
            Err(SgrError::OutOfRange(RangeFault::AboveMax { max: count, value: b }))
        } else if a > b {
            Err(SgrError::OutOfRange(RangeFault::Reversed { start: a, end: b }))
        } else if a == b {
            Err(SgrError::OutOfRange(RangeFault::SingleLine { start: a, end: b }))
        } else {
            Ok((a, b))
        },
        _ => Ok((1, count)),
    }
}

} // verus!
