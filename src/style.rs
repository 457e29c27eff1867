use vstd::prelude::*;
use vstd::utf8::encode_utf8;

use crate::text::{
    chars_of, end_of_text, push_spaces, spaces, start_of_text, string_of, trim, trim_start,
};

verus! {

/// Number of bytes that the text takes in UTF-8, as `str::len` reports it.
pub open spec fn utf8_len(s: Seq<char>) -> nat {
    (encode_utf8(s).len() as usize) as nat
}

/// How many blanks bring `s` to `len` bytes; none when it is already as long.
pub open spec fn gap(s: Seq<char>, len: nat) -> nat {
    if len < utf8_len(s) {
        0
    } else {
        (len - utf8_len(s)) as nat
    }
}

/// The code that ends any styling.
pub open spec fn reset_code() -> Seq<char> {
    "\x1b[0m"@
}

/// `s` with `code` switched on around its text and off after it, white space
/// at either end left outside.
pub open spec fn styled(s: Seq<char>, code: Seq<char>) -> Seq<char> {
    let core = trim(s);
    if core.len() == 0 {
        code + s + reset_code()
    } else {
        let a = s.len() - trim_start(s).len();
        s.subrange(0, a) + code + core + reset_code() + s.subrange(a + core.len(), s.len() as int)
    }
}

fn wrap_in_style(s: &String, code: &str) -> (r: String)
    ensures
        r@ == styled(s@, code@),
{
    let v = chars_of(s.as_str());
    let a = start_of_text(&v);
    let e = end_of_text(&v, a);
    proof {
        assert(v@.subrange(a as int, v@.len() as int).len() == v@.len() - a);
    }
    if a == e {
        let mut r = String::new();
        r.append(code);
        r.append(s.as_str());
        r.append("\x1b[0m");
        r
    } else {
        let mut r = string_of(&v, 0, a);
        r.append(code);
        let core = string_of(&v, a, e);
        r.append(core.as_str());
        r.append("\x1b[0m");
        let tail = string_of(&v, e, v.len());
        r.append(tail.as_str());
        r
    }
}

/// Layout and terminal styling of text.
pub trait StringExt {
    /// The text itself.
    spec fn text(&self) -> Seq<char>;

    /// The text followed by blanks up to `len` bytes.
    fn pad_right(&self, len: usize) -> (r: String)
        ensures
            r@ == self.text() + spaces(gap(self.text(), len as nat)),
    ;

    /// Blanks up to `len` bytes, then the text.
    fn pad_left(&self, len: usize) -> (r: String)
        ensures
            r@ == spaces(gap(self.text(), len as nat)) + self.text(),
    ;

    /// The text centred in `len` bytes; the odd blank goes to the right.
    fn pad_mid(&self, len: usize) -> (r: String)
        ensures
            r@ == spaces(gap(self.text(), len as nat) / 2) + self.text() + spaces(
                (gap(self.text(), len as nat) - gap(self.text(), len as nat) / 2) as nat,
            ),
    ;

    /// The text followed by `len` blanks.
    fn fill_right(&self, len: usize) -> (r: String)
        ensures
            r@ == self.text() + spaces(len as nat),
    ;

    /// `len` blanks, then the text.
    fn fill_left(&self, len: usize) -> (r: String)
        ensures
            r@ == spaces(len as nat) + self.text(),
    ;

    /// The text in bold.
    fn bold(&self) -> (r: String)
        ensures
            r@ == styled(self.text(), "\x1b[1m"@),
    ;

    /// The text underlined.
    fn underline(&self) -> (r: String)
        ensures
            r@ == styled(self.text(), "\x1b[4m"@),
    ;

    /// The text in italics.
    fn italic(&self) -> (r: String)
        ensures
            r@ == styled(self.text(), "\x1b[3m"@),
    ;
}

impl StringExt for String {
    open spec fn text(&self) -> Seq<char> {
        self@
    }

    fn pad_right(&self, len: usize) -> (r: String) {
        let n = self.as_str().len();
        let width: usize = if len < n {
            0
        } else {
            len - n
        };
        let mut r = self.clone();
        push_spaces(&mut r, width);
        r
    }

    fn pad_left(&self, len: usize) -> (r: String) {
        let n = self.as_str().len();
        let width: usize = if len < n {
            0
        } else {
            len - n
        };
        let mut r = String::new();
        push_spaces(&mut r, width);
        r.append(self.as_str());
        r
    }

    fn pad_mid(&self, len: usize) -> (r: String) {
        let n = self.as_str().len();
        let width: usize = if len < n {
            0
        } else {
            len - n
        };
        let mut r = String::new();
        push_spaces(&mut r, width / 2);
        r.append(self.as_str());
        push_spaces(&mut r, width - width / 2);
        r
    }

    fn fill_right(&self, len: usize) -> (r: String) {
        let mut r = self.clone();
        push_spaces(&mut r, len);
        r
    }

    fn fill_left(&self, len: usize) -> (r: String) {
        let mut r = String::new();
        push_spaces(&mut r, len);
        r.append(self.as_str());
        r
    }

    fn bold(&self) -> (r: String) {
        wrap_in_style(self, "\x1b[1m")
    }

    fn underline(&self) -> (r: String) {
        wrap_in_style(self, "\x1b[4m")
    }

    fn italic(&self) -> (r: String) {
        wrap_in_style(self, "\x1b[3m")
    }
}

} // verus!
