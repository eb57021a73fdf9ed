//! Numerals: numbers as they are written.
//!
//! A numeral is a run of digits, alone or followed by a dot and another
//! run of digits. The library keeps the numerals of a program as text; the
//! host makes numbers of them.
use vstd::prelude::*;
use vstd::std_specs::cmp::PartialEqSpecImpl;
use crate::text::{chars_of, digit, is_digit, string_of};

verus! {

/// The first position at or after `pos` that holds no digit.
pub open spec fn digits_end(src: Seq<char>, pos: int) -> int
    decreases src.len() - pos,
{
    if 0 <= pos < src.len() && digit(src[pos]) {
        digits_end(src, pos + 1)
    } else {
        pos
    }
}

/// Whether `s` is a numeral: a run of one or more digits, which is all of
/// `s` or is followed by a dot and a run of one or more digits up to the
/// end of `s`.
pub open spec fn numeral(s: Seq<char>) -> bool {
    let whole = digits_end(s, 0);
    whole > 0 && (whole == s.len() || (s[whole] == '.' && whole + 1 < digits_end(s, whole + 1)
        && digits_end(s, whole + 1) == s.len()))
}

pub proof fn lemma_digits_end(src: Seq<char>, pos: int)
    requires
        0 <= pos <= src.len(),
    ensures
        pos <= digits_end(src, pos) <= src.len(),
        pos < src.len() && digit(src[pos]) ==> pos < digits_end(src, pos),
        forall|i: int| pos <= i < digits_end(src, pos) ==> digit(#[trigger] src[i]),
        digits_end(src, pos) < src.len() ==> !digit(src[digits_end(src, pos)]),
    decreases src.len() - pos,
{
    if pos < src.len() && digit(src[pos]) {
        lemma_digits_end(src, pos + 1);
    }
}

/// A run of digits ends in a part of a text where it ends in the text, or
/// where the part ends.
pub proof fn lemma_digits_end_within(src: Seq<char>, from: int, to: int, pos: int)
    requires
        0 <= from <= pos <= to <= src.len(),
    ensures
        digits_end(src.subrange(from, to), pos - from) == if digits_end(src, pos) < to {
            digits_end(src, pos) - from
        } else {
            to - from
        },
    decreases to - pos,
{
    let part = src.subrange(from, to);
    lemma_digits_end(src, pos);
    if pos < to {
        assert(part[pos - from] == src[pos]);
        if digit(src[pos]) {
            lemma_digits_end_within(src, from, to, pos + 1);
        }
    }
}

/// The first position at or after `pos` that holds no digit.
pub fn digits_until(chars: &Vec<char>, pos: usize) -> (end: usize)
    requires
        pos <= chars.len(),
    ensures
        end == digits_end(chars@, pos as int),
        pos <= end <= chars.len(),
{
    let mut i: usize = pos;
    while i < chars.len() && is_digit(chars[i])
        invariant
            pos <= i <= chars.len(),
            digits_end(chars@, pos as int) == digits_end(chars@, i as int),
        decreases chars.len() - i,
    {
        i += 1;
    }
    i
}

/// Whether the characters spell a numeral.
pub fn is_numeral(chars: &Vec<char>) -> (r: bool)
    ensures
        r == numeral(chars@),
{
    let whole = digits_until(chars, 0);
    if whole == 0 {
        false
    } else if whole == chars.len() {
        true
    } else if chars[whole] == '.' {
        let end = digits_until(chars, whole + 1);
        whole + 1 < end && end == chars.len()
    } else {
        false
    }
}

/// A numeral.
#[derive(Debug)]
pub struct Numeral {
    text: String,
}

impl View for Numeral {
    type V = Seq<char>;

    closed spec fn view(&self) -> Seq<char> {
        self.text@
    }
}

impl Numeral {
    #[verifier::type_invariant]
    spec fn holds_a_numeral(self) -> bool {
        numeral(self.text@)
    }

    /// The numeral that `text` spells, if it spells one.
    pub fn new(text: String) -> (r: Option<Numeral>)
        ensures
            match r {
                Some(n) => n@ == text@ && numeral(text@),
                None => !numeral(text@),
            },
    {
        let chars = chars_of(text.as_str());
        if is_numeral(&chars) {
            Some(Numeral { text })
        } else {
            None
        }
    }

    /// The numeral that the characters `chars[from..to]` spell.
    pub fn from_chars(chars: &Vec<char>, from: usize, to: usize) -> (n: Numeral)
        requires
            from <= to <= chars.len(),
            numeral(chars@.subrange(from as int, to as int)),
        ensures
            n@ == chars@.subrange(from as int, to as int),
    {
        Numeral { text: string_of(chars, from, to) }
    }

    /// The text of the numeral.
    pub fn as_str(&self) -> (s: &str)
        ensures
            s@ == self@,
            numeral(s@),
    {
        proof {
            use_type_invariant(self);
        }
        self.text.as_str()
    }

    /// The text of the numeral.
    pub fn to_string(&self) -> (s: String)
        ensures
            s@ == self@,
    {
        self.text.clone()
    }
}

impl Clone for Numeral {
    fn clone(&self) -> (r: Numeral)
        ensures
            r@ == self@,
    {
        proof {
            use_type_invariant(self);
        }
        Numeral { text: self.text.clone() }
    }
}

impl PartialEq for Numeral {
    fn eq(&self, other: &Numeral) -> (r: bool) {
        self.text.eq(&other.text)
    }
}

impl PartialEqSpecImpl for Numeral {
    open spec fn obeys_eq_spec() -> bool {
        true
    }

    open spec fn eq_spec(&self, other: &Numeral) -> bool {
        self@ == other@
    }
}

} // verus!
