//! Readers that take one word or one decimal number off a character cursor.
use vstd::prelude::*;

use crate::lexer::analyzer::{LexItem, LexItemV, word_item};
use crate::lexer::{is_ident_start, scan_word, word_end};
use crate::text::{chars_equal_str, chars_of};

verus! {

/// Characters read one at a time, with a look at the next one.
pub struct CharCursor {
    chars: Vec<char>,
    pos: usize,
}

impl CharCursor {
    pub closed spec fn input(&self) -> Seq<char> {
        self.chars@
    }

    pub closed spec fn pos(&self) -> int {
        self.pos as int
    }

    pub open spec fn wf(&self) -> bool {
        0 <= self.pos() <= self.input().len()
    }

    /// A cursor before the first character of `s`.
    pub fn new(s: &str) -> (c: CharCursor)
        ensures
            c.wf(),
            c.input() == s@,
            c.pos() == 0,
    {
        CharCursor { chars: chars_of(s), pos: 0 }
    }

    /// The next character, if any; the cursor does not move.
    pub fn peek(&self) -> (r: Option<char>)
        requires
            self.wf(),
        ensures
            r == (if self.pos() < self.input().len() {
                Some(self.input()[self.pos()])
            } else {
                None
            }),
    {
        if self.pos < self.chars.len() {
            Some(self.chars[self.pos])
        } else {
            None
        }
    }

    /// The next character, if any, and the cursor moves past it.
    pub fn next(&mut self) -> (r: Option<char>)
        requires
            old(self).wf(),
        ensures
            final(self).wf(),
            final(self).input() == old(self).input(),
            r == (if old(self).pos() < old(self).input().len() {
                Some(old(self).input()[old(self).pos()])
            } else {
                None
            }),
            final(self).pos() == (if old(self).pos() < old(self).input().len() {
                old(self).pos() + 1
            } else {
                old(self).pos()
            }),
    {
        if self.pos < self.chars.len() {
            let c = self.chars[self.pos];
            self.pos = self.pos + 1;
            Some(c)
        } else {
            None
        }
    }
}

/// Reads a word (alphanumeric characters and `_`): one of the keywords
/// `declare`, `module`, `input`, `output`, `inout`, or else a `Word`.
pub fn get_word(iter: &mut CharCursor) -> (item: LexItem)
    requires
        old(iter).wf(),
    ensures
        final(iter).wf(),
        final(iter).input() == old(iter).input(),
        final(iter).pos() == word_end(old(iter).input(), old(iter).pos()),
        item@ == word_item(old(iter).input().subrange(old(iter).pos(), final(iter).pos())),
        old(iter).pos() < old(iter).input().len() && is_ident_start(old(iter).input()[old(iter).pos()])
            ==> final(iter).pos() == word_end(old(iter).input(), old(iter).pos() + 1),
{
    let start = iter.pos;
    let end = scan_word(&iter.chars, start);
    iter.pos = end;
    if chars_equal_str(&iter.chars, start, end, "declare") {
        LexItem::Declare
    } else if chars_equal_str(&iter.chars, start, end, "module") {
        LexItem::Module
    } else if chars_equal_str(&iter.chars, start, end, "input") {
        LexItem::Input
    } else if chars_equal_str(&iter.chars, start, end, "output") {
        LexItem::Output
    } else if chars_equal_str(&iter.chars, start, end, "inout") {
        LexItem::InOut
    } else {
        LexItem::Word
    }
}

pub open spec fn is_digit(c: char) -> bool {
    '0' <= c && c <= '9'
}

/// First index at or after `i` that does not hold a decimal digit.
pub open spec fn digit_end(s: Seq<char>, i: int) -> int
    decreases s.len() - i,
{
    if 0 <= i < s.len() && is_digit(s[i]) {
        digit_end(s, i + 1)
    } else {
        i
    }
}

/// The decimal value of the digits `s[i..j]`.
pub open spec fn digits_value(s: Seq<char>, i: int, j: int) -> int
    decreases j - i,
{
    if j <= i {
        0
    } else {
        digits_value(s, i, j - 1) * 10 + (s[j - 1] as int - '0' as int)
    }
}

/// The number that starts at `i`.
pub open spec fn number_at(s: Seq<char>, i: int) -> int {
    digits_value(s, i, digit_end(s, i))
}

pub proof fn lemma_digit_end(s: Seq<char>, i: int)
    requires
        0 <= i <= s.len(),
    ensures
        i <= digit_end(s, i) <= s.len(),
        forall|k: int| i <= k < digit_end(s, i) ==> is_digit(#[trigger] s[k]),
    decreases s.len() - i,
{
    if i < s.len() && is_digit(s[i]) {
        lemma_digit_end(s, i + 1);
    }
}

/// Over a run of digits, a longer prefix has a value at least as large.
pub proof fn lemma_digits_value_grows(s: Seq<char>, i: int, j: int, k: int)
    requires
        i <= j <= k <= s.len(),
        0 <= i,
        forall|m: int| i <= m < k ==> is_digit(#[trigger] s[m]),
    ensures
        0 <= digits_value(s, i, j) <= digits_value(s, i, k),
    decreases k - i,
{
    if k > j {
        lemma_digits_value_grows(s, i, j, k - 1);
        assert(is_digit(s[k - 1]));
    } else if j > i {
        lemma_digits_value_grows(s, i, j - 1, j - 1);
        assert(is_digit(s[j - 1]));
    }
}

/// Reads a decimal number.
pub fn get_number(iter: &mut CharCursor) -> (item: LexItem)
    requires
        old(iter).wf(),
        number_at(old(iter).input(), old(iter).pos()) <= i64::MAX,
    ensures
        final(iter).wf(),
        final(iter).input() == old(iter).input(),
        final(iter).pos() == digit_end(old(iter).input(), old(iter).pos()),
        item@ == LexItemV::Number(number_at(old(iter).input(), old(iter).pos())),
{
    let ghost s = iter.chars@;
    let start = iter.pos;
    let ghost end = digit_end(s, start as int);
    proof {
        lemma_digit_end(s, start as int);
    }
    let mut number: i64 = 0;
    while iter.pos < iter.chars.len() && '0' <= iter.chars[iter.pos] && iter.chars[iter.pos] <= '9'
        invariant
            iter.wf(),
            iter.chars@ == s,
            start <= iter.pos <= end,
            end == digit_end(s, start as int),
            end <= s.len(),
            digit_end(s, iter.pos as int) == end,
            forall|k: int| start <= k < end ==> is_digit(#[trigger] s[k]),
            number == digits_value(s, start as int, iter.pos as int),
            digits_value(s, start as int, end) <= i64::MAX,
        decreases s.len() - iter.pos,
    {
        let c = iter.chars[iter.pos];
        proof {
            lemma_digit_end(s, iter.pos + 1);
            assert(digit_end(s, iter.pos as int) == digit_end(s, iter.pos + 1));
            lemma_digits_value_grows(s, start as int, iter.pos + 1, end);
        }
        let d = (c as u32 - '0' as u32) as i64;
        number = number * 10 + d;
        iter.pos = iter.pos + 1;
    }
    LexItem::Number(number)
}

} // verus!
