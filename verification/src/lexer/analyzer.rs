//! A small whole-input lexer for the declaration subset of NSL.
use vstd::prelude::*;

use crate::lexer::utils::{CharCursor, digit_end, get_number, get_word, is_digit, lemma_digit_end, number_at};
use crate::lexer::{is_ident_start, lemma_word_end_ge, word_end};
use crate::text::push_char;

verus! {

#[derive(Debug, Clone, Copy, PartialEq, Eq, Structural)]
pub enum LexItem {
    Module,
    Declare,
    CurlyBracketL,
    CurlyBracketR,
    Semicolon,
    SquareBracketL,
    SquareBracketR,
    Number(i64),
    Equal,
    Word,
    Input,
    Output,
    InOut,
}

pub enum LexItemV {
    Module,
    Declare,
    CurlyBracketL,
    CurlyBracketR,
    Semicolon,
    SquareBracketL,
    SquareBracketR,
    Number(int),
    Equal,
    Word,
    Input,
    Output,
    InOut,
}

impl View for LexItem {
    type V = LexItemV;

    open spec fn view(&self) -> LexItemV {
        match self {
            LexItem::Module => LexItemV::Module,
            LexItem::Declare => LexItemV::Declare,
            LexItem::CurlyBracketL => LexItemV::CurlyBracketL,
            LexItem::CurlyBracketR => LexItemV::CurlyBracketR,
            LexItem::Semicolon => LexItemV::Semicolon,
            LexItem::SquareBracketL => LexItemV::SquareBracketL,
            LexItem::SquareBracketR => LexItemV::SquareBracketR,
            LexItem::Number(n) => LexItemV::Number(*n as int),
            LexItem::Equal => LexItemV::Equal,
            LexItem::Word => LexItemV::Word,
            LexItem::Input => LexItemV::Input,
            LexItem::Output => LexItemV::Output,
            LexItem::InOut => LexItemV::InOut,
        }
    }
}

/// The item for a word: a keyword, or `Word` for any other name.
pub open spec fn word_item(w: Seq<char>) -> LexItemV {
    if w == "declare"@ {
        LexItemV::Declare
    } else if w == "module"@ {
        LexItemV::Module
    } else if w == "input"@ {
        LexItemV::Input
    } else if w == "output"@ {
        LexItemV::Output
    } else if w == "inout"@ {
        LexItemV::InOut
    } else {
        LexItemV::Word
    }
}

/// The item a word gives; every name that is not a keyword gives `Word`.
pub fn create_lex_item_word(w: &str) -> (item: LexItem)
    ensures
        item@ == word_item(w@),
{
    let v = crate::text::chars_of(w);
    let n = w.unicode_len();
    assert(v@.subrange(0, n as int) =~= w@);
    if crate::text::chars_equal_str(&v, 0, n, "declare") {
        LexItem::Declare
    } else if crate::text::chars_equal_str(&v, 0, n, "module") {
        LexItem::Module
    } else if crate::text::chars_equal_str(&v, 0, n, "input") {
        LexItem::Input
    } else if crate::text::chars_equal_str(&v, 0, n, "output") {
        LexItem::Output
    } else if crate::text::chars_equal_str(&v, 0, n, "inout") {
        LexItem::InOut
    } else {
        LexItem::Word
    }
}

pub open spec fn prepend(x: LexItemV, r: (Seq<LexItemV>, Option<char>)) -> (Seq<LexItemV>, Option<char>) {
    (seq![x] + r.0, r.1)
}

/// The items from index `i` on, and the character that stopped the scan,
/// if one did.
pub open spec fn analyze(s: Seq<char>, i: int) -> (Seq<LexItemV>, Option<char>)
    decreases s.len() - i,
{
    if i < 0 || i >= s.len() {
        (Seq::empty(), None)
    } else {
        let c = s[i];
        if is_ident_start(c) {
            let e = word_end(s, i + 1);
            proof {
                lemma_word_end_ge(s, i + 1);
            }
            prepend(word_item(s.subrange(i, e)), analyze(s, e))
        } else if is_digit(c) {
            let e = digit_end(s, i);
            proof {
                lemma_digit_end(s, i + 1);
            }
            prepend(LexItemV::Number(number_at(s, i)), analyze(s, e))
        } else if c == ' ' || c == '\t' || c == '\n' {
            analyze(s, i + 1)
        } else if c == '=' {
            prepend(LexItemV::Equal, analyze(s, i + 1))
        } else if c == '{' {
            prepend(LexItemV::CurlyBracketL, analyze(s, i + 1))
        } else if c == '}' {
            prepend(LexItemV::CurlyBracketR, analyze(s, i + 1))
        } else if c == '[' {
            prepend(LexItemV::SquareBracketL, analyze(s, i + 1))
        } else if c == ']' {
            prepend(LexItemV::SquareBracketR, analyze(s, i + 1))
        } else if c == ';' {
            prepend(LexItemV::Semicolon, analyze(s, i + 1))
        } else {
            (Seq::empty(), Some(c))
        }
    }
}

/// The characters an item can start with (blanks, tabs and line breaks
/// separate items).
pub open spec fn starts_item(c: char) -> bool {
    is_ident_start(c) || is_digit(c) || c == ' ' || c == '\t' || c == '\n' || c == '=' || c == '{' || c == '}'
        || c == '[' || c == ']' || c == ';'
}

/// The scan stops only on a character of the input that can start no
/// item; where it does not stop, every character was read into an item or
/// as a separator.
pub proof fn law_analyzer_stops_on_unexpected(s: Seq<char>, i: int)
    requires
        0 <= i,
    ensures
        analyze(s, i).1 matches Some(c) ==> !starts_item(c) && exists|k: int| i <= k < s.len() && s[k] == c,
    decreases s.len() - i,
{
    if i < s.len() {
        let c = s[i];
        if is_ident_start(c) {
            lemma_word_end_ge(s, i + 1);
            let e = word_end(s, i + 1);
            law_analyzer_stops_on_unexpected(s, e);
        } else if is_digit(c) {
            lemma_digit_end(s, i + 1);
            let e = digit_end(s, i);
            law_analyzer_stops_on_unexpected(s, e);
        } else if starts_item(c) {
            law_analyzer_stops_on_unexpected(s, i + 1);
        } else {
            assert(s[i] == c);
        }
    }
}

/// Every number among `items` fits in an `i64`.
pub open spec fn numbers_fit(items: Seq<LexItemV>) -> bool {
    forall|k: int| 0 <= k < items.len() ==> (#[trigger] items[k] matches LexItemV::Number(n) ==> n <= i64::MAX)
}

pub open spec fn item_views(v: Seq<LexItem>) -> Seq<LexItemV> {
    Seq::new(v.len(), |i: int| v[i]@)
}

pub open spec fn unexpected_message(c: char) -> Seq<char> {
    "unexpected character "@.push(c)
}

/// Splits `input` into items; blanks, tabs and line breaks separate them.
/// Fails on the first character that starts no item.
pub fn lexical_analyzer(input: &String) -> (r: Result<Vec<LexItem>, String>)
    requires
        numbers_fit(analyze(input@, 0).0),
    ensures
        match analyze(input@, 0) {
            (items, None) => r matches Ok(v) && item_views(v@) == items,
            (items, Some(c)) => r matches Err(m) && m@ == unexpected_message(c),
        },
{
    let ghost s = input@;
    let mut it = CharCursor::new(input.as_str());
    let mut result: Vec<LexItem> = Vec::new();
    assert(item_views(result@) + analyze(s, 0).0 =~= analyze(s, 0).0);
    loop
        invariant
            it.wf(),
            it.input() == s,
            s == input@,
            numbers_fit(analyze(s, 0).0),
            analyze(s, 0) == (item_views(result@) + analyze(s, it.pos()).0, analyze(s, it.pos()).1),
        decreases s.len() - it.pos(),
    {
        let ghost pos = it.pos();
        let ghost done = item_views(result@);
        let ghost rest = analyze(s, pos);
        match it.peek() {
            None => {
                assert(done + rest.0 =~= done);
                return Ok(result);
            },
            Some(c) => {
                let item = if ('a' <= c && c <= 'z') || ('A' <= c && c <= 'Z') || c == '_' {
                    proof {
                        lemma_word_end_ge(s, pos + 1);
                    }
                    Some(get_word(&mut it))
                } else if '0' <= c && c <= '9' {
                    proof {
                        lemma_digit_end(s, pos + 1);
                        assert(analyze(s, 0).0[done.len() as int] == LexItemV::Number(number_at(s, pos)));
                    }
                    Some(get_number(&mut it))
                } else if c == ' ' || c == '\t' || c == '\n' {
                    it.next();
                    None
                } else if c == '=' {
                    it.next();
                    Some(LexItem::Equal)
                } else if c == '{' {
                    it.next();
                    Some(LexItem::CurlyBracketL)
                } else if c == '}' {
                    it.next();
                    Some(LexItem::CurlyBracketR)
                } else if c == '[' {
                    it.next();
                    Some(LexItem::SquareBracketL)
                } else if c == ']' {
                    it.next();
                    Some(LexItem::SquareBracketR)
                } else if c == ';' {
                    it.next();
                    Some(LexItem::Semicolon)
                } else {
                    let mut m = String::from_str("unexpected character ");
                    push_char(&mut m, c);
                    return Err(m);
                };
                match item {
                    Some(x) => {
                        let ghost before = result@;
                        result.push(x);
                        assert(item_views(result@) =~= item_views(before).push(x@));
                        assert(rest.0 =~= seq![x@] + analyze(s, it.pos()).0);
                        assert(item_views(result@) + analyze(s, it.pos()).0 =~= done + rest.0);
                    },
                    None => {},
                }
            },
        }
    }
}

} // verus!
