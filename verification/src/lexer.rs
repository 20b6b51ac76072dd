//! The NSL lexer: turns source text into tokens, one at a time.
use vstd::prelude::*;

use crate::text::{chars_equal_str, chars_of, is_alphanumeric, string_from_chars, unicode_alphanumeric};
use crate::token::{ClassV, Macro, Operator, Symbol, Token, TokenClass, TokenV, UnaryOperator, op_text, token_text, uop_text};

pub mod analyzer;
pub mod utils;

verus! {

/// Why the lexer stopped.
#[derive(Debug, Clone, Copy, PartialEq, Eq, Structural)]
pub enum LexError {
    /// A character that starts no token.
    InvalidCharacter(char),
    /// A string literal with no closing quote on its line.
    UnclosedString,
    /// A sized number whose radix letter is not one of `x`, `b`, `h`, `d`.
    UnexpectedRadix(char),
    /// The input ends inside a number.
    MissingCharacter,
    /// The input ends right after a `/`.
    SlashAtEnd,
}

// ---------------------------------------------------------------------------
// Specification of a single token.
// ---------------------------------------------------------------------------

pub open spec fn is_ident_start(c: char) -> bool {
    ('a' <= c && c <= 'z') || ('A' <= c && c <= 'Z') || c == '_'
}

pub open spec fn is_word_char(c: char) -> bool {
    unicode_alphanumeric(c) || c == '_'
}

/// What `char::is_digit(16)` accepts, and the digit separator `_`.
pub open spec fn is_number_char(c: char) -> bool {
    ('0' <= c && c <= '9') || ('a' <= c && c <= 'f') || ('A' <= c && c <= 'F') || c == '_'
}

/// First index at or after `i` whose character does not continue a word.
pub open spec fn word_end(s: Seq<char>, i: int) -> int
    decreases s.len() - i,
{
    if 0 <= i < s.len() && is_word_char(s[i]) {
        word_end(s, i + 1)
    } else {
        i
    }
}

/// First index at or after `i` whose character does not continue a number.
pub open spec fn number_end(s: Seq<char>, i: int) -> int
    decreases s.len() - i,
{
    if 0 <= i < s.len() && is_number_char(s[i]) {
        number_end(s, i + 1)
    } else {
        i
    }
}

/// First index at or after `i` holding a line break, or the end.
pub open spec fn line_end(s: Seq<char>, i: int) -> int
    decreases s.len() - i,
{
    if 0 <= i < s.len() && s[i] != '\n' {
        line_end(s, i + 1)
    } else {
        i
    }
}

/// First index at or after `i` holding a double quote or a line break, or the end.
pub open spec fn quote_end(s: Seq<char>, i: int) -> int
    decreases s.len() - i,
{
    if 0 <= i < s.len() && s[i] != '"' && s[i] != '\n' {
        quote_end(s, i + 1)
    } else {
        i
    }
}

/// The token class of a word: a keyword, or an identifier.
pub open spec fn keyword(w: Seq<char>) -> ClassV {
    if w == "declare"@ {
        ClassV::Symbol(Symbol::Declare)
    } else if w == "module"@ {
        ClassV::Symbol(Symbol::Module)
    } else if w == "input"@ {
        ClassV::Symbol(Symbol::Input)
    } else if w == "output"@ {
        ClassV::Symbol(Symbol::Output)
    } else if w == "inout"@ {
        ClassV::Symbol(Symbol::InOut)
    } else if w == "func_in"@ {
        ClassV::Symbol(Symbol::FuncIn)
    } else if w == "func_out"@ {
        ClassV::Symbol(Symbol::FuncOut)
    } else if w == "func_self"@ {
        ClassV::Symbol(Symbol::FuncSelf)
    } else if w == "include"@ {
        ClassV::Macro(Macro::Include)
    } else if w == "define"@ {
        ClassV::Macro(Macro::Define)
    } else if w == "undef"@ {
        ClassV::Macro(Macro::Undef)
    } else if w == "ifdef"@ {
        ClassV::Macro(Macro::Ifdef)
    } else if w == "ifndef"@ {
        ClassV::Macro(Macro::Ifndef)
    } else if w == "endif"@ {
        ClassV::Macro(Macro::Endif)
    } else if w == "wire"@ {
        ClassV::Symbol(Symbol::Wire)
    } else if w == "reg"@ {
        ClassV::Symbol(Symbol::Reg)
    } else if w == "proc_name"@ {
        ClassV::Symbol(Symbol::ProcName)
    } else if w == "state_name"@ {
        ClassV::Symbol(Symbol::StateName)
    } else if w == "mem"@ {
        ClassV::Symbol(Symbol::Mem)
    } else if w == "func"@ {
        ClassV::Symbol(Symbol::Func)
    } else if w == "return"@ {
        ClassV::Symbol(Symbol::Return)
    } else if w == "any"@ {
        ClassV::Symbol(Symbol::Any)
    } else if w == "else"@ {
        ClassV::Symbol(Symbol::Else)
    } else if w == "state"@ {
        ClassV::Symbol(Symbol::State)
    } else if w == "struct"@ {
        ClassV::Symbol(Symbol::Struct)
    } else if w == "if"@ {
        ClassV::Symbol(Symbol::If)
    } else {
        ClassV::Identifire(w)
    }
}

/// A number starting at `pos`: digits, then optionally `'` with a radix
/// letter and more digits, or `x`/`b` and more digits. The token keeps the
/// source spelling.
pub open spec fn number_token(s: Seq<char>, pos: int) -> Result<(ClassV, int), LexError> {
    let e1 = number_end(s, pos);
    if e1 >= s.len() {
        Err(LexError::MissingCharacter)
    } else if s[e1] == '\'' {
        if e1 + 1 >= s.len() {
            Err(LexError::MissingCharacter)
        } else {
            let r = s[e1 + 1];
            if r == 'x' || r == 'b' || r == 'h' || r == 'd' {
                let e2 = number_end(s, e1 + 2);
                Ok((ClassV::Number(s.subrange(pos, e2)), e2))
            } else {
                Err(LexError::UnexpectedRadix(r))
            }
        }
    } else if s[e1] == 'x' || s[e1] == 'b' {
        let e2 = number_end(s, e1 + 1);
        Ok((ClassV::Number(s.subrange(pos, e2)), e2))
    } else {
        Ok((ClassV::Number(s.subrange(pos, e1)), e1))
    }
}

/// One line of a `/* */` comment, from `i`: the text read, where reading
/// stopped, and whether the comment is over (closed, or the input ended).
pub open spec fn comment_line(s: Seq<char>, i: int, word: Seq<char>, star: bool) -> (Seq<char>, int, bool)
    decreases s.len() - i,
{
    if i < 0 || i >= s.len() {
        (word, i, true)
    } else {
        let c = s[i];
        if c == '\n' {
            (word, i + 1, false)
        } else if c == '*' {
            comment_line(s, i + 1, word.push(c), true)
        } else if c == '/' && star {
            (word.drop_last(), i + 1, true)
        } else {
            comment_line(s, i + 1, word.push(c), false)
        }
    }
}

/// The lines of a `/* */` comment whose text starts at `i`, and where it ends.
pub open spec fn block_comment(s: Seq<char>, i: int, acc: Seq<Seq<char>>) -> (Seq<Seq<char>>, int)
    decreases s.len() - i,
{
    let (w, j, fin) = comment_line(s, i, Seq::empty(), false);
    if fin || !(i < j <= s.len()) {
        (acc.push(w), j)
    } else {
        block_comment(s, j, acc.push(w))
    }
}

pub open spec fn sym(x: Symbol) -> ClassV {
    ClassV::Symbol(x)
}

pub open spec fn op(x: Operator) -> ClassV {
    ClassV::Operator(x)
}

/// The token that starts at or after `pos` (blanks are skipped), and the
/// index just past it. Line breaks are tokens of their own.
pub open spec fn raw_token(s: Seq<char>, pos: int) -> Result<(ClassV, int), LexError>
    decreases s.len() - pos,
{
    if pos < 0 || pos >= s.len() {
        Ok((ClassV::EndOfProgram, pos))
    } else {
        let c = s[pos];
        let more = pos + 1 < s.len();
        if is_ident_start(c) {
            let e = word_end(s, pos + 1);
            Ok((keyword(s.subrange(pos, e)), e))
        } else if '0' <= c && c <= '9' {
            number_token(s, pos)
        } else if c == '{' {
            Ok((sym(Symbol::OpeningBrace), pos + 1))
        } else if c == '}' {
            Ok((sym(Symbol::ClosingBrace), pos + 1))
        } else if c == '(' {
            Ok((sym(Symbol::LeftParen), pos + 1))
        } else if c == ')' {
            Ok((sym(Symbol::RightParen), pos + 1))
        } else if c == '[' {
            Ok((sym(Symbol::LeftSquareBracket), pos + 1))
        } else if c == ']' {
            Ok((sym(Symbol::RightSquareBracket), pos + 1))
        } else if c == ';' {
            Ok((sym(Symbol::Semicolon), pos + 1))
        } else if c == ':' {
            if more && s[pos + 1] == '=' {
                Ok((sym(Symbol::RegAssign), pos + 2))
            } else {
                Ok((sym(Symbol::Colon), pos + 1))
            }
        } else if c == ',' {
            Ok((sym(Symbol::Comma), pos + 1))
        } else if c == '.' {
            Ok((sym(Symbol::Dot), pos + 1))
        } else if c == '#' {
            Ok((sym(Symbol::Sharp), pos + 1))
        } else if c == '*' {
            Ok((op(Operator::Asterisk), pos + 1))
        } else if c == '+' {
            if more && s[pos + 1] == '+' {
                Ok((ClassV::UnaryOperator(UnaryOperator::Increment), pos + 2))
            } else {
                Ok((op(Operator::Plus), pos + 1))
            }
        } else if c == '-' {
            if more && s[pos + 1] == '-' {
                Ok((ClassV::UnaryOperator(UnaryOperator::Decrement), pos + 2))
            } else {
                Ok((op(Operator::Minus), pos + 1))
            }
        } else if c == '!' {
            Ok((ClassV::UnaryOperator(UnaryOperator::Not), pos + 1))
        } else if c == '|' {
            Ok((op(Operator::Pipe), pos + 1))
        } else if c == '\'' {
            Ok((sym(Symbol::SingleQuote), pos + 1))
        } else if c == '=' {
            if !more {
                raw_token(s, pos + 1)
            } else if s[pos + 1] == '=' {
                Ok((op(Operator::Equal), pos + 2))
            } else {
                Ok((sym(Symbol::Equal), pos + 1))
            }
        } else if c == '>' {
            if !more {
                raw_token(s, pos + 1)
            } else if s[pos + 1] == '=' {
                Ok((op(Operator::GreaterEq), pos + 2))
            } else {
                Ok((op(Operator::GreaterThan), pos + 1))
            }
        } else if c == '<' {
            if !more {
                raw_token(s, pos + 1)
            } else if s[pos + 1] == '=' {
                Ok((op(Operator::LessEq), pos + 2))
            } else {
                Ok((op(Operator::LessThan), pos + 1))
            }
        } else if c == '&' {
            if !more {
                raw_token(s, pos + 1)
            } else if s[pos + 1] == '&' {
                Ok((op(Operator::LogicAnd), pos + 2))
            } else {
                Ok((op(Operator::And), pos + 1))
            }
        } else if c == '/' {
            if !more {
                Err(LexError::SlashAtEnd)
            } else if s[pos + 1] == '/' {
                let e = line_end(s, pos + 2);
                Ok((ClassV::CPPStyleComment(s.subrange(pos + 2, e)), e))
            } else if s[pos + 1] == '*' {
                let (lines, e) = block_comment(s, pos + 2, Seq::empty());
                Ok((ClassV::CStyleComment(lines), e))
            } else {
                Ok((op(Operator::Slash), pos + 1))
            }
        } else if c == '"' {
            let e = quote_end(s, pos + 1);
            if e < s.len() && s[e] == '"' {
                Ok((ClassV::Str(s.subrange(pos + 1, e)), e + 1))
            } else {
                Err(LexError::UnclosedString)
            }
        } else if c == '\n' {
            Ok((ClassV::Newline, pos + 1))
        } else if c == ' ' || c == '\t' {
            raw_token(s, pos + 1)
        } else {
            Err(LexError::InvalidCharacter(c))
        }
    }
}

/// Where the lexer stands in its input: the index of the next character,
/// the current line, and how many tokens it has handed out.
pub struct LexState {
    pub pos: int,
    pub line: int,
    pub id: int,
}

pub open spec fn moved(s: Seq<char>, a: LexState, b: LexState) -> bool {
    a.pos < b.pos <= s.len()
}

/// The next token from state `st`, and the state after it. With `pass`,
/// line breaks are skipped; they still advance the line count but take no
/// token number.
pub open spec fn spec_next(s: Seq<char>, st: LexState, pass: bool) -> Result<(TokenV, LexState), LexError>
    decreases s.len() - st.pos,
{
    match raw_token(s, st.pos) {
        Err(e) => Err(e),
        Ok((c, p)) => {
            let is_nl = c is Newline;
            let line2 = if is_nl { st.line + 1 } else { st.line };
            if is_nl && pass {
                let st2 = LexState { pos: p, line: line2, id: st.id };
                if moved(s, st, st2) {
                    spec_next(s, st2, pass)
                } else {
                    Err(LexError::MissingCharacter)
                }
            } else {
                Ok((
                    TokenV { class: c, line: st.line, id: st.id + 1 },
                    LexState { pos: p, line: line2, id: st.id + 1 },
                ))
            }
        }
    }
}

/// At the end of the input every read gives the end of the program.
pub proof fn lemma_next_at_end(s: Seq<char>, st: LexState, pass: bool)
    requires
        st.pos == s.len(),
    ensures
        spec_next(s, st, pass) == Ok::<(TokenV, LexState), LexError>(
            (
                TokenV { class: ClassV::EndOfProgram, line: st.line, id: st.id + 1 },
                LexState { pos: st.pos, line: st.line, id: st.id + 1 },
            ),
        ),
{
}

// ---------------------------------------------------------------------------
// Laws of the token stream.
// ---------------------------------------------------------------------------

/// Reading with line breaks skipped never hands out a line break.
pub proof fn law_skipping_hides_line_breaks(s: Seq<char>, st: LexState)
    ensures
        spec_next(s, st, true) matches Ok((t, st2)) ==> !(t.class is Newline),
    decreases s.len() - st.pos,
{
    if let Ok((c, p)) = raw_token(s, st.pos) {
        if c is Newline {
            let st2 = LexState { pos: p, line: st.line + 1, id: st.id };
            if moved(s, st, st2) {
                law_skipping_hides_line_breaks(s, st2);
            }
        }
    }
}

/// Every token read takes the next number: the count of tokens handed out
/// grows by one. The token's line is the line the lexer stood on once the
/// skipped line breaks were counted, and the line count never goes back.
pub proof fn law_token_numbering(s: Seq<char>, st: LexState, pass: bool)
    ensures
        spec_next(s, st, pass) matches Ok((t, st2)) ==> {
            &&& t.id == st.id + 1
            &&& st2.id == st.id + 1
            &&& st.line <= t.line <= st2.line
            &&& (!(t.class is Newline) ==> st2.line == t.line)
        },
    decreases s.len() - st.pos,
{
    if let Ok((c, p)) = raw_token(s, st.pos) {
        if c is Newline && pass {
            let st2 = LexState { pos: p, line: st.line + 1, id: st.id };
            if moved(s, st, st2) {
                law_token_numbering(s, st2, pass);
            }
        }
    }
}

/// At the end of the input every read gives `EndOfProgram` and the lexer
/// stays at the end, on the same line; only the token count grows.
pub proof fn law_end_repeats(s: Seq<char>, st: LexState, pass: bool)
    requires
        st.pos == s.len(),
    ensures
        spec_next(s, st, pass) matches Ok((t, st2)) && t.class is EndOfProgram && st2.pos == s.len()
            && st2.line == st.line,
{
    lemma_next_at_end(s, st, pass);
}

pub proof fn lemma_number_end_bounds(s: Seq<char>, i: int)
    requires
        0 <= i <= s.len(),
    ensures
        i <= number_end(s, i) <= s.len(),
    decreases s.len() - i,
{
    if i < s.len() && is_number_char(s[i]) {
        lemma_number_end_bounds(s, i + 1);
    }
}

pub proof fn lemma_line_end_bounds(s: Seq<char>, i: int)
    requires
        0 <= i <= s.len(),
    ensures
        i <= line_end(s, i) <= s.len(),
    decreases s.len() - i,
{
    if i < s.len() && s[i] != '\n' {
        lemma_line_end_bounds(s, i + 1);
    }
}

pub proof fn lemma_quote_end_bounds(s: Seq<char>, i: int)
    requires
        0 <= i <= s.len(),
    ensures
        i <= quote_end(s, i) <= s.len(),
    decreases s.len() - i,
{
    if i < s.len() && s[i] != '"' && s[i] != '\n' {
        lemma_quote_end_bounds(s, i + 1);
    }
}

pub proof fn lemma_comment_line_bounds(s: Seq<char>, i: int, w: Seq<char>, star: bool)
    requires
        0 <= i <= s.len(),
    ensures
        i <= comment_line(s, i, w, star).1 <= s.len(),
    decreases s.len() - i,
{
    if i < s.len() {
        let c = s[i];
        if c == '*' {
            lemma_comment_line_bounds(s, i + 1, w.push(c), true);
        } else if !(c == '\n') && !(c == '/' && star) {
            lemma_comment_line_bounds(s, i + 1, w.push(c), false);
        }
    }
}

pub proof fn lemma_block_comment_bounds(s: Seq<char>, i: int, acc: Seq<Seq<char>>)
    requires
        0 <= i <= s.len(),
    ensures
        i <= block_comment(s, i, acc).1 <= s.len(),
    decreases s.len() - i,
{
    lemma_comment_line_bounds(s, i, Seq::empty(), false);
    let (w, j, fin) = comment_line(s, i, Seq::empty(), false);
    if !(fin || !(i < j <= s.len())) {
        lemma_block_comment_bounds(s, j, acc.push(w));
    }
}

/// A raw token ends within the input; every token but the end of the
/// program takes at least one character, and the end of the program is
/// found only at the end of the input.
pub proof fn lemma_raw_token_progress(s: Seq<char>, pos: int)
    requires
        0 <= pos <= s.len(),
    ensures
        raw_token(s, pos) matches Ok((c, p)) ==> {
            &&& pos <= p <= s.len()
            &&& (c is EndOfProgram ==> p == s.len())
            &&& (!(c is EndOfProgram) ==> pos < p)
        },
    decreases s.len() - pos,
{
    if pos < s.len() {
        let c = s[pos];
        let more = pos + 1 < s.len();
        if is_ident_start(c) {
            lemma_word_end_ge(s, pos + 1);
        } else if '0' <= c && c <= '9' {
            lemma_number_end_bounds(s, pos);
            lemma_number_end_bounds(s, pos + 1);
            let e1 = number_end(s, pos);
            if e1 < s.len() {
                if s[e1] == '\'' {
                    if e1 + 1 < s.len() {
                        lemma_number_end_bounds(s, e1 + 2);
                    }
                } else if s[e1] == 'x' || s[e1] == 'b' {
                    lemma_number_end_bounds(s, e1 + 1);
                }
            }
        } else if c == '/' {
            if more {
                if s[pos + 1] == '/' {
                    lemma_line_end_bounds(s, pos + 2);
                } else if s[pos + 1] == '*' {
                    lemma_block_comment_bounds(s, pos + 2, Seq::empty());
                }
            }
        } else if c == '"' {
            lemma_quote_end_bounds(s, pos + 1);
        } else if (c == '=' || c == '>' || c == '<' || c == '&') && !more {
            lemma_raw_token_progress(s, pos + 1);
        } else if c == ' ' || c == '\t' {
            lemma_raw_token_progress(s, pos + 1);
        }
    }
}

/// The classes and lines of the tokens read from `st` up to the end of the
/// program (not included); `None` when reading fails on the way.
pub open spec fn token_stream(s: Seq<char>, st: LexState, pass: bool) -> Option<Seq<(ClassV, int)>>
    decreases s.len() - st.pos,
{
    match spec_next(s, st, pass) {
        Err(e) => None,
        Ok((t, st2)) => if t.class is EndOfProgram {
            Some(Seq::empty())
        } else if moved(s, st, st2) {
            match token_stream(s, st2, pass) {
                Some(r) => Some(seq![(t.class, t.line)] + r),
                None => None,
            }
        } else {
            None
        },
    }
}

/// `v` without its line breaks.
pub open spec fn without_line_breaks(v: Seq<(ClassV, int)>) -> Seq<(ClassV, int)>
    decreases v.len(),
{
    if v.len() == 0 {
        v
    } else if v[0].0 is Newline {
        without_line_breaks(v.drop_first())
    } else {
        seq![v[0]] + without_line_breaks(v.drop_first())
    }
}

/// Reading with line breaks skipped gives the tokens that reading without
/// skipping gives, with the line breaks taken out: the same classes, on
/// the same lines, in the same order (the token numbers differ, since a
/// skipped line break takes no number). One reading fails exactly when the
/// other does.
pub proof fn law_skipping_removes_line_breaks(s: Seq<char>, a: LexState, b: LexState)
    requires
        0 <= a.pos <= s.len(),
        a.pos == b.pos,
        a.line == b.line,
    ensures
        token_stream(s, a, true) == (match token_stream(s, b, false) {
            Some(v) => Some(without_line_breaks(v)),
            None => None,
        }),
    decreases s.len() - a.pos,
{
    lemma_raw_token_progress(s, a.pos);
    if let Ok((c, p)) = raw_token(s, a.pos) {
        if !(c is EndOfProgram) {
            if c is Newline {
                let a2 = LexState { pos: p, line: a.line + 1, id: a.id };
                let b2 = LexState { pos: p, line: b.line + 1, id: b.id + 1 };
                assert(spec_next(s, a, true) == spec_next(s, a2, true));
                lemma_next_progress(s, a2, true);
                assert(token_stream(s, a, true) == token_stream(s, a2, true));
                law_skipping_removes_line_breaks(s, a2, b2);
                if let Some(v) = token_stream(s, b2, false) {
                    let w = seq![(c, b.line)] + v;
                    assert(w.drop_first() =~= v);
                }
            } else {
                let a2 = LexState { pos: p, line: a.line, id: a.id + 1 };
                let b2 = LexState { pos: p, line: b.line, id: b.id + 1 };
                law_skipping_removes_line_breaks(s, a2, b2);
                if let Some(v) = token_stream(s, b2, false) {
                    let w = seq![(c, b.line)] + v;
                    assert(w.drop_first() =~= v);
                    assert(without_line_breaks(w) =~= seq![(c, b.line)] + without_line_breaks(v));
                }
            }
        }
    }
}

/// A read ends within the input; a token other than the end of the
/// program takes at least one character, and the end of the program is
/// found only at the end of the input.
pub proof fn lemma_next_progress(s: Seq<char>, st: LexState, pass: bool)
    requires
        0 <= st.pos <= s.len(),
    ensures
        spec_next(s, st, pass) matches Ok((t, st2)) ==> {
            &&& st.pos <= st2.pos <= s.len()
            &&& (t.class is EndOfProgram ==> st2.pos == s.len())
            &&& (!(t.class is EndOfProgram) ==> st.pos < st2.pos)
        },
    decreases s.len() - st.pos,
{
    lemma_raw_token_progress(s, st.pos);
    if let Ok((c, p)) = raw_token(s, st.pos) {
        if c is Newline && pass {
            let st2 = LexState { pos: p, line: st.line + 1, id: st.id };
            lemma_next_progress(s, st2, pass);
        }
    }
}

/// Where `:`, `=`, `>`, `<` or `&` is followed by a second character: `:=`,
/// `==`, `>=`, `<=` and `&&` are one token of two characters; otherwise the
/// first character alone is a token (`:`, `=`, `>`, `<`, `&`).
pub proof fn law_two_character_operators(s: Seq<char>, pos: int)
    requires
        0 <= pos,
        pos + 1 < s.len(),
    ensures
        s[pos] == ':' ==> raw_token(s, pos) == Ok::<(ClassV, int), LexError>(
            if s[pos + 1] == '=' { (sym(Symbol::RegAssign), pos + 2) } else { (sym(Symbol::Colon), pos + 1) },
        ),
        s[pos] == '=' ==> raw_token(s, pos) == Ok::<(ClassV, int), LexError>(
            if s[pos + 1] == '=' { (op(Operator::Equal), pos + 2) } else { (sym(Symbol::Equal), pos + 1) },
        ),
        s[pos] == '>' ==> raw_token(s, pos) == Ok::<(ClassV, int), LexError>(
            if s[pos + 1] == '=' { (op(Operator::GreaterEq), pos + 2) } else { (op(Operator::GreaterThan), pos + 1) },
        ),
        s[pos] == '<' ==> raw_token(s, pos) == Ok::<(ClassV, int), LexError>(
            if s[pos + 1] == '=' { (op(Operator::LessEq), pos + 2) } else { (op(Operator::LessThan), pos + 1) },
        ),
        s[pos] == '&' ==> raw_token(s, pos) == Ok::<(ClassV, int), LexError>(
            if s[pos + 1] == '&' { (op(Operator::LogicAnd), pos + 2) } else { (op(Operator::And), pos + 1) },
        ),
{
}

/// Read without skipping, a token is on the line the lexer stands on; a
/// line break moves the lexer to the next line, any other token leaves the
/// line as it was.
pub proof fn law_line_breaks_count_lines(s: Seq<char>, st: LexState)
    ensures
        spec_next(s, st, false) matches Ok((t, st2)) ==> {
            &&& t.line == st.line
            &&& st2.line == (if t.class is Newline { st.line + 1 } else { st.line })
        },
{
}

pub proof fn lemma_quote_end_chars(s: Seq<char>, i: int)
    requires
        0 <= i <= s.len(),
    ensures
        forall|k: int| i <= k < quote_end(s, i) ==> s[k] != '"' && s[k] != '\n',
    decreases s.len() - i,
{
    if i < s.len() && s[i] != '"' && s[i] != '\n' {
        lemma_quote_end_chars(s, i + 1);
    }
}

/// A `"` starts a string: its text is everything up to the next `"` on the
/// same line, kept as written, and both quotes are taken. With no closing
/// quote on the line, reading fails.
pub proof fn law_string_tokens(s: Seq<char>, pos: int)
    requires
        0 <= pos < s.len(),
        s[pos] == '"',
    ensures
        ({
            let e = quote_end(s, pos + 1);
            &&& forall|k: int| pos + 1 <= k < e ==> s[k] != '"' && s[k] != '\n'
            &&& raw_token(s, pos) == (if e < s.len() && s[e] == '"' {
                Ok::<(ClassV, int), LexError>((ClassV::Str(s.subrange(pos + 1, e)), e + 1))
            } else {
                Err::<(ClassV, int), LexError>(LexError::UnclosedString)
            })
        }),
{
    lemma_quote_end_chars(s, pos + 1);
}

/// A letter or `_` starts a word: the longest run of alphanumeric
/// characters and `_` is taken, and the word is a keyword's token or else
/// a name.
pub proof fn law_words(s: Seq<char>, pos: int)
    requires
        0 <= pos < s.len(),
        is_ident_start(s[pos]),
    ensures
        ({
            let e = word_end(s, pos + 1);
            &&& pos < e <= s.len()
            &&& e == s.len() || !is_word_char(s[e])
            &&& raw_token(s, pos) == Ok::<(ClassV, int), LexError>((keyword(s.subrange(pos, e)), e))
        }),
{
    lemma_word_end_ge(s, pos + 1);
    lemma_word_end_stops(s, pos + 1);
}

pub proof fn lemma_word_end_stops(s: Seq<char>, i: int)
    requires
        0 <= i <= s.len(),
    ensures
        word_end(s, i) == s.len() || !is_word_char(s[word_end(s, i)]),
    decreases s.len() - i,
{
    if i < s.len() && is_word_char(s[i]) {
        lemma_word_end_stops(s, i + 1);
    }
}

/// A digit starts a number, read as `number_token` says: its spelling is
/// kept as written.
pub proof fn law_numbers(s: Seq<char>, pos: int)
    requires
        0 <= pos < s.len(),
        '0' <= s[pos] <= '9',
    ensures
        raw_token(s, pos) == number_token(s, pos),
        number_token(s, pos) matches Ok((c, p)) ==> c == ClassV::Number(s.subrange(pos, p)) && pos < p <= s.len(),
{
    lemma_raw_token_progress(s, pos);
}

/// Of two reads one after the other, the second token is on the same line
/// or a later one; once the end of the program is read, the next read gives
/// it again on the same line, with the next number.
pub proof fn law_reads_in_order(s: Seq<char>, st: LexState, first: bool, second: bool)
    requires
        0 <= st.pos <= s.len(),
    ensures
        spec_next(s, st, first) matches Ok((t1, st1)) ==> (spec_next(s, st1, second) matches Ok((t2, st2)) ==> {
            &&& t1.line <= t2.line
            &&& (t1.class is EndOfProgram ==> t2.class is EndOfProgram && t2.line == t1.line && t2.id == t1.id + 1)
        }),
{
    law_token_numbering(s, st, first);
    lemma_next_progress(s, st, first);
    if let Ok((t1, st1)) = spec_next(s, st, first) {
        law_token_numbering(s, st1, second);
        if t1.class is EndOfProgram {
            law_end_repeats(s, st1, second);
        }
    }
}

pub proof fn lemma_number_end_exact(s: Seq<char>, i: int, e: int)
    requires
        0 <= i <= e <= s.len(),
        forall|k: int| i <= k < e ==> is_number_char(#[trigger] s[k]),
        e == s.len() || !is_number_char(s[e]),
    ensures
        number_end(s, i) == e,
    decreases e - i,
{
    if i < e {
        lemma_number_end_exact(s, i + 1, e);
    }
}

/// A sized number — digits, a quote, one of the radix letters `x`, `b`,
/// `h`, `d`, and more digits — is one `Number` token that keeps all of
/// those characters as written, and reading goes on just after them.
pub proof fn law_sized_numbers(s: Seq<char>, st: LexState, pass: bool, q: int, e: int)
    requires
        0 <= st.pos < q,
        '0' <= s[st.pos] <= '9',
        forall|k: int| st.pos <= k < q ==> is_number_char(#[trigger] s[k]),
        q + 1 < s.len(),
        s[q] == '\'',
        s[q + 1] == 'x' || s[q + 1] == 'b' || s[q + 1] == 'h' || s[q + 1] == 'd',
        q + 2 <= e <= s.len(),
        forall|k: int| q + 2 <= k < e ==> is_number_char(#[trigger] s[k]),
        e == s.len() || !is_number_char(s[e]),
    ensures
        spec_next(s, st, pass) == Ok::<(TokenV, LexState), LexError>(
            (
                TokenV { class: ClassV::Number(s.subrange(st.pos, e)), line: st.line, id: st.id + 1 },
                LexState { pos: e, line: st.line, id: st.id + 1 },
            ),
        ),
{
    lemma_number_end_exact(s, st.pos, q);
    lemma_number_end_exact(s, q + 2, e);
}

/// Printing an operator gives back what the lexer reads it from: the
/// printed form, followed by a blank, reads as that same operator and
/// nothing more.
pub proof fn law_operators_read_back(o: Operator)
    ensures
        raw_token(op_text(o) + seq![' '], 0) == Ok::<(ClassV, int), LexError>(
            (ClassV::Operator(o), op_text(o).len() as int),
        ),
{
    let x = op_text(o) + seq![' '];
    match o {
        Operator::Plus => assert(x =~= seq!['+', ' ']),
        Operator::Minus => assert(x =~= seq!['-', ' ']),
        Operator::Asterisk => assert(x =~= seq!['*', ' ']),
        Operator::Slash => assert(x =~= seq!['/', ' ']),
        Operator::And => assert(x =~= seq!['&', ' ']),
        Operator::Pipe => assert(x =~= seq!['|', ' ']),
        Operator::LogicAnd => assert(x =~= seq!['&', '&', ' ']),
        Operator::Equal => assert(x =~= seq!['=', '=', ' ']),
        Operator::GreaterEq => assert(x =~= seq!['>', '=', ' ']),
        Operator::LessEq => assert(x =~= seq!['<', '=', ' ']),
        Operator::GreaterThan => assert(x =~= seq!['>', ' ']),
        Operator::LessThan => assert(x =~= seq!['<', ' ']),
    }
}

/// Printing a unary operator gives back what the lexer reads it from.
pub proof fn law_unary_operators_read_back(u: UnaryOperator)
    ensures
        raw_token(uop_text(u) + seq![' '], 0) == Ok::<(ClassV, int), LexError>(
            (ClassV::UnaryOperator(u), uop_text(u).len() as int),
        ),
{
    let x = uop_text(u) + seq![' '];
    match u {
        UnaryOperator::Not => assert(x =~= seq!['!', ' ']),
        UnaryOperator::Increment => assert(x =~= seq!['+', '+', ' ']),
        UnaryOperator::Decrement => assert(x =~= seq!['-', '-', ' ']),
    }
}

/// The keywords that have a printed form print as the keyword followed by
/// a blank, so that what comes next stays a token of its own: without the
/// blank, the keyword reads back as that keyword.
pub proof fn law_printed_keywords_read_back(k: Symbol)
    requires
        k == Symbol::Input || k == Symbol::Output || k == Symbol::FuncOut,
    ensures
        token_text(ClassV::Symbol(k)) matches Some(x) && x.len() > 0 && x.last() == ' ' && keyword(x.drop_last())
            == ClassV::Symbol(k),
{
    reveal_strlit("input");
    reveal_strlit("output");
    reveal_strlit("func_out");
    reveal_strlit("declare");
    reveal_strlit("module");
    reveal_strlit("inout");
    reveal_strlit("func_in");
    let x = token_text(ClassV::Symbol(k)).unwrap();
    assert("input"@.len() == 5);
    assert("declare"@.len() == 7);
    assert("module"@.len() == 6);
    assert("input"@ != "declare"@);
    assert("input"@ != "module"@);
    assert("output"@ != "declare"@);
    assert("output"@[0] != "module"@[0]);
    assert("output"@ != "module"@);
    assert("output"@[0] != "input"@[0]);
    assert("func_out"@ != "declare"@);
    assert("func_out"@ != "module"@);
    assert("func_out"@ != "input"@);
    assert("func_out"@ != "output"@);
    assert("inout"@.len() == 5);
    assert("func_out"@ != "inout"@);
    assert("func_out"@[5] != "func_in"@[5]);
    if k == Symbol::Input {
        assert(x.drop_last() =~= "input"@);
    } else if k == Symbol::Output {
        assert(x.drop_last() =~= "output"@);
    } else {
        assert(x.drop_last() =~= "func_out"@);
    }
}

/// A token's printed form (as in a `#define` body) reads back as the same
/// token: a name or a number is its text, a string its text in quotes, and
/// a printed symbol or operator reads as itself with only blanks around it
/// (keywords: `law_printed_keywords_read_back`).
pub proof fn law_printed_tokens_read_back(c: ClassV)
    ensures
        token_text(c) matches Some(x) ==> {
            &&& (c matches ClassV::Identifire(w) ==> x == w)
            &&& (c matches ClassV::Number(w) ==> x == w)
            &&& (c matches ClassV::Str(w) ==> x == seq!['"'] + w + seq!['"'])
            &&& (c is Operator || (c is Symbol && c != ClassV::Symbol(Symbol::Input) && c != ClassV::Symbol(
                Symbol::Output,
            ) && c != ClassV::Symbol(Symbol::FuncOut)) ==> (raw_token(x, 0) matches Ok((c2, p)) && c2 == c
                && 0 < p <= x.len() && (forall|k: int| p <= k < x.len() ==> x[k] == ' ')))
        },
{
    match c {
        ClassV::Operator(o) => {
            let x = seq![' '] + op_text(o) + seq![' '];
            match o {
                Operator::Plus => assert(x =~= seq![' ', '+', ' ']),
                Operator::Minus => assert(x =~= seq![' ', '-', ' ']),
                Operator::Asterisk => assert(x =~= seq![' ', '*', ' ']),
                Operator::Slash => assert(x =~= seq![' ', '/', ' ']),
                Operator::And => assert(x =~= seq![' ', '&', ' ']),
                Operator::Pipe => assert(x =~= seq![' ', '|', ' ']),
                Operator::LogicAnd => assert(x =~= seq![' ', '&', '&', ' ']),
                Operator::Equal => assert(x =~= seq![' ', '=', '=', ' ']),
                Operator::GreaterEq => assert(x =~= seq![' ', '>', '=', ' ']),
                Operator::LessEq => assert(x =~= seq![' ', '<', '=', ' ']),
                Operator::GreaterThan => assert(x =~= seq![' ', '>', ' ']),
                Operator::LessThan => assert(x =~= seq![' ', '<', ' ']),
            }
            assert(raw_token(x, 1) == raw_token(x, 0));
        },
        ClassV::Symbol(Symbol::RightSquareBracket) => {
            assert(raw_token(seq![' ', ']'], 0) == raw_token(seq![' ', ']'], 1));
        },
        ClassV::Symbol(Symbol::RightParen) => {
            assert(raw_token(seq![' ', ')'], 0) == raw_token(seq![' ', ')'], 1));
        },
        _ => {},
    }
}

pub proof fn lemma_word_end_ge(s: Seq<char>, i: int)
    ensures
        word_end(s, i) >= i,
        0 <= i <= s.len() ==> word_end(s, i) <= s.len(),
    decreases s.len() - i,
{
    if 0 <= i < s.len() && is_word_char(s[i]) {
        lemma_word_end_ge(s, i + 1);
    }
}

pub proof fn lemma_number_end_ge(s: Seq<char>, i: int)
    ensures
        number_end(s, i) >= i,
    decreases s.len() - i,
{
    if 0 <= i < s.len() && is_number_char(s[i]) {
        lemma_number_end_ge(s, i + 1);
    }
}

// ---------------------------------------------------------------------------
// Executable scanners.
// ---------------------------------------------------------------------------

pub open spec fn raw_agrees(res: Result<(TokenClass, usize), LexError>, spec: Result<(ClassV, int), LexError>) -> bool {
    match res {
        Ok((c, p)) => spec == Ok::<(ClassV, int), LexError>((c@, p as int)),
        Err(e) => spec == Err::<(ClassV, int), LexError>(e),
    }
}

/// The end of the word that starts at `i`; a word that starts with a letter
/// or `_` takes at least that character.
pub(crate) fn scan_word(s: &Vec<char>, i: usize) -> (e: usize)
    requires
        i <= s.len(),
    ensures
        e as int == word_end(s@, i as int),
        i <= e <= s.len(),
        i < s.len() && is_ident_start(s@[i as int]) ==> is_word_char(s@[i as int]),
{
    let mut j = i;
    while j < s.len() && (is_alphanumeric(s[j]) || s[j] == '_')
        invariant
            i <= j <= s.len(),
            word_end(s@, i as int) == word_end(s@, j as int),
            i < j ==> is_word_char(s@[i as int]),
        decreases s.len() - j,
    {
        j += 1;
    }
    j
}

fn scan_number(s: &Vec<char>, i: usize) -> (e: usize)
    requires
        i <= s.len(),
    ensures
        e as int == number_end(s@, i as int),
        i <= e <= s.len(),
{
    let mut j = i;
    while j < s.len() && (('0' <= s[j] && s[j] <= '9') || ('a' <= s[j] && s[j] <= 'f') || ('A'
        <= s[j] && s[j] <= 'F') || s[j] == '_')
        invariant
            i <= j <= s.len(),
            number_end(s@, i as int) == number_end(s@, j as int),
        decreases s.len() - j,
    {
        j += 1;
    }
    j
}

fn scan_line(s: &Vec<char>, i: usize) -> (e: usize)
    requires
        i <= s.len(),
    ensures
        e as int == line_end(s@, i as int),
        i <= e <= s.len(),
{
    let mut j = i;
    while j < s.len() && s[j] != '\n'
        invariant
            i <= j <= s.len(),
            line_end(s@, i as int) == line_end(s@, j as int),
        decreases s.len() - j,
    {
        j += 1;
    }
    j
}

fn scan_quote(s: &Vec<char>, i: usize) -> (e: usize)
    requires
        i <= s.len(),
    ensures
        e as int == quote_end(s@, i as int),
        i <= e <= s.len(),
{
    let mut j = i;
    while j < s.len() && s[j] != '"' && s[j] != '\n'
        invariant
            i <= j <= s.len(),
            quote_end(s@, i as int) == quote_end(s@, j as int),
        decreases s.len() - j,
    {
        j += 1;
    }
    j
}

fn keyword_class(s: &Vec<char>, start: usize, end: usize) -> (c: TokenClass)
    requires
        start <= end <= s.len(),
    ensures
        c@ == keyword(s@.subrange(start as int, end as int)),
{
    if chars_equal_str(s, start, end, "declare") {
        TokenClass::Symbol(Symbol::Declare)
    } else if chars_equal_str(s, start, end, "module") {
        TokenClass::Symbol(Symbol::Module)
    } else if chars_equal_str(s, start, end, "input") {
        TokenClass::Symbol(Symbol::Input)
    } else if chars_equal_str(s, start, end, "output") {
        TokenClass::Symbol(Symbol::Output)
    } else if chars_equal_str(s, start, end, "inout") {
        TokenClass::Symbol(Symbol::InOut)
    } else if chars_equal_str(s, start, end, "func_in") {
        TokenClass::Symbol(Symbol::FuncIn)
    } else if chars_equal_str(s, start, end, "func_out") {
        TokenClass::Symbol(Symbol::FuncOut)
    } else if chars_equal_str(s, start, end, "func_self") {
        TokenClass::Symbol(Symbol::FuncSelf)
    } else if chars_equal_str(s, start, end, "include") {
        TokenClass::Macro(Macro::Include)
    } else if chars_equal_str(s, start, end, "define") {
        TokenClass::Macro(Macro::Define)
    } else if chars_equal_str(s, start, end, "undef") {
        TokenClass::Macro(Macro::Undef)
    } else if chars_equal_str(s, start, end, "ifdef") {
        TokenClass::Macro(Macro::Ifdef)
    } else if chars_equal_str(s, start, end, "ifndef") {
        TokenClass::Macro(Macro::Ifndef)
    } else if chars_equal_str(s, start, end, "endif") {
        TokenClass::Macro(Macro::Endif)
    } else if chars_equal_str(s, start, end, "wire") {
        TokenClass::Symbol(Symbol::Wire)
    } else if chars_equal_str(s, start, end, "reg") {
        TokenClass::Symbol(Symbol::Reg)
    } else if chars_equal_str(s, start, end, "proc_name") {
        TokenClass::Symbol(Symbol::ProcName)
    } else if chars_equal_str(s, start, end, "state_name") {
        TokenClass::Symbol(Symbol::StateName)
    } else if chars_equal_str(s, start, end, "mem") {
        TokenClass::Symbol(Symbol::Mem)
    } else if chars_equal_str(s, start, end, "func") {
        TokenClass::Symbol(Symbol::Func)
    } else if chars_equal_str(s, start, end, "return") {
        TokenClass::Symbol(Symbol::Return)
    } else if chars_equal_str(s, start, end, "any") {
        TokenClass::Symbol(Symbol::Any)
    } else if chars_equal_str(s, start, end, "else") {
        TokenClass::Symbol(Symbol::Else)
    } else if chars_equal_str(s, start, end, "state") {
        TokenClass::Symbol(Symbol::State)
    } else if chars_equal_str(s, start, end, "struct") {
        TokenClass::Symbol(Symbol::Struct)
    } else if chars_equal_str(s, start, end, "if") {
        TokenClass::Symbol(Symbol::If)
    } else {
        TokenClass::Identifire(string_from_chars(s, start, end))
    }
}

fn lex_number(s: &Vec<char>, pos: usize) -> (res: Result<(TokenClass, usize), LexError>)
    requires
        pos < s.len(),
        '0' <= s@[pos as int] <= '9',
    ensures
        raw_agrees(res, number_token(s@, pos as int)),
        res matches Ok((c, p)) ==> pos < p <= s.len(),
{
    assert(is_number_char(s@[pos as int]));
    let e1 = scan_number(s, pos);
    proof {
        lemma_number_end_ge(s@, pos + 1);
    }
    if e1 >= s.len() {
        Err(LexError::MissingCharacter)
    } else if s[e1] == '\'' {
        if e1 + 1 >= s.len() {
            Err(LexError::MissingCharacter)
        } else {
            let r = s[e1 + 1];
            if r == 'x' || r == 'b' || r == 'h' || r == 'd' {
                let e2 = scan_number(s, e1 + 2);
                Ok((TokenClass::Number(string_from_chars(s, pos, e2)), e2))
            } else {
                Err(LexError::UnexpectedRadix(r))
            }
        }
    } else if s[e1] == 'x' || s[e1] == 'b' {
        let e2 = scan_number(s, e1 + 1);
        Ok((TokenClass::Number(string_from_chars(s, pos, e2)), e2))
    } else {
        Ok((TokenClass::Number(string_from_chars(s, pos, e1)), e1))
    }
}

fn lex_comment_line(s: &Vec<char>, i: usize) -> (res: (Vec<char>, usize, bool))
    requires
        i <= s.len(),
    ensures
        (res.0@, res.1 as int, res.2) == comment_line(s@, i as int, Seq::empty(), false),
        i <= res.1 <= s.len(),
        !res.2 ==> i < res.1,
{
    let mut word: Vec<char> = Vec::new();
    let mut star = false;
    let mut j = i;
    loop
        invariant
            i <= j <= s.len(),
            star ==> word@.len() > 0,
            comment_line(s@, i as int, Seq::empty(), false) == comment_line(
                s@,
                j as int,
                word@,
                star,
            ),
        decreases s.len() - j,
    {
        if j >= s.len() {
            return (word, j, true);
        }
        let c = s[j];
        if c == '\n' {
            return (word, j + 1, false);
        } else if c == '*' {
            word.push(c);
            star = true;
        } else if c == '/' && star {
            word.pop();
            return (word, j + 1, true);
        } else {
            word.push(c);
            star = false;
        }
        j += 1;
    }
}

fn lex_block_comment(s: &Vec<char>, i: usize) -> (res: (Vec<String>, usize))
    requires
        i <= s.len(),
    ensures
        (crate::token::string_views(res.0@), res.1 as int) == block_comment(s@, i as int, Seq::empty()),
        i <= res.1 <= s.len(),
{
    let mut lines: Vec<String> = Vec::new();
    let mut j = i;
    assert(crate::token::string_views(lines@) =~= Seq::<Seq<char>>::empty());
    loop
        invariant
            i <= j <= s.len(),
            block_comment(s@, i as int, Seq::empty()) == block_comment(
                s@,
                j as int,
                crate::token::string_views(lines@),
            ),
        decreases s.len() - j,
    {
        let (w, k, fin) = lex_comment_line(s, j);
        let ws = string_from_chars(&w, 0, w.len());
        assert(w@.subrange(0, w@.len() as int) == w@);
        let ghost before = lines@;
        lines.push(ws);
        assert(crate::token::string_views(lines@) =~= crate::token::string_views(before).push(
            w@,
        ));
        if fin {
            return (lines, k);
        }
        j = k;
    }
}

fn lex_raw(s: &Vec<char>, pos: usize) -> (res: Result<(TokenClass, usize), LexError>)
    requires
        pos <= s.len(),
    ensures
        raw_agrees(res, raw_token(s@, pos as int)),
        res matches Ok((c, p)) ==> pos <= p <= s.len() && (c@ is EndOfProgram ==> p == s.len())
            && (!(c@ is EndOfProgram) ==> pos < p),
{
    let mut i = pos;
    loop
        invariant
            pos <= i <= s.len(),
            raw_token(s@, pos as int) == raw_token(s@, i as int),
        decreases s.len() - i,
    {
        if i >= s.len() {
            return Ok((TokenClass::EndOfProgram, i));
        }
        let c = s[i];
        let more = i + 1 < s.len();
        if ('a' <= c && c <= 'z') || ('A' <= c && c <= 'Z') || c == '_' {
            let e = scan_word(s, i + 1);
            return Ok((keyword_class(s, i, e), e));
        } else if '0' <= c && c <= '9' {
            let r = lex_number(s, i);
            return r;
        } else if c == '{' {
            return Ok((TokenClass::Symbol(Symbol::OpeningBrace), i + 1));
        } else if c == '}' {
            return Ok((TokenClass::Symbol(Symbol::ClosingBrace), i + 1));
        } else if c == '(' {
            return Ok((TokenClass::Symbol(Symbol::LeftParen), i + 1));
        } else if c == ')' {
            return Ok((TokenClass::Symbol(Symbol::RightParen), i + 1));
        } else if c == '[' {
            return Ok((TokenClass::Symbol(Symbol::LeftSquareBracket), i + 1));
        } else if c == ']' {
            return Ok((TokenClass::Symbol(Symbol::RightSquareBracket), i + 1));
        } else if c == ';' {
            return Ok((TokenClass::Symbol(Symbol::Semicolon), i + 1));
        } else if c == ':' {
            if more && s[i + 1] == '=' {
                return Ok((TokenClass::Symbol(Symbol::RegAssign), i + 2));
            } else {
                return Ok((TokenClass::Symbol(Symbol::Colon), i + 1));
            }
        } else if c == ',' {
            return Ok((TokenClass::Symbol(Symbol::Comma), i + 1));
        } else if c == '.' {
            return Ok((TokenClass::Symbol(Symbol::Dot), i + 1));
        } else if c == '#' {
            return Ok((TokenClass::Symbol(Symbol::Sharp), i + 1));
        } else if c == '*' {
            return Ok((TokenClass::Operator(Operator::Asterisk), i + 1));
        } else if c == '+' {
            if more && s[i + 1] == '+' {
                return Ok((TokenClass::UnaryOperator(UnaryOperator::Increment), i + 2));
            } else {
                return Ok((TokenClass::Operator(Operator::Plus), i + 1));
            }
        } else if c == '-' {
            if more && s[i + 1] == '-' {
                return Ok((TokenClass::UnaryOperator(UnaryOperator::Decrement), i + 2));
            } else {
                return Ok((TokenClass::Operator(Operator::Minus), i + 1));
            }
        } else if c == '!' {
            return Ok((TokenClass::UnaryOperator(UnaryOperator::Not), i + 1));
        } else if c == '|' {
            return Ok((TokenClass::Operator(Operator::Pipe), i + 1));
        } else if c == '\'' {
            return Ok((TokenClass::Symbol(Symbol::SingleQuote), i + 1));
        } else if c == '=' {
            if !more {
                i += 1;
            } else if s[i + 1] == '=' {
                return Ok((TokenClass::Operator(Operator::Equal), i + 2));
            } else {
                return Ok((TokenClass::Symbol(Symbol::Equal), i + 1));
            }
        } else if c == '>' {
            if !more {
                i += 1;
            } else if s[i + 1] == '=' {
                return Ok((TokenClass::Operator(Operator::GreaterEq), i + 2));
            } else {
                return Ok((TokenClass::Operator(Operator::GreaterThan), i + 1));
            }
        } else if c == '<' {
            if !more {
                i += 1;
            } else if s[i + 1] == '=' {
                return Ok((TokenClass::Operator(Operator::LessEq), i + 2));
            } else {
                return Ok((TokenClass::Operator(Operator::LessThan), i + 1));
            }
        } else if c == '&' {
            if !more {
                i += 1;
            } else if s[i + 1] == '&' {
                return Ok((TokenClass::Operator(Operator::LogicAnd), i + 2));
            } else {
                return Ok((TokenClass::Operator(Operator::And), i + 1));
            }
        } else if c == '/' {
            if !more {
                return Err(LexError::SlashAtEnd);
            } else if s[i + 1] == '/' {
                let e = scan_line(s, i + 2);
                return Ok((TokenClass::CPPStyleComment(string_from_chars(s, i + 2, e)), e));
            } else if s[i + 1] == '*' {
                let (lines, e) = lex_block_comment(s, i + 2);
                return Ok((TokenClass::CStyleComment(lines), e));
            } else {
                return Ok((TokenClass::Operator(Operator::Slash), i + 1));
            }
        } else if c == '"' {
            let e = scan_quote(s, i + 1);
            if e < s.len() && s[e] == '"' {
                return Ok((TokenClass::String(string_from_chars(s, i + 1, e)), e + 1));
            } else {
                return Err(LexError::UnclosedString);
            }
        } else if c == '\n' {
            return Ok((TokenClass::Newline, i + 1));
        } else if c == ' ' || c == '\t' {
            i += 1;
        } else {
            return Err(LexError::InvalidCharacter(c));
        }
    }
}

/// The lexer: the whole input as characters, where reading stands, the
/// current line, and how many tokens have been handed out.
pub struct Lexer {
    chars: Vec<char>,
    pos: usize,
    line: usize,
    id: usize,
}

pub open spec fn next_agrees(
    res: Result<Token, LexError>,
    spec: Result<(TokenV, LexState), LexError>,
) -> bool {
    match spec {
        Ok((t, st)) => res matches Ok(tok) && tok@ == t,
        Err(e) => res == Err::<Token, LexError>(e),
    }
}

impl Lexer {
    pub closed spec fn input(&self) -> Seq<char> {
        self.chars@
    }

    pub closed spec fn state(&self) -> LexState {
        LexState { pos: self.pos as int, line: self.line as int, id: self.id as int }
    }

    pub closed spec fn wf(&self) -> bool {
        &&& self.pos <= self.chars.len()
        &&& 1 <= self.line <= self.pos + 1
        &&& self.chars.len() < usize::MAX
    }

    /// The token `next_token(is_pass_nl)` would hand out now.
    pub open spec fn spec_next_token(&self, is_pass_nl: bool) -> Result<(TokenV, LexState), LexError> {
        spec_next(self.input(), self.state(), is_pass_nl)
    }

    pub proof fn lemma_wf_bounds(&self)
        requires
            self.wf(),
        ensures
            0 <= self.state().pos <= self.input().len() < usize::MAX,
            1 <= self.state().line <= self.state().pos + 1,
            0 <= self.state().id <= usize::MAX,
    {
    }

    /// A lexer at the start of `input`, on line 1, having handed out no token.
    pub fn new(input: &str) -> (l: Lexer)
        requires
            input@.len() < usize::MAX,
        ensures
            l.wf(),
            l.input() == input@,
            l.state() == (LexState { pos: 0, line: 1, id: 0 }),
    {
        Lexer { chars: chars_of(input), pos: 0, line: 1, id: 0 }
    }

    /// A lexer in the same state, reading the same input.
    pub fn duplicate(&self) -> (l: Lexer)
        ensures
            l.input() == self.input(),
            l.state() == self.state(),
            l.wf() == self.wf(),
    {
        let chars = self.chars.clone();
        assert(chars@ =~= self.chars@);
        Lexer { chars: chars, pos: self.pos, line: self.line, id: self.id }
    }

    /// The line the lexer is on.
    pub fn line(&self) -> (l: usize)
        ensures
            l == self.state().line,
    {
        self.line
    }

    fn scan(&self, is_pass_nl: bool) -> (res: Result<(Token, usize, usize), LexError>)
        requires
            self.wf(),
            self.id < usize::MAX,
        ensures
            match spec_next(self.input(), self.state(), is_pass_nl) {
                Ok((t, st)) => res matches Ok((tok, p, l)) && tok@ == t && p == st.pos && l
                    == st.line && st.id == self.id + 1,
                Err(e) => res == Err::<(Token, usize, usize), LexError>(e),
            },
            res matches Ok((tok, p, l)) ==> {
                &&& self.pos <= p <= self.chars.len()
                &&& 1 <= l <= p + 1
                &&& (tok.class@ is EndOfProgram ==> p == self.chars.len())
                &&& (!(tok.class@ is EndOfProgram) ==> self.pos < p)
            },
    {
        let mut pos = self.pos;
        let mut line = self.line;
        loop
            invariant
                self.wf(),
                self.id < usize::MAX,
                self.pos <= pos <= self.chars.len(),
                1 <= line <= pos + 1,
                spec_next(self.input(), self.state(), is_pass_nl) == spec_next(
                    self.input(),
                    LexState { pos: pos as int, line: line as int, id: self.id as int },
                    is_pass_nl,
                ),
            decreases self.chars.len() - pos,
        {
            match lex_raw(&self.chars, pos) {
                Err(e) => {
                    return Err(e);
                },
                Ok((c, p)) => {
                    let is_nl = match c {
                        TokenClass::Newline => true,
                        _ => false,
                    };
                    if is_nl && is_pass_nl {
                        pos = p;
                        line = line + 1;
                    } else {
                        let line2 = if is_nl {
                            line + 1
                        } else {
                            line
                        };
                        return Ok((Token::new(c, line, self.id + 1), p, line2));
                    }
                },
            }
        }
    }

    /// Hands out the next token, or says why the input cannot be read on.
    /// With `is_pass_nl`, line breaks are skipped. On an error nothing moves.
    pub fn try_next_token(&mut self, is_pass_nl: bool) -> (res: Result<Token, LexError>)
        requires
            old(self).wf(),
            old(self).state().id < usize::MAX,
        ensures
            final(self).wf(),
            final(self).input() == old(self).input(),
            next_agrees(res, old(self).spec_next_token(is_pass_nl)),
            match old(self).spec_next_token(is_pass_nl) {
                Ok((t, st)) => final(self).state() == st,
                Err(e) => final(self).state() == old(self).state(),
            },
            res matches Ok(tok) ==> {
                &&& old(self).state().pos <= final(self).state().pos
                &&& (tok.class@ is EndOfProgram ==> final(self).state().pos == final(self).input().len())
                &&& (!(tok.class@ is EndOfProgram) ==> old(self).state().pos < final(self).state().pos)
                &&& final(self).state().id == old(self).state().id + 1
            },
    {
        match self.scan(is_pass_nl) {
            Ok((tok, p, l)) => {
                self.pos = p;
                self.line = l;
                self.id = self.id + 1;
                Ok(tok)
            },
            Err(e) => Err(e),
        }
    }

    /// Hands out the next token. With `is_pass_nl`, line breaks are skipped.
    pub fn next_token(&mut self, is_pass_nl: bool) -> (tok: Token)
        requires
            old(self).wf(),
            old(self).state().id < usize::MAX,
            old(self).spec_next_token(is_pass_nl) is Ok,
        ensures
            final(self).wf(),
            final(self).input() == old(self).input(),
            old(self).spec_next_token(is_pass_nl) matches Ok((t, st)) && tok@ == t
                && final(self).state() == st,
    {
        match self.try_next_token(is_pass_nl) {
            Ok(tok) => tok,
            Err(e) => {
                proof {
                    assert(false);
                }
                Token::new(TokenClass::EndOfProgram, 0, 0)
            },
        }
    }

    /// The token the next call of `next_token(is_pass_nl)` will hand out,
    /// or why there is none; the lexer does not move.
    pub fn try_peek(&self, is_pass_nl: bool) -> (res: Result<Token, LexError>)
        requires
            self.wf(),
            self.state().id < usize::MAX,
        ensures
            next_agrees(res, self.spec_next_token(is_pass_nl)),
    {
        match self.scan(is_pass_nl) {
            Ok((tok, p, l)) => Ok(tok),
            Err(e) => Err(e),
        }
    }

    /// The token the next call of `next_token(is_pass_nl)` will hand out;
    /// the lexer does not move.
    pub fn peek(&self, is_pass_nl: bool) -> (tok: Token)
        requires
            self.wf(),
            self.state().id < usize::MAX,
            self.spec_next_token(is_pass_nl) is Ok,
        ensures
            self.spec_next_token(is_pass_nl) matches Ok((t, st)) && tok@ == t,
    {
        match self.try_peek(is_pass_nl) {
            Ok(tok) => tok,
            Err(e) => {
                proof {
                    assert(false);
                }
                Token::new(TokenClass::EndOfProgram, 0, 0)
            },
        }
    }
}

} // verus!
