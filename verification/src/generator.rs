//! Formats a whole program: each top-level item is printed, its lines joined
//! by line breaks and a line break after the last.
use vstd::prelude::*;

use crate::ast::{ASTClass, ASTNode, AstV, gen, join, join_text};
use crate::lexer::{LexState, moved};
use crate::parser::{ParseError, ParseErrorV, Parser, g_next_ast};

verus! {

/// Why formatting stopped.
#[derive(Debug, PartialEq)]
pub enum GenerateError {
    /// The parser could not read the next item.
    Parse(ParseError),
    /// The item has no printed form.
    Unsupported(Box<ASTNode>),
}

pub enum GenerateErrorV {
    Parse(ParseErrorV),
    Unsupported(AstV),
}

impl View for GenerateError {
    type V = GenerateErrorV;

    open spec fn view(&self) -> GenerateErrorV {
        match self {
            GenerateError::Parse(e) => GenerateErrorV::Parse(e@),
            GenerateError::Unsupported(n) => GenerateErrorV::Unsupported((**n)@),
        }
    }
}

/// The printed form of one top-level item with lines `ls`.
pub open spec fn item_text(ls: Seq<Seq<char>>) -> Seq<char> {
    join(ls, "\n"@) + "\n"@
}

/// The next top-level item from lexer state `st`, printed, and the state
/// after it; `None` at the end of the program.
#[verifier::opaque]
pub open spec fn g_item(s: Seq<char>, st: LexState) -> Result<Option<(Seq<char>, LexState)>, GenerateErrorV> {
    match g_next_ast(s, st) {
        Err(e) => Err(GenerateErrorV::Parse(e)),
        Ok((a, st1)) => if a is EndOfProgram {
            Ok(None)
        } else {
            match gen(a) {
                None => Err(GenerateErrorV::Unsupported(a)),
                Some(ls) => Ok(Some((item_text(ls), st1))),
            }
        },
    }
}

/// The formatted program from lexer state `st` on: the items one after
/// another up to the end of the program, or the first failure.
pub open spec fn g_program(s: Seq<char>, st: LexState) -> Result<Seq<char>, GenerateErrorV>
    decreases s.len() - st.pos,
{
    match g_item(s, st) {
        Err(e) => Err(e),
        Ok(None) => Ok(Seq::empty()),
        Ok(Some((t, st1))) => if moved(s, st, st1) {
            match g_program(s, st1) {
                Ok(rest) => Ok(t + rest),
                Err(e) => Err(e),
            }
        } else {
            Err(GenerateErrorV::Parse(ParseErrorV::NotImplemented))
        },
    }
}

/// The top-level items read from `st` on, up to the end of the program (not
/// included), or the parser's failure.
pub open spec fn g_items(s: Seq<char>, st: LexState) -> Result<Seq<AstV>, ParseErrorV>
    decreases s.len() - st.pos,
{
    match g_next_ast(s, st) {
        Err(e) => Err(e),
        Ok((a, st1)) => if a is EndOfProgram {
            Ok(Seq::empty())
        } else if moved(s, st, st1) {
            match g_items(s, st1) {
                Ok(r) => Ok(seq![a] + r),
                Err(e) => Err(e),
            }
        } else {
            Err(ParseErrorV::NotImplemented)
        },
    }
}

/// The printed items one after another, each its lines joined by line
/// breaks and ended by one; `None` when an item has no printed form.
pub open spec fn items_text(items: Seq<AstV>) -> Option<Seq<char>>
    decreases items.len(),
{
    if items.len() == 0 {
        Some(Seq::empty())
    } else {
        match (gen(items[0]), items_text(items.drop_first())) {
            (Some(ls), Some(t)) => Some(item_text(ls) + t),
            _ => None,
        }
    }
}

/// When the parser reads items `a_1 .. a_k` and then the end of the
/// program, the formatted text is the printed items in that order (nothing
/// when k is 0); if one of them has no printed form, formatting fails.
pub proof fn law_output_is_items_in_order(s: Seq<char>, st: LexState)
    ensures
        g_items(s, st) matches Ok(items) ==> (match items_text(items) {
            Some(t) => g_program(s, st) == Ok::<Seq<char>, GenerateErrorV>(t),
            None => g_program(s, st) is Err,
        }),
    decreases s.len() - st.pos,
{
    reveal(g_item);
    if let Ok((a, st1)) = g_next_ast(s, st) {
        if !(a is EndOfProgram) && moved(s, st, st1) {
            law_output_is_items_in_order(s, st1);
            if let Ok(r) = g_items(s, st1) {
                let items = seq![a] + r;
                assert(items[0] == a);
                assert(items.drop_first() =~= r);
            }
        }
    }
}

/// The formatted text is empty or ends with a line break: every item ends
/// with one.
pub proof fn law_output_ends_with_line_break(s: Seq<char>, st: LexState)
    ensures
        g_program(s, st) matches Ok(t) ==> t.len() == 0 || t.last() == '\n',
    decreases s.len() - st.pos,
{
    if let Ok(Some((t, st1))) = g_item(s, st) {
        if moved(s, st, st1) {
            law_output_ends_with_line_break(s, st1);
            reveal(g_item);
            reveal_strlit("\n");
        }
    }
}

/// Prints what its parser reads.
pub struct Generator<'a> {
    pub parser: Parser<'a>,
}

impl<'a> Generator<'a> {
    pub open spec fn parser(&self) -> Parser<'a> {
        self.parser
    }

    pub fn new(parser: Parser<'a>) -> (g: Generator<'a>)
        ensures
            g.parser() == parser,
            *final(g.parser.lexer) == *final(parser.lexer),
    {
        Generator { parser: parser }
    }

    /// The formatted text of the rest of the program.
    pub fn output_node(&mut self) -> (res: Result<String, GenerateError>)
        requires
            old(self).parser().wf(),
            old(self).parser().budget() + 2 < usize::MAX,
        ensures
            *final(final(self).parser.lexer) == *final(old(self).parser.lexer),
            match g_program(old(self).parser().input(), old(self).parser().state()) {
                Ok(t) => res matches Ok(x) && x@ == t,
                Err(e) => res matches Err(er) && er@ == e,
            },
    {
        let ghost s = self.parser.input();
        let ghost st0 = self.parser.state();
        let ghost b0 = self.parser.budget();
        let mut out = String::new();
        assert(out@ + Seq::<char>::empty() =~= out@);
        loop
            invariant
                *final(self.parser.lexer) == *final(old(self).parser.lexer),
                self.parser.wf(),
                self.parser.input() == s,
                s == old(self).parser().input(),
                st0 == old(self).parser().state(),
                b0 + 2 < usize::MAX,
                self.parser.budget() <= b0 + 1,
                self.parser.budget() > b0 ==> self.parser.state().pos == s.len(),
                g_program(s, st0) == (match g_program(s, self.parser.state()) {
                    Ok(rest) => Ok(out@ + rest),
                    Err(e) => Err(e),
                }),
            decreases s.len() - self.parser.state().pos,
        {
            let ghost before = out@;
            match self.next_item()? {
                None => {
                    assert(out@ + Seq::<char>::empty() =~= out@);
                    return Ok(out);
                },
                Some(t) => {
                    out.append(t.as_str());
                    proof {
                        match g_program(s, self.parser.state()) {
                            Ok(rest) => {
                                assert(before + (t@ + rest) =~= out@ + rest);
                            },
                            Err(e) => {},
                        }
                    }
                },
            }
        }
    }

    /// The printed form of the next top-level item, or `None` at the end of
    /// the program.
    pub fn next_item(&mut self) -> (res: Result<Option<String>, GenerateError>)
        requires
            old(self).parser().inv(),
        ensures
            *final(final(self).parser.lexer) == *final(old(self).parser.lexer),
            final(self).parser().wf(),
            final(self).parser().input() == old(self).parser().input(),
            match g_item(old(self).parser().input(), old(self).parser().state()) {
                Ok(None) => res matches Ok(None),
                Ok(Some((t, st1))) => res matches Ok(Some(x)) && x@ == t && final(self).parser().state() == st1
                    && moved(old(self).parser().input(), old(self).parser().state(), st1),
                Err(e) => res matches Err(er) && er@ == e,
            },
            res is Ok ==> final(self).parser().progressed_from(&old(self).parser()),
    {
        proof {
            reveal(g_item);
        }
        let ast = match self.parser.try_next_ast() {
            Ok(a) => a,
            Err(e) => {
                return Err(GenerateError::Parse(e));
            },
        };
        match ast.class {
            ASTClass::EndOfProgram => {
                return Ok(None);
            },
            _ => {},
        }
        match ast.try_generate() {
            None => Err(GenerateError::Unsupported(ast)),
            Some(ls) => {
                let mut t = join_text(&ls, "\n");
                t.append("\n");
                Ok(Some(t))
            },
        }
    }
}

} // verus!
