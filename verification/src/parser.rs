//! The NSL parser: builds one top-level syntax tree at a time from the
//! lexer's tokens.
use vstd::prelude::*;

use crate::ast::{ASTClass, ASTNode, AstV, create_node, view_anys, view_mems, view_nodes, view_pairs, view_regs, view_node, vopt_nodes, vopt_plain};
use crate::lexer::{LexError, LexState, Lexer, moved, spec_next};
use crate::text::push_char;
use crate::token::{ClassV, Macro, Operator, Symbol, Token, TokenClass, TokenV, op_text, opt_text, token_text};

verus! {

/// Why the parser stopped.
#[derive(Debug, PartialEq)]
pub enum ParseError {
    /// The lexer could not read on.
    Lex(LexError),
    /// A token that no rule of the grammar accepts where it stands.
    UnexpectedToken(Token),
    /// A port declaration whose name is followed by neither `;` nor `[`.
    NotImplemented,
    /// A token of a `#define` body that has no printed form.
    Unprintable(Token),
}

pub enum ParseErrorV {
    Lex(LexError),
    UnexpectedToken(TokenV),
    NotImplemented,
    Unprintable(TokenV),
}

impl View for ParseError {
    type V = ParseErrorV;

    open spec fn view(&self) -> ParseErrorV {
        match self {
            ParseError::Lex(e) => ParseErrorV::Lex(*e),
            ParseError::UnexpectedToken(t) => ParseErrorV::UnexpectedToken(t@),
            ParseError::NotImplemented => ParseErrorV::NotImplemented,
            ParseError::Unprintable(t) => ParseErrorV::Unprintable(t@),
        }
    }
}

/// A parse step's outcome: a value and the lexer state after it, or an error.
pub type PRes<T> = Result<(T, LexState), ParseErrorV>;

// ---------------------------------------------------------------------------
// The grammar, as a function of the input and the lexer state.
// ---------------------------------------------------------------------------

pub open spec fn pnext(s: Seq<char>, st: LexState) -> PRes<TokenV> {
    match spec_next(s, st, true) {
        Ok(x) => Ok(x),
        Err(e) => Err(ParseErrorV::Lex(e)),
    }
}

pub open spec fn ppeek(s: Seq<char>, st: LexState) -> Result<TokenV, ParseErrorV> {
    match spec_next(s, st, true) {
        Ok((t, st1)) => Ok(t),
        Err(e) => Err(ParseErrorV::Lex(e)),
    }
}

pub open spec fn is_sym(t: TokenV, x: Symbol) -> bool {
    t.class == ClassV::Symbol(x)
}

pub open spec fn unexpected<T>(t: TokenV) -> PRes<T> {
    Err(ParseErrorV::UnexpectedToken(t))
}

/// The unreachable outcome of a step that made no progress.
pub open spec fn stalled<T>() -> PRes<T> {
    Err(ParseErrorV::NotImplemented)
}

pub open spec fn g_check(s: Seq<char>, st: LexState, x: Symbol) -> PRes<()> {
    match pnext(s, st) {
        Err(e) => Err(e),
        Ok((t, st1)) => if is_sym(t, x) {
            Ok(((), st1))
        } else {
            unexpected(t)
        },
    }
}

pub open spec fn g_id(s: Seq<char>, st: LexState) -> PRes<AstV> {
    match pnext(s, st) {
        Err(e) => Err(e),
        Ok((t, st1)) => match t.class {
            ClassV::Identifire(w) => Ok((AstV::Identifire(w), st1)),
            _ => unexpected(t),
        },
    }
}

pub open spec fn g_path(s: Seq<char>, st: LexState) -> PRes<AstV> {
    match pnext(s, st) {
        Err(e) => Err(e),
        Ok((t, st1)) => match t.class {
            ClassV::Str(w) => Ok((AstV::Str(w), st1)),
            _ => unexpected(t),
        },
    }
}

pub open spec fn to_node(t: TokenV) -> Result<AstV, ParseErrorV> {
    match t.class {
        ClassV::Number(w) => Ok(AstV::Number(w)),
        ClassV::Identifire(w) => Ok(AstV::Identifire(w)),
        _ => Err(ParseErrorV::UnexpectedToken(t)),
    }
}

/// Arguments up to and including the closing parenthesis; commas are skipped.
pub open spec fn g_args(s: Seq<char>, st: LexState, acc: Seq<AstV>) -> PRes<Seq<AstV>>
    decreases s.len() - st.pos,
{
    match pnext(s, st) {
        Err(e) => Err(e),
        Ok((t, st1)) => match t.class {
            ClassV::Symbol(Symbol::RightParen) => Ok((acc, st1)),
            ClassV::Symbol(Symbol::Comma) => if moved(s, st, st1) {
                g_args(s, st1, acc)
            } else {
                stalled()
            },
            ClassV::Identifire(w) => if moved(s, st, st1) {
                g_args(s, st1, acc.push(AstV::Identifire(w)))
            } else {
                stalled()
            },
            ClassV::Number(w) => if moved(s, st, st1) {
                g_args(s, st1, acc.push(AstV::Number(w)))
            } else {
                stalled()
            },
            _ => unexpected(t),
        },
    }
}

/// An operand (a name, a number, or a call), then, after an operator, the
/// rest of the expression: operators group to the right.
pub open spec fn g_expr(s: Seq<char>, st: LexState) -> PRes<AstV>
    decreases s.len() - st.pos,
{
    match pnext(s, st) {
        Err(e) => Err(e),
        Ok((left, st1)) => match ppeek(s, st1) {
            Err(e) => Err(e),
            Ok(n) => {
                let operand: PRes<AstV> = if is_sym(n, Symbol::LeftParen) {
                    match pnext(s, st1) {
                        Err(e) => Err(e),
                        Ok((t2, st2)) => match g_args(s, st2, Seq::empty()) {
                            Err(e) => Err(e),
                            Ok((args, st3)) => match to_node(left) {
                                Err(e) => Err(e),
                                Ok(f) => Ok((AstV::FuncCall(Box::new(f), args), st3)),
                            },
                        },
                    }
                } else {
                    match to_node(left) {
                        Err(e) => Err(e),
                        Ok(x) => Ok((x, st1)),
                    }
                };
                match operand {
                    Err(e) => Err(e),
                    Ok((x, st4)) => match ppeek(s, st4) {
                        Err(e) => Err(e),
                        Ok(nn) => match nn.class {
                            ClassV::Operator(o) => match pnext(s, st4) {
                                Err(e) => Err(e),
                                Ok((t5, st5)) => if moved(s, st, st5) {
                                    match g_expr(s, st5) {
                                        Err(e) => Err(e),
                                        Ok((r, st6)) => Ok(
                                            (
                                                AstV::Expression(
                                                    Box::new(x),
                                                    Box::new(AstV::Operator(o)),
                                                    Box::new(r),
                                                ),
                                                st6,
                                            ),
                                        ),
                                    }
                                } else {
                                    stalled()
                                },
                            },
                            _ => Ok((x, st4)),
                        },
                    },
                }
            },
        },
    }
}

/// `: port ;` or just `;` after a function's arguments.
pub open spec fn g_func_return(s: Seq<char>, st: LexState) -> PRes<Option<AstV>> {
    match ppeek(s, st) {
        Err(e) => Err(e),
        Ok(t) => if is_sym(t, Symbol::Colon) {
            match pnext(s, st) {
                Err(e) => Err(e),
                Ok((t1, st1)) => match pnext(s, st1) {
                    Err(e) => Err(e),
                    Ok((p, st2)) => match p.class {
                        ClassV::Identifire(w) => match g_check(s, st2, Symbol::Semicolon) {
                            Err(e) => Err(e),
                            Ok((u, st3)) => Ok((Some(AstV::Identifire(w)), st3)),
                        },
                        _ => unexpected(p),
                    },
                },
            }
        } else {
            match g_check(s, st, Symbol::Semicolon) {
                Err(e) => Err(e),
                Ok((u, st1)) => Ok((None, st1)),
            }
        },
    }
}

/// `name ;` or `name [ width ] ;` in a declaration.
pub open spec fn g_id_and_width(s: Seq<char>, st: LexState) -> PRes<(AstV, Option<AstV>)> {
    match g_id(s, st) {
        Err(e) => Err(e),
        Ok((id, st1)) => match pnext(s, st1) {
            Err(e) => Err(e),
            Ok((t, st2)) => match t.class {
                ClassV::Symbol(Symbol::Semicolon) => Ok(((id, None), st2)),
                ClassV::Symbol(Symbol::LeftSquareBracket) => match g_expr(s, st2) {
                    Err(e) => Err(e),
                    Ok((w, st3)) => match g_check(s, st3, Symbol::RightSquareBracket) {
                        Err(e) => Err(e),
                        Ok((u, st4)) => match g_check(s, st4, Symbol::Semicolon) {
                            Err(e) => Err(e),
                            Ok((u2, st5)) => Ok(((id, Some(w)), st5)),
                        },
                    },
                },
                _ => Err(ParseErrorV::NotImplemented),
            },
        },
    }
}

pub open spec fn boxed_opt(o: Option<AstV>) -> Option<Box<AstV>> {
    match o {
        Some(x) => Some(Box::new(x)),
        None => None,
    }
}

/// `func_in` / `func_out` after the keyword: name, arguments, returned port.
pub open spec fn g_func_port(s: Seq<char>, st: LexState) -> PRes<(AstV, Seq<AstV>, Option<AstV>)> {
    match pnext(s, st) {
        Err(e) => Err(e),
        Ok((t, st1)) => match t.class {
            ClassV::Identifire(w) => match g_check(s, st1, Symbol::LeftParen) {
                Err(e) => Err(e),
                Ok((u, st2)) => match g_args(s, st2, Seq::empty()) {
                    Err(e) => Err(e),
                    Ok((args, st3)) => match g_func_return(s, st3) {
                        Err(e) => Err(e),
                        Ok((r, st4)) => Ok(((AstV::Identifire(w), args, r), st4)),
                    },
                },
            },
            _ => unexpected(t),
        },
    }
}

/// One entry of a `declare` block.
pub open spec fn g_declare_part(s: Seq<char>, st: LexState) -> PRes<AstV> {
    match pnext(s, st) {
        Err(e) => Err(e),
        Ok((t, st1)) => match t.class {
            ClassV::Symbol(Symbol::Input) => match g_id_and_width(s, st1) {
                Err(e) => Err(e),
                Ok(((id, w), st2)) => Ok((AstV::Input(Box::new(id), boxed_opt(w)), st2)),
            },
            ClassV::Symbol(Symbol::Output) => match g_id_and_width(s, st1) {
                Err(e) => Err(e),
                Ok(((id, w), st2)) => Ok((AstV::Output(Box::new(id), boxed_opt(w)), st2)),
            },
            ClassV::Symbol(Symbol::InOut) => match g_id_and_width(s, st1) {
                Err(e) => Err(e),
                Ok(((id, w), st2)) => Ok((AstV::InOut(Box::new(id), boxed_opt(w)), st2)),
            },
            ClassV::Symbol(Symbol::FuncIn) => match g_func_port(s, st1) {
                Err(e) => Err(e),
                Ok(((id, args, r), st2)) => Ok((AstV::FuncIn(Box::new(id), args, boxed_opt(r)), st2)),
            },
            ClassV::Symbol(Symbol::FuncOut) => match g_func_port(s, st1) {
                Err(e) => Err(e),
                Ok(((id, args, r), st2)) => Ok(
                    (AstV::FuncOut(Box::new(id), args, boxed_opt(r)), st2),
                ),
            },
            _ => unexpected(t),
        },
    }
}

/// Entries of a `declare` block, up to and including its closing brace.
pub open spec fn g_declare_items(s: Seq<char>, st: LexState, acc: Seq<AstV>) -> PRes<Seq<AstV>>
    decreases s.len() - st.pos,
{
    match ppeek(s, st) {
        Err(e) => Err(e),
        Ok(t) => if is_sym(t, Symbol::ClosingBrace) {
            match pnext(s, st) {
                Err(e) => Err(e),
                Ok((t1, st1)) => Ok((acc, st1)),
            }
        } else {
            match g_declare_part(s, st) {
                Err(e) => Err(e),
                Ok((p, st1)) => if moved(s, st, st1) {
                    g_declare_items(s, st1, acc.push(p))
                } else {
                    stalled()
                },
            }
        },
    }
}

/// A `declare` after its keyword: name and block.
pub open spec fn g_declare(s: Seq<char>, st: LexState) -> PRes<AstV> {
    match g_id(s, st) {
        Err(e) => Err(e),
        Ok((id, st1)) => match g_check(s, st1, Symbol::OpeningBrace) {
            Err(e) => Err(e),
            Ok((u, st2)) => match g_declare_items(s, st2, Seq::empty()) {
                Err(e) => Err(e),
                Ok((items, st3)) => Ok(
                    (AstV::Declare(Box::new(id), Box::new(AstV::Block(items))), st3),
                ),
            },
        },
    }
}

pub open spec fn g_reg_init(s: Seq<char>, st: LexState, id: AstV, w: Option<AstV>) -> PRes<
    (AstV, Option<AstV>, Option<AstV>),
> {
    match pnext(s, st) {
        Err(e) => Err(e),
        Ok((t, st1)) => if is_sym(t, Symbol::Equal) {
            match g_expr(s, st1) {
                Err(e) => Err(e),
                Ok((v, st2)) => Ok(((id, w, Some(v)), st2)),
            }
        } else {
            unexpected(t)
        },
    }
}

/// One register: name, optional width, optional initial value.
pub open spec fn g_reg_def(s: Seq<char>, st: LexState) -> PRes<(AstV, Option<AstV>, Option<AstV>)> {
    match g_id(s, st) {
        Err(e) => Err(e),
        Ok((id, st1)) => match ppeek(s, st1) {
            Err(e) => Err(e),
            Ok(t) => match t.class {
                ClassV::Symbol(Symbol::Semicolon) => Ok(((id, None, None), st1)),
                ClassV::Symbol(Symbol::Comma) => Ok(((id, None, None), st1)),
                ClassV::Symbol(Symbol::Equal) => g_reg_init(s, st1, id, None),
                ClassV::Symbol(Symbol::LeftSquareBracket) => match pnext(s, st1) {
                    Err(e) => Err(e),
                    Ok((t2, st2)) => match g_expr(s, st2) {
                        Err(e) => Err(e),
                        Ok((w, st3)) => match g_check(s, st3, Symbol::RightSquareBracket) {
                            Err(e) => Err(e),
                            Ok((u, st4)) => match ppeek(s, st4) {
                                Err(e) => Err(e),
                                Ok(n) => if is_sym(n, Symbol::Semicolon) || is_sym(
                                    n,
                                    Symbol::Comma,
                                ) {
                                    Ok(((id, Some(w), None), st4))
                                } else if !is_sym(n, Symbol::Equal) {
                                    unexpected(n)
                                } else {
                                    g_reg_init(s, st4, id, Some(w))
                                },
                            },
                        },
                    },
                },
                _ => unexpected(t),
            },
        },
    }
}

/// Registers separated by commas, up to and including the semicolon.
pub open spec fn g_reg_list(
    s: Seq<char>,
    st: LexState,
    acc: Seq<(AstV, Option<AstV>, Option<AstV>)>,
) -> PRes<Seq<(AstV, Option<AstV>, Option<AstV>)>>
    decreases s.len() - st.pos,
{
    match g_reg_def(s, st) {
        Err(e) => Err(e),
        Ok((d, st1)) => match pnext(s, st1) {
            Err(e) => Err(e),
            Ok((t, st2)) => if is_sym(t, Symbol::Semicolon) {
                Ok((acc.push(d), st2))
            } else if is_sym(t, Symbol::Comma) {
                if moved(s, st, st2) {
                    g_reg_list(s, st2, acc.push(d))
                } else {
                    stalled()
                }
            } else {
                unexpected(t)
            },
        },
    }
}

/// Wires: names with optional widths; commas are skipped; up to and
/// including the semicolon.
pub open spec fn g_wire_list(s: Seq<char>, st: LexState, acc: Seq<(AstV, Option<AstV>)>) -> PRes<
    Seq<(AstV, Option<AstV>)>,
>
    decreases s.len() - st.pos,
{
    match pnext(s, st) {
        Err(e) => Err(e),
        Ok((t, st1)) => match t.class {
            ClassV::Symbol(Symbol::Semicolon) => Ok((acc, st1)),
            ClassV::Symbol(Symbol::Comma) => if moved(s, st, st1) {
                g_wire_list(s, st1, acc)
            } else {
                stalled()
            },
            ClassV::Identifire(w) => match ppeek(s, st1) {
                Err(e) => Err(e),
                Ok(n) => if is_sym(n, Symbol::LeftSquareBracket) {
                    match pnext(s, st1) {
                        Err(e) => Err(e),
                        Ok((t2, st2)) => match g_expr(s, st2) {
                            Err(e) => Err(e),
                            Ok((x, st3)) => match g_check(s, st3, Symbol::RightSquareBracket) {
                                Err(e) => Err(e),
                                Ok((u, st4)) => if moved(s, st, st4) {
                                    g_wire_list(s, st4, acc.push((AstV::Identifire(w), Some(x))))
                                } else {
                                    stalled()
                                },
                            },
                        },
                    }
                } else if moved(s, st, st1) {
                    g_wire_list(s, st1, acc.push((AstV::Identifire(w), None)))
                } else {
                    stalled()
                },
            },
            _ => unexpected(t),
        },
    }
}

/// Initial values of a memory: numbers, commas skipped, up to the closing brace.
pub open spec fn g_mem_values(s: Seq<char>, st: LexState, acc: Seq<AstV>) -> PRes<Seq<AstV>>
    decreases s.len() - st.pos,
{
    match pnext(s, st) {
        Err(e) => Err(e),
        Ok((t, st1)) => match t.class {
            ClassV::Symbol(Symbol::ClosingBrace) => Ok((acc, st1)),
            ClassV::Number(w) => if moved(s, st, st1) {
                g_mem_values(s, st1, acc.push(AstV::Number(w)))
            } else {
                stalled()
            },
            ClassV::Symbol(Symbol::Comma) => if moved(s, st, st1) {
                g_mem_values(s, st1, acc)
            } else {
                stalled()
            },
            _ => unexpected(t),
        },
    }
}

pub open spec fn g_mem_init(s: Seq<char>, st: LexState) -> PRes<Seq<AstV>> {
    match g_check(s, st, Symbol::OpeningBrace) {
        Err(e) => Err(e),
        Ok((u, st1)) => g_mem_values(s, st1, Seq::empty()),
    }
}

pub open spec fn g_mem_tail(s: Seq<char>, st: LexState, id: AstV, w: AstV, w2: Option<AstV>) -> PRes<
    (AstV, AstV, Option<AstV>, Option<Seq<AstV>>),
> {
    match ppeek(s, st) {
        Err(e) => Err(e),
        Ok(n) => if is_sym(n, Symbol::Equal) {
            match pnext(s, st) {
                Err(e) => Err(e),
                Ok((t1, st1)) => match g_mem_init(s, st1) {
                    Err(e) => Err(e),
                    Ok((vals, st2)) => Ok(((id, w, w2, Some(vals)), st2)),
                },
            }
        } else {
            Ok(((id, w, w2, None), st))
        },
    }
}

/// One memory: name, width, optional second width, optional initial values.
pub open spec fn g_mem_def(s: Seq<char>, st: LexState) -> PRes<(AstV, AstV, Option<AstV>, Option<Seq<AstV>>)> {
    match g_id(s, st) {
        Err(e) => Err(e),
        Ok((id, st1)) => match g_check(s, st1, Symbol::LeftSquareBracket) {
            Err(e) => Err(e),
            Ok((u, st2)) => match g_expr(s, st2) {
                Err(e) => Err(e),
                Ok((w, st3)) => match g_check(s, st3, Symbol::RightSquareBracket) {
                    Err(e) => Err(e),
                    Ok((u2, st4)) => match ppeek(s, st4) {
                        Err(e) => Err(e),
                        Ok(t) => if is_sym(t, Symbol::Semicolon) {
                            Ok(((id, w, None, None), st4))
                        } else if is_sym(t, Symbol::LeftSquareBracket) {
                            match pnext(s, st4) {
                                Err(e) => Err(e),
                                Ok((t5, st5)) => match g_expr(s, st5) {
                                    Err(e) => Err(e),
                                    Ok((w2, st6)) => match g_check(s, st6, Symbol::RightSquareBracket) {
                                        Err(e) => Err(e),
                                        Ok((u3, st7)) => g_mem_tail(s, st7, id, w, Some(w2)),
                                    },
                                },
                            }
                        } else {
                            g_mem_tail(s, st4, id, w, None)
                        },
                    },
                },
            },
        },
    }
}

pub open spec fn g_mem_list(
    s: Seq<char>,
    st: LexState,
    acc: Seq<(AstV, AstV, Option<AstV>, Option<Seq<AstV>>)>,
) -> PRes<Seq<(AstV, AstV, Option<AstV>, Option<Seq<AstV>>)>>
    decreases s.len() - st.pos,
{
    match g_mem_def(s, st) {
        Err(e) => Err(e),
        Ok((d, st1)) => match pnext(s, st1) {
            Err(e) => Err(e),
            Ok((t, st2)) => if is_sym(t, Symbol::Semicolon) {
                Ok((acc.push(d), st2))
            } else if is_sym(t, Symbol::Comma) {
                if moved(s, st, st2) {
                    g_mem_list(s, st2, acc.push(d))
                } else {
                    stalled()
                }
            } else {
                unexpected(t)
            },
        },
    }
}

pub open spec fn g_state_names(s: Seq<char>, st: LexState, acc: Seq<AstV>) -> PRes<Seq<AstV>>
    decreases s.len() - st.pos,
{
    match g_id(s, st) {
        Err(e) => Err(e),
        Ok((id, st1)) => match pnext(s, st1) {
            Err(e) => Err(e),
            Ok((t, st2)) => if is_sym(t, Symbol::Semicolon) {
                Ok((acc.push(id), st2))
            } else if is_sym(t, Symbol::Comma) {
                if moved(s, st, st2) {
                    g_state_names(s, st2, acc.push(id))
                } else {
                    stalled()
                }
            } else {
                unexpected(t)
            },
        },
    }
}

/// A statement that starts with a name, after the name: `= e;`, `:= e;` or `(args);`.
pub open spec fn g_named_statement(s: Seq<char>, st: LexState, w: Seq<char>) -> PRes<AstV> {
    let id = AstV::Identifire(w);
    match pnext(s, st) {
        Err(e) => Err(e),
        Ok((t, st1)) => match t.class {
            ClassV::Symbol(Symbol::Equal) => match g_expr(s, st1) {
                Err(e) => Err(e),
                Ok((x, st2)) => match g_check(s, st2, Symbol::Semicolon) {
                    Err(e) => Err(e),
                    Ok((u, st3)) => Ok((AstV::Assign(Box::new(id), Box::new(x)), st3)),
                },
            },
            ClassV::Symbol(Symbol::RegAssign) => match g_expr(s, st1) {
                Err(e) => Err(e),
                Ok((x, st2)) => match g_check(s, st2, Symbol::Semicolon) {
                    Err(e) => Err(e),
                    Ok((u, st3)) => Ok((AstV::RegAssign(Box::new(id), Box::new(x)), st3)),
                },
            },
            ClassV::Symbol(Symbol::LeftParen) => match g_args(s, st1, Seq::empty()) {
                Err(e) => Err(e),
                Ok((args, st2)) => match g_check(s, st2, Symbol::Semicolon) {
                    Err(e) => Err(e),
                    Ok((u, st3)) => Ok((AstV::FuncCall(Box::new(id), args), st3)),
                },
            },
            _ => unexpected(t),
        },
    }
}

pub open spec fn g_proc_name(s: Seq<char>, st: LexState) -> PRes<AstV> {
    match g_id(s, st) {
        Err(e) => Err(e),
        Ok((id, st1)) => match g_check(s, st1, Symbol::LeftParen) {
            Err(e) => Err(e),
            Ok((u, st2)) => match g_args(s, st2, Seq::empty()) {
                Err(e) => Err(e),
                Ok((args, st3)) => match g_check(s, st3, Symbol::Semicolon) {
                    Err(e) => Err(e),
                    Ok((u2, st4)) => Ok((AstV::ProcName(Box::new(id), args), st4)),
                },
            },
        },
    }
}

pub open spec fn g_func_self(s: Seq<char>, st: LexState) -> PRes<AstV> {
    match g_id(s, st) {
        Err(e) => Err(e),
        Ok((id, st1)) => match ppeek(s, st1) {
            Err(e) => Err(e),
            Ok(t) => {
                let args: PRes<Seq<AstV>> = if is_sym(t, Symbol::LeftParen) {
                    match pnext(s, st1) {
                        Err(e) => Err(e),
                        Ok((t2, st2)) => g_args(s, st2, Seq::empty()),
                    }
                } else {
                    Ok((Seq::empty(), st1))
                };
                match args {
                    Err(e) => Err(e),
                    Ok((a, st3)) => match g_func_return(s, st3) {
                        Err(e) => Err(e),
                        Ok((r, st4)) => Ok((AstV::FuncSelf(Box::new(id), a, boxed_opt(r)), st4)),
                    },
                }
            },
        },
    }
}

pub open spec fn g_return(s: Seq<char>, st: LexState) -> PRes<AstV> {
    match g_expr(s, st) {
        Err(e) => Err(e),
        Ok((x, st1)) => match g_check(s, st1, Symbol::Semicolon) {
            Err(e) => Err(e),
            Ok((u, st2)) => Ok((AstV::Return(Box::new(x)), st2)),
        },
    }
}

// The block grammar is mutually recursive. Each function decreases the
// remaining input; where one calls another at the same place, the second
// component orders them.

/// A block: `{`, statements, `}`.
pub open spec fn g_block(s: Seq<char>, st: LexState) -> PRes<AstV>
    decreases s.len() - st.pos, 0int,
{
    match g_check(s, st, Symbol::OpeningBrace) {
        Err(e) => Err(e),
        Ok((u, st1)) => if moved(s, st, st1) {
            match g_block_items(s, st1, Seq::empty()) {
                Err(e) => Err(e),
                Ok((items, st2)) => Ok((AstV::Block(items), st2)),
            }
        } else {
            stalled()
        },
    }
}

/// Statements of a block, up to and including its closing brace.
pub open spec fn g_block_items(s: Seq<char>, st: LexState, acc: Seq<AstV>) -> PRes<Seq<AstV>>
    decreases s.len() - st.pos, 4int,
{
    match ppeek(s, st) {
        Err(e) => Err(e),
        Ok(t) => if is_sym(t, Symbol::ClosingBrace) {
            match pnext(s, st) {
                Err(e) => Err(e),
                Ok((t1, st1)) => Ok((acc, st1)),
            }
        } else {
            match g_part(s, st) {
                Err(e) => Err(e),
                Ok((p, st1)) => if moved(s, st, st1) {
                    g_block_items(s, st1, acc.push(p))
                } else {
                    stalled()
                },
            }
        },
    }
}

/// One statement of a module block.
pub open spec fn g_part(s: Seq<char>, st: LexState) -> PRes<AstV>
    decreases s.len() - st.pos, 3int,
{
    match pnext(s, st) {
        Err(e) => Err(e),
        Ok((t, st1)) => match t.class {
            ClassV::Symbol(Symbol::Reg) => match g_reg_list(s, st1, Seq::empty()) {
                Err(e) => Err(e),
                Ok((l, st2)) => Ok((AstV::Reg(l), st2)),
            },
            ClassV::Symbol(Symbol::Wire) => match g_wire_list(s, st1, Seq::empty()) {
                Err(e) => Err(e),
                Ok((l, st2)) => Ok((AstV::Wire(l), st2)),
            },
            ClassV::Symbol(Symbol::Mem) => match g_mem_list(s, st1, Seq::empty()) {
                Err(e) => Err(e),
                Ok((l, st2)) => Ok((AstV::Mem(l), st2)),
            },
            ClassV::Identifire(w) => g_named_statement(s, st1, w),
            ClassV::Symbol(Symbol::ProcName) => g_proc_name(s, st1),
            ClassV::Symbol(Symbol::StateName) => match g_state_names(s, st1, Seq::empty()) {
                Err(e) => Err(e),
                Ok((l, st2)) => Ok((AstV::StateName(l), st2)),
            },
            ClassV::Symbol(Symbol::State) => g_part_state(s, st, st1),
            ClassV::Symbol(Symbol::FuncSelf) => g_func_self(s, st1),
            ClassV::Symbol(Symbol::Func) => g_part_func(s, st, st1),
            ClassV::Symbol(Symbol::Return) => g_return(s, st1),
            ClassV::Symbol(Symbol::If) => g_part_if(s, st, st1),
            ClassV::Symbol(Symbol::Any) => g_part_any(s, st, st1),
            _ => unexpected(t),
        },
    }
}

/// `state name block`, from after the keyword (`st1`); `st0` is where the
/// statement started.
pub open spec fn g_part_state(s: Seq<char>, st0: LexState, st1: LexState) -> PRes<AstV>
    decreases s.len() - st0.pos, 2int,
{
    match g_id(s, st1) {
        Err(e) => Err(e),
        Ok((id, st2)) => if moved(s, st0, st2) {
            match g_block(s, st2) {
                Err(e) => Err(e),
                Ok((b, st3)) => Ok((AstV::State(Box::new(id), Box::new(b)), st3)),
            }
        } else {
            stalled()
        },
    }
}

/// `func name [. name] block`, from after the keyword.
pub open spec fn g_part_func(s: Seq<char>, st0: LexState, st1: LexState) -> PRes<AstV>
    decreases s.len() - st0.pos, 2int,
{
    match g_id(s, st1) {
        Err(e) => Err(e),
        Ok((id, st2)) => match ppeek(s, st2) {
            Err(e) => Err(e),
            Ok(t) => {
                let fname: PRes<Option<AstV>> = if is_sym(t, Symbol::Dot) {
                    match pnext(s, st2) {
                        Err(e) => Err(e),
                        Ok((t3, st3)) => match g_id(s, st3) {
                            Err(e) => Err(e),
                            Ok((f, st4)) => Ok((Some(f), st4)),
                        },
                    }
                } else {
                    Ok((None, st2))
                };
                match fname {
                    Err(e) => Err(e),
                    Ok((f, st5)) => if moved(s, st0, st5) {
                        match g_block(s, st5) {
                            Err(e) => Err(e),
                            Ok((b, st6)) => Ok(
                                (AstV::Func(Box::new(id), boxed_opt(f), Box::new(b)), st6),
                            ),
                        }
                    } else {
                        stalled()
                    },
                }
            },
        },
    }
}

/// The then or else part of an `if`: a block when the then part started
/// with a brace, else a single statement.
#[verifier::opaque]
pub open spec fn g_if_branch(s: Seq<char>, st0: LexState, st: LexState, braced: bool) -> PRes<AstV>
    decreases s.len() - st0.pos, 0int,
{
    if moved(s, st0, st) {
        if braced {
            g_block(s, st)
        } else {
            g_part(s, st)
        }
    } else {
        stalled()
    }
}

/// `if ( condition ) then [else else]`, from after the keyword.
pub open spec fn g_part_if(s: Seq<char>, st0: LexState, st1: LexState) -> PRes<AstV>
    decreases s.len() - st0.pos, 2int,
{
    match g_check(s, st1, Symbol::LeftParen) {
        Err(e) => Err(e),
        Ok((u, st2)) => match g_expr(s, st2) {
            Err(e) => Err(e),
            Ok((c, st3)) => match g_check(s, st3, Symbol::RightParen) {
                Err(e) => Err(e),
                Ok((u2, st4)) => match ppeek(s, st4) {
                    Err(e) => Err(e),
                    Ok(n) => g_if_rest(s, st0, st4, c, is_sym(n, Symbol::OpeningBrace)),
                },
            },
        },
    }
}

/// The then part of an `if` at `st`, and its else part if one follows.
pub open spec fn g_if_rest(s: Seq<char>, st0: LexState, st: LexState, c: AstV, braced: bool) -> PRes<AstV>
    decreases s.len() - st0.pos, 1int,
{
    match g_if_branch(s, st0, st, braced) {
        Err(e) => Err(e),
        Ok((tb, st5)) => match ppeek(s, st5) {
            Err(e) => Err(e),
            Ok(m) => if is_sym(m, Symbol::Else) {
                match pnext(s, st5) {
                    Err(e) => Err(e),
                    Ok((t6, st6)) => match g_if_branch(s, st0, st6, braced) {
                        Err(e) => Err(e),
                        Ok((eb, st7)) => Ok(
                            (AstV::If(Box::new(c), Box::new(tb), Some(Box::new(eb))), st7),
                        ),
                    },
                }
            } else {
                Ok((AstV::If(Box::new(c), Box::new(tb), None), st5))
            },
        },
    }
}

/// `any { condition : block ... }`, from after the keyword.
pub open spec fn g_part_any(s: Seq<char>, st0: LexState, st1: LexState) -> PRes<AstV>
    decreases s.len() - st0.pos, 2int,
{
    match g_check(s, st1, Symbol::OpeningBrace) {
        Err(e) => Err(e),
        Ok((u, st2)) => if moved(s, st0, st2) {
            match g_any_items(s, st2, Seq::empty()) {
                Err(e) => Err(e),
                Ok((l, st3)) => Ok((AstV::Any(l), st3)),
            }
        } else {
            stalled()
        },
    }
}

/// The arms of an `any`, up to and including its closing brace.
pub open spec fn g_any_items(s: Seq<char>, st: LexState, acc: Seq<(AstV, AstV)>) -> PRes<
    Seq<(AstV, AstV)>,
>
    decreases s.len() - st.pos, 0int,
{
    match ppeek(s, st) {
        Err(e) => Err(e),
        Ok(t) => if is_sym(t, Symbol::ClosingBrace) {
            match pnext(s, st) {
                Err(e) => Err(e),
                Ok((t1, st1)) => Ok((acc, st1)),
            }
        } else {
            let cond: PRes<AstV> = if is_sym(t, Symbol::Else) {
                match pnext(s, st) {
                    Err(e) => Err(e),
                    Ok((t1, st1)) => Ok((AstV::Else, st1)),
                }
            } else {
                g_expr(s, st)
            };
            match cond {
                Err(e) => Err(e),
                Ok((c, st2)) => match g_check(s, st2, Symbol::Colon) {
                    Err(e) => Err(e),
                    Ok((u, st3)) => if moved(s, st, st3) {
                        match g_block(s, st3) {
                            Err(e) => Err(e),
                            Ok((b, st4)) => if moved(s, st, st4) {
                                g_any_items(s, st4, acc.push((c, b)))
                            } else {
                                stalled()
                            },
                        }
                    } else {
                        stalled()
                    },
                },
            }
        },
    }
}

/// A `module` after its keyword: name and block.
pub open spec fn g_module(s: Seq<char>, st: LexState) -> PRes<AstV> {
    match g_id(s, st) {
        Err(e) => Err(e),
        Ok((id, st1)) => match g_block(s, st1) {
            Err(e) => Err(e),
            Ok((b, st2)) => Ok((AstV::Module(Box::new(id), Box::new(b)), st2)),
        },
    }
}

// ---------------------------------------------------------------------------
// `#define` bodies: the tokens up to the end of the line, printed back.
// ---------------------------------------------------------------------------



/// The printed tokens, one after another, or the first that has no printed form.
pub open spec fn tokens_text(toks: Seq<TokenV>) -> Result<Seq<char>, TokenV>
    decreases toks.len(),
{
    if toks.len() == 0 {
        Ok(Seq::empty())
    } else {
        match tokens_text(toks.drop_last()) {
            Err(t) => Err(t),
            Ok(prefix) => match token_text(toks.last().class) {
                Some(x) => Ok(prefix + x),
                None => Err(toks.last()),
            },
        }
    }
}

/// The tokens up to the end of the line (line breaks are not skipped here),
/// consuming the line break or the end of the input.
pub open spec fn g_line_tokens(s: Seq<char>, st: LexState, acc: Seq<TokenV>) -> PRes<Seq<TokenV>>
    decreases s.len() - st.pos,
{
    match spec_next(s, st, false) {
        Err(e) => Err(ParseErrorV::Lex(e)),
        Ok((t, st1)) => if t.class is Newline || t.class is EndOfProgram {
            Ok((acc, st1))
        } else if moved(s, st, st1) {
            g_line_tokens(s, st1, acc.push(t))
        } else {
            stalled()
        },
    }
}

/// The body of a `#define`: `None` when the line is empty; a trailing
/// semicolon loses the blank printed after it.
pub open spec fn g_define_value(s: Seq<char>, st: LexState) -> PRes<Option<Seq<char>>> {
    match g_line_tokens(s, st, Seq::empty()) {
        Err(e) => Err(e),
        Ok((toks, st1)) => if toks.len() == 0 {
            Ok((None, st1))
        } else {
            match tokens_text(toks) {
                Err(t) => Err(ParseErrorV::Unprintable(t)),
                Ok(txt) => Ok(
                    (
                        Some(
                            if is_sym(toks.last(), Symbol::Semicolon) {
                                txt.drop_last()
                            } else {
                                txt
                            },
                        ),
                        st1,
                    ),
                ),
            }
        },
    }
}

/// A preprocessor line after its `#`.
pub open spec fn g_macro(s: Seq<char>, st: LexState) -> PRes<AstV> {
    match pnext(s, st) {
        Err(e) => Err(e),
        Ok((t, st1)) => match t.class {
            ClassV::Macro(Macro::Include) => match g_path(s, st1) {
                Err(e) => Err(e),
                Ok((p, st2)) => Ok((AstV::MacroInclude(Box::new(p)), st2)),
            },
            ClassV::Macro(Macro::Undef) => match g_id(s, st1) {
                Err(e) => Err(e),
                Ok((id, st2)) => Ok((AstV::MacroUndef(Box::new(id)), st2)),
            },
            ClassV::Macro(Macro::Ifdef) => match g_id(s, st1) {
                Err(e) => Err(e),
                Ok((id, st2)) => Ok((AstV::MacroIfdef(Box::new(id)), st2)),
            },
            ClassV::Macro(Macro::Ifndef) => match g_id(s, st1) {
                Err(e) => Err(e),
                Ok((id, st2)) => Ok((AstV::MacroIfndef(Box::new(id)), st2)),
            },
            ClassV::Macro(Macro::Endif) => Ok((AstV::MacroEndif, st1)),
            ClassV::Symbol(Symbol::Else) => Ok((AstV::MacroElse, st1)),
            ClassV::Macro(Macro::Define) => match g_id(s, st1) {
                Err(e) => Err(e),
                Ok((id, st2)) => match g_define_value(s, st2) {
                    Err(e) => Err(e),
                    Ok((v, st3)) => Ok((AstV::MacroDefine(Box::new(id), v), st3)),
                },
            },
            _ => unexpected(t),
        },
    }
}

/// The next top-level item: a preprocessor line, a `declare`, a `module`, a
/// comment, or the end of the program.
pub open spec fn g_next_ast(s: Seq<char>, st: LexState) -> PRes<AstV> {
    match pnext(s, st) {
        Err(e) => Err(e),
        Ok((t, st1)) => match t.class {
            ClassV::Symbol(Symbol::Sharp) => g_macro(s, st1),
            ClassV::Symbol(Symbol::Declare) => g_declare(s, st1),
            ClassV::Symbol(Symbol::Module) => g_module(s, st1),
            ClassV::CPPStyleComment(w) => Ok((AstV::CPPStyleComment(w), st1)),
            ClassV::CStyleComment(v) => Ok((AstV::CStyleComment(v), st1)),
            ClassV::EndOfProgram => Ok((AstV::EndOfProgram, st1)),
            _ => unexpected(t),
        },
    }
}

/// The tokens that can begin a statement in a module block.
pub open spec fn starts_statement(c: ClassV) -> bool {
    ||| c is Identifire
    ||| c == ClassV::Symbol(Symbol::Reg)
    ||| c == ClassV::Symbol(Symbol::Wire)
    ||| c == ClassV::Symbol(Symbol::Mem)
    ||| c == ClassV::Symbol(Symbol::ProcName)
    ||| c == ClassV::Symbol(Symbol::StateName)
    ||| c == ClassV::Symbol(Symbol::State)
    ||| c == ClassV::Symbol(Symbol::FuncSelf)
    ||| c == ClassV::Symbol(Symbol::Func)
    ||| c == ClassV::Symbol(Symbol::Return)
    ||| c == ClassV::Symbol(Symbol::If)
    ||| c == ClassV::Symbol(Symbol::Any)
}

/// A statement of a module block that starts with a token that cannot
/// begin one (a number, `}`, `;`, ...) is refused with that token.
pub proof fn law_statement_start_refused(s: Seq<char>, st: LexState)
    ensures
        pnext(s, st) matches Ok((t, st1)) ==> (!starts_statement(t.class) ==> g_part(s, st)
            == Err::<(AstV, LexState), ParseErrorV>(ParseErrorV::UnexpectedToken(t))),
{
}

/// After `#`, the next token decides the item: `include` gives an include,
/// `undef`, `ifdef`, `ifndef` and `define` give their own items, `endif`
/// and `else` give theirs; any other token is refused.
pub proof fn law_macro_kinds(s: Seq<char>, st: LexState)
    ensures
        pnext(s, st) matches Ok((k, st1)) ==> {
            &&& (!(k.class is Macro) && k.class != ClassV::Symbol(Symbol::Else) ==> g_macro(s, st)
                == Err::<(AstV, LexState), ParseErrorV>(ParseErrorV::UnexpectedToken(k)))
            &&& (g_macro(s, st) matches Ok((a, st2)) ==> {
                &&& (k.class == ClassV::Macro(Macro::Include) <==> a is MacroInclude)
                &&& (k.class == ClassV::Macro(Macro::Undef) <==> a is MacroUndef)
                &&& (k.class == ClassV::Macro(Macro::Ifdef) <==> a is MacroIfdef)
                &&& (k.class == ClassV::Macro(Macro::Ifndef) <==> a is MacroIfndef)
                &&& (k.class == ClassV::Macro(Macro::Define) <==> a is MacroDefine)
                &&& (k.class == ClassV::Macro(Macro::Endif) <==> a is MacroEndif)
                &&& (k.class == ClassV::Symbol(Symbol::Else) <==> a is MacroElse)
            })
        },
{
}

pub proof fn lemma_pnext_progress(s: Seq<char>, st: LexState)
    requires
        0 <= st.pos <= s.len(),
    ensures
        pnext(s, st) matches Ok((t, st1)) ==> {
            &&& st.pos <= st1.pos <= s.len()
            &&& (!(t.class is EndOfProgram) ==> st.pos < st1.pos)
        },
{
    crate::lexer::lemma_next_progress(s, st, true);
}

pub proof fn lemma_args_progress(s: Seq<char>, st: LexState, acc: Seq<AstV>)
    requires
        0 <= st.pos <= s.len(),
    ensures
        g_args(s, st, acc) matches Ok((v, st2)) ==> st.pos < st2.pos <= s.len(),
    decreases s.len() - st.pos,
{
    lemma_pnext_progress(s, st);
    if let Ok((t, st1)) = pnext(s, st) {
        if moved(s, st, st1) {
            match t.class {
                ClassV::Identifire(w) => lemma_args_progress(s, st1, acc.push(AstV::Identifire(w))),
                ClassV::Number(w) => lemma_args_progress(s, st1, acc.push(AstV::Number(w))),
                _ => lemma_args_progress(s, st1, acc),
            }
        }
    }
}

pub proof fn lemma_expr_progress(s: Seq<char>, st: LexState)
    requires
        0 <= st.pos <= s.len(),
    ensures
        g_expr(s, st) matches Ok((x, st2)) ==> st.pos < st2.pos <= s.len(),
    decreases s.len() - st.pos, 1int,
{
    lemma_pnext_progress(s, st);
    if let Ok((left, st1)) = pnext(s, st) {
        lemma_pnext_progress(s, st1);
        if let Ok((t2, st2)) = pnext(s, st1) {
            lemma_args_progress(s, st2, Seq::empty());
            if let Ok((args, st3)) = g_args(s, st2, Seq::empty()) {
                lemma_pnext_progress(s, st3);
                if let Ok((t5, st5)) = pnext(s, st3) {
                    lemma_expr_progress_tail(s, st, st5);
                }
            }
        }
        lemma_pnext_progress(s, st1);
        if let Ok((t5, st5)) = pnext(s, st1) {
            lemma_expr_progress_tail(s, st, st5);
        }
    }
}

proof fn lemma_expr_progress_tail(s: Seq<char>, st: LexState, st5: LexState)
    requires
        0 <= st.pos <= s.len(),
        st5.pos <= s.len(),
    ensures
        moved(s, st, st5) ==> (g_expr(s, st5) matches Ok((r, st6)) ==> st.pos < st6.pos <= s.len()),
    decreases s.len() - st.pos, 0int,
{
    if moved(s, st, st5) {
        lemma_expr_progress(s, st5);
    }
}

/// The `else` part of an `if` statement is read in the same form as its
/// `then` part: after a braced `then` block it is a block, after a single
/// `then` statement it is a single statement, and the statement is
/// `If(condition, then, Some(else))`.
pub proof fn law_if_else_same_form(
    s: Seq<char>,
    st0: LexState,
    st1: LexState,
    st2: LexState,
    st3: LexState,
    st4: LexState,
    st5: LexState,
    st6: LexState,
    st7: LexState,
    t_if: TokenV,
    t_else: TokenV,
    c: AstV,
    a: AstV,
    b: AstV,
    braced: bool,
)
    requires
        0 <= st0.pos <= s.len(),
        pnext(s, st0) == Ok::<(TokenV, LexState), ParseErrorV>((t_if, st1)),
        is_sym(t_if, Symbol::If),
        g_check(s, st1, Symbol::LeftParen) == Ok::<((), LexState), ParseErrorV>(((), st2)),
        g_expr(s, st2) == Ok::<(AstV, LexState), ParseErrorV>((c, st3)),
        g_check(s, st3, Symbol::RightParen) == Ok::<((), LexState), ParseErrorV>(((), st4)),
        ppeek(s, st4) matches Ok(n) && is_sym(n, Symbol::OpeningBrace) == braced,
        (if braced { g_block(s, st4) } else { g_part(s, st4) }) == Ok::<(AstV, LexState), ParseErrorV>((a, st5)),
        st4.pos <= st5.pos <= s.len(),
        pnext(s, st5) == Ok::<(TokenV, LexState), ParseErrorV>((t_else, st6)),
        is_sym(t_else, Symbol::Else),
        (if braced { g_block(s, st6) } else { g_part(s, st6) }) == Ok::<(AstV, LexState), ParseErrorV>((b, st7)),
    ensures
        g_part(s, st0) == Ok::<(AstV, LexState), ParseErrorV>(
            (AstV::If(Box::new(c), Box::new(a), Some(Box::new(b))), st7),
        ),
{
    lemma_pnext_progress(s, st0);
    lemma_pnext_progress(s, st1);
    lemma_expr_progress(s, st2);
    lemma_pnext_progress(s, st3);
    lemma_pnext_progress(s, st5);
    reveal(g_if_branch);
    assert(moved(s, st0, st4));
    assert(moved(s, st0, st6));
    assert(g_if_branch(s, st0, st4, braced) == Ok::<(AstV, LexState), ParseErrorV>((a, st5)));
    assert(g_if_branch(s, st0, st6, braced) == Ok::<(AstV, LexState), ParseErrorV>((b, st7)));
    assert(ppeek(s, st5) == Ok::<TokenV, ParseErrorV>(t_else));
    assert(g_if_rest(s, st0, st4, c, braced) == Ok::<(AstV, LexState), ParseErrorV>(
        (AstV::If(Box::new(c), Box::new(a), Some(Box::new(b))), st7),
    ));
    assert(g_part_if(s, st0, st1) == g_if_rest(s, st0, st4, c, braced));
}

/// At the end of the input the next item is `EndOfProgram` and the parser
/// stays at the end, so every later call gives `EndOfProgram` again.
pub proof fn law_parse_end_repeats(s: Seq<char>, st: LexState)
    requires
        st.pos == s.len(),
    ensures
        g_next_ast(s, st) matches Ok((a, st2)) && a is EndOfProgram && st2.pos == s.len(),
{
    crate::lexer::lemma_next_at_end(s, st, true);
}

// ---------------------------------------------------------------------------
// The parser.
// ---------------------------------------------------------------------------

pub open spec fn agrees<T, V>(
    res: Result<T, ParseError>,
    spec: PRes<V>,
    after: LexState,
    f: spec_fn(T) -> V,
) -> bool {
    match spec {
        Ok((v, st)) => res matches Ok(x) && f(x) == v && after == st,
        Err(e) => res matches Err(er) && er@ == e,
    }
}

pub proof fn lemma_view_nodes_push(v: Seq<Box<ASTNode>>, x: Box<ASTNode>)
    ensures
        view_nodes(v.push(x)) == view_nodes(v).push(x@),
{
    assert(v.push(x).drop_last() =~= v);
}

pub proof fn lemma_view_pairs_push(
    v: Seq<(Box<ASTNode>, Option<Box<ASTNode>>)>,
    x: (Box<ASTNode>, Option<Box<ASTNode>>),
)
    ensures
        view_pairs(v.push(x)) == view_pairs(v).push((x.0@, vopt_plain(x.1))),
{
    assert(v.push(x).drop_last() =~= v);
}

pub proof fn lemma_view_regs_push(
    v: Seq<(Box<ASTNode>, Option<Box<ASTNode>>, Option<Box<ASTNode>>)>,
    x: (Box<ASTNode>, Option<Box<ASTNode>>, Option<Box<ASTNode>>),
)
    ensures
        view_regs(v.push(x)) == view_regs(v).push((x.0@, vopt_plain(x.1), vopt_plain(x.2))),
{
    assert(v.push(x).drop_last() =~= v);
}

pub proof fn lemma_view_mems_push(
    v: Seq<(Box<ASTNode>, Box<ASTNode>, Option<Box<ASTNode>>, Option<Vec<Box<ASTNode>>>)>,
    x: (Box<ASTNode>, Box<ASTNode>, Option<Box<ASTNode>>, Option<Vec<Box<ASTNode>>>),
)
    ensures
        view_mems(v.push(x)) == view_mems(v).push(
            (x.0@, x.1@, vopt_plain(x.2), vopt_nodes(x.3)),
        ),
{
    assert(v.push(x).drop_last() =~= v);
}

pub proof fn lemma_view_anys_push(
    v: Seq<(Box<ASTNode>, Box<ASTNode>)>,
    x: (Box<ASTNode>, Box<ASTNode>),
)
    ensures
        view_anys(v.push(x)) == view_anys(v).push((x.0@, x.1@)),
{
    assert(v.push(x).drop_last() =~= v);
}

pub proof fn lemma_vopt(o: Option<Box<ASTNode>>)
    ensures
        (match o {
            Some(x) => Some(Box::new(view_node(*x))),
            None => None,
        }) == boxed_opt(vopt_plain(o)),
{
}

/// The parser reads from a lexer that it borrows: the lexer advances as
/// the parser reads.
pub struct Parser<'a> {
    pub lexer: &'a mut Lexer,
}

impl<'a> Parser<'a> {
    pub closed spec fn input(&self) -> Seq<char> {
        self.lexer.input()
    }

    pub closed spec fn state(&self) -> LexState {
        self.lexer.state()
    }

    pub closed spec fn wf(&self) -> bool {
        self.lexer.wf()
    }

    /// Tokens handed out plus characters left: each token that is not the end
    /// of the input takes at least one character.
    pub open spec fn budget(&self) -> int {
        self.state().id + (self.input().len() - self.state().pos)
    }

    /// What every parsing step needs: a well-formed lexer whose token count
    /// cannot overflow before the input ends.
    pub open spec fn inv(&self) -> bool {
        self.wf() && self.budget() + 1 < usize::MAX
    }

    /// Reading on from `old` did not go back, and the budget grew at most by
    /// the one token that stands for the end of the input.
    pub open spec fn progressed_from(&self, old: &Parser<'a>) -> bool {
        &&& old.state().pos <= self.state().pos
        &&& self.budget() <= old.budget() + 1
        &&& (self.budget() > old.budget() ==> self.state().pos == self.input().len())
    }

    pub open spec fn advanced_from(&self, old: &Parser<'a>) -> bool {
        moved(old.input(), old.state(), self.state()) && self.budget() <= old.budget()
    }

    proof fn lemma_bounds(&self)
        requires
            self.wf(),
        ensures
            0 <= self.state().pos <= self.input().len() < usize::MAX,
            0 <= self.state().id <= usize::MAX,
    {
        self.lexer.lemma_wf_bounds();
    }

    /// A parser that reads from `lexer`, starting where it stands; the
    /// lexer ends where the parser leaves it.
    pub fn new(lexer: &'a mut Lexer) -> (p: Parser<'a>)
        requires
            old(lexer).wf(),
        ensures
            p.input() == old(lexer).input(),
            p.state() == old(lexer).state(),
            p.wf(),
            *final(p.lexer) == *final(lexer),
    {
        Parser { lexer: lexer }
    }

    fn next(&mut self) -> (res: Result<Token, ParseError>)
        requires
            old(self).wf(),
            old(self).budget() < usize::MAX,
        ensures
            *final(final(self).lexer) == *final(old(self).lexer),
            final(self).wf(),
            final(self).input() == old(self).input(),
            agrees(res, pnext(old(self).input(), old(self).state()), final(self).state(), |t: Token| t@),
            res is Err ==> final(self).state() == old(self).state(),
            res matches Ok(t) ==> {
                &&& old(self).state().pos <= final(self).state().pos
                &&& final(self).state().id == old(self).state().id + 1
                &&& (t.class@ is EndOfProgram ==> final(self).state().pos == final(self).input().len())
                &&& (!(t.class@ is EndOfProgram) ==> final(self).advanced_from(old(self)))
            },
    {
        proof {
            self.lemma_bounds();
        }
        let r = self.lexer.try_next_token(true);
        proof {
            self.lemma_bounds();
        }
        match r {
            Ok(t) => Ok(t),
            Err(e) => Err(ParseError::Lex(e)),
        }
    }

    fn peek(&self) -> (res: Result<Token, ParseError>)
        requires
            self.wf(),
            self.budget() < usize::MAX,
        ensures
            match ppeek(self.input(), self.state()) {
                Ok(t) => res matches Ok(tok) && tok@ == t,
                Err(e) => res matches Err(er) && er@ == e,
            },
    {
        proof {
            self.lemma_bounds();
        }
        match self.lexer.try_peek(true) {
            Ok(t) => Ok(t),
            Err(e) => Err(ParseError::Lex(e)),
        }
    }

    fn check(&mut self, x: Symbol) -> (res: Result<(), ParseError>)
        requires
            old(self).inv(),
        ensures
            *final(final(self).lexer) == *final(old(self).lexer),
            final(self).wf(),
            final(self).input() == old(self).input(),
            agrees(res, g_check(old(self).input(), old(self).state(), x), final(self).state(), |u: ()| u),
            res is Ok ==> final(self).advanced_from(old(self)),
    {
        let t = self.next()?;
        if is_symbol(&t, x) {
            Ok(())
        } else {
            Err(ParseError::UnexpectedToken(t))
        }
    }

    fn id_node(&mut self) -> (res: Result<Box<ASTNode>, ParseError>)
        requires
            old(self).inv(),
        ensures
            *final(final(self).lexer) == *final(old(self).lexer),
            final(self).wf(),
            final(self).input() == old(self).input(),
            agrees(res, g_id(old(self).input(), old(self).state()), final(self).state(), |n: Box<ASTNode>| n@),
            res is Ok ==> final(self).advanced_from(old(self)),
    {
        let t = self.next()?;
        match t.class {
            TokenClass::Identifire(w) => Ok(create_node(ASTClass::Identifire(w))),
            _ => Err(ParseError::UnexpectedToken(t)),
        }
    }

    proof fn lemma_peek_at_end(&self)
        requires
            self.wf(),
            self.state().pos == self.input().len(),
        ensures
            ppeek(self.input(), self.state()) matches Ok(t) && t.class is EndOfProgram,
    {
        crate::lexer::lemma_next_at_end(self.input(), self.state(), true);
    }

    fn path_node(&mut self) -> (res: Result<Box<ASTNode>, ParseError>)
        requires
            old(self).inv(),
        ensures
            *final(final(self).lexer) == *final(old(self).lexer),
            final(self).wf(),
            final(self).input() == old(self).input(),
            agrees(res, g_path(old(self).input(), old(self).state()), final(self).state(), |n: Box<ASTNode>| n@),
            res is Ok ==> final(self).advanced_from(old(self)),
    {
        let t = self.next()?;
        match t.class {
            TokenClass::String(w) => Ok(create_node(ASTClass::String(w))),
            _ => Err(ParseError::UnexpectedToken(t)),
        }
    }

    fn args_vec(&mut self) -> (res: Result<Vec<Box<ASTNode>>, ParseError>)
        requires
            old(self).inv(),
        ensures
            *final(final(self).lexer) == *final(old(self).lexer),
            final(self).wf(),
            final(self).input() == old(self).input(),
            agrees(
                res,
                g_args(old(self).input(), old(self).state(), Seq::empty()),
                final(self).state(),
                |v: Vec<Box<ASTNode>>| view_nodes(v@),
            ),
            res is Ok ==> final(self).advanced_from(old(self)),
    {
        let ghost s = self.input();
        let ghost st0 = self.state();
        let mut args: Vec<Box<ASTNode>> = Vec::new();
        loop
            invariant
                *final(self.lexer) == *final(old(self).lexer),
                self.inv(),
                self.input() == s,
                s == old(self).input(),
                st0 == old(self).state(),
                old(self).state().pos <= self.state().pos,
                self.budget() <= old(self).budget(),
                g_args(s, st0, Seq::empty()) == g_args(s, self.state(), view_nodes(args@)),
            decreases s.len() - self.state().pos,
        {
            proof {
                self.lemma_bounds();
            }
            let ghost before = *self;
            let t = self.next()?;
            match t.class {
                TokenClass::Symbol(Symbol::RightParen) => {
                    return Ok(args);
                },
                TokenClass::Symbol(Symbol::Comma) => {},
                TokenClass::Identifire(w) => {
                    let n = create_node(ASTClass::Identifire(w));
                    proof {
                        lemma_view_nodes_push(args@, n);
                    }
                    args.push(n);
                },
                TokenClass::Number(w) => {
                    let n = create_node(ASTClass::Number(w));
                    proof {
                        lemma_view_nodes_push(args@, n);
                    }
                    args.push(n);
                },
                _ => {
                    return Err(ParseError::UnexpectedToken(t));
                },
            }
        }
    }


    fn func_return(&mut self) -> (res: Result<Option<Box<ASTNode>>, ParseError>)
        requires
            old(self).inv(),
        ensures
            *final(final(self).lexer) == *final(old(self).lexer),
            final(self).wf(),
            final(self).input() == old(self).input(),
            agrees(
                res,
                g_func_return(old(self).input(), old(self).state()),
                final(self).state(),
                |o: Option<Box<ASTNode>>| vopt_plain(o),
            ),
            res is Ok ==> final(self).advanced_from(old(self)),
    {
        let ghost s = self.input();
        let ghost st0 = self.state();
        let t = self.peek()?;
        if is_symbol(&t, Symbol::Colon) {
            let _ = self.next()?;
            let p = self.next()?;
            match p.class {
                TokenClass::Identifire(w) => {
                    self.check(Symbol::Semicolon)?;
                    Ok(Some(create_node(ASTClass::Identifire(w))))
                },
                _ => Err(ParseError::UnexpectedToken(p)),
            }
        } else {
            self.check(Symbol::Semicolon)?;
            Ok(None)
        }
    }

    fn id_and_width(&mut self) -> (res: Result<(Box<ASTNode>, Option<Box<ASTNode>>), ParseError>)
        requires
            old(self).inv(),
        ensures
            *final(final(self).lexer) == *final(old(self).lexer),
            final(self).wf(),
            final(self).input() == old(self).input(),
            agrees(
                res,
                g_id_and_width(old(self).input(), old(self).state()),
                final(self).state(),
                |p: (Box<ASTNode>, Option<Box<ASTNode>>)| (p.0@, vopt_plain(p.1)),
            ),
            res is Ok ==> final(self).advanced_from(old(self)),
    {
        let id = self.id_node()?;
        let t = self.next()?;
        match t.class {
            TokenClass::Symbol(Symbol::Semicolon) => Ok((id, None)),
            TokenClass::Symbol(Symbol::LeftSquareBracket) => {
                let w = self.expression()?;
                self.check(Symbol::RightSquareBracket)?;
                self.check(Symbol::Semicolon)?;
                Ok((id, Some(w)))
            },
            _ => Err(ParseError::NotImplemented),
        }
    }

    fn func_port(&mut self) -> (res: Result<(Box<ASTNode>, Vec<Box<ASTNode>>, Option<Box<ASTNode>>), ParseError>)
        requires
            old(self).inv(),
        ensures
            *final(final(self).lexer) == *final(old(self).lexer),
            final(self).wf(),
            final(self).input() == old(self).input(),
            agrees(
                res,
                g_func_port(old(self).input(), old(self).state()),
                final(self).state(),
                |p: (Box<ASTNode>, Vec<Box<ASTNode>>, Option<Box<ASTNode>>)| (p.0@, view_nodes(p.1@), vopt_plain(p.2)),
            ),
            res is Ok ==> final(self).advanced_from(old(self)),
    {
        let t = self.next()?;
        match t.class {
            TokenClass::Identifire(w) => {
                self.check(Symbol::LeftParen)?;
                let args = self.args_vec()?;
                let r = self.func_return()?;
                Ok((create_node(ASTClass::Identifire(w)), args, r))
            },
            _ => Err(ParseError::UnexpectedToken(t)),
        }
    }

    fn declare_part(&mut self) -> (res: Result<Box<ASTNode>, ParseError>)
        requires
            old(self).inv(),
        ensures
            *final(final(self).lexer) == *final(old(self).lexer),
            final(self).wf(),
            final(self).input() == old(self).input(),
            agrees(res, g_declare_part(old(self).input(), old(self).state()), final(self).state(), |n: Box<ASTNode>| n@),
            res is Ok ==> final(self).advanced_from(old(self)),
    {
        let t = self.next()?;
        match t.class {
            TokenClass::Symbol(Symbol::Input) => {
                let (id, w) = self.id_and_width()?;
                proof { lemma_vopt(w); }
                Ok(create_node(ASTClass::Input(id, w)))
            },
            TokenClass::Symbol(Symbol::Output) => {
                let (id, w) = self.id_and_width()?;
                proof { lemma_vopt(w); }
                Ok(create_node(ASTClass::Output(id, w)))
            },
            TokenClass::Symbol(Symbol::InOut) => {
                let (id, w) = self.id_and_width()?;
                proof { lemma_vopt(w); }
                Ok(create_node(ASTClass::InOut(id, w)))
            },
            TokenClass::Symbol(Symbol::FuncIn) => {
                let (id, args, r) = self.func_port()?;
                proof { lemma_vopt(r); }
                Ok(create_node(ASTClass::FuncIn(id, args, r)))
            },
            TokenClass::Symbol(Symbol::FuncOut) => {
                let (id, args, r) = self.func_port()?;
                proof { lemma_vopt(r); }
                Ok(create_node(ASTClass::FuncOut(id, args, r)))
            },
            _ => Err(ParseError::UnexpectedToken(t)),
        }
    }

    fn declare_ast(&mut self) -> (res: Result<Box<ASTNode>, ParseError>)
        requires
            old(self).inv(),
        ensures
            *final(final(self).lexer) == *final(old(self).lexer),
            final(self).wf(),
            final(self).input() == old(self).input(),
            agrees(res, g_declare(old(self).input(), old(self).state()), final(self).state(), |n: Box<ASTNode>| n@),
            res is Ok ==> final(self).advanced_from(old(self)),
    {
        let ghost s = self.input();
        let id = self.id_node()?;
        self.check(Symbol::OpeningBrace)?;
        let ghost st2 = self.state();
        let mut items: Vec<Box<ASTNode>> = Vec::new();
        loop
            invariant
                *final(self.lexer) == *final(old(self).lexer),
                self.inv(),
                self.input() == s,
                s == old(self).input(),
                moved(s, old(self).state(), self.state()),
                self.budget() <= old(self).budget(),
                g_declare_items(s, st2, Seq::empty()) == g_declare_items(s, self.state(), view_nodes(items@)),
                g_declare(s, old(self).state()) == (match g_declare_items(s, st2, Seq::empty()) {
                    Err(e) => Err(e),
                    Ok((l, st3)) => Ok((AstV::Declare(Box::new(id@), Box::new(AstV::Block(l))), st3)),
                }),
            decreases s.len() - self.state().pos,
        {
            let t = self.peek()?;
            if is_symbol(&t, Symbol::ClosingBrace) {
                let _ = self.next()?;
                let ghost acc = view_nodes(items@);
                let block = create_node(ASTClass::Block(items));
                assert(block@ == AstV::Block(acc));
                return Ok(create_node(ASTClass::Declare(id, block)));
            }
            let p = self.declare_part()?;
            proof {
                lemma_view_nodes_push(items@, p);
            }
            items.push(p);
        }
    }


    fn reg_init(&mut self, id: Box<ASTNode>, w: Option<Box<ASTNode>>) -> (res: Result<
        (Box<ASTNode>, Option<Box<ASTNode>>, Option<Box<ASTNode>>),
        ParseError,
    >)
        requires
            old(self).inv(),
        ensures
            *final(final(self).lexer) == *final(old(self).lexer),
            final(self).wf(),
            final(self).input() == old(self).input(),
            agrees(
                res,
                g_reg_init(old(self).input(), old(self).state(), id@, vopt_plain(w)),
                final(self).state(),
                |p: (Box<ASTNode>, Option<Box<ASTNode>>, Option<Box<ASTNode>>)| (p.0@, vopt_plain(p.1), vopt_plain(p.2)),
            ),
            res is Ok ==> final(self).advanced_from(old(self)),
    {
        let t = self.next()?;
        if is_symbol(&t, Symbol::Equal) {
            let v = self.expression()?;
            Ok((id, w, Some(v)))
        } else {
            Err(ParseError::UnexpectedToken(t))
        }
    }

    fn reg_definition(&mut self) -> (res: Result<
        (Box<ASTNode>, Option<Box<ASTNode>>, Option<Box<ASTNode>>),
        ParseError,
    >)
        requires
            old(self).inv(),
        ensures
            *final(final(self).lexer) == *final(old(self).lexer),
            final(self).wf(),
            final(self).input() == old(self).input(),
            agrees(
                res,
                g_reg_def(old(self).input(), old(self).state()),
                final(self).state(),
                |p: (Box<ASTNode>, Option<Box<ASTNode>>, Option<Box<ASTNode>>)| (p.0@, vopt_plain(p.1), vopt_plain(p.2)),
            ),
            res is Ok ==> final(self).advanced_from(old(self)),
    {
        let id = self.id_node()?;
        let t = self.peek()?;
        match t.class {
            TokenClass::Symbol(Symbol::Semicolon) => Ok((id, None, None)),
            TokenClass::Symbol(Symbol::Comma) => Ok((id, None, None)),
            TokenClass::Symbol(Symbol::Equal) => self.reg_init(id, None),
            TokenClass::Symbol(Symbol::LeftSquareBracket) => {
                let _ = self.next()?;
                let w = self.expression()?;
                self.check(Symbol::RightSquareBracket)?;
                let n = self.peek()?;
                if is_symbol(&n, Symbol::Semicolon) || is_symbol(&n, Symbol::Comma) {
                    Ok((id, Some(w), None))
                } else if !is_symbol(&n, Symbol::Equal) {
                    Err(ParseError::UnexpectedToken(n))
                } else {
                    self.reg_init(id, Some(w))
                }
            },
            _ => Err(ParseError::UnexpectedToken(t)),
        }
    }

    fn reg_list(&mut self) -> (res: Result<
        Vec<(Box<ASTNode>, Option<Box<ASTNode>>, Option<Box<ASTNode>>)>,
        ParseError,
    >)
        requires
            old(self).inv(),
        ensures
            *final(final(self).lexer) == *final(old(self).lexer),
            final(self).wf(),
            final(self).input() == old(self).input(),
            agrees(
                res,
                g_reg_list(old(self).input(), old(self).state(), Seq::empty()),
                final(self).state(),
                |v: Vec<(Box<ASTNode>, Option<Box<ASTNode>>, Option<Box<ASTNode>>)>| view_regs(v@),
            ),
            res is Ok ==> final(self).advanced_from(old(self)),
    {
        let ghost s = self.input();
        let ghost st0 = self.state();
        let mut list: Vec<(Box<ASTNode>, Option<Box<ASTNode>>, Option<Box<ASTNode>>)> = Vec::new();
        loop
            invariant
                *final(self.lexer) == *final(old(self).lexer),
                self.inv(),
                self.input() == s,
                s == old(self).input(),
                st0 == old(self).state(),
                old(self).state().pos <= self.state().pos,
                self.budget() <= old(self).budget(),
                g_reg_list(s, st0, Seq::empty()) == g_reg_list(s, self.state(), view_regs(list@)),
            decreases s.len() - self.state().pos,
        {
            let d = self.reg_definition()?;
            proof {
                lemma_view_regs_push(list@, d);
            }
            list.push(d);
            let t = self.next()?;
            if is_symbol(&t, Symbol::Semicolon) {
                return Ok(list);
            } else if !is_symbol(&t, Symbol::Comma) {
                return Err(ParseError::UnexpectedToken(t));
            }
        }
    }

    fn wire_list(&mut self) -> (res: Result<Vec<(Box<ASTNode>, Option<Box<ASTNode>>)>, ParseError>)
        requires
            old(self).inv(),
        ensures
            *final(final(self).lexer) == *final(old(self).lexer),
            final(self).wf(),
            final(self).input() == old(self).input(),
            agrees(
                res,
                g_wire_list(old(self).input(), old(self).state(), Seq::empty()),
                final(self).state(),
                |v: Vec<(Box<ASTNode>, Option<Box<ASTNode>>)>| view_pairs(v@),
            ),
            res is Ok ==> final(self).advanced_from(old(self)),
    {
        let ghost s = self.input();
        let ghost st0 = self.state();
        let mut list: Vec<(Box<ASTNode>, Option<Box<ASTNode>>)> = Vec::new();
        loop
            invariant
                *final(self.lexer) == *final(old(self).lexer),
                self.inv(),
                self.input() == s,
                s == old(self).input(),
                st0 == old(self).state(),
                old(self).state().pos <= self.state().pos,
                self.budget() <= old(self).budget(),
                g_wire_list(s, st0, Seq::empty()) == g_wire_list(s, self.state(), view_pairs(list@)),
            decreases s.len() - self.state().pos,
        {
            let t = self.next()?;
            match t.class {
                TokenClass::Symbol(Symbol::Semicolon) => {
                    return Ok(list);
                },
                TokenClass::Symbol(Symbol::Comma) => {},
                TokenClass::Identifire(w) => {
                    let id = create_node(ASTClass::Identifire(w));
                    let n = self.peek()?;
                    if is_symbol(&n, Symbol::LeftSquareBracket) {
                        let _ = self.next()?;
                        let x = self.expression()?;
                        self.check(Symbol::RightSquareBracket)?;
                        proof {
                            lemma_view_pairs_push(list@, (id, Some(x)));
                        }
                        list.push((id, Some(x)));
                    } else {
                        proof {
                            lemma_view_pairs_push(list@, (id, None));
                        }
                        list.push((id, None));
                    }
                },
                _ => {
                    return Err(ParseError::UnexpectedToken(t));
                },
            }
        }
    }

    fn mem_initialize_block(&mut self) -> (res: Result<Vec<Box<ASTNode>>, ParseError>)
        requires
            old(self).inv(),
        ensures
            *final(final(self).lexer) == *final(old(self).lexer),
            final(self).wf(),
            final(self).input() == old(self).input(),
            agrees(
                res,
                g_mem_init(old(self).input(), old(self).state()),
                final(self).state(),
                |v: Vec<Box<ASTNode>>| view_nodes(v@),
            ),
            res is Ok ==> final(self).advanced_from(old(self)),
    {
        let ghost s = self.input();
        self.check(Symbol::OpeningBrace)?;
        let ghost st1 = self.state();
        let mut vals: Vec<Box<ASTNode>> = Vec::new();
        loop
            invariant
                *final(self.lexer) == *final(old(self).lexer),
                self.inv(),
                self.input() == s,
                s == old(self).input(),
                moved(s, old(self).state(), self.state()),
                self.budget() <= old(self).budget(),
                g_mem_init(s, old(self).state()) == g_mem_values(s, st1, Seq::empty()),
                g_mem_values(s, st1, Seq::empty()) == g_mem_values(s, self.state(), view_nodes(vals@)),
            decreases s.len() - self.state().pos,
        {
            let t = self.next()?;
            match t.class {
                TokenClass::Symbol(Symbol::ClosingBrace) => {
                    return Ok(vals);
                },
                TokenClass::Number(w) => {
                    let n = create_node(ASTClass::Number(w));
                    proof {
                        lemma_view_nodes_push(vals@, n);
                    }
                    vals.push(n);
                },
                TokenClass::Symbol(Symbol::Comma) => {},
                _ => {
                    return Err(ParseError::UnexpectedToken(t));
                },
            }
        }
    }

    fn mem_tail(&mut self, id: Box<ASTNode>, w: Box<ASTNode>, w2: Option<Box<ASTNode>>) -> (res: Result<
        (Box<ASTNode>, Box<ASTNode>, Option<Box<ASTNode>>, Option<Vec<Box<ASTNode>>>),
        ParseError,
    >)
        requires
            old(self).inv(),
        ensures
            *final(final(self).lexer) == *final(old(self).lexer),
            final(self).wf(),
            final(self).input() == old(self).input(),
            agrees(
                res,
                g_mem_tail(old(self).input(), old(self).state(), id@, w@, vopt_plain(w2)),
                final(self).state(),
                |p: (Box<ASTNode>, Box<ASTNode>, Option<Box<ASTNode>>, Option<Vec<Box<ASTNode>>>)| (p.0@, p.1@, vopt_plain(p.2), vopt_nodes(p.3)),
            ),
            res is Ok ==> final(self).state() == old(self).state() || final(self).advanced_from(old(self)),
    {
        let n = self.peek()?;
        if is_symbol(&n, Symbol::Equal) {
            let _ = self.next()?;
            let vals = self.mem_initialize_block()?;
            Ok((id, w, w2, Some(vals)))
        } else {
            Ok((id, w, w2, None))
        }
    }

    fn mem_definition(&mut self) -> (res: Result<
        (Box<ASTNode>, Box<ASTNode>, Option<Box<ASTNode>>, Option<Vec<Box<ASTNode>>>),
        ParseError,
    >)
        requires
            old(self).inv(),
        ensures
            *final(final(self).lexer) == *final(old(self).lexer),
            final(self).wf(),
            final(self).input() == old(self).input(),
            agrees(
                res,
                g_mem_def(old(self).input(), old(self).state()),
                final(self).state(),
                |p: (Box<ASTNode>, Box<ASTNode>, Option<Box<ASTNode>>, Option<Vec<Box<ASTNode>>>)| (p.0@, p.1@, vopt_plain(p.2), vopt_nodes(p.3)),
            ),
            res is Ok ==> final(self).advanced_from(old(self)),
    {
        let id = self.id_node()?;
        self.check(Symbol::LeftSquareBracket)?;
        let w = self.expression()?;
        self.check(Symbol::RightSquareBracket)?;
        let t = self.peek()?;
        if is_symbol(&t, Symbol::Semicolon) {
            Ok((id, w, None, None))
        } else if is_symbol(&t, Symbol::LeftSquareBracket) {
            let _ = self.next()?;
            let w2 = self.expression()?;
            self.check(Symbol::RightSquareBracket)?;
            self.mem_tail(id, w, Some(w2))
        } else {
            self.mem_tail(id, w, None)
        }
    }

    fn mem_list(&mut self) -> (res: Result<
        Vec<(Box<ASTNode>, Box<ASTNode>, Option<Box<ASTNode>>, Option<Vec<Box<ASTNode>>>)>,
        ParseError,
    >)
        requires
            old(self).inv(),
        ensures
            *final(final(self).lexer) == *final(old(self).lexer),
            final(self).wf(),
            final(self).input() == old(self).input(),
            agrees(
                res,
                g_mem_list(old(self).input(), old(self).state(), Seq::empty()),
                final(self).state(),
                |v: Vec<(Box<ASTNode>, Box<ASTNode>, Option<Box<ASTNode>>, Option<Vec<Box<ASTNode>>>)>| view_mems(v@),
            ),
            res is Ok ==> final(self).advanced_from(old(self)),
    {
        let ghost s = self.input();
        let ghost st0 = self.state();
        let mut list: Vec<(Box<ASTNode>, Box<ASTNode>, Option<Box<ASTNode>>, Option<Vec<Box<ASTNode>>>)> = Vec::new();
        loop
            invariant
                *final(self.lexer) == *final(old(self).lexer),
                self.inv(),
                self.input() == s,
                s == old(self).input(),
                st0 == old(self).state(),
                old(self).state().pos <= self.state().pos,
                self.budget() <= old(self).budget(),
                g_mem_list(s, st0, Seq::empty()) == g_mem_list(s, self.state(), view_mems(list@)),
            decreases s.len() - self.state().pos,
        {
            let d = self.mem_definition()?;
            proof {
                lemma_view_mems_push(list@, d);
            }
            list.push(d);
            let t = self.next()?;
            if is_symbol(&t, Symbol::Semicolon) {
                return Ok(list);
            } else if !is_symbol(&t, Symbol::Comma) {
                return Err(ParseError::UnexpectedToken(t));
            }
        }
    }

    fn state_names(&mut self) -> (res: Result<Vec<Box<ASTNode>>, ParseError>)
        requires
            old(self).inv(),
        ensures
            *final(final(self).lexer) == *final(old(self).lexer),
            final(self).wf(),
            final(self).input() == old(self).input(),
            agrees(
                res,
                g_state_names(old(self).input(), old(self).state(), Seq::empty()),
                final(self).state(),
                |v: Vec<Box<ASTNode>>| view_nodes(v@),
            ),
            res is Ok ==> final(self).advanced_from(old(self)),
    {
        let ghost s = self.input();
        let ghost st0 = self.state();
        let mut ids: Vec<Box<ASTNode>> = Vec::new();
        loop
            invariant
                *final(self.lexer) == *final(old(self).lexer),
                self.inv(),
                self.input() == s,
                s == old(self).input(),
                st0 == old(self).state(),
                old(self).state().pos <= self.state().pos,
                self.budget() <= old(self).budget(),
                g_state_names(s, st0, Seq::empty()) == g_state_names(s, self.state(), view_nodes(ids@)),
            decreases s.len() - self.state().pos,
        {
            let id = self.id_node()?;
            proof {
                lemma_view_nodes_push(ids@, id);
            }
            ids.push(id);
            let t = self.next()?;
            if is_symbol(&t, Symbol::Semicolon) {
                return Ok(ids);
            } else if !is_symbol(&t, Symbol::Comma) {
                return Err(ParseError::UnexpectedToken(t));
            }
        }
    }

    fn named_statement(&mut self, w: String) -> (res: Result<Box<ASTNode>, ParseError>)
        requires
            old(self).inv(),
        ensures
            *final(final(self).lexer) == *final(old(self).lexer),
            final(self).wf(),
            final(self).input() == old(self).input(),
            agrees(res, g_named_statement(old(self).input(), old(self).state(), w@), final(self).state(), |n: Box<ASTNode>| n@),
            res is Ok ==> final(self).advanced_from(old(self)),
    {
        let ghost wv = w@;
        let id = create_node(ASTClass::Identifire(w));
        assert(id@ == AstV::Identifire(wv));
        let t = self.next()?;
        match t.class {
            TokenClass::Symbol(Symbol::Equal) => {
                let x = self.expression()?;
                self.check(Symbol::Semicolon)?;
                Ok(create_node(ASTClass::Assign(id, x)))
            },
            TokenClass::Symbol(Symbol::RegAssign) => {
                let x = self.expression()?;
                self.check(Symbol::Semicolon)?;
                Ok(create_node(ASTClass::RegAssign(id, x)))
            },
            TokenClass::Symbol(Symbol::LeftParen) => {
                let args = self.args_vec()?;
                self.check(Symbol::Semicolon)?;
                Ok(create_node(ASTClass::FuncCall(id, args)))
            },
            _ => Err(ParseError::UnexpectedToken(t)),
        }
    }

    fn proc_name(&mut self) -> (res: Result<Box<ASTNode>, ParseError>)
        requires
            old(self).inv(),
        ensures
            *final(final(self).lexer) == *final(old(self).lexer),
            final(self).wf(),
            final(self).input() == old(self).input(),
            agrees(res, g_proc_name(old(self).input(), old(self).state()), final(self).state(), |n: Box<ASTNode>| n@),
            res is Ok ==> final(self).advanced_from(old(self)),
    {
        let id = self.id_node()?;
        self.check(Symbol::LeftParen)?;
        let args = self.args_vec()?;
        self.check(Symbol::Semicolon)?;
        Ok(create_node(ASTClass::ProcName(id, args)))
    }

    fn func_self(&mut self) -> (res: Result<Box<ASTNode>, ParseError>)
        requires
            old(self).inv(),
        ensures
            *final(final(self).lexer) == *final(old(self).lexer),
            final(self).wf(),
            final(self).input() == old(self).input(),
            agrees(res, g_func_self(old(self).input(), old(self).state()), final(self).state(), |n: Box<ASTNode>| n@),
            res is Ok ==> final(self).advanced_from(old(self)),
    {
        let ghost s = self.input();
        let id = self.id_node()?;
        let ghost st1 = self.state();
        let t = self.peek()?;
        let args = if is_symbol(&t, Symbol::LeftParen) {
            let _ = self.next()?;
            self.args_vec()?
        } else {
            let v: Vec<Box<ASTNode>> = Vec::new();
            assert(view_nodes(v@) =~= Seq::<AstV>::empty());
            v
        };
        let r = self.func_return()?;
        proof {
            lemma_vopt(r);
        }
        Ok(create_node(ASTClass::FuncSelf(id, args, r)))
    }

    fn return_statement(&mut self) -> (res: Result<Box<ASTNode>, ParseError>)
        requires
            old(self).inv(),
        ensures
            *final(final(self).lexer) == *final(old(self).lexer),
            final(self).wf(),
            final(self).input() == old(self).input(),
            agrees(res, g_return(old(self).input(), old(self).state()), final(self).state(), |n: Box<ASTNode>| n@),
            res is Ok ==> final(self).advanced_from(old(self)),
    {
        let x = self.expression()?;
        self.check(Symbol::Semicolon)?;
        Ok(create_node(ASTClass::Return(x)))
    }


    fn module_block_ast(&mut self) -> (res: Result<Box<ASTNode>, ParseError>)
        requires
            old(self).inv(),
        ensures
            *final(final(self).lexer) == *final(old(self).lexer),
            final(self).wf(),
            final(self).input() == old(self).input(),
            agrees(res, g_block(old(self).input(), old(self).state()), final(self).state(), |n: Box<ASTNode>| n@),
            res is Ok ==> final(self).advanced_from(old(self)),
        decreases old(self).input().len() - old(self).state().pos, 0int,
    {
        let ghost s = self.input();
        self.check(Symbol::OpeningBrace)?;
        let ghost st1 = self.state();
        let mut items: Vec<Box<ASTNode>> = Vec::new();
        loop
            invariant
                *final(self.lexer) == *final(old(self).lexer),
                self.inv(),
                self.input() == s,
                s == old(self).input(),
                moved(s, old(self).state(), st1),
                moved(s, old(self).state(), self.state()),
                self.budget() <= old(self).budget(),
                g_block(s, old(self).state()) == (match g_block_items(s, st1, Seq::empty()) {
                    Err(e) => Err(e),
                    Ok((l, st2)) => Ok((AstV::Block(l), st2)),
                }),
                g_block_items(s, st1, Seq::empty()) == g_block_items(s, self.state(), view_nodes(items@)),
            decreases s.len() - self.state().pos,
        {
            let ghost st = self.state();
            let ghost acc = view_nodes(items@);
            let t = self.peek()?;
            if is_symbol(&t, Symbol::ClosingBrace) {
                let t1 = self.next()?;
                assert(pnext(s, st) == Ok::<(TokenV, LexState), ParseErrorV>((t1@, self.state())));
                assert(g_block_items(s, st, acc) == Ok::<(Seq<AstV>, LexState), ParseErrorV>((acc, self.state())));
                let block = create_node(ASTClass::Block(items));
                assert(block@ == AstV::Block(acc));
                return Ok(block);
            }
            let p = self.module_block_part_ast()?;
            assert(g_part(s, st) == Ok::<(AstV, LexState), ParseErrorV>((p@, self.state())));
            assert(g_block_items(s, st, acc) == g_block_items(s, self.state(), acc.push(p@)));
            proof {
                lemma_view_nodes_push(items@, p);
            }
            items.push(p);
        }
    }

    fn module_block_part_ast(&mut self) -> (res: Result<Box<ASTNode>, ParseError>)
        requires
            old(self).inv(),
        ensures
            *final(final(self).lexer) == *final(old(self).lexer),
            final(self).wf(),
            final(self).input() == old(self).input(),
            agrees(res, g_part(old(self).input(), old(self).state()), final(self).state(), |n: Box<ASTNode>| n@),
            res is Ok ==> final(self).advanced_from(old(self)),
        decreases old(self).input().len() - old(self).state().pos, 0int,
    {
        let ghost st0 = self.state();
        let t = self.next()?;
        match t.class {
            TokenClass::Symbol(Symbol::Reg) => {
                let l = self.reg_list()?;
                Ok(create_node(ASTClass::Reg(l)))
            },
            TokenClass::Symbol(Symbol::Wire) => {
                let l = self.wire_list()?;
                Ok(create_node(ASTClass::Wire(l)))
            },
            TokenClass::Symbol(Symbol::Mem) => {
                let l = self.mem_list()?;
                Ok(create_node(ASTClass::Mem(l)))
            },
            TokenClass::Identifire(w) => self.named_statement(w),
            TokenClass::Symbol(Symbol::ProcName) => self.proc_name(),
            TokenClass::Symbol(Symbol::StateName) => {
                let l = self.state_names()?;
                Ok(create_node(ASTClass::StateName(l)))
            },
            TokenClass::Symbol(Symbol::State) => self.state_part(Ghost(st0)),
            TokenClass::Symbol(Symbol::FuncSelf) => self.func_self(),
            TokenClass::Symbol(Symbol::Func) => self.func_part(Ghost(st0)),
            TokenClass::Symbol(Symbol::Return) => self.return_statement(),
            TokenClass::Symbol(Symbol::If) => self.if_part(Ghost(st0)),
            TokenClass::Symbol(Symbol::Any) => self.any_part(Ghost(st0)),
            _ => Err(ParseError::UnexpectedToken(t)),
        }
    }

    fn state_part(&mut self, Ghost(st0): Ghost<LexState>) -> (res: Result<Box<ASTNode>, ParseError>)
        requires
            old(self).inv(),
            moved(old(self).input(), st0, old(self).state()),
        ensures
            *final(final(self).lexer) == *final(old(self).lexer),
            final(self).wf(),
            final(self).input() == old(self).input(),
            agrees(res, g_part_state(old(self).input(), st0, old(self).state()), final(self).state(), |n: Box<ASTNode>| n@),
            res is Ok ==> final(self).advanced_from(old(self)),
        decreases old(self).input().len() - old(self).state().pos, 0int,
    {
        let id = self.id_node()?;
        let b = self.module_block_ast()?;
        Ok(create_node(ASTClass::State(id, b)))
    }

    fn func_part(&mut self, Ghost(st0): Ghost<LexState>) -> (res: Result<Box<ASTNode>, ParseError>)
        requires
            old(self).inv(),
            moved(old(self).input(), st0, old(self).state()),
        ensures
            *final(final(self).lexer) == *final(old(self).lexer),
            final(self).wf(),
            final(self).input() == old(self).input(),
            agrees(res, g_part_func(old(self).input(), st0, old(self).state()), final(self).state(), |n: Box<ASTNode>| n@),
            res is Ok ==> final(self).advanced_from(old(self)),
        decreases old(self).input().len() - old(self).state().pos, 0int,
    {
        let id = self.id_node()?;
        let t = self.peek()?;
        let f = if is_symbol(&t, Symbol::Dot) {
            let _ = self.next()?;
            Some(self.id_node()?)
        } else {
            None
        };
        let b = self.module_block_ast()?;
        proof {
            lemma_vopt(f);
        }
        Ok(create_node(ASTClass::Func(id, f, b)))
    }

    fn if_part(&mut self, Ghost(st0): Ghost<LexState>) -> (res: Result<Box<ASTNode>, ParseError>)
        requires
            old(self).inv(),
            moved(old(self).input(), st0, old(self).state()),
        ensures
            *final(final(self).lexer) == *final(old(self).lexer),
            final(self).wf(),
            final(self).input() == old(self).input(),
            agrees(res, g_part_if(old(self).input(), st0, old(self).state()), final(self).state(), |n: Box<ASTNode>| n@),
            res is Ok ==> final(self).advanced_from(old(self)),
        decreases old(self).input().len() - old(self).state().pos, 0int,
    {
        self.check(Symbol::LeftParen)?;
        let c = self.expression()?;
        self.check(Symbol::RightParen)?;
        let n = self.peek()?;
        let braced = is_symbol(&n, Symbol::OpeningBrace);
        self.if_rest(Ghost(st0), c, braced)
    }

    fn if_branch(&mut self, Ghost(st0): Ghost<LexState>, braced: bool) -> (res: Result<Box<ASTNode>, ParseError>)
        requires
            old(self).inv(),
            moved(old(self).input(), st0, old(self).state()),
        ensures
            *final(final(self).lexer) == *final(old(self).lexer),
            final(self).wf(),
            final(self).input() == old(self).input(),
            agrees(res, g_if_branch(old(self).input(), st0, old(self).state(), braced), final(self).state(), |n: Box<ASTNode>| n@),
            res is Ok ==> final(self).advanced_from(old(self)),
        decreases old(self).input().len() - old(self).state().pos, 1int,
    {
        proof {
            reveal(g_if_branch);
        }
        if braced {
            self.module_block_ast()
        } else {
            self.module_block_part_ast()
        }
    }

    #[verifier::spinoff_prover]
    fn if_rest(&mut self, Ghost(st0): Ghost<LexState>, c: Box<ASTNode>, braced: bool) -> (res: Result<Box<ASTNode>, ParseError>)
        requires
            old(self).inv(),
            moved(old(self).input(), st0, old(self).state()),
        ensures
            *final(final(self).lexer) == *final(old(self).lexer),
            final(self).wf(),
            final(self).input() == old(self).input(),
            agrees(res, g_if_rest(old(self).input(), st0, old(self).state(), c@, braced), final(self).state(), |n: Box<ASTNode>| n@),
            res is Ok ==> final(self).advanced_from(old(self)),
        decreases old(self).input().len() - old(self).state().pos, 2int,
    {
        let ghost s = self.input();
        let ghost st4 = self.state();
        let ghost cv = c@;
        let tb = self.if_branch(Ghost(st0), braced)?;
        let ghost st5 = self.state();
        assert(g_if_branch(s, st0, st4, braced) == Ok::<(AstV, LexState), ParseErrorV>((tb@, st5)));
        let m = self.peek()?;
        assert(ppeek(s, st5) == Ok::<TokenV, ParseErrorV>(m@));
        if is_symbol(&m, Symbol::Else) {
            let t6 = self.next()?;
            let ghost st6 = self.state();
            assert(pnext(s, st5) == Ok::<(TokenV, LexState), ParseErrorV>((t6@, st6)));
            let eb = self.if_branch(Ghost(st0), braced)?;
            let ghost st7 = self.state();
            assert(g_if_branch(s, st0, st6, braced) == Ok::<(AstV, LexState), ParseErrorV>((eb@, st7)));
            let node = create_node(ASTClass::If(c, tb, Some(eb)));
            assert(node@ == AstV::If(Box::new(cv), Box::new(tb@), Some(Box::new(eb@))));
            assert(g_if_rest(s, st0, st4, cv, braced) == Ok::<(AstV, LexState), ParseErrorV>((node@, st7)));
            Ok(node)
        } else {
            let node = create_node(ASTClass::If(c, tb, None));
            assert(node@ == AstV::If(Box::new(cv), Box::new(tb@), None));
            assert(g_if_rest(s, st0, st4, cv, braced) == Ok::<(AstV, LexState), ParseErrorV>((node@, st5)));
            Ok(node)
        }
    }

    fn any_part(&mut self, Ghost(st0): Ghost<LexState>) -> (res: Result<Box<ASTNode>, ParseError>)
        requires
            old(self).inv(),
            moved(old(self).input(), st0, old(self).state()),
        ensures
            *final(final(self).lexer) == *final(old(self).lexer),
            final(self).wf(),
            final(self).input() == old(self).input(),
            agrees(res, g_part_any(old(self).input(), st0, old(self).state()), final(self).state(), |n: Box<ASTNode>| n@),
            res is Ok ==> final(self).advanced_from(old(self)),
        decreases old(self).input().len() - old(self).state().pos, 0int,
    {
        let ghost s = self.input();
        self.check(Symbol::OpeningBrace)?;
        let ghost st2 = self.state();
        let mut arms: Vec<(Box<ASTNode>, Box<ASTNode>)> = Vec::new();
        loop
            invariant
                *final(self.lexer) == *final(old(self).lexer),
                self.inv(),
                self.input() == s,
                s == old(self).input(),
                moved(s, st0, st2),
                moved(s, old(self).state(), self.state()),
                self.budget() <= old(self).budget(),
                g_part_any(s, st0, old(self).state()) == (match g_any_items(s, st2, Seq::empty()) {
                    Err(e) => Err(e),
                    Ok((l, st3)) => Ok((AstV::Any(l), st3)),
                }),
                g_any_items(s, st2, Seq::empty()) == g_any_items(s, self.state(), view_anys(arms@)),
            decreases s.len() - self.state().pos,
        {
            let ghost st = self.state();
            let t = self.peek()?;
            if is_symbol(&t, Symbol::ClosingBrace) {
                let _ = self.next()?;
                let ghost acc = view_anys(arms@);
                let node = create_node(ASTClass::Any(arms));
                assert(node@ == AstV::Any(acc));
                return Ok(node);
            }
            let c = if is_symbol(&t, Symbol::Else) {
                let _ = self.next()?;
                let e = create_node(ASTClass::Else);
                assert(e@ == AstV::Else);
                e
            } else {
                self.expression()?
            };
            self.check(Symbol::Colon)?;
            let b = self.module_block_ast()?;
            proof {
                lemma_view_anys_push(arms@, (c, b));
            }
            arms.push((c, b));
        }
    }

    fn expression(&mut self) -> (res: Result<Box<ASTNode>, ParseError>)
        requires
            old(self).inv(),
        ensures
            *final(final(self).lexer) == *final(old(self).lexer),
            final(self).wf(),
            final(self).input() == old(self).input(),
            agrees(res, g_expr(old(self).input(), old(self).state()), final(self).state(), |n: Box<ASTNode>| n@),
            res is Ok ==> final(self).advanced_from(old(self)),
        decreases old(self).input().len() - old(self).state().pos,
    {
        let ghost s = self.input();
        let ghost st0 = self.state();
        let left = self.next()?;
        let ghost st1 = self.state();
        assert(pnext(s, st0) == Ok::<(TokenV, LexState), ParseErrorV>((left@, st1)));
        proof {
            self.lemma_bounds();
            if left.class@ is EndOfProgram {
                self.lemma_peek_at_end();
            }
        }
        let n = self.peek()?;
        assert(ppeek(s, st1) == Ok::<TokenV, ParseErrorV>(n@));
        let x = if is_symbol(&n, Symbol::LeftParen) {
            let _ = self.next()?;
            let ghost st2 = self.state();
            let args = self.args_vec()?;
            let ghost st3 = self.state();
            assert(g_args(s, st2, Seq::empty()) == Ok::<(Seq<AstV>, LexState), ParseErrorV>((view_nodes(args@), st3)));
            let f = token_node(left)?;
            create_node(ASTClass::FuncCall(f, args))
        } else {
            token_node(left)?
        };
        let ghost st4 = self.state();
        let ghost operand: PRes<AstV> = Ok((x@, st4));
        assert(moved(s, st0, st4));
        let nn = self.peek()?;
        assert(ppeek(s, st4) == Ok::<TokenV, ParseErrorV>(nn@));
        match nn.class {
            TokenClass::Operator(o) => {
                let t5 = self.next()?;
                let ghost st5 = self.state();
                assert(pnext(s, st4) == Ok::<(TokenV, LexState), ParseErrorV>((t5@, st5)));
                assert(moved(s, st0, st5));
                let r = self.expression()?;
                let ghost st6 = self.state();
                assert(g_expr(s, st5) == Ok::<(AstV, LexState), ParseErrorV>((r@, st6)));
                let opn = create_node(ASTClass::Operator(o));
                assert(opn@ == AstV::Operator(o));
                let node = create_node(ASTClass::Expression(x, opn, r));
                assert(node@ == AstV::Expression(Box::new(x@), Box::new(AstV::Operator(o)), Box::new(r@)));
                assert(g_expr(s, st0) == Ok::<(AstV, LexState), ParseErrorV>((node@, st6)));
                Ok(node)
            },
            _ => {
                assert(g_expr(s, st0) == Ok::<(AstV, LexState), ParseErrorV>((x@, st4)));
                Ok(x)
            },
        }
    }

    /// Reads one token; line breaks are tokens here.
    fn next_in_line(&mut self) -> (res: Result<Token, ParseError>)
        requires
            old(self).wf(),
            old(self).budget() < usize::MAX,
        ensures
            *final(final(self).lexer) == *final(old(self).lexer),
            final(self).wf(),
            final(self).input() == old(self).input(),
            match spec_next(old(self).input(), old(self).state(), false) {
                Ok((t, st)) => res matches Ok(tok) && tok@ == t && final(self).state() == st,
                Err(e) => res matches Err(er) && er@ == ParseErrorV::Lex(e) && final(self).state()
                    == old(self).state(),
            },
            res matches Ok(t) ==> {
                &&& old(self).state().pos <= final(self).state().pos
                &&& final(self).state().id == old(self).state().id + 1
                &&& (t.class@ is EndOfProgram ==> final(self).state().pos == final(self).input().len())
                &&& (!(t.class@ is EndOfProgram) ==> final(self).advanced_from(old(self)))
            },
    {
        proof {
            self.lemma_bounds();
        }
        let r = self.lexer.try_next_token(false);
        proof {
            self.lemma_bounds();
        }
        match r {
            Ok(t) => Ok(t),
            Err(e) => Err(ParseError::Lex(e)),
        }
    }

    /// The tokens up to the end of the line; the line break, or the end of
    /// the input, is consumed too.
    fn line_tokens(&mut self) -> (res: Result<Vec<Token>, ParseError>)
        requires
            old(self).inv(),
        ensures
            *final(final(self).lexer) == *final(old(self).lexer),
            final(self).wf(),
            final(self).input() == old(self).input(),
            agrees(
                res,
                g_line_tokens(old(self).input(), old(self).state(), Seq::empty()),
                final(self).state(),
                |v: Vec<Token>| token_views(v@),
            ),
            res is Ok ==> final(self).progressed_from(old(self)),
    {
        let ghost s = self.input();
        let mut toks: Vec<Token> = Vec::new();
        assert(token_views(toks@) =~= Seq::<TokenV>::empty());
        loop
            invariant
                *final(self.lexer) == *final(old(self).lexer),
                self.wf(),
                self.input() == s,
                s == old(self).input(),
                old(self).budget() + 1 < usize::MAX,
                self.budget() <= old(self).budget(),
                old(self).state().pos <= self.state().pos,
                g_line_tokens(s, old(self).state(), Seq::empty()) == g_line_tokens(
                    s,
                    self.state(),
                    token_views(toks@),
                ),
            decreases s.len() - self.state().pos,
        {
            let t = self.next_in_line()?;
            match t.class {
                TokenClass::Newline => {
                    return Ok(toks);
                },
                TokenClass::EndOfProgram => {
                    return Ok(toks);
                },
                _ => {
                    proof {
                        lemma_token_views_push(toks@, t);
                    }
                    toks.push(t);
                },
            }
        }
    }

    /// The body of a `#define`, printed back from its tokens.
    fn define_value(&mut self) -> (res: Result<Option<String>, ParseError>)
        requires
            old(self).inv(),
        ensures
            *final(final(self).lexer) == *final(old(self).lexer),
            final(self).wf(),
            final(self).input() == old(self).input(),
            agrees(
                res,
                g_define_value(old(self).input(), old(self).state()),
                final(self).state(),
                |o: Option<String>| opt_text(o),
            ),
            res is Ok ==> final(self).progressed_from(old(self)),
    {
        let toks = self.line_tokens()?;
        if toks.len() == 0 {
            return Ok(None);
        }
        match define_text(toks) {
            Ok(txt) => Ok(Some(txt)),
            Err(bad) => Err(ParseError::Unprintable(bad)),
        }
    }

    /// A preprocessor line after its `#`.
    fn macro_ast(&mut self) -> (res: Result<Box<ASTNode>, ParseError>)
        requires
            old(self).inv(),
        ensures
            *final(final(self).lexer) == *final(old(self).lexer),
            final(self).wf(),
            final(self).input() == old(self).input(),
            agrees(res, g_macro(old(self).input(), old(self).state()), final(self).state(), |n: Box<ASTNode>| n@),
            res is Ok ==> moved(old(self).input(), old(self).state(), final(self).state()),
            res is Ok ==> final(self).progressed_from(old(self)),
    {
        let t = self.next()?;
        match t.class {
            TokenClass::Macro(Macro::Include) => {
                let p = self.path_node()?;
                Ok(create_node(ASTClass::MacroInclude(p)))
            },
            TokenClass::Macro(Macro::Undef) => {
                let id = self.id_node()?;
                Ok(create_node(ASTClass::MacroUndef(id)))
            },
            TokenClass::Macro(Macro::Ifdef) => {
                let id = self.id_node()?;
                Ok(create_node(ASTClass::MacroIfdef(id)))
            },
            TokenClass::Macro(Macro::Ifndef) => {
                let id = self.id_node()?;
                Ok(create_node(ASTClass::MacroIfndef(id)))
            },
            TokenClass::Macro(Macro::Endif) => Ok(create_node(ASTClass::MacroEndif)),
            TokenClass::Symbol(Symbol::Else) => Ok(create_node(ASTClass::MacroElse)),
            TokenClass::Macro(Macro::Define) => {
                let id = self.id_node()?;
                let v = self.define_value()?;
                proof {
                    self.lemma_bounds();
                }
                Ok(create_node(ASTClass::MacroDefine(id, v)))
            },
            _ => Err(ParseError::UnexpectedToken(t)),
        }
    }

    /// A `module` after its keyword.
    fn module_ast(&mut self) -> (res: Result<Box<ASTNode>, ParseError>)
        requires
            old(self).inv(),
        ensures
            *final(final(self).lexer) == *final(old(self).lexer),
            final(self).wf(),
            final(self).input() == old(self).input(),
            agrees(res, g_module(old(self).input(), old(self).state()), final(self).state(), |n: Box<ASTNode>| n@),
            res is Ok ==> final(self).advanced_from(old(self)),
    {
        let id = self.id_node()?;
        let b = self.module_block_ast()?;
        Ok(create_node(ASTClass::Module(id, b)))
    }

    /// Parses the next top-level item, or says why it cannot. An item is a
    /// preprocessor line, a `declare`, a `module` or a comment; at the end of
    /// the input the item is `EndOfProgram`, again on every later call.
    pub fn try_next_ast(&mut self) -> (res: Result<Box<ASTNode>, ParseError>)
        requires
            old(self).inv(),
        ensures
            *final(final(self).lexer) == *final(old(self).lexer),
            final(self).wf(),
            final(self).input() == old(self).input(),
            agrees(res, g_next_ast(old(self).input(), old(self).state()), final(self).state(), |n: Box<ASTNode>| n@),
            res matches Ok(n) && !(n@ is EndOfProgram) ==> moved(
                old(self).input(),
                old(self).state(),
                final(self).state(),
            ),
            res is Ok ==> final(self).progressed_from(old(self)),
    {
        let t = self.next()?;
        match t.class {
            TokenClass::Symbol(Symbol::Sharp) => self.macro_ast(),
            TokenClass::Symbol(Symbol::Declare) => self.declare_ast(),
            TokenClass::Symbol(Symbol::Module) => self.module_ast(),
            TokenClass::CPPStyleComment(w) => Ok(create_node(ASTClass::CPPStyleComment(w))),
            TokenClass::CStyleComment(v) => Ok(create_node(ASTClass::CStyleComment(v))),
            TokenClass::EndOfProgram => Ok(create_node(ASTClass::EndOfProgram)),
            _ => Err(ParseError::UnexpectedToken(t)),
        }
    }

    /// Parses the next top-level item, on an input where that succeeds.
    pub fn next_ast(&mut self) -> (n: Box<ASTNode>)
        requires
            old(self).inv(),
            g_next_ast(old(self).input(), old(self).state()) is Ok,
        ensures
            *final(final(self).lexer) == *final(old(self).lexer),
            final(self).wf(),
            final(self).input() == old(self).input(),
            g_next_ast(old(self).input(), old(self).state()) matches Ok((v, st)) && n@ == v
                && final(self).state() == st,
            !(n@ is EndOfProgram) ==> moved(old(self).input(), old(self).state(), final(self).state()),
            final(self).progressed_from(old(self)),
    {
        match self.try_next_ast() {
            Ok(n) => n,
            Err(e) => {
                proof {
                    assert(false);
                }
                create_node(ASTClass::EndOfProgram)
            },
        }
    }
}

pub open spec fn token_views(v: Seq<Token>) -> Seq<TokenV> {
    Seq::new(v.len(), |i: int| v[i]@)
}


pub proof fn lemma_token_views_push(v: Seq<Token>, x: Token)
    ensures
        token_views(v.push(x)) == token_views(v).push(x@),
{
    assert(token_views(v.push(x)) =~= token_views(v).push(x@));
}

/// Once a prefix ends in a token with no printed form, every longer prefix
/// reports that token.
proof fn lemma_tokens_text_prefix_err(tv: Seq<TokenV>, i: int)
    requires
        0 <= i < tv.len(),
        tokens_text(tv.take(i)) is Ok,
        token_text(tv[i].class) is None,
    ensures
        tokens_text(tv) == Err::<Seq<char>, TokenV>(tv[i]),
    decreases tv.len() - i,
{
    lemma_tokens_text_err_extends(tv, i + 1, tv[i]);
    assert(tv.take(tv.len() as int) =~= tv);
}

proof fn lemma_tokens_text_err_extends(tv: Seq<TokenV>, j: int, bad: TokenV)
    requires
        1 <= j <= tv.len(),
        tokens_text(tv.take(j - 1)) is Ok,
        tv[j - 1] == bad,
        token_text(bad.class) is None,
    ensures
        forall|k: int| j <= k <= tv.len() ==> tokens_text(#[trigger] tv.take(k)) == Err::<Seq<char>, TokenV>(bad),
    decreases tv.len() - j,
{
    assert(tv.take(j).drop_last() =~= tv.take(j - 1));
    assert(tokens_text(tv.take(j)) == Err::<Seq<char>, TokenV>(bad));
    assert forall|k: int| j <= k <= tv.len() implies tokens_text(#[trigger] tv.take(k)) == Err::<Seq<char>, TokenV>(bad) by {
        lemma_tokens_text_err_at(tv, j, k, bad);
    }
}

proof fn lemma_tokens_text_err_at(tv: Seq<TokenV>, j: int, k: int, bad: TokenV)
    requires
        1 <= j <= k <= tv.len(),
        tokens_text(tv.take(j)) == Err::<Seq<char>, TokenV>(bad),
    ensures
        tokens_text(tv.take(k)) == Err::<Seq<char>, TokenV>(bad),
    decreases k - j,
{
    if k > j {
        lemma_tokens_text_err_at(tv, j, k - 1, bad);
        assert(tv.take(k).drop_last() =~= tv.take(k - 1));
    }
}


/// The printed text of a `#define` body's tokens; a trailing semicolon loses
/// the blank printed after it. Fails on the first token with no printed form.
fn define_text(tokens: Vec<Token>) -> (r: Result<String, Token>)
    requires
        tokens.len() > 0,
    ensures
        match tokens_text(token_views(tokens@)) {
            Err(t) => r matches Err(b) && b@ == t,
            Ok(txt) => r matches Ok(x) && x@ == (if is_sym(token_views(tokens@).last(), Symbol::Semicolon) {
                txt.drop_last()
            } else {
                txt
            }),
        },
{
    let mut toks = tokens;
    let ghost tv = token_views(toks@);
    let n = toks.len() - 1;
    let mut txt = String::new();
    let mut i: usize = 0;
    assert(tv.take(0) =~= Seq::<TokenV>::empty());
    while i < n
        invariant
            n + 1 == toks.len(),
            tv == token_views(toks@),
            tv == token_views(tokens@),
            i <= n,
            tokens_text(tv.take(i as int)) == Ok::<Seq<char>, TokenV>(txt@),
        decreases n - i,
    {
        assert(tv.take(i + 1).drop_last() =~= tv.take(i as int));
        assert(tv.take(i + 1).last() == toks@[i as int]@);
        match toks[i].text() {
            Some(x) => {
                txt.append(x.as_str());
            },
            None => {
                proof {
                    lemma_tokens_text_prefix_err(tv, i as int);
                }
                let bad = toks.remove(i);
                return Err(bad);
            },
        }
        i += 1;
    }
    assert(tv.take(n + 1) =~= tv);
    assert(tv.drop_last() =~= tv.take(n as int));
    let last = toks.pop().unwrap();
    assert(last@ == tv.last());
    if is_symbol(&last, Symbol::Semicolon) {
        let ghost before = txt@;
        let semi = ";";
        proof {
            reveal_strlit(";");
        }
        txt.append(semi);
        assert(txt@ =~= (before + seq![';', ' ']).drop_last());
        Ok(txt)
    } else {
        match last.text() {
            Some(x) => {
                txt.append(x.as_str());
                Ok(txt)
            },
            None => Err(last),
        }
    }
}


/// The node for a name or a number token.
fn token_node(t: Token) -> (res: Result<Box<ASTNode>, ParseError>)
    ensures
        match to_node(t@) {
            Ok(v) => res matches Ok(n) && n@ == v,
            Err(e) => res matches Err(er) && er@ == e,
        },
{
    match t.class {
        TokenClass::Number(w) => Ok(create_node(ASTClass::Number(w))),
        TokenClass::Identifire(w) => Ok(create_node(ASTClass::Identifire(w))),
        _ => Err(ParseError::UnexpectedToken(t)),
    }
}

fn is_symbol(t: &Token, x: Symbol) -> (b: bool)
    ensures
        b == is_sym(t@, x),
{
    match &t.class {
        TokenClass::Symbol(y) => *y == x,
        _ => false,
    }
}

} // verus!
