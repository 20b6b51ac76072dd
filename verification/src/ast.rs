//! The syntax tree the parser builds, and its mathematical view.
use vstd::prelude::*;

use crate::token::{Operator, UnaryOperator, op_text, operator_text, opt_text, string_views, unary_operator_text, uop_text};

verus! {

#[derive(Debug, PartialEq)]
pub enum ASTClass {
    Identifire(String),
    Number(String),
    String(String),
    BitSlice(Box<ASTNode>, Option<Box<ASTNode>>),
    Block(Vec<Box<ASTNode>>),
    Operator(Operator),
    UnaryOperator(UnaryOperator),
    /// identifier, block
    Declare(Box<ASTNode>, Box<ASTNode>),
    /// identifier, arguments, returned port
    FuncIn(Box<ASTNode>, Vec<Box<ASTNode>>, Option<Box<ASTNode>>),
    FuncOut(Box<ASTNode>, Vec<Box<ASTNode>>, Option<Box<ASTNode>>),
    FuncSelf(Box<ASTNode>, Vec<Box<ASTNode>>, Option<Box<ASTNode>>),
    /// identifier, width
    Input(Box<ASTNode>, Option<Box<ASTNode>>),
    Output(Box<ASTNode>, Option<Box<ASTNode>>),
    InOut(Box<ASTNode>, Option<Box<ASTNode>>),
    /// identifier, block
    Module(Box<ASTNode>, Box<ASTNode>),
    Submodule(Box<ASTNode>, Vec<(Box<ASTNode>, Option<Box<ASTNode>>)>),
    ProcName(Box<ASTNode>, Vec<Box<ASTNode>>),
    StateName(Vec<Box<ASTNode>>),
    /// identifier, width, second width, initial values
    Mem(Vec<(Box<ASTNode>, Box<ASTNode>, Option<Box<ASTNode>>, Option<Vec<Box<ASTNode>>>)>),
    Assign(Box<ASTNode>, Box<ASTNode>),
    RegAssign(Box<ASTNode>, Box<ASTNode>),
    /// identifier, function name after a dot, block
    Func(Box<ASTNode>, Option<Box<ASTNode>>, Box<ASTNode>),
    /// condition, block
    Any(Vec<(Box<ASTNode>, Box<ASTNode>)>),
    Return(Box<ASTNode>),
    Goto(Box<ASTNode>),
    Else,
    ModulePort(Box<ASTNode>, Box<ASTNode>),
    FuncCall(Box<ASTNode>, Vec<Box<ASTNode>>),
    /// state name, block
    State(Box<ASTNode>, Box<ASTNode>),
    /// condition, then part, else part
    If(Box<ASTNode>, Box<ASTNode>, Option<Box<ASTNode>>),
    MacroInclude(Box<ASTNode>),
    MacroUndef(Box<ASTNode>),
    MacroIfdef(Box<ASTNode>),
    MacroIfndef(Box<ASTNode>),
    MacroElse,
    MacroEndif,
    MacroDefine(Box<ASTNode>, Option<String>),
    /// identifier, width
    Wire(Vec<(Box<ASTNode>, Option<Box<ASTNode>>)>),
    /// identifier, width, initial value
    Reg(Vec<(Box<ASTNode>, Option<Box<ASTNode>>, Option<Box<ASTNode>>)>),
    /// operand, operator, operand
    Expression(Box<ASTNode>, Box<ASTNode>, Box<ASTNode>),
    BitslicedExpr(Box<ASTNode>, Box<ASTNode>),
    UnaryOperation(Box<ASTNode>, Box<ASTNode>),
    CPPStyleComment(String),
    CStyleComment(Vec<String>),
    Newline,
    EndOfProgram,
}

#[derive(Debug, PartialEq)]
pub struct ASTNode {
    pub class: ASTClass,
}

/// Mathematical view of a syntax tree: strings become character sequences,
/// vectors become sequences.
pub enum AstV {
    Identifire(Seq<char>),
    Number(Seq<char>),
    Str(Seq<char>),
    BitSlice(Box<AstV>, Option<Box<AstV>>),
    Block(Seq<AstV>),
    Operator(Operator),
    UnaryOperator(UnaryOperator),
    Declare(Box<AstV>, Box<AstV>),
    FuncIn(Box<AstV>, Seq<AstV>, Option<Box<AstV>>),
    FuncOut(Box<AstV>, Seq<AstV>, Option<Box<AstV>>),
    FuncSelf(Box<AstV>, Seq<AstV>, Option<Box<AstV>>),
    Input(Box<AstV>, Option<Box<AstV>>),
    Output(Box<AstV>, Option<Box<AstV>>),
    InOut(Box<AstV>, Option<Box<AstV>>),
    Module(Box<AstV>, Box<AstV>),
    Submodule(Box<AstV>, Seq<(AstV, Option<AstV>)>),
    ProcName(Box<AstV>, Seq<AstV>),
    StateName(Seq<AstV>),
    Mem(Seq<(AstV, AstV, Option<AstV>, Option<Seq<AstV>>)>),
    Assign(Box<AstV>, Box<AstV>),
    RegAssign(Box<AstV>, Box<AstV>),
    Func(Box<AstV>, Option<Box<AstV>>, Box<AstV>),
    Any(Seq<(AstV, AstV)>),
    Return(Box<AstV>),
    Goto(Box<AstV>),
    Else,
    ModulePort(Box<AstV>, Box<AstV>),
    FuncCall(Box<AstV>, Seq<AstV>),
    State(Box<AstV>, Box<AstV>),
    If(Box<AstV>, Box<AstV>, Option<Box<AstV>>),
    MacroInclude(Box<AstV>),
    MacroUndef(Box<AstV>),
    MacroIfdef(Box<AstV>),
    MacroIfndef(Box<AstV>),
    MacroElse,
    MacroEndif,
    MacroDefine(Box<AstV>, Option<Seq<char>>),
    Wire(Seq<(AstV, Option<AstV>)>),
    Reg(Seq<(AstV, Option<AstV>, Option<AstV>)>),
    Expression(Box<AstV>, Box<AstV>, Box<AstV>),
    BitslicedExpr(Box<AstV>, Box<AstV>),
    UnaryOperation(Box<AstV>, Box<AstV>),
    CPPStyleComment(Seq<char>),
    CStyleComment(Seq<Seq<char>>),
    Newline,
    EndOfProgram,
}

pub open spec fn vopt_plain(o: Option<Box<ASTNode>>) -> Option<AstV>
    decreases o,
{
    match o {
        Some(b) => Some(view_node(*b)),
        None => None,
    }
}

pub open spec fn view_nodes(v: Seq<Box<ASTNode>>) -> Seq<AstV>
    decreases v,
{
    if v.len() == 0 {
        Seq::empty()
    } else {
        view_nodes(v.drop_last()).push(view_node(*v.last()))
    }
}

pub proof fn lemma_view_nodes_len(v: Seq<Box<ASTNode>>)
    ensures
        view_nodes(v).len() == v.len(),
    decreases v.len(),
{
    if v.len() > 0 {
        lemma_view_nodes_len(v.drop_last());
    }
}

pub open spec fn vopt_nodes(o: Option<Vec<Box<ASTNode>>>) -> Option<Seq<AstV>>
    decreases o,
{
    match o {
        Some(v) => Some(view_nodes(v@)),
        None => None,
    }
}

pub open spec fn view_pairs(v: Seq<(Box<ASTNode>, Option<Box<ASTNode>>)>) -> Seq<(AstV, Option<AstV>)>
    decreases v,
{
    if v.len() == 0 {
        Seq::empty()
    } else {
        view_pairs(v.drop_last()).push((view_node(*v.last().0), vopt_plain(v.last().1)))
    }
}

pub open spec fn view_regs(v: Seq<(Box<ASTNode>, Option<Box<ASTNode>>, Option<Box<ASTNode>>)>) -> Seq<
    (AstV, Option<AstV>, Option<AstV>),
>
    decreases v,
{
    if v.len() == 0 {
        Seq::empty()
    } else {
        view_regs(v.drop_last()).push(
            (view_node(*v.last().0), vopt_plain(v.last().1), vopt_plain(v.last().2)),
        )
    }
}

pub open spec fn view_mems(
    v: Seq<(Box<ASTNode>, Box<ASTNode>, Option<Box<ASTNode>>, Option<Vec<Box<ASTNode>>>)>,
) -> Seq<(AstV, AstV, Option<AstV>, Option<Seq<AstV>>)>
    decreases v,
{
    if v.len() == 0 {
        Seq::empty()
    } else {
        view_mems(v.drop_last()).push(
            (
                view_node(*v.last().0),
                view_node(*v.last().1),
                vopt_plain(v.last().2),
                vopt_nodes(v.last().3),
            ),
        )
    }
}

pub open spec fn view_anys(v: Seq<(Box<ASTNode>, Box<ASTNode>)>) -> Seq<(AstV, AstV)>
    decreases v,
{
    if v.len() == 0 {
        Seq::empty()
    } else {
        view_anys(v.drop_last()).push((view_node(*v.last().0), view_node(*v.last().1)))
    }
}

pub open spec fn view_node(n: ASTNode) -> AstV
    decreases n,
{
    match n.class {
        ASTClass::Identifire(s) => AstV::Identifire(s@),
        ASTClass::Number(s) => AstV::Number(s@),
        ASTClass::String(s) => AstV::Str(s@),
        ASTClass::BitSlice(a, b) => AstV::BitSlice(Box::new(view_node(*a)), match b { Some(x) => Some(Box::new(view_node(*x))), None => None }),
        ASTClass::Block(v) => AstV::Block(view_nodes(v@)),
        ASTClass::Operator(o) => AstV::Operator(o),
        ASTClass::UnaryOperator(u) => AstV::UnaryOperator(u),
        ASTClass::Declare(a, b) => AstV::Declare(Box::new(view_node(*a)), Box::new(view_node(*b))),
        ASTClass::FuncIn(a, v, r) => AstV::FuncIn(Box::new(view_node(*a)), view_nodes(v@), match r { Some(x) => Some(Box::new(view_node(*x))), None => None }),
        ASTClass::FuncOut(a, v, r) => AstV::FuncOut(Box::new(view_node(*a)), view_nodes(v@), match r { Some(x) => Some(Box::new(view_node(*x))), None => None }),
        ASTClass::FuncSelf(a, v, r) => AstV::FuncSelf(Box::new(view_node(*a)), view_nodes(v@), match r { Some(x) => Some(Box::new(view_node(*x))), None => None }),
        ASTClass::Input(a, w) => AstV::Input(Box::new(view_node(*a)), match w { Some(x) => Some(Box::new(view_node(*x))), None => None }),
        ASTClass::Output(a, w) => AstV::Output(Box::new(view_node(*a)), match w { Some(x) => Some(Box::new(view_node(*x))), None => None }),
        ASTClass::InOut(a, w) => AstV::InOut(Box::new(view_node(*a)), match w { Some(x) => Some(Box::new(view_node(*x))), None => None }),
        ASTClass::Module(a, b) => AstV::Module(Box::new(view_node(*a)), Box::new(view_node(*b))),
        ASTClass::Submodule(a, v) => AstV::Submodule(Box::new(view_node(*a)), view_pairs(v@)),
        ASTClass::ProcName(a, v) => AstV::ProcName(Box::new(view_node(*a)), view_nodes(v@)),
        ASTClass::StateName(v) => AstV::StateName(view_nodes(v@)),
        ASTClass::Mem(v) => AstV::Mem(view_mems(v@)),
        ASTClass::Assign(a, b) => AstV::Assign(Box::new(view_node(*a)), Box::new(view_node(*b))),
        ASTClass::RegAssign(a, b) => AstV::RegAssign(Box::new(view_node(*a)), Box::new(view_node(*b))),
        ASTClass::Func(a, f, b) => AstV::Func(Box::new(view_node(*a)), match f { Some(x) => Some(Box::new(view_node(*x))), None => None }, Box::new(view_node(*b))),
        ASTClass::Any(v) => AstV::Any(view_anys(v@)),
        ASTClass::Return(a) => AstV::Return(Box::new(view_node(*a))),
        ASTClass::Goto(a) => AstV::Goto(Box::new(view_node(*a))),
        ASTClass::Else => AstV::Else,
        ASTClass::ModulePort(a, b) => AstV::ModulePort(Box::new(view_node(*a)), Box::new(view_node(*b))),
        ASTClass::FuncCall(a, v) => AstV::FuncCall(Box::new(view_node(*a)), view_nodes(v@)),
        ASTClass::State(a, b) => AstV::State(Box::new(view_node(*a)), Box::new(view_node(*b))),
        ASTClass::If(a, b, c) => AstV::If(Box::new(view_node(*a)), Box::new(view_node(*b)), match c { Some(x) => Some(Box::new(view_node(*x))), None => None }),
        ASTClass::MacroInclude(a) => AstV::MacroInclude(Box::new(view_node(*a))),
        ASTClass::MacroUndef(a) => AstV::MacroUndef(Box::new(view_node(*a))),
        ASTClass::MacroIfdef(a) => AstV::MacroIfdef(Box::new(view_node(*a))),
        ASTClass::MacroIfndef(a) => AstV::MacroIfndef(Box::new(view_node(*a))),
        ASTClass::MacroElse => AstV::MacroElse,
        ASTClass::MacroEndif => AstV::MacroEndif,
        ASTClass::MacroDefine(a, s) => AstV::MacroDefine(
            Box::new(view_node(*a)),
            match s {
                Some(t) => Some(t@),
                None => None,
            },
        ),
        ASTClass::Wire(v) => AstV::Wire(view_pairs(v@)),
        ASTClass::Reg(v) => AstV::Reg(view_regs(v@)),
        ASTClass::Expression(a, b, c) => AstV::Expression(Box::new(view_node(*a)), Box::new(view_node(*b)), Box::new(view_node(*c))),
        ASTClass::BitslicedExpr(a, b) => AstV::BitslicedExpr(Box::new(view_node(*a)), Box::new(view_node(*b))),
        ASTClass::UnaryOperation(a, b) => AstV::UnaryOperation(Box::new(view_node(*a)), Box::new(view_node(*b))),
        ASTClass::CPPStyleComment(s) => AstV::CPPStyleComment(s@),
        ASTClass::CStyleComment(v) => AstV::CStyleComment(string_views(v@)),
        ASTClass::Newline => AstV::Newline,
        ASTClass::EndOfProgram => AstV::EndOfProgram,
    }
}

// ---------------------------------------------------------------------------
// How a tree is printed: `disp` is the inline form of a leaf (a name, a number,
// a string, an operator), `gen` the lines of a whole node. `None` marks a node
// that has no printed form.
// ---------------------------------------------------------------------------

pub open spec fn cat(a: Option<Seq<char>>, b: Option<Seq<char>>) -> Option<Seq<char>> {
    match (a, b) {
        (Some(x), Some(y)) => Some(x + y),
        _ => None,
    }
}

pub open spec fn one(h: Option<Seq<char>>) -> Option<Seq<Seq<char>>> {
    match h {
        Some(x) => Some(seq![x]),
        None => None,
    }
}

pub open spec fn headed(h: Option<Seq<char>>, rest: Option<Seq<Seq<char>>>) -> Option<Seq<Seq<char>>> {
    match (h, rest) {
        (Some(x), Some(r)) => Some(seq![x] + r),
        _ => None,
    }
}

/// The pieces one after another, `sep` between two neighbours.
pub open spec fn join(v: Seq<Seq<char>>, sep: Seq<char>) -> Seq<char>
    decreases v.len(),
{
    if v.len() == 0 {
        Seq::empty()
    } else if v.len() == 1 {
        v[0]
    } else {
        join(v.drop_last(), sep) + sep + v.last()
    }
}

/// Each line pushed right by four blanks.
pub open spec fn indent(v: Seq<Seq<char>>) -> Seq<Seq<char>> {
    Seq::new(v.len(), |i: int| "    "@ + v[i])
}

/// The inline form of a leaf node.
pub open spec fn disp(n: AstV) -> Option<Seq<char>>
    decreases n,
{
    match n {
        AstV::Identifire(s) => Some(s),
        AstV::Number(s) => Some(s),
        AstV::Str(s) => Some("\""@ + s + "\""@),
        AstV::Operator(o) => Some(op_text(o)),
        AstV::UnaryOperator(u) => Some(uop_text(u)),
        AstV::UnaryOperation(a, b) => cat(disp(*a), disp(*b)),
        _ => None,
    }
}

pub open spec fn disp_all(v: Seq<AstV>) -> Option<Seq<Seq<char>>>
    decreases v.len(),
{
    if v.len() == 0 {
        Some(Seq::empty())
    } else {
        match (disp_all(v.drop_last()), disp(v.last())) {
            (Some(xs), Some(x)) => Some(xs.push(x)),
            _ => None,
        }
    }
}

/// Inline forms separated by `", "`.
pub open spec fn disp_list(v: Seq<AstV>) -> Option<Seq<char>> {
    match disp_all(v) {
        Some(xs) => Some(join(xs, ", "@)),
        None => None,
    }
}

/// `" : r"` after a function port that returns `r`.
pub open spec fn ret_of(r: Option<Box<AstV>>) -> Option<Seq<char>> {
    match r {
        Some(x) => cat(Some(" : "@), disp(*x)),
        None => Some(Seq::empty()),
    }
}

/// Nodes that bring their own block and stand in a block on several lines.
pub open spec fn is_compound(n: AstV) -> bool {
    n is Any || n is Func || n is If || n is State
}

/// The first line of a node.
pub open spec fn gtop(n: AstV) -> Option<Seq<char>>
    decreases n, 1nat,
{
    match gen(n) {
        Some(ls) => if ls.len() > 0 {
            Some(ls[0])
        } else {
            None
        },
        None => None,
    }
}

/// `[w]` after a name declared with width `w`; nothing without one.
pub open spec fn width_of(w: Option<Box<AstV>>) -> Option<Seq<char>>
    decreases w, 2nat,
{
    match w {
        Some(x) => cat(cat(Some("["@), gtop(*x)), Some("]"@)),
        None => Some(Seq::empty()),
    }
}

/// The lines of a node.
pub open spec fn gen(n: AstV) -> Option<Seq<Seq<char>>>
    decreases n, 0nat,
{
    match n {
        AstV::Declare(id, b) => headed(cat(Some("declare "@), disp(*id)), gen(*b)),
        AstV::Module(id, b) => headed(cat(Some("module "@), disp(*id)), gen(*b)),
        AstV::Block(items) => match block_items(items) {
            Some(xs) => Some(seq!["{"@] + indent(xs) + seq!["}"@]),
            None => None,
        },
        AstV::Any(arms) => match any_lines(arms) {
            Some(ls) => Some(seq!["any"@, "{"@] + ls + seq!["}"@]),
            None => None,
        },
        AstV::Else => Some(seq!["else"@]),
        AstV::Expression(a, op, b) => one(
            cat(cat(cat(gtop(*a), Some(" "@)), cat(disp(*op), Some(" "@))), gtop(*b)),
        ),
        AstV::Identifire(s) => Some(seq![s]),
        AstV::Number(s) => Some(seq![s]),
        AstV::ModulePort(a, b) => one(cat(cat(disp(*a), Some("."@)), disp(*b))),
        AstV::FuncCall(f, args) => one(cat(cat(disp(*f), Some("("@)), cat(disp_list(args), Some(")"@)))),
        AstV::Submodule(m, items) => match pair_items(items) {
            Some(xs) => one(cat(cat(disp(*m), Some(" "@)), Some(join(xs, ", "@)))),
            None => None,
        },
        AstV::BitSlice(m, l) => one(
            cat(
                gtop(*m),
                match l {
                    Some(x) => cat(Some(":"@), gtop(*x)),
                    None => Some(Seq::empty()),
                },
            ),
        ),
        AstV::BitslicedExpr(e, b) => one(cat(cat(gtop(*e), Some("["@)), cat(gtop(*b), Some("]"@)))),
        AstV::FuncIn(id, args, r) => one(
            cat(cat(cat(Some("func_in "@), disp(*id)), cat(Some("("@), disp_list(args))), cat(Some(")"@), ret_of(r))),
        ),
        AstV::FuncOut(id, args, r) => one(
            cat(cat(cat(Some("func_out "@), disp(*id)), cat(Some("("@), disp_list(args))), cat(Some(")"@), ret_of(r))),
        ),
        AstV::FuncSelf(id, args, r) => one(
            cat(
                cat(Some("func_self "@), disp(*id)),
                cat(
                    if args.len() == 0 {
                        Some(Seq::empty())
                    } else {
                        cat(cat(Some("("@), disp_list(args)), Some(")"@))
                    },
                    ret_of(r),
                ),
            ),
        ),
        AstV::Input(id, w) => one(cat(cat(Some("input "@), disp(*id)), width_of(w))),
        AstV::Output(id, w) => one(cat(cat(Some("output "@), disp(*id)), width_of(w))),
        AstV::Wire(items) => match pair_items(items) {
            Some(xs) => Some(seq!["wire "@ + join(xs, ", "@)]),
            None => None,
        },
        AstV::Reg(items) => match reg_items(items) {
            Some(xs) => Some(seq!["reg "@ + join(xs, ", "@)]),
            None => None,
        },
        AstV::CPPStyleComment(s) => Some(seq!["//"@ + s]),
        AstV::CStyleComment(ls) => Some(seq!["/*"@ + join(ls, "\n"@) + "*/"@]),
        AstV::StateName(ids) => one(cat(Some("state_name "@), disp_list(ids))),
        AstV::Assign(a, e) => one(cat(cat(gtop(*a), Some(" = "@)), gtop(*e))),
        AstV::RegAssign(a, e) => one(cat(cat(disp(*a), Some(" := "@)), disp(*e))),
        AstV::Func(id, f, b) => headed(
            match f {
                Some(x) => cat(cat(cat(Some("func "@), disp(*id)), Some("."@)), disp(*x)),
                None => cat(Some("func "@), disp(*id)),
            },
            gen(*b),
        ),
        AstV::Return(v) => one(cat(Some("return "@), gtop(*v))),
        AstV::Goto(id) => one(cat(Some("goto "@), disp(*id))),
        AstV::State(id, b) => headed(cat(Some("state "@), disp(*id)), gen(*b)),
        AstV::If(c, t, e) => match (gtop(*c), gen(*t)) {
            (Some(cs), Some(tl)) => match e {
                None => Some(seq!["if ("@ + cs + ")"@] + tl),
                Some(x) => match gen(*x) {
                    Some(el) => Some(seq!["if ("@ + cs + ")"@] + tl + seq!["else"@] + el),
                    None => None,
                },
            },
            _ => None,
        },
        AstV::UnaryOperation(a, b) => one(cat(disp(*a), disp(*b))),
        AstV::MacroDefine(id, v) => one(
            cat(
                cat(Some("#define "@), disp(*id)),
                match v {
                    Some(x) => Some(" "@ + x),
                    None => Some(Seq::empty()),
                },
            ),
        ),
        AstV::MacroInclude(p) => one(cat(Some("#include "@), disp(*p))),
        _ => None,
    }
}

/// The items of a block, each as one string: a compound item keeps its
/// lines joined by line breaks, any other item is its first line and `;`.
pub open spec fn block_items(v: Seq<AstV>) -> Option<Seq<Seq<char>>>
    decreases v, 0nat,
{
    if v.len() == 0 {
        Some(Seq::empty())
    } else {
        match (
            block_items(v.drop_last()),
            if is_compound(v.last()) {
                match gen(v.last()) {
                    Some(ls) => Some(join(ls, "\n"@)),
                    None => None,
                }
            } else {
                cat(gtop(v.last()), Some(";"@))
            },
        ) {
            (Some(xs), Some(x)) => Some(xs.push(x)),
            _ => None,
        }
    }
}

/// The arms of an `any`: the condition and `:`, then the arm's block.
pub open spec fn any_lines(v: Seq<(AstV, AstV)>) -> Option<Seq<Seq<char>>>
    decreases v, 0nat,
{
    if v.len() == 0 {
        Some(Seq::empty())
    } else {
        match (any_lines(v.drop_last()), gtop(v.last().0), gen(v.last().1)) {
            (Some(pre), Some(e), Some(b)) => Some(pre + seq![e + ":"@] + b),
            _ => None,
        }
    }
}

/// Names with an optional width, as in `wire a, b[8]`.
pub open spec fn pair_items(v: Seq<(AstV, Option<AstV>)>) -> Option<Seq<Seq<char>>>
    decreases v, 0nat,
{
    if v.len() == 0 {
        Some(Seq::empty())
    } else {
        match (
            pair_items(v.drop_last()),
            cat(
                disp(v.last().0),
                match v.last().1 {
                    Some(w) => cat(cat(Some("["@), gtop(w)), Some("]"@)),
                    None => Some(Seq::empty()),
                },
            ),
        ) {
            (Some(xs), Some(x)) => Some(xs.push(x)),
            _ => None,
        }
    }
}

/// Registers: name, optional width, optional initial value.
pub open spec fn reg_items(v: Seq<(AstV, Option<AstV>, Option<AstV>)>) -> Option<Seq<Seq<char>>>
    decreases v, 0nat,
{
    if v.len() == 0 {
        Some(Seq::empty())
    } else {
        match (
            reg_items(v.drop_last()),
            cat(
                cat(
                    disp(v.last().0),
                    match v.last().1 {
                        Some(w) => cat(cat(Some("["@), gtop(w)), Some("]"@)),
                        None => Some(Seq::empty()),
                    },
                ),
                match v.last().2 {
                    Some(i) => cat(Some(" = "@), disp(i)),
                    None => Some(Seq::empty()),
                },
            ),
        ) {
            (Some(xs), Some(x)) => Some(xs.push(x)),
            _ => None,
        }
    }
}

pub proof fn lemma_block_items_len(items: Seq<AstV>)
    ensures
        block_items(items) matches Some(xs) ==> xs.len() == items.len(),
    decreases items.len(),
{
    if items.len() > 0 {
        lemma_block_items_len(items.drop_last());
    }
}

/// A block prints as `{`, then each item on a line of its own pushed right
/// by four blanks, then `}`.
pub proof fn law_block_layout(items: Seq<AstV>)
    ensures
        gen(AstV::Block(items)) matches Some(ls) ==> {
            &&& ls.len() == items.len() + 2
            &&& ls[0] == "{"@
            &&& ls[ls.len() - 1] == "}"@
            &&& block_items(items) matches Some(xs) && forall|k: int|
                1 <= k < ls.len() - 1 ==> #[trigger] ls[k] == "    "@ + xs[k - 1]
        },
{
    lemma_block_items_len(items);
}

/// The printed form of one register declaration: its name, its width in
/// brackets right after the name when it has one, and ` = ` with its
/// initial value when it has one.
pub open spec fn register_piece(id: AstV, w: Option<AstV>, init: Option<AstV>) -> Seq<char> {
    disp(id).unwrap() + (match w {
        Some(x) => "["@ + gtop(x).unwrap() + "]"@,
        None => Seq::empty(),
    }) + (match init {
        Some(x) => " = "@ + disp(x).unwrap(),
        None => Seq::empty(),
    })
}

/// A `reg` line ends with its last register's printed form: the name, the
/// width in brackets right after it if there is one, then the initial
/// value; a line with one register is `reg ` and that register's form.
pub proof fn law_register_line(
    items: Seq<(AstV, Option<AstV>, Option<AstV>)>,
    id: AstV,
    w: Option<AstV>,
    init: Option<AstV>,
)
    ensures
        gen(AstV::Reg(items.push((id, w, init)))) matches Some(ls) ==> {
            &&& ls.len() == 1
            &&& disp(id) is Some
            &&& (w matches Some(x) ==> gtop(x) is Some)
            &&& (init matches Some(x) ==> disp(x) is Some)
            &&& ls[0].len() >= register_piece(id, w, init).len() + 4
            &&& ls[0].subrange(ls[0].len() - register_piece(id, w, init).len(), ls[0].len() as int)
                == register_piece(id, w, init)
            &&& (items.len() == 0 ==> ls[0] == "reg "@ + register_piece(id, w, init))
        },
{
    reveal_strlit("reg ");
    let v = items.push((id, w, init));
    assert(v.drop_last() =~= items);
    if let Some(ls) = gen(AstV::Reg(v)) {
        let xs = reg_items(v).unwrap();
        let pre = reg_items(items).unwrap();
        let piece = register_piece(id, w, init);
        assert(xs == pre.push(piece));
        let j = join(xs, ", "@);
        if pre.len() == 0 {
            assert(j == piece);
        } else {
            assert(xs.drop_last() =~= pre);
            assert(j == join(pre, ", "@) + ", "@ + piece);
        }
        let a = ls[0].subrange(0, ls[0].len() - piece.len());
        assert(ls[0] =~= a + piece);
        if items.len() == 0 {
            assert(pre =~= Seq::<Seq<char>>::empty());
        }
    }
}

impl View for ASTNode {
    type V = AstV;

    open spec fn view(&self) -> AstV {
        view_node(*self)
    }
}

impl ASTNode {
    pub fn new(class: ASTClass) -> (n: ASTNode)
        ensures
            n.class == class,
    {
        ASTNode { class: class }
    }
}

/// A boxed node of the given class.
pub fn create_node(class: ASTClass) -> (n: Box<ASTNode>)
    ensures
        n.class == class,
{
    Box::new(ASTNode::new(class))
}

// ---------------------------------------------------------------------------
// Printing, executable.
// ---------------------------------------------------------------------------

pub open spec fn opt_lines(o: Option<Vec<String>>) -> Option<Seq<Seq<char>>> {
    match o {
        Some(v) => Some(string_views(v@)),
        None => None,
    }
}

pub open spec fn vbox(o: Option<Box<ASTNode>>) -> Option<Box<AstV>> {
    match o {
        Some(x) => Some(Box::new(view_node(*x))),
        None => None,
    }
}

fn some_str(s: &str) -> (r: Option<String>)
    ensures
        opt_text(r) == Some(s@),
{
    Some(String::from_str(s))
}

fn cat_text(a: Option<String>, b: Option<String>) -> (r: Option<String>)
    ensures
        opt_text(r) == cat(opt_text(a), opt_text(b)),
{
    match a {
        Some(x) => match b {
            Some(y) => {
                let mut x = x;
                x.append(y.as_str());
                Some(x)
            },
            None => None,
        },
        None => None,
    }
}

fn single(x: String) -> (v: Vec<String>)
    ensures
        string_views(v@) == seq![x@],
{
    let mut v: Vec<String> = Vec::new();
    v.push(x);
    assert(string_views(v@) =~= seq![x@]);
    v
}

/// `ls` with `x` appended.
fn push_line(ls: Vec<String>, x: String) -> (v: Vec<String>)
    ensures
        string_views(v@) == string_views(ls@).push(x@),
{
    let mut v = ls;
    let ghost l0 = v@;
    v.push(x);
    assert(string_views(v@) =~= string_views(l0).push(x@));
    v
}

/// `a` followed by `b`.
fn concat_lines(a: Vec<String>, b: Vec<String>) -> (v: Vec<String>)
    ensures
        string_views(v@) == string_views(a@) + string_views(b@),
{
    let mut v = a;
    let mut w = b;
    let ghost a0 = v@;
    let ghost b0 = w@;
    v.append(&mut w);
    assert(string_views(v@) =~= string_views(a0) + string_views(b0));
    v
}

fn one_text(h: Option<String>) -> (r: Option<Vec<String>>)
    ensures
        opt_lines(r) == one(opt_text(h)),
{
    match h {
        Some(x) => Some(single(x)),
        None => None,
    }
}

fn headed_text(h: Option<String>, rest: Option<Vec<String>>) -> (r: Option<Vec<String>>)
    ensures
        opt_lines(r) == headed(opt_text(h), opt_lines(rest)),
{
    match h {
        Some(x) => match rest {
            Some(ls) => Some(concat_lines(single(x), ls)),
            None => None,
        },
        None => None,
    }
}

/// The strings of `v` one after another, `sep` between two neighbours.
pub fn join_text(v: &Vec<String>, sep: &str) -> (r: String)
    ensures
        r@ == join(string_views(v@), sep@),
{
    let ghost sv = string_views(v@);
    let mut r = String::new();
    let mut i: usize = 0;
    while i < v.len()
        invariant
            i <= v.len(),
            sv == string_views(v@),
            r@ == join(sv.take(i as int), sep@),
        decreases v.len() - i,
    {
        assert(sv.take(i + 1).drop_last() =~= sv.take(i as int));
        assert(sv.take(i + 1).last() == v@[i as int]@);
        if i > 0 {
            r.append(sep);
        } else {
            assert(r@ =~= Seq::<char>::empty());
        }
        let ghost before = r@;
        r.append(v[i].as_str());
        if i == 0 {
            assert(r@ =~= v@[0]@);
        }
        i += 1;
    }
    assert(sv.take(v.len() as int) =~= sv);
    r
}

/// Each line pushed right by four blanks.
fn indent_lines(xs: Vec<String>) -> (r: Vec<String>)
    ensures
        string_views(r@) == indent(string_views(xs@)),
{
    let mut r: Vec<String> = Vec::new();
    let mut i: usize = 0;
    while i < xs.len()
        invariant
            i <= xs.len(),
            r.len() == i,
            forall|k: int| 0 <= k < i ==> #[trigger] r@[k]@ == "    "@ + xs@[k]@,
        decreases xs.len() - i,
    {
        let mut line = String::from_str("    ");
        line.append(xs[i].as_str());
        r.push(line);
        i += 1;
    }
    assert(string_views(r@) =~= indent(string_views(xs@)));
    r
}

/// The strings of a block's items.
fn block_texts(v: &Vec<Box<ASTNode>>) -> (r: Option<Vec<String>>)
    ensures
        opt_lines(r) == block_items(view_nodes(v@)),
    decreases v, 0nat,
{
    let mut acc: Option<Vec<String>> = Some(Vec::new());
    assert(string_views(Seq::<String>::empty()) =~= Seq::<Seq<char>>::empty());
    assert(v@.take(0) =~= Seq::<Box<ASTNode>>::empty());
    let mut i: usize = 0;
    while i < v.len()
        invariant
            i <= v.len(),
            opt_lines(acc) == block_items(view_nodes(v@.take(i as int))),
        decreases v.len() - i,
    {
        assert(v@.take(i + 1).drop_last() =~= v@.take(i as int));
        let ghost pre = view_nodes(v@.take(i as int));
        let c = &v[i];
        assert(view_nodes(v@.take(i + 1)) == pre.push(view_node(**c)));
        assert(view_nodes(v@.take(i + 1)).drop_last() =~= pre);
        if acc.is_some() {
            let item = if c.is_compound_node() {
                match c.try_generate() {
                    Some(ls) => Some(join_text(&ls, "\n")),
                    None => None,
                }
            } else {
                cat_text(c.top(), some_str(";"))
            };
            acc = match acc {
                Some(xs) => match item {
                    Some(x) => Some(push_line(xs, x)),
                    None => None,
                },
                None => None,
            };
        }
        i += 1;
    }
    assert(v@.take(v.len() as int) =~= v@);
    acc
}

/// The lines of an `any`'s arms.
fn any_texts(v: &Vec<(Box<ASTNode>, Box<ASTNode>)>) -> (r: Option<Vec<String>>)
    ensures
        opt_lines(r) == any_lines(view_anys(v@)),
    decreases v, 0nat,
{
    let mut acc: Option<Vec<String>> = Some(Vec::new());
    assert(string_views(Seq::<String>::empty()) =~= Seq::<Seq<char>>::empty());
    assert(v@.take(0) =~= Seq::<(Box<ASTNode>, Box<ASTNode>)>::empty());
    let mut i: usize = 0;
    while i < v.len()
        invariant
            i <= v.len(),
            opt_lines(acc) == any_lines(view_anys(v@.take(i as int))),
        decreases v.len() - i,
    {
        assert(v@.take(i + 1).drop_last() =~= v@.take(i as int));
        let ghost pre = view_anys(v@.take(i as int));
        let arm = &v[i];
        assert(view_anys(v@.take(i + 1)) == pre.push((view_node(*arm.0), view_node(*arm.1))));
        assert(view_anys(v@.take(i + 1)).drop_last() =~= pre);
        if acc.is_some() {
            let head = cat_text(arm.0.top(), some_str(":"));
            let body = arm.1.try_generate();
            acc = match acc {
                Some(xs) => match head {
                    Some(h) => match body {
                        Some(b) => Some(concat_lines(push_line(xs, h), b)),
                        None => None,
                    },
                    None => None,
                },
                None => None,
            };
        }
        i += 1;
    }
    assert(v@.take(v.len() as int) =~= v@);
    acc
}

/// `[w]`, or nothing without a width.
fn width_text(w: &Option<Box<ASTNode>>) -> (r: Option<String>)
    ensures
        opt_text(r) == width_of(vbox(*w)),
    decreases w, 3nat,
{
    match w {
        Some(x) => cat_text(cat_text(some_str("["), x.top()), some_str("]")),
        None => Some(String::new()),
    }
}

/// The strings of names with optional widths.
fn pair_texts(v: &Vec<(Box<ASTNode>, Option<Box<ASTNode>>)>) -> (r: Option<Vec<String>>)
    ensures
        opt_lines(r) == pair_items(view_pairs(v@)),
    decreases v, 0nat,
{
    let mut acc: Option<Vec<String>> = Some(Vec::new());
    assert(string_views(Seq::<String>::empty()) =~= Seq::<Seq<char>>::empty());
    assert(v@.take(0) =~= Seq::<(Box<ASTNode>, Option<Box<ASTNode>>)>::empty());
    let mut i: usize = 0;
    while i < v.len()
        invariant
            i <= v.len(),
            opt_lines(acc) == pair_items(view_pairs(v@.take(i as int))),
        decreases v.len() - i,
    {
        assert(v@.take(i + 1).drop_last() =~= v@.take(i as int));
        let ghost pre = view_pairs(v@.take(i as int));
        let item = &v[i];
        assert(view_pairs(v@.take(i + 1)) == pre.push((view_node(*item.0), vopt_plain(item.1))));
        assert(view_pairs(v@.take(i + 1)).drop_last() =~= pre);
        if acc.is_some() {
            let w = match &item.1 {
                Some(x) => cat_text(cat_text(some_str("["), x.top()), some_str("]")),
                None => Some(String::new()),
            };
            let x = cat_text(item.0.text(), w);
            acc = match acc {
                Some(xs) => match x {
                    Some(t) => Some(push_line(xs, t)),
                    None => None,
                },
                None => None,
            };
        }
        i += 1;
    }
    assert(v@.take(v.len() as int) =~= v@);
    acc
}

/// The strings of register declarations.
fn reg_texts(v: &Vec<(Box<ASTNode>, Option<Box<ASTNode>>, Option<Box<ASTNode>>)>) -> (r: Option<Vec<String>>)
    ensures
        opt_lines(r) == reg_items(view_regs(v@)),
    decreases v, 0nat,
{
    let mut acc: Option<Vec<String>> = Some(Vec::new());
    assert(string_views(Seq::<String>::empty()) =~= Seq::<Seq<char>>::empty());
    assert(v@.take(0) =~= Seq::<(Box<ASTNode>, Option<Box<ASTNode>>, Option<Box<ASTNode>>)>::empty());
    let mut i: usize = 0;
    while i < v.len()
        invariant
            i <= v.len(),
            opt_lines(acc) == reg_items(view_regs(v@.take(i as int))),
        decreases v.len() - i,
    {
        assert(v@.take(i + 1).drop_last() =~= v@.take(i as int));
        let ghost pre = view_regs(v@.take(i as int));
        let item = &v[i];
        assert(view_regs(v@.take(i + 1)) == pre.push(
            (view_node(*item.0), vopt_plain(item.1), vopt_plain(item.2)),
        ));
        assert(view_regs(v@.take(i + 1)).drop_last() =~= pre);
        if acc.is_some() {
            let w = match &item.1 {
                Some(x) => cat_text(cat_text(some_str("["), x.top()), some_str("]")),
                None => Some(String::new()),
            };
            let init = match &item.2 {
                Some(x) => cat_text(some_str(" = "), x.text()),
                None => Some(String::new()),
            };
            let x = cat_text(cat_text(item.0.text(), w), init);
            acc = match acc {
                Some(xs) => match x {
                    Some(t) => Some(push_line(xs, t)),
                    None => None,
                },
                None => None,
            };
        }
        i += 1;
    }
    assert(v@.take(v.len() as int) =~= v@);
    acc
}

/// Inline forms of `v`, separated by `", "`.
fn disp_list_text(v: &Vec<Box<ASTNode>>) -> (r: Option<String>)
    ensures
        opt_text(r) == disp_list(view_nodes(v@)),
{
    let mut acc: Option<Vec<String>> = Some(Vec::new());
    assert(string_views(Seq::<String>::empty()) =~= Seq::<Seq<char>>::empty());
    assert(v@.take(0) =~= Seq::<Box<ASTNode>>::empty());
    let mut i: usize = 0;
    while i < v.len()
        invariant
            i <= v.len(),
            opt_lines(acc) == disp_all(view_nodes(v@.take(i as int))),
        decreases v.len() - i,
    {
        assert(v@.take(i + 1).drop_last() =~= v@.take(i as int));
        let ghost pre = view_nodes(v@.take(i as int));
        let c = &v[i];
        assert(view_nodes(v@.take(i + 1)) == pre.push(view_node(**c)));
        assert(view_nodes(v@.take(i + 1)).drop_last() =~= pre);
        if acc.is_some() {
            let x = c.text();
            acc = match acc {
                Some(xs) => match x {
                    Some(t) => Some(push_line(xs, t)),
                    None => None,
                },
                None => None,
            };
        }
        i += 1;
    }
    assert(v@.take(v.len() as int) =~= v@);
    match acc {
        Some(xs) => Some(join_text(&xs, ", ")),
        None => None,
    }
}

/// `" : r"` after a function port returning `r`.
fn ret_text(r: &Option<Box<ASTNode>>) -> (res: Option<String>)
    ensures
        opt_text(res) == ret_of(vbox(*r)),
{
    match r {
        Some(x) => cat_text(some_str(" : "), x.text()),
        None => Some(String::new()),
    }
}

impl ASTNode {
    /// The inline form of a leaf node: a name, a number, a string in quotes,
    /// an operator, or a unary operation.
    pub fn text(&self) -> (r: Option<String>)
        ensures
            opt_text(r) == disp(self@),
        decreases self,
    {
        match &self.class {
            ASTClass::Identifire(s) => Some(s.clone()),
            ASTClass::Number(s) => Some(s.clone()),
            ASTClass::String(s) => cat_text(cat_text(some_str("\""), Some(s.clone())), some_str("\"")),
            ASTClass::Operator(o) => Some(operator_text(*o)),
            ASTClass::UnaryOperator(u) => Some(unary_operator_text(*u)),
            ASTClass::UnaryOperation(a, b) => cat_text(a.text(), b.text()),
            _ => None,
        }
    }

    fn is_compound_node(&self) -> (b: bool)
        ensures
            b == is_compound(self@),
    {
        match &self.class {
            ASTClass::Any(_) => true,
            ASTClass::Func(_, _, _) => true,
            ASTClass::If(_, _, _) => true,
            ASTClass::State(_, _) => true,
            _ => false,
        }
    }

    /// The first line of the node.
    fn top(&self) -> (r: Option<String>)
        ensures
            opt_text(r) == gtop(self@),
        decreases self, 2nat,
    {
        match self.try_generate() {
            Some(ls) => if ls.len() > 0 {
                let mut ls = ls;
                let ghost l0 = ls@;
                let x = ls.swap_remove(0);
                assert(x == l0[0]);
                Some(x)
            } else {
                None
            },
            None => None,
        }
    }
}

impl ASTNode {
    /// The lines that print the node, or `None` for a node that has no
    /// printed form (see `gen`).
    pub fn try_generate(&self) -> (r: Option<Vec<String>>)
        ensures
            opt_lines(r) == gen(self@),
        decreases self, 1nat,
    {
        match &self.class {
            ASTClass::Declare(_, _) => self.gen_declare(),
            ASTClass::Module(_, _) => self.gen_module(),
            ASTClass::Block(_) => self.gen_block(),
            ASTClass::Any(_) => self.gen_any(),
            ASTClass::Else => self.gen_else(),
            ASTClass::Expression(_, _, _) => self.gen_expression(),
            ASTClass::Identifire(_) => self.gen_identifire(),
            ASTClass::Number(_) => self.gen_number(),
            ASTClass::ModulePort(_, _) => self.gen_module_port(),
            ASTClass::FuncCall(_, _) => self.gen_func_call(),
            ASTClass::Submodule(_, _) => self.gen_submodule(),
            ASTClass::BitSlice(_, _) => self.gen_bit_slice(),
            ASTClass::BitslicedExpr(_, _) => self.gen_bitsliced_expr(),
            ASTClass::FuncIn(_, _, _) => self.gen_func_in(),
            ASTClass::FuncOut(_, _, _) => self.gen_func_out(),
            ASTClass::FuncSelf(_, _, _) => self.gen_func_self(),
            ASTClass::Input(_, _) => self.gen_input(),
            ASTClass::Output(_, _) => self.gen_output(),
            ASTClass::Wire(_) => self.gen_wire(),
            ASTClass::Reg(_) => self.gen_reg(),
            ASTClass::CPPStyleComment(_) => self.gen_cpp_comment(),
            ASTClass::CStyleComment(_) => self.gen_c_comment(),
            ASTClass::StateName(_) => self.gen_state_name(),
            ASTClass::Assign(_, _) => self.gen_assign(),
            ASTClass::RegAssign(_, _) => self.gen_reg_assign(),
            ASTClass::Func(_, _, _) => self.gen_func(),
            ASTClass::Return(_) => self.gen_return(),
            ASTClass::Goto(_) => self.gen_goto(),
            ASTClass::State(_, _) => self.gen_state(),
            ASTClass::If(_, _, _) => self.gen_if(),
            ASTClass::UnaryOperation(_, _) => self.gen_unary_operation(),
            ASTClass::MacroDefine(_, _) => self.gen_macro_define(),
            ASTClass::MacroInclude(_) => self.gen_macro_include(),
            _ => None,
        }
    }

    fn gen_declare(&self) -> (r: Option<Vec<String>>)
        requires
            self.class is Declare,
        ensures
            opt_lines(r) == gen(self@),
        decreases self, 0nat,
    {
        match &self.class {
            ASTClass::Declare(id, b) => headed_text(cat_text(some_str("declare "), id.text()), b.try_generate()),
            _ => None,
        }
    }

    fn gen_module(&self) -> (r: Option<Vec<String>>)
        requires
            self.class is Module,
        ensures
            opt_lines(r) == gen(self@),
        decreases self, 0nat,
    {
        match &self.class {
            ASTClass::Module(id, b) => headed_text(cat_text(some_str("module "), id.text()), b.try_generate()),
            _ => None,
        }
    }

    fn gen_block(&self) -> (r: Option<Vec<String>>)
        requires
            self.class is Block,
        ensures
            opt_lines(r) == gen(self@),
        decreases self, 0nat,
    {
        match &self.class {
            ASTClass::Block(items) => match block_texts(items) {
                    Some(xs) => {
                        let v = concat_lines(single(String::from_str("{")), indent_lines(xs));
                        Some(push_line(v, String::from_str("}")))
                    },
                    None => None,
                },
            _ => None,
        }
    }

    fn gen_any(&self) -> (r: Option<Vec<String>>)
        requires
            self.class is Any,
        ensures
            opt_lines(r) == gen(self@),
        decreases self, 0nat,
    {
        match &self.class {
            ASTClass::Any(arms) => match any_texts(arms) {
                    Some(ls) => {
                        let head = push_line(single(String::from_str("any")), String::from_str("{"));
                        Some(push_line(concat_lines(head, ls), String::from_str("}")))
                    },
                    None => None,
                },
            _ => None,
        }
    }

    fn gen_else(&self) -> (r: Option<Vec<String>>)
        requires
            self.class is Else,
        ensures
            opt_lines(r) == gen(self@),
        decreases self, 0nat,
    {
        match &self.class {
            ASTClass::Else => Some(single(String::from_str("else"))),
            _ => None,
        }
    }

    fn gen_expression(&self) -> (r: Option<Vec<String>>)
        requires
            self.class is Expression,
        ensures
            opt_lines(r) == gen(self@),
        decreases self, 0nat,
    {
        match &self.class {
            ASTClass::Expression(a, op, b) => one_text(
                    cat_text(cat_text(cat_text(a.top(), some_str(" ")), cat_text(op.text(), some_str(" "))), b.top()),
                ),
            _ => None,
        }
    }

    fn gen_identifire(&self) -> (r: Option<Vec<String>>)
        requires
            self.class is Identifire,
        ensures
            opt_lines(r) == gen(self@),
        decreases self, 0nat,
    {
        match &self.class {
            ASTClass::Identifire(s) => Some(single(s.clone())),
            _ => None,
        }
    }

    fn gen_number(&self) -> (r: Option<Vec<String>>)
        requires
            self.class is Number,
        ensures
            opt_lines(r) == gen(self@),
        decreases self, 0nat,
    {
        match &self.class {
            ASTClass::Number(s) => Some(single(s.clone())),
            _ => None,
        }
    }

    fn gen_module_port(&self) -> (r: Option<Vec<String>>)
        requires
            self.class is ModulePort,
        ensures
            opt_lines(r) == gen(self@),
        decreases self, 0nat,
    {
        match &self.class {
            ASTClass::ModulePort(a, b) => one_text(cat_text(cat_text(a.text(), some_str(".")), b.text())),
            _ => None,
        }
    }

    fn gen_func_call(&self) -> (r: Option<Vec<String>>)
        requires
            self.class is FuncCall,
        ensures
            opt_lines(r) == gen(self@),
        decreases self, 0nat,
    {
        match &self.class {
            ASTClass::FuncCall(f, args) => one_text(
                    cat_text(cat_text(f.text(), some_str("(")), cat_text(disp_list_text(args), some_str(")"))),
                ),
            _ => None,
        }
    }

    fn gen_submodule(&self) -> (r: Option<Vec<String>>)
        requires
            self.class is Submodule,
        ensures
            opt_lines(r) == gen(self@),
        decreases self, 0nat,
    {
        match &self.class {
            ASTClass::Submodule(m, items) => match pair_texts(items) {
                    Some(xs) => one_text(cat_text(cat_text(m.text(), some_str(" ")), Some(join_text(&xs, ", ")))),
                    None => None,
                },
            _ => None,
        }
    }

    fn gen_bit_slice(&self) -> (r: Option<Vec<String>>)
        requires
            self.class is BitSlice,
        ensures
            opt_lines(r) == gen(self@),
        decreases self, 0nat,
    {
        match &self.class {
            ASTClass::BitSlice(m, l) => {
                    let low = match l {
                        Some(x) => cat_text(some_str(":"), x.top()),
                        None => Some(String::new()),
                    };
                    one_text(cat_text(m.top(), low))
                },
            _ => None,
        }
    }

    fn gen_bitsliced_expr(&self) -> (r: Option<Vec<String>>)
        requires
            self.class is BitslicedExpr,
        ensures
            opt_lines(r) == gen(self@),
        decreases self, 0nat,
    {
        match &self.class {
            ASTClass::BitslicedExpr(e, b) => one_text(
                    cat_text(cat_text(e.top(), some_str("[")), cat_text(b.top(), some_str("]"))),
                ),
            _ => None,
        }
    }

    fn gen_func_in(&self) -> (r: Option<Vec<String>>)
        requires
            self.class is FuncIn,
        ensures
            opt_lines(r) == gen(self@),
        decreases self, 0nat,
    {
        match &self.class {
            ASTClass::FuncIn(id, args, r) => one_text(
                    cat_text(
                        cat_text(cat_text(some_str("func_in "), id.text()), cat_text(some_str("("), disp_list_text(args))),
                        cat_text(some_str(")"), ret_text(r)),
                    ),
                ),
            _ => None,
        }
    }

    fn gen_func_out(&self) -> (r: Option<Vec<String>>)
        requires
            self.class is FuncOut,
        ensures
            opt_lines(r) == gen(self@),
        decreases self, 0nat,
    {
        match &self.class {
            ASTClass::FuncOut(id, args, r) => one_text(
                    cat_text(
                        cat_text(cat_text(some_str("func_out "), id.text()), cat_text(some_str("("), disp_list_text(args))),
                        cat_text(some_str(")"), ret_text(r)),
                    ),
                ),
            _ => None,
        }
    }

    fn gen_func_self(&self) -> (r: Option<Vec<String>>)
        requires
            self.class is FuncSelf,
        ensures
            opt_lines(r) == gen(self@),
        decreases self, 0nat,
    {
        match &self.class {
            ASTClass::FuncSelf(id, args, r) => {
                    proof {
                        lemma_view_nodes_len(args@);
                    }
                    let params = if args.len() == 0 {
                        Some(String::new())
                    } else {
                        cat_text(cat_text(some_str("("), disp_list_text(args)), some_str(")"))
                    };
                    one_text(cat_text(cat_text(some_str("func_self "), id.text()), cat_text(params, ret_text(r))))
                },
            _ => None,
        }
    }

    fn gen_input(&self) -> (r: Option<Vec<String>>)
        requires
            self.class is Input,
        ensures
            opt_lines(r) == gen(self@),
        decreases self, 0nat,
    {
        match &self.class {
            ASTClass::Input(id, w) => one_text(cat_text(cat_text(some_str("input "), id.text()), width_text(w))),
            _ => None,
        }
    }

    fn gen_output(&self) -> (r: Option<Vec<String>>)
        requires
            self.class is Output,
        ensures
            opt_lines(r) == gen(self@),
        decreases self, 0nat,
    {
        match &self.class {
            ASTClass::Output(id, w) => one_text(cat_text(cat_text(some_str("output "), id.text()), width_text(w))),
            _ => None,
        }
    }

    fn gen_wire(&self) -> (r: Option<Vec<String>>)
        requires
            self.class is Wire,
        ensures
            opt_lines(r) == gen(self@),
        decreases self, 0nat,
    {
        match &self.class {
            ASTClass::Wire(items) => match pair_texts(items) {
                    Some(xs) => {
                        let mut line = String::from_str("wire ");
                        let body = join_text(&xs, ", ");
                        line.append(body.as_str());
                        Some(single(line))
                    },
                    None => None,
                },
            _ => None,
        }
    }

    fn gen_reg(&self) -> (r: Option<Vec<String>>)
        requires
            self.class is Reg,
        ensures
            opt_lines(r) == gen(self@),
        decreases self, 0nat,
    {
        match &self.class {
            ASTClass::Reg(items) => match reg_texts(items) {
                    Some(xs) => {
                        let mut line = String::from_str("reg ");
                        let body = join_text(&xs, ", ");
                        line.append(body.as_str());
                        Some(single(line))
                    },
                    None => None,
                },
            _ => None,
        }
    }

    fn gen_cpp_comment(&self) -> (r: Option<Vec<String>>)
        requires
            self.class is CPPStyleComment,
        ensures
            opt_lines(r) == gen(self@),
        decreases self, 0nat,
    {
        match &self.class {
            ASTClass::CPPStyleComment(s) => {
                    let mut line = String::from_str("//");
                    line.append(s.as_str());
                    Some(single(line))
                },
            _ => None,
        }
    }

    fn gen_c_comment(&self) -> (r: Option<Vec<String>>)
        requires
            self.class is CStyleComment,
        ensures
            opt_lines(r) == gen(self@),
        decreases self, 0nat,
    {
        match &self.class {
            ASTClass::CStyleComment(ls) => {
                    let mut line = String::from_str("/*");
                    let body = join_text(ls, "\n");
                    line.append(body.as_str());
                    line.append("*/");
                    Some(single(line))
                },
            _ => None,
        }
    }

    fn gen_state_name(&self) -> (r: Option<Vec<String>>)
        requires
            self.class is StateName,
        ensures
            opt_lines(r) == gen(self@),
        decreases self, 0nat,
    {
        match &self.class {
            ASTClass::StateName(ids) => one_text(cat_text(some_str("state_name "), disp_list_text(ids))),
            _ => None,
        }
    }

    fn gen_assign(&self) -> (r: Option<Vec<String>>)
        requires
            self.class is Assign,
        ensures
            opt_lines(r) == gen(self@),
        decreases self, 0nat,
    {
        match &self.class {
            ASTClass::Assign(a, e) => one_text(cat_text(cat_text(a.top(), some_str(" = ")), e.top())),
            _ => None,
        }
    }

    fn gen_reg_assign(&self) -> (r: Option<Vec<String>>)
        requires
            self.class is RegAssign,
        ensures
            opt_lines(r) == gen(self@),
        decreases self, 0nat,
    {
        match &self.class {
            ASTClass::RegAssign(a, e) => one_text(cat_text(cat_text(a.text(), some_str(" := ")), e.text())),
            _ => None,
        }
    }

    fn gen_func(&self) -> (r: Option<Vec<String>>)
        requires
            self.class is Func,
        ensures
            opt_lines(r) == gen(self@),
        decreases self, 0nat,
    {
        match &self.class {
            ASTClass::Func(id, f, b) => {
                    let head = match f {
                        Some(x) => cat_text(cat_text(cat_text(some_str("func "), id.text()), some_str(".")), x.text()),
                        None => cat_text(some_str("func "), id.text()),
                    };
                    headed_text(head, b.try_generate())
                },
            _ => None,
        }
    }

    fn gen_return(&self) -> (r: Option<Vec<String>>)
        requires
            self.class is Return,
        ensures
            opt_lines(r) == gen(self@),
        decreases self, 0nat,
    {
        match &self.class {
            ASTClass::Return(v) => one_text(cat_text(some_str("return "), v.top())),
            _ => None,
        }
    }

    fn gen_goto(&self) -> (r: Option<Vec<String>>)
        requires
            self.class is Goto,
        ensures
            opt_lines(r) == gen(self@),
        decreases self, 0nat,
    {
        match &self.class {
            ASTClass::Goto(id) => one_text(cat_text(some_str("goto "), id.text())),
            _ => None,
        }
    }

    fn gen_state(&self) -> (r: Option<Vec<String>>)
        requires
            self.class is State,
        ensures
            opt_lines(r) == gen(self@),
        decreases self, 0nat,
    {
        match &self.class {
            ASTClass::State(id, b) => headed_text(cat_text(some_str("state "), id.text()), b.try_generate()),
            _ => None,
        }
    }

    fn gen_if(&self) -> (r: Option<Vec<String>>)
        requires
            self.class is If,
        ensures
            opt_lines(r) == gen(self@),
        decreases self, 0nat,
    {
        match &self.class {
            ASTClass::If(c, t, e) => {
                    let cs = c.top();
                    let tl = t.try_generate();
                    match cs {
                        Some(x) => match tl {
                            Some(body) => {
                                let mut head = String::from_str("if (");
                                head.append(x.as_str());
                                head.append(")");
                                let lines = concat_lines(single(head), body);
                                match e {
                                    None => Some(lines),
                                    Some(el) => match el.try_generate() {
                                        Some(els) => Some(
                                            concat_lines(push_line(lines, String::from_str("else")), els),
                                        ),
                                        None => None,
                                    },
                                }
                            },
                            None => None,
                        },
                        None => None,
                    }
                },
            _ => None,
        }
    }

    fn gen_unary_operation(&self) -> (r: Option<Vec<String>>)
        requires
            self.class is UnaryOperation,
        ensures
            opt_lines(r) == gen(self@),
        decreases self, 0nat,
    {
        match &self.class {
            ASTClass::UnaryOperation(a, b) => one_text(cat_text(a.text(), b.text())),
            _ => None,
        }
    }

    fn gen_macro_define(&self) -> (r: Option<Vec<String>>)
        requires
            self.class is MacroDefine,
        ensures
            opt_lines(r) == gen(self@),
        decreases self, 0nat,
    {
        match &self.class {
            ASTClass::MacroDefine(id, v) => {
                    let value = match v {
                        Some(x) => {
                            let mut t = String::from_str(" ");
                            t.append(x.as_str());
                            Some(t)
                        },
                        None => Some(String::new()),
                    };
                    one_text(cat_text(cat_text(some_str("#define "), id.text()), value))
                },
            _ => None,
        }
    }

    fn gen_macro_include(&self) -> (r: Option<Vec<String>>)
        requires
            self.class is MacroInclude,
        ensures
            opt_lines(r) == gen(self@),
        decreases self, 0nat,
    {
        match &self.class {
            ASTClass::MacroInclude(p) => one_text(cat_text(some_str("#include "), p.text())),
            _ => None,
        }
    }

    /// The lines that print the node, on a node that has a printed form.
    pub fn generate(&self) -> (r: Vec<String>)
        requires
            gen(self@) is Some,
        ensures
            gen(self@) == Some(string_views(r@)),
    {
        match self.try_generate() {
            Some(v) => v,
            None => {
                proof {
                    assert(false);
                }
                Vec::new()
            },
        }
    }
}

} // verus!
