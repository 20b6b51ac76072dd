//! Tokens produced by the lexer, their mathematical views, and the textual
//! form a token takes when a `#define` body is re-emitted.
use vstd::prelude::*;

verus! {

#[derive(Debug, Clone, Copy, PartialEq, Eq, Structural)]
pub enum Symbol {
    Module,
    Declare,
    Struct,
    OpeningBrace,
    ClosingBrace,
    LeftParen,
    RightParen,
    LeftSquareBracket,
    RightSquareBracket,
    Semicolon,
    Colon,
    Comma,
    Dot,
    Equal,
    RegAssign,
    Input,
    Output,
    InOut,
    FuncIn,
    FuncOut,
    FuncSelf,
    Func,
    Sharp,
    SingleQuote,
    Wire,
    Reg,
    ProcName,
    StateName,
    Mem,
    Return,
    Any,
    Alt,
    Else,
    State,
    Proc,
    If,
    For,
    While,
    Sequence,
    Variable,
    Integer,
    Generate,
    Invoke,
    Finish,
    Goto,
}

#[derive(Debug, Clone, Copy, PartialEq, Eq, Structural)]
pub enum Operator {
    Plus,
    Minus,
    Asterisk,
    Slash,
    And,
    Pipe,
    LogicAnd,
    Equal,
    GreaterEq,
    LessEq,
    GreaterThan,
    LessThan,
}

#[derive(Debug, Clone, Copy, PartialEq, Eq, Structural)]
pub enum UnaryOperator {
    Increment,
    Decrement,
    Not,
}

#[derive(Debug, Clone, Copy, PartialEq, Eq, Structural)]
pub enum Macro {
    Include,
    Define,
    Undef,
    Ifdef,
    Ifndef,
    Endif,
}

/// The class of a token. Numbers keep their source spelling, since a
/// formatter re-emits them unchanged.
#[derive(Debug, Clone, PartialEq)]
pub enum TokenClass {
    Identifire(String),
    Number(String),
    String(String),
    Symbol(Symbol),
    Operator(Operator),
    UnaryOperator(UnaryOperator),
    Macro(Macro),
    /// A `//` comment: the text after the two slashes, up to the end of the line.
    CPPStyleComment(String),
    /// A `/* */` comment: its text, one entry per source line.
    CStyleComment(Vec<String>),
    Newline,
    EndOfProgram,
}

/// A token with the line it starts on and its position (from 1) in the
/// sequence of tokens the lexer has handed out.
#[derive(PartialEq, Clone, Debug)]
pub struct Token {
    pub class: TokenClass,
    pub line: usize,
    pub id: usize,
}

/// Mathematical view of a token class: strings become character sequences.
pub enum ClassV {
    Identifire(Seq<char>),
    Number(Seq<char>),
    Str(Seq<char>),
    Symbol(Symbol),
    Operator(Operator),
    UnaryOperator(UnaryOperator),
    Macro(Macro),
    CPPStyleComment(Seq<char>),
    CStyleComment(Seq<Seq<char>>),
    Newline,
    EndOfProgram,
}

pub struct TokenV {
    pub class: ClassV,
    pub line: int,
    pub id: int,
}

pub open spec fn string_views(v: Seq<String>) -> Seq<Seq<char>> {
    Seq::new(v.len(), |i: int| v[i]@)
}

/// How a token is printed back in a `#define` body; `None` for tokens that
/// have no printed form.
pub open spec fn token_text(c: ClassV) -> Option<Seq<char>> {
    match c {
        ClassV::Identifire(w) => Some(w),
        ClassV::Number(w) => Some(w),
        ClassV::Str(w) => Some(seq!['"'] + w + seq!['"']),
        ClassV::Symbol(Symbol::Input) => Some(seq!['i', 'n', 'p', 'u', 't', ' ']),
        ClassV::Symbol(Symbol::Output) => Some(seq!['o', 'u', 't', 'p', 'u', 't', ' ']),
        ClassV::Symbol(Symbol::FuncOut) => Some(seq!['f', 'u', 'n', 'c', '_', 'o', 'u', 't', ' ']),
        ClassV::Symbol(Symbol::LeftSquareBracket) => Some(seq!['[', ' ']),
        ClassV::Symbol(Symbol::RightSquareBracket) => Some(seq![' ', ']']),
        ClassV::Symbol(Symbol::LeftParen) => Some(seq!['(', ' ']),
        ClassV::Symbol(Symbol::RightParen) => Some(seq![' ', ')']),
        ClassV::Symbol(Symbol::Semicolon) => Some(seq![';', ' ']),
        ClassV::Operator(o) => Some(seq![' '] + op_text(o) + seq![' ']),
        _ => None,
    }
}

/// The characters of an optional string.
pub open spec fn opt_text(o: Option<String>) -> Option<Seq<char>> {
    match o {
        Some(s) => Some(s@),
        None => None,
    }
}

impl View for TokenClass {
    type V = ClassV;

    open spec fn view(&self) -> ClassV {
        match self {
            TokenClass::Identifire(s) => ClassV::Identifire(s@),
            TokenClass::Number(s) => ClassV::Number(s@),
            TokenClass::String(s) => ClassV::Str(s@),
            TokenClass::Symbol(s) => ClassV::Symbol(*s),
            TokenClass::Operator(o) => ClassV::Operator(*o),
            TokenClass::UnaryOperator(u) => ClassV::UnaryOperator(*u),
            TokenClass::Macro(m) => ClassV::Macro(*m),
            TokenClass::CPPStyleComment(s) => ClassV::CPPStyleComment(s@),
            TokenClass::CStyleComment(v) => ClassV::CStyleComment(string_views(v@)),
            TokenClass::Newline => ClassV::Newline,
            TokenClass::EndOfProgram => ClassV::EndOfProgram,
        }
    }
}

impl View for Token {
    type V = TokenV;

    open spec fn view(&self) -> TokenV {
        TokenV { class: self.class@, line: self.line as int, id: self.id as int }
    }
}

impl Token {
    /// The printed form of the token (as in a `#define` body), or `None`
    /// for a token that has no printed form.
    pub fn text(&self) -> (r: Option<String>)
        ensures
            opt_text(r) == token_text(self.class@),
    {
        proof {
            reveal_strlit("\"");
            reveal_strlit("input ");
            reveal_strlit("output ");
            reveal_strlit("func_out ");
            reveal_strlit("[ ");
            reveal_strlit(" ]");
            reveal_strlit("( ");
            reveal_strlit(" )");
            reveal_strlit("; ");
            reveal_strlit(" ");
        }
        match &self.class {
            TokenClass::Identifire(w) => Some(w.clone()),
            TokenClass::Number(w) => Some(w.clone()),
            TokenClass::String(w) => {
                let mut s = String::from_str("\"");
                s.append(w.as_str());
                s.append("\"");
                Some(s)
            },
            TokenClass::Symbol(Symbol::Input) => Some(String::from_str("input ")),
            TokenClass::Symbol(Symbol::Output) => Some(String::from_str("output ")),
            TokenClass::Symbol(Symbol::FuncOut) => Some(String::from_str("func_out ")),
            TokenClass::Symbol(Symbol::LeftSquareBracket) => Some(String::from_str("[ ")),
            TokenClass::Symbol(Symbol::RightSquareBracket) => Some(String::from_str(" ]")),
            TokenClass::Symbol(Symbol::LeftParen) => Some(String::from_str("( ")),
            TokenClass::Symbol(Symbol::RightParen) => Some(String::from_str(" )")),
            TokenClass::Symbol(Symbol::Semicolon) => Some(String::from_str("; ")),
            TokenClass::Operator(o) => {
                let mut s = String::from_str(" ");
                let x = operator_text(*o);
                s.append(x.as_str());
                s.append(" ");
                Some(s)
            },
            _ => None,
        }
    }

    pub fn new(class: TokenClass, line: usize, id: usize) -> (t: Token)
        ensures
            t.class == class,
            t.line == line,
            t.id == id,
    {
        Token { class: class, line: line, id: id }
    }
}

impl From<(TokenClass, usize, usize)> for Token {
    fn from(s: (TokenClass, usize, usize)) -> (t: Token) {
        Token::new(s.0, s.1, s.2)
    }
}

impl vstd::std_specs::convert::FromSpecImpl<(TokenClass, usize, usize)> for Token {
    open spec fn obeys_from_spec() -> bool {
        true
    }

    open spec fn from_spec(s: (TokenClass, usize, usize)) -> Token {
        Token { class: s.0, line: s.1, id: s.2 }
    }
}

impl From<(Symbol, usize, usize)> for Token {
    fn from(s: (Symbol, usize, usize)) -> (t: Token) {
        Token::new(TokenClass::Symbol(s.0), s.1, s.2)
    }
}

impl vstd::std_specs::convert::FromSpecImpl<(Symbol, usize, usize)> for Token {
    open spec fn obeys_from_spec() -> bool {
        true
    }

    open spec fn from_spec(s: (Symbol, usize, usize)) -> Token {
        Token { class: TokenClass::Symbol(s.0), line: s.1, id: s.2 }
    }
}

impl From<(Operator, usize, usize)> for Token {
    fn from(s: (Operator, usize, usize)) -> (t: Token) {
        Token::new(TokenClass::Operator(s.0), s.1, s.2)
    }
}

impl vstd::std_specs::convert::FromSpecImpl<(Operator, usize, usize)> for Token {
    open spec fn obeys_from_spec() -> bool {
        true
    }

    open spec fn from_spec(s: (Operator, usize, usize)) -> Token {
        Token { class: TokenClass::Operator(s.0), line: s.1, id: s.2 }
    }
}

impl From<(UnaryOperator, usize, usize)> for Token {
    fn from(s: (UnaryOperator, usize, usize)) -> (t: Token) {
        Token::new(TokenClass::UnaryOperator(s.0), s.1, s.2)
    }
}

impl vstd::std_specs::convert::FromSpecImpl<(UnaryOperator, usize, usize)> for Token {
    open spec fn obeys_from_spec() -> bool {
        true
    }

    open spec fn from_spec(s: (UnaryOperator, usize, usize)) -> Token {
        Token { class: TokenClass::UnaryOperator(s.0), line: s.1, id: s.2 }
    }
}

impl From<(Macro, usize, usize)> for Token {
    fn from(s: (Macro, usize, usize)) -> (t: Token) {
        Token::new(TokenClass::Macro(s.0), s.1, s.2)
    }
}

impl vstd::std_specs::convert::FromSpecImpl<(Macro, usize, usize)> for Token {
    open spec fn obeys_from_spec() -> bool {
        true
    }

    open spec fn from_spec(s: (Macro, usize, usize)) -> Token {
        Token { class: TokenClass::Macro(s.0), line: s.1, id: s.2 }
    }
}

/// The printed form of an operator.
pub open spec fn op_text(o: Operator) -> Seq<char> {
    match o {
        Operator::Plus => seq!['+'],
        Operator::Minus => seq!['-'],
        Operator::Asterisk => seq!['*'],
        Operator::Slash => seq!['/'],
        Operator::And => seq!['&'],
        Operator::Pipe => seq!['|'],
        Operator::LogicAnd => seq!['&', '&'],
        Operator::Equal => seq!['=', '='],
        Operator::GreaterEq => seq!['>', '='],
        Operator::LessEq => seq!['<', '='],
        Operator::GreaterThan => seq!['>'],
        Operator::LessThan => seq!['<'],
    }
}

/// The printed form of a unary operator.
pub open spec fn uop_text(u: UnaryOperator) -> Seq<char> {
    match u {
        UnaryOperator::Not => seq!['!'],
        UnaryOperator::Increment => seq!['+', '+'],
        UnaryOperator::Decrement => seq!['-', '-'],
    }
}

/// The printed form of an operator.
pub fn operator_text(o: Operator) -> (r: String)
    ensures
        r@ == op_text(o),
{
    let s = match o {
        Operator::Plus => "+",
        Operator::Minus => "-",
        Operator::Asterisk => "*",
        Operator::Slash => "/",
        Operator::And => "&",
        Operator::Pipe => "|",
        Operator::LogicAnd => "&&",
        Operator::Equal => "==",
        Operator::GreaterEq => ">=",
        Operator::LessEq => "<=",
        Operator::GreaterThan => ">",
        Operator::LessThan => "<",
    };
    proof {
        reveal_strlit("+");
        reveal_strlit("-");
        reveal_strlit("*");
        reveal_strlit("/");
        reveal_strlit("&");
        reveal_strlit("&&");
        reveal_strlit("|");
        reveal_strlit("==");
        reveal_strlit(">=");
        reveal_strlit("<=");
        reveal_strlit(">");
        reveal_strlit("<");
    }
    String::from_str(s)
}

/// The printed form of a unary operator.
pub fn unary_operator_text(u: UnaryOperator) -> (r: String)
    ensures
        r@ == uop_text(u),
{
    let s = match u {
        UnaryOperator::Not => "!",
        UnaryOperator::Increment => "++",
        UnaryOperator::Decrement => "--",
    };
    proof {
        reveal_strlit("!");
        reveal_strlit("++");
        reveal_strlit("--");
    }
    String::from_str(s)
}

} // verus!
