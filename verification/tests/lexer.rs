use nslfmt::lexer::Lexer;
use nslfmt::token::{Macro, Operator, Symbol, Token, TokenClass, UnaryOperator};

#[test]
fn lexer_create_instance_with_string() {
    let _l = Lexer::new("declare hello {input ok; func_in(ok);}");
}

#[test]
fn lexer_get_token_eop() {
    let mut l = Lexer::new("");
    assert_eq!(l.next_token(true), Token::from((TokenClass::EndOfProgram, 1, 1)));
}

#[test]
fn lexer_get_token_new_line() {
    let mut l = Lexer::new("\n");
    assert_eq!(l.next_token(true), Token::from((TokenClass::EndOfProgram, 2, 1)));
}

#[test]
fn peek_00() {
    let mut l = Lexer::new("\nhello\n");
    assert_eq!(
        l.peek(true),
        Token::from((TokenClass::Identifire("hello".to_string()), 2, 1))
    );
}

#[test]
fn pass_00() {
    let mut l = Lexer::new("\nhello\n");
    assert_eq!(
        l.next_token(true),
        Token::from((TokenClass::Identifire("hello".to_string()), 2, 1))
    );
}

#[test]
fn lexer_pass_newlines() {
    let mut l = Lexer::new("\n");
    assert_eq!(l.next_token(true), Token::from((TokenClass::EndOfProgram, 2, 1)));
}

#[test]
fn lexer_get_token_str() {
    let mut l = Lexer::new("declare");
    assert_eq!(
        l.next_token(true),
        Token::new(TokenClass::Symbol(Symbol::Declare), 1, 1)
    );
}

#[test]
fn lexer_braces_and_newline() {
    let mut l = Lexer::new("declare {  \n }");
    assert_eq!(
        l.next_token(true),
        Token::new(TokenClass::Symbol(Symbol::Declare), 1, 1)
    );
    assert_eq!(
        l.next_token(true),
        Token::new(TokenClass::Symbol(Symbol::OpeningBrace), 1, 2)
    );
    assert_eq!(
        l.next_token(true),
        Token::new(TokenClass::Symbol(Symbol::ClosingBrace), 2, 3)
    );
}

#[test]
fn lexer_number() {
    let mut l = Lexer::new("declare ok {input a[12];}");
    assert_eq!(
        l.next_token(true),
        Token::new(TokenClass::Symbol(Symbol::Declare), 1, 1)
    );
    assert_eq!(
        l.next_token(true),
        Token::new(TokenClass::Identifire("ok".to_string()), 1, 2)
    );
    assert_eq!(
        l.next_token(true),
        Token::new(TokenClass::Symbol(Symbol::OpeningBrace), 1, 3)
    );
    assert_eq!(
        l.next_token(true),
        Token::new(TokenClass::Symbol(Symbol::Input), 1, 4)
    );
    assert_eq!(
        l.next_token(true),
        Token::new(TokenClass::Identifire("a".to_string()), 1, 5)
    );
    assert_eq!(
        l.next_token(true),
        Token::new(TokenClass::Symbol(Symbol::LeftSquareBracket), 1, 6)
    );
    assert_eq!(
        l.next_token(true),
        Token::new(TokenClass::Number("12".to_string()), 1, 7)
    );
    assert_eq!(
        l.next_token(true),
        Token::new(TokenClass::Symbol(Symbol::RightSquareBracket), 1, 8)
    );
    assert_eq!(
        l.next_token(true),
        Token::new(TokenClass::Symbol(Symbol::Semicolon), 1, 9)
    );
    assert_eq!(
        l.next_token(true),
        Token::new(TokenClass::Symbol(Symbol::ClosingBrace), 1, 10)
    );
}

#[test]
fn lexer_macro_include() {
    let mut l = Lexer::new("#include \"hello.h\"\ndeclare ok {}");
    assert_eq!(
        l.next_token(true),
        Token::new(TokenClass::Symbol(Symbol::Sharp), 1, 1)
    );
    assert_eq!(
        l.next_token(true),
        Token::new(TokenClass::Macro(Macro::Include), 1, 2)
    );
    assert_eq!(
        l.next_token(true),
        Token::new(TokenClass::String("hello.h".to_string()), 1, 3)
    );
    assert_eq!(
        l.next_token(true),
        Token::new(TokenClass::Symbol(Symbol::Declare), 2, 4)
    );
    assert_eq!(
        l.next_token(true),
        Token::new(TokenClass::Identifire("ok".to_string()), 2, 5)
    );
}

#[test]
fn lexer_macro_undef() {
    let mut l = Lexer::new("#undef aaaa");
    assert_eq!(
        l.next_token(true),
        Token::new(TokenClass::Symbol(Symbol::Sharp), 1, 1)
    );
    assert_eq!(
        l.next_token(true),
        Token::new(TokenClass::Macro(Macro::Undef), 1, 2)
    );
    assert_eq!(
        l.next_token(true),
        Token::new(TokenClass::Identifire("aaaa".to_string()), 1, 3)
    );
}

#[test]
fn lexer_macro_ifdef() {
    let mut l = Lexer::new("#ifdef aaaa");
    assert_eq!(
        l.next_token(true),
        Token::new(TokenClass::Symbol(Symbol::Sharp), 1, 1)
    );
    assert_eq!(
        l.next_token(true),
        Token::new(TokenClass::Macro(Macro::Ifdef), 1, 2)
    );
    assert_eq!(
        l.next_token(true),
        Token::new(TokenClass::Identifire("aaaa".to_string()), 1, 3)
    );
}

#[test]
fn lexer_macro_ifndef() {
    let mut l = Lexer::new("#ifndef aaaa");
    assert_eq!(
        l.next_token(true),
        Token::new(TokenClass::Symbol(Symbol::Sharp), 1, 1)
    );
    assert_eq!(
        l.next_token(true),
        Token::new(TokenClass::Macro(Macro::Ifndef), 1, 2)
    );
    assert_eq!(
        l.next_token(true),
        Token::new(TokenClass::Identifire("aaaa".to_string()), 1, 3)
    );
}

#[test]
fn lexer_macro_else() {
    let mut l = Lexer::new("#else");
    assert_eq!(l.next_token(true), Token::from((Symbol::Sharp, 1, 1)),);
    assert_eq!(l.next_token(true), Token::from((Symbol::Else, 1, 2)),);
}

#[test]
fn lexer_macro_endif() {
    let mut l = Lexer::new("#endif");
    assert_eq!(
        l.next_token(true),
        Token::new(TokenClass::Symbol(Symbol::Sharp), 1, 1)
    );
    assert_eq!(
        l.next_token(true),
        Token::new(TokenClass::Macro(Macro::Endif), 1, 2)
    );
    assert_eq!(l.next_token(true), Token::new(TokenClass::EndOfProgram, 1, 3));
}

#[test]
fn lexer_macro_define() {
    let mut l = Lexer::new("#define HELLO (12)");
    assert_eq!(
        l.next_token(true),
        Token::new(TokenClass::Symbol(Symbol::Sharp), 1, 1)
    );
    assert_eq!(
        l.next_token(true),
        Token::new(TokenClass::Macro(Macro::Define), 1, 2)
    );
    assert_eq!(
        l.next_token(true),
        Token::new(TokenClass::Identifire("HELLO".to_string()), 1, 3)
    );
    assert_eq!(
        l.next_token(true),
        Token::new(TokenClass::Symbol(Symbol::LeftParen), 1, 4)
    );
    assert_eq!(
        l.next_token(true),
        Token::new(TokenClass::Number("12".to_string()), 1, 5)
    );
    assert_eq!(
        l.next_token(true),
        Token::new(TokenClass::Symbol(Symbol::RightParen), 1, 6)
    );

    assert_eq!(l.next_token(true), Token::new(TokenClass::EndOfProgram, 1, 7));
}

#[test]
fn lexer_newline_in_declare_block() {
    let mut l = Lexer::new("declare ok{\n}");

    assert_eq!(
        l.next_token(true),
        Token::new(TokenClass::Symbol(Symbol::Declare), 1, 1)
    );
    assert_eq!(
        l.next_token(true),
        Token::new(TokenClass::Identifire("ok".to_string()), 1, 2)
    );
    assert_eq!(
        l.next_token(true),
        Token::new(TokenClass::Symbol(Symbol::OpeningBrace), 1, 3)
    );
    assert_eq!(
        l.next_token(true),
        Token::new(TokenClass::Symbol(Symbol::ClosingBrace), 2, 4)
    );

    assert_eq!(l.next_token(true), Token::new(TokenClass::EndOfProgram, 2, 5));
}

#[test]
fn next_nl() {
    let mut l = Lexer::new("#define HELLO ok\n declare HELLO{\n}");

    assert_eq!(
        l.next_token(true),
        Token::new(TokenClass::Symbol(Symbol::Sharp), 1, 1)
    );
    assert_eq!(
        l.next_token(true),
        Token::new(TokenClass::Macro(Macro::Define), 1, 2)
    );
    assert_eq!(
        l.next_token(true),
        Token::new(TokenClass::Identifire("HELLO".to_string()), 1, 3)
    );
    assert_eq!(
        l.next_token(true),
        Token::new(TokenClass::Identifire("ok".to_string()), 1, 4)
    );
    assert_eq!(
        l.next_token(true),
        Token::new(TokenClass::Symbol(Symbol::Declare), 2, 5)
    );
    assert_eq!(
        l.next_token(true),
        Token::new(TokenClass::Identifire("HELLO".to_string()), 2, 6)
    );
    assert_eq!(
        l.next_token(true),
        Token::new(TokenClass::Symbol(Symbol::OpeningBrace), 2, 7)
    );
    assert_eq!(
        l.next_token(true),
        Token::new(TokenClass::Symbol(Symbol::ClosingBrace), 3, 8)
    );
}

#[test]
fn lexer_comment_00() {
    let mut l = Lexer::new("declare hello {
            // this is inputs.
            input ok[12];
        }");

    assert_eq!(
        l.next_token(true),
        Token::new(TokenClass::Symbol(Symbol::Declare), 1, 1)
    );
    assert_eq!(
        l.next_token(true),
        Token::new(TokenClass::Identifire("hello".to_string()), 1, 2)
    );
    assert_eq!(
        l.next_token(true),
        Token::new(TokenClass::Symbol(Symbol::OpeningBrace), 1, 3)
    );
    assert_eq!(
        l.next_token(true),
        Token::new(
            TokenClass::CPPStyleComment(" this is inputs.".to_string()),
            2,
            4
        )
    );
    assert_eq!(
        l.next_token(true),
        Token::new(TokenClass::Symbol(Symbol::Input), 3, 5)
    );
    assert_eq!(
        l.next_token(true),
        Token::new(TokenClass::Identifire("ok".to_string()), 3, 6)
    );
    assert_eq!(
        l.next_token(true),
        Token::new(TokenClass::Symbol(Symbol::LeftSquareBracket), 3, 7)
    );
    assert_eq!(
        l.next_token(true),
        Token::new(TokenClass::Number("12".to_string()), 3, 8)
    );
    assert_eq!(
        l.next_token(true),
        Token::new(TokenClass::Symbol(Symbol::RightSquareBracket), 3, 9)
    );
    assert_eq!(
        l.next_token(true),
        Token::new(TokenClass::Symbol(Symbol::Semicolon), 3, 10)
    );
    assert_eq!(
        l.next_token(true),
        Token::new(TokenClass::Symbol(Symbol::ClosingBrace), 4, 11)
    );
}

#[test]
fn lexer_number_00() {
    let mut l = Lexer::new("#define SYSTEM_FUNCT_CONTROL    (2'b00)");

    assert_eq!(
        l.next_token(true),
        Token::new(TokenClass::Symbol(Symbol::Sharp), 1, 1)
    );
    assert_eq!(
        l.next_token(true),
        Token::new(TokenClass::Macro(Macro::Define), 1, 2)
    );
    assert_eq!(
        l.next_token(true),
        Token::new(
            TokenClass::Identifire("SYSTEM_FUNCT_CONTROL".to_string()),
            1,
            3
        )
    );
    assert_eq!(
        l.next_token(true),
        Token::new(TokenClass::Symbol(Symbol::LeftParen), 1, 4)
    );
    assert_eq!(
        l.next_token(true),
        Token::new(TokenClass::Number("2'b00".to_string()), 1, 5)
    );
    assert_eq!(
        l.next_token(true),
        Token::new(TokenClass::Symbol(Symbol::RightParen), 1, 6)
    );
}

#[test]
fn lexer_number_01() {
    let mut l = Lexer::new("#define SYSTEM_FUNCT_CONTROL    (4'hf)");

    assert_eq!(
        l.next_token(true),
        Token::new(TokenClass::Symbol(Symbol::Sharp), 1, 1)
    );
    assert_eq!(
        l.next_token(true),
        Token::new(TokenClass::Macro(Macro::Define), 1, 2)
    );
    assert_eq!(
        l.next_token(true),
        Token::new(
            TokenClass::Identifire("SYSTEM_FUNCT_CONTROL".to_string()),
            1,
            3
        )
    );
    assert_eq!(
        l.next_token(true),
        Token::new(TokenClass::Symbol(Symbol::LeftParen), 1, 4)
    );
    assert_eq!(
        l.next_token(true),
        Token::new(TokenClass::Number("4'hf".to_string()), 1, 5)
    );
    assert_eq!(
        l.next_token(true),
        Token::new(TokenClass::Symbol(Symbol::RightParen), 1, 6)
    );
}

#[test]
fn lexer_number_02() {
    let mut l = Lexer::new("#define SYSTEM_FUNCT_CONTROL    (0b1000)");

    assert_eq!(
        l.next_token(true),
        Token::new(TokenClass::Symbol(Symbol::Sharp), 1, 1)
    );
    assert_eq!(
        l.next_token(true),
        Token::new(TokenClass::Macro(Macro::Define), 1, 2)
    );
    assert_eq!(
        l.next_token(true),
        Token::new(
            TokenClass::Identifire("SYSTEM_FUNCT_CONTROL".to_string()),
            1,
            3
        )
    );
    assert_eq!(
        l.next_token(true),
        Token::new(TokenClass::Symbol(Symbol::LeftParen), 1, 4)
    );
    assert_eq!(
        l.next_token(true),
        Token::new(TokenClass::Number("0b1000".to_string()), 1, 5)
    );
    assert_eq!(
        l.next_token(true),
        Token::new(TokenClass::Symbol(Symbol::RightParen), 1, 6)
    );
}

#[test]
fn lexer_number_03() {
    let mut l = Lexer::new("#define SYSTEM_FUNCT_CONTROL    (0x1000)");

    assert_eq!(
        l.next_token(true),
        Token::new(TokenClass::Symbol(Symbol::Sharp), 1, 1)
    );
    assert_eq!(
        l.next_token(true),
        Token::new(TokenClass::Macro(Macro::Define), 1, 2)
    );
    assert_eq!(
        l.next_token(true),
        Token::new(
            TokenClass::Identifire("SYSTEM_FUNCT_CONTROL".to_string()),
            1,
            3
        )
    );
    assert_eq!(
        l.next_token(true),
        Token::new(TokenClass::Symbol(Symbol::LeftParen), 1, 4)
    );
    assert_eq!(
        l.next_token(true),
        Token::new(TokenClass::Number("0x1000".to_string()), 1, 5)
    );
    assert_eq!(
        l.next_token(true),
        Token::new(TokenClass::Symbol(Symbol::RightParen), 1, 6)
    );
}

#[test]
fn lexer_define_path() {
    let mut l = Lexer::new("#define MEMORY_HEX \"../hexs/rv32ui-p-xori.hex\"");

    assert_eq!(
        l.next_token(true),
        Token::new(TokenClass::Symbol(Symbol::Sharp), 1, 1)
    );
    assert_eq!(
        l.next_token(true),
        Token::new(TokenClass::Macro(Macro::Define), 1, 2)
    );
    assert_eq!(
        l.next_token(true),
        Token::new(TokenClass::Identifire("MEMORY_HEX".to_string()), 1, 3)
    );
    assert_eq!(
        l.next_token(true),
        Token::new(
            TokenClass::String("../hexs/rv32ui-p-xori.hex".to_string()),
            1,
            4
        )
    );
}

#[test]
fn lexer_mutiline_comment_00() {
    let mut l = Lexer::new("/**/");

    let result: Vec<String> = vec![""].iter().map(|s| s.to_string()).collect();

    assert_eq!(
        l.next_token(true),
        Token::new(TokenClass::CStyleComment(result), 1, 1)
    );
}

#[test]
fn lexer_mutiline_comment_01() {
    let mut l = Lexer::new("/* hello */");

    let result: Vec<String> = vec![" hello "].iter().map(|s| s.to_string()).collect();

    assert_eq!(
        l.next_token(true),
        Token::new(TokenClass::CStyleComment(result), 1, 1)
    );
}

#[test]
fn lexer_mutiline_comment_02() {
    let mut l = Lexer::new("/*hello\n*/");

    let result: Vec<String> = vec!["hello", ""].iter().map(|s| s.to_string()).collect();

    assert_eq!(
        l.next_token(true),
        Token::new(TokenClass::CStyleComment(result), 1, 1)
    );
    assert_eq!(l.next_token(true), Token::new(TokenClass::EndOfProgram, 1, 2));
}

#[test]
fn mutiline_comment_03() {
    let mut l = Lexer::new("/*\ndata lines\n*/");

    let result: Vec<String> = vec!["", "data lines", ""]
        .iter()
        .map(|s| s.to_string())
        .collect();

    assert_eq!(
        l.next_token(true),
        Token::new(TokenClass::CStyleComment(result), 1, 1)
    );
    assert_eq!(l.next_token(true), Token::new(TokenClass::EndOfProgram, 1, 2));
}

#[test]
fn lexer_module_00() {
    let mut l = Lexer::new("module test {}");

    assert_eq!(l.next_token(true), Token::from((Symbol::Module, 1, 1)));

    assert_eq!(
        l.next_token(true),
        Token::from((TokenClass::Identifire("test".to_string()), 1, 2))
    );

    assert_eq!(l.next_token(true), Token::from((Symbol::OpeningBrace, 1, 3)));

    assert_eq!(l.next_token(true), Token::from((Symbol::ClosingBrace, 1, 4)));
    assert_eq!(l.next_token(true), Token::new(TokenClass::EndOfProgram, 1, 5));
}

#[test]
fn module_wire_00() {
    let mut l = Lexer::new("module test { wire ok; }");

    assert_eq!(l.next_token(true), Token::from((Symbol::Module, 1, 1)));

    assert_eq!(
        l.next_token(true),
        Token::from((TokenClass::Identifire("test".to_string()), 1, 2))
    );

    assert_eq!(l.next_token(true), Token::from((Symbol::OpeningBrace, 1, 3)));
    assert_eq!(l.next_token(true), Token::from((Symbol::Wire, 1, 4)));
    assert_eq!(
        l.next_token(true),
        Token::from((TokenClass::Identifire("ok".to_string()), 1, 5))
    );
    assert_eq!(l.next_token(true), Token::from((Symbol::Semicolon, 1, 6)));

    assert_eq!(l.next_token(true), Token::from((Symbol::ClosingBrace, 1, 7)));
    assert_eq!(l.next_token(true), Token::new(TokenClass::EndOfProgram, 1, 8));
    assert_eq!(l.next_token(true), Token::new(TokenClass::EndOfProgram, 1, 9));
}

#[test]
fn module_wire_01() {
    let mut l = Lexer::new("module test { wire ok[12]; }");

    assert_eq!(l.next_token(true), Token::from((Symbol::Module, 1, 1)));

    assert_eq!(
        l.next_token(true),
        Token::from((TokenClass::Identifire("test".to_string()), 1, 2))
    );

    assert_eq!(l.next_token(true), Token::from((Symbol::OpeningBrace, 1, 3)));
    assert_eq!(l.next_token(true), Token::from((Symbol::Wire, 1, 4)));
    assert_eq!(
        l.next_token(true),
        Token::from((TokenClass::Identifire("ok".to_string()), 1, 5))
    );
    assert_eq!(l.next_token(true), Token::from((Symbol::LeftSquareBracket, 1, 6)));
    assert_eq!(
        l.next_token(true),
        Token::from((TokenClass::Number("12".to_string()), 1, 7))
    );
    assert_eq!(
        l.next_token(true),
        Token::from((Symbol::RightSquareBracket, 1, 8))
    );
    assert_eq!(l.next_token(true), Token::from((Symbol::Semicolon, 1, 9)));
    assert_eq!(l.next_token(true), Token::from((Symbol::ClosingBrace, 1, 10)));
    assert_eq!(l.next_token(true), Token::new(TokenClass::EndOfProgram, 1, 11));
    assert_eq!(l.next_token(true), Token::new(TokenClass::EndOfProgram, 1, 12));
}

#[test]
fn lexer_reg_00() {
    let mut l = Lexer::new("module test { reg a; }");

    assert_eq!(l.next_token(true), Token::from((Symbol::Module, 1, 1)));

    assert_eq!(
        l.next_token(true),
        Token::from((TokenClass::Identifire("test".to_string()), 1, 2))
    );

    assert_eq!(l.next_token(true), Token::from((Symbol::OpeningBrace, 1, 3)));

    assert_eq!(l.next_token(true), Token::from((Symbol::Reg, 1, 4)));
    assert_eq!(
        l.next_token(true),
        Token::from((TokenClass::Identifire("a".to_string()), 1, 5))
    );
    assert_eq!(
        l.next_token(true),
        Token::new(TokenClass::Symbol(Symbol::Semicolon), 1, 6)
    );

    assert_eq!(l.next_token(true), Token::from((Symbol::ClosingBrace, 1, 7)));
    assert_eq!(l.next_token(true), Token::new(TokenClass::EndOfProgram, 1, 8));
}

#[test]
fn lexer_func_self_00() {
    let mut l = Lexer::new("module test { wire a, b, c; func_self aa(a, b): c;}");

    assert_eq!(l.next_token(true), Token::from((Symbol::Module, 1, 1)));

    assert_eq!(
        l.next_token(true),
        Token::from((TokenClass::Identifire("test".to_string()), 1, 2))
    );

    assert_eq!(l.next_token(true), Token::from((Symbol::OpeningBrace, 1, 3)));

    assert_eq!(l.next_token(true), Token::from((Symbol::Wire, 1, 4)));

    assert_eq!(
        l.next_token(true),
        Token::from((TokenClass::Identifire("a".to_string()), 1, 5))
    );
    assert_eq!(
        l.next_token(true),
        Token::new(TokenClass::Symbol(Symbol::Comma), 1, 6)
    );
    assert_eq!(
        l.next_token(true),
        Token::from((TokenClass::Identifire("b".to_string()), 1, 7))
    );
    assert_eq!(
        l.next_token(true),
        Token::new(TokenClass::Symbol(Symbol::Comma), 1, 8)
    );
    assert_eq!(
        l.next_token(true),
        Token::from((TokenClass::Identifire("c".to_string()), 1, 9))
    );

    assert_eq!(
        l.next_token(true),
        Token::new(TokenClass::Symbol(Symbol::Semicolon), 1, 10)
    );

    assert_eq!(
        l.next_token(true),
        Token::new(TokenClass::Symbol(Symbol::FuncSelf), 1, 11)
    );
    assert_eq!(
        l.next_token(true),
        Token::from((TokenClass::Identifire("aa".to_string()), 1, 12))
    );
    assert_eq!(
        l.next_token(true),
        Token::new(TokenClass::Symbol(Symbol::LeftParen), 1, 13)
    );
    assert_eq!(
        l.next_token(true),
        Token::from((TokenClass::Identifire("a".to_string()), 1, 14))
    );
    assert_eq!(
        l.next_token(true),
        Token::new(TokenClass::Symbol(Symbol::Comma), 1, 15)
    );
    assert_eq!(
        l.next_token(true),
        Token::from((TokenClass::Identifire("b".to_string()), 1, 16))
    );
    assert_eq!(
        l.next_token(true),
        Token::new(TokenClass::Symbol(Symbol::RightParen), 1, 17)
    );
    assert_eq!(
        l.next_token(true),
        Token::new(TokenClass::Symbol(Symbol::Colon), 1, 18)
    );
    assert_eq!(
        l.next_token(true),
        Token::from((TokenClass::Identifire("c".to_string()), 1, 19))
    );
    assert_eq!(
        l.next_token(true),
        Token::new(TokenClass::Symbol(Symbol::Semicolon), 1, 20)
    );
    assert_eq!(l.next_token(true), Token::from((Symbol::ClosingBrace, 1, 21)));

    assert_eq!(l.next_token(true), Token::new(TokenClass::EndOfProgram, 1, 22));
}

#[test]
fn lexer_proc_00() {
    let mut l = Lexer::new("module test { proc_name proc_a(); }");

    assert_eq!(l.next_token(true), Token::from((Symbol::Module, 1, 1)));

    assert_eq!(
        l.next_token(true),
        Token::from((TokenClass::Identifire("test".to_string()), 1, 2))
    );

    assert_eq!(l.next_token(true), Token::from((Symbol::OpeningBrace, 1, 3)));
    assert_eq!(l.next_token(true), Token::from((Symbol::ProcName, 1, 4)));
    assert_eq!(
        l.next_token(true),
        Token::from((TokenClass::Identifire("proc_a".to_string()), 1, 5))
    );
    assert_eq!(l.next_token(true), Token::from((Symbol::LeftParen, 1, 6)));
    assert_eq!(l.next_token(true), Token::from((Symbol::RightParen, 1, 7)));

    assert_eq!(
        l.next_token(true),
        Token::new(TokenClass::Symbol(Symbol::Semicolon), 1, 8)
    );

    assert_eq!(l.next_token(true), Token::from((Symbol::ClosingBrace, 1, 9)));
    assert_eq!(l.next_token(true), Token::new(TokenClass::EndOfProgram, 1, 10));
}

#[test]
fn lexer_state_name_00() {
    let mut l = Lexer::new("module test { state_name state1;}");

    assert_eq!(l.next_token(true), Token::from((Symbol::Module, 1, 1)));

    assert_eq!(
        l.next_token(true),
        Token::from((TokenClass::Identifire("test".to_string()), 1, 2))
    );

    assert_eq!(l.next_token(true), Token::from((Symbol::OpeningBrace, 1, 3)));
    assert_eq!(l.next_token(true), Token::from((Symbol::StateName, 1, 4)));
    assert_eq!(
        l.next_token(true),
        Token::from((TokenClass::Identifire("state1".to_string()), 1, 5))
    );

    assert_eq!(
        l.next_token(true),
        Token::new(TokenClass::Symbol(Symbol::Semicolon), 1, 6)
    );

    assert_eq!(l.next_token(true), Token::from((Symbol::ClosingBrace, 1, 7)));
    assert_eq!(l.next_token(true), Token::new(TokenClass::EndOfProgram, 1, 8));
}

#[test]
fn lexer_mem_00() {
    let mut l = Lexer::new("module test { mem aa[12];}");

    assert_eq!(l.next_token(true), Token::from((Symbol::Module, 1, 1)));

    assert_eq!(
        l.next_token(true),
        Token::from((TokenClass::Identifire("test".to_string()), 1, 2))
    );

    assert_eq!(l.next_token(true), Token::from((Symbol::OpeningBrace, 1, 3)));
    assert_eq!(l.next_token(true), Token::from((Symbol::Mem, 1, 4)));
    assert_eq!(
        l.next_token(true),
        Token::from((TokenClass::Identifire("aa".to_string()), 1, 5))
    );
    assert_eq!(l.next_token(true), Token::from((Symbol::LeftSquareBracket, 1, 6)));
    assert_eq!(
        l.next_token(true),
        Token::from((TokenClass::Number("12".to_string()), 1, 7))
    );

    assert_eq!(
        l.next_token(true),
        Token::from((Symbol::RightSquareBracket, 1, 8))
    );

    assert_eq!(
        l.next_token(true),
        Token::new(TokenClass::Symbol(Symbol::Semicolon), 1, 9)
    );

    assert_eq!(l.next_token(true), Token::from((Symbol::ClosingBrace, 1, 10)));
    assert_eq!(l.next_token(true), Token::new(TokenClass::EndOfProgram, 1, 11));
}

#[test]
fn lexer_wire_assign_00() {
    let mut l = Lexer::new("module test { wire a; a = 1'b1;}");
    assert_eq!(l.next_token(true), Token::from((Symbol::Module, 1, 1)));
    assert_eq!(
        l.next_token(true),
        Token::from((TokenClass::Identifire("test".to_string()), 1, 2))
    );
    assert_eq!(l.next_token(true), Token::from((Symbol::OpeningBrace, 1, 3)));
    assert_eq!(l.next_token(true), Token::from((Symbol::Wire, 1, 4)));
    assert_eq!(
        l.next_token(true),
        Token::from((TokenClass::Identifire("a".to_string()), 1, 5))
    );
    assert_eq!(l.next_token(true), Token::from((Symbol::Semicolon, 1, 6)));
    assert_eq!(
        l.next_token(true),
        Token::from((TokenClass::Identifire("a".to_string()), 1, 7))
    );
    assert_eq!(l.next_token(true), Token::from((Symbol::Equal, 1, 8)));
    assert_eq!(
        l.next_token(true),
        Token::from((TokenClass::Number("1'b1".to_string()), 1, 9))
    );
    assert_eq!(l.next_token(true), Token::from((Symbol::Semicolon, 1, 10)));
    assert_eq!(l.next_token(true), Token::from((Symbol::ClosingBrace, 1, 11)));
    assert_eq!(l.next_token(true), Token::new(TokenClass::EndOfProgram, 1, 12));
}

#[test]
fn plus_00() {
    let mut l = Lexer::new("module test { wire a; a = a + 1'b1;}");

    assert_eq!(l.next_token(true), Token::from((Symbol::Module, 1, 1)));
    assert_eq!(
        l.next_token(true),
        Token::from((TokenClass::Identifire("test".to_string()), 1, 2))
    );
    assert_eq!(l.next_token(true), Token::from((Symbol::OpeningBrace, 1, 3)));
    assert_eq!(l.next_token(true), Token::from((Symbol::Wire, 1, 4)));
    assert_eq!(
        l.next_token(true),
        Token::from((TokenClass::Identifire("a".to_string()), 1, 5))
    );
    assert_eq!(l.next_token(true), Token::from((Symbol::Semicolon, 1, 6)));
    assert_eq!(
        l.next_token(true),
        Token::from((TokenClass::Identifire("a".to_string()), 1, 7))
    );
    assert_eq!(l.next_token(true), Token::from((Symbol::Equal, 1, 8)));
    assert_eq!(
        l.next_token(true),
        Token::from((TokenClass::Identifire("a".to_string()), 1, 9))
    );
    assert_eq!(l.next_token(true), Token::from((Operator::Plus, 1, 10)));
    assert_eq!(
        l.next_token(true),
        Token::from((TokenClass::Number("1'b1".to_string()), 1, 11))
    );
    assert_eq!(l.next_token(true), Token::from((Symbol::Semicolon, 1, 12)));

    assert_eq!(l.next_token(true), Token::from((Symbol::ClosingBrace, 1, 13)));
    assert_eq!(l.next_token(true), Token::new(TokenClass::EndOfProgram, 1, 14));
}

#[test]
fn reg_assignment_00() {
    let mut l = Lexer::new("module test { reg a; a := a + 1'b1;}");

    assert_eq!(l.next_token(true), Token::from((Symbol::Module, 1, 1)));
    assert_eq!(
        l.next_token(true),
        Token::from((TokenClass::Identifire("test".to_string()), 1, 2))
    );
    assert_eq!(l.next_token(true), Token::from((Symbol::OpeningBrace, 1, 3)));
    assert_eq!(l.next_token(true), Token::from((Symbol::Reg, 1, 4)));
    assert_eq!(
        l.next_token(true),
        Token::from((TokenClass::Identifire("a".to_string()), 1, 5))
    );
    assert_eq!(
        l.next_token(true),
        Token::new(TokenClass::Symbol(Symbol::Semicolon), 1, 6)
    );

    assert_eq!(
        l.next_token(true),
        Token::from((TokenClass::Identifire("a".to_string()), 1, 7))
    );
    assert_eq!(l.next_token(true), Token::from((Symbol::RegAssign, 1, 8)),);
    assert_eq!(
        l.next_token(true),
        Token::from((TokenClass::Identifire("a".to_string()), 1, 9))
    );
    assert_eq!(l.next_token(true), Token::from((Operator::Plus, 1, 10)));
    assert_eq!(
        l.next_token(true),
        Token::from((TokenClass::Number("1'b1".to_string()), 1, 11))
    );
    assert_eq!(
        l.next_token(true),
        Token::new(TokenClass::Symbol(Symbol::Semicolon), 1, 12)
    );
    assert_eq!(l.next_token(true), Token::from((Symbol::ClosingBrace, 1, 13)));
    assert_eq!(l.next_token(true), Token::new(TokenClass::EndOfProgram, 1, 14));
}

#[test]
fn func_block_00() {
    let mut l = Lexer::new("func test {}");

    assert_eq!(l.next_token(true), Token::from((Symbol::Func, 1, 1)));
    assert_eq!(
        l.next_token(true),
        Token::new(TokenClass::Identifire("test".to_string()), 1, 2)
    );
    assert_eq!(l.next_token(true), Token::from((Symbol::OpeningBrace, 1, 3)));
    assert_eq!(l.next_token(true), Token::from((Symbol::ClosingBrace, 1, 4)));
}

#[test]
fn func_block_return() {
    let mut l = Lexer::new("func test { return mtvec; }");

    assert_eq!(l.next_token(true), Token::from((Symbol::Func, 1, 1)));
    assert_eq!(
        l.next_token(true),
        Token::new(TokenClass::Identifire("test".to_string()), 1, 2)
    );
    assert_eq!(l.next_token(true), Token::from((Symbol::OpeningBrace, 1, 3)));
    assert_eq!(l.next_token(true), Token::from((Symbol::Return, 1, 4)));
    assert_eq!(
        l.next_token(true),
        Token::from((TokenClass::Identifire("mtvec".to_string()), 1, 5))
    );
    assert_eq!(l.next_token(true), Token::from((Symbol::Semicolon, 1, 6)));
    assert_eq!(l.next_token(true), Token::from((Symbol::ClosingBrace, 1, 7)));
}

#[test]
fn any_block_00() {
    let mut l = Lexer::new("any {}");

    assert_eq!(l.next_token(true), Token::from((Symbol::Any, 1, 1)));
    assert_eq!(l.next_token(true), Token::from((Symbol::OpeningBrace, 1, 2)));
    assert_eq!(l.next_token(true), Token::from((Symbol::ClosingBrace, 1, 3)));
}

#[test]
fn or_00() {
    let mut l = Lexer::new("return a | b;");

    assert_eq!(l.next_token(true), Token::from((Symbol::Return, 1, 1)));
    assert_eq!(
        l.next_token(true),
        Token::from((TokenClass::Identifire("a".to_string()), 1, 2))
    );
    assert_eq!(l.next_token(true), Token::from((Operator::Pipe, 1, 3)));
    assert_eq!(
        l.next_token(true),
        Token::from((TokenClass::Identifire("b".to_string()), 1, 4))
    );
}

#[test]
fn lexer_any_else_00() {
    let mut l = Lexer::new("any { a: {} else: {} }");

    assert_eq!(l.next_token(true), Token::from((Symbol::Any, 1, 1)));
    assert_eq!(l.next_token(true), Token::from((Symbol::OpeningBrace, 1, 2)));
    assert_eq!(
        l.next_token(true),
        Token::from((TokenClass::Identifire("a".to_string()), 1, 3))
    );
    assert_eq!(l.next_token(true), Token::from((Symbol::Colon, 1, 4)));
    assert_eq!(l.next_token(true), Token::from((Symbol::OpeningBrace, 1, 5)));
    assert_eq!(l.next_token(true), Token::from((Symbol::ClosingBrace, 1, 6)));
    assert_eq!(l.next_token(true), Token::from((Symbol::Else, 1, 7)));
    assert_eq!(l.next_token(true), Token::from((Symbol::Colon, 1, 8)));
    assert_eq!(l.next_token(true), Token::from((Symbol::OpeningBrace, 1, 9)));
    assert_eq!(l.next_token(true), Token::from((Symbol::ClosingBrace, 1, 10)));
    assert_eq!(l.next_token(true), Token::from((Symbol::ClosingBrace, 1, 11)));
}

#[test]
fn gt_lt_00() {
    let mut l = Lexer::new("address >= 12'h3a0 && address <= 12'h3bf");

    assert_eq!(
        l.next_token(true),
        Token::from((TokenClass::Identifire("address".to_string()), 1, 1))
    );
    assert_eq!(l.next_token(true), Token::from((Operator::GreaterEq, 1, 2)));
    assert_eq!(
        l.next_token(true),
        Token::new(TokenClass::Number("12'h3a0".to_string()), 1, 3)
    );
    assert_eq!(l.next_token(true), Token::from((Operator::LogicAnd, 1, 4)));
    assert_eq!(
        l.next_token(true),
        Token::from((TokenClass::Identifire("address".to_string()), 1, 5))
    );
    assert_eq!(l.next_token(true), Token::from((Operator::LessEq, 1, 6)));
    assert_eq!(
        l.next_token(true),
        Token::new(TokenClass::Number("12'h3bf".to_string()), 1, 7)
    );
}

#[test]
fn state_00() {
    let mut l = Lexer::new("state idle {}");

    assert_eq!(l.next_token(true), Token::from((Symbol::State, 1, 1)));
    assert_eq!(
        l.next_token(true),
        Token::from((TokenClass::Identifire("idle".to_string()), 1, 2))
    );
    assert_eq!(l.next_token(true), Token::from((Symbol::OpeningBrace, 1, 3)));
    assert_eq!(l.next_token(true), Token::from((Symbol::ClosingBrace, 1, 4)));
}

#[test]
fn logical_invert_00() {
    let mut l = Lexer::new("!ok");

    assert_eq!(l.next_token(true), Token::from((UnaryOperator::Not, 1, 1)));
    assert_eq!(
        l.next_token(true),
        Token::from((TokenClass::Identifire("ok".to_string()), 1, 2))
    );
}

#[test]
fn pre_increment_00() {
    let mut l = Lexer::new("++ok");

    assert_eq!(l.next_token(true), Token::from((UnaryOperator::Increment, 1, 1)));
    assert_eq!(
        l.next_token(true),
        Token::from((TokenClass::Identifire("ok".to_string()), 1, 2))
    );
}

#[test]
fn post_increment_00() {
    let mut l = Lexer::new("ok++");

    assert_eq!(
        l.next_token(true),
        Token::from((TokenClass::Identifire("ok".to_string()), 1, 1))
    );
    assert_eq!(l.next_token(true), Token::from((UnaryOperator::Increment, 1, 2)));
}

#[test]
fn pre_decrement_00() {
    let mut l = Lexer::new("--ok");

    assert_eq!(l.next_token(true), Token::from((UnaryOperator::Decrement, 1, 1)));
    assert_eq!(
        l.next_token(true),
        Token::from((TokenClass::Identifire("ok".to_string()), 1, 2))
    );
}

#[test]
fn post_decrement_00() {
    let mut l = Lexer::new("ok--");

    assert_eq!(
        l.next_token(true),
        Token::from((TokenClass::Identifire("ok".to_string()), 1, 1))
    );
    assert_eq!(l.next_token(true), Token::from((UnaryOperator::Decrement, 1, 2)));
}

#[test]
fn struct_00() {
    let mut l = Lexer::new("struct");
    assert_eq!(l.next_token(true), Token::from((Symbol::Struct, 1, 1)));
}
