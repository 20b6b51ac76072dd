use nslfmt::lexer::analyzer::{LexItem, create_lex_item_word};
use nslfmt::lexer::utils::{CharCursor, get_number, get_word};

#[test]
fn module() {
        let s = "module".to_string();
        let mut it = CharCursor::new(&s);
        assert_eq!(LexItem::Module, get_word(&mut it));
}

#[test]
fn module_space() {
        let s = "module ".to_string();
        let mut it = CharCursor::new(&s);
        assert_eq!(LexItem::Module, get_word(&mut it));
}

#[test]
fn declare() {
        let s = "declare".to_string();
        let mut it = CharCursor::new(&s);
        assert_eq!(LexItem::Declare, get_word(&mut it));
}

#[test]
fn declare_parenthesis() {
        let s = "declare {}".to_string();
        let mut it = CharCursor::new(&s);
        assert_eq!(LexItem::Declare, get_word(&mut it));
}

#[test]
fn other() {
        let s = "aaa".to_string();
        let mut it = CharCursor::new(&s);
        assert_eq!(create_lex_item_word("aaa"), get_word(&mut it));
}

#[test]
fn other_newline() {
        let s = "aa\n{}".to_string();
        let mut it = CharCursor::new(&s);
        assert_eq!(create_lex_item_word("aa"), get_word(&mut it));
}

#[test]
fn input() {
        let s = "input".to_string();
        let mut it = CharCursor::new(&s);
        assert_eq!(LexItem::Input, get_word(&mut it));
}

#[test]
fn output() {
        let s = "output".to_string();
        let mut it = CharCursor::new(&s);
        assert_eq!(LexItem::Output, get_word(&mut it));
}

#[test]
fn inout() {
        let s = "inout".to_string();
        let mut it = CharCursor::new(&s);
        assert_eq!(LexItem::InOut, get_word(&mut it));
}

#[test]
fn digit() {
        let s = "10".to_string();
        let mut it = CharCursor::new(&s);
        assert_eq!(LexItem::Number(10), get_number(&mut it));
}
