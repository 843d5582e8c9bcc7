use jsparser::expr::Expr;
use jsparser::text::{trim_char, usize_to_decimal};
use jsparser::token::{Token, TokenKeyword, TokenPunctuator, TokenType};
use jsparser::utility::err;

#[test]
fn new_token_carries_the_text_of_its_type() {
    let t = Token::new(TokenType::Punctuator(TokenPunctuator::ADD), 1, 2);
    assert_eq!(t.raw, "+=");
    assert_eq!(t.line, 1);
    assert_eq!(t.column, 2);
    assert_eq!(Token::new(TokenType::Ident("abc".to_string()), 0, 0).raw, "abc");
    assert_eq!(Token::new(TokenType::Literal("12".to_string()), 0, 0).raw, "12");
    assert_eq!(Token::new(TokenType::Keyword(TokenKeyword::Function), 0, 0).raw, "function");
    assert_eq!(Token::new(TokenType::EOF, 0, 0).raw, "EOF");
    assert_eq!(Token::new(TokenType::Illegal, 0, 0).raw, "Illegal");
}

#[test]
fn desc_gives_type_line_and_column() {
    assert_eq!(Token::new(TokenType::EOF, 3, 14).desc(), "EOF,line:3,column:14");
    assert_eq!(
        Token::new(TokenType::Ident("a".to_string()), 0, 105).desc(),
        "Ident(\"a\"),line:0,column:105"
    );
}

#[test]
fn raw_texts_of_punctuators_and_keywords() {
    assert_eq!(TokenPunctuator::MOV.to_raw(), "=");
    assert_eq!(TokenPunctuator::Congruent.to_raw(), "===");
    assert_eq!(TokenPunctuator::RShift.to_raw(), ">>");
    assert_eq!(TokenPunctuator::MOD.to_raw(), "%=");
    assert_eq!(TokenKeyword::Let.to_raw(), "let");
    assert_eq!(TokenKeyword::While.to_raw(), "while");
    assert_eq!(TokenKeyword::NoKeyword.to_raw(), "");
}

#[test]
fn punctuator_classes() {
    assert!(TokenPunctuator::Plus.is_unary());
    assert!(TokenPunctuator::Not.is_unary());
    assert!(!TokenPunctuator::Multiply.is_unary());
    assert!(TokenPunctuator::Multiply.is_precedence());
    assert!(TokenPunctuator::And.is_precedence());
    assert!(!TokenPunctuator::MOV.is_precedence());
}

#[test]
fn token_predicates() {
    let kw = Token::new(TokenType::Keyword(TokenKeyword::Let), 0, 0);
    assert!(kw.checked_keyword());
    assert!(kw.is_keyword(TokenKeyword::Let));
    assert!(!kw.is_keyword(TokenKeyword::Var));
    let id = Token::new(TokenType::Ident("x".to_string()), 0, 0);
    assert!(!id.checked_keyword());
    assert!(id.is_ident());
    assert!(!id.is_literal());
    let semi = Token::new(TokenType::Punctuator(TokenPunctuator::Semicolon), 0, 0);
    assert!(semi.is_eof(true));
    assert!(!semi.is_eof(false));
    assert!(Token::new(TokenType::EOF, 0, 0).is_eof(false));
    let inc = Token::new(TokenType::Punctuator(TokenPunctuator::INC), 0, 0);
    assert!(inc.is_update());
    assert!(inc.is_ptor(TokenPunctuator::INC));
    assert!(!inc.is_ptor(TokenPunctuator::DEC));
    assert!(Token::new(TokenType::Punctuator(TokenPunctuator::Or), 0, 0).is_logical());
    assert!(Token::new(TokenType::Punctuator(TokenPunctuator::GTE), 0, 0).is_binary());
    assert!(!Token::new(TokenType::Punctuator(TokenPunctuator::Plus), 0, 0).is_binary());
}

#[test]
fn expr_raw_text() {
    assert_eq!(Expr::Identifier("a".to_string()).to_raw(), "a");
    assert_eq!(Expr::Literal("1".to_string()).to_raw(), "1");
    assert_eq!(Expr::Break.to_raw(), "<Break>");
}

#[test]
fn error_message_is_the_text() {
    assert_eq!(err("Uncaught ReferenceError"), "Uncaught ReferenceError");
    assert_eq!(err(""), "");
}

#[test]
fn decimal_text_of_numbers() {
    assert_eq!(usize_to_decimal(0), "0");
    assert_eq!(usize_to_decimal(7), "7");
    assert_eq!(usize_to_decimal(1234), "1234");
    assert_eq!(usize_to_decimal(usize::MAX), usize::MAX.to_string());
}

#[test]
fn trimming_a_character() {
    assert_eq!(trim_char(&"\"ab\"".to_string(), '"'), "ab");
    assert_eq!(trim_char(&"''a'b''".to_string(), '\''), "a'b");
    assert_eq!(trim_char(&"xxx".to_string(), 'x'), "");
    assert_eq!(trim_char(&"".to_string(), 'x'), "");
    assert_eq!(trim_char(&"héé".to_string(), 'é'), "h");
}

#[test]
fn token_listing_texts() {
    let t = |typ: TokenType| Token::new(typ, 1, 0).display_text();
    assert_eq!(t(TokenType::EOF), "");
    assert_eq!(t(TokenType::Ident("ab".to_string())), "<\x1b[31mab\x1b[39m> ");
    assert_eq!(t(TokenType::Punctuator(TokenPunctuator::LTE)), "<\x1b[36m<=\x1b[39m> ");
    assert_eq!(t(TokenType::Keyword(TokenKeyword::Let)), "<key:\x1b[33mlet\x1b[39m> ");
    assert_eq!(t(TokenType::Literal("1".to_string())), "<\x1b[35m1\x1b[39m> ");
    assert_eq!(t(TokenType::SyntaxError), "<SyntaxError> ");
}
