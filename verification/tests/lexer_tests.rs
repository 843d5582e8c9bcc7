use jsparser::lexer::{ILexer, Lexer};
use jsparser::token::{Token, TokenKeyword, TokenPunctuator, TokenType};

fn tokens(src: &str) -> Vec<Token> {
    let mut lexer = Lexer::new(src.to_string());
    let mut out = Vec::new();
    loop {
        let t = lexer.next_token();
        let end = t.typ == TokenType::EOF;
        out.push(t);
        if end {
            break;
        }
    }
    out
}

fn types(src: &str) -> Vec<TokenType> {
    tokens(src).into_iter().map(|t| t.typ).collect()
}

fn p(x: TokenPunctuator) -> TokenType {
    TokenType::Punctuator(x)
}

#[test]
fn lex_punctuators() {
    assert_eq!(
        types("= == === += ++ -= -- *= /= ! != && || & | ^ ~ < <= << > >= >> ( ) { } [ ] ; : . ,"),
        vec![
            p(TokenPunctuator::MOV),
            p(TokenPunctuator::Equal),
            p(TokenPunctuator::Congruent),
            p(TokenPunctuator::ADD),
            p(TokenPunctuator::INC),
            p(TokenPunctuator::SUB),
            p(TokenPunctuator::DEC),
            p(TokenPunctuator::MUL),
            p(TokenPunctuator::DIV),
            p(TokenPunctuator::Not),
            p(TokenPunctuator::NE),
            p(TokenPunctuator::And),
            p(TokenPunctuator::Or),
            p(TokenPunctuator::BitAnd),
            p(TokenPunctuator::BitOr),
            p(TokenPunctuator::BitXor),
            p(TokenPunctuator::BitNot),
            p(TokenPunctuator::LT),
            p(TokenPunctuator::LTE),
            p(TokenPunctuator::LShift),
            p(TokenPunctuator::GT),
            p(TokenPunctuator::GTE),
            p(TokenPunctuator::RShift),
            p(TokenPunctuator::LParen),
            p(TokenPunctuator::RParen),
            p(TokenPunctuator::LCParen),
            p(TokenPunctuator::RCParen),
            p(TokenPunctuator::LSParen),
            p(TokenPunctuator::RSParen),
            p(TokenPunctuator::Semicolon),
            p(TokenPunctuator::Colon),
            p(TokenPunctuator::Dot),
            p(TokenPunctuator::Comma),
            TokenType::EOF,
        ]
    );
}

#[test]
fn lex_keywords_and_identifiers() {
    assert_eq!(
        types("let x = foo;"),
        vec![
            TokenType::Keyword(TokenKeyword::Let),
            TokenType::Ident("x".to_string()),
            p(TokenPunctuator::MOV),
            TokenType::Ident("foo".to_string()),
            p(TokenPunctuator::Semicolon),
            TokenType::EOF,
        ]
    );
    assert_eq!(
        types("function while switch case default do"),
        vec![
            TokenType::Keyword(TokenKeyword::Function),
            TokenType::Keyword(TokenKeyword::While),
            TokenType::Keyword(TokenKeyword::Swith),
            TokenType::Keyword(TokenKeyword::Case),
            TokenType::Keyword(TokenKeyword::Default),
            TokenType::Keyword(TokenKeyword::Do),
            TokenType::EOF,
        ]
    );
}

#[test]
fn lex_numbers_and_strings() {
    assert_eq!(
        types("12.5 'a\\'b' \"c\""),
        vec![
            TokenType::Literal("12.5".to_string()),
            TokenType::Literal("a'b".to_string()),
            TokenType::Literal("c".to_string()),
            TokenType::EOF,
        ]
    );
}

#[test]
fn lex_template() {
    assert_eq!(
        types("`1${2+22}3${4}`"),
        vec![
            TokenType::Template(
                vec!["1".to_string(), "3".to_string()],
                vec!["2+22".to_string(), "4".to_string()]
            ),
            TokenType::EOF,
        ]
    );
}

#[test]
fn lex_comments_are_skipped() {
    assert_eq!(
        types("a // note\n/* block\n */ b"),
        vec![
            TokenType::Ident("a".to_string()),
            TokenType::Ident("b".to_string()),
            TokenType::EOF,
        ]
    );
}

#[test]
fn lex_lines_and_columns() {
    let t = tokens("a\n  bc");
    assert_eq!((t[0].line, t[0].column), (1, 0));
    assert_eq!((t[1].line, t[1].column), (2, 4));
    assert_eq!(t[1].raw, "bc");
}

#[test]
fn lex_eof_repeats() {
    let mut lexer = Lexer::new("x".to_string());
    assert_eq!(lexer.next_token().typ, TokenType::Ident("x".to_string()));
    assert_eq!(lexer.next_token().typ, TokenType::EOF);
    assert_eq!(lexer.next_token().typ, TokenType::EOF);
}

#[test]
fn lex_unterminated_template_interpolation() {
    assert_eq!(types("`a${b"), vec![TokenType::SyntaxError, TokenType::EOF]);
}

#[test]
fn every_punctuator_text_lexes_back() {
    type P = TokenPunctuator;
    let all = [
        P::MOV, P::Equal, P::Congruent, P::Plus, P::ADD, P::INC, P::Minus, P::DEC, P::SUB,
        P::Multiply, P::MUL, P::Divide, P::DIV, P::Modulo, P::LParen, P::RParen, P::LCParen,
        P::RCParen, P::LSParen, P::RSParen, P::GT, P::GTE, P::LT, P::LTE, P::NE, P::LShift,
        P::RShift, P::Semicolon, P::Colon, P::Dot, P::Comma, P::BitAnd, P::BitOr, P::BitXor,
        P::BitNot, P::And, P::Or, P::Not,
    ];
    for x in all {
        assert_eq!(types(&x.to_raw()), vec![p(x), TokenType::EOF], "{:?}", x);
    }
}

#[test]
fn modulo_assign_lexes_as_two_tokens() {
    assert_eq!(
        types("%="),
        vec![p(TokenPunctuator::Modulo), p(TokenPunctuator::MOV), TokenType::EOF]
    );
}

#[test]
fn every_keyword_text_lexes_back() {
    type K = TokenKeyword;
    let all = [
        K::Let, K::Const, K::Var, K::If, K::Else, K::Return, K::For, K::In, K::Of, K::Break,
        K::Continue, K::Delete, K::Do, K::Swith, K::Case, K::Default, K::Function, K::While,
    ];
    for k in all {
        assert_eq!(
            types(&k.to_raw()),
            vec![TokenType::Keyword(k), TokenType::EOF],
            "{:?}",
            k
        );
    }
}

#[test]
fn illegal_character_gives_one_illegal_token() {
    assert_eq!(types("#"), vec![TokenType::Illegal, TokenType::EOF]);
}

#[test]
fn non_ascii_letters_and_spaces() {
    // U+3000 is Unicode whitespace; CJK ideographs and 'é' are alphabetic.
    assert_eq!(
        types("变量\u{3000}é1"),
        vec![
            TokenType::Ident("变量".to_string()),
            TokenType::Ident("é1".to_string()),
            TokenType::EOF
        ]
    );
}

#[test]
fn no_more_tokens_than_characters() {
    for src in ["a+b", "  x  ", "let i=0;", "\"s\" `t${u}v`", "1.5e3"] {
        let n = tokens(src).len() - 1;
        assert!(n <= src.chars().count(), "{}", src);
    }
}
