//! The tokens that the lexer produces.

use vstd::prelude::*;
use vstd::string::*;
use crate::text::{push_str, usize_to_decimal, decimal};

verus! {

/// The kind of a token, with its text where it carries one.
#[derive(Debug, PartialEq)]
pub enum TokenType {
    Illegal,
    EOF,
    /// A string or template that ends in the middle of an escape or interpolation.
    SyntaxError,
    /// A number, or the contents of a quoted string.
    Literal(String),
    /// A template: its text pieces and the source of its `${..}` expressions.
    Template(Vec<String>, Vec<String>),
    Ident(String),
    Punctuator(TokenPunctuator),
    Keyword(TokenKeyword),
}

/// Operators and separators.
#[derive(Debug, Clone, Copy, PartialEq, Eq, Structural)]
pub enum TokenPunctuator {
    /// =
    MOV,
    /// ==
    Equal,
    /// ===
    Congruent,
    /// +
    Plus,
    /// +=
    ADD,
    /// ++
    INC,
    /// -
    Minus,
    /// --
    DEC,
    /// -=
    SUB,
    /// *
    Multiply,
    /// *=
    MUL,
    /// /
    Divide,
    /// /=
    DIV,
    /// %
    Modulo,
    /// %=
    MOD,
    /// (
    LParen,
    /// )
    RParen,
    /// {
    LCParen,
    /// }
    RCParen,
    /// [
    LSParen,
    /// ]
    RSParen,
    /// \>
    GT,
    /// \>=
    GTE,
    /// <
    LT,
    /// <=
    LTE,
    /// !=
    NE,
    /// <<
    LShift,
    /// \>>
    RShift,
    /// ;
    Semicolon,
    /// :
    Colon,
    /// .
    Dot,
    /// ,
    Comma,
    /// &
    BitAnd,
    /// |
    BitOr,
    /// ^
    BitXor,
    /// ~
    BitNot,
    /// &&
    And,
    /// ||
    Or,
    /// !
    Not,
}

/// Reserved words.
#[derive(Debug, Clone, Copy, PartialEq, Eq, Structural)]
pub enum TokenKeyword {
    NoKeyword,
    Let,
    Const,
    Var,
    If,
    Else,
    Return,
    For,
    In,
    Of,
    Break,
    Continue,
    Delete,
    Do,
    Swith,
    Case,
    Default,
    Function,
    While,
}

impl TokenPunctuator {
    /// The source text of the punctuator.
    pub open spec fn spec_raw(self) -> Seq<char> {
        match self {
            TokenPunctuator::MOV => "="@,
            TokenPunctuator::Equal => "=="@,
            TokenPunctuator::Congruent => "==="@,
            TokenPunctuator::Plus => "+"@,
            TokenPunctuator::ADD => "+="@,
            TokenPunctuator::INC => "++"@,
            TokenPunctuator::Minus => "-"@,
            TokenPunctuator::DEC => "--"@,
            TokenPunctuator::SUB => "-="@,
            TokenPunctuator::Multiply => "*"@,
            TokenPunctuator::MUL => "*="@,
            TokenPunctuator::Divide => "/"@,
            TokenPunctuator::DIV => "/="@,
            TokenPunctuator::Modulo => "%"@,
            TokenPunctuator::MOD => "%="@,
            TokenPunctuator::LParen => "("@,
            TokenPunctuator::RParen => ")"@,
            TokenPunctuator::LCParen => "{"@,
            TokenPunctuator::RCParen => "}"@,
            TokenPunctuator::LSParen => "["@,
            TokenPunctuator::RSParen => "]"@,
            TokenPunctuator::GT => ">"@,
            TokenPunctuator::GTE => ">="@,
            TokenPunctuator::LT => "<"@,
            TokenPunctuator::LTE => "<="@,
            TokenPunctuator::NE => "!="@,
            TokenPunctuator::LShift => "<<"@,
            TokenPunctuator::RShift => ">>"@,
            TokenPunctuator::Semicolon => ";"@,
            TokenPunctuator::Colon => ":"@,
            TokenPunctuator::Dot => "."@,
            TokenPunctuator::Comma => ","@,
            TokenPunctuator::BitAnd => "&"@,
            TokenPunctuator::BitOr => "|"@,
            TokenPunctuator::BitXor => "^"@,
            TokenPunctuator::BitNot => "~"@,
            TokenPunctuator::And => "&&"@,
            TokenPunctuator::Or => "||"@,
            TokenPunctuator::Not => "!"@,
        }
    }

    /// Binary and logical operators that take part in precedence climbing.
    pub open spec fn spec_is_precedence(self) -> bool {
        match self {
            TokenPunctuator::Plus | TokenPunctuator::Minus
            | TokenPunctuator::Multiply | TokenPunctuator::Divide
            | TokenPunctuator::Or | TokenPunctuator::And | TokenPunctuator::Not
            | TokenPunctuator::LShift | TokenPunctuator::RShift
            | TokenPunctuator::Equal | TokenPunctuator::NE
            | TokenPunctuator::GT | TokenPunctuator::GTE
            | TokenPunctuator::LT | TokenPunctuator::LTE
            | TokenPunctuator::BitOr | TokenPunctuator::BitXor
            | TokenPunctuator::BitAnd => true,
            _ => false,
        }
    }

    /// Prefix operators: `~ ! + -`.
    pub open spec fn spec_is_unary(self) -> bool {
        match self {
            TokenPunctuator::BitNot | TokenPunctuator::Not
            | TokenPunctuator::Plus | TokenPunctuator::Minus => true,
            _ => false,
        }
    }

    pub fn to_raw(&self) -> (r: String)
        ensures
            r@ == self.spec_raw(),
    {
        match self {
            TokenPunctuator::MOV => String::from_str("="),
            TokenPunctuator::Equal => String::from_str("=="),
            TokenPunctuator::Congruent => String::from_str("==="),
            TokenPunctuator::Plus => String::from_str("+"),
            TokenPunctuator::ADD => String::from_str("+="),
            TokenPunctuator::INC => String::from_str("++"),
            TokenPunctuator::Minus => String::from_str("-"),
            TokenPunctuator::DEC => String::from_str("--"),
            TokenPunctuator::SUB => String::from_str("-="),
            TokenPunctuator::Multiply => String::from_str("*"),
            TokenPunctuator::MUL => String::from_str("*="),
            TokenPunctuator::Divide => String::from_str("/"),
            TokenPunctuator::DIV => String::from_str("/="),
            TokenPunctuator::Modulo => String::from_str("%"),
            TokenPunctuator::MOD => String::from_str("%="),
            TokenPunctuator::LParen => String::from_str("("),
            TokenPunctuator::RParen => String::from_str(")"),
            TokenPunctuator::LCParen => String::from_str("{"),
            TokenPunctuator::RCParen => String::from_str("}"),
            TokenPunctuator::LSParen => String::from_str("["),
            TokenPunctuator::RSParen => String::from_str("]"),
            TokenPunctuator::GT => String::from_str(">"),
            TokenPunctuator::GTE => String::from_str(">="),
            TokenPunctuator::LT => String::from_str("<"),
            TokenPunctuator::LTE => String::from_str("<="),
            TokenPunctuator::NE => String::from_str("!="),
            TokenPunctuator::LShift => String::from_str("<<"),
            TokenPunctuator::RShift => String::from_str(">>"),
            TokenPunctuator::Semicolon => String::from_str(";"),
            TokenPunctuator::Colon => String::from_str(":"),
            TokenPunctuator::Dot => String::from_str("."),
            TokenPunctuator::Comma => String::from_str(","),
            TokenPunctuator::BitAnd => String::from_str("&"),
            TokenPunctuator::BitOr => String::from_str("|"),
            TokenPunctuator::BitXor => String::from_str("^"),
            TokenPunctuator::BitNot => String::from_str("~"),
            TokenPunctuator::And => String::from_str("&&"),
            TokenPunctuator::Or => String::from_str("||"),
            TokenPunctuator::Not => String::from_str("!"),
        }
    }

    pub fn is_precedence(&self) -> (r: bool)
        ensures
            r == self.spec_is_precedence(),
    {
        match self {
            TokenPunctuator::Plus | TokenPunctuator::Minus => true,
            TokenPunctuator::Multiply | TokenPunctuator::Divide => true,
            TokenPunctuator::Or => true,
            TokenPunctuator::And => true,
            TokenPunctuator::Not => true,
            TokenPunctuator::LShift | TokenPunctuator::RShift => true,
            TokenPunctuator::Equal | TokenPunctuator::NE => true,
            TokenPunctuator::GT | TokenPunctuator::GTE
            | TokenPunctuator::LT | TokenPunctuator::LTE => true,
            TokenPunctuator::BitOr => true,
            TokenPunctuator::BitXor => true,
            TokenPunctuator::BitAnd => true,
            _ => false,
        }
    }

    pub fn is_unary(&self) -> (r: bool)
        ensures
            r == self.spec_is_unary(),
    {
        match self {
            TokenPunctuator::BitNot | TokenPunctuator::Not
            | TokenPunctuator::Plus | TokenPunctuator::Minus => true,
            _ => false,
        }
    }
}

impl TokenKeyword {
    /// The source text of the keyword (empty for `NoKeyword`).
    pub open spec fn spec_raw(self) -> Seq<char> {
        match self {
            TokenKeyword::NoKeyword => ""@,
            TokenKeyword::Let => "let"@,
            TokenKeyword::Const => "const"@,
            TokenKeyword::Var => "var"@,
            TokenKeyword::If => "if"@,
            TokenKeyword::Else => "else"@,
            TokenKeyword::Return => "return"@,
            TokenKeyword::For => "for"@,
            TokenKeyword::In => "in"@,
            TokenKeyword::Of => "of"@,
            TokenKeyword::Break => "break"@,
            TokenKeyword::Continue => "continue"@,
            TokenKeyword::Delete => "delete"@,
            TokenKeyword::Do => "do"@,
            TokenKeyword::Swith => "switch"@,
            TokenKeyword::Case => "case"@,
            TokenKeyword::Default => "default"@,
            TokenKeyword::Function => "function"@,
            TokenKeyword::While => "while"@,
        }
    }

    pub fn to_raw(&self) -> (r: String)
        ensures
            r@ == self.spec_raw(),
    {
        match self {
            TokenKeyword::NoKeyword => String::from_str(""),
            TokenKeyword::Let => String::from_str("let"),
            TokenKeyword::Const => String::from_str("const"),
            TokenKeyword::Var => String::from_str("var"),
            TokenKeyword::If => String::from_str("if"),
            TokenKeyword::Else => String::from_str("else"),
            TokenKeyword::Return => String::from_str("return"),
            TokenKeyword::For => String::from_str("for"),
            TokenKeyword::In => String::from_str("in"),
            TokenKeyword::Of => String::from_str("of"),
            TokenKeyword::Break => String::from_str("break"),
            TokenKeyword::Continue => String::from_str("continue"),
            TokenKeyword::Delete => String::from_str("delete"),
            TokenKeyword::Do => String::from_str("do"),
            TokenKeyword::Swith => String::from_str("switch"),
            TokenKeyword::Case => String::from_str("case"),
            TokenKeyword::Default => String::from_str("default"),
            TokenKeyword::Function => String::from_str("function"),
            TokenKeyword::While => String::from_str("while"),
        }
    }
}

/// The value of a token type, with text and text lists as sequences.
pub ghost enum TokenTypeView {
    Illegal,
    EOF,
    SyntaxError,
    Literal(Seq<char>),
    Template(Seq<Seq<char>>, Seq<Seq<char>>),
    Ident(Seq<char>),
    Punctuator(TokenPunctuator),
    Keyword(TokenKeyword),
}

/// The views of a list of strings.
pub open spec fn strings_view(v: Seq<String>) -> Seq<Seq<char>> {
    v.map_values(|s: String| s@)
}

impl View for TokenType {
    type V = TokenTypeView;

    open spec fn view(&self) -> TokenTypeView {
        match self {
            TokenType::Illegal => TokenTypeView::Illegal,
            TokenType::EOF => TokenTypeView::EOF,
            TokenType::SyntaxError => TokenTypeView::SyntaxError,
            TokenType::Literal(t) => TokenTypeView::Literal(t@),
            TokenType::Template(a, b) => TokenTypeView::Template(strings_view(a@), strings_view(b@)),
            TokenType::Ident(t) => TokenTypeView::Ident(t@),
            TokenType::Punctuator(p) => TokenTypeView::Punctuator(*p),
            TokenType::Keyword(k) => TokenTypeView::Keyword(*k),
        }
    }
}

impl TokenTypeView {
    /// Whether this is the given punctuator.
    pub open spec fn is_ptor(self, p: TokenPunctuator) -> bool {
        self == TokenTypeView::Punctuator(p)
    }

    /// Whether this is the given keyword.
    pub open spec fn is_keyword(self, k: TokenKeyword) -> bool {
        self == TokenTypeView::Keyword(k)
    }

    /// The end of input, or with `is_semicolon` also a `;`.
    pub open spec fn is_eof(self, is_semicolon: bool) -> bool {
        ||| self is EOF
        ||| (is_semicolon && self == TokenTypeView::Punctuator(TokenPunctuator::Semicolon))
    }

    /// `!`, `~`, `+` or `-`.
    pub open spec fn is_unary(self) -> bool {
        self matches TokenTypeView::Punctuator(p) && p.spec_is_unary()
    }

    /// `++` or `--`.
    pub open spec fn is_update(self) -> bool {
        self.is_ptor(TokenPunctuator::INC) || self.is_ptor(TokenPunctuator::DEC)
    }

    /// A punctuator that can continue an expression after an identifier:
    /// an operator that has a binding power, or one of `( [ .`.
    pub open spec fn is_complex(self) -> bool {
        self matches TokenTypeView::Punctuator(p) && match p {
            TokenPunctuator::Plus | TokenPunctuator::Minus | TokenPunctuator::Modulo
            | TokenPunctuator::Multiply | TokenPunctuator::Divide
            | TokenPunctuator::Or | TokenPunctuator::And | TokenPunctuator::Not
            | TokenPunctuator::LShift | TokenPunctuator::RShift
            | TokenPunctuator::Equal | TokenPunctuator::NE
            | TokenPunctuator::GT | TokenPunctuator::GTE
            | TokenPunctuator::LT | TokenPunctuator::LTE
            | TokenPunctuator::BitOr | TokenPunctuator::BitXor | TokenPunctuator::BitAnd
            | TokenPunctuator::ADD | TokenPunctuator::SUB
            | TokenPunctuator::MUL | TokenPunctuator::DIV
            | TokenPunctuator::LParen | TokenPunctuator::LSParen | TokenPunctuator::Dot => true,
            _ => false,
        }
    }

    /// The text that a token of this type records as its `raw`.
    pub open spec fn raw(self) -> Seq<char> {
        match self {
            TokenTypeView::Illegal => "Illegal"@,
            TokenTypeView::EOF => "EOF"@,
            TokenTypeView::SyntaxError => "SyntaxError"@,
            TokenTypeView::Template(_, _) => "Template"@,
            TokenTypeView::Punctuator(t) => t.spec_raw(),
            TokenTypeView::Keyword(t) => t.spec_raw(),
            TokenTypeView::Literal(t) => t,
            TokenTypeView::Ident(t) => t,
        }
    }
}

impl TokenType {
    /// The text that a token of this type records as its `raw`.
    pub open spec fn spec_raw(&self) -> Seq<char> {
        self@.raw()
    }

    pub fn to_raw(&self) -> (r: String)
        ensures
            r@ == self.spec_raw(),
    {
        match self {
            TokenType::Illegal => String::from_str("Illegal"),
            TokenType::EOF => String::from_str("EOF"),
            TokenType::SyntaxError => String::from_str("SyntaxError"),
            TokenType::Template(_, _) => String::from_str("Template"),
            TokenType::Punctuator(t) => t.to_raw(),
            TokenType::Keyword(t) => t.to_raw(),
            TokenType::Literal(t) => t.clone(),
            TokenType::Ident(t) => t.clone(),
        }
    }
}

impl Clone for TokenType {
    fn clone(&self) -> (r: Self)
        ensures
            r@ == self@,
    {
        match self {
            TokenType::Illegal => TokenType::Illegal,
            TokenType::EOF => TokenType::EOF,
            TokenType::SyntaxError => TokenType::SyntaxError,
            TokenType::Literal(t) => TokenType::Literal(t.clone()),
            TokenType::Template(a, b) => {
                let a2 = a.clone();
                let b2 = b.clone();
                assert(a2@ =~= a@);
                assert(b2@ =~= b@);
                TokenType::Template(a2, b2)
            },
            TokenType::Ident(t) => TokenType::Ident(t.clone()),
            TokenType::Punctuator(t) => TokenType::Punctuator(*t),
            TokenType::Keyword(t) => TokenType::Keyword(*t),
        }
    }
}

/// How the token listing shows a token of type `t` (an illegal token is not
/// shown).
pub open spec fn display_of(t: TokenTypeView) -> Seq<char> {
    match t {
        TokenTypeView::Ident(x) => "<\u{1b}[31m"@ + x + "\u{1b}[39m> "@,
        TokenTypeView::Punctuator(p) => "<\u{1b}[36m"@ + p.spec_raw() + "\u{1b}[39m> "@,
        TokenTypeView::Keyword(k) => "<key:\u{1b}[33m"@ + k.spec_raw() + "\u{1b}[39m> "@,
        TokenTypeView::Literal(x) => "<\u{1b}[35m"@ + x + "\u{1b}[39m> "@,
        TokenTypeView::Template(_, _) => "<temp:\u{1b}[33mTemplate\u{1b}[39m> "@,
        TokenTypeView::SyntaxError => "<SyntaxError> "@,
        _ => Seq::empty(),
    }
}

/// A token with its kind, its text and where it was read.
#[derive(Debug)]
pub struct Token {
    pub raw: String,
    pub typ: TokenType,
    pub line: usize,
    pub column: usize,
}

impl Clone for Token {
    fn clone(&self) -> (r: Self)
        ensures
            r.raw@ == self.raw@,
            r.typ@ == self.typ@,
            r.line == self.line,
            r.column == self.column,
    {
        Token { raw: self.raw.clone(), typ: self.typ.clone(), line: self.line, column: self.column }
    }
}

/// The text that `format!("{:?}", ..)` gives for a token type of this value.
pub uninterp spec fn token_type_debug_text(t: TokenTypeView) -> Seq<char>;

/// Formats the type with its `Debug` form.
///
/// Trusted: calls `format!("{:?}", typ)`. The text is named
/// `token_type_debug_text` of the type's value; nothing more is claimed of it.
#[verifier::external_body]
fn debug_text(typ: &TokenType) -> (r: String)
    ensures
        r@ == token_type_debug_text(typ@),
{
    format!("{:?}", typ)
}

/// The description of a token of type `t` at `line` and `column`.
pub open spec fn token_desc(t: TokenTypeView, line: nat, column: nat) -> Seq<char> {
    token_type_debug_text(t) + ",line:"@ + decimal(line) + ",column:"@ + decimal(column)
}

impl Token {
    /// Whether this token is the given punctuator.
    pub open spec fn spec_is_ptor(self, p: TokenPunctuator) -> bool {
        self.typ@.is_ptor(p)
    }

    /// Whether this token is the given keyword.
    pub open spec fn spec_is_keyword(self, k: TokenKeyword) -> bool {
        self.typ@.is_keyword(k)
    }

    pub open spec fn spec_is_ident(self) -> bool {
        self.typ@ is Ident
    }

    pub open spec fn spec_is_literal(self) -> bool {
        self.typ@ is Literal
    }

    pub open spec fn spec_is_eof(self, is_semicolon: bool) -> bool {
        self.typ@.is_eof(is_semicolon)
    }

    pub open spec fn spec_is_unary(self) -> bool {
        self.typ@.is_unary()
    }

    pub open spec fn spec_is_precedence(self) -> bool {
        self.typ@ matches TokenTypeView::Punctuator(p) && p.spec_is_precedence()
    }

    pub open spec fn spec_is_update(self) -> bool {
        self.typ@.is_update()
    }

    /// A punctuator that can continue an expression after an identifier.
    pub open spec fn spec_is_complex(self) -> bool {
        self.typ@.is_complex()
    }

    /// A token whose `raw` is the text of its type.
    pub open spec fn wf(self) -> bool {
        self.raw@ == self.typ@.raw()
    }

    pub fn new(typ: TokenType, line: usize, column: usize) -> (r: Token)
        ensures
            r.typ == typ,
            r.line == line,
            r.column == column,
            r.raw@ == typ.spec_raw(),
    {
        let raw = typ.to_raw();
        Token { typ, line, column, raw }
    }

    /// The token's type in its `Debug` form, then its line and column.
    pub fn desc(&self) -> (r: String)
        ensures
            r@ == token_desc(self.typ@, self.line as nat, self.column as nat),
    {
        let mut r = debug_text(&self.typ);
        let ghost d = r@;
        push_str(&mut r, ",line:");
        let l = usize_to_decimal(self.line);
        push_str(&mut r, l.as_str());
        push_str(&mut r, ",column:");
        let c = usize_to_decimal(self.column);
        push_str(&mut r, c.as_str());
        assert(r@ == d + ",line:"@ + decimal(self.line as nat) + ",column:"@
            + decimal(self.column as nat));
        r
    }

    /// The token as the token listing shows it: coloured and in angle
    /// brackets, nothing for the end of input.
    pub fn display_text(&self) -> (r: String)
        requires
            !(self.typ@ is Illegal),
        ensures
            r@ == display_of(self.typ@),
    {
        match &self.typ {
            TokenType::EOF => String::new(),
            TokenType::Ident(t) => {
                let mut r = String::from_str("<\u{1b}[31m");
                push_str(&mut r, t.as_str());
                push_str(&mut r, "\u{1b}[39m> ");
                r
            },
            TokenType::Punctuator(p) => {
                let mut r = String::from_str("<\u{1b}[36m");
                let t = p.to_raw();
                push_str(&mut r, t.as_str());
                push_str(&mut r, "\u{1b}[39m> ");
                r
            },
            TokenType::Keyword(k) => {
                let mut r = String::from_str("<key:\u{1b}[33m");
                let t = k.to_raw();
                push_str(&mut r, t.as_str());
                push_str(&mut r, "\u{1b}[39m> ");
                r
            },
            TokenType::Literal(t) => {
                let mut r = String::from_str("<\u{1b}[35m");
                push_str(&mut r, t.as_str());
                push_str(&mut r, "\u{1b}[39m> ");
                r
            },
            TokenType::Template(_, _) => String::from_str("<temp:\u{1b}[33mTemplate\u{1b}[39m> "),
            TokenType::SyntaxError => String::from_str("<SyntaxError> "),
            TokenType::Illegal => String::new(),
        }
    }

    pub fn checked_keyword(&self) -> (r: bool)
        ensures
            r == (self.typ@ is Keyword),
    {
        match &self.typ {
            TokenType::Keyword(_) => true,
            _ => false,
        }
    }

    pub fn is_keyword(&self, key: TokenKeyword) -> (r: bool)
        ensures
            r == self.spec_is_keyword(key),
    {
        match &self.typ {
            TokenType::Keyword(t) => key == *t,
            _ => false,
        }
    }

    pub fn is_precedence(&self) -> (r: bool)
        ensures
            r == self.spec_is_precedence(),
    {
        match &self.typ {
            TokenType::Punctuator(t) => t.is_precedence(),
            _ => false,
        }
    }

    /// Comparison and shift operators.
    pub fn is_binary(&self) -> (r: bool)
        ensures
            r == (self.typ@ matches TokenTypeView::Punctuator(p) && (
                p == TokenPunctuator::Equal || p == TokenPunctuator::Congruent
                || p == TokenPunctuator::GT || p == TokenPunctuator::GTE
                || p == TokenPunctuator::LT || p == TokenPunctuator::LTE
                || p == TokenPunctuator::NE || p == TokenPunctuator::LShift
                || p == TokenPunctuator::RShift)),
    {
        match &self.typ {
            TokenType::Punctuator(t) => match t {
                TokenPunctuator::Equal | TokenPunctuator::Congruent
                | TokenPunctuator::GT | TokenPunctuator::GTE
                | TokenPunctuator::LT | TokenPunctuator::LTE
                | TokenPunctuator::NE | TokenPunctuator::LShift
                | TokenPunctuator::RShift => true,
                _ => false,
            },
            _ => false,
        }
    }

    /// `&&` and `||`.
    pub fn is_logical(&self) -> (r: bool)
        ensures
            r == (self.spec_is_ptor(TokenPunctuator::And) || self.spec_is_ptor(TokenPunctuator::Or)),
    {
        match &self.typ {
            TokenType::Punctuator(t) => match t {
                TokenPunctuator::And | TokenPunctuator::Or => true,
                _ => false,
            },
            _ => false,
        }
    }

    /// `++` and `--`.
    pub fn is_update(&self) -> (r: bool)
        ensures
            r == self.spec_is_update(),
    {
        match &self.typ {
            TokenType::Punctuator(t) => match t {
                TokenPunctuator::INC | TokenPunctuator::DEC => true,
                _ => false,
            },
            _ => false,
        }
    }

    /// The end of input, or a `;` when `is_semicolon` is set.
    pub fn is_eof(&self, is_semicolon: bool) -> (r: bool)
        ensures
            r == self.spec_is_eof(is_semicolon),
    {
        match &self.typ {
            TokenType::EOF => true,
            TokenType::Punctuator(t) => match t {
                TokenPunctuator::Semicolon => is_semicolon,
                _ => false,
            },
            _ => false,
        }
    }

    pub fn is_ptor(&self, ptor: TokenPunctuator) -> (r: bool)
        ensures
            r == self.spec_is_ptor(ptor),
    {
        match &self.typ {
            TokenType::Punctuator(t) => ptor == *t,
            _ => false,
        }
    }

    pub fn is_unary(&self) -> (r: bool)
        ensures
            r == self.spec_is_unary(),
    {
        match &self.typ {
            TokenType::Punctuator(t) => t.is_unary(),
            _ => false,
        }
    }

    pub fn is_ident(&self) -> (r: bool)
        ensures
            r == self.spec_is_ident(),
    {
        match &self.typ {
            TokenType::Ident(_) => true,
            _ => false,
        }
    }

    pub fn is_literal(&self) -> (r: bool)
        ensures
            r == self.spec_is_literal(),
    {
        match &self.typ {
            TokenType::Literal(_) => true,
            _ => false,
        }
    }

    /// An identifier or a literal.
    pub fn is_ident_num_is_literal_template(&self) -> (r: bool)
        ensures
            r == (self.spec_is_ident() || self.spec_is_literal()),
    {
        self.is_ident() || self.is_literal() || self.is_literal() || self.is_template_literal()
    }

    /// Always false: no token type is classed as a template literal here.
    pub fn is_template_literal(&self) -> (r: bool)
        ensures
            !r,
    {
        false
    }

    pub fn is_complex(&self) -> (r: bool)
        ensures
            r == self.spec_is_complex(),
    {
        match &self.typ {
            TokenType::Punctuator(t) => match t {
                TokenPunctuator::Plus | TokenPunctuator::Minus | TokenPunctuator::Modulo
                | TokenPunctuator::Multiply | TokenPunctuator::Divide
                | TokenPunctuator::Or | TokenPunctuator::And | TokenPunctuator::Not
                | TokenPunctuator::LShift | TokenPunctuator::RShift
                | TokenPunctuator::Equal | TokenPunctuator::NE
                | TokenPunctuator::GT | TokenPunctuator::GTE
                | TokenPunctuator::LT | TokenPunctuator::LTE
                | TokenPunctuator::BitOr | TokenPunctuator::BitXor | TokenPunctuator::BitAnd
                | TokenPunctuator::ADD | TokenPunctuator::SUB
                | TokenPunctuator::MUL | TokenPunctuator::DIV
                | TokenPunctuator::LParen | TokenPunctuator::LSParen | TokenPunctuator::Dot => true,
                _ => false,
            },
            _ => false,
        }
    }
}

} // verus!
