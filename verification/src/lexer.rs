//! Turns JavaScript source text into tokens, one token per call.

use vstd::prelude::*;
use vstd::string::*;
use crate::text::push_char;
use crate::token::{Token, TokenKeyword, TokenPunctuator, TokenType, TokenTypeView};

verus! {

// ---------------------------------------------------------------------------
// Character classes
// ---------------------------------------------------------------------------

/// The characters outside ASCII with the Unicode White_Space property, which
/// `char::is_whitespace` tests: next line, no-break space, ogham space mark,
/// the spaces from en quad to hair space, line and paragraph separator,
/// narrow no-break space, medium mathematical space and ideographic space.
pub open spec fn unicode_whitespace(c: char) -> bool {
    ||| c == '\u{85}'
    ||| c == '\u{a0}'
    ||| c == '\u{1680}'
    ||| ('\u{2000}' <= c && c <= '\u{200a}')
    ||| c == '\u{2028}'
    ||| c == '\u{2029}'
    ||| c == '\u{202f}'
    ||| c == '\u{205f}'
    ||| c == '\u{3000}'
}

/// What `char::is_alphabetic` returns for a character outside ASCII (the
/// Unicode Alphabetic property).
pub uninterp spec fn unicode_alphabetic(c: char) -> bool;

/// Calls `char::is_whitespace` on a character outside ASCII.
///
/// Trusted: the result is true exactly on the White_Space characters that
/// `unicode_whitespace` lists.
#[verifier::external_body]
fn unicode_is_whitespace(c: char) -> (r: bool)
    requires
        c > '\u{7f}',
    ensures
        r == unicode_whitespace(c),
{
    c.is_whitespace()
}

/// Calls `char::is_alphabetic` on a character outside ASCII.
///
/// Trusted: the result is named `unicode_alphabetic(c)`; the Unicode table it
/// consults is not restated here. No White_Space character is Alphabetic (the
/// characters that `unicode_whitespace` lists are spaces and separators).
#[verifier::external_body]
fn unicode_is_alphabetic(c: char) -> (r: bool)
    requires
        c > '\u{7f}',
    ensures
        r == unicode_alphabetic(c),
        unicode_whitespace(c) ==> !r,
{
    c.is_alphabetic()
}

/// Whitespace as `char::is_whitespace` decides: in ASCII the space and the
/// characters from tab to carriage return, elsewhere the White_Space property.
pub open spec fn char_is_whitespace(c: char) -> bool {
    if c <= '\u{7f}' {
        c == ' ' || ('\u{9}' <= c && c <= '\u{d}')
    } else {
        unicode_whitespace(c)
    }
}

/// Letters as `char::is_alphabetic` decides: in ASCII the Latin letters,
/// elsewhere the Alphabetic property.
pub open spec fn char_is_alphabetic(c: char) -> bool {
    if c <= '\u{7f}' {
        ('a' <= c && c <= 'z') || ('A' <= c && c <= 'Z')
    } else {
        unicode_alphabetic(c)
    }
}

fn is_whitespace(c: char) -> (r: bool)
    ensures
        r == char_is_whitespace(c),
{
    if c <= '\u{7f}' {
        c == ' ' || ('\u{9}' <= c && c <= '\u{d}')
    } else {
        unicode_is_whitespace(c)
    }
}

fn is_alphabetic(c: char) -> (r: bool)
    ensures
        r == char_is_alphabetic(c),
{
    if c <= '\u{7f}' {
        ('a' <= c && c <= 'z') || ('A' <= c && c <= 'Z')
    } else {
        unicode_is_alphabetic(c)
    }
}

/// A decimal digit, as `char::is_digit(10)` decides.
pub open spec fn is_digit(c: char) -> bool {
    '0' <= c && c <= '9'
}

/// A character that may continue a number: a digit or `.`.
pub open spec fn is_number_char(c: char) -> bool {
    is_digit(c) || c == '.'
}

/// A character that may continue an identifier.
pub open spec fn is_ident_char(c: char) -> bool {
    c == '$' || c == '_' || char_is_alphabetic(c) || is_digit(c)
}

/// The characters that the lexer reads as the start of a punctuator before it
/// looks at digits and letters.
pub open spec fn is_punct_start(c: char) -> bool {
    c == '=' || c == '+' || c == '-' || c == '*' || c == '/' || c == '%'
    || c == '(' || c == ')' || c == '{' || c == '}' || c == '[' || c == ']'
    || c == ';' || c == ':' || c == '.' || c == ',' || c == '^' || c == '~'
    || c == '&' || c == '|' || c == '!'
}

pub open spec fn is_quote(c: char) -> bool {
    c == '`' || c == '"' || c == '\''
}

// ---------------------------------------------------------------------------
// Positions
// ---------------------------------------------------------------------------

/// The character at `i`, if there is one.
pub open spec fn char_at(src: Seq<char>, i: int) -> Option<char> {
    if 0 <= i < src.len() { Some(src[i]) } else { None }
}

/// The number of line breaks in `s`.
pub open spec fn count_newlines(s: Seq<char>) -> nat
    decreases s.len(),
{
    if s.len() == 0 {
        0
    } else {
        count_newlines(s.drop_last()) + if s.last() == '\n' { 1nat } else { 0nat }
    }
}

/// The number of characters after the last line break in `s`.
pub open spec fn chars_since_newline(s: Seq<char>) -> nat
    decreases s.len(),
{
    if s.len() == 0 {
        0
    } else if s.last() == '\n' {
        0
    } else {
        chars_since_newline(s.drop_last()) + 1
    }
}

/// How many characters have been read when the cursor stands at `p`: the
/// cursor's own character is read, and at the end every character is.
pub open spec fn chars_read(src: Seq<char>, p: int) -> int {
    if p < src.len() { p + 1 } else { src.len() as int }
}

/// The line (from 1) that the lexer reports with the cursor at `p`.
pub closed spec fn line_at(src: Seq<char>, p: int) -> nat {
    1 + count_newlines(src.take(chars_read(src, p)))
}

/// The column that the lexer reports with the cursor at `p`: the number of
/// characters read since the last line break.
pub closed spec fn column_at(src: Seq<char>, p: int) -> nat {
    chars_since_newline(src.take(chars_read(src, p)))
}

// ---------------------------------------------------------------------------
// Scanning
// ---------------------------------------------------------------------------

/// The number of whitespace characters from `i` on.
pub open spec fn whitespace_len(src: Seq<char>, i: int) -> nat
    decreases src.len() - i,
{
    if 0 <= i < src.len() && char_is_whitespace(src[i]) {
        1 + whitespace_len(src, i + 1)
    } else {
        0
    }
}

/// The number of characters a line comment starting at `i` takes, up to and
/// including the line break that ends it.
pub open spec fn line_comment_len(src: Seq<char>, i: int) -> nat
    decreases src.len() - i,
{
    if i < 0 || i >= src.len() {
        0
    } else if src[i] == '\n' {
        1
    } else {
        1 + line_comment_len(src, i + 1)
    }
}

/// The number of characters from `i` up to and including the `*/` that ends a
/// block comment (or to the end of the text).
pub open spec fn block_comment_len(src: Seq<char>, i: int) -> nat
    decreases src.len() - i,
{
    if i < 0 || i >= src.len() {
        0
    } else if src[i] == '*' && char_at(src, i + 1) == Some('/') {
        2
    } else {
        1 + block_comment_len(src, i + 1)
    }
}

/// Where a line comment starts at `s`: `//`, and also `%/`.
pub open spec fn starts_line_comment(src: Seq<char>, s: int) -> bool {
    0 <= s && s + 1 < src.len() && (src[s] == '/' || src[s] == '%') && src[s + 1] == '/'
}

pub open spec fn starts_block_comment(src: Seq<char>, s: int) -> bool {
    0 <= s && s + 1 < src.len() && src[s] == '/' && src[s + 1] == '*'
}

/// The first position from `i` that is neither whitespace nor inside a comment.
pub open spec fn trivia_end(src: Seq<char>, i: int) -> int
    decreases src.len() - i,
{
    if i < 0 || i > src.len() {
        i
    } else {
        let s = i + whitespace_len(src, i);
        if starts_line_comment(src, s) {
            proof {
                lemma_whitespace_len_bound(src, i);
                lemma_line_comment_len_bound(src, s);
            }
            trivia_end(src, s + line_comment_len(src, s))
        } else if starts_block_comment(src, s) {
            proof {
                lemma_whitespace_len_bound(src, i);
                lemma_block_comment_len_bound(src, s + 2);
            }
            trivia_end(src, s + 2 + block_comment_len(src, s + 2))
        } else {
            s
        }
    }
}

pub proof fn lemma_whitespace_len_bound(src: Seq<char>, i: int)
    requires
        0 <= i <= src.len(),
    ensures
        i + whitespace_len(src, i) <= src.len(),
    decreases src.len() - i,
{
    if i < src.len() {
        lemma_whitespace_len_bound(src, i + 1);
    }
}

pub proof fn lemma_line_comment_len_bound(src: Seq<char>, i: int)
    requires
        0 <= i < src.len(),
    ensures
        1 <= line_comment_len(src, i),
        i + line_comment_len(src, i) <= src.len(),
    decreases src.len() - i,
{
    if i + 1 < src.len() {
        lemma_line_comment_len_bound(src, i + 1);
    } else {
        assert(line_comment_len(src, i + 1) == 0);
    }
}

pub proof fn lemma_block_comment_len_bound(src: Seq<char>, i: int)
    requires
        0 <= i <= src.len(),
    ensures
        i + block_comment_len(src, i) <= src.len(),
    decreases src.len() - i,
{
    if i < src.len() {
        lemma_block_comment_len_bound(src, i + 1);
    }
}

/// The end of the run of characters satisfying the number class from `i`.
pub open spec fn number_end(src: Seq<char>, i: int) -> int
    decreases src.len() - i,
{
    if 0 <= i < src.len() && is_number_char(src[i]) {
        number_end(src, i + 1)
    } else {
        i
    }
}

/// The end of the run of identifier characters from `i`.
pub open spec fn ident_end(src: Seq<char>, i: int) -> int
    decreases src.len() - i,
{
    if 0 <= i < src.len() && is_ident_char(src[i]) {
        ident_end(src, i + 1)
    } else {
        i
    }
}

/// The keyword that a word spells, if any.
pub open spec fn keyword_of(w: Seq<char>) -> Option<TokenKeyword> {
    if w == "let"@ { Some(TokenKeyword::Let) }
    else if w == "const"@ { Some(TokenKeyword::Const) }
    else if w == "var"@ { Some(TokenKeyword::Var) }
    else if w == "if"@ { Some(TokenKeyword::If) }
    else if w == "else"@ { Some(TokenKeyword::Else) }
    else if w == "return"@ { Some(TokenKeyword::Return) }
    else if w == "break"@ { Some(TokenKeyword::Break) }
    else if w == "continue"@ { Some(TokenKeyword::Continue) }
    else if w == "for"@ { Some(TokenKeyword::For) }
    else if w == "in"@ { Some(TokenKeyword::In) }
    else if w == "of"@ { Some(TokenKeyword::Of) }
    else if w == "delete"@ { Some(TokenKeyword::Delete) }
    else if w == "do"@ { Some(TokenKeyword::Do) }
    else if w == "switch"@ { Some(TokenKeyword::Swith) }
    else if w == "case"@ { Some(TokenKeyword::Case) }
    else if w == "default"@ { Some(TokenKeyword::Default) }
    else if w == "function"@ { Some(TokenKeyword::Function) }
    else if w == "while"@ { Some(TokenKeyword::While) }
    else { None }
}

/// The outcome of reading one token: its type, the cursor positions at which
/// its line and its column are taken, and where the cursor is left.
pub ghost struct LexStep {
    pub kind: TokenTypeView,
    pub line_pos: int,
    pub col_pos: int,
    pub next: int,
}

pub open spec fn step(kind: TokenTypeView, line_pos: int, col_pos: int, next: int) -> LexStep {
    LexStep { kind, line_pos, col_pos, next }
}

/// A punctuator of one character, read at `s`.
pub open spec fn single(p: TokenPunctuator, s: int) -> LexStep {
    step(TokenTypeView::Punctuator(p), s, s, s + 1)
}

/// A punctuator of two characters, read at `s` and `s + 1`.
pub open spec fn double(p: TokenPunctuator, s: int) -> LexStep {
    step(TokenTypeView::Punctuator(p), s + 1, s + 1, s + 2)
}

/// A punctuator read at `s`, given the character `c` there and the one after it.
pub open spec fn punct_step(src: Seq<char>, s: int) -> LexStep {
    let c = src[s];
    let n = char_at(src, s + 1);
    if c == '=' {
        if n == Some('=') {
            if char_at(src, s + 2) == Some('=') {
                step(TokenTypeView::Punctuator(TokenPunctuator::Congruent), s + 3, s + 3, s + 3)
            } else {
                step(TokenTypeView::Punctuator(TokenPunctuator::Equal), s + 2, s + 2, s + 2)
            }
        } else {
            step(TokenTypeView::Punctuator(TokenPunctuator::MOV), s + 1, s + 1, s + 1)
        }
    } else if c == '+' {
        if n == Some('=') { double(TokenPunctuator::ADD, s) }
        else if n == Some('+') { double(TokenPunctuator::INC, s) }
        else { single(TokenPunctuator::Plus, s) }
    } else if c == '-' {
        if n == Some('=') { double(TokenPunctuator::SUB, s) }
        else if n == Some('-') { double(TokenPunctuator::DEC, s) }
        else { single(TokenPunctuator::Minus, s) }
    } else if c == '*' {
        if n == Some('=') { double(TokenPunctuator::MUL, s) } else { single(TokenPunctuator::Multiply, s) }
    } else if c == '/' {
        if n == Some('=') { double(TokenPunctuator::DIV, s) } else { single(TokenPunctuator::Divide, s) }
    } else if c == '%' {
        single(TokenPunctuator::Modulo, s)
    } else if c == '(' {
        single(TokenPunctuator::LParen, s)
    } else if c == ')' {
        single(TokenPunctuator::RParen, s)
    } else if c == '{' {
        single(TokenPunctuator::LCParen, s)
    } else if c == '}' {
        single(TokenPunctuator::RCParen, s)
    } else if c == '[' {
        single(TokenPunctuator::LSParen, s)
    } else if c == ']' {
        single(TokenPunctuator::RSParen, s)
    } else if c == ';' {
        single(TokenPunctuator::Semicolon, s)
    } else if c == ':' {
        single(TokenPunctuator::Colon, s)
    } else if c == '.' {
        single(TokenPunctuator::Dot, s)
    } else if c == ',' {
        single(TokenPunctuator::Comma, s)
    } else if c == '^' {
        single(TokenPunctuator::BitXor, s)
    } else if c == '~' {
        single(TokenPunctuator::BitNot, s)
    } else if c == '&' {
        if n == Some('&') { double(TokenPunctuator::And, s) } else { single(TokenPunctuator::BitAnd, s) }
    } else if c == '|' {
        if n == Some('|') { double(TokenPunctuator::Or, s) } else { single(TokenPunctuator::BitOr, s) }
    } else if c == '!' {
        if n == Some('=') { double(TokenPunctuator::NE, s) } else { single(TokenPunctuator::Not, s) }
    } else if c == '>' {
        if n == Some('=') { double(TokenPunctuator::GTE, s) }
        else if n == Some('>') { double(TokenPunctuator::RShift, s) }
        else { single(TokenPunctuator::GT, s) }
    } else {
        if n == Some('=') { double(TokenPunctuator::LTE, s) }
        else if n == Some('<') { double(TokenPunctuator::LShift, s) }
        else { single(TokenPunctuator::LT, s) }
    }
}

/// The token type that closes a quoted string: a template collects its last
/// text piece if that is not empty.
pub open spec fn string_kind(
    is_template: bool,
    text: Seq<char>,
    pieces: Seq<Seq<char>>,
    exprs: Seq<Seq<char>>,
) -> TokenTypeView {
    if is_template {
        TokenTypeView::Template(if text.len() > 0 { pieces.push(text) } else { pieces }, exprs)
    } else {
        TokenTypeView::Literal(text)
    }
}

/// Reads the body of a string or template quoted by `q`, from the cursor `i`.
/// `depth` is the number of open braces inside a `${..}` (0 outside one);
/// `text` is the text gathered since the last piece ended; `pieces` and `exprs`
/// are the template's text pieces and expression sources so far.
/// The result is the token type and the cursor where reading stopped.
pub open spec fn scan_string(
    src: Seq<char>,
    q: char,
    is_template: bool,
    i: int,
    depth: nat,
    text: Seq<char>,
    pieces: Seq<Seq<char>>,
    exprs: Seq<Seq<char>>,
) -> (TokenTypeView, int)
    decreases src.len() - i,
{
    if i < 0 || i >= src.len() {
        if depth > 0 {
            (TokenTypeView::SyntaxError, src.len() as int)
        } else {
            (string_kind(is_template, text, pieces, exprs), src.len() as int)
        }
    } else if depth > 0 {
        let c = src[i];
        if c == '{' {
            scan_string(src, q, is_template, i + 1, depth + 1, text, pieces, exprs)
        } else if c == '}' {
            if depth == 1 {
                scan_string(src, q, is_template, i + 1, 0, seq![], pieces, exprs.push(text))
            } else {
                scan_string(src, q, is_template, i + 1, (depth - 1) as nat, text, pieces, exprs)
            }
        } else {
            scan_string(src, q, is_template, i + 1, depth, text.push(c), pieces, exprs)
        }
    } else {
        let c = src[i];
        let n = char_at(src, i + 1);
        if c == '\\' && n is None {
            (TokenTypeView::SyntaxError, i)
        } else if c == '\\' && n == Some(q) {
            scan_string(src, q, is_template, i + 2, 0, text.push(q), pieces, exprs)
        } else if c == '\\' && n == Some('\n') {
            scan_string(src, q, is_template, i + 2, 0, text, pieces, exprs)
        } else if is_template && c == '$' && n is None {
            (TokenTypeView::SyntaxError, i)
        } else if is_template && c == '$' && n == Some('{') {
            scan_string(src, q, is_template, i + 2, 1, seq![], pieces.push(text), exprs)
        } else if is_template && c == '$' {
            (string_kind(is_template, text, pieces, exprs), i)
        } else if c == q {
            (string_kind(is_template, text, pieces, exprs), i + 1)
        } else {
            scan_string(src, q, is_template, i + 1, 0, text.push(c), pieces, exprs)
        }
    }
}

/// A string or template whose opening quote is at `s`.
pub open spec fn string_step(src: Seq<char>, s: int) -> LexStep {
    let q = src[s];
    let r = scan_string(src, q, q == '`', s + 1, 0, seq![], seq![], seq![]);
    step(r.0, s + 1, r.1, r.1)
}

/// The token that the lexer reads with its cursor at `cur`. Its definition
/// is `lex_body`, which `reveal_lex` hands to callers that compute a token.
pub closed spec fn lex(src: Seq<char>, cur: int) -> LexStep {
    lex_body(src, cur)
}

/// `lex` is `lex_body`.
pub proof fn reveal_lex(src: Seq<char>, cur: int)
    ensures
        lex(src, cur) == lex_body(src, cur),
{
}

/// `line_at` and `column_at` count the line breaks before the characters read,
/// and the characters read since the last one.
pub proof fn reveal_position(src: Seq<char>, p: int)
    ensures
        line_at(src, p) == 1 + count_newlines(src.take(chars_read(src, p))),
        column_at(src, p) == chars_since_newline(src.take(chars_read(src, p))),
{
}

/// What the lexer reads with its cursor at `cur`: the trivia (whitespace and
/// comments) is skipped, and the first character after it decides the kind
/// of token.
pub open spec fn lex_body(src: Seq<char>, cur: int) -> LexStep {
    let s = trivia_end(src, cur);
    if s < 0 || s >= src.len() {
        step(TokenTypeView::EOF, s, s, s)
    } else {
        let c = src[s];
        if is_punct_start(c) {
            punct_step(src, s)
        } else if is_quote(c) {
            string_step(src, s)
        } else if is_digit(c) {
            let e = number_end(src, s);
            step(TokenTypeView::Literal(src.subrange(s, e)), s, e, e)
        } else if char_is_alphabetic(c) {
            let e = ident_end(src, s);
            let w = src.subrange(s, e);
            let kind = match keyword_of(w) {
                Some(k) => TokenTypeView::Keyword(k),
                None => TokenTypeView::Ident(w),
            };
            step(kind, s, e, e)
        } else if c == '$' || c == '_' {
            let e = ident_end(src, s);
            step(TokenTypeView::Ident(src.subrange(s, e)), e, e, if e < src.len() { e + 1 } else { e })
        } else if c == '>' || c == '<' {
            punct_step(src, s)
        } else {
            single_illegal(s)
        }
    }
}

pub open spec fn single_illegal(s: int) -> LexStep {
    step(TokenTypeView::Illegal, s, s, s + 1)
}

} // verus!

verus! {

// ---------------------------------------------------------------------------
// Facts about the scanning functions
// ---------------------------------------------------------------------------

pub proof fn lemma_count_newlines_bound(s: Seq<char>)
    ensures
        count_newlines(s) <= s.len(),
        chars_since_newline(s) <= s.len(),
    decreases s.len(),
{
    if s.len() > 0 {
        lemma_count_newlines_bound(s.drop_last());
    }
}

/// Reading one more character updates the line and column as `read_char` does.
pub proof fn lemma_take_next(src: Seq<char>, k: int)
    requires
        0 <= k < src.len(),
    ensures
        count_newlines(src.take(k + 1)) == count_newlines(src.take(k))
            + if src[k] == '\n' { 1nat } else { 0nat },
        chars_since_newline(src.take(k + 1)) == if src[k] == '\n' {
            0nat
        } else {
            chars_since_newline(src.take(k)) + 1
        },
{
    assert(src.take(k + 1).drop_last() =~= src.take(k));
}

/// The position that `trivia_end` finds starts no comment and holds no whitespace.
pub proof fn lemma_trivia_end(src: Seq<char>, i: int)
    requires
        0 <= i <= src.len(),
    ensures
        i <= trivia_end(src, i) <= src.len(),
        !starts_line_comment(src, trivia_end(src, i)),
        !starts_block_comment(src, trivia_end(src, i)),
        trivia_end(src, i) < src.len() ==> !char_is_whitespace(src[trivia_end(src, i)]),
    decreases src.len() - i,
{
    lemma_whitespace_len_bound(src, i);
    let s = i + whitespace_len(src, i);
    lemma_whitespace_len_stops(src, i);
    if starts_line_comment(src, s) {
        lemma_line_comment_len_bound(src, s);
        lemma_trivia_end(src, s + line_comment_len(src, s));
    } else if starts_block_comment(src, s) {
        lemma_block_comment_len_bound(src, s + 2);
        lemma_trivia_end(src, s + 2 + block_comment_len(src, s + 2));
    }
}

pub proof fn lemma_whitespace_len_stops(src: Seq<char>, i: int)
    requires
        0 <= i <= src.len(),
    ensures
        i + whitespace_len(src, i) < src.len() ==> !char_is_whitespace(src[i + whitespace_len(src, i)]),
    decreases src.len() - i,
{
    if i < src.len() && char_is_whitespace(src[i]) {
        lemma_whitespace_len_stops(src, i + 1);
    }
}

pub proof fn lemma_number_end(src: Seq<char>, i: int)
    requires
        0 <= i <= src.len(),
    ensures
        i <= number_end(src, i) <= src.len(),
    decreases src.len() - i,
{
    if i < src.len() && is_number_char(src[i]) {
        lemma_number_end(src, i + 1);
    }
}

pub proof fn lemma_ident_end(src: Seq<char>, i: int)
    requires
        0 <= i <= src.len(),
    ensures
        i <= ident_end(src, i) <= src.len(),
    decreases src.len() - i,
{
    if i < src.len() && is_ident_char(src[i]) {
        lemma_ident_end(src, i + 1);
    }
}

/// The views of a list of strings, after a push.
pub proof fn lemma_strings_view_push(v: Seq<String>, s: String)
    ensures
        crate::token::strings_view(v.push(s)) == crate::token::strings_view(v).push(s@),
{
    assert(crate::token::strings_view(v.push(s)) =~= crate::token::strings_view(v).push(s@));
}

/// The expression sources of a template token are shorter than `n`.
pub open spec fn kind_bounded(k: TokenTypeView, n: nat) -> bool {
    k matches TokenTypeView::Template(_, es) ==> forall|j: int| 0 <= j < es.len() ==> #[trigger] es[j].len() < n
}

pub proof fn lemma_scan_string(
    src: Seq<char>,
    q: char,
    is_template: bool,
    i: int,
    depth: nat,
    text: Seq<char>,
    pieces: Seq<Seq<char>>,
    exprs: Seq<Seq<char>>,
)
    requires
        1 <= i <= src.len(),
        text.len() + 1 <= i,
        forall|j: int| 0 <= j < exprs.len() ==> #[trigger] exprs[j].len() < src.len(),
    ensures
        ({
            let r = scan_string(src, q, is_template, i, depth, text, pieces, exprs);
            &&& i <= r.1 <= src.len()
            &&& kind_bounded(r.0, src.len())
            &&& !(r.0 is EOF)
        }),
    decreases src.len() - i,
{
    if i >= src.len() {
    } else if depth > 0 {
        let c = src[i];
        if c == '{' {
            lemma_scan_string(src, q, is_template, i + 1, depth + 1, text, pieces, exprs);
        } else if c == '}' {
            if depth == 1 {
                let e2 = exprs.push(text);
                assert forall|j: int| 0 <= j < e2.len() implies #[trigger] e2[j].len() < src.len() by {
                    if j < exprs.len() {
                        assert(e2[j] == exprs[j]);
                    }
                }
                lemma_scan_string(src, q, is_template, i + 1, 0, seq![], pieces, e2);
            } else {
                lemma_scan_string(src, q, is_template, i + 1, (depth - 1) as nat, text, pieces, exprs);
            }
        } else {
            lemma_scan_string(src, q, is_template, i + 1, depth, text.push(c), pieces, exprs);
        }
    } else {
        let c = src[i];
        let n = char_at(src, i + 1);
        if c == '\\' && n is None {
        } else if c == '\\' && n == Some(q) {
            lemma_scan_string(src, q, is_template, i + 2, 0, text.push(q), pieces, exprs);
        } else if c == '\\' && n == Some('\n') {
            lemma_scan_string(src, q, is_template, i + 2, 0, text, pieces, exprs);
        } else if is_template && c == '$' && n is None {
        } else if is_template && c == '$' && n == Some('{') {
            lemma_scan_string(src, q, is_template, i + 2, 1, seq![], pieces.push(text), exprs);
        } else if is_template && c == '$' {
        } else if c == q {
        } else {
            lemma_scan_string(src, q, is_template, i + 1, 0, text.push(c), pieces, exprs);
        }
    }
}

/// Reading a token moves the cursor forward, and past at least one character
/// unless the token is the end of input; the end of input leaves the cursor at
/// the end of the text.
pub proof fn lemma_lex_progress(src: Seq<char>, cur: int)
    requires
        0 <= cur <= src.len(),
    ensures
        ({
            let st = lex(src, cur);
            &&& cur <= st.next <= src.len()
            &&& (st.kind is EOF <==> trivia_end(src, cur) == src.len())
            &&& (st.kind is EOF ==> st.next == src.len())
            &&& (!(st.kind is EOF) ==> cur < st.next)
            &&& kind_bounded(st.kind, src.len())
        }),
{
    lemma_trivia_end(src, cur);
    let s = trivia_end(src, cur);
    if s < src.len() {
        let c = src[s];
        if is_punct_start(c) {
        } else if is_quote(c) {
            lemma_scan_string(src, c, c == '`', s + 1, 0, seq![], seq![], seq![]);
        } else if is_digit(c) {
            lemma_number_end(src, s + 1);
        } else if char_is_alphabetic(c) {
            lemma_ident_end(src, s + 1);
        } else if c == '$' || c == '_' {
            lemma_ident_end(src, s + 1);
        }
    }
}


/// Lexing the text of a punctuator gives that punctuator back and reads the
/// whole text (`%=` is the one punctuator the lexer never produces).
pub proof fn law_punct_round_trip(p: TokenPunctuator)
    requires
        p != TokenPunctuator::MOD,
    ensures
        lex(p.spec_raw(), 0).kind == TokenTypeView::Punctuator(p),
        lex(p.spec_raw(), 0).next == p.spec_raw().len(),
{
    match p {
        TokenPunctuator::MOV => { reveal_strlit("="); },
        TokenPunctuator::Equal => { reveal_strlit("=="); },
        TokenPunctuator::Congruent => { reveal_strlit("==="); },
        TokenPunctuator::Plus => { reveal_strlit("+"); },
        TokenPunctuator::ADD => { reveal_strlit("+="); },
        TokenPunctuator::INC => { reveal_strlit("++"); },
        TokenPunctuator::Minus => { reveal_strlit("-"); },
        TokenPunctuator::DEC => { reveal_strlit("--"); },
        TokenPunctuator::SUB => { reveal_strlit("-="); },
        TokenPunctuator::Multiply => { reveal_strlit("*"); },
        TokenPunctuator::MUL => { reveal_strlit("*="); },
        TokenPunctuator::Divide => { reveal_strlit("/"); },
        TokenPunctuator::DIV => { reveal_strlit("/="); },
        TokenPunctuator::Modulo => { reveal_strlit("%"); },
        TokenPunctuator::LParen => { reveal_strlit("("); },
        TokenPunctuator::RParen => { reveal_strlit(")"); },
        TokenPunctuator::LCParen => { reveal_strlit("{"); },
        TokenPunctuator::RCParen => { reveal_strlit("}"); },
        TokenPunctuator::LSParen => { reveal_strlit("["); },
        TokenPunctuator::RSParen => { reveal_strlit("]"); },
        TokenPunctuator::GT => { reveal_strlit(">"); },
        TokenPunctuator::GTE => { reveal_strlit(">="); },
        TokenPunctuator::LT => { reveal_strlit("<"); },
        TokenPunctuator::LTE => { reveal_strlit("<="); },
        TokenPunctuator::NE => { reveal_strlit("!="); },
        TokenPunctuator::LShift => { reveal_strlit("<<"); },
        TokenPunctuator::RShift => { reveal_strlit(">>"); },
        TokenPunctuator::Semicolon => { reveal_strlit(";"); },
        TokenPunctuator::Colon => { reveal_strlit(":"); },
        TokenPunctuator::Dot => { reveal_strlit("."); },
        TokenPunctuator::Comma => { reveal_strlit(","); },
        TokenPunctuator::BitAnd => { reveal_strlit("&"); },
        TokenPunctuator::BitOr => { reveal_strlit("|"); },
        TokenPunctuator::BitXor => { reveal_strlit("^"); },
        TokenPunctuator::BitNot => { reveal_strlit("~"); },
        TokenPunctuator::And => { reveal_strlit("&&"); },
        TokenPunctuator::Or => { reveal_strlit("||"); },
        TokenPunctuator::Not => { reveal_strlit("!"); },
        TokenPunctuator::MOD => {},
    }
    let src = p.spec_raw();
    assert(whitespace_len(src, 0) == 0);
    assert(trivia_end(src, 0) == 0);
}

/// A word of lowercase Latin letters is read whole.
pub proof fn lemma_ident_end_lowercase(w: Seq<char>, i: int)
    requires
        0 <= i <= w.len(),
        forall|k: int| 0 <= k < w.len() ==> 'a' <= #[trigger] w[k] <= 'z',
    ensures
        ident_end(w, i) == w.len(),
    decreases w.len() - i,
{
    if i < w.len() {
        lemma_ident_end_lowercase(w, i + 1);
    }
}

/// Lexing the text of a keyword gives that keyword back and reads the whole
/// text.
pub proof fn law_keyword_round_trip(k: TokenKeyword)
    requires
        k != TokenKeyword::NoKeyword,
    ensures
        lex(k.spec_raw(), 0).kind == TokenTypeView::Keyword(k),
        lex(k.spec_raw(), 0).next == k.spec_raw().len(),
{
    reveal_strlit("let");
    reveal_strlit("const");
    reveal_strlit("var");
    reveal_strlit("if");
    reveal_strlit("else");
    reveal_strlit("return");
    reveal_strlit("break");
    reveal_strlit("continue");
    reveal_strlit("for");
    reveal_strlit("in");
    reveal_strlit("of");
    reveal_strlit("delete");
    reveal_strlit("do");
    reveal_strlit("switch");
    reveal_strlit("case");
    reveal_strlit("default");
    reveal_strlit("function");
    reveal_strlit("while");
    let w = k.spec_raw();
    assert(forall|i: int| 0 <= i < w.len() ==> 'a' <= #[trigger] w[i] <= 'z');
    lemma_ident_end_lowercase(w, 0);
    assert(whitespace_len(w, 0) == 0);
    assert(trivia_end(w, 0) == 0);
    assert(w.subrange(0, w.len() as int) =~= w);
}

proof fn lemma_ident_run(src: Seq<char>, w: Seq<char>, rest: Seq<char>, i: int)
    requires
        src == w + rest,
        0 <= i <= w.len(),
        forall|k: int| 0 <= k < w.len() ==> is_ident_char(#[trigger] w[k]),
        rest.len() == 0 || !is_ident_char(rest[0]),
    ensures
        ident_end(src, i) == w.len(),
    decreases w.len() - i,
{
    if i < w.len() {
        assert(src[i] == w[i]);
        lemma_ident_run(src, w, rest, i + 1);
    } else if rest.len() > 0 {
        assert(src[i] == rest[0]);
    }
}

proof fn lemma_number_run(src: Seq<char>, d: Seq<char>, rest: Seq<char>, i: int)
    requires
        src == d + rest,
        0 <= i <= d.len(),
        forall|k: int| 0 <= k < d.len() ==> is_number_char(#[trigger] d[k]),
        rest.len() == 0 || !is_number_char(rest[0]),
    ensures
        number_end(src, i) == d.len(),
    decreases d.len() - i,
{
    if i < d.len() {
        assert(src[i] == d[i]);
        lemma_number_run(src, d, rest, i + 1);
    } else if rest.len() > 0 {
        assert(src[i] == rest[0]);
    }
}

/// A word that starts with a Latin letter and goes on with identifier
/// characters, and that is not a keyword, lexes to an identifier with exactly
/// that text, read up to the first character that cannot continue it.
pub proof fn law_identifier_as_written(w: Seq<char>, rest: Seq<char>)
    requires
        w.len() > 0,
        ('a' <= w[0] <= 'z') || ('A' <= w[0] <= 'Z'),
        forall|k: int| 0 <= k < w.len() ==> is_ident_char(#[trigger] w[k]),
        keyword_of(w) is None,
        rest.len() == 0 || !is_ident_char(rest[0]),
    ensures
        lex(w + rest, 0).kind == TokenTypeView::Ident(w),
        lex(w + rest, 0).next == w.len(),
{
    let src = w + rest;
    assert(src[0] == w[0]);
    assert(whitespace_len(src, 0) == 0);
    assert(trivia_end(src, 0) == 0);
    lemma_ident_run(src, w, rest, 0);
    assert(src.subrange(0, w.len() as int) =~= w);
}

/// A run of digits (and dots) that starts with a digit lexes to a literal
/// with exactly that text, read up to the first other character.
pub proof fn law_number_as_written(d: Seq<char>, rest: Seq<char>)
    requires
        d.len() > 0,
        is_digit(d[0]),
        forall|k: int| 0 <= k < d.len() ==> is_number_char(#[trigger] d[k]),
        rest.len() == 0 || !is_number_char(rest[0]),
    ensures
        lex(d + rest, 0).kind == TokenTypeView::Literal(d),
        lex(d + rest, 0).next == d.len(),
{
    let src = d + rest;
    assert(src[0] == d[0]);
    assert(whitespace_len(src, 0) == 0);
    assert(trivia_end(src, 0) == 0);
    lemma_number_run(src, d, rest, 0);
    assert(src.subrange(0, d.len() as int) =~= d);
}


/// The characters that may stand inside a string quoted by `q` and are read
/// as themselves: no backslash, no closing quote, and in a template no `$`.
pub open spec fn plain_in_string(c: char, q: char) -> bool {
    c != '\\' && c != q && !(q == '`' && c == '$')
}

proof fn lemma_scan_plain(src: Seq<char>, q: char, t: Seq<char>, rest: Seq<char>, j: int)
    requires
        is_quote(q),
        src == seq![q] + t + seq![q] + rest,
        0 <= j <= t.len(),
        forall|i: int| 0 <= i < t.len() ==> plain_in_string(#[trigger] t[i], q),
    ensures
        scan_string(src, q, q == '`', 1 + j, 0, t.take(j), seq![], seq![])
            == (string_kind(q == '`', t, seq![], seq![]), t.len() + 2int),
    decreases t.len() - j,
{
    if j == t.len() {
        assert(src[1 + j] == q);
        assert(t.take(j) =~= t);
    } else {
        assert(src[1 + j] == t[j]);
        assert(plain_in_string(t[j], q));
        assert(t.take(j).push(t[j]) =~= t.take(j + 1));
        lemma_scan_plain(src, q, t, rest, j + 1);
    }
}

/// A quoted string whose characters are all read as themselves lexes to a
/// literal whose text is exactly the characters between the quotes (a
/// template, to a single piece of that text), and reading stops just after
/// the closing quote.
pub proof fn law_plain_string(q: char, t: Seq<char>, rest: Seq<char>)
    requires
        is_quote(q),
        forall|i: int| 0 <= i < t.len() ==> plain_in_string(#[trigger] t[i], q),
    ensures
        lex(seq![q] + t + seq![q] + rest, 0).next == t.len() + 2,
        q != '`' ==> lex(seq![q] + t + seq![q] + rest, 0).kind == TokenTypeView::Literal(t),
        q == '`' && t.len() > 0 ==> lex(seq![q] + t + seq![q] + rest, 0).kind
            == TokenTypeView::Template(seq![t], seq![]),
{
    let src = seq![q] + t + seq![q] + rest;
    assert(src[0] == q);
    assert(whitespace_len(src, 0) == 0);
    assert(!starts_line_comment(src, 0));
    assert(!starts_block_comment(src, 0));
    assert(trivia_end(src, 0) == 0);
    assert(t.take(0) =~= Seq::<char>::empty());
    lemma_scan_plain(src, q, t, rest, 0);
    assert(seq![].push(t) =~= seq![t]);
}

/// Where the cursor stands after `n` tokens have been read from `cur`.
pub open spec fn cursor_after(src: Seq<char>, cur: int, n: nat) -> int
    decreases n,
{
    if n == 0 {
        cur
    } else {
        lex(src, cursor_after(src, cur, (n - 1) as nat)).next
    }
}

proof fn lemma_cursor_after(src: Seq<char>, n: nat)
    requires
        forall|i: nat| i < n ==> !(#[trigger] lex(src, cursor_after(src, 0, i)).kind is EOF),
    ensures
        n <= cursor_after(src, 0, n) <= src.len(),
    decreases n,
{
    if n > 0 {
        let m = (n - 1) as nat;
        lemma_cursor_after(src, m);
        lemma_lex_progress(src, cursor_after(src, 0, m));
        assert(!(lex(src, cursor_after(src, 0, m)).kind is EOF));
    }
}

/// The lexer reaches the end of input after at most as many tokens as the
/// text has characters: where none of the first `n` tokens read from the start
/// is the end of input, `n` is at most the length of the text.
pub proof fn law_tokens_bounded_by_length(src: Seq<char>, n: nat)
    requires
        forall|i: nat| i < n ==> !(#[trigger] lex(src, cursor_after(src, 0, i)).kind is EOF),
    ensures
        n <= src.len(),
{
    lemma_cursor_after(src, n);
}

/// Once the lexer has reached the end of input it keeps giving the end of input
/// and stays at the end of the text.
pub proof fn law_eof_is_final(src: Seq<char>, cur: int)
    requires
        0 <= cur <= src.len(),
        lex(src, cur).kind is EOF,
    ensures
        lex(src, cur).next == src.len(),
        lex(src, lex(src, cur).next).kind is EOF,
        lex(src, lex(src, cur).next).next == src.len(),
{
    lemma_lex_progress(src, cur);
    lemma_lex_progress(src, src.len() as int);
    assert(whitespace_len(src, src.len() as int) == 0);
}

// ---------------------------------------------------------------------------
// The lexer
// ---------------------------------------------------------------------------

/// Something that hands out tokens one at a time.
pub trait ILexer: Sized {
    /// The lexer's own consistency.
    spec fn wf(&self) -> bool;

    fn next_token(&mut self) -> (t: Token)
        requires
            old(self).wf(),
        ensures
            final(self).wf(),
    ;

    fn new(input: String) -> (l: Self)
        requires
            input@.len() < usize::MAX,
        ensures
            l.wf(),
    ;
}

/// A lexer over a source text. The cursor stands on the current character
/// (`ch`); at the end of the text there is none.
pub struct Lexer {
    input: String,
    chars: Vec<char>,
    position: usize,
    read_position: usize,
    ch: Option<char>,
    line: usize,
    column: usize,
}

/// Returns the characters of `s`.
fn chars_of(s: &String) -> (v: Vec<char>)
    ensures
        v@ == s@,
{
    let mut v: Vec<char> = Vec::new();
    let n = s.as_str().unicode_len();
    let mut i: usize = 0;
    while i < n
        invariant
            n == s@.len(),
            i <= n,
            v@ == s@.take(i as int),
        decreases n - i,
    {
        let c = s.as_str().get_char(i);
        v.push(c);
        i += 1;
        assert(v@ =~= s@.take(i as int));
    }
    assert(s@.take(n as int) =~= s@);
    v
}

impl Lexer {
    /// The source text.
    pub closed spec fn source(&self) -> Seq<char> {
        self.input@
    }

    /// The index of the current character, or the length of the text at its end.
    pub closed spec fn cursor(&self) -> int {
        if self.ch is Some {
            self.position as int
        } else {
            self.chars@.len() as int
        }
    }

    pub closed spec fn lexer_wf(&self) -> bool {
        let src = self.chars@;
        &&& src == self.input@
        &&& src.len() < usize::MAX
        &&& self.read_position <= src.len()
        &&& self.position <= src.len()
        &&& match self.ch {
            Some(c) => self.position < src.len() && src[self.position as int] == c
                && self.read_position == self.position + 1,
            None => self.read_position == src.len(),
        }
        &&& self.line == 1 + count_newlines(src.take(self.read_position as int))
        &&& self.column == chars_since_newline(src.take(self.read_position as int))
    }

    /// The index of the current character (the length of the text at its end).
    pub fn offset(&self) -> (r: usize)
        requires
            self.lexer_wf(),
        ensures
            r == self.cursor(),
    {
        match self.ch {
            Some(_) => self.position,
            None => self.chars.len(),
        }
    }

    /// The number of characters of the source text.
    pub fn source_len(&self) -> (r: usize)
        requires
            self.lexer_wf(),
        ensures
            r == self.source().len(),
    {
        self.chars.len()
    }

    /// What a consistent lexer guarantees of its cursor and text.
    pub proof fn lemma_wf(&self)
        requires
            self.lexer_wf(),
        ensures
            0 <= self.cursor() <= self.source().len(),
            self.source().len() < usize::MAX,
    {
    }

    proof fn lemma_position(&self)
        requires
            self.lexer_wf(),
        ensures
            self.line == line_at(self.chars@, self.cursor()),
            self.column == column_at(self.chars@, self.cursor()),
            chars_read(self.chars@, self.cursor()) == self.read_position,
            self.ch == char_at(self.chars@, self.cursor()),
    {
    }

    fn read_char(&mut self) -> (r: bool)
        requires
            old(self).lexer_wf(),
        ensures
            final(self).lexer_wf(),
            final(self).input == old(self).input,
            final(self).cursor() == if old(self).cursor() < old(self).source().len() {
                old(self).cursor() + 1
            } else {
                old(self).cursor()
            },
    {
        if self.read_position < self.chars.len() {
            let c = self.chars[self.read_position];
            proof {
                lemma_take_next(self.chars@, self.read_position as int);
                lemma_count_newlines_bound(self.chars@.take(self.read_position as int));
            }
            self.ch = Some(c);
            self.position = self.read_position;
            self.read_position = self.read_position + 1;
            if c == '\n' {
                self.line = self.line + 1;
                self.column = 0;
            } else {
                self.column = self.column + 1;
            }
            true
        } else {
            self.ch = None;
            false
        }
    }

    fn peek_char(&self) -> (r: Option<char>)
        requires
            self.lexer_wf(),
        ensures
            r == char_at(self.source(), self.cursor() + 1),
    {
        if self.read_position < self.chars.len() {
            Some(self.chars[self.read_position])
        } else {
            None
        }
    }

    fn skip_whitespace(&mut self)
        requires
            old(self).lexer_wf(),
            old(self).cursor() <= old(self).source().len(),
        ensures
            final(self).lexer_wf(),
            final(self).input == old(self).input,
            final(self).cursor() == old(self).cursor() + whitespace_len(old(self).source(), old(self).cursor()),
    {
        let ghost src = self.chars@;
        let ghost target = self.cursor() + whitespace_len(src, self.cursor());
        proof { lemma_whitespace_len_bound(src, self.cursor()); }
        loop
            invariant
                self.lexer_wf(),
                self.input == old(self).input,
                self.chars@ == src,
                0 <= self.cursor() <= src.len(),
                target == self.cursor() + whitespace_len(src, self.cursor()),
            ensures
                self.lexer_wf(),
                self.input == old(self).input,
                self.cursor() == target,
            decreases src.len() - self.cursor(),
        {
            match self.ch {
                Some(ch) => {
                    if is_whitespace(ch) {
                        self.read_char();
                    } else {
                        break;
                    }
                },
                None => break,
            }
        }
    }

    /// Skips a line comment from the cursor, through the line break that ends it.
    fn skip_line_comment(&mut self)
        requires
            old(self).lexer_wf(),
            old(self).cursor() < old(self).source().len(),
        ensures
            final(self).lexer_wf(),
            final(self).input == old(self).input,
            final(self).cursor() == old(self).cursor() + line_comment_len(old(self).source(), old(self).cursor()),
    {
        let ghost src = self.chars@;
        let ghost target = self.cursor() + line_comment_len(src, self.cursor());
        loop
            invariant_except_break
                target == self.cursor() + line_comment_len(src, self.cursor()),
            invariant
                self.lexer_wf(),
                self.input == old(self).input,
                self.chars@ == src,
                0 <= self.cursor() <= src.len(),
            ensures
                self.cursor() == target,
            decreases src.len() - self.cursor(),
        {
            match self.ch {
                Some(ch) => {
                    if ch == '\n' {
                        self.read_char();
                        break;
                    }
                    self.read_char();
                },
                None => break,
            }
        }
    }

    /// Skips a block comment body from the cursor, through the `*/` that ends it.
    fn skip_block_comment(&mut self)
        requires
            old(self).lexer_wf(),
            old(self).cursor() <= old(self).source().len(),
        ensures
            final(self).lexer_wf(),
            final(self).input == old(self).input,
            final(self).cursor() == old(self).cursor() + block_comment_len(old(self).source(), old(self).cursor()),
    {
        let ghost src = self.chars@;
        let ghost target = self.cursor() + block_comment_len(src, self.cursor());
        loop
            invariant_except_break
                target == self.cursor() + block_comment_len(src, self.cursor()),
            invariant
                self.lexer_wf(),
                self.input == old(self).input,
                self.chars@ == src,
                0 <= self.cursor() <= src.len(),
            ensures
                self.cursor() == target,
            decreases src.len() - self.cursor(),
        {
            match self.ch {
                Some(ch) => {
                    let pc = self.peek_char();
                    if ch == '*' && pc == Some('/') {
                        self.read_char();
                        self.read_char();
                        break;
                    }
                    self.read_char();
                },
                None => break,
            }
        }
    }

    /// Skips whitespace and comments.
    fn skip_trivia(&mut self)
        requires
            old(self).lexer_wf(),
            old(self).cursor() <= old(self).source().len(),
        ensures
            final(self).lexer_wf(),
            final(self).input == old(self).input,
            final(self).cursor() == trivia_end(old(self).source(), old(self).cursor()),
    {
        let ghost src = self.chars@;
        let ghost target = trivia_end(src, self.cursor());
        loop
            invariant_except_break
                target == trivia_end(src, self.cursor()),
            invariant
                self.lexer_wf(),
                self.input == old(self).input,
                self.chars@ == src,
                0 <= self.cursor() <= src.len(),
            ensures
                self.cursor() == target,
            decreases src.len() - self.cursor(),
        {
            let ghost c0 = self.cursor();
            proof { lemma_whitespace_len_bound(src, c0); }
            self.skip_whitespace();
            proof { self.lemma_position(); }
            let pc = self.peek_char();
            match self.ch {
                Some(ch) => {
                    if (ch == '/' || ch == '%') && pc == Some('/') {
                        proof { lemma_line_comment_len_bound(src, self.cursor()); }
                        self.skip_line_comment();
                    } else if ch == '/' && pc == Some('*') {
                        self.read_char();
                        self.read_char();
                        proof { lemma_block_comment_len_bound(src, self.cursor()); }
                        self.skip_block_comment();
                    } else {
                        assert(self.cursor() == trivia_end(src, c0));
                        break;
                    }
                },
                None => {
                    assert(self.cursor() == trivia_end(src, c0));
                    break;
                },
            }
        }
    }

    fn read_number(&mut self) -> (r: (String, usize))
        requires
            old(self).lexer_wf(),
            old(self).cursor() <= old(self).source().len(),
        ensures
            final(self).lexer_wf(),
            final(self).input == old(self).input,
            final(self).cursor() == number_end(old(self).source(), old(self).cursor()),
            r.0@ == old(self).source().subrange(old(self).cursor(), final(self).cursor()),
            r.1 == line_at(old(self).source(), old(self).cursor()),
    {
        let ghost src = self.chars@;
        let ghost start = self.cursor();
        let mut result = String::new();
        let line = self.line;
        proof { lemma_number_end(src, start); }
        loop
            invariant
                self.lexer_wf(),
                self.input == old(self).input,
                self.chars@ == src,
                0 <= start <= self.cursor() <= src.len(),
                number_end(src, start) == number_end(src, self.cursor()),
                result@ == src.subrange(start, self.cursor()),
            ensures
                self.lexer_wf(),
                self.input == old(self).input,
                self.cursor() == number_end(src, start),
                result@ == src.subrange(start, self.cursor()),
            decreases src.len() - self.cursor(),
        {
            match self.ch {
                Some(ch) => {
                    if ('0' <= ch && ch <= '9') || ch == '.' {
                        proof { self.lemma_position(); }
                        push_char(&mut result, ch);
                        self.read_char();
                        assert(result@ =~= src.subrange(start, self.cursor()));
                    } else {
                        break;
                    }
                },
                None => break,
            }
        }
        (result, line)
    }

    fn read_identifier(&mut self) -> (r: (String, usize))
        requires
            old(self).lexer_wf(),
            old(self).cursor() <= old(self).source().len(),
        ensures
            final(self).lexer_wf(),
            final(self).input == old(self).input,
            final(self).cursor() == ident_end(old(self).source(), old(self).cursor()),
            r.0@ == old(self).source().subrange(old(self).cursor(), final(self).cursor()),
            r.1 == line_at(old(self).source(), old(self).cursor()),
    {
        let ghost src = self.chars@;
        let ghost start = self.cursor();
        let mut result = String::new();
        let line = self.line;
        proof { lemma_ident_end(src, start); }
        loop
            invariant
                self.lexer_wf(),
                self.input == old(self).input,
                self.chars@ == src,
                0 <= start <= self.cursor() <= src.len(),
                ident_end(src, start) == ident_end(src, self.cursor()),
                result@ == src.subrange(start, self.cursor()),
            ensures
                self.lexer_wf(),
                self.input == old(self).input,
                self.cursor() == ident_end(src, start),
                result@ == src.subrange(start, self.cursor()),
            decreases src.len() - self.cursor(),
        {
            match self.ch {
                Some(ch) => {
                    if ch == '$' || ch == '_' || is_alphabetic(ch) || ('0' <= ch && ch <= '9') {
                        proof { self.lemma_position(); }
                        push_char(&mut result, ch);
                        self.read_char();
                        assert(result@ =~= src.subrange(start, self.cursor()));
                    } else {
                        break;
                    }
                },
                None => break,
            }
        }
        (result, line)
    }

    /// Emits the punctuator `p`, which takes two characters when `two` is set.
    fn finish_punct(&mut self, p: TokenPunctuator, two: bool) -> (t: Token)
        requires
            old(self).lexer_wf(),
            old(self).cursor() < old(self).source().len(),
            two ==> old(self).cursor() + 1 < old(self).source().len(),
        ensures
            final(self).lexer_wf(),
            final(self).input == old(self).input,
            ({
                let st = if two { double(p, old(self).cursor()) } else { single(p, old(self).cursor()) };
                &&& t.typ@ == st.kind
                &&& t.line == line_at(old(self).source(), st.line_pos)
                &&& t.column == column_at(old(self).source(), st.col_pos)
                &&& final(self).cursor() == st.next
                &&& t.wf()
            }),
    {
        if two {
            self.read_char();
        }
        proof { self.lemma_position(); }
        let tok = Token::new(TokenType::Punctuator(p), self.line, self.column);
        self.read_char();
        tok
    }

    /// Reads a punctuator whose first character `c` is at the cursor.
    fn read_punct(&mut self, c: char) -> (t: Token)
        requires
            old(self).lexer_wf(),
            old(self).cursor() < old(self).source().len(),
            old(self).source()[old(self).cursor()] == c,
            is_punct_start(c) || c == '>' || c == '<',
        ensures
            final(self).lexer_wf(),
            final(self).input == old(self).input,
            ({
                let st = punct_step(old(self).source(), old(self).cursor());
                &&& t.typ@ == st.kind
                &&& t.line == line_at(old(self).source(), st.line_pos)
                &&& t.column == column_at(old(self).source(), st.col_pos)
                &&& final(self).cursor() == st.next
                &&& t.wf()
            }),
    {
        let pc = self.peek_char();
        if c == '=' {
            if pc == Some('=') {
                self.read_char();
                let pc2 = self.peek_char();
                if pc2 == Some('=') {
                    self.read_char();
                    self.read_char();
                    proof { self.lemma_position(); }
                    Token::new(TokenType::Punctuator(TokenPunctuator::Congruent), self.line, self.column)
                } else {
                    self.read_char();
                    proof { self.lemma_position(); }
                    Token::new(TokenType::Punctuator(TokenPunctuator::Equal), self.line, self.column)
                }
            } else {
                self.read_char();
                proof { self.lemma_position(); }
                Token::new(TokenType::Punctuator(TokenPunctuator::MOV), self.line, self.column)
            }
        } else if c == '+' {
            if pc == Some('=') {
                self.finish_punct(TokenPunctuator::ADD, true)
            } else if pc == Some('+') {
                self.finish_punct(TokenPunctuator::INC, true)
            } else {
                self.finish_punct(TokenPunctuator::Plus, false)
            }
        } else if c == '-' {
            if pc == Some('=') {
                self.finish_punct(TokenPunctuator::SUB, true)
            } else if pc == Some('-') {
                self.finish_punct(TokenPunctuator::DEC, true)
            } else {
                self.finish_punct(TokenPunctuator::Minus, false)
            }
        } else if c == '*' {
            if pc == Some('=') {
                self.finish_punct(TokenPunctuator::MUL, true)
            } else {
                self.finish_punct(TokenPunctuator::Multiply, false)
            }
        } else if c == '/' {
            if pc == Some('=') {
                self.finish_punct(TokenPunctuator::DIV, true)
            } else {
                self.finish_punct(TokenPunctuator::Divide, false)
            }
        } else if c == '%' {
            self.finish_punct(TokenPunctuator::Modulo, false)
        } else if c == '(' {
            self.finish_punct(TokenPunctuator::LParen, false)
        } else if c == ')' {
            self.finish_punct(TokenPunctuator::RParen, false)
        } else if c == '{' {
            self.finish_punct(TokenPunctuator::LCParen, false)
        } else if c == '}' {
            self.finish_punct(TokenPunctuator::RCParen, false)
        } else if c == '[' {
            self.finish_punct(TokenPunctuator::LSParen, false)
        } else if c == ']' {
            self.finish_punct(TokenPunctuator::RSParen, false)
        } else if c == ';' {
            self.finish_punct(TokenPunctuator::Semicolon, false)
        } else if c == ':' {
            self.finish_punct(TokenPunctuator::Colon, false)
        } else if c == '.' {
            self.finish_punct(TokenPunctuator::Dot, false)
        } else if c == ',' {
            self.finish_punct(TokenPunctuator::Comma, false)
        } else if c == '^' {
            self.finish_punct(TokenPunctuator::BitXor, false)
        } else if c == '~' {
            self.finish_punct(TokenPunctuator::BitNot, false)
        } else if c == '&' {
            if pc == Some('&') {
                self.finish_punct(TokenPunctuator::And, true)
            } else {
                self.finish_punct(TokenPunctuator::BitAnd, false)
            }
        } else if c == '|' {
            if pc == Some('|') {
                self.finish_punct(TokenPunctuator::Or, true)
            } else {
                self.finish_punct(TokenPunctuator::BitOr, false)
            }
        } else if c == '!' {
            if pc == Some('=') {
                self.finish_punct(TokenPunctuator::NE, true)
            } else {
                self.finish_punct(TokenPunctuator::Not, false)
            }
        } else if c == '>' {
            if pc == Some('=') {
                self.finish_punct(TokenPunctuator::GTE, true)
            } else if pc == Some('>') {
                self.finish_punct(TokenPunctuator::RShift, true)
            } else {
                self.finish_punct(TokenPunctuator::GT, false)
            }
        } else {
            if pc == Some('=') {
                self.finish_punct(TokenPunctuator::LTE, true)
            } else if pc == Some('<') {
                self.finish_punct(TokenPunctuator::LShift, true)
            } else {
                self.finish_punct(TokenPunctuator::LT, false)
            }
        }
    }

    /// Reads a quoted string or a template whose opening quote `q` is at the cursor.
    fn read_string(&mut self, q: char) -> (t: Token)
        requires
            old(self).lexer_wf(),
            old(self).cursor() < old(self).source().len(),
            old(self).source()[old(self).cursor()] == q,
        ensures
            final(self).lexer_wf(),
            final(self).input == old(self).input,
            ({
                let st = string_step(old(self).source(), old(self).cursor());
                &&& t.typ@ == st.kind
                &&& t.line == line_at(old(self).source(), st.line_pos)
                &&& t.column == column_at(old(self).source(), st.col_pos)
                &&& final(self).cursor() == st.next
                &&& t.wf()
            }),
    {
        let ghost src = self.chars@;
        let ghost s = self.cursor();
        let is_template = q == '`';
        self.read_char();
        let mut result = String::new();
        let mut v1: Vec<String> = Vec::new();
        let mut v2: Vec<String> = Vec::new();
        proof { self.lemma_position(); }
        let line = self.line;
        let ghost target = scan_string(src, q, is_template, s + 1, 0, seq![], seq![], seq![]);
        assert(string_step(src, s) == step(target.0, s + 1, target.1, target.1));
        assert(crate::token::strings_view(v1@) =~= seq![]);
        assert(crate::token::strings_view(v2@) =~= seq![]);
        loop
            invariant_except_break
                scan_string(src, q, is_template, self.cursor(), 0, result@,
                    crate::token::strings_view(v1@), crate::token::strings_view(v2@)) == target,
            invariant
                self.lexer_wf(),
                self.input == old(self).input,
                self.chars@ == src,
                s + 1 <= self.cursor() <= src.len(),
                line == line_at(src, s + 1),
                src == old(self).source(),
                s == old(self).cursor(),
                string_step(src, s) == step(target.0, s + 1, target.1, target.1),
            ensures
                (string_kind(is_template, result@, crate::token::strings_view(v1@),
                    crate::token::strings_view(v2@)), self.cursor()) == target,
            decreases src.len() - self.cursor(),
        {
            proof { self.lemma_position(); }
            let ghost i = self.cursor();
            match self.ch {
                None => break,
                Some(ch) => {
                    if ch == '\\' {
                        let pc = self.peek_char();
                        match pc {
                            Some(t) => {
                                if t == q {
                                    self.read_char();
                                    self.read_char();
                                    push_char(&mut result, t);
                                    continue;
                                } else if t == '\n' {
                                    self.read_char();
                                    self.read_char();
                                    continue;
                                }
                            },
                            None => {
                                proof { self.lemma_position(); }
                                assert(target == (TokenTypeView::SyntaxError, i));
                                return Token::new(TokenType::SyntaxError, line, self.column);
                            },
                        }
                    }
                    if is_template && ch == '$' {
                        let pc = self.peek_char();
                        if pc.is_none() {
                            proof { self.lemma_position(); }
                            return Token::new(TokenType::SyntaxError, line, self.column);
                        }
                        if pc == Some('{') {
                            self.read_char();
                            self.read_char();
                            proof { lemma_strings_view_push(v1@, result); }
                            v1.push(result);
                            result = String::new();
                            let mut count: usize = 1;
                            loop
                                invariant_except_break
                                    count >= 1,
                                    scan_string(src, q, is_template, self.cursor(), count as nat,
                                        result@, crate::token::strings_view(v1@),
                                        crate::token::strings_view(v2@)) == target,
                                invariant
                                    self.lexer_wf(),
                                    self.input == old(self).input,
                                    self.chars@ == src,
                                    s + 1 <= self.cursor() <= src.len(),
                                    i + 2 <= self.cursor(),
                                    count <= self.cursor(),
                                    line == line_at(src, s + 1),
                                    src == old(self).source(),
                                    s == old(self).cursor(),
                                    string_step(src, s) == step(target.0, s + 1, target.1, target.1),
                                ensures
                                    scan_string(src, q, is_template, self.cursor(), 0,
                                        result@, crate::token::strings_view(v1@),
                                        crate::token::strings_view(v2@)) == target,
                                decreases src.len() - self.cursor(),
                            {
                                proof { self.lemma_position(); }
                                match self.ch {
                                    None => {
                                        assert(self.cursor() == src.len());
                                        assert(target == (TokenTypeView::SyntaxError, src.len() as int));
                                        return Token::new(TokenType::SyntaxError, line, self.column);
                                    },
                                    Some(c) => {
                                        if c == '{' {
                                            count = count + 1;
                                            self.read_char();
                                        } else if c == '}' {
                                            count = count - 1;
                                            self.read_char();
                                            if count == 0 {
                                                proof { lemma_strings_view_push(v2@, result); }
                                                v2.push(result);
                                                result = String::new();
                                                assert(result@ =~= seq![]);
                                                break;
                                            }
                                        } else {
                                            push_char(&mut result, c);
                                            self.read_char();
                                        }
                                    },
                                }
                            }
                            continue;
                        } else {
                            break;
                        }
                    }
                    if ch == q {
                        self.read_char();
                        break;
                    }
                    push_char(&mut result, ch);
                    self.read_char();
                },
            }
        }
        proof { self.lemma_position(); }
        if is_template {
            if !result.as_str().is_empty() {
                proof { lemma_strings_view_push(v1@, result); }
                v1.push(result);
            }
            Token::new(TokenType::Template(v1, v2), line, self.column)
        } else {
            Token::new(TokenType::Literal(result), line, self.column)
        }
    }

    /// Reads the next token.
    fn lex_token(&mut self) -> (t: Token)
        requires
            old(self).lexer_wf(),
        ensures
            final(self).lexer_wf(),
            final(self).input == old(self).input,
            ({
                let st = lex(old(self).source(), old(self).cursor());
                &&& t.typ@ == st.kind
                &&& t.line == line_at(old(self).source(), st.line_pos)
                &&& t.column == column_at(old(self).source(), st.col_pos)
                &&& final(self).cursor() == st.next
                &&& t.wf()
            }),
    {
        let ghost src = self.chars@;
        let ghost c0 = self.cursor();
        proof { self.lemma_wf(); }
        self.skip_trivia();
        proof {
            self.lemma_position();
            lemma_trivia_end(src, c0);
        }
        match self.ch {
            None => {
                let tok = Token::new(TokenType::EOF, self.line, self.column);
                self.read_char();
                tok
            },
            Some(c) => {
                if c == '=' || c == '+' || c == '-' || c == '*' || c == '/' || c == '%'
                    || c == '(' || c == ')' || c == '{' || c == '}' || c == '[' || c == ']'
                    || c == ';' || c == ':' || c == '.' || c == ',' || c == '^' || c == '~'
                    || c == '&' || c == '|' || c == '!' {
                    self.read_punct(c)
                } else if c == '`' || c == '"' || c == '\'' {
                    self.read_string(c)
                } else if '0' <= c && c <= '9' {
                    let (num, line) = self.read_number();
                    proof { self.lemma_position(); }
                    Token::new(TokenType::Literal(num), line, self.column)
                } else if is_alphabetic(c) {
                    let (ident, line) = self.read_identifier();
                    proof { self.lemma_position(); }
                    let typ = self.word_type(ident);
                    Token::new(typ, line, self.column)
                } else if c == '$' || c == '_' {
                    let (ident, _line) = self.read_identifier();
                    proof { self.lemma_position(); }
                    let tok = Token::new(TokenType::Ident(ident), self.line, self.column);
                    self.read_char();
                    tok
                } else if c == '>' || c == '<' {
                    self.read_punct(c)
                } else {
                    let tok = Token::new(TokenType::Illegal, self.line, self.column);
                    self.read_char();
                    tok
                }
            },
        }
    }

    /// The keyword that `word` spells, or an identifier.
    fn word_type(&self, word: String) -> (r: TokenType)
        ensures
            r@ == match keyword_of(word@) {
                Some(k) => TokenTypeView::Keyword(k),
                None => TokenTypeView::Ident(word@),
            },
    {
        if word == String::from_str("let") {
            TokenType::Keyword(TokenKeyword::Let)
        } else if word == String::from_str("const") {
            TokenType::Keyword(TokenKeyword::Const)
        } else if word == String::from_str("var") {
            TokenType::Keyword(TokenKeyword::Var)
        } else if word == String::from_str("if") {
            TokenType::Keyword(TokenKeyword::If)
        } else if word == String::from_str("else") {
            TokenType::Keyword(TokenKeyword::Else)
        } else if word == String::from_str("return") {
            TokenType::Keyword(TokenKeyword::Return)
        } else if word == String::from_str("break") {
            TokenType::Keyword(TokenKeyword::Break)
        } else if word == String::from_str("continue") {
            TokenType::Keyword(TokenKeyword::Continue)
        } else if word == String::from_str("for") {
            TokenType::Keyword(TokenKeyword::For)
        } else if word == String::from_str("in") {
            TokenType::Keyword(TokenKeyword::In)
        } else if word == String::from_str("of") {
            TokenType::Keyword(TokenKeyword::Of)
        } else if word == String::from_str("delete") {
            TokenType::Keyword(TokenKeyword::Delete)
        } else if word == String::from_str("do") {
            TokenType::Keyword(TokenKeyword::Do)
        } else if word == String::from_str("switch") {
            TokenType::Keyword(TokenKeyword::Swith)
        } else if word == String::from_str("case") {
            TokenType::Keyword(TokenKeyword::Case)
        } else if word == String::from_str("default") {
            TokenType::Keyword(TokenKeyword::Default)
        } else if word == String::from_str("function") {
            TokenType::Keyword(TokenKeyword::Function)
        } else if word == String::from_str("while") {
            TokenType::Keyword(TokenKeyword::While)
        } else {
            TokenType::Ident(word)
        }
    }
}

impl ILexer for Lexer {
    open spec fn wf(&self) -> bool {
        self.lexer_wf()
    }

    /// Reads the next token: whitespace and comments are skipped, and at the
    /// end of the text every call gives `EOF`.
    fn next_token(&mut self) -> (t: Token)
        ensures
            final(self).source() == old(self).source(),
            ({
                let st = lex(old(self).source(), old(self).cursor());
                &&& t.typ@ == st.kind
                &&& t.line == line_at(old(self).source(), st.line_pos)
                &&& t.column == column_at(old(self).source(), st.col_pos)
                &&& final(self).cursor() == st.next
                &&& t.wf()
            }),
    {
        self.lex_token()
    }

    /// A lexer at the first character of `input`.
    fn new(input: String) -> (l: Self)
        ensures
            l.source() == input@,
            l.cursor() == 0,
    {
        let chars = chars_of(&input);
        proof {
            assert(chars@.take(0) =~= Seq::<char>::empty());
        }
        if chars.len() > 0 {
            let c = chars[0];
            proof { lemma_take_next(chars@, 0); }
            let newline = c == '\n';
            Lexer {
                input,
                chars,
                position: 0,
                read_position: 1,
                ch: Some(c),
                line: if newline { 2 } else { 1 },
                column: if newline { 0 } else { 1 },
            }
        } else {
            Lexer { input, chars, position: 0, read_position: 0, ch: None, line: 1, column: 0 }
        }
    }
}

} // verus!
