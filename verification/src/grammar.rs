//! What the parser computes, stated over a mathematical parser state.
//!
//! Each function here describes one step of the parser in `parser`: from the
//! source text and a state it gives the value parsed (or `None` where the
//! parser reports an error) and the state after the step. The parser proves
//! that it does exactly this. Where a recursive step is taken on a state
//! that was reached by earlier steps, the description first checks that what
//! is left to read has shrunk; the parser shows that this check always passes.

use vstd::prelude::*;
use crate::expr::{Expr, ExprView, Operator, Unary, Variable, exprs_view, raw_text};
use crate::lexer::{column_at, lex, line_at};
use crate::text::{str_debug_text, trimmed};
use crate::token::{TokenKeyword, TokenPunctuator, TokenTypeView, token_desc};

verus! {

/// Binding powers of the binary operators, from loosest to tightest.
#[derive(Debug, Clone, Copy, PartialEq, Eq, Structural)]
pub enum Precedence {
    Lowest,
    /// ||
    Or,
    /// &&
    And,
    /// == !=
    Equality,
    /// < > <= >=
    Comparison,
    /// |
    BitOr,
    /// ^
    BitXor,
    /// &
    BitAnd,
    /// << >>
    Shift,
    /// + -
    Sum,
    /// A level between `+` and `*` that no operator takes: `%` binds as `*`
    /// and `/` do, so that `a % b * c` is `(a % b) * c`.
    Modulo,
    /// * / %
    Product,
    Prefix,
    /// += -= *= /=
    MOV,
}

/// The rank of a binding power: a later variant binds tighter.
pub open spec fn prec_rank(p: Precedence) -> nat {
    match p {
        Precedence::Lowest => 0,
        Precedence::Or => 1,
        Precedence::And => 2,
        Precedence::Equality => 3,
        Precedence::Comparison => 4,
        Precedence::BitOr => 5,
        Precedence::BitXor => 6,
        Precedence::BitAnd => 7,
        Precedence::Shift => 8,
        Precedence::Sum => 9,
        Precedence::Modulo => 10,
        Precedence::Product => 11,
        Precedence::Prefix => 12,
        Precedence::MOV => 13,
    }
}

/// The binding power of a token type (`Lowest` for anything that is not a
/// binary operator).
pub open spec fn token_precedence(t: TokenTypeView) -> Precedence {
    match t {
        TokenTypeView::Punctuator(p) => match p {
            TokenPunctuator::Plus | TokenPunctuator::Minus => Precedence::Sum,
            TokenPunctuator::Modulo => Precedence::Product,
            TokenPunctuator::Multiply | TokenPunctuator::Divide => Precedence::Product,
            TokenPunctuator::Or => Precedence::Or,
            TokenPunctuator::And => Precedence::And,
            TokenPunctuator::Not => Precedence::Prefix,
            TokenPunctuator::LShift | TokenPunctuator::RShift => Precedence::Shift,
            TokenPunctuator::Equal | TokenPunctuator::NE => Precedence::Equality,
            TokenPunctuator::GT | TokenPunctuator::GTE
            | TokenPunctuator::LT | TokenPunctuator::LTE => Precedence::Comparison,
            TokenPunctuator::BitOr => Precedence::BitOr,
            TokenPunctuator::BitXor => Precedence::BitXor,
            TokenPunctuator::BitAnd => Precedence::BitAnd,
            TokenPunctuator::ADD | TokenPunctuator::SUB
            | TokenPunctuator::MUL | TokenPunctuator::DIV => Precedence::MOV,
            _ => Precedence::Lowest,
        },
        _ => Precedence::Lowest,
    }
}

/// The operator that an operator token stands for (`+` for any other token).
pub open spec fn token_operator(t: TokenTypeView) -> Operator {
    match t {
        TokenTypeView::Punctuator(p) => match p {
            TokenPunctuator::Minus => Operator::Subtract,
            TokenPunctuator::Multiply => Operator::Multiply,
            TokenPunctuator::Divide => Operator::Divide,
            TokenPunctuator::Modulo => Operator::Modulo,
            TokenPunctuator::Or => Operator::Or,
            TokenPunctuator::And => Operator::And,
            TokenPunctuator::Not => Operator::Not,
            TokenPunctuator::LShift => Operator::LShift,
            TokenPunctuator::RShift => Operator::RShift,
            TokenPunctuator::Equal => Operator::Equal,
            TokenPunctuator::NE => Operator::NE,
            TokenPunctuator::GT => Operator::GT,
            TokenPunctuator::GTE => Operator::GTE,
            TokenPunctuator::LT => Operator::LT,
            TokenPunctuator::LTE => Operator::LTE,
            TokenPunctuator::BitOr => Operator::BitOr,
            TokenPunctuator::BitXor => Operator::BitXor,
            TokenPunctuator::BitAnd => Operator::BitAnd,
            TokenPunctuator::ADD => Operator::ADD,
            TokenPunctuator::SUB => Operator::SUB,
            TokenPunctuator::MUL => Operator::MUL,
            TokenPunctuator::DIV => Operator::DIV,
            TokenPunctuator::MOD => Operator::MOD,
            _ => Operator::Plus,
        },
        _ => Operator::Plus,
    }
}

/// The binding power of an operator, the same as that of its token
/// (`Lowest` for the update operators, which are never binary).
pub open spec fn operator_precedence(op: Operator) -> Precedence {
    match op {
        Operator::Plus | Operator::Subtract => Precedence::Sum,
        Operator::Multiply | Operator::Divide => Precedence::Product,
        Operator::Modulo => Precedence::Product,
        Operator::Or => Precedence::Or,
        Operator::And => Precedence::And,
        Operator::Not => Precedence::Prefix,
        Operator::LShift | Operator::RShift => Precedence::Shift,
        Operator::Equal | Operator::NE => Precedence::Equality,
        Operator::GT | Operator::GTE | Operator::LT | Operator::LTE => Precedence::Comparison,
        Operator::BitOr => Precedence::BitOr,
        Operator::BitXor => Precedence::BitXor,
        Operator::BitAnd => Precedence::BitAnd,
        Operator::ADD | Operator::SUB | Operator::MUL | Operator::DIV | Operator::MOD => Precedence::MOV,
        Operator::INC | Operator::DEC => Precedence::Lowest,
    }
}

/// The tokens that stand for a binary or assignment operator.
pub open spec fn is_operator_token(t: TokenTypeView) -> bool {
    match t {
        TokenTypeView::Punctuator(p) => match p {
            TokenPunctuator::Plus | TokenPunctuator::Minus | TokenPunctuator::Multiply
            | TokenPunctuator::Divide | TokenPunctuator::Modulo | TokenPunctuator::Or
            | TokenPunctuator::And | TokenPunctuator::Not | TokenPunctuator::LShift
            | TokenPunctuator::RShift | TokenPunctuator::Equal | TokenPunctuator::NE
            | TokenPunctuator::GT | TokenPunctuator::GTE | TokenPunctuator::LT
            | TokenPunctuator::LTE | TokenPunctuator::BitOr | TokenPunctuator::BitXor
            | TokenPunctuator::BitAnd | TokenPunctuator::ADD | TokenPunctuator::SUB
            | TokenPunctuator::MUL | TokenPunctuator::DIV | TokenPunctuator::MOD => true,
            _ => false,
        },
        _ => false,
    }
}

/// The prefix operator that a token stands for.
pub open spec fn unary_of(t: TokenTypeView) -> Option<Unary> {
    match t {
        TokenTypeView::Punctuator(TokenPunctuator::Not) => Some(Unary::Not),
        TokenTypeView::Punctuator(TokenPunctuator::Plus) => Some(Unary::Plus),
        TokenTypeView::Punctuator(TokenPunctuator::Minus) => Some(Unary::Minus),
        TokenTypeView::Punctuator(TokenPunctuator::BitNot) => Some(Unary::BitNot),
        _ => None,
    }
}

/// The expressions that may stand as a condition or an argument.
pub open spec fn valid_view(e: ExprView) -> bool {
    match e {
        ExprView::Unary(_, _) | ExprView::Identifier(_) | ExprView::Template(_, _)
        | ExprView::Literal(_) | ExprView::Call(_, _) | ExprView::Member(_, _)
        | ExprView::Sequence(_) | ExprView::Infix(_, _, _) | ExprView::Update(_, _, _)
        | ExprView::Assignment(_) | ExprView::Variable(_) => true,
        _ => false,
    }
}

/// `)`, `}` or `]`.
pub open spec fn is_closing(t: TokenTypeView) -> bool {
    t.is_ptor(TokenPunctuator::RParen) || t.is_ptor(TokenPunctuator::RCParen)
        || t.is_ptor(TokenPunctuator::RSParen)
}

/// Whether some entry has the key `key`.
pub open spec fn has_entry(v: Seq<(Seq<char>, ExprView)>, key: Seq<char>) -> bool {
    exists|i: int| 0 <= i < v.len() && #[trigger] v[i].0 == key
}

/// The entries with `key` set to `value`: the entry with that key takes the
/// new value, or a new entry is added at the end.
pub open spec fn entries_insert(v: Seq<(Seq<char>, ExprView)>, key: Seq<char>, value: ExprView) -> Seq<(Seq<char>, ExprView)> {
    if has_entry(v, key) {
        let i = choose|i: int| 0 <= i < v.len() && #[trigger] v[i].0 == key;
        v.update(i, (key, value))
    } else {
        v.push((key, value))
    }
}

/// The parser's result `r` is what a description gives: the same value, or
/// the same error message.
pub open spec fn gives(r: Result<Expr, String>, o: Result<ExprView, Seq<char>>) -> bool {
    match r {
        Ok(e) => o == Ok::<ExprView, Seq<char>>(e@),
        Err(m) => o == Err::<ExprView, Seq<char>>(m@),
    }
}

/// The parser's list result `r` is what a description gives.
pub open spec fn gives_list(r: Result<Vec<Expr>, String>, o: Result<Seq<ExprView>, Seq<char>>) -> bool {
    match r {
        Ok(v) => o == Ok::<Seq<ExprView>, Seq<char>>(exprs_view(v@)),
        Err(m) => o == Err::<Seq<ExprView>, Seq<char>>(m@),
    }
}

/// The parser's state: where the lexer stands, the token under the cursor
/// and the one after it (with their lines and columns), and the permission
/// flags.
pub ghost struct PState {
    pub cursor: int,
    pub cur: TokenTypeView,
    pub cur_line: int,
    pub cur_col: int,
    pub peek: TokenTypeView,
    pub peek_line: int,
    pub peek_col: int,
    /// A function may have no name.
    pub fn_name_empty: bool,
    /// `return` is allowed.
    pub ret: bool,
    /// `break` is allowed.
    pub brk: bool,
    /// `continue` is allowed.
    pub cont: bool,
    /// `{` opens an object literal.
    pub json: bool,
}

/// What a step gives: the value parsed or the message of an error, and the
/// state after it.
pub type Step = (Result<ExprView, Seq<char>>, PState);

/// What a step that parses a list gives.
pub type ListStep = (Result<Seq<ExprView>, Seq<char>>, PState);

/// The message of an error raised in state `s`: the current token's
/// description and `text`, in red.
pub open spec fn err_msg(s: PState, text: Seq<char>) -> Seq<char> {
    "\u{1b}[31m("@ + token_desc(s.cur, s.cur_line as nat, s.cur_col as nat) + ") "@ + text + " \u{1b}[39m"@
}

/// An error raised in state `s` with `text`.
pub open spec fn fail<T>(s: PState, text: Seq<char>) -> (Result<T, Seq<char>>, PState) {
    (Err(err_msg(s, text)), s)
}

/// A branch that the parser never takes: it is taken only where what is left
/// to read would not have shrunk, and the parser shows that it always does.
pub open spec fn stuck<T>(s: PState) -> (Result<T, Seq<char>>, PState) {
    (Err(Seq::empty()), s)
}

/// The state of a fresh parser whose lexer starts at `start`: it holds the
/// first two tokens and no permission flag is set.
pub open spec fn init_state(src: Seq<char>, start: int) -> PState {
    let a = lex(src, start);
    let b = lex(src, a.next);
    PState {
        cursor: b.next,
        cur: a.kind,
        cur_line: line_at(src, a.line_pos) as int,
        cur_col: column_at(src, a.col_pos) as int,
        peek: b.kind,
        peek_line: line_at(src, b.line_pos) as int,
        peek_col: column_at(src, b.col_pos) as int,
        fn_name_empty: false,
        ret: false,
        brk: false,
        cont: false,
        json: false,
    }
}

/// One token further: the lookahead becomes current and the lexer reads the
/// next one.
pub open spec fn advance(src: Seq<char>, s: PState) -> PState {
    let st = lex(src, s.cursor);
    PState {
        cursor: st.next,
        cur: s.peek,
        cur_line: s.peek_line,
        cur_col: s.peek_col,
        peek: st.kind,
        peek_line: line_at(src, st.line_pos) as int,
        peek_col: column_at(src, st.col_pos) as int,
        ..s
    }
}

pub open spec fn with_json(s: PState, b: bool) -> PState {
    PState { json: b, ..s }
}

/// A step whose state has the object-literal flag set to `b`.
pub open spec fn with_json_step(step: Step, b: bool) -> Step {
    (step.0, with_json(step.1, b))
}

pub open spec fn with_fn_name_empty(s: PState, b: bool) -> PState {
    PState { fn_name_empty: b, ..s }
}

pub open spec fn with_ret(s: PState, b: bool) -> PState {
    PState { ret: b, ..s }
}

pub open spec fn with_brk(s: PState, b: bool) -> PState {
    PState { brk: b, ..s }
}

/// Both `break` and `continue` set to `b`.
pub open spec fn with_loop(s: PState, b: bool) -> PState {
    PState { brk: b, cont: b, ..s }
}

/// `break` and `continue` set back to what they were in `before`.
pub open spec fn loop_flags_of(s: PState, before: PState) -> PState {
    PState { brk: before.brk, cont: before.cont, ..s }
}

/// A token that counts toward what is left to read.
pub open spec fn weight(t: TokenTypeView) -> nat {
    if t is EOF { 0 } else { 1 }
}

/// What is left to read: the unread characters and the two tokens in hand
/// that are not the end of input.
pub open spec fn measure(src: Seq<char>, s: PState) -> nat {
    ((src.len() - s.cursor) + weight(s.cur) + weight(s.peek)) as nat
}

/// Less is left to read in `a` than in `b`.
pub open spec fn shrunk(src: Seq<char>, a: PState, b: PState) -> bool {
    measure(src, a) < measure(src, b)
}

/// No more is left to read in `a` than in `b`.
pub open spec fn kept_size(src: Seq<char>, a: PState, b: PState) -> bool {
    measure(src, a) <= measure(src, b)
}

/// Steps over a `;` under the cursor when `skip` is set.
pub open spec fn skip_semi(src: Seq<char>, s: PState, skip: bool) -> PState {
    if skip && s.cur.is_ptor(TokenPunctuator::Semicolon) {
        advance(src, s)
    } else {
        s
    }
}

/// One statement or expression at the cursor; with `skip`, a `;` that ends
/// it is stepped over.
pub open spec fn p_parse(src: Seq<char>, s: PState, skip: bool) -> Step
    decreases src.len(), measure(src, s), 30nat, 0nat,
{
    match s.cur {
        TokenTypeView::Literal(_) => p_literal_stmt(src, s, skip),
        TokenTypeView::Ident(_) => p_ident_stmt(src, s, skip),
        TokenTypeView::Punctuator(_) => p_punct_stmt(src, s, skip),
        TokenTypeView::Keyword(_) => p_keyword_stmt(src, s, skip),
        TokenTypeView::Template(_, _) => p_template(src, s),
        TokenTypeView::EOF => fail(s, "未知解析"@),
        _ => fail(s, s.cur.raw()),
    }
}

/// A statement that starts with a number or a string.
pub open spec fn p_literal_stmt(src: Seq<char>, s: PState, skip: bool) -> Step
    decreases src.len(), measure(src, s), 29nat, 0nat,
{
    let (o, s1) = p_infix(src, s, ExprView::Empty, Precedence::Lowest);
    match o {
        Ok(e) => (Ok(e), skip_semi(src, s1, skip)),
        Err(m) => (Err(m), s1),
    }
}

/// A template: each `${..}` source is parsed on its own.
pub open spec fn p_template(src: Seq<char>, s: PState) -> Step
    decreases src.len(), measure(src, s), 29nat, 0nat,
{
    match s.cur {
        TokenTypeView::Template(pieces, sources) => match p_template_parts(src, s, sources, 0) {
            Ok(parts) => (Ok(ExprView::Template(pieces, parts)), advance(src, s)),
            Err(m) => (Err(m), s),
        },
        _ => stuck(s),
    }
}

/// The expressions of the template sources from the `i`-th on, each parsed
/// by a fresh parser; the first error if one of them fails.
pub open spec fn p_template_parts(src: Seq<char>, s: PState, sources: Seq<Seq<char>>, i: int)
    -> Result<Seq<ExprView>, Seq<char>>
    decreases src.len(), measure(src, s), 28nat, (sources.len() - i) as nat,
{
    if i < 0 || i >= sources.len() {
        Ok(Seq::empty())
    } else if sources[i].len() < src.len() {
        match p_parse(sources[i], init_state(sources[i], 0), false).0 {
            Ok(e) => match p_template_parts(src, s, sources, i + 1) {
                Ok(rest) => Ok(seq![e] + rest),
                Err(m) => Err(m),
            },
            Err(m) => Err(m),
        }
    } else {
        Err(Seq::empty())
    }
}

/// A statement that starts with an identifier.
pub open spec fn p_ident_stmt(src: Seq<char>, s: PState, skip: bool) -> Step
    decreases src.len(), measure(src, s), 29nat, 0nat,
{
    let ident = s.cur.raw();
    if s.peek.is_eof(true) {
        (Ok(ExprView::Identifier(ident)), advance(src, advance(src, s)))
    } else if s.peek is Keyword {
        if s.cur_line == s.peek_line {
            fail(s, "Unexpected token"@)
        } else {
            (Ok(ExprView::Identifier(ident)), advance(src, s))
        }
    } else if s.peek.is_ptor(TokenPunctuator::Comma) {
        (Ok(ExprView::Identifier(ident)), advance(src, s))
    } else if s.peek.is_ptor(TokenPunctuator::MOV) {
        let set = !s.json;
        let s1 = if set { with_json(s, true) } else { s };
        let s2 = advance(src, advance(src, s1));
        if s2.cur.is_eof(true) {
            fail(s2, "Unexpected token"@)
        } else if shrunk(src, s2, s) {
            let (o, s3) = p_parse(src, s2, skip);
            match o {
                Ok(e) => if shrunk(src, s3, s) {
                    let (o2, s4) = p_assign_loop(src, s3, seq![(ident, e)], skip);
                    match o2 {
                        Ok(v) => (Ok(ExprView::Assignment(v)), if set { with_json(s4, false) } else { s4 }),
                        Err(m) => (Err(m), s4),
                    }
                } else {
                    stuck(s3)
                },
                Err(m) => (Err(m), s3),
            }
        } else {
            stuck(s2)
        }
    } else if s.peek.is_complex() {
        let (o, s1) = p_infix(src, s, ExprView::Empty, Precedence::Lowest);
        match o {
            Ok(e) => (Ok(e), skip_semi(src, s1, skip)),
            Err(m) => (Err(m), s1),
        }
    } else if s.peek.is_update() {
        let op = if s.peek.is_ptor(TokenPunctuator::INC) { "++"@ } else { "--"@ };
        let s1 = advance(src, advance(src, s));
        (Ok(ExprView::Update(Box::new(ExprView::Identifier(ident)), op, false)), skip_semi(src, s1, skip))
    } else if s.peek.is_ptor(TokenPunctuator::Colon) {
        let (o, s1) = p_base_typ(src, s, s.cur);
        match o {
            Ok(e) => (Ok(e), advance(src, s1)),
            Err(m) => (Err(m), s1),
        }
    } else if is_closing(s.peek) {
        let s1 = advance(src, s);
        if shrunk(src, s1, s) {
            p_base_typ(src, s1, s.cur)
        } else {
            stuck(s1)
        }
    } else {
        fail(s, "Unexpected token"@)
    }
}

/// The entries after the first of an assignment `a = .., b = ..`.
pub open spec fn p_assign_loop(src: Seq<char>, s: PState, acc: Seq<(Seq<char>, ExprView)>, skip: bool)
    -> (Result<Seq<(Seq<char>, ExprView)>, Seq<char>>, PState)
    decreases src.len(), measure(src, s), 32nat, 0nat,
{
    if s.cur.is_ptor(TokenPunctuator::Comma) {
        let s1 = advance(src, s);
        if shrunk(src, s1, s) {
            let (o, s2) = p_parse(src, s1, skip);
            match o {
                Ok(e) => {
                    let acc2 = match e {
                        ExprView::Assignment(t) => acc + t,
                        ExprView::Identifier(t) => acc.push((t, ExprView::Empty)),
                        _ => acc,
                    };
                    if shrunk(src, s2, s) {
                        p_assign_loop(src, s2, acc2, skip)
                    } else {
                        stuck(s2)
                    }
                },
                Err(m) => (Err(m), s2),
            }
        } else {
            stuck(s1)
        }
    } else {
        (Ok(acc), s)
    }
}

/// A statement that starts with a punctuator.
pub open spec fn p_punct_stmt(src: Seq<char>, s: PState, skip: bool) -> Step
    decreases src.len(), measure(src, s), 29nat, 0nat,
{
    if s.cur.is_ptor(TokenPunctuator::LCParen) {
        if s.json {
            let (o, s1) = p_json(src, s);
            match o {
                Ok(e) => (Ok(e), skip_semi(src, s1, skip)),
                Err(m) => (Err(m), s1),
            }
        } else {
            p_body_slot(src, s, false)
        }
    } else if s.cur.is_ptor(TokenPunctuator::LSParen) {
        let (o, s1) = p_array(src, s);
        match o {
            Ok(e) => (Ok(e), skip_semi(src, s1, skip)),
            Err(m) => (Err(m), s1),
        }
    } else if s.cur.is_ptor(TokenPunctuator::Semicolon) {
        if s.peek.is_eof(false) {
            (Ok(ExprView::Empty), advance(src, s))
        } else {
            p_base_typ(src, s, s.cur)
        }
    } else if s.cur.is_ptor(TokenPunctuator::Comma) {
        p_base_typ(src, s, s.cur)
    } else if s.cur.is_update() && s.peek is Ident {
        let op = if s.cur.is_ptor(TokenPunctuator::INC) { "++"@ } else { "--"@ };
        let s1 = advance(src, s);
        if shrunk(src, s1, s) {
            let (o, s2) = p_checked_base(src, s1);
            match o {
                Ok(id) => if s2.cur.is_complex() {
                    fail(s2, "暂不支持未定义行为"@)
                } else {
                    (Ok(ExprView::Update(Box::new(id), op, true)), skip_semi(src, s2, skip))
                },
                Err(m) => (Err(m), s2),
            }
        } else {
            stuck(s1)
        }
    } else if s.cur.is_unary() {
        let s1 = advance(src, s);
        if shrunk(src, s1, s) {
            let (o, s2) = p_parse(src, s1, skip);
            match o {
                Ok(e) => (Ok(ExprView::Unary(unary_of(s.cur)->0, Box::new(e))), s2),
                Err(m) => (Err(m), s2),
            }
        } else {
            stuck(s1)
        }
    } else if is_closing(s.cur) {
        let s1 = advance(src, s);
        if shrunk(src, s1, s) {
            p_base_typ(src, s1, s.cur)
        } else {
            stuck(s1)
        }
    } else {
        fail(s, "Unexpected token"@)
    }
}

/// A statement that starts with a keyword.
pub open spec fn p_keyword_stmt(src: Seq<char>, s: PState, skip: bool) -> Step
    decreases src.len(), measure(src, s), 29nat, 0nat,
{
    match s.cur {
        TokenTypeView::Keyword(k) => match k {
            TokenKeyword::Let | TokenKeyword::Var | TokenKeyword::Const => p_variable_stmt(src, s, skip),
            TokenKeyword::If => {
                let (o, s1) = p_if(src, s);
                (o, skip_semi(src, s1, skip))
            },
            TokenKeyword::Else => fail(s, "Unexpected token else"@),
            TokenKeyword::Swith => {
                let (o, s1) = p_switch(src, s);
                (o, skip_semi(src, s1, skip))
            },
            TokenKeyword::For => {
                let (o, s1) = p_for(src, s);
                (o, skip_semi(src, s1, skip))
            },
            TokenKeyword::Break => if s.brk {
                (Ok(ExprView::Break), skip_semi(src, advance(src, s), skip))
            } else {
                fail(s, "Illegal break statement"@)
            },
            TokenKeyword::Continue => if s.cont {
                (Ok(ExprView::Continue), skip_semi(src, advance(src, s), skip))
            } else {
                fail(s, "Illegal continue statement"@)
            },
            TokenKeyword::Return => p_return_stmt(src, s, skip),
            TokenKeyword::Function => {
                let (o, s1) = p_function(src, s);
                (o, skip_semi(src, s1, skip))
            },
            TokenKeyword::While => {
                let (o, s1) = p_while(src, s);
                (o, skip_semi(src, s1, skip))
            },
            TokenKeyword::Do => {
                let (o, s1) = p_do_while(src, s);
                (o, skip_semi(src, s1, skip))
            },
            _ => fail(s, "Unexpected token"@),
        },
        _ => stuck(s),
    }
}

/// The keyword of a declaration that starts with the token `t`.
pub open spec fn declaration_keyword(t: TokenTypeView) -> Variable {
    if t.is_keyword(TokenKeyword::Var) {
        Variable::Var
    } else if t.is_keyword(TokenKeyword::Let) {
        Variable::Let
    } else {
        Variable::Const
    }
}

/// The entries of an assignment as declarations with the keyword `key`.
pub open spec fn declared(key: Variable, t: Seq<(Seq<char>, ExprView)>) -> Seq<(Variable, Seq<char>, ExprView)> {
    t.map_values(|p: (Seq<char>, ExprView)| (key, p.0, p.1))
}

/// `let`, `var` or `const` with its declarations.
pub open spec fn p_variable_stmt(src: Seq<char>, s: PState, skip: bool) -> Step
    decreases src.len(), measure(src, s), 25nat, 0nat,
{
    let s1 = advance(src, s);
    if !(s1.cur is Ident) {
        fail(s1, "Unexpected end of input"@)
    } else if shrunk(src, s1, s) {
        let key = declaration_keyword(s.cur);
        let (o, s2) = p_var_loop(src, with_fn_name_empty(s1, true), seq![], key, skip);
        match o {
            Ok(v) => (Ok(ExprView::Variable(v)), skip_semi(src, with_fn_name_empty(s2, false), skip)),
            Err(m) => (Err(m), s2),
        }
    } else {
        stuck(s1)
    }
}

/// The declarations of a `let`, `var` or `const`, separated by `,`.
pub open spec fn p_var_loop(src: Seq<char>, s: PState, acc: Seq<(Variable, Seq<char>, ExprView)>, key: Variable, skip: bool)
    -> (Result<Seq<(Variable, Seq<char>, ExprView)>, Seq<char>>, PState)
    decreases src.len(), measure(src, s), 32nat, 0nat,
{
    let (o, s1) = p_parse(src, s, skip);
    match o {
        Ok(e) => {
            let acc2 = match e {
                ExprView::Assignment(t) => acc + declared(key, t),
                _ => acc,
            };
            if s1.cur.is_ptor(TokenPunctuator::Comma) {
                let s2 = advance(src, s1);
                if shrunk(src, s2, s) {
                    p_var_loop(src, s2, acc2, key, skip)
                } else {
                    stuck(s2)
                }
            } else {
                (Ok(acc2), s1)
            }
        },
        Err(m) => (Err(m), s1),
    }
}

/// `return`, with or without a value.
pub open spec fn p_return_stmt(src: Seq<char>, s: PState, skip: bool) -> Step
    decreases src.len(), measure(src, s), 25nat, 0nat,
{
    if !s.ret {
        fail(s, "Illegal return statement"@)
    } else {
        let s1 = advance(src, with_fn_name_empty(s, true));
        if s1.cur.is_ptor(TokenPunctuator::Semicolon) {
            (Ok(ExprView::Return(Box::new(ExprView::Empty))), skip_semi(src, advance(src, s1), skip))
        } else if shrunk(src, s1, s) {
            let (o, s2) = p_parse(src, s1, skip);
            match o {
                Ok(e) => if (e is Infix || e is Call || e is Function || e is Identifier
                    || e is Assignment || e is Literal) {
                    let s3 = skip_semi(src, skip_semi(src, with_fn_name_empty(s2, false), skip), skip);
                    (Ok(ExprView::Return(Box::new(e))), s3)
                } else {
                    fail(s2, "Unexpected token"@)
                },
                Err(m) => (Err(m), s2),
            }
        } else {
            stuck(s1)
        }
    }
}

/// The expression that the token `t` stands for: a prefix operator with the
/// expression after it, an identifier, a quoted literal, or nothing. An
/// unquoted literal is an error with an empty message.
pub open spec fn p_base_typ(src: Seq<char>, s: PState, t: TokenTypeView) -> Step
    decreases src.len(), measure(src, s), 27nat, 0nat,
{
    if t.is_unary() {
        match unary_of(s.cur) {
            Some(u) => {
                let s1 = advance(src, s);
                if shrunk(src, s1, s) {
                    let (o, s2) = p_parse(src, s1, true);
                    match o {
                        Ok(e) => (Ok(ExprView::Unary(u, Box::new(e))), s2),
                        Err(m) => (Err(m), s2),
                    }
                } else {
                    stuck(s1)
                }
            },
            None => fail(s, "Unexpected token"@),
        }
    } else if t is Ident {
        (Ok(ExprView::Identifier(t.raw())), s)
    } else if t is Literal {
        let raw = t.raw();
        if raw.len() > 0 && (raw[0] == '"' || raw[0] == '\'') {
            (Ok(ExprView::Literal(raw)), s)
        } else {
            (Err(Seq::empty()), s)
        }
    } else {
        (Ok(ExprView::Empty), s)
    }
}

/// Operators and operands from the cursor for as long as they bind tighter
/// than `prec`, starting from `left` (or from the operand at the cursor when
/// `left` is empty).
pub open spec fn p_infix(src: Seq<char>, s: PState, left: ExprView, prec: Precedence) -> Step
    decreases src.len(), measure(src, s), 28nat, 0nat,
{
    let (o, s1) = if left is Empty { p_checked_base(src, s) } else { (Ok(left), s) };
    match o {
        Ok(l) => if kept_size(src, s1, s) {
            p_infix_loop(src, s1, l, prec)
        } else {
            stuck(s1)
        },
        Err(m) => (Err(m), s1),
    }
}

/// The expressions that may stand as the left operand of an infix operator.
pub open spec fn infix_operand(e: ExprView) -> bool {
    match e {
        ExprView::Identifier(_) | ExprView::Literal(_) | ExprView::Template(_, _)
        | ExprView::Unary(_, _) | ExprView::Call(_, _) | ExprView::Infix(_, _, _) => true,
        _ => false,
    }
}

/// The operator loop of `p_infix`: each operator takes as its right operand
/// everything after it that binds tighter than it does, so that operators
/// group by binding power, and equal ones from the left.
pub open spec fn p_infix_loop(src: Seq<char>, s: PState, left: ExprView, prec: Precedence) -> Step
    decreases src.len(), measure(src, s), 27nat, 0nat,
{
    if !(prec_rank(prec) < prec_rank(token_precedence(s.cur))) {
        (Ok(left), s)
    } else {
        let op = token_operator(s.cur);
        let s1 = advance(src, s);
        if shrunk(src, s1, s) {
            let (o, s2) = p_infix(src, s1, ExprView::Empty, operator_precedence(op));
            match o {
                Ok(right) => if !infix_operand(left) {
                    fail(s2, "Unexpected token"@)
                } else if shrunk(src, s2, s) {
                    p_infix_loop(src, s2, ExprView::Infix(Box::new(left), op, Box::new(right)), prec)
                } else {
                    stuck(s2)
                },
                Err(m) => (Err(m), s2),
            }
        } else {
            stuck(s1)
        }
    }
}

/// The operand at the cursor: an identifier (or a call or member access on
/// it), a literal (without surrounding `"`), or a bracketed expression.
pub open spec fn p_checked_base(src: Seq<char>, s: PState) -> Step
    decreases src.len(), measure(src, s), 26nat, 0nat,
{
    match s.cur {
        TokenTypeView::Ident(t) => if s.peek.is_ptor(TokenPunctuator::LParen)
            || s.peek.is_ptor(TokenPunctuator::Dot) || s.peek.is_ptor(TokenPunctuator::LSParen) {
            p_call_or_member(src, s)
        } else {
            (Ok(ExprView::Identifier(t)), advance(src, s))
        },
        TokenTypeView::Literal(t) => (Ok(ExprView::Literal(trimmed(t, '"'))), advance(src, s)),
        TokenTypeView::Punctuator(p) => if p.spec_is_precedence() {
            fail(s, "Unexpected token"@)
        } else if p == TokenPunctuator::LParen || p == TokenPunctuator::LSParen {
            let s1 = advance(src, s);
            if shrunk(src, s1, s) {
                let (o, s2) = p_parse(src, s1, true);
                match o {
                    Ok(e) => (Ok(e), advance(src, s2)),
                    Err(m) => (Err(m), s2),
                }
            } else {
                stuck(s1)
            }
        } else {
            fail(s, "未知解析"@)
        },
        _ => fail(s, "未知解析"@),
    }
}

/// An identifier followed by any chain of calls `(..)`, indexes `[..]` and
/// properties `.name`.
pub open spec fn p_call_or_member(src: Seq<char>, s: PState) -> Step
    decreases src.len(), measure(src, s), 24nat, 0nat,
{
    let s1 = advance(src, s);
    if shrunk(src, s1, s) {
        p_chain(src, s1, ExprView::Empty, s.cur.raw())
    } else {
        stuck(s1)
    }
}

/// The chain loop of `p_call_or_member`, with the expression built so far
/// (empty before the first link) and the name it starts from.
pub open spec fn p_chain(src: Seq<char>, s: PState, expr: ExprView, name: Seq<char>) -> Step
    decreases src.len(), measure(src, s), 23nat, if expr is Empty { 1nat } else { 0nat },
{
    if s.cur.is_eof(true) || s.cur.is_ptor(TokenPunctuator::RCParen) || s.cur.is_ptor(TokenPunctuator::RParen) {
        (Ok(expr), s)
    } else if s.cur.is_ptor(TokenPunctuator::LParen) {
        if expr is Empty {
            p_chain(src, s, ExprView::Identifier(name), name)
        } else {
            let (o, s1) = p_call_slot(src, s, expr);
            match o {
                Ok(c) => if shrunk(src, s1, s) {
                    p_chain(src, s1, c, name)
                } else {
                    stuck(s1)
                },
                Err(m) => (Err(m), s1),
            }
        }
    } else if s.cur.is_ptor(TokenPunctuator::LSParen) || s.cur.is_ptor(TokenPunctuator::Dot) {
        let mem = if expr is Empty {
            ExprView::Member(Box::new(ExprView::Identifier(name)), Box::new(ExprView::Empty))
        } else {
            ExprView::Member(Box::new(expr), Box::new(ExprView::Empty))
        };
        let (mem2, s1) = p_member_slot(src, s, mem);
        if shrunk(src, s1, s) {
            p_chain(src, s1, mem2, name)
        } else {
            stuck(s1)
        }
    } else {
        (Ok(expr), s)
    }
}

/// The arguments of a call of `callee`, from the `(` at the cursor. The first
/// argument is read with `{` as an object literal; the object-literal flag is
/// back as it was after the call, whether it succeeds or fails.
pub open spec fn p_call_slot(src: Seq<char>, s: PState, callee: ExprView) -> Step
    decreases src.len(), measure(src, s), 22nat, 0nat,
{
    let s1 = advance(src, s);
    if s1.cur.is_ptor(TokenPunctuator::RParen) {
        (Ok(ExprView::Call(Box::new(callee), Seq::empty())), advance(src, s1))
    } else if shrunk(src, s1, s) {
        let (o, s2) = p_parse(src, with_json(s1, true), true);
        with_json_step(match o {
            Ok(e) => if shrunk(src, s2, s) {
                call_close(src, callee, p_list_loop(src, with_json(s2, s.json), seq![e]))
            } else {
                stuck(s2)
            },
            Err(m) => (Err(m), s2),
        }, s.json)
    } else {
        stuck(s1)
    }
}

/// The end of a call of `callee` after its arguments: over the `)`.
pub open spec fn call_close(src: Seq<char>, callee: ExprView, step: ListStep) -> Step {
    match step {
        (Ok(v), s3) => if s3.cur.is_ptor(TokenPunctuator::RParen) {
            (Ok(ExprView::Call(Box::new(callee), v)), advance(src, s3))
        } else {
            fail(s3, "Unexpected end of input"@)
        },
        (Err(m), s3) => (Err(m), s3),
    }
}

/// Further items of a list, each after a `,`; each must be a valid
/// expression.
pub open spec fn p_list_loop(src: Seq<char>, s: PState, acc: Seq<ExprView>) -> ListStep
    decreases src.len(), measure(src, s), 32nat, 0nat,
{
    if s.cur.is_ptor(TokenPunctuator::Comma) {
        let s1 = advance(src, s);
        if shrunk(src, s1, s) {
            let (o, s2) = p_parse(src, s1, true);
            match o {
                Ok(e) => if !valid_view(e) {
                    fail(s2, "Unexpected token"@)
                } else if shrunk(src, s2, s) {
                    p_list_loop(src, s2, acc.push(e))
                } else {
                    stuck(s2)
                },
                Err(m) => (Err(m), s2),
            }
        } else {
            stuck(s1)
        }
    } else {
        (Ok(acc), s)
    }
}

/// `mem` with its property replaced by `p`, where it is a member access.
pub open spec fn with_property(mem: ExprView, p: ExprView) -> ExprView {
    match mem {
        ExprView::Member(object, _) => ExprView::Member(object, Box::new(p)),
        _ => mem,
    }
}

/// The end of an index `[..]` of `mem` after its items: the property is the
/// one item or the sequence of them, then the `]` is stepped over.
pub open spec fn member_close(src: Seq<char>, mem: ExprView, step: ListStep) -> (ExprView, PState) {
    match step {
        (Ok(v), s3) => if !(mem is Member) {
            (mem, s3)
        } else {
            let m2 = with_property(mem, if v.len() == 1 { v[0] } else { ExprView::Sequence(v) });
            (m2, if s3.cur.is_ptor(TokenPunctuator::RSParen) { advance(src, s3) } else { s3 })
        },
        (Err(_), s3) => (mem, s3),
    }
}

/// The property of the member access `mem`, from the `.` or `[` at the
/// cursor: the member access after it, and the state. An error leaves the
/// node as it stands.
pub open spec fn p_member_slot(src: Seq<char>, s: PState, mem: ExprView) -> (ExprView, PState)
    decreases src.len(), measure(src, s), 22nat, 0nat,
{
    let s1 = advance(src, s);
    if s.cur.is_ptor(TokenPunctuator::Dot) {
        if s1.cur is Ident {
            (with_property(mem, ExprView::Identifier(s1.cur.raw())), advance(src, s1))
        } else {
            (mem, s1)
        }
    } else if s.cur.is_ptor(TokenPunctuator::LSParen) && shrunk(src, s1, s) {
        let (o, s2) = p_parse(src, s1, true);
        match o {
            Ok(e) => if !valid_view(e) {
                (mem, s2)
            } else if shrunk(src, s2, s) {
                member_close(src, mem, p_list_loop(src, s2, seq![e]))
            } else {
                (mem, s2)
            },
            Err(_) => (mem, s2),
        }
    } else {
        (mem, s1)
    }
}

/// The array of the items read.
pub open spec fn wrap_array(step: ListStep) -> Step {
    match step {
        (Ok(v), s2) => (Ok(ExprView::Array(v)), s2),
        (Err(m), s2) => (Err(m), s2),
    }
}

/// An array literal, from the `[` at the cursor.
pub open spec fn p_array(src: Seq<char>, s: PState) -> Step
    decreases src.len(), measure(src, s), 25nat, 0nat,
{
    let s1 = advance(src, s);
    if s1.cur.is_ptor(TokenPunctuator::RSParen) {
        (Ok(ExprView::Array(Seq::empty())), advance(src, s1))
    } else if shrunk(src, s1, s) {
        wrap_array(p_array_loop(src, s1, Seq::empty()))
    } else {
        stuck(s1)
    }
}

/// The items of an array literal up to and over its `]`.
pub open spec fn p_array_loop(src: Seq<char>, s: PState, acc: Seq<ExprView>) -> ListStep
    decreases src.len(), measure(src, s), 32nat, 0nat,
{
    let (o, s1) = p_parse(src, with_fn_name_empty(s, true), false);
    match o {
        Ok(e) => {
            let s2 = with_fn_name_empty(s1, false);
            if s2.cur.is_ptor(TokenPunctuator::Comma) {
                let s3 = advance(src, s2);
                if shrunk(src, s3, s) {
                    p_array_loop(src, s3, acc.push(e))
                } else {
                    stuck(s3)
                }
            } else if s2.cur.is_ptor(TokenPunctuator::RSParen) {
                (Ok(acc.push(e)), advance(src, s2))
            } else {
                fail(s2, "Unexpected token"@)
            }
        },
        Err(m) => (Err(m), s1),
    }
}

/// The object of the entries read.
pub open spec fn wrap_object(step: (Result<Seq<(Seq<char>, ExprView)>, Seq<char>>, PState)) -> Step {
    match step {
        (Ok(v), s2) => (Ok(ExprView::Object(v)), s2),
        (Err(m), s2) => (Err(m), s2),
    }
}

/// An object literal, from the `{` at the cursor.
pub open spec fn p_json(src: Seq<char>, s: PState) -> Step
    decreases src.len(), measure(src, s), 25nat, 0nat,
{
    let s1 = advance(src, s);
    if s1.cur.is_ptor(TokenPunctuator::RCParen) {
        (Ok(ExprView::Object(Seq::empty())), advance(src, s1))
    } else if shrunk(src, s1, s) {
        wrap_object(p_json_loop(src, s1, Seq::empty()))
    } else {
        stuck(s1)
    }
}

/// The end of an object literal after an entry for `key`: over the `}`, with
/// a shorthand entry for `key` added if it has none.
pub open spec fn json_close(src: Seq<char>, s: PState, acc: Seq<(Seq<char>, ExprView)>, key: Seq<char>)
    -> (Result<Seq<(Seq<char>, ExprView)>, Seq<char>>, PState)
{
    if s.cur.is_ptor(TokenPunctuator::RCParen) {
        let acc2 = if has_entry(acc, key) { acc } else { entries_insert(acc, key, ExprView::Ref(key)) };
        (Ok(acc2), advance(src, s))
    } else {
        fail(s, "Unexpected token"@)
    }
}

/// The entries of an object literal up to and over its `}`; a later entry
/// for a key replaces an earlier one.
pub open spec fn p_json_loop(src: Seq<char>, s: PState, acc: Seq<(Seq<char>, ExprView)>)
    -> (Result<Seq<(Seq<char>, ExprView)>, Seq<char>>, PState)
    decreases src.len(), measure(src, s), 32nat, 0nat,
{
    let (o, s1) = p_parse(src, s, false);
    match o {
        Ok(k) => {
            let key = raw_text(k);
            if s1.cur.is_ptor(TokenPunctuator::Colon) {
                let s2 = with_fn_name_empty(advance(src, s1), true);
                if shrunk(src, s2, s) {
                    let (o2, s3) = p_parse(src, s2, false);
                    match o2 {
                        Ok(value) => {
                            let s4 = with_fn_name_empty(s3, false);
                            let acc2 = entries_insert(acc, key, value);
                            if s4.cur.is_ptor(TokenPunctuator::Comma) {
                                let s5 = advance(src, s4);
                                if shrunk(src, s5, s) {
                                    p_json_loop(src, s5, acc2)
                                } else {
                                    stuck(s5)
                                }
                            } else {
                                json_close(src, s4, acc2, key)
                            }
                        },
                        Err(m) => (Err(m), s3),
                    }
                } else {
                    stuck(s2)
                }
            } else if s1.cur.is_ptor(TokenPunctuator::Comma) {
                let s2 = advance(src, s1);
                if shrunk(src, s2, s) {
                    p_json_loop(src, s2, entries_insert(acc, key, ExprView::Ref(key)))
                } else {
                    stuck(s2)
                }
            } else {
                json_close(src, s1, acc, key)
            }
        },
        Err(m) => (Err(m), s1),
    }
}

/// The end of a block after its statements: over the `}`.
pub open spec fn block_close(src: Seq<char>, step: ListStep) -> Step {
    match step {
        (Ok(v), s2) => if s2.cur.is_ptor(TokenPunctuator::RCParen) {
            (Ok(ExprView::Block(v)), advance(src, s2))
        } else {
            fail(s2, "Unexpected token"@)
        },
        (Err(m), s2) => (Err(m), s2),
    }
}

/// A block `{ .. }`, or with `allow_single` also a single statement that is
/// an assignment, a call, a `return` or a `break`.
pub open spec fn p_body_slot(src: Seq<char>, s: PState, allow_single: bool) -> Step
    decreases src.len(), measure(src, s), if allow_single { 31nat } else { 20nat }, 0nat,
{
    if s.cur.is_ptor(TokenPunctuator::LCParen) {
        let s1 = advance(src, s);
        if shrunk(src, s1, s) {
            block_close(src, p_block_loop(src, s1, Seq::empty()))
        } else {
            stuck(s1)
        }
    } else if !allow_single {
        fail(s, "Unexpected token"@)
    } else {
        let (o, s1) = p_parse(src, s, false);
        match o {
            Ok(e) => if (e is Assignment || e is Call || e is Return || e is Break) {
                (Ok(e), s1)
            } else {
                fail(s1, "Use of future reserved word in strict mode"@)
            },
            Err(m) => (Err(m), s1),
        }
    }
}

/// The statements of a block, up to its `}` or `;` or the end of input;
/// each must read something.
pub open spec fn p_block_loop(src: Seq<char>, s: PState, acc: Seq<ExprView>) -> ListStep
    decreases src.len(), measure(src, s), 32nat, 0nat,
{
    if s.cur.is_eof(true) || s.cur.is_ptor(TokenPunctuator::RCParen) {
        (Ok(acc), s)
    } else {
        let (o, s1) = p_parse(src, s, true);
        match o {
            Ok(e) => if shrunk(src, s1, s) {
                p_block_loop(src, s1, acc.push(e))
            } else {
                fail(s1, "Unexpected token"@)
            },
            Err(m) => (Err(m), s1),
        }
    }
}

/// After a loop body that started on line `line`: a `;` is stepped over;
/// without one the next token must be on another line, unless the body was a
/// block (`braced`, so a `}` stands before it) or the input has ended.
pub open spec fn loop_end(src: Seq<char>, s: PState, line: int, braced: bool) -> Option<PState> {
    if s.cur.is_ptor(TokenPunctuator::Semicolon) {
        Some(advance(src, s))
    } else if line == s.cur_line && !braced && !(s.cur is EOF) {
        None
    } else {
        Some(s)
    }
}

/// `do <body> while (<test>)`, from the `do` at the cursor.
pub open spec fn p_do_while(src: Seq<char>, s: PState) -> Step
    decreases src.len(), measure(src, s), 25nat, 0nat,
{
    let s1 = advance(src, s);
    if shrunk(src, s1, s) {
        let line = s1.cur_line;
        let (o, s2) = p_body_slot(src, with_loop(s1, true), true);
        match o {
            Ok(body) => {
                let s3 = loop_flags_of(s2, s);
                match loop_end(src, s3, line, body is Block) {
                    Some(s4) => match loop_end(src, s4, line, body is Block) {
                        Some(s5) => p_do_while_test(src, s, s5, body),
                        None => fail(s4, "Unexpected token"@),
                    },
                    None => fail(s3, "Unexpected token"@),
                }
            },
            Err(m) => (Err(m), s2),
        }
    } else {
        stuck(s1)
    }
}

/// The `while (<test>)` that closes a `do` loop begun at `s`, from `s5`,
/// around `body`.
pub open spec fn p_do_while_test(src: Seq<char>, s: PState, s5: PState, body: ExprView) -> Step
    decreases src.len(), measure(src, s), 24nat, 0nat,
{
    if !s5.cur.is_keyword(TokenKeyword::While) {
        fail(s5, "Unexpected end of input"@)
    } else {
        let s6 = advance(src, s5);
        if !s6.cur.is_ptor(TokenPunctuator::LParen) {
            fail(s6, "Unexpected token"@)
        } else if shrunk(src, advance(src, s6), s) {
            let (o2, s7) = p_parse(src, advance(src, s6), false);
            match o2 {
                Ok(test) => if !valid_view(test) || !s7.cur.is_ptor(TokenPunctuator::RParen) {
                    fail(s7, "Unexpected token"@)
                } else {
                    (Ok(ExprView::DoWhile(Box::new(test), Box::new(body))), advance(src, s7))
                },
                Err(m) => (Err(m), s7),
            }
        } else {
            stuck(advance(src, s6))
        }
    }
}

/// `while (<test>) <body>`, from the `while` at the cursor.
pub open spec fn p_while(src: Seq<char>, s: PState) -> Step
    decreases src.len(), measure(src, s), 25nat, 0nat,
{
    let s1 = advance(src, s);
    if !s1.cur.is_ptor(TokenPunctuator::LParen) {
        fail(s1, "Unexpected token"@)
    } else {
        let s2 = advance(src, s1);
        if shrunk(src, s2, s) {
            let (o, s3) = p_parse(src, s2, false);
            match o {
                Ok(test) => if !valid_view(test) || !s3.cur.is_ptor(TokenPunctuator::RParen) {
                    fail(s3, "Unexpected token"@)
                } else {
                    let s4 = advance(src, s3);
                    if shrunk(src, s4, s) {
                        let line = s4.cur_line;
                        let (o2, s5) = p_body_slot(src, with_loop(s4, true), true);
                        match o2 {
                            Ok(body) => {
                                let s6 = loop_flags_of(s5, s);
                                match loop_end(src, s6, line, body is Block) {
                                    Some(s7) => (Ok(ExprView::While(Box::new(test), Box::new(body))), s7),
                                    None => fail(s6, "Unexpected token"@),
                                }
                            },
                            Err(m) => (Err(m), s5),
                        }
                    } else {
                        stuck(s4)
                    }
                },
                Err(m) => (Err(m), s3),
            }
        } else {
            stuck(s2)
        }
    }
}

/// `function [name](<params>) { <body> }`, from the `function` at the cursor.
pub open spec fn p_function(src: Seq<char>, s: PState) -> Step
    decreases src.len(), measure(src, s), 25nat, 0nat,
{
    let s1 = advance(src, s);
    let named = s1.cur is Ident;
    if !s1.fn_name_empty && !named {
        fail(s1, "Unexpected token"@)
    } else {
        let name = if named { ExprView::Identifier(s1.cur.raw()) } else { ExprView::Empty };
        let s2 = if named { advance(src, s1) } else { s1 };
        if !s2.cur.is_ptor(TokenPunctuator::LParen) {
            fail(s2, "Unexpected token"@)
        } else {
            let s3 = advance(src, s2);
            if shrunk(src, s3, s) {
                p_function_rest(src, s, name, p_params_loop(src, s3, Seq::empty()))
            } else {
                stuck(s3)
            }
        }
    }
}

/// The rest of a function from `s`, named `name`, after its parameters: the
/// `)` and the body, in which `return` is allowed.
pub open spec fn p_function_rest(src: Seq<char>, s: PState, name: ExprView, step: ListStep) -> Step
    decreases src.len(), measure(src, s), 24nat, 0nat,
{
    match step {
        (Ok(args), s4) => if !s4.cur.is_ptor(TokenPunctuator::RParen) {
            fail(s4, "Unexpected end of input"@)
        } else {
            let s5 = with_ret(advance(src, s4), true);
            if shrunk(src, s5, s) {
                let (o2, s6) = p_body_slot(src, s5, false);
                match o2 {
                    Ok(body) => (Ok(ExprView::Function(Box::new(name), args, Box::new(body))), with_ret(s6, s.ret)),
                    Err(m) => (Err(m), s6),
                }
            } else {
                stuck(s5)
            }
        },
        (Err(m), s4) => (Err(m), s4),
    }
}

/// The parameters of a function, up to its `)`.
pub open spec fn p_params_loop(src: Seq<char>, s: PState, acc: Seq<ExprView>) -> ListStep
    decreases src.len(), measure(src, s), 32nat, 0nat,
{
    if s.cur.is_ptor(TokenPunctuator::RParen) {
        (Ok(acc), s)
    } else {
        let (o, s1) = p_parse(src, s, false);
        match o {
            Ok(e) => if s1.cur.is_ptor(TokenPunctuator::Comma) {
                let s2 = advance(src, s1);
                if shrunk(src, s2, s) {
                    p_params_loop(src, s2, acc.push(e))
                } else {
                    stuck(s2)
                }
            } else {
                (Ok(acc.push(e)), s1)
            },
            Err(m) => (Err(m), s1),
        }
    }
}

/// `switch (<test>) { case ..: .. default: .. }`, from the `switch` at the cursor.
pub open spec fn p_switch(src: Seq<char>, s: PState) -> Step
    decreases src.len(), measure(src, s), 25nat, 0nat,
{
    let s1 = advance(src, s);
    if !s1.cur.is_ptor(TokenPunctuator::LParen) {
        fail(s1, "Unexpected token"@)
    } else {
        let s2 = advance(src, s1);
        if shrunk(src, s2, s) {
            let (o, s3) = p_parse(src, s2, false);
            match o {
                Ok(test) => if !s3.cur.is_ptor(TokenPunctuator::RParen) {
                    fail(s3, "Unexpected token"@)
                } else {
                    let s4 = advance(src, s3);
                    if !s4.cur.is_ptor(TokenPunctuator::LCParen) {
                        fail(s4, "Unexpected token"@)
                    } else {
                        let s5 = advance(src, s4);
                        if shrunk(src, s5, s) {
                            switch_close(src, test, p_cases_loop(src, s5, Seq::empty()))
                        } else {
                            stuck(s5)
                        }
                    }
                },
                Err(m) => (Err(m), s3),
            }
        } else {
            stuck(s2)
        }
    }
}

/// The end of a `switch` on `test` after its cases: over the `}`.
pub open spec fn switch_close(src: Seq<char>, test: ExprView, step: ListStep) -> Step {
    match step {
        (Ok(v), s6) => if !s6.cur.is_ptor(TokenPunctuator::RCParen) {
            fail(s6, "Unexpected token"@)
        } else {
            (Ok(ExprView::Switch(Box::new(test), v)), advance(src, s6))
        },
        (Err(m), s6) => (Err(m), s6),
    }
}

/// The cases of a `switch`.
pub open spec fn p_cases_loop(src: Seq<char>, s: PState, acc: Seq<ExprView>) -> ListStep
    decreases src.len(), measure(src, s), 32nat, 0nat,
{
    let is_default = s.cur.is_keyword(TokenKeyword::Default);
    if s.cur.is_ptor(TokenPunctuator::RCParen) {
        (Ok(acc), s)
    } else if !(s.cur.is_keyword(TokenKeyword::Case) || is_default) {
        fail(s, "Unexpected token"@)
    } else {
        let s1 = advance(src, s);
        if shrunk(src, s1, s) {
            let (o, s2) = if !s1.cur.is_ptor(TokenPunctuator::Colon) {
                p_parse(src, s1, false)
            } else {
                (Ok(ExprView::Empty), s1)
            };
            match o {
                Ok(case_test) => {
                    let s3 = if s2.cur.is_ptor(TokenPunctuator::Colon) { advance(src, s2) } else { s2 };
                    let empty_case = ExprView::SwitchCase(Box::new(case_test), Seq::empty());
                    if s3.cur.is_keyword(TokenKeyword::Default) {
                        if shrunk(src, s3, s) {
                            p_cases_loop(src, s3, acc.push(empty_case))
                        } else {
                            stuck(s3)
                        }
                    } else if s3.cur.is_ptor(TokenPunctuator::RCParen) {
                        (Ok(acc.push(empty_case)), s3)
                    } else if shrunk(src, s3, s) {
                        let set = !s3.brk;
                        let s4 = if set { with_brk(s3, true) } else { s3 };
                        p_case_rest(src, s, acc, case_test, set, is_default, p_case_body_loop(src, s4, Seq::empty()))
                    } else {
                        stuck(s3)
                    }
                },
                Err(m) => (Err(m), s2),
            }
        } else {
            stuck(s1)
        }
    }
}

/// The rest of the cases from the case that started at `s`, after its
/// statements: `break` is reset where the case allowed it, and the cases go
/// on unless this was the `default`.
pub open spec fn p_case_rest(
    src: Seq<char>,
    s: PState,
    acc: Seq<ExprView>,
    case_test: ExprView,
    set: bool,
    is_default: bool,
    step: ListStep,
) -> ListStep
    decreases src.len(), measure(src, s), 31nat, 0nat,
{
    match step {
        (Ok(body), s5) => {
            let s6 = if set { with_brk(s5, false) } else { s5 };
            let acc2 = acc.push(ExprView::SwitchCase(Box::new(case_test), body));
            if is_default {
                (Ok(acc2), s6)
            } else if shrunk(src, s6, s) {
                p_cases_loop(src, s6, acc2)
            } else {
                stuck(s6)
            }
        },
        (Err(m), s5) => (Err(m), s5),
    }
}

/// The statements of a case, up to the next `default` or the closing `}`;
/// each statement before that must read something.
pub open spec fn p_case_body_loop(src: Seq<char>, s: PState, acc: Seq<ExprView>) -> ListStep
    decreases src.len(), measure(src, s), 32nat, 0nat,
{
    let (o, s1) = p_parse(src, s, true);
    match o {
        Ok(e) => if s1.cur.is_keyword(TokenKeyword::Default) || s1.cur.is_ptor(TokenPunctuator::RCParen) {
            (Ok(acc.push(e)), s1)
        } else if shrunk(src, s1, s) {
            p_case_body_loop(src, s1, acc.push(e))
        } else {
            fail(s1, "Unexpected token"@)
        },
        Err(m) => (Err(m), s1),
    }
}

/// `for (<init>; <test>; <update>) <body>`, from the `for` at the cursor.
pub open spec fn p_for(src: Seq<char>, s: PState) -> Step
    decreases src.len(), measure(src, s), 25nat, 0nat,
{
    let s1 = advance(src, s);
    if !s1.cur.is_ptor(TokenPunctuator::LParen) {
        fail(s1, "Unexpected token"@)
    } else {
        let s2 = advance(src, s1);
        if shrunk(src, s2, s) {
            p_for_rest(src, s, p_for_parts(src, s2, Seq::empty(), 0))
        } else {
            stuck(s2)
        }
    }
}

/// The rest of a `for` from `s` after its header parts: the `)` and the
/// body, in which `break` and `continue` are allowed.
pub open spec fn p_for_rest(src: Seq<char>, s: PState, step: ListStep) -> Step
    decreases src.len(), measure(src, s), 24nat, 0nat,
{
    match step {
        (Ok(v), s3) => if !s3.cur.is_ptor(TokenPunctuator::RParen) {
            fail(s3, "Unexpected token "@ + str_debug_text(token_desc(s3.cur, s3.cur_line as nat, s3.cur_col as nat)))
        } else {
            let s4 = advance(src, s3);
            if shrunk(src, s4, s) {
                let line = s4.cur_line;
                let (o2, s5) = p_body_slot(src, with_loop(s4, true), true);
                match o2 {
                    Ok(body) => {
                        let s6 = loop_flags_of(s5, s);
                        match loop_end(src, s6, line, body is Block) {
                            Some(s7) => (Ok(ExprView::For(
                                Box::new(v[0]),
                                Box::new(v[1]),
                                Box::new(v[2]),
                                Box::new(body),
                            )), s7),
                            None => fail(s6, "Unexpected token"@),
                        }
                    },
                    Err(m) => (Err(m), s5),
                }
            } else {
                stuck(s4)
            }
        },
        (Err(m), s3) => (Err(m), s3),
    }
}

/// The three header parts of a `for`, the `t`-th on; a missing update is
/// empty.
pub open spec fn p_for_parts(src: Seq<char>, s: PState, acc: Seq<ExprView>, t: int) -> ListStep
    decreases src.len(), measure(src, s), 32nat, (3 - t) as nat,
{
    if t < 0 || t >= 3 {
        (Ok(acc), s)
    } else if t == 2 && s.cur.is_ptor(TokenPunctuator::RParen) {
        (Ok(acc.push(ExprView::Empty)), s)
    } else {
        let (o, s1) = p_parse(src, s, false);
        match o {
            Ok(b) => if !valid_view(b) && !(b is Empty) {
                fail(s1, "Unexpected token "@ + str_debug_text(raw_text(b)))
            } else if s1.cur.is_ptor(TokenPunctuator::Semicolon) {
                if t == 2 {
                    fail(s1, "Unexpected token "@ + str_debug_text(s1.cur.raw()))
                } else {
                    let s2 = advance(src, s1);
                    if kept_size(src, s2, s) {
                        p_for_parts(src, s2, acc.push(b), t + 1)
                    } else {
                        stuck(s2)
                    }
                }
            } else if kept_size(src, s1, s) {
                p_for_parts(src, s1, acc.push(b), t + 1)
            } else {
                stuck(s1)
            },
            Err(m) => (Err(m), s1),
        }
    }
}

/// `if (<test>) <then> [else <else>]`, from the `if` at the cursor.
pub open spec fn p_if(src: Seq<char>, s: PState) -> Step
    decreases src.len(), measure(src, s), 25nat, 0nat,
{
    let s1 = advance(src, s);
    if !s1.cur.is_ptor(TokenPunctuator::LParen) {
        fail(s1, "Unexpected token"@)
    } else {
        let s2 = advance(src, s1);
        if shrunk(src, s2, s) {
            let (o, s3) = p_parse(src, s2, false);
            match o {
                Ok(test) => if !valid_view(test) || !s3.cur.is_ptor(TokenPunctuator::RParen) {
                    fail(s3, "Unexpected token"@)
                } else {
                    let s4 = advance(src, s3);
                    if shrunk(src, s4, s) {
                        let line = s4.cur_line;
                        let (o2, s5) = p_body_slot(src, s4, true);
                        match o2 {
                            Ok(then_part) => {
                                let semi = s5.cur.is_ptor(TokenPunctuator::Semicolon);
                                let s6 = if semi { advance(src, s5) } else { s5 };
                                if !s6.cur.is_keyword(TokenKeyword::Else) {
                                    (Ok(ExprView::If(Box::new(test), Box::new(then_part), Box::new(ExprView::Empty))), s6)
                                } else if s6.cur_line == line && !semi && !(then_part is Block) {
                                    fail(s6, "Unexpected token else"@)
                                } else {
                                    let s7 = advance(src, s6);
                                    if !shrunk(src, s7, s) {
                                        stuck(s7)
                                    } else if s7.cur.is_keyword(TokenKeyword::If) {
                                        let (o3, s8) = p_if(src, s7);
                                        match o3 {
                                            Ok(e) => (Ok(ExprView::If(Box::new(test), Box::new(then_part), Box::new(e))), s8),
                                            Err(m) => (Err(m), s8),
                                        }
                                    } else {
                                        let line2 = s7.cur_line;
                                        let (o3, s8) = p_body_slot(src, s7, true);
                                        match o3 {
                                            Ok(else_part) => match loop_end(src, s8, line2, else_part is Block) {
                                                Some(s9) => (Ok(ExprView::If(Box::new(test), Box::new(then_part), Box::new(else_part))), s9),
                                                None => fail(s8, "Unexpected token"@),
                                            },
                                            Err(m) => (Err(m), s8),
                                        }
                                    }
                                }
                            },
                            Err(m) => (Err(m), s5),
                        }
                    } else {
                        stuck(s4)
                    }
                },
                Err(m) => (Err(m), s3),
            }
        } else {
            stuck(s2)
        }
    }
}

/// Every statement up to the end of input; each must read something.
pub open spec fn p_statements(src: Seq<char>, s: PState, acc: Seq<ExprView>) -> ListStep
    decreases measure(src, s),
{
    if s.cur is EOF {
        (Ok(acc), s)
    } else {
        let (o, s1) = p_parse(src, s, true);
        match o {
            Ok(e) => if shrunk(src, s1, s) {
                p_statements(src, s1, acc.push(e))
            } else {
                fail(s1, "Unexpected token"@)
            },
            Err(m) => (Err(m), s1),
        }
    }
}



/// A program that is only the end of input has no statements, and reading
/// them leaves the parser where it stands.
pub proof fn law_empty_program(src: Seq<char>, s: PState, acc: Seq<ExprView>)
    requires
        s.cur is EOF,
    ensures
        p_statements(src, s, acc) == (Ok::<Seq<ExprView>, Seq<char>>(acc), s),
{
}

/// Once the statements of a program are read, the parser stands at the end
/// of input.
pub proof fn law_statements_end_at_eof(src: Seq<char>, s: PState, acc: Seq<ExprView>)
    ensures
        p_statements(src, s, acc).0 is Ok ==> p_statements(src, s, acc).1.cur is EOF,
    decreases measure(src, s),
{
    if !(s.cur is EOF) {
        let (o, s1) = p_parse(src, s, true);
        if o is Ok && shrunk(src, s1, s) {
            law_statements_end_at_eof(src, s1, acc.push(o->Ok_0));
        }
    }
}

/// A `break`, `continue` or `return` that stands where it is not allowed
/// (outside a loop or a function) makes the program an error, reported on
/// that token.
pub proof fn law_stray_jump_refused(src: Seq<char>, s: PState, acc: Seq<ExprView>)
    requires
        (s.cur.is_keyword(TokenKeyword::Break) && !s.brk)
            || (s.cur.is_keyword(TokenKeyword::Continue) && !s.cont)
            || (s.cur.is_keyword(TokenKeyword::Return) && !s.ret),
    ensures
        p_statements(src, s, acc) == fail::<Seq<ExprView>>(s,
            if s.cur.is_keyword(TokenKeyword::Break) {
                "Illegal break statement"@
            } else if s.cur.is_keyword(TokenKeyword::Continue) {
                "Illegal continue statement"@
            } else {
                "Illegal return statement"@
            }),
{
    let (o, s1) = p_keyword_stmt(src, s, true);
    assert(p_parse(src, s, true) == p_keyword_stmt(src, s, true));
    if s.cur.is_keyword(TokenKeyword::Return) {
        assert(p_keyword_stmt(src, s, true) == p_return_stmt(src, s, true));
    }
}

/// A program that starts with a character the lexer cannot read, or with a
/// template whose `${` is not closed, is an error reported on that token.
pub proof fn law_unreadable_start_refused(src: Seq<char>, s: PState, acc: Seq<ExprView>)
    requires
        s.cur is Illegal || s.cur is SyntaxError,
    ensures
        p_statements(src, s, acc) == fail::<Seq<ExprView>>(s, s.cur.raw()),
{
    assert(p_parse(src, s, true) == fail::<ExprView>(s, s.cur.raw()));
}

/// No key occurs twice among the entries.
pub open spec fn distinct_entry_keys(v: Seq<(Seq<char>, ExprView)>) -> bool {
    forall|i: int, j: int| 0 <= i < j < v.len() ==> #[trigger] v[i].0 != #[trigger] v[j].0
}

/// In an object literal a later entry for a key replaces an earlier one:
/// setting a key twice is setting it once to the later value.
pub proof fn law_later_entry_wins(v: Seq<(Seq<char>, ExprView)>, key: Seq<char>, a: ExprView, b: ExprView)
    requires
        distinct_entry_keys(v),
    ensures
        entries_insert(entries_insert(v, key, a), key, b) == entries_insert(v, key, b),
{
    let w = entries_insert(v, key, a);
    if has_entry(v, key) {
        let i = choose|i: int| 0 <= i < v.len() && #[trigger] v[i].0 == key;
        assert(w == v.update(i, (key, a)));
        assert(w[i].0 == key);
        assert(has_entry(w, key));
        let j = choose|j: int| 0 <= j < w.len() && #[trigger] w[j].0 == key;
        if j != i {
            assert(w[j] == v[j]);
            if j < i {
                assert(v[j].0 != v[i].0);
            } else {
                assert(v[i].0 != v[j].0);
            }
        }
        assert(w.update(i, (key, b)) =~= v.update(i, (key, b)));
    } else {
        assert(w == v.push((key, a)));
        assert(w[v.len() as int].0 == key);
        assert(has_entry(w, key));
        let j = choose|j: int| 0 <= j < w.len() && #[trigger] w[j].0 == key;
        if j != v.len() {
            assert(w[j] == v[j]);
            assert(v[j].0 == key);
        }
        assert(w.update(v.len() as int, (key, b)) =~= v.push((key, b)));
    }
}


/// An operator chain read successfully stops only at a token that binds no
/// tighter than its context: every operator that binds tighter is taken into
/// the chain.
pub proof fn law_infix_takes_tighter_operators(src: Seq<char>, s: PState, left: ExprView, prec: Precedence)
    ensures
        p_infix_loop(src, s, left, prec).0 is Ok ==> !(prec_rank(prec) < prec_rank(
            token_precedence(p_infix_loop(src, s, left, prec).1.cur),
        )),
    decreases measure(src, s),
{
    if prec_rank(prec) < prec_rank(token_precedence(s.cur)) {
        let op = token_operator(s.cur);
        let s1 = advance(src, s);
        if shrunk(src, s1, s) {
            let (o, s2) = p_infix(src, s1, ExprView::Empty, operator_precedence(op));
            if o is Ok && infix_operand(left) && shrunk(src, s2, s) {
                law_infix_takes_tighter_operators(src, s2, ExprView::Infix(Box::new(left), op, Box::new(o->Ok_0)), prec);
            }
        }
    }
}


/// Reading the arguments of a call leaves the object-literal flag as the call
/// found it, whether the call is read or refused.
pub proof fn law_call_keeps_json_flag(src: Seq<char>, s: PState, callee: ExprView)
    ensures
        p_call_slot(src, s, callee).1.json == s.json,
{
}


/// The operator that a binary or assignment operator token stands for is the
/// one that its text names: the token `>=` gives `>=`, the token `+=` gives
/// `+=`, and so on.
pub proof fn law_operator_as_written(p: TokenPunctuator)
    requires
        is_operator_token(TokenTypeView::Punctuator(p)),
    ensures
        token_operator(TokenTypeView::Punctuator(p)).spec_text() == p.spec_raw(),
{
}

/// A prefix operator token stands for the prefix operator that its text names.
pub proof fn law_unary_as_written(p: TokenPunctuator)
    requires
        unary_of(TokenTypeView::Punctuator(p)) is Some,
    ensures
        (unary_of(TokenTypeView::Punctuator(p))->0).spec_text() == p.spec_raw(),
{
}

/// Distinct operator tokens stand for distinct operators.
pub proof fn law_operators_distinct(p: TokenPunctuator, q: TokenPunctuator)
    requires
        is_operator_token(TokenTypeView::Punctuator(p)),
        is_operator_token(TokenTypeView::Punctuator(q)),
        p != q,
    ensures
        token_operator(TokenTypeView::Punctuator(p)) != token_operator(TokenTypeView::Punctuator(q)),
{
}

/// The declarations that a `var`, `let` or `const` statement reads carry
/// the keyword that the statement was written with.
pub proof fn law_declarations_as_written(src: Seq<char>, s: PState, skip: bool, k: TokenKeyword)
    requires
        s.cur == TokenTypeView::Keyword(k),
        k == TokenKeyword::Var || k == TokenKeyword::Let || k == TokenKeyword::Const,
    ensures
        p_variable_stmt(src, s, skip).0 matches Ok(ExprView::Variable(v))
            ==> forall|i: int| 0 <= i < v.len() ==> (#[trigger] v[i]).0.spec_text() == k.spec_raw(),
{
    let key = declaration_keyword(s.cur);
    assert(key.spec_text() == k.spec_raw());
    let s1 = advance(src, s);
    if s1.cur is Ident && shrunk(src, s1, s) {
        lemma_var_loop_keeps_key(src, with_fn_name_empty(s1, true), seq![], key, skip);
    }
}

proof fn lemma_var_loop_keeps_key(
    src: Seq<char>,
    s: PState,
    acc: Seq<(Variable, Seq<char>, ExprView)>,
    key: Variable,
    skip: bool,
)
    requires
        forall|i: int| 0 <= i < acc.len() ==> (#[trigger] acc[i]).0 == key,
    ensures
        p_var_loop(src, s, acc, key, skip).0 matches Ok(v) ==> forall|i: int| 0 <= i < v.len() ==> (#[trigger] v[i]).0 == key,
    decreases measure(src, s),
{
    let (o, s1) = p_parse(src, s, skip);
    match o {
        Ok(e) => {
            let acc2 = match e {
                ExprView::Assignment(t) => acc + declared(key, t),
                _ => acc,
            };
            assert forall|i: int| 0 <= i < acc2.len() implies (#[trigger] acc2[i]).0 == key by {
                if i >= acc.len() {
                    assert(acc2[i] == (acc + declared(key, e->Assignment_0))[i]);
                }
            }
            if s1.cur.is_ptor(TokenPunctuator::Comma) {
                let s2 = advance(src, s1);
                if shrunk(src, s2, s) {
                    lemma_var_loop_keeps_key(src, s2, acc2, key, skip);
                }
            }
        },
        Err(_) => {},
    }
}


/// The binding power of a binary operator token, as a number.
pub open spec fn binding(p: TokenPunctuator) -> nat {
    prec_rank(token_precedence(TokenTypeView::Punctuator(p)))
}

/// The binary operators bind, from tightest to loosest: `*` `/` `%`, then
/// `+` `-`, then `<<` `>>`, then `&`, `^`, `|`, then `<` `<=` `>` `>=`, then
/// `==` `!=`, then `&&`, then `||`; the operators of one group bind alike, and
/// every one of them binds tighter than a token that is no operator.
pub proof fn law_binding_order()
    ensures
        binding(TokenPunctuator::Multiply) == binding(TokenPunctuator::Divide),
        binding(TokenPunctuator::Multiply) == binding(TokenPunctuator::Modulo),
        binding(TokenPunctuator::Multiply) > binding(TokenPunctuator::Plus),
        binding(TokenPunctuator::Plus) == binding(TokenPunctuator::Minus),
        binding(TokenPunctuator::Plus) > binding(TokenPunctuator::LShift),
        binding(TokenPunctuator::LShift) == binding(TokenPunctuator::RShift),
        binding(TokenPunctuator::LShift) > binding(TokenPunctuator::BitAnd),
        binding(TokenPunctuator::BitAnd) > binding(TokenPunctuator::BitXor),
        binding(TokenPunctuator::BitXor) > binding(TokenPunctuator::BitOr),
        binding(TokenPunctuator::BitOr) > binding(TokenPunctuator::LT),
        binding(TokenPunctuator::LT) == binding(TokenPunctuator::LTE),
        binding(TokenPunctuator::LT) == binding(TokenPunctuator::GT),
        binding(TokenPunctuator::LT) == binding(TokenPunctuator::GTE),
        binding(TokenPunctuator::LT) > binding(TokenPunctuator::Equal),
        binding(TokenPunctuator::Equal) == binding(TokenPunctuator::NE),
        binding(TokenPunctuator::Equal) > binding(TokenPunctuator::And),
        binding(TokenPunctuator::And) > binding(TokenPunctuator::Or),
        binding(TokenPunctuator::Or) > prec_rank(token_precedence(TokenTypeView::EOF)),
        binding(TokenPunctuator::Or) > binding(TokenPunctuator::Semicolon),
        binding(TokenPunctuator::Or) > binding(TokenPunctuator::RParen),
{
}

/// An operator binds its right operand at its own binding power: the
/// operator's power is that of its token.
pub proof fn law_operator_binds_as_its_token(p: TokenPunctuator)
    requires
        is_operator_token(TokenTypeView::Punctuator(p)),
        p != TokenPunctuator::MOD,
    ensures
        operator_precedence(token_operator(TokenTypeView::Punctuator(p)))
            == token_precedence(TokenTypeView::Punctuator(p)),
{
}


/// An identifier that is not called, indexed or followed by `.` is an
/// operand named as written, and reading it moves one token on.
pub proof fn law_identifier_operand(src: Seq<char>, s: PState, t: Seq<char>)
    requires
        s.cur == TokenTypeView::Ident(t),
        !s.peek.is_ptor(TokenPunctuator::LParen),
        !s.peek.is_ptor(TokenPunctuator::Dot),
        !s.peek.is_ptor(TokenPunctuator::LSParen),
    ensures
        p_checked_base(src, s) == (Ok::<ExprView, Seq<char>>(ExprView::Identifier(t)), advance(src, s)),
{
}

} // verus!
