//! A recursive-descent parser from tokens to the syntax tree.

use vstd::prelude::*;
use vstd::string::*;
use crate::expr::{
    Expr, ExprView, Operator, Unary, Variable, declarations_view, entries_view, expr_view, exprs_view,
    lemma_declarations_view_push, lemma_entries_view_append, lemma_entries_view_index,
    lemma_entries_view_push, lemma_exprs_view_index, lemma_exprs_view_push,
};
use crate::grammar::{
    PState, Precedence, advance, block_close, call_close, declaration_keyword, declared, err_msg,
    loop_end, shrunk,
    entries_insert, gives, gives_list, has_entry, init_state, is_operator_token, measure, member_close,
    operator_precedence, p_array, p_array_loop, p_assign_loop, p_base_typ, p_block_loop,
    p_body_slot, p_call_or_member, p_call_slot, p_case_body_loop, p_case_rest, p_cases_loop,
    p_chain, p_checked_base, p_do_while, p_do_while_test, p_for, p_for_parts, p_for_rest, p_function,
    p_function_rest, p_ident_stmt, p_if, p_infix, p_infix_loop, p_json, p_json_loop,
    p_keyword_stmt, p_list_loop, p_literal_stmt, p_member_slot, p_params_loop, p_parse,
    p_punct_stmt, p_return_stmt, p_statements, p_switch, p_template, p_template_parts, p_var_loop,
    p_variable_stmt, p_while, prec_rank, skip_semi, switch_close, token_operator, token_precedence,
    unary_of, valid_view, with_fn_name_empty, with_json, with_json_step, with_property, wrap_array,
    wrap_object,
};
use crate::lexer::{ILexer, Lexer, lex, kind_bounded, lemma_lex_progress, line_at, column_at};
use crate::text::{debug_quoted, push_str, trim_char};
use crate::token::{Token, TokenKeyword, TokenPunctuator, TokenType, TokenTypeView, token_desc};

verus! {

fn rank_of(p: Precedence) -> (r: u8)
    ensures
        r == prec_rank(p),
{
    match p {
        Precedence::Lowest => 0,
        Precedence::Or => 1,
        Precedence::And => 2,
        Precedence::Equality => 3,
        Precedence::Comparison => 4,
        Precedence::BitOr => 5,
        Precedence::BitXor => 6,
        Precedence::BitAnd => 7,
        Precedence::Shift => 8,
        Precedence::Sum => 9,
        Precedence::Modulo => 10,
        Precedence::Product => 11,
        Precedence::Prefix => 12,
        Precedence::MOV => 13,
    }
}

/// No key occurs twice among the entries.
pub open spec fn distinct_keys(v: Seq<(String, Expr)>) -> bool {
    forall|i: int, j: int| 0 <= i < j < v.len() ==> #[trigger] v[i].0@ != #[trigger] v[j].0@
}

/// Sets `key` to `value`: the entry with that key takes the new value, or a new
/// entry is added at the end.
fn insert_entry(v: &mut Vec<(String, Expr)>, key: String, value: Expr)
    requires
        distinct_keys(old(v)@),
    ensures
        distinct_keys(final(v)@),
        entries_view(final(v)@) == entries_insert(entries_view(old(v)@), key@, value@),
{
    let ghost before = v@;
    let ghost ev = entries_view(before);
    let ghost kv = key@;
    let ghost vv = value@;
    proof { lemma_entries_view_index(before); }
    let mut i: usize = 0;
    while i < v.len()
        invariant
            i <= v.len(),
            v@ == before,
            before == old(v)@,
            distinct_keys(before),
            ev == entries_view(before),
            ev.len() == before.len(),
            forall|k: int| 0 <= k < before.len() ==> #[trigger] ev[k] == (before[k].0@, before[k].1@),
            kv == key@,
            vv == value@,
            forall|j: int| 0 <= j < i ==> #[trigger] v@[j].0@ != key@,
        decreases v.len() - i,
    {
        if v[i].0 == key {
            v.set(i, (key, value));
            proof {
                assert forall|a: int, b: int| 0 <= a < b < v@.len() implies #[trigger] v@[a].0@ != #[trigger] v@[b].0@ by {
                    assert(v@[a].0@ == before[a].0@);
                    assert(v@[b].0@ == before[b].0@);
                }
                assert(ev[i as int].0 == kv);
                assert(has_entry(ev, kv));
                let c = choose|j: int| 0 <= j < ev.len() && #[trigger] ev[j].0 == kv;
                if c != i as int {
                    if c < i as int {
                        assert(before[c].0@ != before[i as int].0@);
                    } else {
                        assert(before[i as int].0@ != before[c].0@);
                    }
                }
                assert(c == i as int);
                assert(entries_insert(ev, kv, vv) == ev.update(i as int, (kv, vv)));
                lemma_entries_view_index(v@);
                assert(entries_view(v@) =~= ev.update(i as int, (kv, vv)));
            }
            return;
        }
        i += 1;
    }
    proof {
        assert(!has_entry(ev, kv)) by {
            if has_entry(ev, kv) {
                let c = choose|j: int| 0 <= j < ev.len() && #[trigger] ev[j].0 == kv;
                assert(v@[c].0@ != key@);
            }
        }
        lemma_entries_view_push(before, (key, value));
    }
    v.push((key, value));
    proof {
        assert forall|a: int, b: int| 0 <= a < b < v@.len() implies #[trigger] v@[a].0@ != #[trigger] v@[b].0@ by {
            if b == before.len() {
                assert(v@[a].0@ == before[a].0@);
            } else {
                assert(v@[a].0@ == before[a].0@);
                assert(v@[b].0@ == before[b].0@);
            }
        }
    }
}

/// Whether some entry has the key `key`.
fn contains_key(v: &Vec<(String, Expr)>, key: &String) -> (r: bool)
    ensures
        r == has_entry(entries_view(v@), key@),
{
    let ghost ev = entries_view(v@);
    proof { lemma_entries_view_index(v@); }
    let mut i: usize = 0;
    while i < v.len()
        invariant
            i <= v.len(),
            ev == entries_view(v@),
            ev.len() == v@.len(),
            forall|k: int| 0 <= k < v@.len() ==> #[trigger] ev[k] == (v@[k].0@, v@[k].1@),
            forall|j: int| 0 <= j < i ==> #[trigger] v@[j].0@ != key@,
        decreases v.len() - i,
    {
        if v[i].0 == *key {
            assert(ev[i as int].0 == key@);
            return true;
        }
        i += 1;
    }
    assert(!has_entry(ev, key@)) by {
        if has_entry(ev, key@) {
            let c = choose|j: int| 0 <= j < ev.len() && #[trigger] ev[j].0 == key@;
            assert(v@[c].0@ != key@);
        }
    }
    false
}

/// A parser that reads tokens from a lexer, with one token of lookahead.
pub struct Parser {
    lexer: Lexer,
    current_token: Token,
    peek_token: Token,
    /// A function may have no name (in `return function(){}` and the like).
    allow_fn_name_empty: bool,
    /// `return` is allowed (inside a function body).
    allow_return: bool,
    /// `break` is allowed (inside a loop or a `switch` case).
    allow_break: bool,
    /// `continue` is allowed (inside a loop).
    allow_continue: bool,
    /// `{` opens an object literal rather than a block.
    gen_json: bool,
}

impl Parser {
    /// The length of the source text.
    pub closed spec fn src_len(&self) -> nat {
        self.lexer.source().len()
    }

    /// What is left to read: the unread characters and the two tokens in hand
    /// that are not the end of input.
    pub closed spec fn measure(&self) -> nat {
        measure(self.source(), self.state())
    }

    /// The parser's state as the grammar describes it.
    pub closed spec fn state(&self) -> PState {
        PState {
            cursor: self.lexer.cursor(),
            cur: self.current_token.typ@,
            cur_line: self.current_token.line as int,
            cur_col: self.current_token.column as int,
            peek: self.peek_token.typ@,
            peek_line: self.peek_token.line as int,
            peek_col: self.peek_token.column as int,
            fn_name_empty: self.allow_fn_name_empty,
            ret: self.allow_return,
            brk: self.allow_break,
            cont: self.allow_continue,
            json: self.gen_json,
        }
    }

    pub closed spec fn wf(&self) -> bool {
        &&& self.lexer.wf()
        &&& 0 <= self.lexer.cursor() <= self.src_len()
        &&& self.src_len() < usize::MAX
        &&& self.current_token.wf()
        &&& self.peek_token.wf()
        &&& kind_bounded(self.current_token.typ@, self.src_len())
        &&& kind_bounded(self.peek_token.typ@, self.src_len())
    }

    /// The source text of the lexer.
    pub closed spec fn source(&self) -> Seq<char> {
        self.lexer.source()
    }

    /// The token under the parser's cursor.
    pub closed spec fn current(&self) -> Token {
        self.current_token
    }

    /// The token after the current one.
    pub closed spec fn peek(&self) -> Token {
        self.peek_token
    }

    /// No permission flag is set: no `return`, `break` or `continue` is allowed,
    /// functions need names and `{` opens a block.
    pub closed spec fn flags_clear(&self) -> bool {
        &&& !self.allow_fn_name_empty
        &&& !self.allow_return
        &&& !self.allow_break
        &&& !self.allow_continue
        &&& !self.gen_json
    }

    /// A step that keeps the parser consistent on the same text, without
    /// growing what is left to read.
    spec fn kept(old: Parser, new: Parser) -> bool {
        &&& new.wf()
        &&& new.source() == old.source()
        &&& new.measure() <= old.measure()
    }

    /// The token that the lexer gives as a `Token` value.
    pub open spec fn lexed(src: Seq<char>, cur: int, t: Token) -> bool {
        let st = lex(src, cur);
        &&& t.typ@ == st.kind
        &&& t.line == line_at(src, st.line_pos)
        &&& t.column == column_at(src, st.col_pos)
        &&& t.wf()
    }

    /// A parser over `lexer`, holding its first two tokens; every permission
    /// flag is off.
    pub fn new(lexer: Lexer) -> (p: Parser)
        requires
            lexer.wf(),
        ensures
            p.wf(),
            p.source() == lexer.source(),
            Self::lexed(lexer.source(), lexer.cursor(), p.current()),
            Self::lexed(lexer.source(), lex(lexer.source(), lexer.cursor()).next, p.peek()),
            p.flags_clear(),
            p.state() == init_state(lexer.source(), lexer.cursor()),
    {
        let mut lexer = lexer;
        proof {
            lexer.lemma_wf();
            lemma_lex_progress(lexer.source(), lexer.cursor());
        }
        let current_token = lexer.next_token();
        proof {
            lexer.lemma_wf();
            lemma_lex_progress(lexer.source(), lexer.cursor());
        }
        let peek_token = lexer.next_token();
        proof { lexer.lemma_wf(); }
        Parser {
            lexer,
            current_token,
            peek_token,
            allow_fn_name_empty: false,
            allow_return: false,
            allow_break: false,
            allow_continue: false,
            gen_json: false,
        }
    }

    /// Moves to the next token and returns the one that was current.
    fn next_token(&mut self) -> (t: Token)
        requires
            old(self).wf(),
        ensures
            Self::kept(*old(self), *final(self)),
            t.typ@ == old(self).current_token.typ@,
            t.raw@ == old(self).current_token.raw@,
            t.line == old(self).current_token.line,
            t.wf(),
            final(self).current_token.typ@ == old(self).peek_token.typ@,
            final(self).current_token.line == old(self).peek_token.line,
            Self::lexed(old(self).source(), old(self).lexer.cursor(), final(self).peek_token),
            final(self).lexer.cursor() == lex(old(self).source(), old(self).lexer.cursor()).next,
            final(self).state() == advance(old(self).source(), old(self).state()),
            !(old(self).current_token.typ@ is EOF) ==> final(self).measure() < old(self).measure(),
            final(self).allow_fn_name_empty == old(self).allow_fn_name_empty,
            final(self).allow_return == old(self).allow_return,
            final(self).allow_break == old(self).allow_break,
            final(self).allow_continue == old(self).allow_continue,
            final(self).gen_json == old(self).gen_json,
    {
        proof {
            self.lexer.lemma_wf();
            lemma_lex_progress(self.lexer.source(), self.lexer.cursor());
        }
        let next = self.lexer.next_token();
        proof { self.lexer.lemma_wf(); }
        let mut token = next;
        std::mem::swap(&mut self.peek_token, &mut token);
        std::mem::swap(&mut self.current_token, &mut token);
        token
    }

    /// The message of a parse error: the current token's description and `str`,
    /// in red.
    fn err(&self, str: &str) -> (r: String)
        ensures
            r@ == "\u{1b}[31m("@ + token_desc(self.current_token.typ@, self.current_token.line as nat,
                self.current_token.column as nat) + ") "@ + str@ + " \u{1b}[39m"@,
            r@ == err_msg(self.state(), str@),
    {
        let mut msg = String::from_str("\u{1b}[31m(");
        let desc = self.current_token.desc();
        let ghost d = desc@;
        push_str(&mut msg, desc.as_str());
        push_str(&mut msg, ") ");
        push_str(&mut msg, str);
        push_str(&mut msg, " \u{1b}[39m");
        assert(msg@ == "\u{1b}[31m("@ + d + ") "@ + str@ + " \u{1b}[39m"@);
        msg
    }

    /// What is left to read, as a number.
    fn measure_exec(&self) -> (r: u128)
        requires
            self.wf(),
        ensures
            r == self.measure(),
    {
        let len = self.lexer.source_len() as u128;
        let cur = self.lexer.offset() as u128;
        let a: u128 = if self.current_token.is_eof(false) { 0 } else { 1 };
        let b: u128 = if self.peek_token.is_eof(false) { 0 } else { 1 };
        len - cur + a + b
    }

    /// Steps over a `;` under the cursor when `is_skip` is set; tells whether
    /// one was there.
    fn skip_semicolon(&mut self, is_skip: bool) -> (r: bool)
        requires
            old(self).wf(),
        ensures
            Self::kept(*old(self), *final(self)),
            r == old(self).current_token.spec_is_ptor(TokenPunctuator::Semicolon),
            !(r && is_skip) ==> *final(self) == *old(self),
            final(self).flags_same(*old(self)),
            final(self).state() == skip_semi(old(self).source(), old(self).state(), is_skip),
    {
        if self.current_token.is_ptor(TokenPunctuator::Semicolon) {
            if is_skip {
                self.next_token();
            }
            return true;
        }
        false
    }

    /// Steps over the end of a loop or `else` body that started on line
    /// `line`, as `loop_end` says; `false` (and nothing read) where the body
    /// may not end here.
    fn body_end(&mut self, line: usize, braced: bool) -> (ok: bool)
        requires
            old(self).wf(),
        ensures
            Self::kept(*old(self), *final(self)),
            final(self).flags_same(*old(self)),
            match loop_end(old(self).source(), old(self).state(), line as int, braced) {
                Some(s2) => ok && final(self).state() == s2,
                None => !ok && *final(self) == *old(self),
            },
    {
        if self.current_token.is_ptor(TokenPunctuator::Semicolon) {
            self.next_token();
            true
        } else if line == self.current_token.line && !braced && !self.current_token.is_eof(false) {
            false
        } else {
            true
        }
    }

    /// The permission flags are those of `other`.
    spec fn flags_same(&self, other: Parser) -> bool {
        &&& self.allow_fn_name_empty == other.allow_fn_name_empty
        &&& self.allow_return == other.allow_return
        &&& self.allow_break == other.allow_break
        &&& self.allow_continue == other.allow_continue
        &&& self.gen_json == other.gen_json
    }

    /// The prefix operator under the cursor.
    fn parse_unary(&self) -> (r: Result<Unary, String>)
        ensures
            match unary_of(self.current_token.typ@) {
                Some(u) => r == Ok::<Unary, String>(u),
                None => r is Err,
            },
    {
        match &self.current_token.typ {
            TokenType::Punctuator(t) => match t {
                TokenPunctuator::Not => Ok(Unary::Not),
                TokenPunctuator::Plus => Ok(Unary::Plus),
                TokenPunctuator::Minus => Ok(Unary::Minus),
                TokenPunctuator::BitNot => Ok(Unary::BitNot),
                _ => Err(self.err("Unexpected token")),
            },
            _ => Err(self.err("Unexpected token")),
        }
    }

    /// The operator that an operator token stands for.
    fn get_operator(&self, token: &Token) -> (r: Operator)
        requires
            is_operator_token(token.typ@),
        ensures
            r == token_operator(token.typ@),
    {
        match &token.typ {
            TokenType::Punctuator(t) => match t {
                TokenPunctuator::Plus => Operator::Plus,
                TokenPunctuator::Minus => Operator::Subtract,
                TokenPunctuator::Multiply => Operator::Multiply,
                TokenPunctuator::Divide => Operator::Divide,
                TokenPunctuator::Modulo => Operator::Modulo,
                TokenPunctuator::Or => Operator::Or,
                TokenPunctuator::And => Operator::And,
                TokenPunctuator::Not => Operator::Not,
                TokenPunctuator::LShift => Operator::LShift,
                TokenPunctuator::RShift => Operator::RShift,
                TokenPunctuator::Equal => Operator::Equal,
                TokenPunctuator::NE => Operator::NE,
                TokenPunctuator::GT => Operator::GT,
                TokenPunctuator::GTE => Operator::GTE,
                TokenPunctuator::LT => Operator::LT,
                TokenPunctuator::LTE => Operator::LTE,
                TokenPunctuator::BitOr => Operator::BitOr,
                TokenPunctuator::BitXor => Operator::BitXor,
                TokenPunctuator::BitAnd => Operator::BitAnd,
                TokenPunctuator::ADD => Operator::ADD,
                TokenPunctuator::SUB => Operator::SUB,
                TokenPunctuator::MUL => Operator::MUL,
                TokenPunctuator::DIV => Operator::DIV,
                TokenPunctuator::MOD => Operator::MOD,
                _ => Operator::Plus,
            },
            _ => Operator::Plus,
        }
    }

    /// The binding power of a token type (`Lowest` for anything that is not a
    /// binary operator).
    fn get_precedence(&self, typ: &TokenType) -> (r: Precedence)
        ensures
            r == token_precedence(typ@),
    {
        match typ {
            TokenType::Punctuator(t) => match t {
                TokenPunctuator::Plus | TokenPunctuator::Minus => Precedence::Sum,
                TokenPunctuator::Modulo => Precedence::Product,
                TokenPunctuator::Multiply | TokenPunctuator::Divide => Precedence::Product,
                TokenPunctuator::Or => Precedence::Or,
                TokenPunctuator::And => Precedence::And,
                TokenPunctuator::Not => Precedence::Prefix,
                TokenPunctuator::LShift | TokenPunctuator::RShift => Precedence::Shift,
                TokenPunctuator::Equal | TokenPunctuator::NE => Precedence::Equality,
                TokenPunctuator::GT | TokenPunctuator::GTE
                | TokenPunctuator::LT | TokenPunctuator::LTE => Precedence::Comparison,
                TokenPunctuator::BitOr => Precedence::BitOr,
                TokenPunctuator::BitXor => Precedence::BitXor,
                TokenPunctuator::BitAnd => Precedence::BitAnd,
                TokenPunctuator::ADD | TokenPunctuator::SUB
                | TokenPunctuator::MUL | TokenPunctuator::DIV => Precedence::MOV,
                _ => Precedence::Lowest,
            },
            _ => Precedence::Lowest,
        }
    }

    /// The binding power of an operator, the same as that of its token.
    fn get_precedence_by_operator(&self, typ: &Operator) -> (r: Precedence)
        ensures
            r == operator_precedence(*typ),
    {
        match typ {
            Operator::Plus | Operator::Subtract => Precedence::Sum,
            Operator::Multiply | Operator::Divide => Precedence::Product,
            Operator::Modulo => Precedence::Product,
            Operator::Or => Precedence::Or,
            Operator::And => Precedence::And,
            Operator::Not => Precedence::Prefix,
            Operator::LShift | Operator::RShift => Precedence::Shift,
            Operator::Equal | Operator::NE => Precedence::Equality,
            Operator::GT | Operator::GTE | Operator::LT | Operator::LTE => Precedence::Comparison,
            Operator::BitOr => Precedence::BitOr,
            Operator::BitXor => Precedence::BitXor,
            Operator::BitAnd => Precedence::BitAnd,
            Operator::ADD | Operator::SUB | Operator::MUL | Operator::DIV | Operator::MOD => Precedence::MOV,
            Operator::INC | Operator::DEC => Precedence::Lowest,
        }
    }

    /// Expressions that may stand as a condition or an argument.
    fn is_valid(&self, expr: &Expr) -> (r: bool)
        ensures
            r == valid_view(expr@),
    {
        match expr {
            Expr::Unary(_, _) | Expr::Identifier(_) | Expr::Template(_, _) | Expr::Literal(_)
            | Expr::Call(_, _) | Expr::Member(_, _) | Expr::Sequence(_) | Expr::Infix(_, _, _)
            | Expr::Update(_, _, _) | Expr::Assignment(_) | Expr::Variable(_) => true,
            _ => false,
        }
    }

    /// On a closing bracket `)`, `}` or `]` given by `typ`, steps over the
    /// current token and answers true; otherwise answers false.
    fn checked_paren(&mut self, typ: &TokenType) -> (r: Result<bool, String>)
        requires
            old(self).wf(),
        ensures
            Self::kept(*old(self), *final(self)),
            final(self).flags_same(*old(self)),
            r == Ok::<bool, String>(
                typ@ == TokenTypeView::Punctuator(TokenPunctuator::RParen)
                || typ@ == TokenTypeView::Punctuator(TokenPunctuator::RCParen)
                || typ@ == TokenTypeView::Punctuator(TokenPunctuator::RSParen)),
            r == Ok::<bool, String>(false) ==> *final(self) == *old(self),
            r == Ok::<bool, String>(true) ==> final(self).state() == advance(old(self).source(), old(self).state()),
            r == Ok::<bool, String>(true) && !(old(self).current_token.typ@ is EOF) ==> final(self).measure() < old(self).measure(),
    {
        match typ {
            TokenType::Punctuator(ptor) => {
                if matches!(ptor, TokenPunctuator::RParen) {
                    self.next_token();
                    return Ok(true);
                } else if matches!(ptor, TokenPunctuator::RCParen) {
                    self.next_token();
                    return Ok(true);
                } else if matches!(ptor, TokenPunctuator::RSParen) {
                    self.next_token();
                    return Ok(true);
                }
            },
            _ => return Ok(false),
        }
        Ok(false)
    }

    /// Parses one statement or expression at the cursor. With
    /// `is_skip_semicolon`, a `;` that ends it is stepped over.
    fn parse(&mut self, is_skip_semicolon: bool) -> (r: Result<Expr, String>)
        requires
            old(self).wf(),
        ensures
            Self::kept(*old(self), *final(self)),
            gives(r, p_parse(old(self).source(), old(self).state(), is_skip_semicolon).0),
            final(self).state() == p_parse(old(self).source(), old(self).state(), is_skip_semicolon).1,
        decreases old(self).src_len(), old(self).measure(), 20nat,
    {
        match &self.current_token.typ {
            TokenType::Illegal | TokenType::SyntaxError => {
                let raw = self.current_token.typ.to_raw();
                Err(self.err(raw.as_str()))
            },
            TokenType::EOF => Err(self.err("未知解析")),
            TokenType::Literal(_) => self.parse_literal_stmt(is_skip_semicolon),
            TokenType::Ident(_) => self.parse_ident_stmt(is_skip_semicolon),
            TokenType::Punctuator(_) => self.parse_punct_stmt(is_skip_semicolon),
            TokenType::Keyword(_) => self.parse_keyword_stmt(is_skip_semicolon),
            TokenType::Template(_, _) => self.parse_template(),
        }
    }

    /// A statement that starts with a number or a string.
    fn parse_literal_stmt(&mut self, is_skip_semicolon: bool) -> (r: Result<Expr, String>)
        requires
            old(self).wf(),
            old(self).current_token.typ@ is Literal,
        ensures
            Self::kept(*old(self), *final(self)),
            gives(r, p_literal_stmt(old(self).source(), old(self).state(), is_skip_semicolon).0),
            final(self).state() == p_literal_stmt(old(self).source(), old(self).state(), is_skip_semicolon).1,
        decreases old(self).src_len(), old(self).measure(), 19nat,
    {
        let expr = self.parser_infix(Expr::Empty, Precedence::Lowest)?;
        self.skip_semicolon(is_skip_semicolon);
        Ok(expr)
    }

    /// A template: each `${..}` source is parsed as an expression of its own.
    fn parse_template(&mut self) -> (r: Result<Expr, String>)
        requires
            old(self).wf(),
            old(self).current_token.typ@ is Template,
        ensures
            Self::kept(*old(self), *final(self)),
            gives(r, p_template(old(self).source(), old(self).state()).0),
            final(self).state() == p_template(old(self).source(), old(self).state()).1,
        decreases old(self).src_len(), old(self).measure(), 19nat,
    {
        let (pieces, sources) = match &self.current_token.typ {
            TokenType::Template(a, b) => (a.clone(), b.clone()),
            _ => (Vec::new(), Vec::new()),
        };
        let ghost src = self.source();
        let ghost s0 = self.state();
        let ghost srcs = crate::token::strings_view(sources@);
        proof {
            assert(crate::token::strings_view(pieces@) == self.current_token.typ@->Template_0);
            assert(srcs == self.current_token.typ@->Template_1);
        }
        let mut expr_vec: Vec<Expr> = Vec::new();
        let mut i: usize = 0;
        let ghost goal = p_template(src, s0);
        let ghost pv = crate::token::strings_view(pieces@);
        assert(goal == match p_template_parts(src, s0, srcs, 0) {
            Ok(parts) => (Ok(ExprView::Template(pv, parts)), advance(src, s0)),
            Err(m) => (Err(m), s0),
        });
        while i < sources.len()
            invariant
                s0 == old(self).state(),
                goal == p_template(src, s0),
                goal == match p_template_parts(src, s0, srcs, 0) {
                    Ok(parts) => (Ok(ExprView::Template(pv, parts)), advance(src, s0)),
                    Err(m) => (Err(m), s0),
                },
                self.wf(),
                *self == *old(self),
                i <= sources.len(),
                srcs == crate::token::strings_view(sources@),
                srcs == self.current_token.typ@->Template_1,
                old(self).current_token.typ@ is Template,
                src == self.source(),
                s0 == self.state(),
                p_template_parts(src, s0, srcs, 0) == match p_template_parts(src, s0, srcs, i as int) {
                    Ok(rest) => Ok(exprs_view(expr_vec@) + rest),
                    Err(m) => Err::<Seq<ExprView>, Seq<char>>(m),
                },
            decreases sources.len() - i,
        {
            let n = sources[i].clone();
            proof {
                assert(srcs[i as int] == sources@[i as int]@);
                assert(n@.len() < self.src_len());
            }
            let t = Lexer::new(n);
            proof { t.lemma_wf(); }
            let mut parser = Self::new(t);
            let expr = match parser.parse(false) {
                Ok(e) => e,
                Err(m) => {
                    return Err(m);
                },
            };
            proof {
                lemma_exprs_view_push(expr_vec@, expr);
                let rest = p_template_parts(src, s0, srcs, i + 1);
                match rest {
                    Ok(r2) => {
                        assert(exprs_view(expr_vec@) + (seq![expr@] + r2) =~= exprs_view(expr_vec@).push(expr@) + r2);
                    },
                    Err(_) => {},
                }
            }
            expr_vec.push(expr);
            i += 1;
        }
        proof {
            assert(exprs_view(expr_vec@) + Seq::<ExprView>::empty() =~= exprs_view(expr_vec@));
        }
        let e = Expr::Template(pieces, expr_vec);
        self.next_token();
        Ok(e)
    }

    /// A statement that starts with an identifier.
    #[verifier::spinoff_prover]
    #[verifier::rlimit(100)]
    fn parse_ident_stmt(&mut self, is_skip_semicolon: bool) -> (r: Result<Expr, String>)
        requires
            old(self).wf(),
            old(self).current_token.typ@ is Ident,
        ensures
            Self::kept(*old(self), *final(self)),
            gives(r, p_ident_stmt(old(self).source(), old(self).state(), is_skip_semicolon).0),
            final(self).state() == p_ident_stmt(old(self).source(), old(self).state(), is_skip_semicolon).1,
        decreases old(self).src_len(), old(self).measure(), 19nat,
    {
        let ghost src = self.source();
        let ghost s0 = self.state();
        let ident = match &self.current_token.typ {
            TokenType::Ident(t) => t.clone(),
            _ => String::new(),
        };
        assert(ident@ == s0.cur.raw());
        if self.peek_token.is_eof(true) {
            self.next_token();
            self.next_token();
            return Ok(Expr::Identifier(ident));
        }
        if self.peek_token.checked_keyword() {
            if self.current_token.line == self.peek_token.line {
                return Err(self.err("Unexpected token"));
            }
            self.next_token();
            return Ok(Expr::Identifier(ident));
        }
        if self.peek_token.is_ptor(TokenPunctuator::Comma) {
            self.next_token();
            return Ok(Expr::Identifier(ident));
        }
        if self.peek_token.is_ptor(TokenPunctuator::MOV) {
            // a = <expr>
            let mut gen_json = false;
            if !self.gen_json {
                gen_json = true;
                self.gen_json = true;
            }
            assert(self.state() == if gen_json { with_json(s0, true) } else { s0 });
            let name = self.next_token();
            self.next_token();
            if self.current_token.is_eof(true) {
                return Err(self.err("Unexpected token"));
            }
            let mut v: Vec<(String, Expr)> = Vec::new();
            let expr = self.parse(is_skip_semicolon)?;
            let ghost first = seq![(ident@, expr@)];
            proof { lemma_entries_view_push(v@, (name.raw, expr)); }
            v.push((name.raw, expr));
            assert(entries_view(v@) =~= first);
            let ghost entry = old(self).measure();
            let ghost goal = p_ident_stmt(src, s0, is_skip_semicolon);
            assert(goal == ({
                let (o2, s4) = p_assign_loop(src, self.state(), entries_view(v@), is_skip_semicolon);
                match o2 {
                    Ok(w) => (Ok(ExprView::Assignment(w)), if gen_json { with_json(s4, false) } else { s4 }),
                    Err(m) => (Err(m), s4),
                }
            }));
            loop
                invariant
                    self.wf(),
                    self.source() == old(self).source(),
                    self.measure() < entry,
                    entry == old(self).measure(),
                    self.src_len() == old(self).src_len(),
                    src == self.source(),
                    gen_json == !s0.json,
                    s0 == old(self).state(),
                    goal == p_ident_stmt(src, s0, is_skip_semicolon),
                    goal == ({
                        let (o2, s4) = p_assign_loop(src, self.state(), entries_view(v@), is_skip_semicolon);
                        match o2 {
                            Ok(w) => (Ok(ExprView::Assignment(w)), if gen_json { with_json(s4, false) } else { s4 }),
                            Err(m) => (Err(m), s4),
                        }
                    }),
                ensures
                    goal == (Ok::<ExprView, Seq<char>>(ExprView::Assignment(entries_view(v@))),
                        if gen_json { with_json(self.state(), false) } else { self.state() }),
                decreases self.measure(),
            {
                if self.current_token.is_ptor(TokenPunctuator::Comma) {
                    self.next_token();
                } else {
                    break;
                }
                let expr = self.parse(is_skip_semicolon)?;
                let ghost ev = expr@;
                let ghost before = v@;
                match expr {
                    Expr::Assignment(t) => {
                        let mut t = t;
                        proof { lemma_entries_view_append(v@, t@); }
                        v.append(&mut t);
                    },
                    Expr::Identifier(t) => {
                        proof { lemma_entries_view_push(v@, (t, Expr::Empty)); }
                        v.push((t, Expr::Empty));
                    },
                    _ => {},
                }
                assert(entries_view(v@) == match ev {
                    ExprView::Assignment(t) => entries_view(before) + t,
                    ExprView::Identifier(t) => entries_view(before).push((t, ExprView::Empty)),
                    _ => entries_view(before),
                });
            }
            if gen_json {
                self.gen_json = false;
            }
            return Ok(Expr::Assignment(v));
        } else if self.peek_token.is_complex() {
            // a+ a[ a( a.
            let expr = self.parser_infix(Expr::Empty, Precedence::Lowest)?;
            self.skip_semicolon(is_skip_semicolon);
            return Ok(expr);
        } else if self.peek_token.is_update() {
            // a++ a--
            let p = if self.peek_token.is_ptor(TokenPunctuator::INC) {
                String::from_str("++")
            } else {
                String::from_str("--")
            };
            self.next_token();
            self.next_token();
            let expr = Expr::Update(Box::new(Expr::Identifier(ident)), p, false);
            proof { reveal_with_fuel(expr_view, 2); }
            self.skip_semicolon(is_skip_semicolon);
            return Ok(expr);
        } else if self.peek_token.is_ptor(TokenPunctuator::Colon) {
            let cur = self.current_token.clone();
            let expr = self.parse_base_typ(&cur)?;
            self.next_token();
            return Ok(expr);
        }
        let cur = self.current_token.clone();
        let peek_typ = self.peek_token.typ.clone();
        let chk = self.checked_paren(&peek_typ)?;
        if chk {
            return self.parse_base_typ(&cur);
        }
        Err(self.err("Unexpected token"))
    }

    /// A statement that starts with a punctuator.
    fn parse_punct_stmt(&mut self, is_skip_semicolon: bool) -> (r: Result<Expr, String>)
        requires
            old(self).wf(),
            old(self).current_token.typ@ is Punctuator,
        ensures
            Self::kept(*old(self), *final(self)),
            gives(r, p_punct_stmt(old(self).source(), old(self).state(), is_skip_semicolon).0),
            final(self).state() == p_punct_stmt(old(self).source(), old(self).state(), is_skip_semicolon).1,
        decreases old(self).src_len(), old(self).measure(), 19nat,
    {
        let cur = self.current_token.clone();
        let t = match &self.current_token.typ {
            TokenType::Punctuator(t) => *t,
            _ => TokenPunctuator::Comma,
        };
        if t == TokenPunctuator::LCParen {
            if self.gen_json {
                let expr = self.parse_json_slot()?;
                self.skip_semicolon(is_skip_semicolon);
                return Ok(expr);
            } else {
                return self.parse_body_slot(false);
            }
        }
        if t == TokenPunctuator::LSParen {
            let expr = self.parse_array_slot()?;
            self.skip_semicolon(is_skip_semicolon);
            return Ok(expr);
        }
        if t == TokenPunctuator::Semicolon {
            if self.peek_token.is_eof(false) {
                self.next_token();
                return Ok(Expr::Empty);
            }
            return self.parse_base_typ(&cur);
        }
        if t == TokenPunctuator::Comma {
            return self.parse_base_typ(&cur);
        }
        if t == TokenPunctuator::INC || t == TokenPunctuator::DEC {
            // ++a
            let p = if t == TokenPunctuator::INC {
                String::from_str("++")
            } else {
                String::from_str("--")
            };
            if self.peek_token.is_ident() {
                self.next_token();
                let ident = self.checked_base()?;
                let expr = Expr::Update(Box::new(ident), p, true);
                if self.current_token.is_complex() {
                    return Err(self.err("暂不支持未定义行为"));
                }
                self.skip_semicolon(is_skip_semicolon);
                return Ok(expr);
            }
        }
        if cur.is_unary() {
            let unary = self.parse_unary()?;
            self.next_token();
            let expr = self.parse(is_skip_semicolon)?;
            return Ok(Expr::Unary(unary, Box::new(expr)));
        }
        let typ = self.current_token.typ.clone();
        let chk = self.checked_paren(&typ)?;
        if chk {
            return self.parse_base_typ(&cur);
        }
        Err(self.err("Unexpected token"))
    }

    /// A statement that starts with a keyword.
    fn parse_keyword_stmt(&mut self, is_skip_semicolon: bool) -> (r: Result<Expr, String>)
        requires
            old(self).wf(),
            old(self).current_token.typ@ is Keyword,
        ensures
            Self::kept(*old(self), *final(self)),
            gives(r, p_keyword_stmt(old(self).source(), old(self).state(), is_skip_semicolon).0),
            final(self).state() == p_keyword_stmt(old(self).source(), old(self).state(), is_skip_semicolon).1,
        decreases old(self).src_len(), old(self).measure(), 19nat,
    {
        let t = match &self.current_token.typ {
            TokenType::Keyword(t) => *t,
            _ => TokenKeyword::NoKeyword,
        };
        if t == TokenKeyword::Let || t == TokenKeyword::Var || t == TokenKeyword::Const {
            self.parse_variable_stmt(is_skip_semicolon)
        } else if t == TokenKeyword::If {
            let expr = self.parse_if_slot();
            self.skip_semicolon(is_skip_semicolon);
            expr
        } else if t == TokenKeyword::Else {
            Err(self.err("Unexpected token else"))
        } else if t == TokenKeyword::Swith {
            let expr = self.parse_switch_slot();
            self.skip_semicolon(is_skip_semicolon);
            expr
        } else if t == TokenKeyword::For {
            let expr = self.parse_for_slot();
            self.skip_semicolon(is_skip_semicolon);
            expr
        } else if t == TokenKeyword::Break {
            if !self.allow_break {
                return Err(self.err("Illegal break statement"));
            }
            self.next_token();
            self.skip_semicolon(is_skip_semicolon);
            Ok(Expr::Break)
        } else if t == TokenKeyword::Continue {
            if !self.allow_continue {
                return Err(self.err("Illegal continue statement"));
            }
            self.next_token();
            self.skip_semicolon(is_skip_semicolon);
            Ok(Expr::Continue)
        } else if t == TokenKeyword::Return {
            self.parse_return_stmt(is_skip_semicolon)
        } else if t == TokenKeyword::Function {
            let expr = self.parse_function_slot();
            self.skip_semicolon(is_skip_semicolon);
            expr
        } else if t == TokenKeyword::While {
            let expr = self.parse_while_slot();
            self.skip_semicolon(is_skip_semicolon);
            expr
        } else if t == TokenKeyword::Do {
            let expr = self.parse_do_while_slot();
            self.skip_semicolon(is_skip_semicolon);
            expr
        } else {
            Err(self.err("Unexpected token"))
        }
    }

    /// `let`, `var` or `const` with its declarations.
    #[verifier::spinoff_prover]
    #[verifier::rlimit(100)]
    fn parse_variable_stmt(&mut self, is_skip_semicolon: bool) -> (r: Result<Expr, String>)
        requires
            old(self).wf(),
            old(self).current_token.typ@ is Keyword,
        ensures
            Self::kept(*old(self), *final(self)),
            gives(r, p_variable_stmt(old(self).source(), old(self).state(), is_skip_semicolon).0),
            final(self).state() == p_variable_stmt(old(self).source(), old(self).state(), is_skip_semicolon).1,
        decreases old(self).src_len(), old(self).measure(), 18nat,
    {
        let ghost src = self.source();
        let ghost s0 = self.state();
        let token = self.next_token();
        if !self.current_token.is_ident() {
            return Err(self.err("Unexpected end of input"));
        }
        let key = if token.is_keyword(TokenKeyword::Var) {
            Variable::Var
        } else if token.is_keyword(TokenKeyword::Let) {
            Variable::Let
        } else {
            Variable::Const
        };
        let mut v: Vec<(Variable, String, Expr)> = Vec::new();
        self.allow_fn_name_empty = true;
        assert(declarations_view(v@) =~= Seq::<(Variable, Seq<char>, ExprView)>::empty());
        let ghost entry = old(self).measure();
        let ghost goal = p_variable_stmt(src, s0, is_skip_semicolon);
        assert(goal == ({
            let (o, s2) = p_var_loop(src, self.state(), declarations_view(v@), key, is_skip_semicolon);
            match o {
                Ok(w) => (Ok(ExprView::Variable(w)), skip_semi(src, with_fn_name_empty(s2, false), is_skip_semicolon)),
                Err(m) => (Err(m), s2),
            }
        }));
        loop
            invariant_except_break
                goal == ({
                    let (o, s2) = p_var_loop(src, self.state(), declarations_view(v@), key, is_skip_semicolon);
                    match o {
                        Ok(w) => (Ok(ExprView::Variable(w)), skip_semi(src, with_fn_name_empty(s2, false), is_skip_semicolon)),
                        Err(m) => (Err(m), s2),
                    }
                }),
            invariant
                self.wf(),
                self.source() == old(self).source(),
                self.measure() < entry,
                entry == old(self).measure(),
                self.src_len() == old(self).src_len(),
                src == self.source(),
                key == declaration_keyword(s0.cur),
                s0 == old(self).state(),
                goal == p_variable_stmt(src, s0, is_skip_semicolon),
            ensures
                goal == (Ok::<ExprView, Seq<char>>(ExprView::Variable(declarations_view(v@))),
                    skip_semi(src, with_fn_name_empty(self.state(), false), is_skip_semicolon)),
            decreases self.measure(),
        {
            let expr = self.parse(is_skip_semicolon)?;
            let ghost ev = expr@;
            let ghost before = declarations_view(v@);
            match expr {
                Expr::Assignment(ass) => {
                    let mut ass = ass;
                    proof { lemma_entries_view_index(ass@); }
                    let ghost target = before + declared(key, entries_view(ass@));
                    assert(declarations_view(v@) + declared(key, entries_view(ass@)) == target);
                    while ass.len() > 0
                        invariant
                            declarations_view(v@) + declared(key, entries_view(ass@)) == target,
                        decreases ass.len(),
                    {
                        let ghost rest = declared(key, entries_view(ass@));
                        let ghost dv = declarations_view(v@);
                        proof { lemma_entries_view_index(ass@); }
                        let (name, value) = ass.remove(0);
                        proof {
                            lemma_entries_view_index(ass@);
                            lemma_declarations_view_push(v@, (key, name, value));
                            assert(rest =~= seq![(key, name@, value@)] + declared(key, entries_view(ass@)));
                        }
                        v.push((key, name, value));
                        assert(declarations_view(v@) + declared(key, entries_view(ass@)) =~= dv + rest);
                    }
                    assert(declared(key, entries_view(ass@)) =~= Seq::<(Variable, Seq<char>, ExprView)>::empty());
                    assert(declarations_view(v@) =~= target);
                },
                _ => {},
            }
            assert(declarations_view(v@) == match ev {
                ExprView::Assignment(t) => before + declared(key, t),
                _ => before,
            });
            if self.current_token.is_ptor(TokenPunctuator::Comma) {
                self.next_token();
            } else {
                break;
            }
        }
        self.allow_fn_name_empty = false;
        self.skip_semicolon(is_skip_semicolon);
        Ok(Expr::Variable(v))
    }

    /// `return`, with or without a value.
    #[verifier::spinoff_prover]
    #[verifier::rlimit(50)]
    fn parse_return_stmt(&mut self, is_skip_semicolon: bool) -> (r: Result<Expr, String>)
        requires
            old(self).wf(),
            old(self).current_token.typ@ is Keyword,
        ensures
            Self::kept(*old(self), *final(self)),
            gives(r, p_return_stmt(old(self).source(), old(self).state(), is_skip_semicolon).0),
            final(self).state() == p_return_stmt(old(self).source(), old(self).state(), is_skip_semicolon).1,
        decreases old(self).src_len(), old(self).measure(), 18nat,
    {
        let ghost src = self.source();
        let ghost s0 = self.state();
        if !self.allow_return {
            return Err(self.err("Illegal return statement"));
        }
        self.allow_fn_name_empty = true;
        assert(self.state() == with_fn_name_empty(s0, true));
        self.next_token();
        let ghost s1 = self.state();
        assert(s1 == advance(src, with_fn_name_empty(s0, true)));
        assert(measure(src, s1) < measure(src, s0));
        if self.current_token.is_ptor(TokenPunctuator::Semicolon) {
            self.next_token();
            self.skip_semicolon(is_skip_semicolon);
            proof { reveal_with_fuel(expr_view, 2); }
            return Ok(Expr::Return(Box::new(Expr::Empty)));
        }
        let expr = self.parse(is_skip_semicolon)?;
        if matches!(expr, Expr::Infix(_, _, _) | Expr::Call(_, _) | Expr::Function(_, _, _)
            | Expr::Identifier(_) | Expr::Assignment(_) | Expr::Literal(_)) {
            self.allow_fn_name_empty = false;
            self.skip_semicolon(is_skip_semicolon);
            self.skip_semicolon(is_skip_semicolon);
            return Ok(Expr::Return(Box::new(expr)));
        }
        Err(self.err("Unexpected token"))
    }

    /// The expression that a single token stands for: a prefix operator with
    /// the expression after it, an identifier, a quoted literal, or nothing.
    fn parse_base_typ(&mut self, token: &Token) -> (r: Result<Expr, String>)
        requires
            old(self).wf(),
            token.wf(),
            token.spec_is_unary() ==> old(self).current_token.spec_is_unary(),
        ensures
            Self::kept(*old(self), *final(self)),
            gives(r, p_base_typ(old(self).source(), old(self).state(), token.typ@).0),
            final(self).state() == p_base_typ(old(self).source(), old(self).state(), token.typ@).1,
        decreases old(self).src_len(), old(self).measure(), 18nat,
    {
        if token.is_unary() {
            let unary = self.parse_unary()?;
            self.next_token();
            let expr = self.parse(true)?;
            return Ok(Expr::Unary(unary, Box::new(expr)));
        }
        if token.is_ident() {
            Ok(Expr::Identifier(token.raw.clone()))
        } else if token.is_literal() {
            let raw = token.raw.as_str();
            let quoted = raw.unicode_len() > 0 && (raw.get_char(0) == '"' || raw.get_char(0) == '\'');
            if quoted {
                Ok(Expr::Literal(token.raw.clone()))
            } else {
                Err(String::new())
            }
        } else {
            Ok(Expr::Empty)
        }
    }

    /// Parses operators and operands from the cursor for as long as they bind
    /// tighter than `precedence`, starting from `left` (or from the operand at
    /// the cursor when `left` is empty).
    #[verifier::spinoff_prover]
    #[verifier::rlimit(50)]
    fn parser_infix(&mut self, left: Expr, precedence: Precedence) -> (r: Result<Expr, String>)
        requires
            old(self).wf(),
        ensures
            Self::kept(*old(self), *final(self)),
            gives(r, p_infix(old(self).source(), old(self).state(), left@, precedence).0),
            final(self).state() == p_infix(old(self).source(), old(self).state(), left@, precedence).1,
        decreases old(self).src_len(), old(self).measure(), 14nat,
    {
        let ghost src = self.source();
        let ghost s0 = self.state();
        let ghost left0 = left@;
        let mut lhs = left;
        if matches!(lhs, Expr::Empty) {
            lhs = self.checked_base()?;
        }
        let ghost entry = old(self).measure();
        let ghost goal = p_infix(src, s0, left0, precedence);
        assert(goal == p_infix_loop(src, self.state(), lhs@, precedence));
        loop
            invariant
                self.wf(),
                self.source() == old(self).source(),
                self.measure() <= entry,
                entry == old(self).measure(),
                self.src_len() == old(self).src_len(),
                src == self.source(),
                s0 == old(self).state(),
                left0 == left@,
                goal == p_infix(src, s0, left0, precedence),
                goal == p_infix_loop(src, self.state(), lhs@, precedence),
            ensures
                goal == (Ok::<ExprView, Seq<char>>(lhs@), self.state()),
            decreases self.measure(),
        {
            let ghost st = self.state();
            let current = self.get_precedence(&self.current_token.typ);
            if !(rank_of(precedence) < rank_of(current)) {
                break;
            }
            let op_token = self.next_token();
            let op = self.get_operator(&op_token);
            assert(op == token_operator(st.cur));
            let op_precedence = self.get_precedence_by_operator(&op);
            let right = self.parser_infix(Expr::Empty, op_precedence)?;
            if !matches!(lhs, Expr::Identifier(_) | Expr::Literal(_) | Expr::Template(_, _)
                | Expr::Unary(_, _) | Expr::Call(_, _) | Expr::Infix(_, _, _)) {
                return Err(self.err("Unexpected token"));
            }
            lhs = Expr::Infix(Box::new(lhs), op, Box::new(right));
            proof { reveal_with_fuel(expr_view, 2); }
        }
        Ok(lhs)
    }

    /// The operand at the cursor: an identifier (or a call or member access
    /// on it), a literal (without surrounding `"`), or a bracketed expression.
    fn checked_base(&mut self) -> (r: Result<Expr, String>)
        requires
            old(self).wf(),
        ensures
            Self::kept(*old(self), *final(self)),
            gives(r, p_checked_base(old(self).source(), old(self).state()).0),
            final(self).state() == p_checked_base(old(self).source(), old(self).state()).1,
        decreases old(self).src_len(), old(self).measure(), 13nat,
    {
        match &self.current_token.typ {
            TokenType::Ident(t) => {
                if self.peek_token.is_ptor(TokenPunctuator::LParen)
                    || self.peek_token.is_ptor(TokenPunctuator::Dot)
                    || self.peek_token.is_ptor(TokenPunctuator::LSParen) {
                    self.parse_call_or_member()
                } else {
                    let expr = Expr::Identifier(t.clone());
                    self.next_token();
                    Ok(expr)
                }
            },
            TokenType::Literal(t) => {
                let expr = Expr::Literal(trim_char(t, '"'));
                self.next_token();
                Ok(expr)
            },
            TokenType::Punctuator(t) => {
                if t.is_precedence() {
                    return Err(self.err("Unexpected token"));
                }
                if matches!(t, TokenPunctuator::LParen) || matches!(t, TokenPunctuator::LSParen) {
                    self.next_token();
                    let expr = self.parse(true)?;
                    self.next_token();
                    return Ok(expr);
                }
                Err(self.err("未知解析"))
            },
            _ => Err(self.err("未知解析")),
        }
    }

    /// An identifier followed by any chain of calls `(..)`, indexes `[..]` and
    /// properties `.name`.
    #[verifier::spinoff_prover]
    #[verifier::rlimit(50)]
    fn parse_call_or_member(&mut self) -> (r: Result<Expr, String>)
        requires
            old(self).wf(),
            old(self).current_token.typ@ is Ident,
        ensures
            Self::kept(*old(self), *final(self)),
            gives(r, p_call_or_member(old(self).source(), old(self).state()).0),
            final(self).state() == p_call_or_member(old(self).source(), old(self).state()).1,
            final(self).measure() < old(self).measure(),
        decreases old(self).src_len(), old(self).measure(), 12nat,
    {
        let ghost src = self.source();
        let ghost s0 = self.state();
        let token = self.next_token();
        let mut expr = Expr::Empty;
        let ghost entry = old(self).measure();
        let ghost goal = p_call_or_member(src, s0);
        assert(goal == p_chain(src, self.state(), expr@, s0.cur.raw()));
        loop
            invariant
                self.wf(),
                self.source() == old(self).source(),
                self.measure() < entry,
                entry == old(self).measure(),
                self.src_len() == old(self).src_len(),
                src == self.source(),
                token.raw@ == s0.cur.raw(),
                s0 == old(self).state(),
                goal == p_call_or_member(src, s0),
                goal == p_chain(src, self.state(), expr@, s0.cur.raw()),
            ensures
                goal == (Ok::<ExprView, Seq<char>>(expr@), self.state()),
            decreases self.measure(), if expr is Empty { 1nat } else { 0nat },
        {
            if self.current_token.is_eof(true) {
                break;
            }
            if self.current_token.is_ptor(TokenPunctuator::RCParen) {
                break;
            } else if self.current_token.is_ptor(TokenPunctuator::RParen) {
                break;
            }
            if self.current_token.is_ptor(TokenPunctuator::LParen) {
                if matches!(expr, Expr::Empty) {
                    expr = Expr::Identifier(token.raw.clone());
                } else {
                    expr = self.parse_call_slot(expr)?;
                }
            } else if self.current_token.is_ptor(TokenPunctuator::LSParen)
                || self.current_token.is_ptor(TokenPunctuator::Dot) {
                if matches!(expr, Expr::Empty) {
                    expr = Expr::Member(Box::new(Expr::Identifier(token.raw.clone())), Box::new(Expr::Empty));
                } else {
                    expr = Expr::Member(Box::new(expr), Box::new(Expr::Empty));
                }
                proof { reveal_with_fuel(expr_view, 2); }
                let _ = self.parse_member_slot(&mut expr);
            } else {
                break;
            }
        }
        Ok(expr)
    }

    /// The arguments of a call of `callee`, from the `(` at the cursor.
    #[verifier::spinoff_prover]
    #[verifier::rlimit(100)]
    fn parse_call_slot(&mut self, callee: Expr) -> (r: Result<Expr, String>)
        requires
            old(self).wf(),
            old(self).current_token.spec_is_ptor(TokenPunctuator::LParen),
        ensures
            Self::kept(*old(self), *final(self)),
            gives(r, p_call_slot(old(self).source(), old(self).state(), callee@).0),
            final(self).state() == p_call_slot(old(self).source(), old(self).state(), callee@).1,
            final(self).measure() < old(self).measure(),
        decreases old(self).src_len(), old(self).measure(), 11nat,
    {
        let ghost src = self.source();
        let ghost s0 = self.state();
        let ghost cv = callee@;
        self.next_token();
        if self.current_token.is_ptor(TokenPunctuator::RParen) {
            self.next_token();
            let v: Vec<Expr> = Vec::new();
            assert(exprs_view(v@) =~= Seq::<ExprView>::empty());
            return Ok(Expr::Call(Box::new(callee), v));
        }
        let mut v: Vec<Expr> = Vec::new();
        let saved_json = self.gen_json;
        self.gen_json = true;
        let expr = match self.parse(true) {
            Ok(e) => e,
            Err(m) => {
                self.gen_json = saved_json;
                return Err(m);
            },
        };
        proof { lemma_exprs_view_push(v@, expr); }
        v.push(expr);
        assert(exprs_view(v@) =~= seq![expr@]);
        self.gen_json = saved_json;
        let ghost entry = old(self).measure();
        let ghost goal = p_call_slot(src, s0, cv);
        assert(goal == with_json_step(call_close(src, cv, p_list_loop(src, self.state(), exprs_view(v@))), s0.json));
        while self.current_token.is_ptor(TokenPunctuator::Comma)
            invariant
                self.wf(),
                self.source() == old(self).source(),
                self.measure() < entry,
                entry == old(self).measure(),
                self.src_len() == old(self).src_len(),
                src == self.source(),
                s0 == old(self).state(),
                goal == p_call_slot(src, s0, cv),
                goal == with_json_step(call_close(src, cv, p_list_loop(src, self.state(), exprs_view(v@))), s0.json),
                saved_json == s0.json,
            decreases self.measure(),
        {
            self.next_token();
            let expr = match self.parse(true) {
                Ok(e) => e,
                Err(m) => {
                    self.gen_json = saved_json;
                    return Err(m);
                },
            };
            if !self.is_valid(&expr) {
                let m = self.err("Unexpected token");
                self.gen_json = saved_json;
                return Err(m);
            }
            proof { lemma_exprs_view_push(v@, expr); }
            v.push(expr);
        }
        assert(goal == with_json_step(call_close(src, cv,
            (Ok::<Seq<ExprView>, Seq<char>>(exprs_view(v@)), self.state())), s0.json));
        if !self.current_token.is_ptor(TokenPunctuator::RParen) {
            let m = self.err("Unexpected end of input");
            self.gen_json = saved_json;
            return Err(m);
        }
        self.next_token();
        self.gen_json = saved_json;
        Ok(Expr::Call(Box::new(callee), v))
    }

    /// Replaces the property of the member access `mem` with `property`.
    fn set_property(mem: &mut Expr, property: Expr)
        ensures
            final(mem)@ == with_property(old(mem)@, property@),
            *old(mem) is Member ==> (*final(mem) is Member && final(mem)->Member_0 == old(mem)->Member_0),
            !(*old(mem) is Member) ==> *final(mem) == *old(mem),
    {
        let mut tmp = Expr::Empty;
        std::mem::swap(mem, &mut tmp);
        match tmp {
            Expr::Member(object, _) => {
                *mem = Expr::Member(object, Box::new(property));
            },
            other => {
                *mem = other;
            },
        }
    }

    /// The property of a member access, from the `.` or `[` at the cursor.
    #[verifier::spinoff_prover]
    #[verifier::rlimit(100)]
    fn parse_member_slot(&mut self, mem: &mut Expr) -> (r: Result<(), String>)
        requires
            old(self).wf(),
            old(self).current_token.spec_is_ptor(TokenPunctuator::LSParen)
                || old(self).current_token.spec_is_ptor(TokenPunctuator::Dot),
        ensures
            Self::kept(*old(self), *final(self)),
            final(self).measure() < old(self).measure(),
            final(mem)@ == p_member_slot(old(self).source(), old(self).state(), old(mem)@).0,
            final(self).state() == p_member_slot(old(self).source(), old(self).state(), old(mem)@).1,
        decreases old(self).src_len(), old(self).measure(), 11nat,
    {
        let ghost src = self.source();
        let ghost s0 = self.state();
        let ghost m0 = mem@;
        let ghost goal = p_member_slot(src, s0, m0);
        let t = self.next_token();
        let ghost s1 = self.state();
        assert(s1 == advance(src, s0));
        assert(shrunk(src, s1, s0));
        if t.is_ptor(TokenPunctuator::Dot) {
            if self.current_token.is_ident() {
                let ident = self.next_token();
                assert(ident.raw@ == s1.cur.raw());
                if matches!(mem, Expr::Member(_, _)) {
                    Self::set_property(mem, Expr::Identifier(ident.raw));
                    assert(goal == (mem@, self.state()));
                    return Ok(());
                }
                assert(!(m0 is Member));
                assert(goal == (mem@, self.state()));
            } else {
                assert(goal == (mem@, self.state()));
            }
        } else if t.is_ptor(TokenPunctuator::LSParen) {
            let expr = self.parse(true)?;
            if !self.is_valid(&expr) {
                return Err(self.err("Unexpected token"));
            }
            let ghost s2 = self.state();
            assert(shrunk(src, s2, s0));
            let mut v: Vec<Expr> = Vec::new();
            proof { lemma_exprs_view_push(v@, expr); }
            v.push(expr);
            assert(exprs_view(v@) =~= seq![expr@]);
            assert(goal == member_close(src, m0, p_list_loop(src, s2, exprs_view(v@))));
            let ghost entry = old(self).measure();
            while self.current_token.is_ptor(TokenPunctuator::Comma)
                invariant
                    self.wf(),
                    self.source() == old(self).source(),
                    self.measure() < entry,
                    entry == old(self).measure(),
                    self.src_len() == old(self).src_len(),
                    src == self.source(),
                    mem@ == m0,
                    s0 == old(self).state(),
                    m0 == old(mem)@,
                    goal == p_member_slot(src, s0, m0),
                    goal == member_close(src, m0, p_list_loop(src, self.state(), exprs_view(v@))),
                decreases self.measure(),
            {
                let ghost acc = exprs_view(v@);
                self.next_token();
                let e = self.parse(true)?;
                if !self.is_valid(&e) {
                    return Err(self.err("Unexpected token"));
                }
                proof { lemma_exprs_view_push(v@, e); }
                v.push(e);
            }
            let ghost s3 = self.state();
            let ghost acc = exprs_view(v@);
            assert(goal == member_close(src, m0, (Ok::<Seq<ExprView>, Seq<char>>(acc), s3)));
            if !matches!(mem, Expr::Member(_, _)) {
                return Err(self.err("未解析或异常"));
            }
            proof { lemma_exprs_view_index(v@); }
            if v.len() == 1 {
                let e = v.remove(0);
                assert(e@ == acc[0]);
                Self::set_property(mem, e);
            } else {
                Self::set_property(mem, Expr::Sequence(v));
            }
            assert(mem@ == with_property(m0, if acc.len() == 1 { acc[0] } else { ExprView::Sequence(acc) }));
            if !self.current_token.is_ptor(TokenPunctuator::RSParen) {
                return Err(self.err("Unexpected end of input"));
            }
            self.next_token();
        }
        Ok(())
    }

    /// An array literal, from the `[` at the cursor.
    fn parse_array_slot(&mut self) -> (r: Result<Expr, String>)
        requires
            old(self).wf(),
            old(self).current_token.spec_is_ptor(TokenPunctuator::LSParen),
        ensures
            Self::kept(*old(self), *final(self)),
            gives(r, p_array(old(self).source(), old(self).state()).0),
            final(self).state() == p_array(old(self).source(), old(self).state()).1,
        decreases old(self).src_len(), old(self).measure(), 15nat,
    {
        let ghost src = self.source();
        let ghost s0 = self.state();
        self.next_token();
        let mut v: Vec<Expr> = Vec::new();
        assert(exprs_view(v@) =~= Seq::<ExprView>::empty());
        if self.current_token.is_ptor(TokenPunctuator::RSParen) {
            self.next_token();
            return Ok(Expr::Array(v));
        }
        let ghost entry = old(self).measure();
        let ghost goal = p_array(src, s0);
        assert(goal == wrap_array(p_array_loop(src, self.state(), exprs_view(v@))));
        loop
            invariant_except_break
                goal == wrap_array(p_array_loop(src, self.state(), exprs_view(v@))),
            invariant
                self.wf(),
                self.source() == old(self).source(),
                self.measure() < entry,
                entry == old(self).measure(),
                self.src_len() == old(self).src_len(),
                src == self.source(),
                s0 == old(self).state(),
                goal == p_array(src, s0),
            ensures
                goal == (Ok::<ExprView, Seq<char>>(ExprView::Array(exprs_view(v@))), self.state()),
            decreases self.measure(),
        {
            self.allow_fn_name_empty = true;
            let expr = self.parse(false)?;
            self.allow_fn_name_empty = false;
            proof { lemma_exprs_view_push(v@, expr); }
            v.push(expr);
            if self.current_token.is_ptor(TokenPunctuator::Comma) {
                self.next_token();
                continue;
            }
            if self.current_token.is_ptor(TokenPunctuator::RSParen) {
                self.next_token();
                break;
            } else {
                return Err(self.err("Unexpected token"));
            }
        }
        Ok(Expr::Array(v))
    }

    /// An object literal, from the `{` at the cursor: `key: value` pairs and
    /// shorthand keys. A later entry for a key replaces an earlier one.
    #[verifier::spinoff_prover]
    #[verifier::rlimit(50)]
    fn parse_json_slot(&mut self) -> (r: Result<Expr, String>)
        requires
            old(self).wf(),
            old(self).current_token.spec_is_ptor(TokenPunctuator::LCParen),
        ensures
            Self::kept(*old(self), *final(self)),
            gives(r, p_json(old(self).source(), old(self).state()).0),
            final(self).state() == p_json(old(self).source(), old(self).state()).1,
            r matches Ok(e) ==> (e matches Expr::Object(v) && distinct_keys(v@)),
        decreases old(self).src_len(), old(self).measure(), 15nat,
    {
        let ghost src = self.source();
        let ghost s0 = self.state();
        self.next_token();
        let mut v: Vec<(String, Expr)> = Vec::new();
        assert(entries_view(v@) =~= Seq::<(Seq<char>, ExprView)>::empty());
        if self.current_token.is_ptor(TokenPunctuator::RCParen) {
            self.next_token();
            return Ok(Expr::Object(v));
        }
        let ghost entry = old(self).measure();
        let ghost goal = p_json(src, s0);
        assert(goal == wrap_object(p_json_loop(src, self.state(), entries_view(v@))));
        loop
            invariant_except_break
                goal == wrap_object(p_json_loop(src, self.state(), entries_view(v@))),
            invariant
                self.wf(),
                self.source() == old(self).source(),
                self.measure() < entry,
                entry == old(self).measure(),
                self.src_len() == old(self).src_len(),
                src == self.source(),
                distinct_keys(v@),
                s0 == old(self).state(),
                goal == p_json(src, s0),
            ensures
                goal == (Ok::<ExprView, Seq<char>>(ExprView::Object(entries_view(v@))), self.state()),
            decreases self.measure(),
        {
            let k = self.parse(false)?;
            let key = k.to_raw();
            if self.current_token.is_ptor(TokenPunctuator::Colon) {
                self.next_token();
                self.allow_fn_name_empty = true;
                let value = self.parse(false)?;
                self.allow_fn_name_empty = false;
                insert_entry(&mut v, key.clone(), value);
                if self.current_token.is_ptor(TokenPunctuator::Comma) {
                    self.next_token();
                    continue;
                }
            } else if self.current_token.is_ptor(TokenPunctuator::Comma) {
                self.next_token();
                insert_entry(&mut v, key.clone(), Expr::Ref(key.clone()));
                continue;
            }
            if self.current_token.is_ptor(TokenPunctuator::RCParen) {
                self.next_token();
                if !contains_key(&v, &key) {
                    insert_entry(&mut v, key.clone(), Expr::Ref(key.clone()));
                }
                break;
            } else {
                return Err(self.err("Unexpected token"));
            }
        }
        Ok(Expr::Object(v))
    }

    /// A block `{ .. }`, or with `allow_single` also a single statement that is
    /// an assignment, a call, a `return` or a `break`.
    fn parse_body_slot(&mut self, allow_single: bool) -> (r: Result<Expr, String>)
        requires
            old(self).wf(),
        ensures
            Self::kept(*old(self), *final(self)),
            gives(r, p_body_slot(old(self).source(), old(self).state(), allow_single).0),
            final(self).state() == p_body_slot(old(self).source(), old(self).state(), allow_single).1,
        decreases old(self).src_len(), old(self).measure(), if allow_single { 21nat } else { 15nat },
    {
        let ghost src = self.source();
        let ghost s0 = self.state();
        if !allow_single && !self.current_token.is_ptor(TokenPunctuator::LCParen) {
            return Err(self.err("Unexpected token"));
        }
        if self.current_token.is_ptor(TokenPunctuator::LCParen) {
            self.next_token();
            let mut v: Vec<Expr> = Vec::new();
            assert(exprs_view(v@) =~= Seq::<ExprView>::empty());
            let ghost entry = old(self).measure();
            let ghost goal = p_body_slot(src, s0, allow_single);
            assert(goal == block_close(src, p_block_loop(src, self.state(), exprs_view(v@))));
            loop
                invariant
                    self.wf(),
                    self.source() == old(self).source(),
                    self.measure() < entry,
                    entry == old(self).measure(),
                    self.src_len() == old(self).src_len(),
                    src == self.source(),
                    s0 == old(self).state(),
                    goal == p_body_slot(src, s0, allow_single),
                    goal == block_close(src, p_block_loop(src, self.state(), exprs_view(v@))),
                ensures
                    goal == block_close(src, (Ok::<Seq<ExprView>, Seq<char>>(exprs_view(v@)), self.state())),
                decreases self.measure(),
            {
                if self.current_token.is_eof(true) {
                    break;
                }
                if self.current_token.is_ptor(TokenPunctuator::RCParen) {
                    break;
                }
                let before = self.measure_exec();
                let expr = self.parse(true)?;
                proof { lemma_exprs_view_push(v@, expr); }
                v.push(expr);
                if self.measure_exec() >= before {
                    return Err(self.err("Unexpected token"));
                }
            }
            if !self.current_token.is_ptor(TokenPunctuator::RCParen) {
                return Err(self.err("Unexpected token"));
            }
            self.next_token();
            Ok(Expr::Block(v))
        } else {
            let expr = self.parse(false)?;
            if matches!(expr, Expr::Assignment(_) | Expr::Call(_, _) | Expr::Return(_) | Expr::Break) {
                Ok(expr)
            } else {
                Err(self.err("Use of future reserved word in strict mode"))
            }
        }
    }

    /// `do <body> while (<test>)`, from the `do` at the cursor.
    #[verifier::spinoff_prover]
    #[verifier::rlimit(100)]
    fn parse_do_while_slot(&mut self) -> (r: Result<Expr, String>)
        requires
            old(self).wf(),
            old(self).current_token.spec_is_keyword(TokenKeyword::Do),
        ensures
            Self::kept(*old(self), *final(self)),
            gives(r, p_do_while(old(self).source(), old(self).state()).0),
            final(self).state() == p_do_while(old(self).source(), old(self).state()).1,
        decreases old(self).src_len(), old(self).measure(), 15nat,
    {
        self.next_token();
        let line = self.current_token.line;
        let saved_break = self.allow_break;
        let saved_continue = self.allow_continue;
        self.allow_break = true;
        self.allow_continue = true;
        let body = self.parse_body_slot(true)?;
        self.allow_break = saved_break;
        self.allow_continue = saved_continue;
        let braced = matches!(body, Expr::Block(_));
        if !self.body_end(line, braced) {
            return Err(self.err("Unexpected token"));
        }
        if !self.body_end(line, braced) {
            return Err(self.err("Unexpected token"));
        }
        self.parse_do_while_test(body, Ghost(old(self).state()))
    }

    /// The `while (<test>)` that closes a `do` loop begun in state `s0`,
    /// around `body`.
    fn parse_do_while_test(&mut self, body: Expr, Ghost(s0): Ghost<PState>) -> (r: Result<Expr, String>)
        requires
            old(self).wf(),
            measure(old(self).source(), old(self).state()) <= measure(old(self).source(), s0),
        ensures
            Self::kept(*old(self), *final(self)),
            gives(r, p_do_while_test(old(self).source(), s0, old(self).state(), body@).0),
            final(self).state() == p_do_while_test(old(self).source(), s0, old(self).state(), body@).1,
        decreases old(self).src_len(), measure(old(self).source(), s0), 14nat,
    {
        if !self.current_token.is_keyword(TokenKeyword::While) {
            return Err(self.err("Unexpected end of input"));
        }
        self.next_token();
        if !self.current_token.is_ptor(TokenPunctuator::LParen) {
            return Err(self.err("Unexpected token"));
        }
        self.next_token();
        let test = self.parse(false)?;
        if !self.is_valid(&test) {
            return Err(self.err("Unexpected token"));
        }
        if !self.current_token.is_ptor(TokenPunctuator::RParen) {
            return Err(self.err("Unexpected token"));
        }
        self.next_token();
        proof { reveal_with_fuel(expr_view, 2); }
        Ok(Expr::DoWhile(Box::new(test), Box::new(body)))
    }

    /// `while (<test>) <body>`, from the `while` at the cursor.
    #[verifier::spinoff_prover]
    #[verifier::rlimit(100)]
    fn parse_while_slot(&mut self) -> (r: Result<Expr, String>)
        requires
            old(self).wf(),
            old(self).current_token.spec_is_keyword(TokenKeyword::While),
        ensures
            Self::kept(*old(self), *final(self)),
            gives(r, p_while(old(self).source(), old(self).state()).0),
            final(self).state() == p_while(old(self).source(), old(self).state()).1,
        decreases old(self).src_len(), old(self).measure(), 15nat,
    {
        let saved_break = self.allow_break;
        let saved_continue = self.allow_continue;
        self.next_token();
        if !self.current_token.is_ptor(TokenPunctuator::LParen) {
            return Err(self.err("Unexpected token"));
        }
        self.next_token();
        let test = self.parse(false)?;
        if !self.is_valid(&test) {
            return Err(self.err("Unexpected token"));
        }
        if !self.current_token.is_ptor(TokenPunctuator::RParen) {
            return Err(self.err("Unexpected token"));
        }
        self.next_token();
        let line = self.current_token.line;
        self.allow_break = true;
        self.allow_continue = true;
        let body = self.parse_body_slot(true)?;
        self.allow_break = saved_break;
        self.allow_continue = saved_continue;
        let braced = matches!(body, Expr::Block(_));
        if !self.body_end(line, braced) {
            return Err(self.err("Unexpected token"));
        }
        Ok(Expr::While(Box::new(test), Box::new(body)))
    }

    /// `function [name](<params>) { <body> }`, from the `function` at the cursor.
    /// The name may be left out only where `allow_fn_name_empty` is set.
    #[verifier::spinoff_prover]
    #[verifier::rlimit(100)]
    fn parse_function_slot(&mut self) -> (r: Result<Expr, String>)
        requires
            old(self).wf(),
            old(self).current_token.spec_is_keyword(TokenKeyword::Function),
        ensures
            Self::kept(*old(self), *final(self)),
            gives(r, p_function(old(self).source(), old(self).state()).0),
            final(self).state() == p_function(old(self).source(), old(self).state()).1,
        decreases old(self).src_len(), old(self).measure(), 15nat,
    {
        let saved_return = self.allow_return;
        let ghost src = self.source();
        let ghost s0 = self.state();
        self.next_token();
        let ghost s1 = self.state();
        let mut ident: Option<Token> = None;
        if self.allow_fn_name_empty {
            if self.current_token.is_ident() {
                ident = Some(self.next_token());
            }
        } else {
            if !self.current_token.is_ident() {
                return Err(self.err("Unexpected token"));
            }
            ident = Some(self.next_token());
        }
        let ghost name = if ident is Some { ExprView::Identifier(ident->0.raw@) } else { ExprView::Empty };
        assert(name == if s1.cur is Ident { ExprView::Identifier(s1.cur.raw()) } else { ExprView::Empty });
        if !self.current_token.is_ptor(TokenPunctuator::LParen) {
            return Err(self.err("Unexpected token"));
        }
        self.next_token();
        let mut args: Vec<Expr> = Vec::new();
        assert(exprs_view(args@) =~= Seq::<ExprView>::empty());
        let ghost entry = old(self).measure();
        let ghost goal = p_function(src, s0);
        assert(goal == p_function_rest(src, s0, name, p_params_loop(src, self.state(), exprs_view(args@))));
        loop
            invariant_except_break
                goal == p_function_rest(src, s0, name, p_params_loop(src, self.state(), exprs_view(args@))),
            invariant
                self.wf(),
                self.source() == old(self).source(),
                self.measure() < entry,
                entry == old(self).measure(),
                self.src_len() == old(self).src_len(),
                src == self.source(),
                s0 == old(self).state(),
                goal == p_function(src, s0),
            ensures
                goal == p_function_rest(src, s0, name, (Ok::<Seq<ExprView>, Seq<char>>(exprs_view(args@)), self.state())),
            decreases self.measure(),
        {
            if self.current_token.is_ptor(TokenPunctuator::RParen) {
                break;
            }
            let expr = self.parse(false)?;
            proof { lemma_exprs_view_push(args@, expr); }
            args.push(expr);
            if self.current_token.is_ptor(TokenPunctuator::Comma) {
                self.next_token();
            } else {
                break;
            }
        }
        if !self.current_token.is_ptor(TokenPunctuator::RParen) {
            return Err(self.err("Unexpected end of input"));
        }
        self.next_token();
        self.allow_return = true;
        let body = self.parse_body_slot(false)?;
        self.allow_return = saved_return;
        proof { reveal_with_fuel(expr_view, 2); }
        match ident {
            Some(tk) => Ok(Expr::Function(Box::new(Expr::Identifier(tk.raw)), args, Box::new(body))),
            None => Ok(Expr::Function(Box::new(Expr::Empty), args, Box::new(body))),
        }
    }

    /// `switch (<test>) { case ..: .. default: .. }`, from the `switch` at the cursor.
    #[verifier::spinoff_prover]
    #[verifier::rlimit(100)]
    fn parse_switch_slot(&mut self) -> (r: Result<Expr, String>)
        requires
            old(self).wf(),
            old(self).current_token.spec_is_keyword(TokenKeyword::Swith),
        ensures
            Self::kept(*old(self), *final(self)),
            gives(r, p_switch(old(self).source(), old(self).state()).0),
            final(self).state() == p_switch(old(self).source(), old(self).state()).1,
        decreases old(self).src_len(), old(self).measure(), 15nat,
    {
        let ghost src = self.source();
        let ghost s0 = self.state();
        self.next_token();
        if !self.current_token.is_ptor(TokenPunctuator::LParen) {
            return Err(self.err("Unexpected token"));
        }
        self.next_token();
        let test = self.parse(false)?;
        if !self.current_token.is_ptor(TokenPunctuator::RParen) {
            return Err(self.err("Unexpected token"));
        }
        self.next_token();
        if !self.current_token.is_ptor(TokenPunctuator::LCParen) {
            return Err(self.err("Unexpected token"));
        }
        self.next_token();
        let mut v: Vec<Expr> = Vec::new();
        assert(exprs_view(v@) =~= Seq::<ExprView>::empty());
        let ghost tv = test@;
        let ghost entry = old(self).measure();
        let ghost goal = p_switch(src, s0);
        assert(goal == switch_close(src, tv, p_cases_loop(src, self.state(), exprs_view(v@))));
        loop
            invariant_except_break
                goal == switch_close(src, tv, p_cases_loop(src, self.state(), exprs_view(v@))),
            invariant
                self.wf(),
                self.source() == old(self).source(),
                self.measure() < entry,
                entry == old(self).measure(),
                self.src_len() == old(self).src_len(),
                src == self.source(),
                s0 == old(self).state(),
                goal == p_switch(src, s0),
            ensures
                goal == switch_close(src, tv, (Ok::<Seq<ExprView>, Seq<char>>(exprs_view(v@)), self.state())),
            decreases self.measure(),
        {
            let ghost st = self.state();
            let ghost acc = exprs_view(v@);
            if self.current_token.is_ptor(TokenPunctuator::RCParen) {
                break;
            }
            let is_default = self.current_token.is_keyword(TokenKeyword::Default);
            if self.current_token.is_keyword(TokenKeyword::Case) || is_default {
                self.next_token();
                let mut case_test = Expr::Empty;
                if !self.current_token.is_ptor(TokenPunctuator::Colon) {
                    case_test = self.parse(false)?;
                }
                if self.current_token.is_ptor(TokenPunctuator::Colon) {
                    self.next_token();
                }
                if self.current_token.is_keyword(TokenKeyword::Default) {
                    let case = Expr::SwitchCase(Box::new(case_test), Vec::new());
                    proof {
                        reveal_with_fuel(expr_view, 2);
                        assert(exprs_view(Seq::<Expr>::empty()) == Seq::<ExprView>::empty());
                        lemma_exprs_view_push(v@, case);
                    }
                    v.push(case);
                    continue;
                }
                if self.current_token.is_ptor(TokenPunctuator::RCParen) {
                    let case = Expr::SwitchCase(Box::new(case_test), Vec::new());
                    proof {
                        reveal_with_fuel(expr_view, 2);
                        assert(exprs_view(Seq::<Expr>::empty()) == Seq::<ExprView>::empty());
                        lemma_exprs_view_push(v@, case);
                    }
                    v.push(case);
                    break;
                }
                let mut allow_break = false;
                if !self.allow_break {
                    allow_break = true;
                    self.allow_break = true;
                }
                let mut v_body: Vec<Expr> = Vec::new();
                assert(exprs_view(v_body@) =~= Seq::<ExprView>::empty());
                let ghost ct = case_test@;
                let ghost inner = self.measure();
                let ghost goal2 = p_cases_loop(src, st, acc);
                assert(goal2 == p_case_rest(src, st, acc, ct, allow_break, is_default,
                    p_case_body_loop(src, self.state(), exprs_view(v_body@))));
                loop
                    invariant_except_break
                        goal2 == p_case_rest(src, st, acc, ct, allow_break, is_default,
                            p_case_body_loop(src, self.state(), exprs_view(v_body@))),
                    invariant
                        self.wf(),
                        self.source() == old(self).source(),
                        self.measure() <= inner,
                        inner < entry,
                        entry == old(self).measure(),
                        self.src_len() == old(self).src_len(),
                        src == self.source(),
                        s0 == old(self).state(),
                        goal == p_switch(src, s0),
                        goal == switch_close(src, tv, goal2),
                    ensures
                        goal2 == p_case_rest(src, st, acc, ct, allow_break, is_default,
                            (Ok::<Seq<ExprView>, Seq<char>>(exprs_view(v_body@)), self.state())),
                    decreases self.measure(),
                {
                    let before = self.measure_exec();
                    let case_body = self.parse(true)?;
                    proof { lemma_exprs_view_push(v_body@, case_body); }
                    v_body.push(case_body);
                    if self.current_token.is_keyword(TokenKeyword::Default)
                        || self.current_token.is_ptor(TokenPunctuator::RCParen) {
                        break;
                    }
                    if self.measure_exec() >= before {
                        return Err(self.err("Unexpected token"));
                    }
                }
                if allow_break {
                    self.allow_break = false;
                }
                let case = Expr::SwitchCase(Box::new(case_test), v_body);
                proof { lemma_exprs_view_push(v@, case); }
                v.push(case);
                if is_default {
                    break;
                }
            } else {
                return Err(self.err("Unexpected token"));
            }
        }
        if !self.current_token.is_ptor(TokenPunctuator::RCParen) {
            return Err(self.err("Unexpected token"));
        }
        self.next_token();
        Ok(Expr::Switch(Box::new(test), v))
    }

    /// `for (<init>; <test>; <update>) <body>`, from the `for` at the cursor.
    fn parse_for_slot(&mut self) -> (r: Result<Expr, String>)
        requires
            old(self).wf(),
            old(self).current_token.spec_is_keyword(TokenKeyword::For),
        ensures
            Self::kept(*old(self), *final(self)),
            gives(r, p_for(old(self).source(), old(self).state()).0),
            final(self).state() == p_for(old(self).source(), old(self).state()).1,
        decreases old(self).src_len(), old(self).measure(), 15nat,
    {
        let saved_break = self.allow_break;
        let saved_continue = self.allow_continue;
        let ghost src = self.source();
        let ghost s0 = self.state();
        self.next_token();
        if !self.current_token.is_ptor(TokenPunctuator::LParen) {
            return Err(self.err("Unexpected token"));
        }
        self.next_token();
        let mut v: Vec<Expr> = Vec::new();
        assert(exprs_view(v@) =~= Seq::<ExprView>::empty());
        let mut t: usize = 0;
        let ghost entry = old(self).measure();
        let ghost goal = p_for(src, s0);
        assert(goal == p_for_rest(src, s0, p_for_parts(src, self.state(), exprs_view(v@), t as int)));
        while t < 3
            invariant_except_break
                v.len() == t,
                goal == p_for_rest(src, s0, p_for_parts(src, self.state(), exprs_view(v@), t as int)),
            invariant
                self.wf(),
                self.source() == old(self).source(),
                self.measure() < entry,
                entry == old(self).measure(),
                self.src_len() == old(self).src_len(),
                src == self.source(),
                t <= 3,
                s0 == old(self).state(),
                goal == p_for(src, s0),
            ensures
                v.len() == 3,
                goal == p_for_rest(src, s0, (Ok::<Seq<ExprView>, Seq<char>>(exprs_view(v@)), self.state())),
            decreases 3 - t,
        {
            if v.len() == 2 && self.current_token.is_ptor(TokenPunctuator::RParen) {
                proof { lemma_exprs_view_push(v@, Expr::Empty); }
                v.push(Expr::Empty);
                break;
            }
            let binary = self.parse(false)?;
            if !self.is_valid(&binary) && !matches!(binary, Expr::Empty) {
                let raw = binary.to_raw();
                let quoted = debug_quoted(raw.as_str());
                let mut msg = String::from_str("Unexpected token ");
                push_str(&mut msg, quoted.as_str());
                return Err(self.err(msg.as_str()));
            }
            if self.current_token.is_ptor(TokenPunctuator::Semicolon) {
                if t == 2 {
                    let quoted = debug_quoted(self.current_token.raw.as_str());
                    let mut msg = String::from_str("Unexpected token ");
                    push_str(&mut msg, quoted.as_str());
                    return Err(self.err(msg.as_str()));
                }
                self.next_token();
            }
            proof { lemma_exprs_view_push(v@, binary); }
            v.push(binary);
            t += 1;
        }
        if !self.current_token.is_ptor(TokenPunctuator::RParen) {
            let desc = self.current_token.desc();
            let quoted = debug_quoted(desc.as_str());
            let mut msg = String::from_str("Unexpected token ");
            push_str(&mut msg, quoted.as_str());
            return Err(self.err(msg.as_str()));
        }
        self.next_token();
        let line = self.current_token.line;
        self.allow_break = true;
        self.allow_continue = true;
        let body = self.parse_body_slot(true)?;
        self.allow_break = saved_break;
        self.allow_continue = saved_continue;
        let braced = matches!(body, Expr::Block(_));
        if !self.body_end(line, braced) {
            return Err(self.err("Unexpected token"));
        }
        proof { lemma_exprs_view_index(v@); }
        let update = v.pop().unwrap();
        let test = v.pop().unwrap();
        let init = v.pop().unwrap();
        Ok(Expr::For(Box::new(init), Box::new(test), Box::new(update), Box::new(body)))
    }

    /// `if (<test>) <then> [else <else>]`, from the `if` at the cursor.
    #[verifier::spinoff_prover]
    #[verifier::rlimit(100)]
    fn parse_if_slot(&mut self) -> (r: Result<Expr, String>)
        requires
            old(self).wf(),
            old(self).current_token.spec_is_keyword(TokenKeyword::If),
        ensures
            Self::kept(*old(self), *final(self)),
            gives(r, p_if(old(self).source(), old(self).state()).0),
            final(self).state() == p_if(old(self).source(), old(self).state()).1,
        decreases old(self).src_len(), old(self).measure(), 15nat,
    {
        self.next_token();
        if !self.current_token.is_ptor(TokenPunctuator::LParen) {
            return Err(self.err("Unexpected token"));
        }
        self.next_token();
        let binary = self.parse(false)?;
        if !self.is_valid(&binary) {
            return Err(self.err("Unexpected token"));
        }
        if !self.current_token.is_ptor(TokenPunctuator::RParen) {
            return Err(self.err("Unexpected token"));
        }
        self.next_token();
        let line = self.current_token.line;
        let left_expr = self.parse_body_slot(true)?;
        let mut flag = false;
        if self.current_token.is_ptor(TokenPunctuator::Semicolon) {
            self.next_token();
            flag = true;
        }
        let mut right_expr = Expr::Empty;
        if self.current_token.is_keyword(TokenKeyword::Else) {
            if self.current_token.line == line && !flag && !matches!(left_expr, Expr::Block(_)) {
                return Err(self.err("Unexpected token else"));
            }
            self.next_token();
            if self.current_token.is_keyword(TokenKeyword::If) {
                let expr = self.parse_if_slot()?;
                return Ok(Expr::If(Box::new(binary), Box::new(left_expr), Box::new(expr)));
            } else {
                let line = self.current_token.line;
                right_expr = self.parse_body_slot(true)?;
                let braced = matches!(right_expr, Expr::Block(_));
                if !self.body_end(line, braced) {
                    return Err(self.err("Unexpected token"));
                }
            }
        }
        proof { reveal_with_fuel(expr_view, 2); }
        Ok(Expr::If(Box::new(binary), Box::new(left_expr), Box::new(right_expr)))
    }

    /// Every statement up to the end of input.
    fn filter_statement(&mut self, count: usize, is_skip_semicolon: bool) -> (r: Result<Vec<Expr>, String>)
        requires
            old(self).wf(),
        ensures
            Self::kept(*old(self), *final(self)),
            gives_list(r, p_statements(old(self).source(), old(self).state(), Seq::empty()).0),
            final(self).state() == p_statements(old(self).source(), old(self).state(), Seq::empty()).1,
            r is Ok ==> final(self).current_token.typ@ is EOF,
    {
        let ghost src = self.source();
        let ghost s0 = self.state();
        let mut statements: Vec<Expr> = Vec::new();
        assert(exprs_view(statements@) =~= Seq::<ExprView>::empty());
        let ghost goal = p_statements(src, s0, Seq::empty());
        while !self.current_token.is_eof(false)
            invariant
                self.wf(),
                self.source() == old(self).source(),
                self.measure() <= old(self).measure(),
                src == self.source(),
                s0 == old(self).state(),
                goal == p_statements(src, s0, Seq::empty()),
                goal == p_statements(src, self.state(), exprs_view(statements@)),
            decreases self.measure(),
        {
            let before = self.measure_exec();
            let expr = self.parse(true)?;
            proof { lemma_exprs_view_push(statements@, expr); }
            statements.push(expr);
            if self.measure_exec() >= before {
                return Err(self.err("Unexpected token"));
            }
        }
        Ok(statements)
    }

    /// Parses the whole input into its statements, as `p_statements` describes.
    pub fn parse_program(&mut self) -> (r: Result<Vec<Expr>, String>)
        requires
            old(self).wf(),
        ensures
            final(self).wf(),
            final(self).source() == old(self).source(),
            gives_list(r, p_statements(old(self).source(), old(self).state(), Seq::empty()).0),
            final(self).state() == p_statements(old(self).source(), old(self).state(), Seq::empty()).1,
            r is Ok ==> final(self).current().typ@ is EOF,
    {
        self.filter_statement(0, true)
    }
}

} // verus!
