//! The syntax tree that the parser builds.

use vstd::prelude::*;
use crate::token::strings_view;

verus! {

/// A node of the syntax tree: an expression or a statement.
#[derive(Debug, PartialEq)]
pub enum Expr {
    Empty,
    /// `!a`, `~a`, `+a`, `-a`
    Unary(Unary, Box<Expr>),
    Unexpected(String),
    Identifier(String),
    /// A template's text pieces and its `${..}` expressions.
    Template(Vec<String>, Vec<Expr>),
    Literal(String),
    /// `a()`, `a.b()`
    Call(Box<Expr>, Vec<Expr>),
    /// `a.b`, `a[b]`
    Member(Box<Expr>, Box<Expr>),
    /// `a[1, 2, 3]`
    Sequence(Vec<Expr>),
    /// `a + b`, `a && b`, ...
    Infix(Box<Expr>, Operator, Box<Expr>),
    /// `a++` or `++a`; the flag is set for the prefix form.
    Update(Box<Expr>, String, bool),
    Variable(Vec<(Variable, String, Expr)>),
    Assignment(Vec<(String, Expr)>),
    If(Box<Expr>, Box<Expr>, Box<Expr>),
    Block(Vec<Expr>),
    Expression(Box<Expr>),
    Return(Box<Expr>),
    /// Init, test, update and body.
    For(Box<Expr>, Box<Expr>, Box<Expr>, Box<Expr>),
    ForIn(Box<Expr>, Box<Expr>),
    ForOf(Box<Expr>, Box<Expr>),
    Break,
    Continue,
    /// Name, parameters and body.
    Function(Box<Expr>, Vec<Expr>, Box<Expr>),
    While(Box<Expr>, Box<Expr>),
    /// Test and body, in the order of `While`.
    DoWhile(Box<Expr>, Box<Expr>),
    Switch(Box<Expr>, Vec<Expr>),
    SwitchCase(Box<Expr>, Vec<Expr>),
    /// An object literal: keys with their values, each key once.
    Object(Vec<(String, Expr)>),
    /// A shorthand property `{a}` that refers to the variable `a`.
    Ref(String),
    Array(Vec<Expr>),
}

/// The syntax tree as a mathematical value: texts are character sequences
/// and lists are sequences. It has one variant for each variant of `Expr`.
pub ghost enum ExprView {
    Empty,
    Unary(Unary, Box<ExprView>),
    Unexpected(Seq<char>),
    Identifier(Seq<char>),
    Template(Seq<Seq<char>>, Seq<ExprView>),
    Literal(Seq<char>),
    Call(Box<ExprView>, Seq<ExprView>),
    Member(Box<ExprView>, Box<ExprView>),
    Sequence(Seq<ExprView>),
    Infix(Box<ExprView>, Operator, Box<ExprView>),
    Update(Box<ExprView>, Seq<char>, bool),
    Variable(Seq<(Variable, Seq<char>, ExprView)>),
    Assignment(Seq<(Seq<char>, ExprView)>),
    If(Box<ExprView>, Box<ExprView>, Box<ExprView>),
    Block(Seq<ExprView>),
    Expression(Box<ExprView>),
    Return(Box<ExprView>),
    For(Box<ExprView>, Box<ExprView>, Box<ExprView>, Box<ExprView>),
    ForIn(Box<ExprView>, Box<ExprView>),
    ForOf(Box<ExprView>, Box<ExprView>),
    Break,
    Continue,
    Function(Box<ExprView>, Seq<ExprView>, Box<ExprView>),
    While(Box<ExprView>, Box<ExprView>),
    DoWhile(Box<ExprView>, Box<ExprView>),
    Switch(Box<ExprView>, Seq<ExprView>),
    SwitchCase(Box<ExprView>, Seq<ExprView>),
    Object(Seq<(Seq<char>, ExprView)>),
    Ref(Seq<char>),
    Array(Seq<ExprView>),
}

/// The value of a node.
pub open spec fn expr_view(e: Expr) -> ExprView
    decreases e,
{
    match e {
        Expr::Empty => ExprView::Empty,
        Expr::Unary(u, a) => ExprView::Unary(u, Box::new(expr_view(*a))),
        Expr::Unexpected(t) => ExprView::Unexpected(t@),
        Expr::Identifier(t) => ExprView::Identifier(t@),
        Expr::Template(a, b) => ExprView::Template(strings_view(a@), exprs_view(b@)),
        Expr::Literal(t) => ExprView::Literal(t@),
        Expr::Call(f, a) => ExprView::Call(Box::new(expr_view(*f)), exprs_view(a@)),
        Expr::Member(a, b) => ExprView::Member(Box::new(expr_view(*a)), Box::new(expr_view(*b))),
        Expr::Sequence(a) => ExprView::Sequence(exprs_view(a@)),
        Expr::Infix(a, op, b) => ExprView::Infix(Box::new(expr_view(*a)), op, Box::new(expr_view(*b))),
        Expr::Update(a, t, f) => ExprView::Update(Box::new(expr_view(*a)), t@, f),
        Expr::Variable(v) => ExprView::Variable(declarations_view(v@)),
        Expr::Assignment(v) => ExprView::Assignment(entries_view(v@)),
        Expr::If(a, b, c) => ExprView::If(Box::new(expr_view(*a)), Box::new(expr_view(*b)), Box::new(expr_view(*c))),
        Expr::Block(a) => ExprView::Block(exprs_view(a@)),
        Expr::Expression(a) => ExprView::Expression(Box::new(expr_view(*a))),
        Expr::Return(a) => ExprView::Return(Box::new(expr_view(*a))),
        Expr::For(a, b, c, d) => ExprView::For(
            Box::new(expr_view(*a)),
            Box::new(expr_view(*b)),
            Box::new(expr_view(*c)),
            Box::new(expr_view(*d)),
        ),
        Expr::ForIn(a, b) => ExprView::ForIn(Box::new(expr_view(*a)), Box::new(expr_view(*b))),
        Expr::ForOf(a, b) => ExprView::ForOf(Box::new(expr_view(*a)), Box::new(expr_view(*b))),
        Expr::Break => ExprView::Break,
        Expr::Continue => ExprView::Continue,
        Expr::Function(a, b, c) => ExprView::Function(Box::new(expr_view(*a)), exprs_view(b@), Box::new(expr_view(*c))),
        Expr::While(a, b) => ExprView::While(Box::new(expr_view(*a)), Box::new(expr_view(*b))),
        Expr::DoWhile(a, b) => ExprView::DoWhile(Box::new(expr_view(*a)), Box::new(expr_view(*b))),
        Expr::Switch(a, b) => ExprView::Switch(Box::new(expr_view(*a)), exprs_view(b@)),
        Expr::SwitchCase(a, b) => ExprView::SwitchCase(Box::new(expr_view(*a)), exprs_view(b@)),
        Expr::Object(v) => ExprView::Object(entries_view(v@)),
        Expr::Ref(t) => ExprView::Ref(t@),
        Expr::Array(a) => ExprView::Array(exprs_view(a@)),
    }
}

/// The values of a list of nodes.
pub open spec fn exprs_view(s: Seq<Expr>) -> Seq<ExprView>
    decreases s,
{
    if s.len() == 0 {
        Seq::empty()
    } else {
        exprs_view(s.subrange(0, s.len() - 1)).push(expr_view(s[s.len() - 1]))
    }
}

/// The values of a list of declarations.
pub open spec fn declarations_view(s: Seq<(Variable, String, Expr)>) -> Seq<(Variable, Seq<char>, ExprView)>
    decreases s,
{
    if s.len() == 0 {
        Seq::empty()
    } else {
        let d = s[s.len() - 1];
        declarations_view(s.subrange(0, s.len() - 1)).push((d.0, d.1@, expr_view(d.2)))
    }
}

/// The values of a list of keyed entries.
pub open spec fn entries_view(s: Seq<(String, Expr)>) -> Seq<(Seq<char>, ExprView)>
    decreases s,
{
    if s.len() == 0 {
        Seq::empty()
    } else {
        let d = s[s.len() - 1];
        entries_view(s.subrange(0, s.len() - 1)).push((d.0@, expr_view(d.1)))
    }
}

impl View for Expr {
    type V = ExprView;

    open spec fn view(&self) -> ExprView {
        expr_view(*self)
    }
}

/// Appending a node appends its value.
pub proof fn lemma_exprs_view_push(s: Seq<Expr>, e: Expr)
    ensures
        exprs_view(s.push(e)) == exprs_view(s).push(e@),
{
    assert(s.push(e).subrange(0, s.len() as int) =~= s);
}

/// The values of a list are the values of its nodes, one for one.
pub proof fn lemma_exprs_view_index(s: Seq<Expr>)
    ensures
        exprs_view(s).len() == s.len(),
        forall|i: int| 0 <= i < s.len() ==> #[trigger] exprs_view(s)[i] == s[i]@,
    decreases s.len(),
{
    if s.len() > 0 {
        let t = s.subrange(0, s.len() - 1);
        lemma_exprs_view_index(t);
        assert forall|i: int| 0 <= i < s.len() implies #[trigger] exprs_view(s)[i] == s[i]@ by {
            if i < s.len() - 1 {
                assert(t[i] == s[i]);
            }
        }
    }
}

/// Appending an entry appends its value.
pub proof fn lemma_entries_view_push(s: Seq<(String, Expr)>, d: (String, Expr))
    ensures
        entries_view(s.push(d)) == entries_view(s).push((d.0@, d.1@)),
{
    assert(s.push(d).subrange(0, s.len() as int) =~= s);
}

/// The values of two joined lists of entries are joined.
pub proof fn lemma_entries_view_append(a: Seq<(String, Expr)>, b: Seq<(String, Expr)>)
    ensures
        entries_view(a + b) == entries_view(a) + entries_view(b),
    decreases b.len(),
{
    if b.len() == 0 {
        assert(a + b =~= a);
        assert(entries_view(a) + entries_view(b) =~= entries_view(a));
    } else {
        let b2 = b.subrange(0, b.len() - 1);
        let d = b[b.len() - 1];
        lemma_entries_view_append(a, b2);
        assert(a + b =~= (a + b2).push(d));
        assert(b2.push(d) =~= b);
        lemma_entries_view_push(a + b2, d);
        lemma_entries_view_push(b2, d);
        assert(entries_view(a) + entries_view(b) =~= (entries_view(a) + entries_view(b2)).push((d.0@, d.1@)));
    }
}

/// The values of a list of entries are the values of its entries, one for one.
pub proof fn lemma_entries_view_index(s: Seq<(String, Expr)>)
    ensures
        entries_view(s).len() == s.len(),
        forall|i: int| 0 <= i < s.len() ==> #[trigger] entries_view(s)[i] == (s[i].0@, s[i].1@),
    decreases s.len(),
{
    if s.len() > 0 {
        let t = s.subrange(0, s.len() - 1);
        lemma_entries_view_index(t);
        assert forall|i: int| 0 <= i < s.len() implies #[trigger] entries_view(s)[i] == (s[i].0@, s[i].1@) by {
            if i < s.len() - 1 {
                assert(t[i] == s[i]);
            }
        }
    }
}

/// Appending a declaration appends its value.
pub proof fn lemma_declarations_view_push(s: Seq<(Variable, String, Expr)>, d: (Variable, String, Expr))
    ensures
        declarations_view(s.push(d)) == declarations_view(s).push((d.0, d.1@, d.2@)),
{
    assert(s.push(d).subrange(0, s.len() as int) =~= s);
}

/// The text that `format!("<{:?}>", ..)` gives for a node of this value.
pub uninterp spec fn expr_debug_text(e: ExprView) -> Seq<char>;

/// Formats the node as `<` + its `Debug` form + `>`.
///
/// Trusted: calls `format!("<{:?}>", e)`. The text is named `expr_debug_text`
/// of the node's value; the contract claims of it only the angle brackets
/// around it.
#[verifier::external_body]
fn debug_form(e: &Expr) -> (r: String)
    ensures
        r@ == expr_debug_text(e@),
        r@.len() >= 2,
        r@[0] == '<',
        r@[r@.len() - 1] == '>',
{
    format!("<{:?}>", e)
}

/// The text that `to_raw` gives for a node of this value.
pub open spec fn raw_text(e: ExprView) -> Seq<char> {
    match e {
        ExprView::Identifier(t) => t,
        ExprView::Literal(t) => t,
        _ => expr_debug_text(e),
    }
}

impl Expr {
    /// The name of an identifier, the text of a literal, and for any other
    /// node its `Debug` form in angle brackets.
    pub fn to_raw(&self) -> (r: String)
        ensures
            r@ == raw_text(self@),
            match self {
                Expr::Identifier(t) => r@ == t@,
                Expr::Literal(t) => r@ == t@,
                _ => r@.len() >= 2 && r@[0] == '<' && r@[r@.len() - 1] == '>',
            },
    {
        match self {
            Expr::Identifier(t) => t.clone(),
            Expr::Literal(t) => t.clone(),
            _ => debug_form(self),
        }
    }
}

fn clone_exprs(v: &Vec<Expr>) -> (r: Vec<Expr>)
    ensures
        r.len() == v.len(),
        exprs_view(r@) == exprs_view(v@),
    decreases v,
{
    let mut r: Vec<Expr> = Vec::new();
    let mut i: usize = 0;
    assert(v@.subrange(0, 0) =~= r@);
    while i < v.len()
        invariant
            i <= v.len(),
            r.len() == i,
            exprs_view(r@) == exprs_view(v@.subrange(0, i as int)),
        decreases v.len() - i,
    {
        let c = v[i].clone();
        proof {
            lemma_exprs_view_push(r@, c);
            lemma_exprs_view_push(v@.subrange(0, i as int), v@[i as int]);
            assert(v@.subrange(0, i as int).push(v@[i as int]) =~= v@.subrange(0, i + 1));
        }
        r.push(c);
        i += 1;
    }
    assert(v@.subrange(0, v.len() as int) =~= v@);
    r
}

impl Clone for Expr {
    fn clone(&self) -> (r: Self)
        ensures
            r@ == self@,
        decreases self,
    {
        match self {
            Expr::Empty => Expr::Empty,
            Expr::Unary(u, e) => Expr::Unary(*u, Box::new((**e).clone())),
            Expr::Unexpected(t) => Expr::Unexpected(t.clone()),
            Expr::Identifier(t) => Expr::Identifier(t.clone()),
            Expr::Template(a, b) => {
                let a2 = a.clone();
                assert(a2@ =~= a@);
                Expr::Template(a2, clone_exprs(b))
            },
            Expr::Literal(t) => Expr::Literal(t.clone()),
            Expr::Call(f, a) => Expr::Call(Box::new((**f).clone()), clone_exprs(a)),
            Expr::Member(a, b) => Expr::Member(Box::new((**a).clone()), Box::new((**b).clone())),
            Expr::Sequence(a) => Expr::Sequence(clone_exprs(a)),
            Expr::Infix(a, op, b) => Expr::Infix(Box::new((**a).clone()), *op, Box::new((**b).clone())),
            Expr::Update(a, s, f) => Expr::Update(Box::new((**a).clone()), s.clone(), *f),
            Expr::Variable(v) => Expr::Variable(clone_variables(v)),
            Expr::Assignment(v) => Expr::Assignment(clone_entries(v)),
            Expr::If(a, b, c) => Expr::If(Box::new((**a).clone()), Box::new((**b).clone()), Box::new((**c).clone())),
            Expr::Block(a) => Expr::Block(clone_exprs(a)),
            Expr::Expression(a) => Expr::Expression(Box::new((**a).clone())),
            Expr::Return(a) => Expr::Return(Box::new((**a).clone())),
            Expr::For(a, b, c, d) => Expr::For(
                Box::new((**a).clone()),
                Box::new((**b).clone()),
                Box::new((**c).clone()),
                Box::new((**d).clone()),
            ),
            Expr::ForIn(a, b) => Expr::ForIn(Box::new((**a).clone()), Box::new((**b).clone())),
            Expr::ForOf(a, b) => Expr::ForOf(Box::new((**a).clone()), Box::new((**b).clone())),
            Expr::Break => Expr::Break,
            Expr::Continue => Expr::Continue,
            Expr::Function(a, b, c) => Expr::Function(Box::new((**a).clone()), clone_exprs(b), Box::new((**c).clone())),
            Expr::While(a, b) => Expr::While(Box::new((**a).clone()), Box::new((**b).clone())),
            Expr::DoWhile(a, b) => Expr::DoWhile(Box::new((**a).clone()), Box::new((**b).clone())),
            Expr::Switch(a, b) => Expr::Switch(Box::new((**a).clone()), clone_exprs(b)),
            Expr::SwitchCase(a, b) => Expr::SwitchCase(Box::new((**a).clone()), clone_exprs(b)),
            Expr::Object(v) => Expr::Object(clone_entries(v)),
            Expr::Ref(t) => Expr::Ref(t.clone()),
            Expr::Array(a) => Expr::Array(clone_exprs(a)),
        }
    }
}

fn clone_entries(v: &Vec<(String, Expr)>) -> (r: Vec<(String, Expr)>)
    ensures
        r.len() == v.len(),
        entries_view(r@) == entries_view(v@),
    decreases v,
{
    let mut r: Vec<(String, Expr)> = Vec::new();
    let mut i: usize = 0;
    assert(v@.subrange(0, 0) =~= r@);
    while i < v.len()
        invariant
            i <= v.len(),
            r.len() == i,
            entries_view(r@) == entries_view(v@.subrange(0, i as int)),
        decreases v.len() - i,
    {
        let d = (v[i].0.clone(), v[i].1.clone());
        proof {
            lemma_entries_view_push(r@, d);
            lemma_entries_view_push(v@.subrange(0, i as int), v@[i as int]);
            assert(v@.subrange(0, i as int).push(v@[i as int]) =~= v@.subrange(0, i + 1));
        }
        r.push(d);
        i += 1;
    }
    assert(v@.subrange(0, v.len() as int) =~= v@);
    r
}

fn clone_variables(v: &Vec<(Variable, String, Expr)>) -> (r: Vec<(Variable, String, Expr)>)
    ensures
        r.len() == v.len(),
        declarations_view(r@) == declarations_view(v@),
    decreases v,
{
    let mut r: Vec<(Variable, String, Expr)> = Vec::new();
    let mut i: usize = 0;
    assert(v@.subrange(0, 0) =~= r@);
    while i < v.len()
        invariant
            i <= v.len(),
            r.len() == i,
            declarations_view(r@) == declarations_view(v@.subrange(0, i as int)),
        decreases v.len() - i,
    {
        let d = (v[i].0, v[i].1.clone(), v[i].2.clone());
        proof {
            lemma_declarations_view_push(r@, d);
            lemma_declarations_view_push(v@.subrange(0, i as int), v@[i as int]);
            assert(v@.subrange(0, i as int).push(v@[i as int]) =~= v@.subrange(0, i + 1));
        }
        r.push(d);
        i += 1;
    }
    assert(v@.subrange(0, v.len() as int) =~= v@);
    r
}

/// The declaration keyword of a variable.
#[derive(Debug, Clone, Copy, PartialEq, Eq, Structural)]
pub enum Variable {
    Var,
    Let,
    Const,
}

#[derive(Debug, Clone, Copy, PartialEq, Eq, Structural)]
pub enum Unary {
    /// !
    Not,
    /// +
    Plus,
    /// -
    Minus,
    /// ~
    BitNot,
}

#[derive(Debug, Clone, Copy, PartialEq, Eq, Structural)]
pub enum Prefix {
    /// -expr
    Negate,
    /// +expr
    Abs,
    /// !expr
    Not,
}

#[derive(Debug, Clone, Copy, PartialEq, Eq, Structural)]
pub enum Operator {
    Plus,
    Subtract,
    Multiply,
    Divide,
    Modulo,
    Or,
    And,
    Not,
    LShift,
    RShift,
    Equal,
    NE,
    GT,
    GTE,
    LT,
    LTE,
    BitOr,
    BitXor,
    BitAnd,
    INC,
    DEC,
    ADD,
    SUB,
    MUL,
    DIV,
    MOD,
}


impl Variable {
    /// The keyword that declares a variable of this kind.
    pub open spec fn spec_text(self) -> Seq<char> {
        match self {
            Variable::Var => "var"@,
            Variable::Let => "let"@,
            Variable::Const => "const"@,
        }
    }
}

impl Unary {
    /// The source text of the prefix operator.
    pub open spec fn spec_text(self) -> Seq<char> {
        match self {
            Unary::Not => "!"@,
            Unary::Plus => "+"@,
            Unary::Minus => "-"@,
            Unary::BitNot => "~"@,
        }
    }
}

impl Operator {
    /// The source text of the operator.
    pub open spec fn spec_text(self) -> Seq<char> {
        match self {
            Operator::Plus => "+"@,
            Operator::Subtract => "-"@,
            Operator::Multiply => "*"@,
            Operator::Divide => "/"@,
            Operator::Modulo => "%"@,
            Operator::Or => "||"@,
            Operator::And => "&&"@,
            Operator::Not => "!"@,
            Operator::LShift => "<<"@,
            Operator::RShift => ">>"@,
            Operator::Equal => "=="@,
            Operator::NE => "!="@,
            Operator::GT => ">"@,
            Operator::GTE => ">="@,
            Operator::LT => "<"@,
            Operator::LTE => "<="@,
            Operator::BitOr => "|"@,
            Operator::BitXor => "^"@,
            Operator::BitAnd => "&"@,
            Operator::INC => "++"@,
            Operator::DEC => "--"@,
            Operator::ADD => "+="@,
            Operator::SUB => "-="@,
            Operator::MUL => "*="@,
            Operator::DIV => "/="@,
            Operator::MOD => "%="@,
        }
    }
}

} // verus!
