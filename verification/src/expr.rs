//! The expression tree that conflict targets, `WHERE` guards and `SET`
//! right-hand sides are written in.
//!
//! The tree is a closed sum type: the rewriting passes in [`crate::rewrite`]
//! cover every composite variant and leave every leaf untouched.  A
//! [`Expr::Register`] leaf is a direct reference into the program's register
//! file; the rewriting passes produce it and the expression translator
//! consumes it.

use vstd::prelude::*;

verus! {

/// Binary operators.  Inert payload for this crate: rewriting descends into
/// the operands and carries the operator through unchanged.
#[derive(Debug, PartialEq, Eq, Clone, Copy)]
pub enum Operator {
    Add,
    And,
    BitwiseAnd,
    BitwiseOr,
    Concat,
    Divide,
    Equals,
    Greater,
    GreaterEquals,
    Is,
    IsNot,
    LeftShift,
    Less,
    LessEquals,
    Modulus,
    Multiply,
    NotEquals,
    Or,
    RightShift,
    Subtract,
}

/// Unary operators, carried through unchanged like [`Operator`].
#[derive(Debug, PartialEq, Eq, Clone, Copy)]
pub enum UnaryOperator {
    BitwiseNot,
    Negative,
    Not,
    Positive,
}

/// Literal leaves.  Numeric literals keep their source spelling; nothing in
/// this crate evaluates them.
#[derive(Debug, PartialEq, Eq, Clone)]
pub enum Literal {
    Null,
    Numeric(String),
    Str(String),
    Blob(String),
    Keyword(String),
    True,
    False,
}

/// One SQL expression.
///
/// Composite variants hold their sub-expressions; leaves are identifiers
/// (`Id`, `Qualified`, `DoublyQualified`, `RowId`), literals, parameters and
/// direct register references.
#[derive(Debug, PartialEq, Eq)]
pub enum Expr {
    /// `lhs [NOT] BETWEEN start AND end`
    Between { lhs: Box<Expr>, not: bool, start: Box<Expr>, end: Box<Expr> },
    /// `lhs op rhs`
    Binary(Box<Expr>, Operator, Box<Expr>),
    /// `CASE [base] WHEN w THEN t ... [ELSE e] END`
    Case {
        base: Option<Box<Expr>>,
        when_then_pairs: Vec<(Expr, Expr)>,
        else_expr: Option<Box<Expr>>,
    },
    /// `CAST (expr AS type)`
    Cast { expr: Box<Expr>, as_type: Option<String> },
    /// `expr COLLATE name`
    Collate(Box<Expr>, String),
    /// `schema.table.column`
    DoublyQualified(String, String, String),
    /// `name(args...) [ORDER BY ...] [FILTER (WHERE ...)]`
    FunctionCall {
        name: String,
        args: Vec<Expr>,
        order_by: Vec<Expr>,
        filter_clause: Option<Box<Expr>>,
    },
    /// A bare identifier.
    Id(String),
    /// `lhs [NOT] IN (e, ...)`
    InList { lhs: Box<Expr>, not: bool, rhs: Vec<Expr> },
    /// `lhs [NOT] IN (SELECT ...)`; the subquery is planned elsewhere and is
    /// opaque to the rewriting passes.
    InSelect { lhs: Box<Expr>, not: bool },
    /// `lhs [NOT] IN table_or_function`
    InTable { lhs: Box<Expr>, not: bool, table: String },
    /// `expr IS NULL`
    IsNull(Box<Expr>),
    /// `lhs [NOT] LIKE rhs [ESCAPE e]`
    Like { lhs: Box<Expr>, not: bool, rhs: Box<Expr>, escape: Option<Box<Expr>> },
    /// A literal leaf.
    Literal(Literal),
    /// `expr NOT NULL`
    NotNull(Box<Expr>),
    /// `(e, ...)`
    Parenthesized(Vec<Expr>),
    /// `table.column`
    Qualified(String, String),
    /// A direct reference to a register of the executing program.
    Register(usize),
    /// The `rowid` pseudo-column of the target table.
    RowId,
    /// `op expr`
    Unary(UnaryOperator, Box<Expr>),
    /// A statement parameter, by index.
    Variable(u32),
}

/// The mathematical model of a [`Literal`]: strings become character
/// sequences.
pub enum LiteralS {
    Null,
    Numeric(Seq<char>),
    Str(Seq<char>),
    Blob(Seq<char>),
    Keyword(Seq<char>),
    True,
    False,
}

/// The mathematical model of an [`Expr`]: vectors become sequences and
/// strings become character sequences.  Contracts and the rewriting
/// specifications are stated over this type.
pub enum ExprS {
    Between { lhs: Box<ExprS>, not: bool, start: Box<ExprS>, end: Box<ExprS> },
    Binary(Box<ExprS>, Operator, Box<ExprS>),
    Case {
        base: Option<Box<ExprS>>,
        when_then_pairs: Seq<(ExprS, ExprS)>,
        else_expr: Option<Box<ExprS>>,
    },
    Cast { expr: Box<ExprS>, as_type: Option<Seq<char>> },
    Collate(Box<ExprS>, Seq<char>),
    DoublyQualified(Seq<char>, Seq<char>, Seq<char>),
    FunctionCall {
        name: Seq<char>,
        args: Seq<ExprS>,
        order_by: Seq<ExprS>,
        filter_clause: Option<Box<ExprS>>,
    },
    Id(Seq<char>),
    InList { lhs: Box<ExprS>, not: bool, rhs: Seq<ExprS> },
    InSelect { lhs: Box<ExprS>, not: bool },
    InTable { lhs: Box<ExprS>, not: bool, table: Seq<char> },
    IsNull(Box<ExprS>),
    Like { lhs: Box<ExprS>, not: bool, rhs: Box<ExprS>, escape: Option<Box<ExprS>> },
    Literal(LiteralS),
    NotNull(Box<ExprS>),
    Parenthesized(Seq<ExprS>),
    Qualified(Seq<char>, Seq<char>),
    Register(usize),
    RowId,
    Unary(UnaryOperator, Box<ExprS>),
    Variable(u32),
}

/// The model of a literal.
pub open spec fn view_literal(l: Literal) -> LiteralS {
    match l {
        Literal::Null => LiteralS::Null,
        Literal::Numeric(s) => LiteralS::Numeric(s@),
        Literal::Str(s) => LiteralS::Str(s@),
        Literal::Blob(s) => LiteralS::Blob(s@),
        Literal::Keyword(s) => LiteralS::Keyword(s@),
        Literal::True => LiteralS::True,
        Literal::False => LiteralS::False,
    }
}

/// The model of an optional boxed sub-expression.
pub open spec fn view_opt(e: Option<Box<Expr>>) -> Option<Box<ExprS>>
    decreases e,
{
    match e {
        Some(b) => Some(Box::new(view_expr(*b))),
        None => None,
    }
}

/// The model of an expression.
pub open spec fn view_expr(e: Expr) -> ExprS
    decreases e,
{
    match e {
        Expr::Between { lhs, not, start, end } => ExprS::Between {
            lhs: Box::new(view_expr(*lhs)),
            not,
            start: Box::new(view_expr(*start)),
            end: Box::new(view_expr(*end)),
        },
        Expr::Binary(l, op, r) => ExprS::Binary(
            Box::new(view_expr(*l)),
            op,
            Box::new(view_expr(*r)),
        ),
        Expr::Case { base, when_then_pairs, else_expr } => ExprS::Case {
            base: view_opt(base),
            when_then_pairs: view_pairs(when_then_pairs@),
            else_expr: view_opt(else_expr),
        },
        Expr::Cast { expr, as_type } => ExprS::Cast {
            expr: Box::new(view_expr(*expr)),
            as_type: match as_type {
                Some(t) => Some(t@),
                None => None,
            },
        },
        Expr::Collate(inner, c) => ExprS::Collate(Box::new(view_expr(*inner)), c@),
        Expr::DoublyQualified(a, b, c) => ExprS::DoublyQualified(a@, b@, c@),
        Expr::FunctionCall { name, args, order_by, filter_clause } => ExprS::FunctionCall {
            name: name@,
            args: view_exprs(args@),
            order_by: view_exprs(order_by@),
            filter_clause: view_opt(filter_clause),
        },
        Expr::Id(n) => ExprS::Id(n@),
        Expr::InList { lhs, not, rhs } => ExprS::InList {
            lhs: Box::new(view_expr(*lhs)),
            not,
            rhs: view_exprs(rhs@),
        },
        Expr::InSelect { lhs, not } => ExprS::InSelect { lhs: Box::new(view_expr(*lhs)), not },
        Expr::InTable { lhs, not, table } => ExprS::InTable {
            lhs: Box::new(view_expr(*lhs)),
            not,
            table: table@,
        },
        Expr::IsNull(inner) => ExprS::IsNull(Box::new(view_expr(*inner))),
        Expr::Like { lhs, not, rhs, escape } => ExprS::Like {
            lhs: Box::new(view_expr(*lhs)),
            not,
            rhs: Box::new(view_expr(*rhs)),
            escape: view_opt(escape),
        },
        Expr::Literal(l) => ExprS::Literal(view_literal(l)),
        Expr::NotNull(inner) => ExprS::NotNull(Box::new(view_expr(*inner))),
        Expr::Parenthesized(v) => ExprS::Parenthesized(view_exprs(v@)),
        Expr::Qualified(t, c) => ExprS::Qualified(t@, c@),
        Expr::Register(r) => ExprS::Register(r),
        Expr::RowId => ExprS::RowId,
        Expr::Unary(op, inner) => ExprS::Unary(op, Box::new(view_expr(*inner))),
        Expr::Variable(i) => ExprS::Variable(i),
    }
}

/// The model of a sequence of expressions, element by element.
pub open spec fn view_exprs(s: Seq<Expr>) -> Seq<ExprS>
    decreases s,
{
    if s.len() == 0 {
        Seq::empty()
    } else {
        seq![view_expr(s[0])] + view_exprs(s.drop_first())
    }
}

/// The model of a sequence of `WHEN`/`THEN` pairs.
pub open spec fn view_pairs(s: Seq<(Expr, Expr)>) -> Seq<(ExprS, ExprS)>
    decreases s,
{
    if s.len() == 0 {
        Seq::empty()
    } else {
        seq![(view_expr(s[0].0), view_expr(s[0].1))] + view_pairs(s.drop_first())
    }
}

impl View for Expr {
    type V = ExprS;

    open spec fn view(&self) -> ExprS {
        view_expr(*self)
    }
}

/// `view_exprs` indexes pointwise.
pub proof fn lemma_view_exprs_index(s: Seq<Expr>, i: int)
    requires
        0 <= i < s.len(),
    ensures
        view_exprs(s).len() == s.len(),
        view_exprs(s)[i] == view_expr(s[i]),
    decreases s.len(),
{
    lemma_view_exprs_len(s);
    if i > 0 {
        lemma_view_exprs_index(s.drop_first(), i - 1);
    }
}

/// `view_exprs` preserves length.
pub proof fn lemma_view_exprs_len(s: Seq<Expr>)
    ensures
        view_exprs(s).len() == s.len(),
    decreases s.len(),
{
    if s.len() > 0 {
        lemma_view_exprs_len(s.drop_first());
    }
}

} // verus!
