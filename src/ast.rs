//! The source syntax tree, restricted to a closed set of node kinds.
//!
//! A parser outside this library produces it; every node kind that the
//! compiler does not lower is collected under an `Other` variant, so that
//! matching on a node is always exhaustive.
use vstd::prelude::*;

verus! {

/// A binary arithmetic or bitwise operator of the source language.
#[derive(Clone, Copy, Debug, PartialEq, Eq, Structural)]
pub enum Operator {
    Add,
    Sub,
    Mult,
    MatMult,
    Div,
    Mod,
    Pow,
    LShift,
    RShift,
    BitOr,
    BitXor,
    BitAnd,
    FloorDiv,
}

/// A comparison operator of the source language.
#[derive(Clone, Copy, Debug, PartialEq, Eq, Structural)]
pub enum CmpOp {
    Eq,
    NotEq,
    Lt,
    LtE,
    Gt,
    GtE,
    Is,
    IsNot,
    In,
    NotIn,
}

/// A literal constant.
pub enum Constant {
    /// A non-negative integer, as its base-`2^32` digits, least significant
    /// first.
    Int(Vec<u32>),
    /// A floating-point number, as the bits of the nearest single-precision
    /// float.
    Float(u32),
    /// A string.
    Str(String),
    /// Any other constant (`None`, booleans, bytes, tuples, complex numbers,
    /// the ellipsis).
    Other,
}

/// An expression.
pub enum Expr {
    Constant(Constant),
    /// An identifier.
    Name(String),
    /// `left op right`.
    BinOp { left: Box<Expr>, op: Operator, right: Box<Expr> },
    /// `left ops[0] comparators[0] ops[1] comparators[1] ...`.
    Compare { left: Box<Expr>, ops: Vec<CmpOp>, comparators: Vec<Expr> },
    /// `func(args...)`.
    Call { func: Box<Expr>, args: Vec<Expr> },
    /// `value.attr`.
    Attribute { value: Box<Expr>, attr: String },
    /// Any other expression kind (unary and boolean operators, lambdas,
    /// containers, subscripts, ...).
    Other,
}

/// The pattern of one case of a `match` statement.
pub enum Pattern {
    /// `case <expr>:`, a value pattern.
    Value(Expr),
    /// `case name:`, a capture pattern.
    Capture(String),
    /// `case _:`.
    Wildcard,
    /// Any other pattern kind.
    Other,
}

/// One case of a `match` statement.
pub struct MatchCase {
    pub pattern: Pattern,
    pub body: Vec<Stmt>,
}

/// A statement.
pub enum Stmt {
    /// `def name(params...): body`.
    FunctionDef { name: String, params: Vec<String>, body: Vec<Stmt> },
    /// `@decorators class name: body`.
    ClassDef { name: String, decorators: Vec<Expr>, body: Vec<Stmt> },
    /// `targets[0] = targets[1] = ... = value`.
    Assign { targets: Vec<Expr>, value: Expr },
    /// `target: annotation`, an annotated name without a value.
    AnnAssign { target: Expr, annotation: Expr },
    /// `return` or `return value`.
    Return { value: Option<Expr> },
    /// `match subject: cases...`.
    Match { subject: Expr, cases: Vec<MatchCase> },
    /// Any other statement kind (loops, conditionals, bare expressions, ...).
    Other,
}

/// The mathematical value of a [`Constant`].
pub ghost enum ConstantV {
    Int(Seq<u32>),
    Float(u32),
    Str(Seq<char>),
    Other,
}

/// The mathematical value of an [`Expr`].
pub ghost enum ExprV {
    Constant(ConstantV),
    Name(Seq<char>),
    BinOp(Box<ExprV>, Operator, Box<ExprV>),
    Compare(Box<ExprV>, Seq<CmpOp>, Seq<ExprV>),
    Call(Box<ExprV>, Seq<ExprV>),
    Attribute(Box<ExprV>, Seq<char>),
    Other,
}

/// The mathematical value of a [`Pattern`].
pub ghost enum PatternV {
    Value(ExprV),
    Capture(Seq<char>),
    Wildcard,
    Other,
}

/// The mathematical value of a [`MatchCase`].
pub ghost struct CaseV {
    pub pattern: PatternV,
    pub body: Seq<StmtV>,
}

/// The mathematical value of a [`Stmt`].
pub ghost enum StmtV {
    FunctionDef(Seq<char>, Seq<Seq<char>>, Seq<StmtV>),
    ClassDef(Seq<char>, Seq<ExprV>, Seq<StmtV>),
    Assign(Seq<ExprV>, ExprV),
    AnnAssign(ExprV, ExprV),
    Return(Option<ExprV>),
    Match(ExprV, Seq<CaseV>),
    Other,
}

pub open spec fn constant_view(c: Constant) -> ConstantV {
    match c {
        Constant::Int(l) => ConstantV::Int(l@),
        Constant::Float(b) => ConstantV::Float(b),
        Constant::Str(s) => ConstantV::Str(s@),
        Constant::Other => ConstantV::Other,
    }
}

pub open spec fn expr_view(e: Expr) -> ExprV
    decreases e,
{
    match e {
        Expr::Constant(c) => ExprV::Constant(constant_view(c)),
        Expr::Name(n) => ExprV::Name(n@),
        Expr::BinOp { left, op, right } => ExprV::BinOp(
            Box::new(expr_view(*left)),
            op,
            Box::new(expr_view(*right)),
        ),
        Expr::Compare { left, ops, comparators } => ExprV::Compare(
            Box::new(expr_view(*left)),
            ops@,
            exprs_view(comparators@),
        ),
        Expr::Call { func, args } => ExprV::Call(Box::new(expr_view(*func)), exprs_view(args@)),
        Expr::Attribute { value, attr } => ExprV::Attribute(Box::new(expr_view(*value)), attr@),
        Expr::Other => ExprV::Other,
    }
}

pub open spec fn exprs_view(s: Seq<Expr>) -> Seq<ExprV>
    decreases s,
{
    if s.len() == 0 {
        Seq::empty()
    } else {
        seq![expr_view(s[0])] + exprs_view(s.drop_first())
    }
}

pub open spec fn names_view(s: Seq<String>) -> Seq<Seq<char>> {
    s.map_values(|n: String| n@)
}

pub open spec fn pattern_view(p: Pattern) -> PatternV {
    match p {
        Pattern::Value(e) => PatternV::Value(expr_view(e)),
        Pattern::Capture(n) => PatternV::Capture(n@),
        Pattern::Wildcard => PatternV::Wildcard,
        Pattern::Other => PatternV::Other,
    }
}

pub open spec fn stmt_view(s: Stmt) -> StmtV
    decreases s,
{
    match s {
        Stmt::FunctionDef { name, params, body } => StmtV::FunctionDef(
            name@,
            names_view(params@),
            stmts_view(body@),
        ),
        Stmt::ClassDef { name, decorators, body } => StmtV::ClassDef(
            name@,
            exprs_view(decorators@),
            stmts_view(body@),
        ),
        Stmt::Assign { targets, value } => StmtV::Assign(exprs_view(targets@), expr_view(value)),
        Stmt::AnnAssign { target, annotation } => StmtV::AnnAssign(
            expr_view(target),
            expr_view(annotation),
        ),
        Stmt::Return { value } => StmtV::Return(
            match value {
                Some(e) => Some(expr_view(e)),
                None => None,
            },
        ),
        Stmt::Match { subject, cases } => StmtV::Match(expr_view(subject), cases_view(cases@)),
        Stmt::Other => StmtV::Other,
    }
}

pub open spec fn stmts_view(s: Seq<Stmt>) -> Seq<StmtV>
    decreases s,
{
    if s.len() == 0 {
        Seq::empty()
    } else {
        seq![stmt_view(s[0])] + stmts_view(s.drop_first())
    }
}

pub open spec fn cases_view(s: Seq<MatchCase>) -> Seq<CaseV>
    decreases s,
{
    if s.len() == 0 {
        Seq::empty()
    } else {
        seq![CaseV { pattern: pattern_view(s[0].pattern), body: stmts_view(s[0].body@) }]
            + cases_view(s.drop_first())
    }
}

/// The views of a list of expressions are the views of its elements.
pub proof fn lemma_exprs_view(s: Seq<Expr>)
    ensures
        exprs_view(s).len() == s.len(),
        forall|k: int| 0 <= k < s.len() ==> #[trigger] exprs_view(s)[k] == expr_view(s[k]),
    decreases s.len(),
{
    if s.len() > 0 {
        lemma_exprs_view(s.drop_first());
        assert forall|k: int| 0 <= k < s.len() implies #[trigger] exprs_view(s)[k] == expr_view(
            s[k],
        ) by {
            if k > 0 {
                assert(s.drop_first()[k - 1] == s[k]);
            }
        }
    }
}

/// The views of a list of statements are the views of its elements.
pub proof fn lemma_stmts_view(s: Seq<Stmt>)
    ensures
        stmts_view(s).len() == s.len(),
        forall|k: int| 0 <= k < s.len() ==> #[trigger] stmts_view(s)[k] == stmt_view(s[k]),
    decreases s.len(),
{
    if s.len() > 0 {
        lemma_stmts_view(s.drop_first());
        assert forall|k: int| 0 <= k < s.len() implies #[trigger] stmts_view(s)[k] == stmt_view(
            s[k],
        ) by {
            if k > 0 {
                assert(s.drop_first()[k - 1] == s[k]);
            }
        }
    }
}

/// The views of a list of cases are the views of its elements.
pub proof fn lemma_cases_view(s: Seq<MatchCase>)
    ensures
        cases_view(s).len() == s.len(),
        forall|k: int|
            0 <= k < s.len() ==> #[trigger] cases_view(s)[k] == (CaseV {
                pattern: pattern_view(s[k].pattern),
                body: stmts_view(s[k].body@),
            }),
    decreases s.len(),
{
    if s.len() > 0 {
        lemma_cases_view(s.drop_first());
        assert forall|k: int| 0 <= k < s.len() implies #[trigger] cases_view(s)[k] == (CaseV {
            pattern: pattern_view(s[k].pattern),
            body: stmts_view(s[k].body@),
        }) by {
            if k > 0 {
                assert(s.drop_first()[k - 1] == s[k]);
            }
        }
    }
}

impl View for Expr {
    type V = ExprV;

    open spec fn view(&self) -> ExprV {
        expr_view(*self)
    }
}

impl View for Stmt {
    type V = StmtV;

    open spec fn view(&self) -> StmtV {
        stmt_view(*self)
    }
}

} // verus!
