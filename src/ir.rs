//! The functional intermediate representation: terms, statements that thread
//! their continuation explicitly, algebraic types and definitions, and the
//! errors of the compiler.
use vstd::prelude::*;

use crate::ast::names_view;
use crate::numeric::Number;

verus! {

/// A primitive operator of the intermediate representation.
#[derive(Clone, Copy, Debug, PartialEq, Eq, Structural)]
pub enum BinOp {
    Add,
    Sub,
    Mul,
    Div,
    Pow,
    Shl,
    Shr,
    Or,
    Xor,
    And,
    Eq,
    Neq,
    Lt,
    Gt,
}

/// A pure expression.
#[derive(Debug)]
pub enum Term {
    Number(Number),
    /// A reference to a name, resolved by lookup.
    Variable(String),
    BinaryOp { op: BinOp, lhs: Box<Term>, rhs: Box<Term> },
    Call { callee: Box<Term>, args: Vec<Term> },
    /// A value built with the constructor `name` of an algebraic type.
    Constructor { name: String, args: Vec<Term> },
}

/// One arm of a branch: its pattern, a name or a literal (none for the
/// wildcard), and the statements run for it.
#[derive(Debug)]
pub struct Arm {
    pub pattern: Option<Term>,
    pub body: Statement,
}

/// A statement; each one that is not a `Return` carries what follows it.
#[derive(Debug)]
pub enum Statement {
    /// Binds `name` to `value`, then runs `next`.
    Assign { name: String, value: Term, next: Box<Statement> },
    /// Runs the arm that `scrutinee` selects, with the value bound to
    /// `binding`, then `next` if there is one.
    Branch {
        scrutinee: Term,
        binding: String,
        arms: Vec<Arm>,
        next: Option<Box<Statement>>,
    },
    Return(Term),
}

/// A field of a constructor; `recursive` when its type is the algebraic type
/// that owns the constructor.
#[derive(Clone, Debug)]
pub struct Field {
    pub name: String,
    pub recursive: bool,
}

/// A constructor of an algebraic type, named `TypeName/Variant`.
#[derive(Clone, Debug)]
pub struct Ctor {
    pub name: String,
    pub fields: Vec<Field>,
}

/// An algebraic data type: a name and its constructors, in order.
#[derive(Clone, Debug)]
pub struct Adt {
    pub name: String,
    pub ctors: Vec<Ctor>,
}

/// One compiled function.
#[derive(Debug)]
pub struct Definition {
    pub name: String,
    pub params: Vec<String>,
    pub body: Statement,
}

/// A source construct that the compiler does not lower.
#[derive(Clone, Copy, Debug, PartialEq, Eq, Structural)]
pub enum Construct {
    /// A statement kind outside the supported set.
    Statement,
    /// An expression kind outside the supported set.
    Expression,
    /// A constant other than a number or a string that names a type.
    Constant,
    /// A binary operator outside the operator table.
    Operator,
    /// A comparison outside the operator table, or a chained comparison.
    Comparison,
    /// A `match` pattern other than a capture, a wildcard or a value.
    Pattern,
    /// An assignment to anything but one plain name.
    Target,
    /// A data-class member that is not `name: TypeName`.
    Field,
    /// A data class without any field.
    EmptyType,
    /// A `return` without a value.
    BareReturn,
    /// A `match` statement outside the switch idiom.
    BareMatch,
}

/// Why compilation failed.
#[derive(Clone, Debug)]
pub enum CompileError {
    UnsupportedConstruct(Construct),
    /// A type, constructor or function name that is already defined.
    DuplicateDefinition(String),
    /// The designated entry function is not defined.
    UnresolvedEntryPoint(String),
    /// The branch marker bound to this name is not followed by a `match` on
    /// it.
    MalformedSwitch(String),
    /// A statement list ends without a `return`.
    MissingReturn,
}

/// The mathematical value of a [`Term`].
pub ghost enum TermV {
    Number(Number),
    Variable(Seq<char>),
    BinaryOp(BinOp, Box<TermV>, Box<TermV>),
    Call(Box<TermV>, Seq<TermV>),
    Constructor(Seq<char>, Seq<TermV>),
}

/// The mathematical value of an [`Arm`].
pub ghost struct ArmV {
    pub pattern: Option<TermV>,
    pub body: StatementV,
}

/// The mathematical value of a [`Statement`].
pub ghost enum StatementV {
    Assign(Seq<char>, TermV, Box<StatementV>),
    Branch(TermV, Seq<char>, Seq<ArmV>, Option<Box<StatementV>>),
    Return(TermV),
}

/// The mathematical value of a [`Field`].
pub ghost struct FieldV {
    pub name: Seq<char>,
    pub recursive: bool,
}

/// The mathematical value of a [`Ctor`].
pub ghost struct CtorV {
    pub name: Seq<char>,
    pub fields: Seq<FieldV>,
}

/// The mathematical value of an [`Adt`].
pub ghost struct AdtV {
    pub name: Seq<char>,
    pub ctors: Seq<CtorV>,
}

/// The mathematical value of a [`Definition`].
pub ghost struct DefinitionV {
    pub name: Seq<char>,
    pub params: Seq<Seq<char>>,
    pub body: StatementV,
}

/// The mathematical value of a [`CompileError`].
pub ghost enum ErrorV {
    UnsupportedConstruct(Construct),
    DuplicateDefinition(Seq<char>),
    UnresolvedEntryPoint(Seq<char>),
    MalformedSwitch(Seq<char>),
    MissingReturn,
}

pub open spec fn term_view(t: Term) -> TermV
    decreases t,
{
    match t {
        Term::Number(n) => TermV::Number(n),
        Term::Variable(n) => TermV::Variable(n@),
        Term::BinaryOp { op, lhs, rhs } => TermV::BinaryOp(
            op,
            Box::new(term_view(*lhs)),
            Box::new(term_view(*rhs)),
        ),
        Term::Call { callee, args } => TermV::Call(Box::new(term_view(*callee)), terms_view(args@)),
        Term::Constructor { name, args } => TermV::Constructor(name@, terms_view(args@)),
    }
}

pub open spec fn terms_view(s: Seq<Term>) -> Seq<TermV>
    decreases s,
{
    if s.len() == 0 {
        Seq::empty()
    } else {
        seq![term_view(s[0])] + terms_view(s.drop_first())
    }
}

pub open spec fn option_name_view(o: Option<String>) -> Option<Seq<char>> {
    match o {
        Some(n) => Some(n@),
        None => None,
    }
}

pub open spec fn option_term_view(o: Option<Term>) -> Option<TermV> {
    match o {
        Some(t) => Some(term_view(t)),
        None => None,
    }
}

pub open spec fn statement_view(s: Statement) -> StatementV
    decreases s,
{
    match s {
        Statement::Assign { name, value, next } => StatementV::Assign(
            name@,
            term_view(value),
            Box::new(statement_view(*next)),
        ),
        Statement::Branch { scrutinee, binding, arms, next } => StatementV::Branch(
            term_view(scrutinee),
            binding@,
            arms_view(arms@),
            match next {
                Some(n) => Some(Box::new(statement_view(*n))),
                None => None,
            },
        ),
        Statement::Return(t) => StatementV::Return(term_view(t)),
    }
}

pub open spec fn arms_view(s: Seq<Arm>) -> Seq<ArmV>
    decreases s,
{
    if s.len() == 0 {
        Seq::empty()
    } else {
        seq![ArmV { pattern: option_term_view(s[0].pattern), body: statement_view(s[0].body) }]
            + arms_view(s.drop_first())
    }
}

pub open spec fn fields_view(s: Seq<Field>) -> Seq<FieldV> {
    s.map_values(|f: Field| FieldV { name: f.name@, recursive: f.recursive })
}

pub open spec fn ctors_view(s: Seq<Ctor>) -> Seq<CtorV> {
    s.map_values(|c: Ctor| CtorV { name: c.name@, fields: fields_view(c.fields@) })
}

pub open spec fn adts_view(s: Seq<Adt>) -> Seq<AdtV> {
    s.map_values(|a: Adt| a@)
}

pub open spec fn defs_view(s: Seq<Definition>) -> Seq<DefinitionV> {
    s.map_values(|d: Definition| d@)
}

impl View for Term {
    type V = TermV;

    open spec fn view(&self) -> TermV {
        term_view(*self)
    }
}

impl View for Statement {
    type V = StatementV;

    open spec fn view(&self) -> StatementV {
        statement_view(*self)
    }
}

impl View for Adt {
    type V = AdtV;

    open spec fn view(&self) -> AdtV {
        AdtV { name: self.name@, ctors: ctors_view(self.ctors@) }
    }
}

impl View for Definition {
    type V = DefinitionV;

    open spec fn view(&self) -> DefinitionV {
        DefinitionV { name: self.name@, params: names_view(self.params@), body: self.body@ }
    }
}

impl View for CompileError {
    type V = ErrorV;

    open spec fn view(&self) -> ErrorV {
        match *self {
            CompileError::UnsupportedConstruct(c) => ErrorV::UnsupportedConstruct(c),
            CompileError::DuplicateDefinition(n) => ErrorV::DuplicateDefinition(n@),
            CompileError::UnresolvedEntryPoint(n) => ErrorV::UnresolvedEntryPoint(n@),
            CompileError::MalformedSwitch(n) => ErrorV::MalformedSwitch(n@),
            CompileError::MissingReturn => ErrorV::MissingReturn,
        }
    }
}

/// The mathematical value of a list of terms that the compiler returns.
pub open spec fn terms_result_view(r: Result<Vec<Term>, CompileError>) -> Result<
    Seq<TermV>,
    ErrorV,
> {
    match r {
        Ok(v) => Ok(terms_view(v@)),
        Err(e) => Err(e@),
    }
}

/// The mathematical value of a list of arms that the compiler returns.
pub open spec fn arms_result_view(r: Result<Vec<Arm>, CompileError>) -> Result<
    Seq<ArmV>,
    ErrorV,
> {
    match r {
        Ok(v) => Ok(arms_view(v@)),
        Err(e) => Err(e@),
    }
}

/// Putting a term in front of a list puts its view in front of the views.
pub proof fn lemma_terms_view_prepend(t: Term, s: Seq<Term>)
    ensures
        terms_view(seq![t] + s) == seq![term_view(t)] + terms_view(s),
{
    assert((seq![t] + s).drop_first() =~= s);
}

/// The view of a list of one term.
pub proof fn lemma_terms_view_one(x: Term)
    ensures
        terms_view(seq![x]) == seq![term_view(x)],
{
    assert(seq![x][0] == x);
    assert(seq![x].drop_first() =~= Seq::<Term>::empty());
    assert(terms_view(Seq::<Term>::empty()) =~= Seq::<TermV>::empty());
    assert(seq![term_view(x)] + Seq::<TermV>::empty() =~= seq![term_view(x)]);
}

/// The view of a list of two terms.
pub proof fn lemma_terms_view_two(x: Term, y: Term)
    ensures
        terms_view(seq![x, y]) == seq![term_view(x), term_view(y)],
{
    assert(seq![x, y][0] == x);
    assert(seq![x, y].drop_first() =~= seq![y]);
    lemma_terms_view_one(y);
    assert(seq![term_view(x)] + seq![term_view(y)] =~= seq![term_view(x), term_view(y)]);
}

/// Putting an arm in front of a list puts its view in front of the views.
pub proof fn lemma_arms_view_prepend(a: Arm, s: Seq<Arm>)
    ensures
        arms_view(seq![a] + s) == seq![
            ArmV { pattern: option_term_view(a.pattern), body: statement_view(a.body) },
        ] + arms_view(s),
{
    assert((seq![a] + s).drop_first() =~= s);
}

/// The mathematical value of a result of the compiler.
pub open spec fn result_view<T: View>(r: Result<T, CompileError>) -> Result<T::V, ErrorV> {
    match r {
        Ok(v) => Ok(v@),
        Err(e) => Err(e@),
    }
}

} // verus!
