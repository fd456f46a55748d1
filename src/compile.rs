//! The compiler from the source syntax tree to the intermediate
//! representation.
//!
//! Expressions lower to terms. A function body lowers to one statement whose
//! `next` links follow the source order; the list is folded from its last
//! statement backwards, so no recursion grows with the length of a body. The
//! one conditional is the switch idiom: `name = branch()` immediately
//! followed by `match name:`.
use vstd::prelude::*;

use crate::ast::{
    exprs_view, lemma_cases_view, lemma_exprs_view, lemma_stmts_view, names_view, stmts_view,
    CaseV, Constant, ConstantV, Expr, ExprV, MatchCase, Pattern, PatternV, Stmt, StmtV,
};
use crate::ir::{
    arms_result_view, lemma_arms_view_prepend, lemma_terms_view_prepend, result_view,
    terms_result_view, terms_view, Adt, AdtV, Arm, ArmV, CompileError, Construct, Ctor, CtorV,
    Definition, DefinitionV, ErrorV, Field, FieldV, Statement, StatementV, Term, TermV,
};
use crate::numeric::{limbs_value, wrap_u24, Number};
use crate::ops::{comparison_spec, map_comparison, map_operator, operator_spec};
use crate::program::{
    add_adt_spec, add_def_spec, entry_spec, first_ctor, has_type, type_index,
    Program, ProgramV,
};
use crate::text::{push_str, text_of};

verus! {

/// The name of the branch-marker intrinsic.
pub open spec fn marker_name() -> Seq<char> {
    seq!['b', 'r', 'a', 'n', 'c', 'h']
}

/// The module through which the marker may also be reached, as
/// `benda.branch`.
pub open spec fn module_name() -> Seq<char> {
    seq!['b', 'e', 'n', 'd', 'a']
}

/// The decorator that marks a class as an algebraic data type.
pub open spec fn data_marker() -> Seq<char> {
    seq!['d', 'a', 't', 'a', 'c', 'l', 'a', 's', 's']
}

/// The term of a constant: integers wrap modulo `2^24`; a string stands for
/// the algebraic type it names.
pub open spec fn lower_constant(adts: Seq<AdtV>, c: ConstantV) -> Result<TermV, ErrorV> {
    match c {
        ConstantV::Int(l) => Ok(TermV::Number(Number::U24(wrap_u24(limbs_value(l) as int) as u32))),
        ConstantV::Float(b) => Ok(TermV::Number(Number::F24(b))),
        ConstantV::Str(s) => if has_type(adts, s) {
            Ok(TermV::Variable(s))
        } else {
            Err(ErrorV::UnsupportedConstruct(Construct::Constant))
        },
        ConstantV::Other => Err(ErrorV::UnsupportedConstruct(Construct::Constant)),
    }
}

/// The term of a call of `f` with `args`: a call of a type's name builds the
/// type's first constructor.
pub open spec fn apply(adts: Seq<AdtV>, f: TermV, args: Seq<TermV>) -> TermV {
    match f {
        TermV::Variable(n) => if has_type(adts, n) {
            TermV::Constructor(first_ctor(adts, n), args)
        } else {
            TermV::Call(Box::new(f), args)
        },
        _ => TermV::Call(Box::new(f), args),
    }
}

/// The term of an expression, given the algebraic types registered so far.
pub open spec fn lower_expr(adts: Seq<AdtV>, e: ExprV) -> Result<TermV, ErrorV>
    decreases e,
{
    match e {
        ExprV::Constant(c) => lower_constant(adts, c),
        ExprV::Name(n) => Ok(TermV::Variable(n)),
        ExprV::BinOp(l, op, r) => match operator_spec(op) {
            None => Err(ErrorV::UnsupportedConstruct(Construct::Operator)),
            Some(o) => match lower_expr(adts, *l) {
                Err(x) => Err(x),
                Ok(lt) => match lower_expr(adts, *r) {
                    Err(x) => Err(x),
                    Ok(rt) => Ok(TermV::BinaryOp(o, Box::new(lt), Box::new(rt))),
                },
            },
        },
        ExprV::Compare(l, ops, cs) => if ops.len() != 1 || cs.len() != 1 {
            Err(ErrorV::UnsupportedConstruct(Construct::Comparison))
        } else {
            match comparison_spec(ops[0]) {
                None => Err(ErrorV::UnsupportedConstruct(Construct::Comparison)),
                Some(o) => match lower_expr(adts, *l) {
                    Err(x) => Err(x),
                    Ok(lt) => match lower_expr(adts, cs[0]) {
                        Err(x) => Err(x),
                        Ok(rt) => Ok(TermV::BinaryOp(o, Box::new(lt), Box::new(rt))),
                    },
                },
            }
        },
        ExprV::Call(f, args) => match lower_expr(adts, *f) {
            Err(x) => Err(x),
            Ok(ft) => match lower_exprs(adts, args) {
                Err(x) => Err(x),
                Ok(ats) => Ok(apply(adts, ft, ats)),
            },
        },
        ExprV::Attribute(v, a) => if *v == ExprV::Name(module_name()) && a == marker_name() {
            Ok(TermV::Variable(marker_name()))
        } else {
            Err(ErrorV::UnsupportedConstruct(Construct::Expression))
        },
        ExprV::Other => Err(ErrorV::UnsupportedConstruct(Construct::Expression)),
    }
}

/// The terms of a list of expressions, or the error of the first one that
/// fails.
pub open spec fn lower_exprs(adts: Seq<AdtV>, s: Seq<ExprV>) -> Result<Seq<TermV>, ErrorV>
    decreases s,
{
    if s.len() == 0 {
        Ok(Seq::empty())
    } else {
        match lower_expr(adts, s[0]) {
            Err(x) => Err(x),
            Ok(t) => match lower_exprs(adts, s.drop_first()) {
                Err(x) => Err(x),
                Ok(ts) => Ok(seq![t] + ts),
            },
        }
    }
}

/// The one plain name that an assignment binds.
pub open spec fn target_name(targets: Seq<ExprV>) -> Option<Seq<char>> {
    if targets.len() == 1 {
        match targets[0] {
            ExprV::Name(n) => Some(n),
            _ => None,
        }
    } else {
        None
    }
}

/// `e` is a call of the branch marker, `branch(...)` or `benda.branch(...)`.
pub open spec fn is_marker_call(e: ExprV) -> bool {
    match e {
        ExprV::Call(f, _) => *f == ExprV::Name(marker_name()) || *f == ExprV::Attribute(
            Box::new(ExprV::Name(module_name())),
            marker_name(),
        ),
        _ => false,
    }
}

/// The pattern of a case: the term of a value pattern (a literal such as
/// `case 0:`, or a name), the name a capture binds, or none for a wildcard.
pub open spec fn lower_pattern(adts: Seq<AdtV>, p: PatternV) -> Result<Option<TermV>, ErrorV> {
    match p {
        PatternV::Value(e) => match lower_expr(adts, e) {
            Ok(t) => Ok(Some(t)),
            Err(x) => Err(x),
        },
        PatternV::Capture(n) => Ok(Some(TermV::Variable(n))),
        PatternV::Wildcard => Ok(None),
        PatternV::Other => Err(ErrorV::UnsupportedConstruct(Construct::Pattern)),
    }
}

/// The statement for the body `s` from index `i` on: each statement's `next`
/// is the statement for the ones after it, in source order. A `return`
/// ends the chain; running out of statements first is `MissingReturn`.
pub open spec fn lower_from(adts: Seq<AdtV>, s: Seq<StmtV>, i: int) -> Result<StatementV, ErrorV>
    decreases s, s.len() - i,
{
    if i < 0 || i >= s.len() {
        Err(ErrorV::MissingReturn)
    } else {
        match s[i] {
            StmtV::Return(Some(e)) => match lower_expr(adts, e) {
                Ok(t) => Ok(StatementV::Return(t)),
                Err(x) => Err(x),
            },
            StmtV::Return(None) => Err(ErrorV::UnsupportedConstruct(Construct::BareReturn)),
            StmtV::Assign(targets, value) => match target_name(targets) {
                None => Err(ErrorV::UnsupportedConstruct(Construct::Target)),
                Some(n) => if is_marker_call(value) {
                    lower_switch(adts, s, i, n)
                } else {
                    match lower_expr(adts, value) {
                        Err(x) => Err(x),
                        Ok(v) => match lower_from(adts, s, i + 1) {
                            Err(x) => Err(x),
                            Ok(nx) => Ok(StatementV::Assign(n, v, Box::new(nx))),
                        },
                    }
                },
            },
            StmtV::Match(_, _) => Err(ErrorV::UnsupportedConstruct(Construct::BareMatch)),
            _ => Err(ErrorV::UnsupportedConstruct(Construct::Statement)),
        }
    }
}

/// The switch idiom at index `i`, where `s[i]` binds `n` to the marker: the
/// next statement must be a `match` on `n`. Its cases become the arms, in
/// order, and the statements after it the continuation, if there are any.
pub open spec fn lower_switch(adts: Seq<AdtV>, s: Seq<StmtV>, i: int, n: Seq<char>) -> Result<
    StatementV,
    ErrorV,
>
    decreases s, s.len() - i, 0int,
{
    if 0 <= i && i + 1 < s.len() {
        match s[i + 1] {
            StmtV::Match(subject, cases) => if subject == ExprV::Name(n) {
                match lower_cases(adts, cases) {
                    Err(x) => Err(x),
                    Ok(arms) => if i + 2 < s.len() {
                        match lower_from(adts, s, i + 2) {
                            Err(x) => Err(x),
                            Ok(nx) => Ok(
                                StatementV::Branch(
                                    TermV::Variable(n),
                                    n,
                                    arms,
                                    Some(Box::new(nx)),
                                ),
                            ),
                        }
                    } else {
                        Ok(StatementV::Branch(TermV::Variable(n), n, arms, None))
                    },
                }
            } else {
                Err(ErrorV::MalformedSwitch(n))
            },
            _ => Err(ErrorV::MalformedSwitch(n)),
        }
    } else {
        Err(ErrorV::MalformedSwitch(n))
    }
}

/// The arms of a switch, one per case in order, each body lowered on its
/// own.
pub open spec fn lower_cases(adts: Seq<AdtV>, cs: Seq<CaseV>) -> Result<Seq<ArmV>, ErrorV>
    decreases cs, 0int, 0int,
{
    if cs.len() == 0 {
        Ok(Seq::empty())
    } else {
        match lower_pattern(adts, cs[0].pattern) {
            Err(x) => Err(x),
            Ok(p) => match lower_from(adts, cs[0].body, 0) {
                Err(x) => Err(x),
                Ok(b) => match lower_cases(adts, cs.drop_first()) {
                    Err(x) => Err(x),
                    Ok(rest) => Ok(seq![ArmV { pattern: p, body: b }] + rest),
                },
            },
        }
    }
}

/// The statement for a whole function body.
pub open spec fn lower_body(adts: Seq<AdtV>, s: Seq<StmtV>) -> Result<StatementV, ErrorV> {
    lower_from(adts, s, 0)
}

/// The constructor for a member `f: T` of the data class `class`: it is
/// named `class/T` and holds the one field `f`, recursive when `T` is the
/// class itself. Constructors are named after the member's type, so two
/// members of one type (`x: int` and `y: int`) give the same name, and
/// registering the class fails with `DuplicateDefinition("class/int")`.
pub open spec fn field_ctor(class: Seq<char>, st: StmtV) -> Result<CtorV, ErrorV> {
    match st {
        StmtV::AnnAssign(ExprV::Name(f), ExprV::Name(t)) => Ok(
            CtorV {
                name: class + seq!['/'] + t,
                fields: seq![FieldV { name: f, recursive: t == class }],
            },
        ),
        _ => Err(ErrorV::UnsupportedConstruct(Construct::Field)),
    }
}

/// The constructors of a data class, one per annotated member, in order.
pub open spec fn class_ctors(class: Seq<char>, body: Seq<StmtV>) -> Result<Seq<CtorV>, ErrorV>
    decreases body.len(),
{
    if body.len() == 0 {
        Ok(Seq::empty())
    } else {
        match field_ctor(class, body[0]) {
            Err(x) => Err(x),
            Ok(c) => match class_ctors(class, body.drop_first()) {
                Err(x) => Err(x),
                Ok(cs) => Ok(seq![c] + cs),
            },
        }
    }
}

/// Some decorator is the data-class marker.
pub open spec fn is_data_class(decorators: Seq<ExprV>) -> bool {
    exists|k: int| 0 <= k < decorators.len() && #[trigger] decorators[k] == ExprV::Name(data_marker())
}

/// The program after one top-level statement: a function becomes a
/// definition, a data class an algebraic type; anything else is skipped.
pub open spec fn lower_top(p: ProgramV, st: StmtV) -> Result<ProgramV, ErrorV> {
    match st {
        StmtV::FunctionDef(name, params, body) => match lower_body(p.adts, body) {
            Err(x) => Err(x),
            Ok(b) => add_def_spec(p, DefinitionV { name, params, body: b }),
        },
        StmtV::ClassDef(name, decorators, body) => if is_data_class(decorators) {
            match class_ctors(name, body) {
                Err(x) => Err(x),
                Ok(cs) => add_adt_spec(p, AdtV { name, ctors: cs }),
            }
        } else {
            Ok(p)
        },
        _ => Ok(p),
    }
}

/// The program after the top-level statements `s`, in order, starting from
/// `p`; the first failure ends it.
pub open spec fn lower_module(p: ProgramV, s: Seq<StmtV>) -> Result<ProgramV, ErrorV>
    decreases s.len(),
{
    if s.len() == 0 {
        Ok(p)
    } else {
        match lower_top(p, s[0]) {
            Err(x) => Err(x),
            Ok(q) => lower_module(q, s.drop_first()),
        }
    }
}

/// The program without definitions, types or entry point.
pub open spec fn empty_program() -> ProgramV {
    ProgramV { defs: Seq::empty(), adts: Seq::empty(), entry: None }
}

/// The program for a module, with an entry definition that calls `entry`
/// with `args`.
pub open spec fn parse_spec(s: Seq<StmtV>, entry: Seq<char>, args: Seq<TermV>) -> Result<
    ProgramV,
    ErrorV,
> {
    match lower_module(empty_program(), s) {
        Err(x) => Err(x),
        Ok(p) => entry_spec(p, entry, args),
    }
}

/// The mathematical value of a list of constructors that the compiler
/// returns.
pub open spec fn ctors_result_view(r: Result<Vec<Ctor>, CompileError>) -> Result<Seq<CtorV>, ErrorV> {
    match r {
        Ok(v) => Ok(crate::ir::ctors_view(v@)),
        Err(e) => Err(e@),
    }
}

fn marker_text() -> (r: String)
    ensures
        r@ == marker_name(),
{
    proof {
        reveal_strlit("branch");
    }
    let r = text_of("branch");
    assert(r@ =~= marker_name());
    r
}

fn module_text() -> (r: String)
    ensures
        r@ == module_name(),
{
    proof {
        reveal_strlit("benda");
    }
    let r = text_of("benda");
    assert(r@ =~= module_name());
    r
}

fn data_text() -> (r: String)
    ensures
        r@ == data_marker(),
{
    proof {
        reveal_strlit("dataclass");
    }
    let r = text_of("dataclass");
    assert(r@ =~= data_marker());
    r
}

/// `e` is the identifier `n`.
fn is_name(e: &Expr, n: &String) -> (r: bool)
    ensures
        r == (e@ == ExprV::Name(n@)),
{
    match e {
        Expr::Name(m) => *m == *n,
        _ => false,
    }
}

/// `e` is a call of the branch marker.
fn is_marker_call_expr(e: &Expr) -> (r: bool)
    ensures
        r == is_marker_call(e@),
{
    match e {
        Expr::Call { func, args } => match &**func {
            Expr::Name(_) => is_name(func, &marker_text()),
            Expr::Attribute { value, attr } => is_name(value, &module_text()) && *attr
                == marker_text(),
            _ => false,
        },
        _ => false,
    }
}

/// Lowers a constant.
fn compile_constant(p: &Program, c: &Constant) -> (r: Result<Term, CompileError>)
    ensures
        result_view(r) == lower_constant(p@.adts, crate::ast::constant_view(*c)),
{
    match c {
        Constant::Int(l) => Ok(Term::Number(Number::from_limbs(l))),
        Constant::Float(b) => Ok(Term::Number(Number::F24(*b))),
        Constant::Str(s) => match p.find_type(s) {
            Some(_) => Ok(Term::Variable(s.clone())),
            None => Err(CompileError::UnsupportedConstruct(Construct::Constant)),
        },
        Constant::Other => Err(CompileError::UnsupportedConstruct(Construct::Constant)),
    }
}

/// The term of a call of `f` with `args`.
fn apply_term(p: &Program, f: Term, args: Vec<Term>) -> (r: Term)
    requires
        p.wf(),
    ensures
        r@ == apply(p@.adts, f@, terms_view(args@)),
{
    match f {
        Term::Variable(n) => match p.find_type(&n) {
            Some(i) => {
                let adts = p.adts();
                proof {
                    let av = p@.adts;
                    let k = type_index(av, n@);
                    assert(av[i as int].name == n@);
                    if k != i as int {
                        if k < i as int {
                            assert(av[k].name != av[i as int].name);
                        } else {
                            assert(av[i as int].name != av[k].name);
                        }
                    }
                    assert(av[i as int].ctors.len() > 0);
                }
                let c = adts[i].ctors[0].name.clone();
                Term::Constructor { name: c, args }
            },
            None => Term::Call { callee: Box::new(Term::Variable(n)), args },
        },
        other => Term::Call { callee: Box::new(other), args },
    }
}

/// Lowers an expression to a term.
pub fn compile_expr(p: &Program, e: &Expr) -> (r: Result<Term, CompileError>)
    requires
        p.wf(),
    ensures
        result_view(r) == lower_expr(p@.adts, e@),
    decreases e,
{
    match e {
        Expr::Constant(c) => compile_constant(p, c),
        Expr::Name(n) => Ok(Term::Variable(n.clone())),
        Expr::BinOp { left, op, right } => {
            let o = match map_operator(*op) {
                Ok(o) => o,
                Err(x) => return Err(x),
            };
            let lt = match compile_expr(p, left) {
                Ok(t) => t,
                Err(x) => return Err(x),
            };
            let rt = match compile_expr(p, right) {
                Ok(t) => t,
                Err(x) => return Err(x),
            };
            Ok(Term::BinaryOp { op: o, lhs: Box::new(lt), rhs: Box::new(rt) })
        },
        Expr::Compare { left, ops, comparators } => {
            if ops.len() != 1 || comparators.len() != 1 {
                proof {
                    lemma_exprs_view(comparators@);
                }
                return Err(CompileError::UnsupportedConstruct(Construct::Comparison));
            }
            proof {
                lemma_exprs_view(comparators@);
            }
            let o = match map_comparison(ops[0]) {
                Ok(o) => o,
                Err(x) => return Err(x),
            };
            let lt = match compile_expr(p, left) {
                Ok(t) => t,
                Err(x) => return Err(x),
            };
            let rt = match compile_expr(p, &comparators[0]) {
                Ok(t) => t,
                Err(x) => return Err(x),
            };
            Ok(Term::BinaryOp { op: o, lhs: Box::new(lt), rhs: Box::new(rt) })
        },
        Expr::Call { func, args } => {
            let ft = match compile_expr(p, func) {
                Ok(t) => t,
                Err(x) => return Err(x),
            };
            let ats = match compile_exprs(p, args) {
                Ok(ts) => ts,
                Err(x) => return Err(x),
            };
            Ok(apply_term(p, ft, ats))
        },
        Expr::Attribute { value, attr } => {
            if is_name(value, &module_text()) && *attr == marker_text() {
                Ok(Term::Variable(marker_text()))
            } else {
                Err(CompileError::UnsupportedConstruct(Construct::Expression))
            }
        },
        Expr::Other => Err(CompileError::UnsupportedConstruct(Construct::Expression)),
    }
}

/// Lowers a list of expressions, in order; the first failure is returned.
pub fn compile_exprs(p: &Program, es: &Vec<Expr>) -> (r: Result<Vec<Term>, CompileError>)
    requires
        p.wf(),
    ensures
        terms_result_view(r) == lower_exprs(p@.adts, exprs_view(es@)),
    decreases es,
{
    proof {
        lemma_exprs_view(es@);
    }
    let ghost xs = exprs_view(es@);
    let mut acc: Result<Vec<Term>, CompileError> = Ok(Vec::new());
    let mut i: usize = es.len();
    assert(xs.subrange(xs.len() as int, xs.len() as int) =~= Seq::<ExprV>::empty());
    assert(terms_view(Seq::<Term>::empty()) =~= Seq::<TermV>::empty());
    while i > 0
        invariant
            p.wf(),
            i <= es@.len(),
            xs == exprs_view(es@),
            xs.len() == es@.len(),
            forall|k: int| 0 <= k < es@.len() ==> #[trigger] xs[k] == expr_view_of(es@[k]),
            terms_result_view(acc) == lower_exprs(p@.adts, xs.subrange(i as int, xs.len() as int)),
        decreases i,
    {
        i = i - 1;
        let t = compile_expr(p, &es[i]);
        proof {
            let sub = xs.subrange(i as int, xs.len() as int);
            assert(sub[0] == xs[i as int]);
            assert(sub.drop_first() =~= xs.subrange(i + 1, xs.len() as int));
        }
        acc = match t {
            Err(x) => Err(x),
            Ok(t) => match acc {
                Err(x) => Err(x),
                Ok(v) => {
                    let mut v = v;
                    proof {
                        lemma_terms_view_prepend(t, v@);
                    }
                    let ghost before = v@;
                    v.insert(0, t);
                    assert(v@ =~= seq![t] + before);
                    Ok(v)
                },
            },
        };
    }
    assert(xs.subrange(0, xs.len() as int) =~= xs);
    acc
}

/// The view of one expression, as a function for triggers.
pub open spec fn expr_view_of(e: Expr) -> ExprV {
    e@
}

/// The one plain name that an assignment binds.
fn assign_target(targets: &Vec<Expr>) -> (r: Option<String>)
    ensures
        match target_name(exprs_view(targets@)) {
            Some(n) => r matches Some(m) && m@ == n,
            None => r is None,
        },
{
    proof {
        lemma_exprs_view(targets@);
    }
    if targets.len() != 1 {
        return None;
    }
    match &targets[0] {
        Expr::Name(n) => Some(n.clone()),
        _ => None,
    }
}

/// Lowers the pattern of a case.
fn compile_pattern(p: &Program, pat: &Pattern) -> (r: Result<Option<Term>, CompileError>)
    requires
        p.wf(),
    ensures
        match lower_pattern(p@.adts, crate::ast::pattern_view(*pat)) {
            Ok(o) => r matches Ok(x) && crate::ir::option_term_view(x) == o,
            Err(e) => r matches Err(x) && x@ == e,
        },
{
    match pat {
        Pattern::Value(e) => match compile_expr(p, e) {
            Ok(t) => Ok(Some(t)),
            Err(x) => Err(x),
        },
        Pattern::Capture(n) => Ok(Some(Term::Variable(n.clone()))),
        Pattern::Wildcard => Ok(None),
        Pattern::Other => Err(CompileError::UnsupportedConstruct(Construct::Pattern)),
    }
}

/// Lowers a function body: the statements are folded from the last one
/// backwards, each taking the statement already built for the ones after it
/// as its continuation.
pub fn compile_body(p: &Program, stmts: &Vec<Stmt>) -> (r: Result<Statement, CompileError>)
    requires
        p.wf(),
    ensures
        result_view(r) == lower_body(p@.adts, stmts_view(stmts@)),
    decreases stmts, 2int,
{
    proof {
        lemma_stmts_view(stmts@);
    }
    let ghost xs = stmts_view(stmts@);
    // `cur` is the statement from index `i` on; `after` the one from `i + 1`
    // on, kept where `stmts[i]` may close a switch idiom.
    let mut cur: Result<Statement, CompileError> = Err(CompileError::MissingReturn);
    let mut after: Result<Statement, CompileError> = Err(CompileError::MissingReturn);
    let mut i: usize = stmts.len();
    while i > 0
        invariant
            p.wf(),
            i <= stmts@.len(),
            xs == stmts_view(stmts@),
            xs.len() == stmts@.len(),
            result_view(cur) == lower_from(p@.adts, xs, i as int),
            i < xs.len() && xs[i as int] is Match ==> result_view(after) == lower_from(
                p@.adts,
                xs,
                i + 1,
            ),
        decreases i,
    {
        i = i - 1;
        let (c, a) = compile_step(p, stmts, i, cur, after);
        cur = c;
        after = a;
    }
    cur
}

/// One step of the fold: the statement from index `j` on, given `cur`, the
/// one from `j + 1` on, and `after`, the one from `j + 2` on where
/// `stmts[j + 1]` is a `match`. The second result is the one from `j + 1` on
/// where `stmts[j]` is a `match`.
fn compile_step(
    p: &Program,
    stmts: &Vec<Stmt>,
    j: usize,
    cur: Result<Statement, CompileError>,
    after: Result<Statement, CompileError>,
) -> (r: (Result<Statement, CompileError>, Result<Statement, CompileError>))
    requires
        p.wf(),
        j < stmts@.len(),
        result_view(cur) == lower_from(p@.adts, stmts_view(stmts@), j + 1),
        j + 1 < stmts@.len() && stmts_view(stmts@)[j + 1] is Match ==> result_view(after)
            == lower_from(p@.adts, stmts_view(stmts@), j + 2),
    ensures
        result_view(r.0) == lower_from(p@.adts, stmts_view(stmts@), j as int),
        stmts_view(stmts@)[j as int] is Match ==> result_view(r.1) == lower_from(
            p@.adts,
            stmts_view(stmts@),
            j + 1,
        ),
    decreases stmts, 1int,
{
    proof {
        lemma_stmts_view(stmts@);
    }
    match &stmts[j] {
        Stmt::Return { value: Some(e) } => {
            let r = match compile_expr(p, e) {
                Ok(t) => Ok(Statement::Return(t)),
                Err(x) => Err(x),
            };
            (r, cur)
        },
        Stmt::Return { value: None } => (
            Err(CompileError::UnsupportedConstruct(Construct::BareReturn)),
            cur,
        ),
        Stmt::Assign { targets, value } => {
            let n = match assign_target(targets) {
                Some(n) => n,
                None => {
                    return (Err(CompileError::UnsupportedConstruct(Construct::Target)), cur);
                },
            };
            if is_marker_call_expr(value) {
                (compile_switch(p, stmts, j, n, after), cur)
            } else {
                let r = match compile_expr(p, value) {
                    Err(x) => Err(x),
                    Ok(v) => match cur {
                        Err(x) => Err(x),
                        Ok(nx) => Ok(Statement::Assign { name: n, value: v, next: Box::new(nx) }),
                    },
                };
                (r, Err(CompileError::MissingReturn))
            }
        },
        Stmt::Match { .. } => (Err(CompileError::UnsupportedConstruct(Construct::BareMatch)), cur),
        _ => (Err(CompileError::UnsupportedConstruct(Construct::Statement)), cur),
    }
}

/// The switch idiom at index `j`, where `stmts[j]` binds `n` to the marker;
/// `after` is the statement from `j + 2` on where `stmts[j + 1]` is a
/// `match`.
fn compile_switch(
    p: &Program,
    stmts: &Vec<Stmt>,
    j: usize,
    n: String,
    after: Result<Statement, CompileError>,
) -> (r: Result<Statement, CompileError>)
    requires
        p.wf(),
        j < stmts@.len(),
        j + 1 < stmts@.len() && stmts_view(stmts@)[j + 1] is Match ==> result_view(after)
            == lower_from(p@.adts, stmts_view(stmts@), j + 2),
    ensures
        result_view(r) == lower_switch(p@.adts, stmts_view(stmts@), j as int, n@),
    decreases stmts, 0int,
{
    proof {
        lemma_stmts_view(stmts@);
    }
    let len = stmts.len();
    if j + 1 >= len {
        return Err(CompileError::MalformedSwitch(n));
    }
    match &stmts[j + 1] {
        Stmt::Match { subject, cases } => {
            if !is_name(subject, &n) {
                return Err(CompileError::MalformedSwitch(n));
            }
            let arms = match compile_cases(p, cases) {
                Ok(a) => a,
                Err(x) => return Err(x),
            };
            let scrutinee = Term::Variable(n.clone());
            if j + 2 < stmts.len() {
                match after {
                    Ok(nx) => Ok(
                        Statement::Branch { scrutinee, binding: n, arms, next: Some(Box::new(nx)) },
                    ),
                    Err(x) => Err(x),
                }
            } else {
                Ok(Statement::Branch { scrutinee, binding: n, arms, next: None })
            }
        },
        _ => Err(CompileError::MalformedSwitch(n)),
    }
}

/// Lowers the cases of a switch to its arms, in order.
fn compile_cases(p: &Program, cases: &Vec<MatchCase>) -> (r: Result<Vec<Arm>, CompileError>)
    requires
        p.wf(),
    ensures
        arms_result_view(r) == lower_cases(p@.adts, crate::ast::cases_view(cases@)),
    decreases cases, 0int,
{
    proof {
        lemma_cases_view(cases@);
    }
    let ghost cs = crate::ast::cases_view(cases@);
    let mut acc: Result<Vec<Arm>, CompileError> = Ok(Vec::new());
    let mut i: usize = cases.len();
    assert(cs.subrange(cs.len() as int, cs.len() as int) =~= Seq::<CaseV>::empty());
    assert(crate::ir::arms_view(Seq::<Arm>::empty()) =~= Seq::<ArmV>::empty());
    while i > 0
        invariant
            p.wf(),
            i <= cases@.len(),
            cs == crate::ast::cases_view(cases@),
            cs.len() == cases@.len(),
            arms_result_view(acc) == lower_cases(p@.adts, cs.subrange(i as int, cs.len() as int)),
        decreases i,
    {
        i = i - 1;
        let case = &cases[i];
        let pat = compile_pattern(p, &case.pattern);
        let body = compile_body(p, &case.body);
        proof {
            let sub = cs.subrange(i as int, cs.len() as int);
            assert(sub[0] == cs[i as int]);
            assert(sub.drop_first() =~= cs.subrange(i + 1, cs.len() as int));
            lemma_cases_view(cases@);
        }
        acc = match pat {
            Err(x) => Err(x),
            Ok(pt) => match body {
                Err(x) => Err(x),
                Ok(b) => match acc {
                    Err(x) => Err(x),
                    Ok(v) => {
                        let mut v = v;
                        let a = Arm { pattern: pt, body: b };
                        proof {
                            lemma_arms_view_prepend(a, v@);
                        }
                        let ghost before = v@;
                        v.insert(0, a);
                        assert(v@ =~= seq![a] + before);
                        Ok(v)
                    },
                },
            },
        };
    }
    assert(cs.subrange(0, cs.len() as int) =~= cs);
    acc
}

/// The constructor for one member of the data class `class`.
fn compile_field(class: &String, st: &Stmt) -> (r: Result<Ctor, CompileError>)
    ensures
        match field_ctor(class@, st@) {
            Ok(c) => r matches Ok(x) && crate::ir::ctors_view(seq![x])[0] == c,
            Err(e) => r matches Err(x) && x@ == e,
        },
{
    match st {
        Stmt::AnnAssign { target: Expr::Name(f), annotation: Expr::Name(t) } => {
            let mut name = class.clone();
            push_str(&mut name, "/");
            push_str(&mut name, t.as_str());
            proof {
                reveal_strlit("/");
            }
            assert(name@ =~= class@ + seq!['/'] + t@);
            let recursive = *t == *class;
            let mut fields: Vec<Field> = Vec::new();
            fields.push(Field { name: f.clone(), recursive });
            let c = Ctor { name, fields };
            assert(crate::ir::fields_view(c.fields@) =~= seq![FieldV { name: f@, recursive: t@ == class@ }]);
            Ok(c)
        },
        _ => Err(CompileError::UnsupportedConstruct(Construct::Field)),
    }
}

/// The algebraic type of the data class `name`: one constructor per member,
/// in order.
pub fn compile_class(name: &String, body: &Vec<Stmt>) -> (r: Result<Adt, CompileError>)
    ensures
        match class_ctors(name@, stmts_view(body@)) {
            Ok(cs) => r matches Ok(a) && a@ == (AdtV { name: name@, ctors: cs }),
            Err(e) => r matches Err(x) && x@ == e,
        },
{
    proof {
        lemma_stmts_view(body@);
    }
    let ghost xs = stmts_view(body@);
    let mut acc: Result<Vec<Ctor>, CompileError> = Ok(Vec::new());
    let mut i: usize = body.len();
    assert(xs.subrange(xs.len() as int, xs.len() as int) =~= Seq::<StmtV>::empty());
    assert(crate::ir::ctors_view(Seq::<Ctor>::empty()) =~= Seq::<CtorV>::empty());
    while i > 0
        invariant
            i <= body@.len(),
            xs == stmts_view(body@),
            xs.len() == body@.len(),
            ctors_result_view(acc) == class_ctors(name@, xs.subrange(i as int, xs.len() as int)),
        decreases i,
    {
        i = i - 1;
        let c = compile_field(name, &body[i]);
        proof {
            lemma_stmts_view(body@);
            let sub = xs.subrange(i as int, xs.len() as int);
            assert(sub[0] == xs[i as int]);
            assert(sub.drop_first() =~= xs.subrange(i + 1, xs.len() as int));
        }
        acc = match c {
            Err(x) => Err(x),
            Ok(c) => match acc {
                Err(x) => Err(x),
                Ok(v) => {
                    let mut v = v;
                    let ghost before = v@;
                    v.insert(0, c);
                    assert(v@ =~= seq![c] + before);
                    assert(crate::ir::ctors_view(v@) =~= crate::ir::ctors_view(seq![c])
                        + crate::ir::ctors_view(before));
                    assert(crate::ir::ctors_view(seq![c]) =~= seq![crate::ir::ctors_view(seq![c])[0]]);
                    Ok(v)
                },
            },
        };
    }
    assert(xs.subrange(0, xs.len() as int) =~= xs);
    match acc {
        Ok(ctors) => Ok(Adt { name: name.clone(), ctors }),
        Err(x) => Err(x),
    }
}

/// Some decorator is the data-class marker.
fn is_data_class_exec(decorators: &Vec<Expr>) -> (r: bool)
    ensures
        r == is_data_class(exprs_view(decorators@)),
{
    proof {
        lemma_exprs_view(decorators@);
    }
    let marker = data_text();
    let mut k: usize = 0;
    while k < decorators.len()
        invariant
            k <= decorators@.len(),
            marker@ == data_marker(),
            exprs_view(decorators@).len() == decorators@.len(),
            forall|m: int| 0 <= m < k ==> #[trigger] exprs_view(decorators@)[m] != ExprV::Name(data_marker()),
        decreases decorators@.len() - k,
    {
        proof {
            lemma_exprs_view(decorators@);
        }
        if is_name(&decorators[k], &marker) {
            assert(exprs_view(decorators@)[k as int] == ExprV::Name(data_marker()));
            return true;
        }
        k = k + 1;
    }
    false
}

/// A copy of a list of names.
fn clone_names(v: &Vec<String>) -> (r: Vec<String>)
    ensures
        names_view(r@) == names_view(v@),
{
    let mut r: Vec<String> = Vec::new();
    let mut i: usize = 0;
    while i < v.len()
        invariant
            i <= v@.len(),
            r@.len() == i,
            forall|k: int| 0 <= k < i ==> #[trigger] r@[k]@ == v@[k]@,
        decreases v@.len() - i,
    {
        r.push(v[i].clone());
        i = i + 1;
    }
    assert(names_view(r@) =~= names_view(v@));
    r
}

/// Compiles the top-level statements of a module, in one forward pass: each
/// function becomes a definition and each data class an algebraic type;
/// other statements are skipped. The first failure is returned and no
/// partial program escapes.
pub fn compile_module(stmts: &Vec<Stmt>) -> (r: Result<Program, CompileError>)
    ensures
        result_view(r) == lower_module(empty_program(), stmts_view(stmts@)),
        r matches Ok(p) ==> p.wf(),
{
    proof {
        lemma_stmts_view(stmts@);
    }
    let ghost xs = stmts_view(stmts@);
    let mut p = Program::new();
    let mut i: usize = 0;
    assert(xs.subrange(0, xs.len() as int) =~= xs);
    assert(p@ == empty_program());
    while i < stmts.len()
        invariant
            p.wf(),
            i <= stmts@.len(),
            xs == stmts_view(stmts@),
            xs.len() == stmts@.len(),
            lower_module(empty_program(), xs) == lower_module(p@, xs.subrange(i as int, xs.len() as int)),
        decreases stmts@.len() - i,
    {
        proof {
            lemma_stmts_view(stmts@);
            let sub = xs.subrange(i as int, xs.len() as int);
            assert(sub[0] == xs[i as int]);
            assert(sub.drop_first() =~= xs.subrange(i + 1, xs.len() as int));
        }
        match &stmts[i] {
            Stmt::FunctionDef { name, params, body } => {
                let b = match compile_body(&p, body) {
                    Ok(b) => b,
                    Err(x) => return Err(x),
                };
                let d = Definition { name: name.clone(), params: clone_names(params), body: b };
                match p.add_definition(d) {
                    Ok(()) => {},
                    Err(x) => return Err(x),
                }
            },
            Stmt::ClassDef { name, decorators, body } => {
                if is_data_class_exec(decorators) {
                    let a = match compile_class(name, body) {
                        Ok(a) => a,
                        Err(x) => return Err(x),
                    };
                    match p.add_adt(a) {
                        Ok(()) => {},
                        Err(x) => return Err(x),
                    }
                }
            },
            _ => {},
        }
        i = i + 1;
    }
    assert(xs.subrange(xs.len() as int, xs.len() as int) =~= Seq::<StmtV>::empty());
    Ok(p)
}

/// The compiler's entry: the top-level statements of one module.
pub struct Parser {
    pub statements: Vec<Stmt>,
}

impl Parser {
    pub fn new(statements: Vec<Stmt>) -> (r: Parser)
        ensures
            r.statements == statements,
    {
        Parser { statements }
    }

    /// Compiles the module and adds the entry definition `main`, which
    /// returns the call of the function `entry` with `args`.
    pub fn parse(&self, entry: &String, args: Vec<Term>) -> (r: Result<Program, CompileError>)
        ensures
            result_view(r) == parse_spec(stmts_view(self.statements@), entry@, terms_view(args@)),
            r matches Ok(p) ==> p.wf(),
    {
        let mut p = match compile_module(&self.statements) {
            Ok(p) => p,
            Err(x) => return Err(x),
        };
        match p.set_entry_point(entry, args) {
            Ok(()) => Ok(p),
            Err(x) => Err(x),
        }
    }
}

} // verus!
