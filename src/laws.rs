//! Properties of the compiler that relate its parts, proved over the spec
//! functions that the executable functions' contracts use.
use vstd::prelude::*;

use crate::ast::{CaseV, CmpOp, ConstantV, ExprV, Operator, StmtV};
use crate::compile::{
    data_marker, lower_body, lower_cases, lower_expr, lower_exprs, lower_from, lower_module,
    lower_pattern, marker_name,
};
use crate::ir::{AdtV, ArmV, Construct, CtorV, ErrorV, FieldV, StatementV, TermV, BinOp};
use crate::numeric::{limbs_value, Number};
use crate::ops::{comparison_spec, operator_spec};
use crate::program::{
    add_adt_spec, first_ctor, has_ctor, has_type, lemma_register_wf, register_spec, registry_wf,
    type_index, ProgramV,
};

verus! {

/// An integer literal bound to a name and returned wraps modulo `2^24`:
/// `x = n; return x` lowers to `Assign(x, n mod 2^24, Return(x))`.
pub proof fn law_literal_wraps(adts: Seq<AdtV>, x: Seq<char>, n: Seq<u32>)
    ensures
        lower_body(
            adts,
            seq![
                StmtV::Assign(seq![ExprV::Name(x)], ExprV::Constant(ConstantV::Int(n))),
                StmtV::Return(Some(ExprV::Name(x))),
            ],
        ) == Ok::<StatementV, ErrorV>(
            StatementV::Assign(
                x,
                TermV::Number(Number::U24((limbs_value(n) % 16777216) as u32)),
                Box::new(StatementV::Return(TermV::Variable(x))),
            ),
        ),
        limbs_value(n) % 16777216 < 16777216,
{
    let s = seq![
        StmtV::Assign(seq![ExprV::Name(x)], ExprV::Constant(ConstantV::Int(n))),
        StmtV::Return(Some(ExprV::Name(x))),
    ];
    assert(lower_from(adts, s, 1) == Ok::<StatementV, ErrorV>(
        StatementV::Return(TermV::Variable(x)),
    ));
}

/// Every supported binary operator lowers to its table entry with the
/// operands in source order: `return a op b` becomes
/// `Return(BinaryOp(op', a, b))`. The unsupported ones fail explicitly.
pub proof fn law_operator_order(adts: Seq<AdtV>, op: Operator, a: Seq<char>, b: Seq<char>)
    ensures
        operator_spec(op) is Some <==> !(op == Operator::MatMult || op == Operator::Mod),
        match operator_spec(op) {
            Some(o) => lower_body(
                adts,
                seq![
                    StmtV::Return(
                        Some(
                            ExprV::BinOp(Box::new(ExprV::Name(a)), op, Box::new(ExprV::Name(b))),
                        ),
                    ),
                ],
            ) == Ok::<StatementV, ErrorV>(
                StatementV::Return(
                    TermV::BinaryOp(
                        o,
                        Box::new(TermV::Variable(a)),
                        Box::new(TermV::Variable(b)),
                    ),
                ),
            ),
            None => lower_body(
                adts,
                seq![
                    StmtV::Return(
                        Some(
                            ExprV::BinOp(Box::new(ExprV::Name(a)), op, Box::new(ExprV::Name(b))),
                        ),
                    ),
                ],
            ) == Err::<StatementV, ErrorV>(ErrorV::UnsupportedConstruct(Construct::Operator)),
        },
{
    let e = ExprV::BinOp(Box::new(ExprV::Name(a)), op, Box::new(ExprV::Name(b)));
    let s = seq![StmtV::Return(Some(e))];
    assert(s[0] == StmtV::Return(Some(e)));
    assert(lower_expr(adts, ExprV::Name(a)) == Ok::<TermV, ErrorV>(TermV::Variable(a)));
    assert(lower_expr(adts, ExprV::Name(b)) == Ok::<TermV, ErrorV>(TermV::Variable(b)));
}

/// Every supported comparison lowers to its table entry with the operands
/// in source order: `return a op b` becomes `Return(BinaryOp(op', a, b))`.
/// The unsupported ones fail explicitly.
pub proof fn law_comparison_order(adts: Seq<AdtV>, op: CmpOp, a: Seq<char>, b: Seq<char>)
    ensures
        comparison_spec(op) is Some <==> (op == CmpOp::Eq || op == CmpOp::NotEq || op == CmpOp::Lt
            || op == CmpOp::Gt),
        match comparison_spec(op) {
            Some(o) => lower_body(
                adts,
                seq![
                    StmtV::Return(
                        Some(
                            ExprV::Compare(
                                Box::new(ExprV::Name(a)),
                                seq![op],
                                seq![ExprV::Name(b)],
                            ),
                        ),
                    ),
                ],
            ) == Ok::<StatementV, ErrorV>(
                StatementV::Return(
                    TermV::BinaryOp(
                        o,
                        Box::new(TermV::Variable(a)),
                        Box::new(TermV::Variable(b)),
                    ),
                ),
            ),
            None => lower_body(
                adts,
                seq![
                    StmtV::Return(
                        Some(
                            ExprV::Compare(
                                Box::new(ExprV::Name(a)),
                                seq![op],
                                seq![ExprV::Name(b)],
                            ),
                        ),
                    ),
                ],
            ) == Err::<StatementV, ErrorV>(ErrorV::UnsupportedConstruct(Construct::Comparison)),
        },
{
    let e = ExprV::Compare(Box::new(ExprV::Name(a)), seq![op], seq![ExprV::Name(b)]);
    let s = seq![StmtV::Return(Some(e))];
    assert(s[0] == StmtV::Return(Some(e)));
    assert(seq![op][0] == op);
    assert(seq![ExprV::Name(b)][0] == ExprV::Name(b));
    assert(lower_expr(adts, ExprV::Name(a)) == Ok::<TermV, ErrorV>(TermV::Variable(a)));
    assert(lower_expr(adts, ExprV::Name(b)) == Ok::<TermV, ErrorV>(TermV::Variable(b)));
}

/// A statement that is not a `return` carries the lowering of everything
/// after it as its continuation: with `s[i]` a plain assignment of `n`,
/// the statement from `i` on is `Assign(n, value, next)` where `next` is the
/// statement from `i + 1` on.
pub proof fn law_continuation(adts: Seq<AdtV>, s: Seq<StmtV>, i: int, n: Seq<char>, value: ExprV)
    requires
        0 <= i < s.len(),
        s[i] == StmtV::Assign(seq![ExprV::Name(n)], value),
        !crate::compile::is_marker_call(value),
        lower_expr(adts, value) is Ok,
        lower_from(adts, s, i + 1) is Ok,
    ensures
        lower_from(adts, s, i) == Ok::<StatementV, ErrorV>(
            StatementV::Assign(
                n,
                lower_expr(adts, value)->Ok_0,
                Box::new(lower_from(adts, s, i + 1)->Ok_0),
            ),
        ),
{
}

/// `a = x; b = y; return a + b` nests in source order:
/// `Assign(a, x, Assign(b, y, Return(BinaryOp(Add, a, b))))`.
pub proof fn law_continuation_order(
    adts: Seq<AdtV>,
    a: Seq<char>,
    b: Seq<char>,
    x: Seq<u32>,
    y: Seq<u32>,
)
    ensures
        lower_body(
            adts,
            seq![
                StmtV::Assign(seq![ExprV::Name(a)], ExprV::Constant(ConstantV::Int(x))),
                StmtV::Assign(seq![ExprV::Name(b)], ExprV::Constant(ConstantV::Int(y))),
                StmtV::Return(
                    Some(
                        ExprV::BinOp(
                            Box::new(ExprV::Name(a)),
                            Operator::Add,
                            Box::new(ExprV::Name(b)),
                        ),
                    ),
                ),
            ],
        ) == Ok::<StatementV, ErrorV>(
            StatementV::Assign(
                a,
                TermV::Number(Number::U24((limbs_value(x) % 16777216) as u32)),
                Box::new(
                    StatementV::Assign(
                        b,
                        TermV::Number(Number::U24((limbs_value(y) % 16777216) as u32)),
                        Box::new(
                            StatementV::Return(
                                TermV::BinaryOp(
                                    BinOp::Add,
                                    Box::new(TermV::Variable(a)),
                                    Box::new(TermV::Variable(b)),
                                ),
                            ),
                        ),
                    ),
                ),
            ),
        ),
{
    let s = seq![
        StmtV::Assign(seq![ExprV::Name(a)], ExprV::Constant(ConstantV::Int(x))),
        StmtV::Assign(seq![ExprV::Name(b)], ExprV::Constant(ConstantV::Int(y))),
        StmtV::Return(
            Some(ExprV::BinOp(Box::new(ExprV::Name(a)), Operator::Add, Box::new(ExprV::Name(b)))),
        ),
    ];
    let r = StatementV::Return(
        TermV::BinaryOp(BinOp::Add, Box::new(TermV::Variable(a)), Box::new(TermV::Variable(b))),
    );
    assert(lower_expr(adts, ExprV::Name(a)) == Ok::<TermV, ErrorV>(TermV::Variable(a)));
    assert(lower_expr(adts, ExprV::Name(b)) == Ok::<TermV, ErrorV>(TermV::Variable(b)));
    assert(s[2] == StmtV::Return(
        Some(ExprV::BinOp(Box::new(ExprV::Name(a)), Operator::Add, Box::new(ExprV::Name(b)))),
    ));
    assert(lower_from(adts, s, 2) == Ok::<StatementV, ErrorV>(r));
    assert(lower_from(adts, s, 1) == Ok::<StatementV, ErrorV>(
        StatementV::Assign(
            b,
            TermV::Number(Number::U24((limbs_value(y) % 16777216) as u32)),
            Box::new(r),
        ),
    ));
}

/// The value of `s[j]` where it is a plain assignment: one name bound to a
/// value that is not the branch marker.
pub open spec fn plain_value(s: Seq<StmtV>, j: int) -> Option<ExprV> {
    match s[j] {
        StmtV::Assign(ts, v) => if crate::compile::target_name(ts) is Some
            && !crate::compile::is_marker_call(v) {
            Some(v)
        } else {
            None
        },
        _ => None,
    }
}

/// The name that the assignment `s[j]` binds.
pub open spec fn plain_name(s: Seq<StmtV>, j: int) -> Seq<char> {
    match s[j] {
        StmtV::Assign(ts, _) => crate::compile::target_name(ts)->0,
        _ => Seq::empty(),
    }
}

/// The statements `s[i..k]` are plain assignments whose values lower.
pub open spec fn plain_prefix(adts: Seq<AdtV>, s: Seq<StmtV>, i: int, k: int) -> bool {
    forall|j: int|
        i <= j < k ==> #[trigger] plain_value(s, j) is Some && lower_expr(
            adts,
            plain_value(s, j)->0,
        ) is Ok
}

/// The chain `Assign(n_i, v_i', Assign(n_{i+1}, ..., end))` built from the
/// plain assignments `s[i..k]` in source order, ending in the statement for
/// `s[k..]`.
pub open spec fn assign_chain(adts: Seq<AdtV>, s: Seq<StmtV>, i: int, k: int) -> StatementV
    decreases k - i,
{
    if i >= k {
        lower_from(adts, s, k)->Ok_0
    } else {
        StatementV::Assign(
            plain_name(s, i),
            lower_expr(adts, plain_value(s, i)->0)->Ok_0,
            Box::new(assign_chain(adts, s, i + 1, k)),
        )
    }
}

/// A run of plain assignments closed by a `return` lowers to the chain of
/// `Assign`s in source order, each one's `next` the lowering of the
/// statements after it, ending in `Return(e')`.
pub proof fn law_continuation_chain(adts: Seq<AdtV>, s: Seq<StmtV>, i: int, k: int, e: ExprV)
    requires
        0 <= i <= k < s.len(),
        plain_prefix(adts, s, i, k),
        s[k] == StmtV::Return(Some(e)),
        lower_expr(adts, e) is Ok,
    ensures
        lower_from(adts, s, k) == Ok::<StatementV, ErrorV>(
            StatementV::Return(lower_expr(adts, e)->Ok_0),
        ),
        lower_from(adts, s, i) == Ok::<StatementV, ErrorV>(assign_chain(adts, s, i, k)),
    decreases k - i,
{
    if i < k {
        law_continuation_chain(adts, s, i + 1, k, e);
        assert(plain_value(s, i) is Some);
    }
}

/// An error met after a run of plain assignments is the error of the whole
/// chain: it passes up through every enclosing `Assign`.
pub proof fn law_error_propagates(adts: Seq<AdtV>, s: Seq<StmtV>, i: int, k: int)
    requires
        0 <= i <= k,
        plain_prefix(adts, s, i, k),
        lower_from(adts, s, k) is Err,
    ensures
        lower_from(adts, s, i) == lower_from(adts, s, k),
    decreases k - i,
{
    if i < k {
        law_error_propagates(adts, s, i + 1, k);
        assert(plain_value(s, i) is Some);
    }
}

/// A statement of an unsupported kind reached by the chain makes the body,
/// and the module that holds the function, fail with
/// `UnsupportedConstruct(Statement)`.
pub proof fn law_unsupported_statement(
    p: ProgramV,
    name: Seq<char>,
    params: Seq<Seq<char>>,
    s: Seq<StmtV>,
    k: int,
)
    requires
        0 <= k < s.len(),
        plain_prefix(p.adts, s, 0, k),
        s[k] == StmtV::Other,
    ensures
        lower_body(p.adts, s) == Err::<StatementV, ErrorV>(
            ErrorV::UnsupportedConstruct(Construct::Statement),
        ),
        lower_module(p, seq![StmtV::FunctionDef(name, params, s)]) == Err::<ProgramV, ErrorV>(
            ErrorV::UnsupportedConstruct(Construct::Statement),
        ),
{
    law_error_propagates(p.adts, s, 0, k);
    let m = seq![StmtV::FunctionDef(name, params, s)];
    assert(m[0] == StmtV::FunctionDef(name, params, s));
}

/// The arms of a switch follow its cases one for one, in source order.
pub proof fn lemma_arms_follow_cases(adts: Seq<AdtV>, cs: Seq<CaseV>)
    requires
        lower_cases(adts, cs) is Ok,
    ensures
        lower_cases(adts, cs)->Ok_0.len() == cs.len(),
        forall|k: int|
            0 <= k < cs.len() ==> #[trigger] lower_cases(adts, cs)->Ok_0[k] == (ArmV {
                pattern: lower_pattern(adts, cs[k].pattern)->Ok_0,
                body: lower_body(adts, cs[k].body)->Ok_0,
            }),
    decreases cs.len(),
{
    if cs.len() > 0 {
        let rest = cs.drop_first();
        lemma_arms_follow_cases(adts, rest);
        assert forall|k: int| 0 <= k < cs.len() implies #[trigger] lower_cases(adts, cs)->Ok_0[k]
            == (ArmV {
            pattern: lower_pattern(adts, cs[k].pattern)->Ok_0,
            body: lower_body(adts, cs[k].body)->Ok_0,
        }) by {
            if k > 0 {
                assert(rest[k - 1] == cs[k]);
            }
        }
    }
}

/// The switch idiom `t = branch(); match t: cases` lowers to one `Branch`
/// on `t`, bound to `t`, whose arms are the cases in source order, and with
/// no continuation when nothing follows.
pub proof fn law_switch_idiom(adts: Seq<AdtV>, t: Seq<char>, cs: Seq<CaseV>)
    requires
        lower_cases(adts, cs) is Ok,
    ensures
        lower_body(
            adts,
            seq![
                StmtV::Assign(
                    seq![ExprV::Name(t)],
                    ExprV::Call(Box::new(ExprV::Name(marker_name())), Seq::empty()),
                ),
                StmtV::Match(ExprV::Name(t), cs),
            ],
        ) == Ok::<StatementV, ErrorV>(
            StatementV::Branch(TermV::Variable(t), t, lower_cases(adts, cs)->Ok_0, None),
        ),
        lower_cases(adts, cs)->Ok_0.len() == cs.len(),
        forall|k: int|
            0 <= k < cs.len() ==> #[trigger] lower_cases(adts, cs)->Ok_0[k] == (ArmV {
                pattern: lower_pattern(adts, cs[k].pattern)->Ok_0,
                body: lower_body(adts, cs[k].body)->Ok_0,
            }),
{
    lemma_arms_follow_cases(adts, cs);
    let m = ExprV::Call(Box::new(ExprV::Name(marker_name())), Seq::empty());
    let s = seq![StmtV::Assign(seq![ExprV::Name(t)], m), StmtV::Match(ExprV::Name(t), cs)];
    assert(s[0] == StmtV::Assign(seq![ExprV::Name(t)], m));
    assert(s[1] == StmtV::Match(ExprV::Name(t), cs));
    assert(seq![ExprV::Name(t)][0] == ExprV::Name(t));
    assert(crate::compile::is_marker_call(m));
    let b = StatementV::Branch(TermV::Variable(t), t, lower_cases(adts, cs)->Ok_0, None);
    assert(crate::compile::lower_switch(adts, s, 0, t) == Ok::<StatementV, ErrorV>(b));
    assert(lower_from(adts, s, 0) == Ok::<StatementV, ErrorV>(b));
}

/// The constructor that `C/T` names for a member `f: T` of the data class `C`.
pub open spec fn member_ctor(c: Seq<char>, f: Seq<char>, t: Seq<char>) -> CtorV {
    CtorV { name: c + seq!['/'] + t, fields: seq![FieldV { name: f, recursive: t == c }] }
}

/// A data class `C` with the one member `f: T` becomes the algebraic type
/// `C` with the one constructor `C/T` holding the field `f`; a call `C(args)`
/// then builds that constructor from the arguments, in order.
pub proof fn law_adt_extraction(
    p: ProgramV,
    c: Seq<char>,
    f: Seq<char>,
    t: Seq<char>,
    args: Seq<ExprV>,
)
    requires
        p.wf(),
        !has_type(p.adts, c),
        !has_ctor(p.adts, c + seq!['/'] + t),
    ensures
        lower_module(
            p,
            seq![
                StmtV::ClassDef(
                    c,
                    seq![ExprV::Name(data_marker())],
                    seq![StmtV::AnnAssign(ExprV::Name(f), ExprV::Name(t))],
                ),
            ],
        ) == Ok::<ProgramV, ErrorV>(
            ProgramV { adts: p.adts.push(AdtV { name: c, ctors: seq![member_ctor(c, f, t)] }), ..p },
        ),
        lower_exprs(p.adts.push(AdtV { name: c, ctors: seq![member_ctor(c, f, t)] }), args) is Ok
            ==> lower_expr(
            p.adts.push(AdtV { name: c, ctors: seq![member_ctor(c, f, t)] }),
            ExprV::Call(Box::new(ExprV::Name(c)), args),
        ) == Ok::<TermV, ErrorV>(
            TermV::Constructor(
                c + seq!['/'] + t,
                lower_exprs(
                    p.adts.push(AdtV { name: c, ctors: seq![member_ctor(c, f, t)] }),
                    args,
                )->Ok_0,
            ),
        ),
{
    let a = AdtV { name: c, ctors: seq![member_ctor(c, f, t)] };
    let decos = seq![ExprV::Name(data_marker())];
    assert(decos[0] == ExprV::Name(data_marker()));
    let body = seq![StmtV::AnnAssign(ExprV::Name(f), ExprV::Name(t))];
    assert(body[0] == StmtV::AnnAssign(ExprV::Name(f), ExprV::Name(t)));
    assert(body.drop_first() =~= Seq::<StmtV>::empty());
    assert(crate::compile::class_ctors(c, Seq::<StmtV>::empty()) == Ok::<Seq<CtorV>, ErrorV>(
        Seq::empty(),
    ));
    assert(seq![member_ctor(c, f, t)] + Seq::<CtorV>::empty() =~= seq![member_ctor(c, f, t)]);
    assert(crate::compile::class_ctors(c, body) == Ok::<Seq<CtorV>, ErrorV>(
        seq![member_ctor(c, f, t)],
    ));
    assert(crate::program::first_clash(p.adts, a.ctors, 1) is None);
    assert(!crate::program::clashes(p.adts, a.ctors, 0));
    assert(register_spec(p.adts, a) == Ok::<Seq<AdtV>, ErrorV>(p.adts.push(a)));
    lemma_register_wf(p.adts, a);
    let q = p.adts.push(a);
    let n = p.adts.len() as int;
    assert(q[n].name == c);
    let k = type_index(q, c);
    if k != n {
        assert(q[k].name != q[n].name);
    }
    assert(first_ctor(q, c) == c + seq!['/'] + t);
    let s = seq![StmtV::ClassDef(c, decos, body)];
    assert(s[0] == StmtV::ClassDef(c, decos, body));
    assert(s.drop_first() =~= Seq::<StmtV>::empty());
    assert(crate::compile::is_data_class(decos));
    assert(add_adt_spec(p, a) == Ok::<ProgramV, ErrorV>(ProgramV { adts: q, ..p }));
    let pq = ProgramV { adts: q, ..p };
    assert(crate::compile::lower_top(p, s[0]) == Ok::<ProgramV, ErrorV>(pq));
    assert(lower_module(pq, s.drop_first()) == Ok::<ProgramV, ErrorV>(pq));
    assert(lower_expr(q, ExprV::Name(c)) == Ok::<TermV, ErrorV>(TermV::Variable(c)));
    assert(has_type(q, c));
}

/// Registering a second type under a name that is taken fails with
/// `DuplicateDefinition`, and so does one whose constructor collides with a
/// constructor of another type; the registry is never merged.
pub proof fn law_unique_names(adts: Seq<AdtV>, a: AdtV, b: AdtV, j: int, k: int)
    requires
        registry_wf(adts),
        register_spec(adts, a) is Ok,
        b.name == a.name || (0 <= j < a.ctors.len() && 0 <= k < b.ctors.len()
            && a.ctors[j].name == b.ctors[k].name),
    ensures
        register_spec(adts.push(a), b) matches Err(ErrorV::DuplicateDefinition(_)),
{
    let q = adts.push(a);
    let n = adts.len() as int;
    if b.name == a.name {
        assert(q[n].name == b.name);
    } else if !has_type(q, b.name) {
        assert(q[n].ctors[j].name == b.ctors[k].name);
        assert(crate::program::clashes(q, b.ctors, k));
        lemma_clash_found(q, b.ctors, 0, k);
    }
}

/// Adding an algebraic type to a program under a type name that is taken
/// fails with `DuplicateDefinition` of that name, whatever the new type
/// holds; `Program::add_adt` then leaves the program as it was.
pub proof fn law_duplicate_type(p: ProgramV, a: AdtV)
    requires
        has_type(p.adts, a.name),
    ensures
        add_adt_spec(p, a) == Err::<ProgramV, ErrorV>(ErrorV::DuplicateDefinition(a.name)),
{
}

/// Adding an algebraic type with a fresh name but a constructor that is
/// taken fails with `DuplicateDefinition` of one of its constructor names;
/// no constructor of it is added, since `Program::add_adt` then leaves the
/// program as it was.
pub proof fn law_duplicate_ctor(p: ProgramV, a: AdtV, j: int)
    requires
        !has_type(p.adts, a.name),
        0 <= j < a.ctors.len(),
        has_ctor(p.adts, a.ctors[j].name),
    ensures
        exists|m: int|
            0 <= m < a.ctors.len() && add_adt_spec(p, a) == Err::<ProgramV, ErrorV>(
                ErrorV::DuplicateDefinition(#[trigger] a.ctors[m].name),
            ),
{
    assert(crate::program::clashes(p.adts, a.ctors, j));
    lemma_clash_found(p.adts, a.ctors, 0, j);
    let m = crate::program::first_clash(p.adts, a.ctors, 0)->0;
    assert(add_adt_spec(p, a) == Err::<ProgramV, ErrorV>(ErrorV::DuplicateDefinition(a.ctors[m].name)));
}

/// A collision at `k` makes the search from any `j <= k` find one.
proof fn lemma_clash_found(adts: Seq<AdtV>, cs: Seq<CtorV>, j: int, k: int)
    requires
        0 <= j <= k < cs.len(),
        crate::program::clashes(adts, cs, k),
    ensures
        crate::program::first_clash(adts, cs, j) matches Some(m) && 0 <= m < cs.len(),
    decreases k - j,
{
    if j < k && !crate::program::clashes(adts, cs, j) {
        lemma_clash_found(adts, cs, j + 1, k);
    }
}

} // verus!
