//! Lowering of expressions onto the placement, and compilation of a circuit.
use vstd::prelude::*;
use vstd::string::StringExecFns;

use crate::ast::expr::{
    expr_view as expr_view_of, exprs_view, lemma_all_operands_nonempty, lemma_exprs_view, operands_nonempty, Expr,
    ExprV,
};
use crate::ast::query::Queriable;
use crate::ast::{Circuit, ForwardSignal, Lookup, SharedSignal, StepType};
use crate::cell_manager::{
    check_fits_columns, find_key, find_signal, fits_columns, lemma_lookup_some, lookup, single_row_placement, Placement, SignalPlacement,
    SingleRowCellManager, StepPlacement,
};
use crate::error::CircuitError;
use crate::ir::{bad_column, queries_in_range, Circuit as IrCircuit, Column, ColumnType, Poly};
use crate::step_selector::{simple_selector, SimpleStepSelectorBuilder, StepSelector};

verus! {

/// `rot` at `column`, when the rotation fits an `i32`.
pub open spec fn rotated(column: usize, rot: int) -> Result<SignalPlacement, CircuitError> {
    if i32::MIN <= rot <= i32::MAX {
        Ok(SignalPlacement { column, rotation: rot as i32 })
    } else {
        Err(CircuitError::RotationOutOfRange)
    }
}

/// Where a query reads, inside a step type placed as `sp`.
///
/// A forward signal read at the next step is shifted by the height of the
/// current step; a shared signal's rotation counts whole steps of the current
/// height; a fixed signal's rotation counts rows; a reference to a step type
/// reads that step type's selector one step further on.
pub open spec fn resolve(
    q: Queriable,
    p: Placement,
    sel: StepSelector,
    sp: StepPlacement,
) -> Result<SignalPlacement, CircuitError> {
    match q {
        Queriable::Internal(s) => match lookup(sp.signals@, s.id) {
            Some(pl) => Ok(pl),
            None => Err(CircuitError::SignalNotPlaced(s.id)),
        },
        Queriable::Forward(s, next) => match lookup(p.forward@, s.id) {
            Some(pl) => rotated(
                pl.column,
                pl.rotation + if next {
                    sp.height as int
                } else {
                    0
                },
            ),
            None => Err(CircuitError::SignalNotPlaced(s.id)),
        },
        Queriable::Shared(s, r) => match lookup(p.shared@, s.id) {
            Some(pl) => rotated(pl.column, pl.rotation + r * sp.height),
            None => Err(CircuitError::SignalNotPlaced(s.id)),
        },
        Queriable::Fixed(s, r) => match lookup(p.fixed@, s.id) {
            Some(pl) => rotated(pl.column, pl.rotation + r),
            None => Err(CircuitError::SignalNotPlaced(s.id)),
        },
        Queriable::StepTypeNext(h) => match lookup(sel.selector_expr@, h.id) {
            Some(Poly::Query(c, rot)) => rotated(c, rot + sp.height),
            Some(_) => Err(CircuitError::InvalidSelectorExpr),
            None => Err(CircuitError::SelectorNotFound(h.id)),
        },
        Queriable::Halo2AdviceQuery(c, r) => match lookup(p.halo2_advice@, c.id) {
            Some(pl) => rotated(pl.column, pl.rotation + r),
            None => Err(CircuitError::SignalNotPlaced(c.id)),
        },
        Queriable::Halo2FixedQuery(c, r) => match lookup(p.halo2_fixed@, c.id) {
            Some(pl) => rotated(pl.column, pl.rotation + r),
            None => Err(CircuitError::SignalNotPlaced(c.id)),
        },
    }
}

/// `p` multiplied by itself `n` times, folded from the left.
pub open spec fn repeated_product(p: Poly, n: nat) -> Poly
    decreases n,
{
    if n <= 1 {
        p
    } else {
        Poly::Product(Box::new(repeated_product(p, (n - 1) as nat)), Box::new(p))
    }
}

/// The backend polynomial of an expression inside a step type placed as `sp`.
pub open spec fn lower(
    e: ExprV,
    p: Placement,
    sel: StepSelector,
    sp: StepPlacement,
) -> Result<Poly, CircuitError>
    decreases e,
{
    match e {
        ExprV::Const(c) => Ok(Poly::Constant(c)),
        ExprV::Sum(es) => lower_fold(es, true, p, sel, sp),
        ExprV::Mul(es) => lower_fold(es, false, p, sel, sp),
        ExprV::Neg(b) => match lower(*b, p, sel, sp) {
            Ok(x) => Ok(Poly::Negated(Box::new(x))),
            Err(err) => Err(err),
        },
        ExprV::Pow(b, n) => if n == 0 {
            Ok(Poly::Constant(1))
        } else {
            match lower(*b, p, sel, sp) {
                Ok(x) => Ok(repeated_product(x, n as nat)),
                Err(err) => Err(err),
            }
        },
        ExprV::Query(q) => match resolve(q, p, sel, sp) {
            Ok(pl) => Ok(Poly::Query(pl.column, pl.rotation)),
            Err(err) => Err(err),
        },
    }
}

/// The left fold of `+` (when `sum`) or `*` over the lowered operands; an
/// empty operand list is an error.
pub open spec fn lower_fold(
    es: Seq<ExprV>,
    sum: bool,
    p: Placement,
    sel: StepSelector,
    sp: StepPlacement,
) -> Result<Poly, CircuitError>
    decreases es,
{
    if es.len() == 0 {
        Err(CircuitError::EmptyOperands)
    } else if es.len() == 1 {
        lower(es[0], p, sel, sp)
    } else {
        match lower_fold(es.drop_last(), sum, p, sel, sp) {
            Err(err) => Err(err),
            Ok(a) => match lower(es.last(), p, sel, sp) {
                Err(err) => Err(err),
                Ok(b) => Ok(
                    if sum {
                        Poly::Sum(Box::new(a), Box::new(b))
                    } else {
                        Poly::Product(Box::new(a), Box::new(b))
                    },
                ),
            },
        }
    }
}

fn shifted(column: usize, rot: i128) -> (r: Result<SignalPlacement, CircuitError>)
    ensures
        r == rotated(column, rot as int),
{
    if i32::MIN as i128 <= rot && rot <= i32::MAX as i128 {
        Ok(SignalPlacement { column, rotation: rot as i32 })
    } else {
        Err(CircuitError::RotationOutOfRange)
    }
}

/// Resolves a query to the column and rotation it reads.
pub fn resolve_query(
    q: &Queriable,
    p: &Placement,
    sel: &StepSelector,
    sp: &StepPlacement,
) -> (r: Result<SignalPlacement, CircuitError>)
    ensures
        r == resolve(*q, *p, *sel, *sp),
{
    match q {
        Queriable::Internal(s) => match find_signal(&sp.signals, s.id) {
            Some(pl) => Ok(pl),
            None => Err(CircuitError::SignalNotPlaced(s.id)),
        },
        Queriable::Forward(s, next) => match find_signal(&p.forward, s.id) {
            Some(pl) => {
                let extra: i128 = if *next {
                    sp.height as i128
                } else {
                    0
                };
                shifted(pl.column, pl.rotation as i128 + extra)
            },
            None => Err(CircuitError::SignalNotPlaced(s.id)),
        },
        Queriable::Shared(s, rot) => match find_signal(&p.shared, s.id) {
            Some(pl) => {
                let r = *rot as i128;
                let h = sp.height as i128;
                assert(r * h <= 0x7fff_ffff * 0xffff_ffff) by (nonlinear_arith)
                    requires
                        -0x8000_0000 <= r <= 0x7fff_ffff,
                        0 <= h <= 0xffff_ffff,
                ;
                assert(r * h >= -0x8000_0000 * 0xffff_ffff) by (nonlinear_arith)
                    requires
                        -0x8000_0000 <= r <= 0x7fff_ffff,
                        0 <= h <= 0xffff_ffff,
                ;
                shifted(pl.column, pl.rotation as i128 + r * h)
            },
            None => Err(CircuitError::SignalNotPlaced(s.id)),
        },
        Queriable::Fixed(s, rot) => match find_signal(&p.fixed, s.id) {
            Some(pl) => shifted(pl.column, pl.rotation as i128 + *rot as i128),
            None => Err(CircuitError::SignalNotPlaced(s.id)),
        },
        Queriable::StepTypeNext(h) => match find_key(&sel.selector_expr, h.id) {
            Some(i) => match &sel.selector_expr[i].1 {
                Poly::Query(c, rot) => shifted(*c, *rot as i128 + sp.height as i128),
                _ => Err(CircuitError::InvalidSelectorExpr),
            },
            None => Err(CircuitError::SelectorNotFound(h.id)),
        },
        Queriable::Halo2AdviceQuery(c, rot) => match find_signal(&p.halo2_advice, c.id) {
            Some(pl) => shifted(pl.column, pl.rotation as i128 + *rot as i128),
            None => Err(CircuitError::SignalNotPlaced(c.id)),
        },
        Queriable::Halo2FixedQuery(c, rot) => match find_signal(&p.halo2_fixed, c.id) {
            Some(pl) => shifted(pl.column, pl.rotation as i128 + *rot as i128),
            None => Err(CircuitError::SignalNotPlaced(c.id)),
        },
    }
}

/// An error in a prefix of the operands is the error of the whole fold.
proof fn lemma_fold_error_extends(
    es: Seq<ExprV>,
    k: int,
    sum: bool,
    p: Placement,
    sel: StepSelector,
    sp: StepPlacement,
)
    requires
        1 <= k <= es.len(),
        lower_fold(es.subrange(0, k), sum, p, sel, sp) is Err,
    ensures
        lower_fold(es, sum, p, sel, sp) == lower_fold(es.subrange(0, k), sum, p, sel, sp),
    decreases es.len() - k,
{
    if k < es.len() {
        let d = es.drop_last();
        assert(d.subrange(0, k) =~= es.subrange(0, k));
        lemma_fold_error_extends(d, k, sum, p, sel, sp);
    } else {
        assert(es.subrange(0, k) =~= es);
    }
}

/// `p` multiplied by itself `n` times.
fn power(p: Poly, n: u32) -> (r: Poly)
    requires
        n >= 1,
    ensures
        r == repeated_product(p, n as nat),
{
    let mut acc = p.duplicate();
    let mut i: u32 = 1;
    while i < n
        invariant
            1 <= i <= n,
            acc == repeated_product(p, i as nat),
        decreases n - i,
    {
        acc = Poly::Product(Box::new(acc), Box::new(p.duplicate()));
        i = i + 1;
    }
    acc
}

/// Lowers an expression onto the placement, inside the step type placed as `sp`.
pub fn lower_expr(
    e: &Expr,
    p: &Placement,
    sel: &StepSelector,
    sp: &StepPlacement,
) -> (r: Result<Poly, CircuitError>)
    requires
        operands_nonempty(e@),
    ensures
        r == lower(e@, *p, *sel, *sp),
    decreases e, 1int,
{
    match e {
        Expr::Const(c) => Ok(Poly::Constant(*c)),
        Expr::Sum(_) => lower_operands(e, p, sel, sp),
        Expr::Mul(_) => lower_operands(e, p, sel, sp),
        Expr::Neg(b) => match lower_expr(b, p, sel, sp) {
            Ok(x) => Ok(Poly::Negated(Box::new(x))),
            Err(err) => Err(err),
        },
        Expr::Pow(b, n) => {
            if *n == 0 {
                Ok(Poly::Constant(1))
            } else {
                match lower_expr(b, p, sel, sp) {
                    Ok(x) => Ok(power(x, *n)),
                    Err(err) => Err(err),
                }
            }
        },
        Expr::Query(q) => match resolve_query(q, p, sel, sp) {
            Ok(pl) => Ok(Poly::Query(pl.column, pl.rotation)),
            Err(err) => Err(err),
        },
    }
}

/// Lowers the operands of a sum or product and folds them from the left.
fn lower_operands(
    e: &Expr,
    p: &Placement,
    sel: &StepSelector,
    sp: &StepPlacement,
) -> (r: Result<Poly, CircuitError>)
    requires
        e is Sum || e is Mul,
        operands_nonempty(e@),
    ensures
        r == lower(e@, *p, *sel, *sp),
    decreases e, 0int,
{
    let (v, sum) = match e {
        Expr::Sum(v) => (v, true),
        Expr::Mul(v) => (v, false),
        _ => { return Err(CircuitError::EmptyOperands); },
    };
    proof { lemma_exprs_view(v@); }
    let ghost views = exprs_view(v@);
    assert(e@ == if sum { ExprV::Sum(views) } else { ExprV::Mul(views) });
    assert(lower(e@, *p, *sel, *sp) == lower_fold(views, sum, *p, *sel, *sp));
    proof { lemma_all_operands_nonempty(views); }
    assert(operands_nonempty(views[0]));
    proof {
        if sum {
            assert(decreases_to!(*e => (*e)->Sum_0));
            assert(decreases_to!((*e)->Sum_0 => ((*e)->Sum_0)@));
            assert(decreases_to!(((*e)->Sum_0)@ => ((*e)->Sum_0)@[0]));
        } else {
            assert(decreases_to!(*e => (*e)->Mul_0));
            assert(decreases_to!((*e)->Mul_0 => ((*e)->Mul_0)@));
            assert(decreases_to!(((*e)->Mul_0)@ => ((*e)->Mul_0)@[0]));
        }
    }
    let first = lower_expr(&v[0], p, sel, sp);
    assert(views.subrange(0, 1) =~= seq![views[0]]);
    let mut acc = match first {
        Ok(x) => x,
        Err(err) => {
            proof { lemma_fold_error_extends(views, 1, sum, *p, *sel, *sp); }
            return Err(err);
        },
    };
    let mut i: usize = 1;
    while i < v.len()
        invariant
            sum ==> e->Sum_0 == *v,
            !sum ==> e->Mul_0 == *v,
            e is Sum <==> sum,
            e is Sum || e is Mul,
            views == exprs_view(v@),
            views.len() == v@.len(),
            forall|j: int| 0 <= j < v@.len() ==> #[trigger] views[j] == expr_view_of(v@[j]),
            forall|j: int| 0 <= j < v@.len() ==> operands_nonempty(#[trigger] views[j]),
            1 <= i <= v@.len(),
            lower_fold(views.subrange(0, i as int), sum, *p, *sel, *sp) == Ok::<Poly, CircuitError>(acc),
        decreases v@.len() - i,
    {
        proof {
            if sum {
                assert(decreases_to!(*e => (*e)->Sum_0));
                assert(decreases_to!((*e)->Sum_0 => ((*e)->Sum_0)@));
                assert(decreases_to!(((*e)->Sum_0)@ => ((*e)->Sum_0)@[i as int]));
            } else {
                assert(decreases_to!(*e => (*e)->Mul_0));
                assert(decreases_to!((*e)->Mul_0 => ((*e)->Mul_0)@));
                assert(decreases_to!(((*e)->Mul_0)@ => ((*e)->Mul_0)@[i as int]));
            }
        }
        assert(operands_nonempty(views[i as int]));
        let next = lower_expr(&v[i], p, sel, sp);
        let ghost cur = views.subrange(0, i + 1);
        assert(cur.drop_last() =~= views.subrange(0, i as int));
        assert(cur.last() == views[i as int]);
        match next {
            Ok(b) => {
                acc = if sum {
                    Poly::Sum(Box::new(acc), Box::new(b))
                } else {
                    Poly::Product(Box::new(acc), Box::new(b))
                };
            },
            Err(err) => {
                proof { lemma_fold_error_extends(views, i + 1, sum, *p, *sel, *sp); }
                return Err(err);
            },
        }
        i = i + 1;
    }
    assert(views.subrange(0, v@.len() as int) =~= views);
    Ok(acc)
}

/// Every pair of a lookup has nonempty operands on both sides.
pub open spec fn lookup_operands_nonempty(l: Lookup) -> bool {
    forall|m: int|
        0 <= m < l.exprs@.len() ==> operands_nonempty((#[trigger] l.exprs@[m]).0.expr@) && operands_nonempty(
            l.exprs@[m].1@,
        )
}

/// Every expression of a step type has nonempty operands.
pub open spec fn step_operands_nonempty(st: StepType) -> bool {
    &&& forall|k: int| 0 <= k < st.constraints@.len() ==> operands_nonempty((#[trigger] st.constraints@[k]).expr@)
    &&& forall|k: int|
        0 <= k < st.transition_constraints@.len() ==> operands_nonempty((#[trigger] st.transition_constraints@[k]).expr@)
    &&& forall|l: int| 0 <= l < st.lookups@.len() ==> lookup_operands_nonempty(#[trigger] st.lookups@[l])
}

/// Every expression of a circuit has nonempty operands.
pub open spec fn circuit_operands_nonempty(c: Circuit) -> bool {
    forall|t: int| 0 <= t < c.step_types@.len() ==> step_operands_nonempty(#[trigger] c.step_types@[t])
}

/// The constraint polynomial of an expression of the step type at position `t`:
/// the step's selector times the lowered expression.
pub open spec fn step_item(e: ExprV, p: Placement, sel: StepSelector, t: int) -> Result<Poly, CircuitError> {
    match lower(e, p, sel, p.steps@[t].1) {
        Ok(x) => Ok(Poly::Product(Box::new(sel.selector_expr@[t].1), Box::new(x))),
        Err(err) => Err(err),
    }
}

/// Every constraint, transition constraint and lookup pair of the step type
/// at position `t` lowers.
pub open spec fn step_lowers(st: StepType, t: int, p: Placement, sel: StepSelector) -> bool {
    &&& forall|k: int|
        0 <= k < st.constraints@.len() ==> (#[trigger] step_item(
            st.constraints@[k].expr@,
            p,
            sel,
            t,
        )) is Ok
    &&& forall|k: int|
        0 <= k < st.transition_constraints@.len() ==> (#[trigger] step_item(
            st.transition_constraints@[k].expr@,
            p,
            sel,
            t,
        )) is Ok
    &&& forall|l: int, m: int|
        0 <= l < st.lookups@.len() && 0 <= m < st.lookups@[l].exprs@.len() ==> {
            &&& step_item((#[trigger] st.lookups@[l].exprs@[m]).0.expr@, p, sel, t) is Ok
            &&& lower(st.lookups@[l].exprs@[m].1@, p, sel, p.steps@[t].1) is Ok
        }
}

/// Some constraint, transition constraint or lookup pair of the step type at
/// position `t` fails to lower with `e`.
pub open spec fn step_fails_with(st: StepType, t: int, p: Placement, sel: StepSelector, e: CircuitError) -> bool {
    ||| exists|k: int|
        0 <= k < st.constraints@.len() && #[trigger] step_item(st.constraints@[k].expr@, p, sel, t)
            == Err::<Poly, CircuitError>(e)
    ||| exists|k: int|
        0 <= k < st.transition_constraints@.len() && #[trigger] step_item(
            st.transition_constraints@[k].expr@,
            p,
            sel,
            t,
        ) == Err::<Poly, CircuitError>(e)
    ||| exists|l: int, m: int|
        0 <= l < st.lookups@.len() && 0 <= m < st.lookups@[l].exprs@.len() && (step_item(
            (#[trigger] st.lookups@[l].exprs@[m]).0.expr@,
            p,
            sel,
            t,
        ) == Err::<Poly, CircuitError>(e) || lower(st.lookups@[l].exprs@[m].1@, p, sel, p.steps@[t].1)
            == Err::<Poly, CircuitError>(e))
}

/// The constraint polynomials and lookup arguments of the step type at position
/// `t`: constraints first, then transition constraints, each keeping its
/// annotation; each lookup pair with the selector folded into its constraint
/// side.
pub open spec fn step_compiled(
    st: StepType,
    t: int,
    p: Placement,
    sel: StepSelector,
    polys: Seq<(String, Poly)>,
    lookups: Seq<(String, Vec<(Poly, Poly)>)>,
) -> bool {
    let nc = st.constraints@.len();
    &&& polys.len() == nc + st.transition_constraints@.len()
    &&& forall|k: int|
        0 <= k < nc ==> (#[trigger] polys[k]).0 == st.constraints@[k].annotation && step_item(
            st.constraints@[k].expr@,
            p,
            sel,
            t,
        ) == Ok::<Poly, CircuitError>(polys[k].1)
    &&& forall|k: int|
        0 <= k < st.transition_constraints@.len() ==> (#[trigger] polys[nc + k]).0
            == st.transition_constraints@[k].annotation && step_item(
            st.transition_constraints@[k].expr@,
            p,
            sel,
            t,
        ) == Ok::<Poly, CircuitError>(polys[nc + k].1)
    &&& lookups.len() == st.lookups@.len()
    &&& forall|l: int|
        0 <= l < lookups.len() ==> (#[trigger] lookups[l]).0 == st.lookups@[l].annotation
            && lookups[l].1@.len() == st.lookups@[l].exprs@.len()
    &&& forall|l: int, m: int|
        0 <= l < lookups.len() && 0 <= m < st.lookups@[l].exprs@.len() ==> {
            &&& step_item((#[trigger] st.lookups@[l].exprs@[m]).0.expr@, p, sel, t) == Ok::<
                Poly,
                CircuitError,
            >(lookups[l].1@[m].0)
            &&& lower(st.lookups@[l].exprs@[m].1@, p, sel, p.steps@[t].1) == Ok::<Poly, CircuitError>(
                lookups[l].1@[m].1,
            )
        }
}

/// The constraint polynomial of `e` in the step type at position `t`.
fn lower_item(e: &Expr, t: usize, p: &Placement, sel: &StepSelector) -> (r: Result<Poly, CircuitError>)
    requires
        operands_nonempty(e@),
        t < p.steps@.len(),
        t < sel.selector_expr@.len(),
    ensures
        r == step_item(e@, *p, *sel, t as int),
{
    match lower_expr(e, p, sel, &p.steps[t].1) {
        Ok(x) => Ok(Poly::Product(Box::new(sel.selector_expr[t].1.duplicate()), Box::new(x))),
        Err(err) => Err(err),
    }
}

/// The argument pairs of a lookup of the step type at position `t`.
fn lower_lookup(l: &Lookup, t: usize, p: &Placement, sel: &StepSelector) -> (r: Result<Vec<(Poly, Poly)>, CircuitError>)
    requires
        lookup_operands_nonempty(*l),
        t < p.steps@.len(),
        t < sel.selector_expr@.len(),
    ensures
        r is Ok ==> {
            &&& r->Ok_0@.len() == l.exprs@.len()
            &&& forall|m: int|
                0 <= m < l.exprs@.len() ==> {
                    &&& step_item((#[trigger] l.exprs@[m]).0.expr@, *p, *sel, t as int) == Ok::<
                        Poly,
                        CircuitError,
                    >(r->Ok_0@[m].0)
                    &&& lower(l.exprs@[m].1@, *p, *sel, p.steps@[t as int].1) == Ok::<Poly, CircuitError>(
                        r->Ok_0@[m].1,
                    )
                }
        },
        r is Err ==> exists|m: int|
            0 <= m < l.exprs@.len() && (step_item((#[trigger] l.exprs@[m]).0.expr@, *p, *sel, t as int)
                == Err::<Poly, CircuitError>(r->Err_0) || lower(l.exprs@[m].1@, *p, *sel, p.steps@[t as int].1)
                == Err::<Poly, CircuitError>(r->Err_0)),
{
    let mut out: Vec<(Poly, Poly)> = Vec::new();
    let mut m: usize = 0;
    while m < l.exprs.len()
        invariant
            lookup_operands_nonempty(*l),
            t < p.steps@.len(),
            t < sel.selector_expr@.len(),
            m <= l.exprs@.len(),
            out@.len() == m,
            forall|j: int|
                0 <= j < m ==> {
                    &&& step_item((#[trigger] l.exprs@[j]).0.expr@, *p, *sel, t as int) == Ok::<
                        Poly,
                        CircuitError,
                    >(out@[j].0)
                    &&& lower(l.exprs@[j].1@, *p, *sel, p.steps@[t as int].1) == Ok::<Poly, CircuitError>(
                        out@[j].1,
                    )
                },
        decreases l.exprs@.len() - m,
    {
        let pair = &l.exprs[m];
        let a = match lower_item(&pair.0.expr, t, p, sel) {
            Ok(x) => x,
            Err(err) => {
                assert(step_item(l.exprs@[m as int].0.expr@, *p, *sel, t as int) == Err::<Poly, CircuitError>(err));
                return Err(err);
            },
        };
        let b = match lower_expr(&pair.1, p, sel, &p.steps[t].1) {
            Ok(x) => x,
            Err(err) => {
                assert(lower(l.exprs@[m as int].1@, *p, *sel, p.steps@[t as int].1) == Err::<Poly, CircuitError>(err));
                return Err(err);
            },
        };
        out.push((a, b));
        m = m + 1;
    }
    Ok(out)
}

/// A step type that fails to lower with some error does not lower.
proof fn lemma_fails_not_lowers(st: StepType, t: int, p: Placement, sel: StepSelector, e: CircuitError)
    requires
        step_fails_with(st, t, p, sel, e),
    ensures
        !step_lowers(st, t, p, sel),
{
    if exists|k: int|
        0 <= k < st.constraints@.len() && #[trigger] step_item(st.constraints@[k].expr@, p, sel, t)
            == Err::<Poly, CircuitError>(e) {
        let k = choose|k: int|
            0 <= k < st.constraints@.len() && #[trigger] step_item(st.constraints@[k].expr@, p, sel, t)
                == Err::<Poly, CircuitError>(e);
        assert(step_item(st.constraints@[k].expr@, p, sel, t) is Err);
    } else if exists|k: int|
        0 <= k < st.transition_constraints@.len() && #[trigger] step_item(
            st.transition_constraints@[k].expr@,
            p,
            sel,
            t,
        ) == Err::<Poly, CircuitError>(e) {
        let k = choose|k: int|
            0 <= k < st.transition_constraints@.len() && #[trigger] step_item(
                st.transition_constraints@[k].expr@,
                p,
                sel,
                t,
            ) == Err::<Poly, CircuitError>(e);
        assert(step_item(st.transition_constraints@[k].expr@, p, sel, t) is Err);
    }
}

/// The constraint polynomials and lookup arguments of the step type at position `t`.
fn compile_step(st: &StepType, t: usize, p: &Placement, sel: &StepSelector) -> (r: Result<
    (Vec<(String, Poly)>, Vec<(String, Vec<(Poly, Poly)>)>),
    CircuitError,
>)
    requires
        step_operands_nonempty(*st),
        t < p.steps@.len(),
        t < sel.selector_expr@.len(),
    ensures
        r is Ok <==> step_lowers(*st, t as int, *p, *sel),
        r is Ok ==> step_compiled(*st, t as int, *p, *sel, r->Ok_0.0@, r->Ok_0.1@),
        r is Err ==> step_fails_with(*st, t as int, *p, *sel, r->Err_0),
{
    let nc = st.constraints.len();
    let mut polys: Vec<(String, Poly)> = Vec::new();
    let mut k: usize = 0;
    while k < nc
        invariant
            step_operands_nonempty(*st),
            t < p.steps@.len(),
            t < sel.selector_expr@.len(),
            nc == st.constraints@.len(),
            k <= nc,
            polys@.len() == k,
            forall|j: int|
                0 <= j < k ==> (#[trigger] polys@[j]).0 == st.constraints@[j].annotation && step_item(
                    st.constraints@[j].expr@,
                    *p,
                    *sel,
                    t as int,
                ) == Ok::<Poly, CircuitError>(polys@[j].1),
        decreases nc - k,
    {
        let c = &st.constraints[k];
        match lower_item(&c.expr, t, p, sel) {
            Ok(x) => polys.push((c.annotation.clone(), x)),
            Err(err) => {
                assert(step_item(st.constraints@[k as int].expr@, *p, *sel, t as int) == Err::<Poly, CircuitError>(err));
                proof { lemma_fails_not_lowers(*st, t as int, *p, *sel, err); }
                return Err(err);
            },
        }
        k = k + 1;
    }
    let nt = st.transition_constraints.len();
    let mut k: usize = 0;
    while k < nt
        invariant
            step_operands_nonempty(*st),
            t < p.steps@.len(),
            t < sel.selector_expr@.len(),
            nc == st.constraints@.len(),
            nt == st.transition_constraints@.len(),
            k <= nt,
            polys@.len() == nc + k,
            forall|j: int|
                0 <= j < nc ==> (#[trigger] polys@[j]).0 == st.constraints@[j].annotation && step_item(
                    st.constraints@[j].expr@,
                    *p,
                    *sel,
                    t as int,
                ) == Ok::<Poly, CircuitError>(polys@[j].1),
            forall|j: int|
                0 <= j < k ==> (#[trigger] polys@[nc + j]).0 == st.transition_constraints@[j].annotation
                    && step_item(st.transition_constraints@[j].expr@, *p, *sel, t as int) == Ok::<
                    Poly,
                    CircuitError,
                >(polys@[nc + j].1),
        decreases nt - k,
    {
        let c = &st.transition_constraints[k];
        match lower_item(&c.expr, t, p, sel) {
            Ok(x) => {
                polys.push((c.annotation.clone(), x));
                assert(polys@[nc + k as int] == polys@.last());
            },
            Err(err) => {
                assert(step_item(st.transition_constraints@[k as int].expr@, *p, *sel, t as int) == Err::<
                    Poly,
                    CircuitError,
                >(err));
                proof { lemma_fails_not_lowers(*st, t as int, *p, *sel, err); }
                return Err(err);
            },
        }
        k = k + 1;
    }
    let nl = st.lookups.len();
    let mut lookups: Vec<(String, Vec<(Poly, Poly)>)> = Vec::new();
    let mut l: usize = 0;
    while l < nl
        invariant
            step_operands_nonempty(*st),
            t < p.steps@.len(),
            t < sel.selector_expr@.len(),
            nl == st.lookups@.len(),
            l <= nl,
            lookups@.len() == l,
            forall|i: int|
                0 <= i < l ==> (#[trigger] lookups@[i]).0 == st.lookups@[i].annotation
                    && lookups@[i].1@.len() == st.lookups@[i].exprs@.len(),
            forall|i: int, m: int|
                0 <= i < l && 0 <= m < st.lookups@[i].exprs@.len() ==> {
                    &&& step_item((#[trigger] st.lookups@[i].exprs@[m]).0.expr@, *p, *sel, t as int)
                        == Ok::<Poly, CircuitError>(lookups@[i].1@[m].0)
                    &&& lower(st.lookups@[i].exprs@[m].1@, *p, *sel, p.steps@[t as int].1) == Ok::<
                        Poly,
                        CircuitError,
                    >(lookups@[i].1@[m].1)
                },
        decreases nl - l,
    {
        let lk = &st.lookups[l];
        match lower_lookup(lk, t, p, sel) {
            Ok(pairs) => lookups.push((lk.annotation.clone(), pairs)),
            Err(err) => {
                proof {
                    let m = choose|m: int|
                        0 <= m < lk.exprs@.len() && (step_item(
                            (#[trigger] lk.exprs@[m]).0.expr@,
                            *p,
                            *sel,
                            t as int,
                        ) == Err::<Poly, CircuitError>(err) || lower(lk.exprs@[m].1@, *p, *sel, p.steps@[t as int].1)
                            == Err::<Poly, CircuitError>(err));
                    assert(st.lookups@[l as int].exprs@[m] == lk.exprs@[m]);
                    lemma_fails_not_lowers(*st, t as int, *p, *sel, err);
                }
                return Err(err);
            },
        }
        l = l + 1;
    }
    assert forall|k: int| 0 <= k < st.constraints@.len() implies (#[trigger] step_item(
        st.constraints@[k].expr@,
        *p,
        *sel,
        t as int,
    )) is Ok by {
        assert(step_item(st.constraints@[k].expr@, *p, *sel, t as int) == Ok::<Poly, CircuitError>(polys@[k].1));
    }
    assert forall|k: int| 0 <= k < st.transition_constraints@.len() implies (#[trigger] step_item(
        st.transition_constraints@[k].expr@,
        *p,
        *sel,
        t as int,
    )) is Ok by {
        assert(step_item(st.transition_constraints@[k].expr@, *p, *sel, t as int) == Ok::<Poly, CircuitError>(
            polys@[nc + k].1,
        ));
    }
    Ok((polys, lookups))
}

/// Every step type lowers and every exposed signal has a forward placement.
pub open spec fn circuit_lowers(c: Circuit, p: Placement, sel: StepSelector) -> bool {
    &&& forall|t: int| 0 <= t < c.step_types@.len() ==> step_lowers(#[trigger] c.step_types@[t], t, p, sel)
    &&& forall|i: int| 0 <= i < c.exposed@.len() ==> lookup(p.forward@, (#[trigger] c.exposed@[i]).id) is Some
}

/// Compilation of `c` on `p` and `sel` meets the error `e`: some step type
/// fails to lower with it, or it is the missing placement of an exposed signal.
pub open spec fn circuit_fails_with(c: Circuit, p: Placement, sel: StepSelector, e: CircuitError) -> bool {
    ||| exists|t: int| 0 <= t < c.step_types@.len() && step_fails_with(#[trigger] c.step_types@[t], t, p, sel, e)
    ||| exists|i: int|
        0 <= i < c.exposed@.len() && lookup(p.forward@, (#[trigger] c.exposed@[i]).id) is None && e
            == CircuitError::SignalNotPlaced(c.exposed@[i].id)
}

/// `ir` is the compilation of `c` on the placement `p` and the selector `sel`.
///
/// Its columns are those of the placement, then the selector's, then the
/// row-enable column and, when the circuit marks a first or last step, the
/// first-row and last-row columns. Each exposed signal is bound to its
/// forward placement, in declaration order.
pub open spec fn compiled(c: Circuit, p: Placement, sel: StepSelector, ir: IrCircuit) -> bool {
    let q = (p.columns@.len() + sel.columns@.len()) as int;
    let nt = c.step_types@.len();
    &&& ir.placement == p
    &&& ir.selector == sel
    &&& ir.num_steps == c.num_steps
    &&& ir.step_polys@.len() == nt
    &&& ir.step_lookups@.len() == nt
    &&& forall|t: int|
        0 <= t < nt ==> step_compiled(
            #[trigger] c.step_types@[t],
            t,
            p,
            sel,
            ir.step_polys@[t]@,
            ir.step_lookups@[t]@,
        )
    &&& ir.exposed@.len() == c.exposed@.len()
    &&& forall|i: int|
        0 <= i < c.exposed@.len() ==> lookup(p.forward@, (#[trigger] c.exposed@[i]).id) == Some(
            SignalPlacement { column: ir.exposed@[i].0, rotation: ir.exposed@[i].1 },
        )
    &&& ir.columns@.len() == q + 1 + (if c.first_step is Some {
        1int
    } else {
        0
    }) + (if c.last_step is Some {
        1int
    } else {
        0
    })
    &&& ir.columns@.subrange(0, q) == p.columns@ + sel.columns@
    &&& ir.q_enable == q
    &&& ir.columns@[q].ctype == ColumnType::Fixed
    &&& (ir.q_first is Some <==> c.first_step is Some)
    &&& (ir.q_first is Some ==> ir.q_first->Some_0 == q + 1 && ir.columns@[q + 1].ctype == ColumnType::Fixed)
    &&& (ir.q_last is Some <==> c.last_step is Some)
    &&& (ir.q_last is Some ==> ir.q_last->Some_0 == ir.columns@.len() - 1 && ir.columns@[ir.columns@.len()
        - 1].ctype == ColumnType::Fixed)
}

fn boundary_column(name: &str) -> (r: Column)
    ensures
        r.ctype == ColumnType::Fixed,
        r.phase == 0,
        r.annotation@ == name@,
{
    Column { annotation: String::from_str(name), ctype: ColumnType::Fixed, phase: 0 }
}

/// Compiles `c` on the given placement and selector.
pub fn compile_with(c: &Circuit, placement: Placement, selector: StepSelector) -> (r: Result<IrCircuit, CircuitError>)
    requires
        circuit_operands_nonempty(*c),
        placement.steps@.len() == c.step_types@.len(),
        selector.selector_expr@.len() == c.step_types@.len(),
        placement.columns@.len() + selector.columns@.len() + 3 <= usize::MAX,
    ensures
        r is Ok <==> circuit_lowers(*c, placement, selector),
        r is Ok ==> compiled(*c, placement, selector, r->Ok_0),
        r is Err ==> circuit_fails_with(*c, placement, selector, r->Err_0),
        r is Err ==> !(r matches Err(CircuitError::InvalidPhase(_))),
        r is Ok && columns_below(placement, selector, (placement.columns@.len() + selector.columns@.len()) as int)
            ==> queries_in_range(r->Ok_0),
{
    let nt = c.step_types.len();
    let mut step_polys: Vec<Vec<(String, Poly)>> = Vec::new();
    let mut step_lookups: Vec<Vec<(String, Vec<(Poly, Poly)>)>> = Vec::new();
    let mut t: usize = 0;
    while t < nt
        invariant
            circuit_operands_nonempty(*c),
            nt == c.step_types@.len(),
            placement.steps@.len() == nt,
            selector.selector_expr@.len() == nt,
            t <= nt,
            step_polys@.len() == t,
            step_lookups@.len() == t,
            forall|u: int|
                0 <= u < t ==> step_compiled(
                    #[trigger] c.step_types@[u],
                    u,
                    placement,
                    selector,
                    step_polys@[u]@,
                    step_lookups@[u]@,
                ) && step_lowers(c.step_types@[u], u, placement, selector),
        decreases nt - t,
    {
        match compile_step(&c.step_types[t], t, &placement, &selector) {
            Ok((polys, lookups)) => {
                step_polys.push(polys);
                step_lookups.push(lookups);
            },
            Err(err) => {
                proof {
                    assert(step_fails_with(c.step_types@[t as int], t as int, placement, selector, err));
                    assert(!step_lowers(c.step_types@[t as int], t as int, placement, selector));
                    lemma_fails_not_phase(c.step_types@[t as int], t as int, placement, selector, err);
                }
                return Err(err);
            },
        }
        t = t + 1;
    }
    let mut exposed: Vec<(usize, i32)> = Vec::new();
    let mut i: usize = 0;
    while i < c.exposed.len()
        invariant
            i <= c.exposed@.len(),
            exposed@.len() == i,
            forall|j: int|
                0 <= j < i ==> lookup(placement.forward@, (#[trigger] c.exposed@[j]).id) == Some(
                    SignalPlacement { column: exposed@[j].0, rotation: exposed@[j].1 },
                ),
        decreases c.exposed@.len() - i,
    {
        let id = c.exposed[i].id;
        match find_signal(&placement.forward, id) {
            Some(pl) => exposed.push((pl.column, pl.rotation)),
            None => {
                proof {
                    assert(!(lookup(placement.forward@, c.exposed@[i as int].id) is Some));
                }
                return Err(CircuitError::SignalNotPlaced(id));
            },
        }
        i = i + 1;
    }
    let mut columns: Vec<Column> = Vec::new();
    let mut k: usize = 0;
    while k < placement.columns.len()
        invariant
            k <= placement.columns@.len(),
            columns@ == placement.columns@.subrange(0, k as int),
        decreases placement.columns@.len() - k,
    {
        columns.push(placement.columns[k].duplicate());
        k = k + 1;
        assert(columns@ =~= placement.columns@.subrange(0, k as int));
    }
    let mut k: usize = 0;
    while k < selector.columns.len()
        invariant
            k <= selector.columns@.len(),
            columns@ == placement.columns@ + selector.columns@.subrange(0, k as int),
        decreases selector.columns@.len() - k,
    {
        columns.push(selector.columns[k].duplicate());
        k = k + 1;
        assert(columns@ =~= placement.columns@ + selector.columns@.subrange(0, k as int));
    }
    assert(selector.columns@.subrange(0, selector.columns@.len() as int) =~= selector.columns@);
    let q_enable = columns.len();
    let ghost fixed_part = columns@;
    columns.push(boundary_column("q_enable"));
    let q_first = if c.first_step.is_some() {
        columns.push(boundary_column("q_first"));
        Some(q_enable + 1)
    } else {
        None
    };
    let q_last = if c.last_step.is_some() {
        let last = columns.len();
        columns.push(boundary_column("q_last"));
        Some(last)
    } else {
        None
    };
    assert(columns@.subrange(0, q_enable as int) =~= fixed_part);
    let ghost n0 = (placement.columns@.len() + selector.columns@.len()) as int;
    let ghost nn = columns@.len();
    proof {
        if columns_below(placement, selector, n0) {
            assert(columns_below(placement, selector, nn as int));
        }
    }
    let ir = IrCircuit {
        columns,
        step_polys,
        step_lookups,
        exposed,
        placement,
        selector,
        q_enable,
        q_first,
        q_last,
        num_steps: c.num_steps,
    };
    proof {
        if columns_below(placement, selector, n0) {
            lemma_compiled_in_range(*c, ir.placement, ir.selector, ir);
        }
    }
    Ok(ir)
}

/// Whether every expression of the circuit has nonempty operands.
pub fn check_operands(c: &Circuit) -> (r: bool)
    ensures
        r == circuit_operands_nonempty(*c),
{
    let mut t: usize = 0;
    while t < c.step_types.len()
        invariant
            t <= c.step_types@.len(),
            forall|u: int| 0 <= u < t ==> step_operands_nonempty(#[trigger] c.step_types@[u]),
        decreases c.step_types@.len() - t,
    {
        let st = &c.step_types[t];
        let mut k: usize = 0;
        while k < st.constraints.len()
            invariant
                t < c.step_types@.len(),
                *st == c.step_types@[t as int],
                k <= st.constraints@.len(),
                forall|j: int| 0 <= j < k ==> operands_nonempty((#[trigger] st.constraints@[j]).expr@),
            decreases st.constraints@.len() - k,
        {
            if !st.constraints[k].expr.has_operands() {
                assert(!step_operands_nonempty(c.step_types@[t as int]));
                return false;
            }
            k = k + 1;
        }
        let mut k: usize = 0;
        while k < st.transition_constraints.len()
            invariant
                t < c.step_types@.len(),
                *st == c.step_types@[t as int],
                k <= st.transition_constraints@.len(),
                forall|j: int| 0 <= j < k ==> operands_nonempty((#[trigger] st.transition_constraints@[j]).expr@),
            decreases st.transition_constraints@.len() - k,
        {
            if !st.transition_constraints[k].expr.has_operands() {
                assert(!step_operands_nonempty(c.step_types@[t as int]));
                return false;
            }
            k = k + 1;
        }
        let mut l: usize = 0;
        while l < st.lookups.len()
            invariant
                t < c.step_types@.len(),
                *st == c.step_types@[t as int],
                l <= st.lookups@.len(),
                forall|j: int| 0 <= j < l ==> lookup_operands_nonempty(#[trigger] st.lookups@[j]),
            decreases st.lookups@.len() - l,
        {
            let lk = &st.lookups[l];
            let mut m: usize = 0;
            while m < lk.exprs.len()
                invariant
                    t < c.step_types@.len(),
                    *st == c.step_types@[t as int],
                    l < st.lookups@.len(),
                    *lk == st.lookups@[l as int],
                    m <= lk.exprs@.len(),
                    forall|j: int|
                        0 <= j < m ==> operands_nonempty((#[trigger] lk.exprs@[j]).0.expr@) && operands_nonempty(
                            lk.exprs@[j].1@,
                        ),
                decreases lk.exprs@.len() - m,
            {
                if !lk.exprs[m].0.expr.has_operands() || !lk.exprs[m].1.has_operands() {
                    assert(!lookup_operands_nonempty(*lk));
                    assert(!step_operands_nonempty(c.step_types@[t as int]));
                    return false;
                }
                m = m + 1;
            }
            l = l + 1;
        }
        t = t + 1;
    }
    true
}

/// Compiles a circuit with the single-row placement and the simple selector.
/// Reports a circuit too large to count its columns, and an expression with
/// an empty sum or product, before lowering anything.
pub fn compile(c: &Circuit) -> (r: Result<IrCircuit, CircuitError>)
    ensures
        !fits_columns(*c) ==> r == Err::<IrCircuit, CircuitError>(CircuitError::TooManyColumns),
        r is Ok ==> {
            &&& single_row_placement(*c, r->Ok_0.placement)
            &&& simple_selector(*c, r->Ok_0.placement.columns@.len() as int, r->Ok_0.selector)
            &&& circuit_lowers(*c, r->Ok_0.placement, r->Ok_0.selector)
            &&& compiled(*c, r->Ok_0.placement, r->Ok_0.selector, r->Ok_0)
            &&& queries_in_range(r->Ok_0)
        },
        r is Err ==> !(r matches Err(CircuitError::InvalidPhase(_))),
        fits_columns(*c) && !circuit_operands_nonempty(*c) ==> r == Err::<IrCircuit, CircuitError>(
            CircuitError::EmptyOperands,
        ),
        fits_columns(*c) && circuit_operands_nonempty(*c) && r is Err ==> exists|p: Placement, sel: StepSelector|
            {
                &&& single_row_placement(*c, p)
                &&& simple_selector(*c, p.columns@.len() as int, sel)
                &&& !circuit_lowers(*c, p, sel)
                &&& circuit_fails_with(*c, p, sel, r->Err_0)
            },
{
    if !check_fits_columns(c) {
        return Err(CircuitError::TooManyColumns);
    }
    if !check_operands(c) {
        return Err(CircuitError::EmptyOperands);
    }
    let placement = SingleRowCellManager::place(c);
    let first = placement.columns.len();
    let selector = SimpleStepSelectorBuilder::build(c, first);
    let ghost p = placement;
    let ghost sel = selector;
    proof { lemma_single_row_below(*c, p, sel); }
    let r = compile_with(c, placement, selector);
    proof {
        if r is Err {
            assert(single_row_placement(*c, p) && simple_selector(*c, p.columns@.len() as int, sel)
                && !circuit_lowers(*c, p, sel) && circuit_fails_with(*c, p, sel, r->Err_0));
        }
    }
    r
}

/// Power law: lowering `pow(e, 0)` gives the constant one whatever `e` is;
/// lowering `pow(e, n)` for `n >= 1` gives the lowered `e` multiplied by
/// itself `n` times.
pub proof fn lemma_power_law(e: ExprV, n: u32, p: Placement, sel: StepSelector, sp: StepPlacement)
    ensures
        n == 0 ==> lower(ExprV::Pow(Box::new(e), n), p, sel, sp) == Ok::<Poly, CircuitError>(Poly::Constant(1)),
        n >= 1 ==> lower(ExprV::Pow(Box::new(e), n), p, sel, sp) == match lower(e, p, sel, sp) {
            Ok(x) => Ok(repeated_product(x, n as nat)),
            Err(err) => Err(err),
        },
        n >= 2 ==> forall|x: Poly|
            repeated_product(x, n as nat) == Poly::Product(
                Box::new(repeated_product(x, (n - 1) as nat)),
                Box::new(x),
            ),
{
}

/// Rotation algebra: inside a step type placed with height `h`, a shared
/// signal read at rotation `r` resolves to its column at its base rotation
/// plus `r * h`, and a forward signal read at the next step to its base
/// rotation plus `h`.
pub proof fn lemma_rotation_algebra(
    shared: SharedSignal,
    r: i32,
    shared_at: SignalPlacement,
    forward: ForwardSignal,
    forward_at: SignalPlacement,
    p: Placement,
    sel: StepSelector,
    sp: StepPlacement,
)
    ensures
        lookup(p.shared@, shared.id) == Some(shared_at) && i32::MIN <= shared_at.rotation + r * sp.height
            <= i32::MAX ==> resolve(Queriable::Shared(shared, r), p, sel, sp) == Ok::<SignalPlacement, CircuitError>(
            SignalPlacement {
                column: shared_at.column,
                rotation: (shared_at.rotation + r * sp.height) as i32,
            },
        ),
        lookup(p.forward@, forward.id) == Some(forward_at) && forward_at.rotation + sp.height <= i32::MAX ==> resolve(
            Queriable::Forward(forward, true),
            p,
            sel,
            sp,
        ) == Ok::<SignalPlacement, CircuitError>(
            SignalPlacement { column: forward_at.column, rotation: (forward_at.rotation + sp.height) as i32 },
        ),
{
}

/// Every column that the placement gives a signal or import, and every
/// column that a selector queries, lies before `n`; every selector is a query.
pub open spec fn columns_below(p: Placement, sel: StepSelector, n: int) -> bool {
    &&& forall|k: int| 0 <= k < p.forward@.len() ==> (#[trigger] p.forward@[k]).1.column < n
    &&& forall|k: int| 0 <= k < p.shared@.len() ==> (#[trigger] p.shared@[k]).1.column < n
    &&& forall|k: int| 0 <= k < p.fixed@.len() ==> (#[trigger] p.fixed@[k]).1.column < n
    &&& forall|k: int| 0 <= k < p.halo2_advice@.len() ==> (#[trigger] p.halo2_advice@[k]).1.column < n
    &&& forall|k: int| 0 <= k < p.halo2_fixed@.len() ==> (#[trigger] p.halo2_fixed@[k]).1.column < n
    &&& forall|t: int, j: int|
        0 <= t < p.steps@.len() && 0 <= j < p.steps@[t].1.signals@.len() ==> (#[trigger] p.steps@[t].1.signals@[j]).1.column
            < n
    &&& forall|t: int|
        0 <= t < sel.selector_expr@.len() ==> (#[trigger] sel.selector_expr@[t]).1 is Query
            && sel.selector_expr@[t].1->Query_0 < n
}

proof fn lemma_lookup_below(s: Seq<(u128, SignalPlacement)>, k: u128, n: int)
    requires
        forall|i: int| 0 <= i < s.len() ==> (#[trigger] s[i]).1.column < n,
        lookup(s, k) is Some,
    ensures
        lookup(s, k)->Some_0.column < n,
{
    lemma_lookup_some(s, k);
}

proof fn lemma_resolve_below(q: Queriable, p: Placement, sel: StepSelector, sp: StepPlacement, n: int)
    requires
        columns_below(p, sel, n),
        forall|j: int| 0 <= j < sp.signals@.len() ==> (#[trigger] sp.signals@[j]).1.column < n,
        resolve(q, p, sel, sp) is Ok,
    ensures
        resolve(q, p, sel, sp)->Ok_0.column < n,
{
    match q {
        Queriable::Internal(s) => lemma_lookup_below(sp.signals@, s.id, n),
        Queriable::Forward(s, _) => lemma_lookup_below(p.forward@, s.id, n),
        Queriable::Shared(s, _) => lemma_lookup_below(p.shared@, s.id, n),
        Queriable::Fixed(s, _) => lemma_lookup_below(p.fixed@, s.id, n),
        Queriable::Halo2AdviceQuery(c, _) => lemma_lookup_below(p.halo2_advice@, c.id, n),
        Queriable::Halo2FixedQuery(c, _) => lemma_lookup_below(p.halo2_fixed@, c.id, n),
        Queriable::StepTypeNext(h) => {
            lemma_lookup_some(sel.selector_expr@, h.id);
        },
    }
}

proof fn lemma_repeated_below(x: Poly, k: nat, n: nat)
    requires
        bad_column(x, n) is None,
    ensures
        bad_column(repeated_product(x, k), n) is None,
    decreases k,
{
    if k > 1 {
        lemma_repeated_below(x, (k - 1) as nat, n);
    }
}

/// A lowered expression queries only columns below `n`, and lowering never
/// fails with a phase error.
proof fn lemma_lower_below(e: ExprV, p: Placement, sel: StepSelector, sp: StepPlacement, n: nat)
    requires
        columns_below(p, sel, n as int),
        forall|j: int| 0 <= j < sp.signals@.len() ==> (#[trigger] sp.signals@[j]).1.column < n,
    ensures
        lower(e, p, sel, sp) is Ok ==> bad_column(lower(e, p, sel, sp)->Ok_0, n) is None,
        !(lower(e, p, sel, sp) matches Err(CircuitError::InvalidPhase(_))),
    decreases e,
{
    match e {
        ExprV::Sum(es) => lemma_fold_below(es, true, p, sel, sp, n),
        ExprV::Mul(es) => lemma_fold_below(es, false, p, sel, sp, n),
        ExprV::Neg(b) => lemma_lower_below(*b, p, sel, sp, n),
        ExprV::Pow(b, k) => {
            lemma_lower_below(*b, p, sel, sp, n);
            if k != 0 && lower(*b, p, sel, sp) is Ok {
                lemma_repeated_below(lower(*b, p, sel, sp)->Ok_0, k as nat, n);
            }
        },
        ExprV::Query(q) => {
            if resolve(q, p, sel, sp) is Ok {
                lemma_resolve_below(q, p, sel, sp, n as int);
            }
        },
        _ => {},
    }
}

proof fn lemma_fold_below(es: Seq<ExprV>, sum: bool, p: Placement, sel: StepSelector, sp: StepPlacement, n: nat)
    requires
        columns_below(p, sel, n as int),
        forall|j: int| 0 <= j < sp.signals@.len() ==> (#[trigger] sp.signals@[j]).1.column < n,
    ensures
        lower_fold(es, sum, p, sel, sp) is Ok ==> bad_column(lower_fold(es, sum, p, sel, sp)->Ok_0, n) is None,
        !(lower_fold(es, sum, p, sel, sp) matches Err(CircuitError::InvalidPhase(_))),
    decreases es,
{
    if es.len() == 1 {
        lemma_lower_below(es[0], p, sel, sp, n);
    } else if es.len() > 1 {
        lemma_fold_below(es.drop_last(), sum, p, sel, sp, n);
        lemma_lower_below(es.last(), p, sel, sp, n);
    }
}

/// The constraint polynomial of an item of the step type at position `t`
/// queries only columns below `n`, and never fails with a phase error.
proof fn lemma_step_item_below(e: ExprV, p: Placement, sel: StepSelector, t: int, n: nat)
    requires
        columns_below(p, sel, n as int),
        0 <= t < p.steps@.len(),
        0 <= t < sel.selector_expr@.len(),
    ensures
        step_item(e, p, sel, t) is Ok ==> bad_column(step_item(e, p, sel, t)->Ok_0, n) is None,
        !(step_item(e, p, sel, t) matches Err(CircuitError::InvalidPhase(_))),
{
    let sq = sel.selector_expr@[t].1;
    assert(sq is Query && sq->Query_0 < n);
    assert(bad_column(sq, n) is None);
    assert forall|j: int| 0 <= j < p.steps@[t].1.signals@.len() implies (#[trigger] p.steps@[t].1.signals@[j]).1.column < n by {}
    lemma_lower_below(e, p, sel, p.steps@[t].1, n);
}

/// An error that a step type fails with is never a phase error.
proof fn lemma_fails_not_phase(st: StepType, t: int, p: Placement, sel: StepSelector, e: CircuitError)
    requires
        step_fails_with(st, t, p, sel, e),
        0 <= t < p.steps@.len(),
        0 <= t < sel.selector_expr@.len(),
    ensures
        !(e matches CircuitError::InvalidPhase(_)),
{
    if exists|k: int|
        0 <= k < st.constraints@.len() && #[trigger] step_item(st.constraints@[k].expr@, p, sel, t)
            == Err::<Poly, CircuitError>(e) {
        let k = choose|k: int|
            0 <= k < st.constraints@.len() && #[trigger] step_item(st.constraints@[k].expr@, p, sel, t)
                == Err::<Poly, CircuitError>(e);
        lemma_step_item_no_phase(st.constraints@[k].expr@, p, sel, t);
    } else if exists|k: int|
        0 <= k < st.transition_constraints@.len() && #[trigger] step_item(
            st.transition_constraints@[k].expr@,
            p,
            sel,
            t,
        ) == Err::<Poly, CircuitError>(e) {
        let k = choose|k: int|
            0 <= k < st.transition_constraints@.len() && #[trigger] step_item(
                st.transition_constraints@[k].expr@,
                p,
                sel,
                t,
            ) == Err::<Poly, CircuitError>(e);
        lemma_step_item_no_phase(st.transition_constraints@[k].expr@, p, sel, t);
    } else {
        let (l, m) = choose|l: int, m: int|
            0 <= l < st.lookups@.len() && 0 <= m < st.lookups@[l].exprs@.len() && (step_item(
                (#[trigger] st.lookups@[l].exprs@[m]).0.expr@,
                p,
                sel,
                t,
            ) == Err::<Poly, CircuitError>(e) || lower(st.lookups@[l].exprs@[m].1@, p, sel, p.steps@[t].1)
                == Err::<Poly, CircuitError>(e));
        lemma_step_item_no_phase(st.lookups@[l].exprs@[m].0.expr@, p, sel, t);
        lemma_lower_no_phase(st.lookups@[l].exprs@[m].1@, p, sel, p.steps@[t].1);
    }
}

proof fn lemma_step_item_no_phase(e: ExprV, p: Placement, sel: StepSelector, t: int)
    ensures
        !(step_item(e, p, sel, t) matches Err(CircuitError::InvalidPhase(_))),
{
    lemma_lower_no_phase(e, p, sel, p.steps@[t].1);
}

/// Lowering never fails with a phase error.
proof fn lemma_lower_no_phase(e: ExprV, p: Placement, sel: StepSelector, sp: StepPlacement)
    ensures
        !(lower(e, p, sel, sp) matches Err(CircuitError::InvalidPhase(_))),
    decreases e,
{
    match e {
        ExprV::Sum(es) => lemma_fold_no_phase(es, true, p, sel, sp),
        ExprV::Mul(es) => lemma_fold_no_phase(es, false, p, sel, sp),
        ExprV::Neg(b) => lemma_lower_no_phase(*b, p, sel, sp),
        ExprV::Pow(b, _) => lemma_lower_no_phase(*b, p, sel, sp),
        _ => {},
    }
}

proof fn lemma_fold_no_phase(es: Seq<ExprV>, sum: bool, p: Placement, sel: StepSelector, sp: StepPlacement)
    ensures
        !(lower_fold(es, sum, p, sel, sp) matches Err(CircuitError::InvalidPhase(_))),
    decreases es,
{
    if es.len() == 1 {
        lemma_lower_no_phase(es[0], p, sel, sp);
    } else if es.len() > 1 {
        lemma_fold_no_phase(es.drop_last(), sum, p, sel, sp);
        lemma_lower_no_phase(es.last(), p, sel, sp);
    }
}

/// A circuit compiled on a placement and selector whose columns lie before
/// the selector's end queries only its own columns.
proof fn lemma_compiled_in_range(c: Circuit, p: Placement, sel: StepSelector, ir: IrCircuit)
    requires
        compiled(c, p, sel, ir),
        p.steps@.len() == c.step_types@.len(),
        sel.selector_expr@.len() == c.step_types@.len(),
        columns_below(p, sel, ir.columns@.len() as int),
    ensures
        queries_in_range(ir),
{
    let n = ir.columns@.len();
    assert forall|t: int, k: int|
        0 <= t < ir.step_polys@.len() && 0 <= k < ir.step_polys@[t]@.len() implies bad_column(
            (#[trigger] ir.step_polys@[t]@[k]).1,
            n,
        ) is None by {
        let st = c.step_types@[t];
        assert(step_compiled(st, t, p, sel, ir.step_polys@[t]@, ir.step_lookups@[t]@));
        let nc = st.constraints@.len() as int;
        if k < nc {
            assert(ir.step_polys@[t]@[k] == ir.step_polys@[t]@[k]);
            lemma_step_item_below(st.constraints@[k].expr@, p, sel, t, n);
        } else {
            let j = k - nc;
            assert(ir.step_polys@[t]@[nc + j] == ir.step_polys@[t]@[k]);
            lemma_step_item_below(st.transition_constraints@[j].expr@, p, sel, t, n);
        }
    }
    assert forall|t: int, l: int, m: int|
        0 <= t < ir.step_lookups@.len() && 0 <= l < ir.step_lookups@[t]@.len() && 0 <= m
            < ir.step_lookups@[t]@[l].1@.len() implies bad_column((#[trigger] ir.step_lookups@[t]@[l].1@[m]).0, n) is None
        && bad_column(ir.step_lookups@[t]@[l].1@[m].1, n) is None by {
        let st = c.step_types@[t];
        assert(step_compiled(st, t, p, sel, ir.step_polys@[t]@, ir.step_lookups@[t]@));
        assert(ir.step_lookups@[t]@[l] == ir.step_lookups@[t]@[l]);
        assert(st.lookups@[l].exprs@[m] == st.lookups@[l].exprs@[m]);
        lemma_step_item_below(st.lookups@[l].exprs@[m].0.expr@, p, sel, t, n);
        assert forall|j: int| 0 <= j < p.steps@[t].1.signals@.len() implies (#[trigger] p.steps@[t].1.signals@[j]).1.column < n by {}
        lemma_lower_below(st.lookups@[l].exprs@[m].1@, p, sel, p.steps@[t].1, n);
    }
}

/// Under the single-row placement and the simple selector, every column
/// handed out lies before the end of the selector columns.
proof fn lemma_single_row_below(c: Circuit, p: Placement, sel: StepSelector)
    requires
        single_row_placement(c, p),
        simple_selector(c, p.columns@.len() as int, sel),
    ensures
        columns_below(p, sel, (p.columns@.len() + sel.columns@.len()) as int),
{
    let n = (p.columns@.len() + sel.columns@.len()) as int;
    assert forall|t: int, j: int|
        0 <= t < p.steps@.len() && 0 <= j < p.steps@[t].1.signals@.len() implies (#[trigger] p.steps@[t].1.signals@[j]).1.column
            < n by {
        assert(p.steps@[t].0 == c.step_types@[t].id);
    }
    assert forall|t: int| 0 <= t < sel.selector_expr@.len() implies (#[trigger] sel.selector_expr@[t]).1 is Query
        && sel.selector_expr@[t].1->Query_0 < n by {}
}

} // verus!
