use rust_chiquito::ast::expr::Expr;
use rust_chiquito::ast::query::Queriable;
use rust_chiquito::ast::{Circuit, ForwardSignal, InternalSignal, Lookup, SharedSignal, StepType};
use rust_chiquito::backend::halo2::{chiquito2Halo2, ChiquitoHalo2, WitnessProcessor};
use rust_chiquito::cell_manager::SingleRowCellManager;
use rust_chiquito::compiler::{compile, lower_expr};
use rust_chiquito::error::CircuitError;
use rust_chiquito::ir::{ColumnType, Poly};
use rust_chiquito::util::UuidGen;
use rust_chiquito::wit_gen::{StepInstance, TraceWitness};

fn q(x: Queriable) -> Expr {
    Expr::Query(x)
}

fn fwd(a: &ForwardSignal, next: bool) -> Expr {
    q(Queriable::Forward(a.clone(), next))
}

fn internal(b: &InternalSignal) -> Expr {
    q(Queriable::Internal(b.clone()))
}

/// A circuit with one forward signal `a` and one step type with an internal
/// signal `b` and the transition `next(a) == a + b`.
fn running_sum() -> (Circuit, ForwardSignal, InternalSignal, u128) {
    let mut ids = UuidGen::new(1);
    let mut c = Circuit::default();
    let a = c.add_forward(&mut ids, "a".to_string(), 0);
    let mut st = StepType::new(ids.fresh(), "sum".to_string());
    let b = st.add_signal(&mut ids, "b".to_string());
    st.add_transition(
        "next(a) == a + b".to_string(),
        Expr::Sum(vec![fwd(&a, false), internal(&b), Expr::Neg(Box::new(fwd(&a, true)))]),
    );
    let id = c.add_step_type_def(st);
    (c, a, b, id)
}

/// Replays a trace that must replay.
fn replay(hc: &ChiquitoHalo2, w: &TraceWitness) -> (Vec<(usize, usize, u64)>, usize) {
    assert_eq!(hc.check_witness(w), Ok(()));
    hc.synthesize_advice(w)
}

fn cell(asg: &[(usize, usize, u64)], column: usize, row: usize) -> Option<u64> {
    asg.iter().rev().find(|(c, r, _)| *c == column && *r == row).map(|(_, _, v)| *v)
}

#[test]
fn running_sum_replays_ten_rows() {
    let (c, a, b, id) = running_sum();
    let hc = chiquito2Halo2(&c).unwrap();
    let mut instances = Vec::new();
    let mut acc: u64 = 0;
    for i in 0..10u64 {
        let bv = i + 1;
        instances.push(StepInstance {
            step_type_uuid: id,
            assignments: vec![
                (Queriable::Forward(a.clone(), false), acc),
                (Queriable::Internal(b.clone()), bv),
            ],
        });
        acc += bv;
    }
    let w = TraceWitness { step_instances: instances, height: 0 };
    let (asg, height) = replay(&hc, &w);
    assert_eq!(height, 10);
    let col_a = hc.circuit.placement.forward[0].1.column;
    let col_b = hc.circuit.placement.steps[0].1.signals[0].1.column;
    assert_ne!(col_a, col_b);
    for i in 0..9 {
        let next = cell(&asg, col_a, i + 1).unwrap();
        let cur = cell(&asg, col_a, i).unwrap() + cell(&asg, col_b, i).unwrap();
        assert_eq!(next, cur);
    }
}

#[test]
fn running_sum_transition_lowers_with_selector() {
    let (c, _a, _b, _id) = running_sum();
    let ir = compile(&c).unwrap();
    // columns: a, b, the selector of the step type, q_enable
    assert_eq!(ir.columns.len(), 4);
    assert_eq!(ir.columns[3].ctype, ColumnType::Fixed);
    assert_eq!(ir.q_enable, 3);
    assert!(ir.q_first.is_none() && ir.q_last.is_none());
    let sel = Poly::Query(2, 0);
    let a0 = Poly::Query(0, 0);
    let b0 = Poly::Query(1, 0);
    let a1 = Poly::Query(0, 1);
    let expected = Poly::Product(
        Box::new(sel),
        Box::new(Poly::Sum(
            Box::new(Poly::Sum(Box::new(a0), Box::new(b0))),
            Box::new(Poly::Negated(Box::new(a1))),
        )),
    );
    assert_eq!(ir.step_polys.len(), 1);
    assert_eq!(ir.step_polys[0].len(), 1);
    assert_eq!(ir.step_polys[0][0].0, "next(a) == a + b");
    assert_eq!(ir.step_polys[0][0].1, expected);
}

#[test]
fn exposed_forward_signal_binds_first_row() {
    let (mut c, a, _b, _id) = running_sum();
    c.expose(a.clone());
    let hc = chiquito2Halo2(&c).unwrap();
    assert_eq!(hc.circuit.exposed, vec![(0usize, 0i32)]);
    assert_eq!(hc.exposed_cells().unwrap(), vec![(0usize, 0usize, 0usize)]);
    let cfg = hc.configure();
    assert!(cfg.instance);
    assert_eq!(cfg.advice, vec![(0, 0), (1, 0), (2, 0)]);
    assert_eq!(cfg.fixed, vec![3]);
}

#[test]
fn exposed_signals_keep_declaration_order() {
    let mut ids = UuidGen::new(10);
    let mut c = Circuit::default();
    let x = c.add_forward(&mut ids, "x".to_string(), 0);
    let y = c.add_forward(&mut ids, "y".to_string(), 0);
    c.expose(y.clone());
    c.expose(x.clone());
    let hc = chiquito2Halo2(&c).unwrap();
    assert_eq!(hc.exposed_cells().unwrap(), vec![(1, 0, 0), (0, 0, 1)]);
}

#[test]
fn lookup_without_enable_keeps_two_pairs() {
    let mut ids = UuidGen::new(1);
    let mut c = Circuit::default();
    let a = c.add_forward(&mut ids, "a".to_string(), 0);
    let mut st = StepType::new(ids.fresh(), "s".to_string());
    let b = st.add_signal(&mut ids, "b".to_string());
    let mut lk = Lookup::new();
    lk.add("first".to_string(), fwd(&a, false), Expr::Const(7));
    lk.add("second".to_string(), internal(&b), Expr::Const(8));
    assert_eq!(lk.exprs.len(), 2);
    assert!(lk.enable.is_none());
    assert_eq!(lk.exprs[0].0.expr.text(), "a");
    assert_eq!(lk.exprs[1].0.expr.text(), "b");
    assert_eq!(lk.annotation, "match(first => 7) match(second => 8) ");
    st.lookups.push(lk);
    c.add_step_type_def(st);
    let ir = compile(&c).unwrap();
    let pairs = &ir.step_lookups[0][0].1;
    assert_eq!(pairs.len(), 2);
    let sel = Poly::Query(2, 0);
    assert_eq!(pairs[0].0, Poly::Product(Box::new(sel.duplicate()), Box::new(Poly::Query(0, 0))));
    assert_eq!(pairs[0].1, Poly::Constant(7));
    assert_eq!(pairs[1].0, Poly::Product(Box::new(sel), Box::new(Poly::Query(1, 0))));
    assert_eq!(pairs[1].1, Poly::Constant(8));
}

#[test]
fn lookup_enable_multiplies_existing_and_later_pairs() {
    let mut lk = Lookup::new();
    lk.add("c1".to_string(), Expr::Const(3), Expr::Const(4));
    lk.enable("en".to_string(), Expr::Const(2));
    lk.add("c2".to_string(), Expr::Const(5), Expr::Const(6));
    assert_eq!(lk.exprs[0].0.expr.text(), "(2 * 3)");
    assert_eq!(lk.exprs[0].0.annotation, "c1");
    assert_eq!(lk.exprs[1].0.expr.text(), "(2 * 5)");
    assert_eq!(lk.exprs[1].1.text(), "6");
    assert_eq!(lk.annotation, "if en, match(c1 => 4) match(c2 => 6) ");
}

#[test]
fn lookup_enable_sets_the_enable_constraint() {
    let mut lk = Lookup::new();
    lk.add("c1".to_string(), Expr::Const(3), Expr::Const(4));
    assert!(lk.enable.is_none());
    lk.enable("en".to_string(), Expr::Const(2));
    let en = lk.enable.as_ref().unwrap();
    assert_eq!(en.annotation, "en");
    assert_eq!(en.expr.text(), "2");
    assert_eq!(lk.exprs[0].0.expr.text(), "(2 * 3)");
    assert_eq!(lk.annotation, "if en, match(c1 => 4) ");
}

#[test]
fn assign_before_any_step_fails() {
    let (c, a, _b, _id) = running_sum();
    let hc = chiquito2Halo2(&c).unwrap();
    let mut wp = WitnessProcessor::new(&hc.circuit.placement, &hc.circuit.selector);
    let r = wp.try_assign(&Queriable::Forward(a.clone(), false), 5);
    assert_eq!(r, Err(CircuitError::AssignOutsideStep));
    assert!(wp.assignments.is_empty());
    assert_eq!(wp.offset, 0);
}

#[test]
fn assign_after_step_ends_fails() {
    let (c, a, _b, id) = running_sum();
    let hc = chiquito2Halo2(&c).unwrap();
    let mut wp = WitnessProcessor::new(&hc.circuit.placement, &hc.circuit.selector);
    wp.begin_step(id);
    wp.assign(&Queriable::Forward(a.clone(), false), 5);
    wp.end_step();
    assert_eq!(wp.offset, 1);
    assert!(wp.cur_step.is_none());
    assert_eq!(wp.try_assign(&Queriable::Forward(a.clone(), false), 6), Err(CircuitError::AssignOutsideStep));
    assert_eq!(wp.assignments, vec![(0, 0, 5), (2, 0, 1)]);
}

#[test]
fn declared_height_is_authoritative() {
    let (c, a, _b, id) = running_sum();
    let hc = chiquito2Halo2(&c).unwrap();
    let w = TraceWitness {
        step_instances: vec![StepInstance {
            step_type_uuid: id,
            assignments: vec![(Queriable::Forward(a.clone(), true), 3)],
        }],
        height: 20,
    };
    let (asg, h) = replay(&hc, &w);
    assert_eq!(h, 20);
    assert_eq!(asg, vec![(0, 1, 3), (2, 0, 1)]);
}

#[test]
fn inferred_height_covers_every_row() {
    let (c, a, _b, id) = running_sum();
    let hc = chiquito2Halo2(&c).unwrap();
    let inst = |v: u64| StepInstance {
        step_type_uuid: id,
        assignments: vec![(Queriable::Forward(a.clone(), true), v)],
    };
    let w = TraceWitness { step_instances: vec![inst(1), inst(2), inst(3)], height: 0 };
    let (asg, h) = replay(&hc, &w);
    // the last next(a) is written at row 3
    assert_eq!(h, 4);
    assert!(asg.iter().all(|(_, r, _)| *r < h));
}

#[test]
fn empty_trace_has_height_one() {
    let (c, _a, _b, _id) = running_sum();
    let hc = chiquito2Halo2(&c).unwrap();
    let w = TraceWitness { step_instances: vec![], height: 0 };
    let (asg, h) = replay(&hc, &w);
    assert!(asg.is_empty());
    assert_eq!(h, 1);
}

#[test]
fn selectors_of_two_step_types_never_share_a_row() {
    let mut ids = UuidGen::new(1);
    let mut c = Circuit::default();
    let a = c.add_forward(&mut ids, "a".to_string(), 0);
    let s1 = StepType::new(ids.fresh(), "one".to_string());
    let s2 = StepType::new(ids.fresh(), "two".to_string());
    let id1 = c.add_step_type_def(s1);
    let id2 = c.add_step_type_def(s2);
    let hc = chiquito2Halo2(&c).unwrap();
    let inst = |id: u128, v: u64| StepInstance {
        step_type_uuid: id,
        assignments: vec![(Queriable::Forward(a.clone(), false), v)],
    };
    let w = TraceWitness {
        step_instances: vec![inst(id1, 1), inst(id2, 2), inst(id1, 3), inst(id2, 4)],
        height: 0,
    };
    let (asg, h) = replay(&hc, &w);
    assert_eq!(h, 4);
    let s = hc.circuit.placement.columns.len();
    assert_eq!(s, 1);
    for row in 0..4 {
        let on: Vec<usize> = asg
            .iter()
            .filter(|(c, r, v)| *c >= s && *r == row && *v == 1)
            .map(|(c, _, _)| *c)
            .collect();
        assert_eq!(on.len(), 1);
        assert_eq!(on[0], if row % 2 == 0 { s } else { s + 1 });
    }
}

#[test]
fn placement_separates_signals_within_each_step() {
    let mut ids = UuidGen::new(1);
    let mut c = Circuit::default();
    let _f = c.add_forward(&mut ids, "f".to_string(), 1);
    let _s = c.add_shared(&mut ids, "s".to_string(), 0);
    let _x = c.add_fixed(&mut ids, "x".to_string());
    let mut st1 = StepType::new(ids.fresh(), "one".to_string());
    st1.add_signal(&mut ids, "p".to_string());
    st1.add_signal(&mut ids, "q".to_string());
    let mut st2 = StepType::new(ids.fresh(), "two".to_string());
    st2.add_signal(&mut ids, "r".to_string());
    c.add_step_type_def(st1);
    c.add_step_type_def(st2);
    let p = SingleRowCellManager::place(&c);
    assert_eq!(p.forward[0].1.column, 0);
    assert_eq!(p.shared[0].1.column, 1);
    assert_eq!(p.fixed[0].1.column, 2);
    assert_eq!(p.steps[0].1.signals.iter().map(|s| s.1.column).collect::<Vec<_>>(), vec![3, 4]);
    // internal columns are shared between step types
    assert_eq!(p.steps[1].1.signals.iter().map(|s| s.1.column).collect::<Vec<_>>(), vec![3]);
    assert!(p.steps.iter().all(|s| s.1.height == 1));
    assert_eq!(p.columns.len(), 5);
    assert_eq!(p.columns[0].phase, 1);
    assert_eq!(p.columns[2].ctype, ColumnType::Fixed);
}

#[test]
fn shared_rotation_scales_with_height_and_next_adds_height() {
    let mut ids = UuidGen::new(1);
    let mut c = Circuit::default();
    let a = c.add_forward(&mut ids, "a".to_string(), 0);
    let s = c.add_shared(&mut ids, "s".to_string(), 0);
    let st = StepType::new(ids.fresh(), "st".to_string());
    c.add_step_type_def(st);
    let mut ir = compile(&c).unwrap();
    // make the step two rows high to see the scaling
    ir.placement.steps[0].1.height = 2;
    let sp = &ir.placement.steps[0].1;
    let e = q(Queriable::Shared(s.clone(), 3));
    assert_eq!(lower_expr(&e, &ir.placement, &ir.selector, sp), Ok(Poly::Query(1, 6)));
    let e = q(Queriable::Shared(s.clone(), -1));
    assert_eq!(lower_expr(&e, &ir.placement, &ir.selector, sp), Ok(Poly::Query(1, -2)));
    let e = fwd(&a, true);
    assert_eq!(lower_expr(&e, &ir.placement, &ir.selector, sp), Ok(Poly::Query(0, 2)));
}

#[test]
fn replay_writes_shared_rotation_rows() {
    let mut ids = UuidGen::new(1);
    let mut c = Circuit::default();
    let s = c.add_shared(&mut ids, "s".to_string(), 0);
    let st = StepType::new(ids.fresh(), "st".to_string());
    let id = c.add_step_type_def(st);
    let hc = chiquito2Halo2(&c).unwrap();
    let w = TraceWitness {
        step_instances: vec![
            StepInstance { step_type_uuid: id, assignments: vec![] },
            StepInstance { step_type_uuid: id, assignments: vec![(Queriable::Shared(s.clone(), 2), 9)] },
        ],
        height: 0,
    };
    let (asg, h) = replay(&hc, &w);
    assert!(asg.contains(&(0, 3, 9)));
    assert_eq!(h, 4);
}

#[test]
fn pow_zero_is_one_whatever_the_base() {
    let (c, _a, _b, _id) = running_sum();
    let ir = compile(&c).unwrap();
    let sp = &ir.placement.steps[0].1;
    let mut ids = UuidGen::new(1000);
    let stray = InternalSignal::new(&mut ids, "stray".to_string());
    let e = Expr::Pow(Box::new(internal(&stray)), 0);
    assert_eq!(lower_expr(&e, &ir.placement, &ir.selector, sp), Ok(Poly::Constant(1)));
    let e = Expr::Pow(Box::new(Expr::Sum(vec![Expr::Const(2), Expr::Const(3)])), 0);
    assert_eq!(lower_expr(&e, &ir.placement, &ir.selector, sp), Ok(Poly::Constant(1)));
}

#[test]
fn pow_three_multiplies_three_times() {
    let (c, a, _b, _id) = running_sum();
    let ir = compile(&c).unwrap();
    let sp = &ir.placement.steps[0].1;
    let e = Expr::Pow(Box::new(fwd(&a, false)), 3);
    let x = Poly::Query(0, 0);
    let expected = Poly::Product(
        Box::new(Poly::Product(Box::new(x.duplicate()), Box::new(x.duplicate()))),
        Box::new(x.duplicate()),
    );
    assert_eq!(lower_expr(&e, &ir.placement, &ir.selector, sp), Ok(expected));
    let e = Expr::Pow(Box::new(fwd(&a, false)), 1);
    assert_eq!(lower_expr(&e, &ir.placement, &ir.selector, sp), Ok(x));
}

#[test]
fn product_folds_from_the_left() {
    let (c, _a, _b, _id) = running_sum();
    let ir = compile(&c).unwrap();
    let sp = &ir.placement.steps[0].1;
    let e = Expr::Mul(vec![Expr::Const(1), Expr::Const(2), Expr::Const(3)]);
    let expected = Poly::Product(
        Box::new(Poly::Product(Box::new(Poly::Constant(1)), Box::new(Poly::Constant(2)))),
        Box::new(Poly::Constant(3)),
    );
    assert_eq!(lower_expr(&e, &ir.placement, &ir.selector, sp), Ok(expected));
    let e = Expr::Sum(vec![Expr::Const(4)]);
    assert_eq!(lower_expr(&e, &ir.placement, &ir.selector, sp), Ok(Poly::Constant(4)));
}

#[test]
fn first_and_last_markers_add_boundary_columns() {
    let (mut c, _a, _b, id) = running_sum();
    c.first_step = Some(id);
    c.last_step = Some(id);
    let hc = chiquito2Halo2(&c).unwrap();
    assert_eq!(hc.circuit.q_enable, 3);
    assert_eq!(hc.circuit.q_first, Some(4));
    assert_eq!(hc.circuit.q_last, Some(5));
    let cells = hc.default_fixed(3);
    assert_eq!(cells, vec![(3, 0, 1), (3, 1, 1), (3, 2, 1), (4, 0, 1), (5, 2, 1)]);
    let cfg = hc.configure();
    assert_eq!(cfg.fixed, vec![3, 4, 5]);
    assert!(!cfg.instance);
}

#[test]
fn default_fixed_without_markers_is_row_enable_only() {
    let (c, _a, _b, _id) = running_sum();
    let hc = chiquito2Halo2(&c).unwrap();
    assert_eq!(hc.default_fixed(2), vec![(3, 0, 1), (3, 1, 1)]);
}

#[test]
fn unknown_step_type_in_trace_fails() {
    let (c, _a, _b, _id) = running_sum();
    let hc = chiquito2Halo2(&c).unwrap();
    let w = TraceWitness {
        step_instances: vec![StepInstance { step_type_uuid: 9999, assignments: vec![] }],
        height: 0,
    };
    assert_eq!(hc.check_witness(&w).err(), Some(CircuitError::StepTypeNotFound(9999)));
}

#[test]
fn unplaced_signal_in_constraint_fails_compilation() {
    let (mut c, _a, _b, _id) = running_sum();
    let mut ids = UuidGen::new(5000);
    let stray = InternalSignal::new(&mut ids, "stray".to_string());
    c.step_types[0].add_constr("stray".to_string(), internal(&stray));
    assert_eq!(compile(&c).err(), Some(CircuitError::SignalNotPlaced(5000)));
    assert!(chiquito2Halo2(&c).is_err());
}

#[test]
fn unknown_step_reference_fails_compilation() {
    let (mut c, _a, _b, _id) = running_sum();
    let h = rust_chiquito::dsl::StepTypeHandler { id: 777, annotation: "ghost".to_string() };
    c.step_types[0].add_constr("next step".to_string(), q(Queriable::StepTypeNext(h)));
    assert_eq!(compile(&c).err(), Some(CircuitError::SelectorNotFound(777)));
}

#[test]
fn step_reference_reads_selector_one_step_on() {
    let (mut c, _a, _b, id) = running_sum();
    let h = rust_chiquito::dsl::StepTypeHandler { id, annotation: "sum".to_string() };
    c.step_types[0].add_constr("next is sum".to_string(), q(Queriable::StepTypeNext(h)));
    let ir = compile(&c).unwrap();
    let expected = Poly::Product(Box::new(Poly::Query(2, 0)), Box::new(Poly::Query(2, 1)));
    assert_eq!(ir.step_polys[0][0].1, expected);
    assert_eq!(ir.step_polys[0][1].0, "next(a) == a + b");
}

#[test]
fn empty_sum_fails_compilation() {
    let (mut c, _a, _b, _id) = running_sum();
    c.step_types[0].add_constr("empty".to_string(), Expr::Sum(vec![]));
    assert_eq!(compile(&c).err(), Some(CircuitError::EmptyOperands));
}

#[test]
fn exposing_an_unknown_signal_fails() {
    let (mut c, _a, _b, _id) = running_sum();
    let mut ids = UuidGen::new(6000);
    let other = ForwardSignal::new_with_phase(&mut ids, 0, "other".to_string());
    c.expose(other);
    assert_eq!(compile(&c).err(), Some(CircuitError::SignalNotPlaced(6000)));
}

#[test]
fn assigning_a_fixed_signal_fails() {
    let mut ids = UuidGen::new(1);
    let mut c = Circuit::default();
    let x = c.add_fixed(&mut ids, "x".to_string());
    let st = StepType::new(ids.fresh(), "st".to_string());
    let id = c.add_step_type_def(st);
    let hc = chiquito2Halo2(&c).unwrap();
    let w = TraceWitness {
        step_instances: vec![StepInstance {
            step_type_uuid: id,
            assignments: vec![(Queriable::Fixed(x.clone(), 0), 1)],
        }],
        height: 0,
    };
    assert_eq!(hc.check_witness(&w).err(), Some(CircuitError::InvalidAssignmentTarget(x.id)));
}

#[test]
fn row_before_the_first_fails() {
    let mut ids = UuidGen::new(1);
    let mut c = Circuit::default();
    let s = c.add_shared(&mut ids, "s".to_string(), 0);
    let st = StepType::new(ids.fresh(), "st".to_string());
    let id = c.add_step_type_def(st);
    let hc = chiquito2Halo2(&c).unwrap();
    let w = TraceWitness {
        step_instances: vec![StepInstance {
            step_type_uuid: id,
            assignments: vec![(Queriable::Shared(s.clone(), -1), 1)],
        }],
        height: 0,
    };
    assert_eq!(hc.check_witness(&w).err(), Some(CircuitError::RowOutOfRange));
}

#[test]
fn rotation_overflow_fails() {
    let mut ids = UuidGen::new(1);
    let mut c = Circuit::default();
    let s = c.add_shared(&mut ids, "s".to_string(), 0);
    let st = StepType::new(ids.fresh(), "st".to_string());
    c.add_step_type_def(st);
    let mut ir = compile(&c).unwrap();
    ir.placement.steps[0].1.height = 2;
    let sp = &ir.placement.steps[0].1;
    let e = q(Queriable::Shared(s.clone(), i32::MAX));
    assert_eq!(lower_expr(&e, &ir.placement, &ir.selector, sp), Err(CircuitError::RotationOutOfRange));
}

#[test]
fn advice_phase_past_three_fails_configuration() {
    let mut ids = UuidGen::new(1);
    let mut c = Circuit::default();
    c.add_forward(&mut ids, "late".to_string(), 3);
    assert_eq!(chiquito2Halo2(&c).err(), Some(CircuitError::InvalidPhase(3)));
}

#[test]
fn step_type_registration_replaces_same_identifier() {
    let mut c = Circuit::default();
    c.add_step_type_def(StepType::new(5, "old".to_string()));
    c.add_step_type_def(StepType::new(6, "other".to_string()));
    c.add_step_type_def(StepType::new(5, "new".to_string()));
    assert_eq!(c.step_types.len(), 2);
    assert_eq!(c.get_step_type(5).unwrap().name, "new");
    assert!(c.get_step_type(7).is_none());
    assert!(StepType::new(5, "a".to_string()) == StepType::new(5, "b".to_string()));
    assert!(StepType::new(5, "a".to_string()) != StepType::new(6, "a".to_string()));
}

#[test]
fn shared_signals_with_equal_names_are_distinct() {
    let mut ids = UuidGen::new(1);
    let mut c = Circuit::default();
    let s1: SharedSignal = c.add_shared(&mut ids, "same".to_string(), 0);
    let s2: SharedSignal = c.add_shared(&mut ids, "same".to_string(), 0);
    assert_ne!(s1.uuid(), s2.uuid());
    let p = SingleRowCellManager::place(&c);
    assert_ne!(p.shared[0].1.column, p.shared[1].1.column);
}

#[test]
fn imported_columns_pass_rotation_through() {
    let mut ids = UuidGen::new(1);
    let mut c = Circuit::default();
    let a = c.add_forward(&mut ids, "a".to_string(), 0);
    let ext = c.add_halo2_advice(&mut ids, "ext".to_string(), 7);
    let tab = c.add_halo2_fixed(&mut ids, "tab".to_string(), 2);
    let mut st = StepType::new(ids.fresh(), "st".to_string());
    st.add_constr(
        "a == ext[-1]".to_string(),
        Expr::Sum(vec![fwd(&a, false), Expr::Neg(Box::new(q(Queriable::Halo2AdviceQuery(ext.clone(), -1))))]),
    );
    st.add_constr("tab".to_string(), q(Queriable::Halo2FixedQuery(tab.clone(), 0)));
    let id = c.add_step_type_def(st);
    let hc = chiquito2Halo2(&c).unwrap();
    // columns: a, ext, tab, selector, q_enable
    assert_eq!(hc.circuit.columns[1].ctype, ColumnType::Halo2Advice(7));
    assert_eq!(hc.circuit.columns[2].ctype, ColumnType::Halo2Fixed(2));
    let expected = Poly::Product(
        Box::new(Poly::Query(3, 0)),
        Box::new(Poly::Sum(
            Box::new(Poly::Query(0, 0)),
            Box::new(Poly::Negated(Box::new(Poly::Query(1, -1)))),
        )),
    );
    assert_eq!(hc.circuit.step_polys[0][0].1, expected);
    let cfg = hc.configure();
    assert_eq!(cfg.advice, vec![(0, 0), (3, 0)]);
    assert_eq!(cfg.fixed, vec![4]);
    assert_eq!(cfg.imported_advice, vec![(1, 7)]);
    assert_eq!(cfg.imported_fixed, vec![(2, 2)]);
    let w = TraceWitness {
        step_instances: vec![
            StepInstance { step_type_uuid: id, assignments: vec![] },
            StepInstance { step_type_uuid: id, assignments: vec![(Queriable::Halo2AdviceQuery(ext.clone(), -1), 4)] },
        ],
        height: 0,
    };
    let (asg, _h) = replay(&hc, &w);
    assert!(asg.contains(&(1, 0, 4)));
    let w = TraceWitness {
        step_instances: vec![StepInstance {
            step_type_uuid: id,
            assignments: vec![(Queriable::Halo2FixedQuery(tab.clone(), 0), 4)],
        }],
        height: 0,
    };
    assert_eq!(hc.check_witness(&w).err(), Some(CircuitError::InvalidAssignmentTarget(tab.id)));
    assert_eq!(Queriable::Halo2AdviceQuery(ext, -1).annotation(), "ext(rot -1)");
}

#[test]
fn fixed_signal_values_fill_their_column() {
    let mut ids = UuidGen::new(1);
    let mut c = Circuit::default();
    let _a = c.add_forward(&mut ids, "a".to_string(), 0);
    let x = c.add_fixed(&mut ids, "x".to_string());
    let y = c.add_fixed(&mut ids, "y".to_string());
    let hc = chiquito2Halo2(&c).unwrap();
    let cells = hc.fixed_cells(&vec![(y.id, vec![5, 6]), (x.id, vec![7])]).unwrap();
    assert_eq!(cells, vec![(2, 0, 5), (2, 1, 6), (1, 0, 7)]);
    assert_eq!(hc.fixed_cells(&vec![(x.id, vec![1]), (999, vec![1])]).err(), Some(CircuitError::SignalNotPlaced(999)));
    assert_eq!(hc.fixed_cells(&vec![]).unwrap(), vec![]);
}

#[test]
fn selector_that_is_not_a_query_fails_lowering() {
    let (c, _a, _b, id) = running_sum();
    let mut ir = compile(&c).unwrap();
    ir.selector.selector_expr[0].1 = Poly::Constant(1);
    let h = rust_chiquito::dsl::StepTypeHandler { id, annotation: "sum".to_string() };
    let e = q(Queriable::StepTypeNext(h));
    let sp = &ir.placement.steps[0].1;
    assert_eq!(lower_expr(&e, &ir.placement, &ir.selector, sp), Err(CircuitError::InvalidSelectorExpr));
}
