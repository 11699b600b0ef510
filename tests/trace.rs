use rust_chiquito::ast::expr::Expr;
use rust_chiquito::ast::query::Queriable;
use rust_chiquito::ast::{Circuit, Lookup, StepType};
use rust_chiquito::backend::halo2::chiquito2Halo2;
use rust_chiquito::error::CircuitError;
use rust_chiquito::util::UuidGen;
use rust_chiquito::wit_gen::{to_trace_witness, SignalValues};

fn circuit() -> (Circuit, u128, u128, u128, u128, u128) {
    let mut ids = UuidGen::new(100);
    let mut c = Circuit::default();
    let a = c.add_forward(&mut ids, "a".to_string(), 0);
    let s = c.add_shared(&mut ids, "s".to_string(), 0);
    let x = c.add_fixed(&mut ids, "x".to_string());
    let mut st = StepType::new(ids.fresh(), "st".to_string());
    let b = st.add_signal(&mut ids, "b".to_string());
    let id = c.add_step_type_def(st);
    (c, id, a.id, s.id, x.id, b.id)
}

#[test]
fn identifiers_become_queries_of_the_step_type() {
    let (c, id, a, s, x, b) = circuit();
    let values = vec![SignalValues { step_type_uuid: id, assignments: vec![(b, 1), (a, 2), (s, 3), (x, 4)] }];
    let w = to_trace_witness(&c, &values, 7).unwrap();
    assert_eq!(w.height, 7);
    assert_eq!(w.step_instances.len(), 1);
    let inst = &w.step_instances[0];
    assert_eq!(inst.step_type_uuid, id);
    let texts: Vec<(String, u128, u64)> =
        inst.assignments.iter().map(|(q, v)| (q.annotation(), q.uuid(), *v)).collect();
    assert_eq!(
        texts,
        vec![("b".to_string(), b, 1), ("a".to_string(), a, 2), ("s".to_string(), s, 3), ("x".to_string(), x, 4)]
    );
    assert!(matches!(inst.assignments[0].0, Queriable::Internal(_)));
    assert!(matches!(inst.assignments[1].0, Queriable::Forward(_, false)));
    assert!(matches!(inst.assignments[2].0, Queriable::Shared(_, 0)));
    assert!(matches!(inst.assignments[3].0, Queriable::Fixed(_, 0)));
}

#[test]
fn converted_trace_replays() {
    let (c, id, a, _s, _x, b) = circuit();
    let values = vec![
        SignalValues { step_type_uuid: id, assignments: vec![(a, 5), (b, 6)] },
        SignalValues { step_type_uuid: id, assignments: vec![(a, 11)] },
    ];
    let w = to_trace_witness(&c, &values, 0).unwrap();
    let hc = chiquito2Halo2(&c).unwrap();
    let (asg, h) = { assert_eq!(hc.check_witness(&w), Ok(())); hc.synthesize_advice(&w) };
    // columns: a, s, x, b, selector
    assert_eq!(asg, vec![(0, 0, 5), (3, 0, 6), (4, 0, 1), (0, 1, 11), (4, 1, 1)]);
    assert_eq!(h, 2);
}

#[test]
fn unknown_step_type_in_values_fails() {
    let (c, _id, a, _s, _x, _b) = circuit();
    let values = vec![SignalValues { step_type_uuid: 1, assignments: vec![(a, 1)] }];
    assert_eq!(to_trace_witness(&c, &values, 0).err(), Some(CircuitError::StepTypeNotFound(1)));
}

#[test]
fn unknown_signal_in_values_fails() {
    let (c, id, _a, _s, _x, _b) = circuit();
    let values = vec![SignalValues { step_type_uuid: id, assignments: vec![(4242, 1)] }];
    assert_eq!(to_trace_witness(&c, &values, 0).err(), Some(CircuitError::SignalNotPlaced(4242)));
}

#[test]
fn default_lookup_is_empty() {
    let lk = Lookup::default();
    assert!(lk.exprs.is_empty());
    assert!(lk.enable.is_none());
    assert_eq!(lk.annotation, "");
    let mut lk = lk;
    lk.add("c".to_string(), Expr::Const(1), Expr::Const(2));
    assert_eq!(lk.exprs.len(), 1);
}
