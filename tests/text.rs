use rust_chiquito::ast::expr::Expr;
use rust_chiquito::ast::query::Queriable;
use rust_chiquito::ast::{FixedSignal, ForwardSignal, InternalSignal, SharedSignal, StepType};
use rust_chiquito::dsl::StepTypeHandler;
use rust_chiquito::util::{push_decimal, push_signed_decimal, UuidGen};

#[test]
fn query_annotations() {
    let f = ForwardSignal { id: 1, phase: 0, annotation: "a".to_string() };
    let s = SharedSignal { id: 2, phase: 1, annotation: "d".to_string() };
    let x = FixedSignal { id: 3, annotation: "x".to_string() };
    let i = InternalSignal { id: 4, annotation: "c".to_string() };
    let h = StepTypeHandler { id: 5, annotation: "step".to_string() };
    assert_eq!(Queriable::Forward(f.clone(), false).annotation(), "a");
    assert_eq!(Queriable::Forward(f.clone(), true).annotation(), "next(a)");
    assert_eq!(Queriable::Shared(s.clone(), 0).annotation(), "d");
    assert_eq!(Queriable::Shared(s.clone(), 2).annotation(), "d(rot 2)");
    assert_eq!(Queriable::Fixed(x.clone(), -3).annotation(), "x(rot -3)");
    assert_eq!(Queriable::Internal(i.clone()).annotation(), "c");
    assert_eq!(Queriable::StepTypeNext(h.clone()).annotation(), "step");
    assert_eq!(Queriable::Forward(f, true).uuid(), 1);
    assert_eq!(Queriable::Shared(s, 1).uuid(), 2);
    assert_eq!(Queriable::Fixed(x, 1).uuid(), 3);
    assert_eq!(Queriable::Internal(i).uuid(), 4);
    assert_eq!(Queriable::StepTypeNext(h).uuid(), 5);
}

#[test]
fn expression_text() {
    let e = Expr::Sum(vec![
        Expr::Const(1),
        Expr::Mul(vec![Expr::Const(2), Expr::Const(3), Expr::Neg(Box::new(Expr::Const(4)))]),
        Expr::Pow(Box::new(Expr::Const(5)), 6),
    ]);
    assert_eq!(e.text(), "(1 + (2 * 3 * -4) + (5)^6)");
    assert_eq!(e.duplicate().text(), e.text());
    assert_eq!(Expr::Sum(vec![]).text(), "()");
}

#[test]
fn decimal_text() {
    let mut s = String::from("n=");
    push_decimal(&mut s, 0);
    assert_eq!(s, "n=0");
    let mut s = String::new();
    push_decimal(&mut s, 18446744073709551615);
    assert_eq!(s, "18446744073709551615");
    let mut s = String::new();
    push_signed_decimal(&mut s, i64::MIN);
    assert_eq!(s, "-9223372036854775808");
    let mut s = String::new();
    push_signed_decimal(&mut s, -40);
    assert_eq!(s, "-40");
}

#[test]
fn identifiers_are_fresh_and_increasing() {
    let mut ids = UuidGen::new(7);
    let a = ForwardSignal::new_with_phase(&mut ids, 2, "a".to_string());
    let b = SharedSignal::new_with_phase(&mut ids, 1, "a".to_string());
    let c = FixedSignal::new(&mut ids, "a".to_string());
    let d = InternalSignal::new(&mut ids, "a".to_string());
    assert_eq!((a.uuid(), b.uuid(), c.uuid(), d.uuid()), (7, 8, 9, 10));
    assert_eq!(a.phase(), 2);
    assert_eq!(b.phase(), 1);
    assert_eq!(ids.next, 11);
    let mut st = StepType::new(ids.fresh(), "s".to_string());
    assert_eq!(st.uuid(), 11);
    let sig = st.add_signal(&mut ids, "x".to_string());
    assert_eq!(sig.uuid(), 12);
    assert_eq!(st.signals.len(), 1);
    assert_eq!(st.annotations, vec![(12, "x".to_string())]);
    st.add_constr("k".to_string(), Expr::Const(0));
    assert_eq!(st.constraints.len(), 1);
    assert_eq!(st.transition_constraints.len(), 0);
}
