//! Selectors: the polynomial that is one exactly on the rows of a step type.
use vstd::prelude::*;
use vstd::string::StringExecFns;

use crate::ast::Circuit;
use crate::ir::{Column, ColumnType, Poly};

verus! {

/// For every step type, its selector polynomial and the (query, value)
/// pairs that switch the selector on at the step's base row.
#[derive(Debug)]
pub struct StepSelector {
    pub selector_expr: Vec<(u128, Poly)>,
    pub selector_assignment: Vec<(u128, Vec<(Poly, u64)>)>,
    pub columns: Vec<Column>,
}

/// The simple selector of a circuit whose selector columns start at
/// `first`: one advice column per step type, in the order of the step types,
/// queried at rotation zero and set to one at the step's base row.
pub open spec fn simple_selector(c: Circuit, first: int, s: StepSelector) -> bool {
    let nt = c.step_types@.len();
    &&& s.selector_expr@.len() == nt
    &&& s.selector_assignment@.len() == nt
    &&& s.columns@.len() == nt
    &&& forall|t: int|
        0 <= t < nt ==> {
            &&& #[trigger] s.selector_expr@[t] == (
            c.step_types@[t].id,
            Poly::Query((first + t) as usize, 0),
            )
            &&& s.selector_assignment@[t].0 == c.step_types@[t].id
            &&& s.selector_assignment@[t].1@ == seq![(Poly::Query((first + t) as usize, 0), 1u64)]
            &&& s.columns@[t].ctype == ColumnType::Advice
            &&& s.columns@[t].phase == 0
        }
}

/// Builds selectors with one dedicated column per step type.
pub struct SimpleStepSelectorBuilder {}

impl SimpleStepSelectorBuilder {
    /// The simple selector of `c`, with its columns numbered from `first`.
    pub fn build(c: &Circuit, first: usize) -> (r: StepSelector)
        requires
            first + c.step_types@.len() <= usize::MAX,
        ensures
            simple_selector(*c, first as int, r),
    {
        let nt = c.step_types.len();
        let mut selector_expr: Vec<(u128, Poly)> = Vec::new();
        let mut selector_assignment: Vec<(u128, Vec<(Poly, u64)>)> = Vec::new();
        let mut columns: Vec<Column> = Vec::new();
        let mut t: usize = 0;
        while t < nt
            invariant
                nt == c.step_types@.len(),
                first + nt <= usize::MAX,
                t <= nt,
                selector_expr@.len() == t,
                selector_assignment@.len() == t,
                columns@.len() == t,
                forall|u: int|
                    0 <= u < t ==> #[trigger] selector_expr@[u] == (
                    c.step_types@[u].id,
                    Poly::Query((first + u) as usize, 0),
                    ),
                forall|u: int|
                    0 <= u < t ==> (#[trigger] selector_assignment@[u]).0 == c.step_types@[u].id
                        && selector_assignment@[u].1@ == seq![
                        (Poly::Query((first + u) as usize, 0), 1u64),
                    ],
                forall|u: int|
                    0 <= u < t ==> (#[trigger] columns@[u]).ctype == ColumnType::Advice
                        && columns@[u].phase == 0,
            decreases nt - t,
        {
            let st = &c.step_types[t];
            let column = first + t;
            proof { reveal_strlit("step selector for "); }
            let mut annotation = String::from_str("step selector for ");
            annotation.append(st.name.as_str());
            columns.push(Column { annotation, ctype: ColumnType::Advice, phase: 0 });
            selector_expr.push((st.id, Poly::Query(column, 0)));
            let assignment = vec![(Poly::Query(column, 0), 1u64)];
            assert(assignment@ =~= seq![(Poly::Query(column, 0), 1u64)]);
            selector_assignment.push((st.id, assignment));
            t = t + 1;
        }
        StepSelector { selector_expr, selector_assignment, columns }
    }
}

} // verus!
