//! The placed circuit: columns, backend polynomials and the compiled circuit.
use vstd::prelude::*;

use crate::cell_manager::Placement;
use crate::step_selector::StepSelector;

verus! {

/// Whether a column holds witness values or values fixed by the circuit,
/// and, for a column owned by the surrounding system, that column's index
/// in the backend.
#[derive(Clone, Copy, Debug, PartialEq, Eq, Structural)]
pub enum ColumnType {
    Advice,
    Fixed,
    Halo2Advice(usize),
    Halo2Fixed(usize),
}

/// A column of the layout.
#[derive(Clone, Debug)]
pub struct Column {
    pub annotation: String,
    pub ctype: ColumnType,
    pub phase: usize,
}

/// A backend polynomial over column queries, built from binary operators.
#[derive(Debug, PartialEq, Eq)]
pub enum Poly {
    Constant(u64),
    Query(usize, i32),
    Sum(Box<Poly>, Box<Poly>),
    Product(Box<Poly>, Box<Poly>),
    Negated(Box<Poly>),
}

/// The compiled circuit: its columns; for each step type, in order, the
/// gate polynomial of each constraint and transition constraint and the
/// argument pairs of each lookup; the exposed cells; the placement and
/// selector that produced them; and the boundary columns.
pub struct Circuit {
    pub columns: Vec<Column>,
    pub step_polys: Vec<Vec<(String, Poly)>>,
    pub step_lookups: Vec<Vec<(String, Vec<(Poly, Poly)>)>>,
    pub exposed: Vec<(usize, i32)>,
    pub placement: Placement,
    pub selector: StepSelector,
    pub q_enable: usize,
    pub q_first: Option<usize>,
    pub q_last: Option<usize>,
    pub num_steps: usize,
}

} // verus!

verus! {

/// The first column index at or past `n` that `p` queries, reading from the left.
pub open spec fn bad_column(p: Poly, n: nat) -> Option<usize>
    decreases p,
{
    match p {
        Poly::Constant(_) => None,
        Poly::Query(c, _) => if c < n {
            None
        } else {
            Some(c)
        },
        Poly::Sum(a, b) => match bad_column(*a, n) {
            Some(c) => Some(c),
            None => bad_column(*b, n),
        },
        Poly::Product(a, b) => match bad_column(*a, n) {
            Some(c) => Some(c),
            None => bad_column(*b, n),
        },
        Poly::Negated(a) => bad_column(*a, n),
    }
}

/// Every polynomial of the compiled circuit, gate or lookup side, queries
/// only columns of the circuit.
pub open spec fn queries_in_range(c: Circuit) -> bool {
    let n = c.columns@.len();
    &&& forall|t: int, k: int|
        0 <= t < c.step_polys@.len() && 0 <= k < c.step_polys@[t]@.len() ==> bad_column(
            (#[trigger] c.step_polys@[t]@[k]).1,
            n,
        ) is None
    &&& forall|t: int, l: int, m: int|
        0 <= t < c.step_lookups@.len() && 0 <= l < c.step_lookups@[t]@.len() && 0 <= m
            < c.step_lookups@[t]@[l].1@.len() ==> bad_column((#[trigger] c.step_lookups@[t]@[l].1@[m]).0, n) is None
            && bad_column(c.step_lookups@[t]@[l].1@[m].1, n) is None
}

impl Poly {
    /// A copy of this polynomial, equal to it.
    pub fn duplicate(&self) -> (r: Poly)
        ensures
            r == *self,
        decreases self,
    {
        match self {
            Poly::Constant(c) => Poly::Constant(*c),
            Poly::Query(c, r) => Poly::Query(*c, *r),
            Poly::Sum(a, b) => Poly::Sum(Box::new(a.duplicate()), Box::new(b.duplicate())),
            Poly::Product(a, b) => Poly::Product(Box::new(a.duplicate()), Box::new(b.duplicate())),
            Poly::Negated(a) => Poly::Negated(Box::new(a.duplicate())),
        }
    }
}

impl Column {
    /// A copy of this column, equal to it.
    pub fn duplicate(&self) -> (r: Column)
        ensures
            r == *self,
    {
        Column { annotation: self.annotation.clone(), ctype: self.ctype, phase: self.phase }
    }
}

} // verus!
