//! Lowering of a compiled circuit to a halo2-style constraint system, and
//! replay of a witness onto its columns and rows.
use vstd::prelude::*;

use crate::ast::query::Queriable;
use crate::ast::{Circuit, ForwardSignal, SharedSignal};
use crate::cell_manager::{
    find_key, has_key, is_first_key as is_first_key_at, lemma_first_key, lemma_lookup_some, lookup, Placement, SignalPlacement,
};
use crate::compiler::{circuit_operands_nonempty, circuit_lowers, compile, compiled, resolve, resolve_query};
use crate::cell_manager::find_signal;
use crate::cell_manager::{
    catalog_column, fits_columns, lemma_placement_injective, placed, pool_base, single_row_placement, SignalKind,
};
use crate::step_selector::simple_selector;
use crate::error::CircuitError;
use crate::ir::{queries_in_range, Circuit as IrCircuit, ColumnType, Poly};
use crate::step_selector::StepSelector;
use crate::wit_gen::{StepInstance, TraceWitness};

verus! {

/// The largest row index that replay assigns.
pub const MAX_ROW: usize = 0x7fff_ffff;

/// Every column that the placement gives a forward, shared or internal
/// signal or an imported advice column lies before `bound`.
pub open spec fn signals_before(p: Placement, bound: int) -> bool {
    &&& forall|k: int| 0 <= k < p.forward@.len() ==> (#[trigger] p.forward@[k]).1.column < bound
    &&& forall|k: int| 0 <= k < p.shared@.len() ==> (#[trigger] p.shared@[k]).1.column < bound
    &&& forall|k: int| 0 <= k < p.halo2_advice@.len() ==> (#[trigger] p.halo2_advice@[k]).1.column < bound
    &&& forall|t: int, j: int|
        0 <= t < p.steps@.len() && 0 <= j < p.steps@[t].1.signals@.len() ==> (#[trigger] p.steps@[t].1.signals@[j]).1.column
            < bound
}

/// The placement and selector can drive a replay: every step type is at
/// least one row high; the selector lists the step types in the order of
/// the placement; the selector of the step type at position `t` sets the
/// column `p.columns.len() + t` to one at the base row; and every signal
/// column lies before the selector columns.
pub open spec fn replay_ready(p: Placement, sel: StepSelector) -> bool {
    let s = p.columns@.len() as int;
    &&& sel.selector_assignment@.len() == p.steps@.len()
    &&& s + p.steps@.len() <= usize::MAX
    &&& forall|t: int|
        0 <= t < p.steps@.len() ==> {
            &&& (#[trigger] p.steps@[t]).1.height >= 1
            &&& sel.selector_assignment@[t].0 == p.steps@[t].0
            &&& sel.selector_assignment@[t].1@ == seq![(Poly::Query((s + t) as usize, 0), 1u64)]
        }
    &&& signals_before(p, s)
}

/// The column of the selector of the step type at position `t`.
pub open spec fn selector_column(p: Placement, t: int) -> int {
    p.columns@.len() + t
}

/// Where assigning a value to `q` writes, given the current offset and the
/// active step type, or why it fails.
pub open spec fn assign_target(
    p: Placement,
    sel: StepSelector,
    offset: int,
    cur: Option<usize>,
    q: Queriable,
) -> Result<(usize, int), CircuitError> {
    match cur {
        None => Err(CircuitError::AssignOutsideStep),
        Some(t) => match q {
            Queriable::Fixed(s, _) => Err(CircuitError::InvalidAssignmentTarget(s.id)),
            Queriable::StepTypeNext(h) => Err(CircuitError::InvalidAssignmentTarget(h.id)),
            Queriable::Halo2FixedQuery(c, _) => Err(CircuitError::InvalidAssignmentTarget(c.id)),
            _ => match resolve(q, p, sel, p.steps@[t as int].1) {
                Err(e) => Err(e),
                Ok(pl) => if 0 <= offset + pl.rotation <= MAX_ROW {
                    Ok((pl.column, offset + pl.rotation))
                } else {
                    Err(CircuitError::RowOutOfRange)
                },
            },
        },
    }
}

/// The state of a replay: the offset, the active step type, the cells
/// assigned so far and the largest row assigned.
pub type ReplayState = (int, Option<usize>, Seq<(usize, usize, u64)>, int);

/// Entering an instance of the step type `uuid`: the first step type of the
/// placement under that identifier becomes active.
pub open spec fn begin_spec(p: Placement, st: ReplayState, uuid: u128) -> Result<ReplayState, CircuitError> {
    if has_key(p.steps@, uuid) {
        Ok((st.0, Some((choose|t: int| is_first_key_at(p.steps@, uuid, t)) as usize), st.2, st.3))
    } else {
        Err(CircuitError::StepTypeNotFound(uuid))
    }
}

/// Assigning `v` to `q`: the cell is recorded and the largest row updated.
pub open spec fn assign_spec(
    p: Placement,
    sel: StepSelector,
    st: ReplayState,
    q: Queriable,
    v: u64,
) -> Result<ReplayState, CircuitError> {
    match assign_target(p, sel, st.0, st.1, q) {
        Ok((column, row)) => Ok(
            (
                st.0,
                st.1,
                st.2.push((column, row as usize, v)),
                if row > st.3 {
                    row
                } else {
                    st.3
                },
            ),
        ),
        Err(e) => Err(e),
    }
}

/// Leaving the active instance: its selector is set at the base row and the
/// offset moves on by the step type's height.
pub open spec fn end_spec(p: Placement, st: ReplayState) -> Result<ReplayState, CircuitError> {
    match st.1 {
        None => Err(CircuitError::AssignOutsideStep),
        Some(t) => {
            let h = p.steps@[t as int].1.height;
            if st.0 + h <= MAX_ROW {
                Ok(
                    (
                        st.0 + h,
                        None,
                        st.2.push((selector_column(p, t as int) as usize, st.0 as usize, 1u64)),
                        if st.0 > st.3 {
                            st.0
                        } else {
                            st.3
                        },
                    ),
                )
            } else {
                Err(CircuitError::RowOutOfRange)
            }
        },
    }
}

/// Assigning a list of values in order.
pub open spec fn assigns_spec(
    p: Placement,
    sel: StepSelector,
    st: ReplayState,
    list: Seq<(Queriable, u64)>,
) -> Result<ReplayState, CircuitError>
    decreases list.len(),
{
    if list.len() == 0 {
        Ok(st)
    } else {
        match assigns_spec(p, sel, st, list.drop_last()) {
            Ok(s2) => assign_spec(p, sel, s2, list.last().0, list.last().1),
            Err(e) => Err(e),
        }
    }
}

/// Replaying one step instance.
pub open spec fn instance_spec(
    p: Placement,
    sel: StepSelector,
    st: ReplayState,
    inst: StepInstance,
) -> Result<ReplayState, CircuitError> {
    match begin_spec(p, st, inst.step_type_uuid) {
        Ok(s1) => match assigns_spec(p, sel, s1, inst.assignments@) {
            Ok(s2) => end_spec(p, s2),
            Err(e) => Err(e),
        },
        Err(e) => Err(e),
    }
}

/// Replaying step instances in order.
pub open spec fn trace_spec(
    p: Placement,
    sel: StepSelector,
    st: ReplayState,
    insts: Seq<StepInstance>,
) -> Result<ReplayState, CircuitError>
    decreases insts.len(),
{
    if insts.len() == 0 {
        Ok(st)
    } else {
        match trace_spec(p, sel, st, insts.drop_last()) {
            Ok(s2) => instance_spec(p, sel, s2, insts.last()),
            Err(e) => Err(e),
        }
    }
}

proof fn lemma_assigns_error_extends(
    p: Placement,
    sel: StepSelector,
    st: ReplayState,
    list: Seq<(Queriable, u64)>,
    k: int,
)
    requires
        0 <= k <= list.len(),
        assigns_spec(p, sel, st, list.subrange(0, k)) is Err,
    ensures
        assigns_spec(p, sel, st, list) == assigns_spec(p, sel, st, list.subrange(0, k)),
    decreases list.len() - k,
{
    if k < list.len() {
        assert(list.drop_last().subrange(0, k) =~= list.subrange(0, k));
        lemma_assigns_error_extends(p, sel, st, list.drop_last(), k);
    } else {
        assert(list.subrange(0, k) =~= list);
    }
}

proof fn lemma_trace_error_extends(
    p: Placement,
    sel: StepSelector,
    st: ReplayState,
    insts: Seq<StepInstance>,
    k: int,
)
    requires
        0 <= k <= insts.len(),
        trace_spec(p, sel, st, insts.subrange(0, k)) is Err,
    ensures
        trace_spec(p, sel, st, insts) == trace_spec(p, sel, st, insts.subrange(0, k)),
    decreases insts.len() - k,
{
    if k < insts.len() {
        assert(insts.drop_last().subrange(0, k) =~= insts.subrange(0, k));
        lemma_trace_error_extends(p, sel, st, insts.drop_last(), k);
    } else {
        assert(insts.subrange(0, k) =~= insts);
    }
}

/// Replays a trace onto the placement: the state machine that is either
/// idle or inside a step instance.
pub struct WitnessProcessor<'a> {
    pub placement: &'a Placement,
    pub selector: &'a StepSelector,
    /// The base row of the current or next step instance.
    pub offset: usize,
    /// The position, in the placement, of the active step type.
    pub cur_step: Option<usize>,
    /// The (column, row, value) cells assigned so far.
    pub assignments: Vec<(usize, usize, u64)>,
    /// The largest row assigned so far.
    pub max_offset: usize,
}

impl<'a> WitnessProcessor<'a> {
    /// The replay state that the processor holds.
    pub open spec fn state(&self) -> ReplayState {
        (self.offset as int, self.cur_step, self.assignments@, self.max_offset as int)
    }

    /// The processor's invariant: the step position is valid; no row
    /// assigned lies past `max_offset`; every selector cell lies before the
    /// current offset; and no row holds the selector cells of two step types.
    pub open spec fn inv(&self) -> bool {
        let s = self.placement.columns@.len() as int;
        &&& replay_ready(*self.placement, *self.selector)
        &&& self.offset <= MAX_ROW
        &&& self.max_offset <= MAX_ROW
        &&& (self.cur_step is Some ==> self.cur_step->Some_0 < self.placement.steps@.len())
        &&& forall|i: int|
            0 <= i < self.assignments@.len() ==> (#[trigger] self.assignments@[i]).1 <= self.max_offset
        &&& forall|i: int|
            0 <= i < self.assignments@.len() && (#[trigger] self.assignments@[i]).0 >= s ==> self.assignments@[i].1
                < self.offset
        &&& forall|i: int, j: int|
            0 <= i < self.assignments@.len() && 0 <= j < self.assignments@.len() && (#[trigger] self.assignments@[i]).0 >= s
                && (#[trigger] self.assignments@[j]).0 >= s && self.assignments@[i].1 == self.assignments@[j].1
                ==> self.assignments@[i].0 == self.assignments@[j].0
    }

    /// An idle processor at row zero with nothing assigned.
    pub fn new(placement: &'a Placement, selector: &'a StepSelector) -> (r: WitnessProcessor<'a>)
        requires
            replay_ready(*placement, *selector),
        ensures
            r.inv(),
            r.placement == placement,
            r.selector == selector,
            r.offset == 0,
            r.cur_step is None,
            r.assignments@.len() == 0,
            r.max_offset == 0,
    {
        WitnessProcessor {
            placement,
            selector,
            offset: 0,
            cur_step: None,
            assignments: Vec::new(),
            max_offset: 0,
        }
    }

    /// Enters an instance of the step type `step_type_uuid`.
    fn begin_checked(&mut self, step_type_uuid: u128) -> (r: Result<(), CircuitError>)
        requires
            old(self).inv(),
        ensures
            final(self).inv(),
            final(self).placement == old(self).placement,
            final(self).selector == old(self).selector,
            final(self).offset == old(self).offset,
            final(self).assignments == old(self).assignments,
            final(self).max_offset == old(self).max_offset,
            r is Ok <==> lookup(old(self).placement.steps@, step_type_uuid) is Some,
            r is Ok ==> {
                let t = final(self).cur_step->Some_0 as int;
                &&& final(self).cur_step is Some
                &&& old(self).placement.steps@[t].0 == step_type_uuid
                &&& lookup(old(self).placement.steps@, step_type_uuid) == Some(old(self).placement.steps@[t].1)
            },
            r is Err ==> r == Err::<(), CircuitError>(CircuitError::StepTypeNotFound(step_type_uuid))
                && final(self).cur_step == old(self).cur_step,
            match begin_spec(*old(self).placement, old(self).state(), step_type_uuid) {
                Ok(st) => r is Ok && final(self).state() == st,
                Err(e) => r == Err::<(), CircuitError>(e) && final(self).state() == old(self).state(),
            },
    {
        match find_key(&self.placement.steps, step_type_uuid) {
            Some(t) => {
                proof { lemma_first_key(self.placement.steps@, step_type_uuid, t as int); }
                self.cur_step = Some(t);
                Ok(())
            },
            None => Err(CircuitError::StepTypeNotFound(step_type_uuid)),
        }
    }

    /// The checked form of [`Self::assign`]: records the value of `lhs` at
    /// the cell that it resolves to under the active step type, or reports
    /// why it cannot (no step instance active, a target that cannot be
    /// assigned, no placement, a row out of range) and changes nothing.
    pub fn try_assign(&mut self, lhs: &Queriable, rhs: u64) -> (r: Result<(), CircuitError>)
        requires
            old(self).inv(),
        ensures
            final(self).inv(),
            final(self).placement == old(self).placement,
            final(self).selector == old(self).selector,
            final(self).offset == old(self).offset,
            final(self).cur_step == old(self).cur_step,
            match assign_target(
                *old(self).placement,
                *old(self).selector,
                old(self).offset as int,
                old(self).cur_step,
                *lhs,
            ) {
                Ok((column, row)) => {
                    &&& r is Ok
                    &&& final(self).assignments@ == old(self).assignments@.push((column, row as usize, rhs))
                    &&& final(self).max_offset == if row > old(self).max_offset {
                        row as usize
                    } else {
                        old(self).max_offset
                    }
                },
                Err(e) => {
                    &&& r == Err::<(), CircuitError>(e)
                    &&& final(self).assignments == old(self).assignments
                    &&& final(self).max_offset == old(self).max_offset
                },
            },
            match assign_spec(*old(self).placement, *old(self).selector, old(self).state(), *lhs, rhs) {
                Ok(st) => r is Ok && final(self).state() == st,
                Err(e) => r == Err::<(), CircuitError>(e) && final(self).state() == old(self).state(),
            },
    {
        let t = match self.cur_step {
            Some(t) => t,
            None => { return Err(CircuitError::AssignOutsideStep); },
        };
        match lhs {
            Queriable::Fixed(s, _) => { return Err(CircuitError::InvalidAssignmentTarget(s.id)); },
            Queriable::StepTypeNext(h) => { return Err(CircuitError::InvalidAssignmentTarget(h.id)); },
            Queriable::Halo2FixedQuery(c, _) => { return Err(CircuitError::InvalidAssignmentTarget(c.id)); },
            _ => {},
        }
        let pl = match resolve_query(lhs, self.placement, self.selector, &self.placement.steps[t].1) {
            Ok(pl) => pl,
            Err(e) => { return Err(e); },
        };
        let row: i64 = self.offset as i64 + pl.rotation as i64;
        if row < 0 || row > MAX_ROW as i64 {
            return Err(CircuitError::RowOutOfRange);
        }
        let row = row as usize;
        proof {
            let p = *self.placement;
            let s = p.columns@.len() as int;
            let sp = p.steps@[t as int].1;
            if *lhs is Internal {
                let id = lhs->Internal_0.id;
                lemma_lookup_some(sp.signals@, id);
                let k = choose|k: int| is_first_key_at(sp.signals@, id, k) && sp.signals@[k].1 == lookup(sp.signals@, id)->Some_0;
                assert(sp.signals@[k] == p.steps@[t as int].1.signals@[k]);
            } else if *lhs is Forward {
                let id = lhs->Forward_0.id;
                lemma_lookup_some(p.forward@, id);
                let k = choose|k: int| is_first_key_at(p.forward@, id, k) && p.forward@[k].1 == lookup(p.forward@, id)->Some_0;
                assert(p.forward@[k].1.column < s);
            } else if *lhs is Shared {
                let id = lhs->Shared_0.id;
                lemma_lookup_some(p.shared@, id);
                let k = choose|k: int| is_first_key_at(p.shared@, id, k) && p.shared@[k].1 == lookup(p.shared@, id)->Some_0;
                assert(p.shared@[k].1.column < s);
            } else if *lhs is Halo2AdviceQuery {
                let id = lhs->Halo2AdviceQuery_0.id;
                lemma_lookup_some(p.halo2_advice@, id);
                let k = choose|k: int| is_first_key_at(p.halo2_advice@, id, k) && p.halo2_advice@[k].1 == lookup(p.halo2_advice@, id)->Some_0;
                assert(p.halo2_advice@[k].1.column < s);
            }
            assert(pl.column < s);
        }
        self.assignments.push((pl.column, row, rhs));
        if row > self.max_offset {
            self.max_offset = row;
        }
        Ok(())
    }

    /// Leaves the active step instance: sets its selector at the base row
    /// and moves the offset on by the step type's height.
    fn end_checked(&mut self) -> (r: Result<(), CircuitError>)
        requires
            old(self).inv(),
        ensures
            final(self).inv(),
            final(self).placement == old(self).placement,
            final(self).selector == old(self).selector,
            old(self).cur_step is None ==> r == Err::<(), CircuitError>(CircuitError::AssignOutsideStep)
                && *final(self) == *old(self),
            old(self).cur_step is Some ==> {
                let t = old(self).cur_step->Some_0 as int;
                let h = old(self).placement.steps@[t].1.height;
                if old(self).offset + h <= MAX_ROW {
                    &&& r is Ok
                    &&& final(self).assignments@ == old(self).assignments@.push(
                        ((selector_column(*old(self).placement, t)) as usize, old(self).offset, 1u64),
                    )
                    &&& final(self).offset == old(self).offset + h
                    &&& final(self).cur_step is None
                    &&& final(self).max_offset == if old(self).offset > old(self).max_offset {
                        old(self).offset
                    } else {
                        old(self).max_offset
                    }
                } else {
                    &&& r == Err::<(), CircuitError>(CircuitError::RowOutOfRange)
                    &&& *final(self) == *old(self)
                }
            },
            match end_spec(*old(self).placement, old(self).state()) {
                Ok(st) => r is Ok && final(self).state() == st,
                Err(e) => r == Err::<(), CircuitError>(e) && final(self).state() == old(self).state(),
            },
    {
        let t = match self.cur_step {
            Some(t) => t,
            None => { return Err(CircuitError::AssignOutsideStep); },
        };
        let h = self.placement.steps[t].1.height as usize;
        if h > MAX_ROW - self.offset {
            return Err(CircuitError::RowOutOfRange);
        }
        let ghost s = self.placement.columns@.len() as int;
        let list = &self.selector.selector_assignment[t].1;
        assert(list@ == seq![(Poly::Query((s + t) as usize, 0), 1u64)]);
        if list.len() != 1 {
            return Err(CircuitError::InvalidSelectorExpr);
        }
        let (column, rot) = match &list[0].0 {
            Poly::Query(c, rot) => (*c, *rot),
            _ => { return Err(CircuitError::InvalidSelectorExpr); },
        };
        let value = list[0].1;
        assert(rot == 0 && value == 1 && column == s + t);
        let row = self.offset;
        let ghost old_asg = self.assignments@;
        self.assignments.push((column, row, value));
        if row > self.max_offset {
            self.max_offset = row;
        }
        self.offset = self.offset + h;
        self.cur_step = None;
        proof {
            let a = self.assignments@;
            assert forall|i: int, j: int|
                0 <= i < a.len() && 0 <= j < a.len() && (#[trigger] a[i]).0 >= s && (#[trigger] a[j]).0 >= s
                    && a[i].1 == a[j].1 implies a[i].0 == a[j].0 by {
                if i < old_asg.len() && j < old_asg.len() {
                    assert(old_asg[i] == a[i] && old_asg[j] == a[j]);
                } else if i < old_asg.len() {
                    assert(old_asg[i] == a[i]);
                } else if j < old_asg.len() {
                    assert(old_asg[j] == a[j]);
                }
            }
            assert forall|i: int| 0 <= i < a.len() && (#[trigger] a[i]).0 >= s implies a[i].1 < self.offset by {
                if i < old_asg.len() {
                    assert(old_asg[i] == a[i]);
                }
            }
            assert forall|i: int| 0 <= i < a.len() implies (#[trigger] a[i]).1 <= self.max_offset by {
                if i < old_asg.len() {
                    assert(old_asg[i] == a[i]);
                }
            }
        }
        Ok(())
    }

    /// Replays one step instance: enters it, assigns its values in order and
    /// leaves it.
    fn process_instance_checked(&mut self, instance: &StepInstance) -> (r: Result<(), CircuitError>)
        requires
            old(self).inv(),
        ensures
            final(self).inv(),
            final(self).placement == old(self).placement,
            final(self).selector == old(self).selector,
            match instance_spec(*old(self).placement, *old(self).selector, old(self).state(), *instance) {
                Ok(st) => r is Ok && final(self).state() == st,
                Err(e) => r == Err::<(), CircuitError>(e),
            },
    {
        match self.begin_checked(instance.step_type_uuid) {
            Ok(()) => {},
            Err(e) => { return Err(e); },
        }
        let ghost s1 = self.state();
        let ghost list = instance.assignments@;
        let n = instance.assignments.len();
        let mut k: usize = 0;
        while k < n
            invariant
                self.inv(),
                self.placement == old(self).placement,
                self.selector == old(self).selector,
                begin_spec(*old(self).placement, old(self).state(), instance.step_type_uuid) == Ok::<
                    ReplayState,
                    CircuitError,
                >(s1),
                list == instance.assignments@,
                n == list.len(),
                k <= n,
                assigns_spec(*self.placement, *self.selector, s1, list.subrange(0, k as int)) == Ok::<
                    ReplayState,
                    CircuitError,
                >(self.state()),
            decreases n - k,
        {
            let (q, v) = (&instance.assignments[k].0, instance.assignments[k].1);
            let ghost before = self.state();
            let r = self.try_assign(q, v);
            proof {
                let cur = list.subrange(0, k + 1);
                assert(cur.drop_last() =~= list.subrange(0, k as int));
                assert(cur.last() == list[k as int]);
            }
            match r {
                Ok(()) => {},
                Err(e) => {
                    proof { lemma_assigns_error_extends(*self.placement, *self.selector, s1, list, k + 1); }
                    return Err(e);
                },
            }
            k = k + 1;
        }
        assert(list.subrange(0, n as int) =~= list);
        self.end_checked()
    }

    /// Replays every step instance of the trace, in order.
    fn process_checked(&mut self, witness: &TraceWitness) -> (r: Result<(), CircuitError>)
        requires
            old(self).inv(),
        ensures
            final(self).inv(),
            final(self).placement == old(self).placement,
            final(self).selector == old(self).selector,
            match trace_spec(*old(self).placement, *old(self).selector, old(self).state(), witness.step_instances@) {
                Ok(st) => r is Ok && final(self).state() == st,
                Err(e) => r == Err::<(), CircuitError>(e),
            },
    {
        let ghost s0 = self.state();
        let ghost insts = witness.step_instances@;
        let n = witness.step_instances.len();
        let mut i: usize = 0;
        while i < n
            invariant
                self.inv(),
                self.placement == old(self).placement,
                self.selector == old(self).selector,
                s0 == old(self).state(),
                insts == witness.step_instances@,
                n == insts.len(),
                i <= n,
                trace_spec(*self.placement, *self.selector, s0, insts.subrange(0, i as int)) == Ok::<
                    ReplayState,
                    CircuitError,
                >(self.state()),
            decreases n - i,
        {
            let r = self.process_instance_checked(&witness.step_instances[i]);
            proof {
                let cur = insts.subrange(0, i + 1);
                assert(cur.drop_last() =~= insts.subrange(0, i as int));
                assert(cur.last() == insts[i as int]);
            }
            match r {
                Ok(()) => {},
                Err(e) => {
                    proof { lemma_trace_error_extends(*self.placement, *self.selector, s0, insts, i + 1); }
                    return Err(e);
                },
            }
            i = i + 1;
        }
        assert(insts.subrange(0, n as int) =~= insts);
        Ok(())
    }

    /// Enters an instance of the step type `step_type_uuid`, which the
    /// placement must hold.
    pub fn begin_step(&mut self, step_type_uuid: u128)
        requires
            old(self).inv(),
            has_key(old(self).placement.steps@, step_type_uuid),
        ensures
            final(self).inv(),
            final(self).placement == old(self).placement,
            final(self).selector == old(self).selector,
            begin_spec(*old(self).placement, old(self).state(), step_type_uuid) == Ok::<ReplayState, CircuitError>(
                final(self).state(),
            ),
    {
        let _r = self.begin_checked(step_type_uuid);
    }

    /// Records the value of `lhs` at the cell that it resolves to under the
    /// active step type. A step instance must be active and `lhs` must be a
    /// placed internal, forward, shared or imported advice query whose row is
    /// in range.
    pub fn assign(&mut self, lhs: &Queriable, rhs: u64)
        requires
            old(self).inv(),
            old(self).cur_step is Some,
            assign_target(*old(self).placement, *old(self).selector, old(self).offset as int, old(self).cur_step, *lhs)
                is Ok,
        ensures
            final(self).inv(),
            final(self).placement == old(self).placement,
            final(self).selector == old(self).selector,
            assign_spec(*old(self).placement, *old(self).selector, old(self).state(), *lhs, rhs) == Ok::<
                ReplayState,
                CircuitError,
            >(final(self).state()),
    {
        let _r = self.try_assign(lhs, rhs);
    }

    /// Leaves the active step instance: sets its selector at the base row
    /// and moves the offset on by the step type's height.
    pub fn end_step(&mut self)
        requires
            old(self).inv(),
            old(self).cur_step is Some,
            end_spec(*old(self).placement, old(self).state()) is Ok,
        ensures
            final(self).inv(),
            final(self).placement == old(self).placement,
            final(self).selector == old(self).selector,
            end_spec(*old(self).placement, old(self).state()) == Ok::<ReplayState, CircuitError>(final(self).state()),
    {
        let _r = self.end_checked();
    }

    /// Replays one step instance, which must replay without error.
    pub fn process_instance(&mut self, instance: &StepInstance)
        requires
            old(self).inv(),
            instance_spec(*old(self).placement, *old(self).selector, old(self).state(), *instance) is Ok,
        ensures
            final(self).inv(),
            final(self).placement == old(self).placement,
            final(self).selector == old(self).selector,
            instance_spec(*old(self).placement, *old(self).selector, old(self).state(), *instance) == Ok::<
                ReplayState,
                CircuitError,
            >(final(self).state()),
    {
        let _r = self.process_instance_checked(instance);
    }

    /// Replays every step instance of the trace, in order; the trace must
    /// replay without error.
    pub fn process(&mut self, witness: &TraceWitness)
        requires
            old(self).inv(),
            trace_spec(*old(self).placement, *old(self).selector, old(self).state(), witness.step_instances@) is Ok,
        ensures
            final(self).inv(),
            final(self).placement == old(self).placement,
            final(self).selector == old(self).selector,
            trace_spec(*old(self).placement, *old(self).selector, old(self).state(), witness.step_instances@) == Ok::<
                ReplayState,
                CircuitError,
            >(final(self).state()),
    {
        let _r = self.process_checked(witness);
    }
}

/// The backend columns, in the order of the circuit's columns: each advice
/// column to allocate with its phase, each fixed column to allocate, each
/// imported advice and fixed column with the backend column it is, and
/// whether an instance column carries the exposed signals.
pub struct Halo2Config {
    pub advice: Vec<(usize, usize)>,
    pub fixed: Vec<usize>,
    pub imported_advice: Vec<(usize, usize)>,
    pub imported_fixed: Vec<(usize, usize)>,
    pub instance: bool,
}

/// A compiled circuit ready for a halo2-style backend.
pub struct ChiquitoHalo2 {
    pub debug: bool,
    pub circuit: IrCircuit,
}

/// Every advice column is in one of the three phases the backend offers.
pub open spec fn phases_in_range(c: IrCircuit) -> bool {
    forall|k: int|
        0 <= k < c.columns@.len() && (#[trigger] c.columns@[k]).ctype == ColumnType::Advice ==> c.columns@[k].phase <= 2
}

/// `cfg` lists the advice, fixed and imported columns of `c` in order.
pub open spec fn config_of(c: IrCircuit, cfg: Halo2Config) -> bool {
    let cols = c.columns@;
    &&& cfg.instance == (c.exposed@.len() > 0)
    &&& cfg.advice@.len() + cfg.fixed@.len() + cfg.imported_advice@.len() + cfg.imported_fixed@.len()
        == cols.len()
    &&& forall|i: int|
        0 <= i < cfg.imported_advice@.len() ==> (#[trigger] cfg.imported_advice@[i]).0 < cols.len()
            && cols[cfg.imported_advice@[i].0 as int].ctype == ColumnType::Halo2Advice(cfg.imported_advice@[i].1)
    &&& forall|i: int, j: int|
        0 <= i < j < cfg.imported_advice@.len() ==> (#[trigger] cfg.imported_advice@[i]).0 < (
        #[trigger] cfg.imported_advice@[j]).0
    &&& forall|i: int|
        0 <= i < cfg.imported_fixed@.len() ==> (#[trigger] cfg.imported_fixed@[i]).0 < cols.len()
            && cols[cfg.imported_fixed@[i].0 as int].ctype == ColumnType::Halo2Fixed(cfg.imported_fixed@[i].1)
    &&& forall|i: int, j: int|
        0 <= i < j < cfg.imported_fixed@.len() ==> (#[trigger] cfg.imported_fixed@[i]).0 < (
        #[trigger] cfg.imported_fixed@[j]).0
    &&& forall|i: int|
        0 <= i < cfg.advice@.len() ==> {
            &&& (#[trigger] cfg.advice@[i]).0 < cols.len()
            &&& cols[cfg.advice@[i].0 as int].ctype == ColumnType::Advice
            &&& cfg.advice@[i].1 == cols[cfg.advice@[i].0 as int].phase
        }
    &&& forall|i: int, j: int| 0 <= i < j < cfg.advice@.len() ==> (#[trigger] cfg.advice@[i]).0 < (#[trigger] cfg.advice@[j]).0
    &&& forall|i: int|
        0 <= i < cfg.fixed@.len() ==> (#[trigger] cfg.fixed@[i]) < cols.len() && cols[cfg.fixed@[i] as int].ctype
            == ColumnType::Fixed
    &&& forall|i: int, j: int| 0 <= i < j < cfg.fixed@.len() ==> (#[trigger] cfg.fixed@[i]) < (#[trigger] cfg.fixed@[j])
}

/// The cells of the fixed-signal values `list`: the `r`-th value of a fixed
/// signal goes to its column at row `r` past its placed rotation. Fails on
/// a signal without placement and on rows outside the supported range.
pub open spec fn fixed_values_cells(p: Placement, list: Seq<(u128, Vec<u64>)>) -> Result<
    Seq<(usize, usize, u64)>,
    CircuitError,
>
    decreases list.len(),
{
    if list.len() == 0 {
        Ok(Seq::empty())
    } else {
        match fixed_values_cells(p, list.drop_last()) {
            Err(e) => Err(e),
            Ok(cells) => {
                let (id, values) = list.last();
                match lookup(p.fixed@, id) {
                    None => Err(CircuitError::SignalNotPlaced(id)),
                    Some(pl) => if 0 <= pl.rotation && pl.rotation + values@.len() <= MAX_ROW + 1 {
                        Ok(
                            cells + Seq::new(
                                values@.len(),
                                |r: int| (pl.column, (pl.rotation + r) as usize, values@[r]),
                            ),
                        )
                    } else {
                        Err(CircuitError::RowOutOfRange)
                    },
                }
            },
        }
    }
}

proof fn lemma_fixed_error_extends(p: Placement, list: Seq<(u128, Vec<u64>)>, k: int)
    requires
        0 <= k <= list.len(),
        fixed_values_cells(p, list.subrange(0, k)) is Err,
    ensures
        fixed_values_cells(p, list) == fixed_values_cells(p, list.subrange(0, k)),
    decreases list.len() - k,
{
    if k < list.len() {
        assert(list.drop_last().subrange(0, k) =~= list.subrange(0, k));
        lemma_fixed_error_extends(p, list.drop_last(), k);
    } else {
        assert(list.subrange(0, k) =~= list);
    }
}

/// The placement and selector of a compiled circuit can drive a replay.
pub proof fn lemma_compiled_replay_ready(c: Circuit, p: Placement, sel: StepSelector)
    requires
        single_row_placement(c, p),
        simple_selector(c, p.columns@.len() as int, sel),
    ensures
        replay_ready(p, sel),
{
    let s = p.columns@.len() as int;
    assert forall|t: int| 0 <= t < p.steps@.len() implies {
        &&& (#[trigger] p.steps@[t]).1.height >= 1
        &&& sel.selector_assignment@[t].0 == p.steps@[t].0
        &&& sel.selector_assignment@[t].1@ == seq![(Poly::Query((s + t) as usize, 0), 1u64)]
    } by {
        assert(sel.selector_expr@[t] == (c.step_types@[t].id, Poly::Query((s + t) as usize, 0)));
    }
    assert forall|t: int, j: int|
        0 <= t < p.steps@.len() && 0 <= j < p.steps@[t].1.signals@.len() implies (#[trigger] p.steps@[t].1.signals@[j]).1.column
            < s by {}
    assert forall|k: int| 0 <= k < p.forward@.len() implies (#[trigger] p.forward@[k]).1.column < s by {}
    assert forall|k: int| 0 <= k < p.shared@.len() implies (#[trigger] p.shared@[k]).1.column < s by {}
    assert forall|k: int| 0 <= k < p.halo2_advice@.len() implies (#[trigger] p.halo2_advice@[k]).1.column < s by {}
}

/// Compiles a circuit and builds its backend object. Reports an advice
/// column in a phase above two, which the backend does not offer.
#[allow(non_snake_case)]
pub fn chiquito2Halo2(circuit: &Circuit) -> (r: Result<ChiquitoHalo2, CircuitError>)
    ensures
        r is Ok ==> r->Ok_0.wf() && r->Ok_0.debug && compiled(
            *circuit,
            r->Ok_0.circuit.placement,
            r->Ok_0.circuit.selector,
            r->Ok_0.circuit,
        ) && single_row_placement(*circuit, r->Ok_0.circuit.placement),
        r is Ok ==> circuit_lowers(*circuit, r->Ok_0.circuit.placement, r->Ok_0.circuit.selector),
        r matches Err(CircuitError::InvalidPhase(ph)) ==> ph > 2 && ((exists|k: int|
            0 <= k < circuit.forward_signals@.len() && (#[trigger] circuit.forward_signals@[k]).phase == ph) || (
        exists|k: int| 0 <= k < circuit.shared_signals@.len() && (#[trigger] circuit.shared_signals@[k]).phase == ph)),
        r is Err && !(r matches Err(CircuitError::InvalidPhase(_))) ==> !fits_columns(*circuit)
            || !circuit_operands_nonempty(*circuit) || exists|
            p: Placement,
            sel: StepSelector,
        |
            single_row_placement(*circuit, p) && simple_selector(*circuit, p.columns@.len() as int, sel)
                && !circuit_lowers(*circuit, p, sel),
{
    match compile(circuit) {
        Ok(ir) => {
            proof { lemma_compiled_replay_ready(*circuit, ir.placement, ir.selector); }
            match first_bad_phase(&ir) {
                Some(ph) => {
                    proof {
                        let k = choose|k: int|
                            0 <= k < ir.columns@.len() && (#[trigger] ir.columns@[k]).ctype == ColumnType::Advice
                                && ir.columns@[k].phase == ph;
                        lemma_advice_phase_source(*circuit, ir, k);
                    }
                    Err(CircuitError::InvalidPhase(ph))
                },
                None => Ok(ChiquitoHalo2::new(ir)),
            }
        },
        Err(e) => Err(e),
    }
}

/// The phase of an advice column outside the three phases, if any.
fn first_bad_phase(c: &IrCircuit) -> (r: Option<usize>)
    ensures
        r is None <==> phases_in_range(*c),
        r matches Some(ph) ==> ph > 2 && exists|k: int|
            0 <= k < c.columns@.len() && (#[trigger] c.columns@[k]).ctype == ColumnType::Advice && c.columns@[k].phase
                == ph,
{
    let mut k: usize = 0;
    while k < c.columns.len()
        invariant
            k <= c.columns@.len(),
            forall|j: int| 0 <= j < k && (#[trigger] c.columns@[j]).ctype == ColumnType::Advice ==> c.columns@[j].phase <= 2,
        decreases c.columns@.len() - k,
    {
        if c.columns[k].ctype == ColumnType::Advice && c.columns[k].phase > 2 {
            return Some(c.columns[k].phase);
        }
        k = k + 1;
    }
    None
}

/// Under the single-row placement and simple selector, an advice column of
/// phase above zero is the column of a forward or shared signal of that phase.
proof fn lemma_advice_phase_source(c: Circuit, ir: IrCircuit, k: int)
    requires
        single_row_placement(c, ir.placement),
        simple_selector(c, ir.placement.columns@.len() as int, ir.selector),
        compiled(c, ir.placement, ir.selector, ir),
        0 <= k < ir.columns@.len(),
        ir.columns@[k].ctype == ColumnType::Advice,
        ir.columns@[k].phase > 2,
    ensures
        (exists|i: int| 0 <= i < c.forward_signals@.len() && (#[trigger] c.forward_signals@[i]).phase == ir.columns@[k].phase)
            || (exists|i: int| 0 <= i < c.shared_signals@.len() && (#[trigger] c.shared_signals@[i]).phase == ir.columns@[k].phase),
{
    let p = ir.placement;
    let sel = ir.selector;
    let pc = p.columns@.len() as int;
    let q = pc + sel.columns@.len();
    assert(ir.columns@.subrange(0, q) == p.columns@ + sel.columns@);
    if k < pc {
        assert(ir.columns@[k] == ir.columns@.subrange(0, q)[k]);
        assert(ir.columns@[k] == p.columns@[k]);
        let nf = c.forward_signals@.len() as int;
        if k < pool_base(c) {
            assert(catalog_column(c, k, p.columns@[k]));
            if k < nf {
                assert(c.forward_signals@[k].phase == ir.columns@[k].phase);
            } else {
                assert(c.shared_signals@[k - nf].phase == ir.columns@[k].phase);
            }
        } else {
            assert(p.columns@[k].phase == 0);
        }
    } else if k < q {
        assert(ir.columns@[k] == ir.columns@.subrange(0, q)[k]);
        assert(ir.columns@[k] == sel.columns@[k - pc]);
        assert(sel.selector_expr@[k - pc] == sel.selector_expr@[k - pc]);
        assert(false);
    } else {
        if k > q {
            if ir.q_first is Some && k == q + 1 {
            } else {
                assert(ir.q_last is Some);
            }
        }
        assert(false);
    }
}

impl ChiquitoHalo2 {
    /// The placement and selector of the circuit can drive a replay, every
    /// polynomial queries a column of the circuit, and every advice column
    /// is in one of the three phases the backend offers.
    pub open spec fn wf(&self) -> bool {
        &&& replay_ready(self.circuit.placement, self.circuit.selector)
        &&& queries_in_range(self.circuit)
        &&& phases_in_range(self.circuit)
    }

    pub fn new(circuit: IrCircuit) -> (r: ChiquitoHalo2)
        requires
            replay_ready(circuit.placement, circuit.selector),
            queries_in_range(circuit),
            phases_in_range(circuit),
        ensures
            r.circuit == circuit,
            r.debug,
            r.wf(),
    {
        ChiquitoHalo2 { debug: true, circuit }
    }

    /// The columns to allocate, in the order of the circuit's columns.
    pub fn configure(&self) -> (r: Halo2Config)
        requires
            self.wf(),
        ensures
            config_of(self.circuit, r),
    {
        let cols = &self.circuit.columns;
        let n = cols.len();
        let mut advice: Vec<(usize, usize)> = Vec::new();
        let mut fixed: Vec<usize> = Vec::new();
        let mut imported_advice: Vec<(usize, usize)> = Vec::new();
        let mut imported_fixed: Vec<(usize, usize)> = Vec::new();
        let mut k: usize = 0;
        while k < n
            invariant
                self.wf(),
                n == cols@.len(),
                cols == &self.circuit.columns,
                k <= n,
                advice@.len() + fixed@.len() + imported_advice@.len() + imported_fixed@.len() == k,
                forall|i: int|
                    0 <= i < imported_advice@.len() ==> (#[trigger] imported_advice@[i]).0 < k
                        && cols@[imported_advice@[i].0 as int].ctype == ColumnType::Halo2Advice(imported_advice@[i].1),
                forall|i: int, j: int|
                    0 <= i < j < imported_advice@.len() ==> (#[trigger] imported_advice@[i]).0 < (
                    #[trigger] imported_advice@[j]).0,
                forall|i: int|
                    0 <= i < imported_fixed@.len() ==> (#[trigger] imported_fixed@[i]).0 < k
                        && cols@[imported_fixed@[i].0 as int].ctype == ColumnType::Halo2Fixed(imported_fixed@[i].1),
                forall|i: int, j: int|
                    0 <= i < j < imported_fixed@.len() ==> (#[trigger] imported_fixed@[i]).0 < (
                    #[trigger] imported_fixed@[j]).0,
                forall|i: int|
                    0 <= i < advice@.len() ==> {
                        &&& (#[trigger] advice@[i]).0 < k
                        &&& cols@[advice@[i].0 as int].ctype == ColumnType::Advice
                        &&& advice@[i].1 == cols@[advice@[i].0 as int].phase
                    },
                forall|i: int, j: int| 0 <= i < j < advice@.len() ==> (#[trigger] advice@[i]).0 < (#[trigger] advice@[j]).0,
                forall|i: int| 0 <= i < fixed@.len() ==> (#[trigger] fixed@[i]) < k && cols@[fixed@[i] as int].ctype == ColumnType::Fixed,
                forall|i: int, j: int| 0 <= i < j < fixed@.len() ==> (#[trigger] fixed@[i]) < (#[trigger] fixed@[j]),
            decreases n - k,
        {
            match cols[k].ctype {
                ColumnType::Advice => {
                    advice.push((k, cols[k].phase));
                },
                ColumnType::Fixed => {
                    fixed.push(k);
                },
                ColumnType::Halo2Advice(e) => {
                    imported_advice.push((k, e));
                },
                ColumnType::Halo2Fixed(e) => {
                    imported_fixed.push((k, e));
                },
            }
            k = k + 1;
        }
        let instance = self.circuit.exposed.len() > 0;
        Halo2Config { advice, fixed, imported_advice, imported_fixed, instance }
    }

    /// The trace replays on this circuit.
    pub open spec fn replays(&self, witness: TraceWitness) -> bool {
        trace_spec(
            self.circuit.placement,
            self.circuit.selector,
            (0, None, Seq::empty(), 0),
            witness.step_instances@,
        ) is Ok
    }

    /// Whether the trace replays on this circuit, and if not, why.
    pub fn check_witness(&self, witness: &TraceWitness) -> (r: Result<(), CircuitError>)
        requires
            self.wf(),
        ensures
            match trace_spec(
                self.circuit.placement,
                self.circuit.selector,
                (0, None, Seq::empty(), 0),
                witness.step_instances@,
            ) {
                Ok(_) => r is Ok,
                Err(e) => r == Err::<(), CircuitError>(e),
            },
    {
        let mut processor = WitnessProcessor::new(&self.circuit.placement, &self.circuit.selector);
        assert(processor.state() =~= (0, None, Seq::empty(), 0));
        processor.process_checked(witness)
    }

    /// Replays the witness onto the circuit's columns and returns the
    /// assigned (column, row, value) cells and the height: the declared
    /// height when it is not zero, else one past the last row assigned.
    ///
    /// No row assigned lies at or past an inferred height, and no row holds
    /// the selector cells of two step types.
    pub fn synthesize_advice(&self, witness: &TraceWitness) -> (r: (Vec<(usize, usize, u64)>, usize))
        requires
            self.wf(),
            self.replays(*witness),
        ensures
            ({
                let asg = r.0@;
                let h = r.1;
                let s = self.circuit.placement.columns@.len();
                &&& h >= 1
                &&& witness.height > 0 ==> h == witness.height
                &&& witness.height == 0 ==> forall|i: int| 0 <= i < asg.len() ==> (#[trigger] asg[i]).1 < h
                &&& selector_rows_exclusive(asg, s as int)
            }),
            ({
                let st = trace_spec(
                    self.circuit.placement,
                    self.circuit.selector,
                    (0, None, Seq::empty(), 0),
                    witness.step_instances@,
                )->Ok_0;
                &&& r.0@ == st.2
                &&& r.1 == if witness.height > 0 {
                    witness.height as int
                } else {
                    st.3 + 1
                }
            }),
    {
        let mut processor = WitnessProcessor::new(&self.circuit.placement, &self.circuit.selector);
        assert(processor.state() =~= (0, None, Seq::empty(), 0));
        processor.process(witness);
        let height = if witness.height > 0 {
            witness.height
        } else {
            processor.max_offset + 1
        };
        (processor.assignments, height)
    }

    /// The boundary cells for a circuit of `height` rows: the row-enable
    /// column is one on every row; the first-row column, when present, is one
    /// on row zero; the last-row column, when present, is one on the last row.
    pub fn default_fixed(&self, height: usize) -> (r: Vec<(usize, usize, u64)>)
        requires
            height >= 1,
        ensures
            r@.len() == height + (if self.circuit.q_first is Some {
                1int
            } else {
                0
            }) + (if self.circuit.q_last is Some {
                1int
            } else {
                0
            }),
            forall|i: int| 0 <= i < height ==> #[trigger] r@[i] == (self.circuit.q_enable, i as usize, 1u64),
            self.circuit.q_first is Some ==> r@[height as int] == (self.circuit.q_first->Some_0, 0usize, 1u64),
            self.circuit.q_last is Some ==> r@.last() == (
                self.circuit.q_last->Some_0,
                (height - 1) as usize,
                1u64,
            ),
    {
        let mut cells: Vec<(usize, usize, u64)> = Vec::new();
        let mut i: usize = 0;
        while i < height
            invariant
                i <= height,
                cells@.len() == i,
                forall|j: int| 0 <= j < i ==> #[trigger] cells@[j] == (self.circuit.q_enable, j as usize, 1u64),
            decreases height - i,
        {
            cells.push((self.circuit.q_enable, i, 1));
            i = i + 1;
        }
        match self.circuit.q_first {
            Some(q_first) => cells.push((q_first, 0, 1)),
            None => {},
        }
        match self.circuit.q_last {
            Some(q_last) => cells.push((q_last, height - 1, 1)),
            None => {},
        }
        cells
    }

    /// The cells that hold the values of fixed signals: for each listed
    /// signal, its values row by row.
    pub fn fixed_cells(&self, assignments: &Vec<(u128, Vec<u64>)>) -> (r: Result<Vec<(usize, usize, u64)>, CircuitError>)
        ensures
            match fixed_values_cells(self.circuit.placement, assignments@) {
                Ok(cells) => r is Ok && r->Ok_0@ == cells,
                Err(e) => r == Err::<Vec<(usize, usize, u64)>, CircuitError>(e),
            },
    {
        let ghost list = assignments@;
        let p = &self.circuit.placement;
        let mut cells: Vec<(usize, usize, u64)> = Vec::new();
        let mut i: usize = 0;
        while i < assignments.len()
            invariant
                list == assignments@,
                p == &self.circuit.placement,
                i <= list.len(),
                fixed_values_cells(*p, list.subrange(0, i as int)) == Ok::<Seq<(usize, usize, u64)>, CircuitError>(cells@),
            decreases list.len() - i,
        {
            let (id, values) = (assignments[i].0, &assignments[i].1);
            let ghost cur = list.subrange(0, i + 1);
            assert(cur.drop_last() =~= list.subrange(0, i as int));
            assert(cur.last() == list[i as int]);
            let pl = match find_signal(&p.fixed, id) {
                Some(pl) => pl,
                None => {
                    proof { lemma_fixed_error_extends(*p, list, i + 1); }
                    return Err(CircuitError::SignalNotPlaced(id));
                },
            };
            if pl.rotation < 0 || values.len() > MAX_ROW + 1 - pl.rotation as usize {
                proof { lemma_fixed_error_extends(*p, list, i + 1); }
                return Err(CircuitError::RowOutOfRange);
            }
            let ghost start = cells@;
            let base = pl.rotation as usize;
            let mut r: usize = 0;
            while r < values.len()
                invariant
                    r <= values@.len(),
                    base == pl.rotation,
                    base + values@.len() <= MAX_ROW + 1,
                    cells@ == start + Seq::new(r as nat, |j: int| (pl.column, (pl.rotation + j) as usize, values@[j])),
                decreases values@.len() - r,
            {
                cells.push((pl.column, base + r, values[r]));
                r = r + 1;
                assert(cells@ =~= start + Seq::new(r as nat, |j: int| (pl.column, (pl.rotation + j) as usize, values@[j])));
            }
            i = i + 1;
        }
        assert(list.subrange(0, list.len() as int) =~= list);
        Ok(cells)
    }

    /// The cells that carry the exposed signals: for the `i`-th exposed
    /// signal, its column at the row of its rotation in the first step
    /// instance, bound to public index `i`. Fails on a negative rotation.
    pub fn exposed_cells(&self) -> (r: Result<Vec<(usize, usize, usize)>, CircuitError>)
        ensures
            r is Ok <==> forall|i: int|
                0 <= i < self.circuit.exposed@.len() ==> (#[trigger] self.circuit.exposed@[i]).1 >= 0,
            r is Ok ==> r->Ok_0@.len() == self.circuit.exposed@.len() && forall|i: int|
                0 <= i < self.circuit.exposed@.len() ==> #[trigger] r->Ok_0@[i] == (
                    self.circuit.exposed@[i].0,
                    self.circuit.exposed@[i].1 as usize,
                    i as usize,
                ),
            r is Err ==> r == Err::<Vec<(usize, usize, usize)>, CircuitError>(CircuitError::RowOutOfRange),
    {
        let exposed = &self.circuit.exposed;
        let mut cells: Vec<(usize, usize, usize)> = Vec::new();
        let mut i: usize = 0;
        while i < exposed.len()
            invariant
                exposed == &self.circuit.exposed,
                i <= exposed@.len(),
                cells@.len() == i,
                forall|j: int| 0 <= j < i ==> (#[trigger] exposed@[j]).1 >= 0,
                forall|j: int| 0 <= j < i ==> #[trigger] cells@[j] == (exposed@[j].0, exposed@[j].1 as usize, j as usize),
            decreases exposed@.len() - i,
        {
            let (column, rotation) = exposed[i];
            if rotation < 0 {
                return Err(CircuitError::RowOutOfRange);
            }
            cells.push((column, rotation as usize, i));
            i = i + 1;
        }
        Ok(cells)
    }
}

/// No row holds cells of two different columns at or past `s`, the first
/// selector column.
pub open spec fn selector_rows_exclusive(asg: Seq<(usize, usize, u64)>, s: int) -> bool {
    forall|i: int, j: int|
        0 <= i < asg.len() && 0 <= j < asg.len() && (#[trigger] asg[i]).0 >= s && (#[trigger] asg[j]).0 >= s
            && asg[i].1 == asg[j].1 ==> asg[i].0 == asg[j].0
}

/// Selector exclusivity: in a replay whose selector cells are exclusive
/// row by row, the selectors of two different step types are never both
/// set to one on the same row.
pub proof fn lemma_selector_exclusivity(
    asg: Seq<(usize, usize, u64)>,
    p: Placement,
    t1: int,
    t2: int,
    row: usize,
)
    requires
        selector_rows_exclusive(asg, p.columns@.len() as int),
        0 <= t1 < t2 || 0 <= t2 < t1,
        selector_column(p, t1) <= usize::MAX,
        selector_column(p, t2) <= usize::MAX,
    ensures
        !(asg.contains((selector_column(p, t1) as usize, row, 1u64)) && asg.contains(
            (selector_column(p, t2) as usize, row, 1u64),
        )),
{
    if asg.contains((selector_column(p, t1) as usize, row, 1u64)) && asg.contains(
        (selector_column(p, t2) as usize, row, 1u64),
    ) {
        let i = choose|i: int| 0 <= i < asg.len() && asg[i] == (selector_column(p, t1) as usize, row, 1u64);
        let j = choose|j: int| 0 <= j < asg.len() && asg[j] == (selector_column(p, t2) as usize, row, 1u64);
        assert(asg[i].0 == asg[j].0);
    }
}

/// Rotation algebra in replay: inside an instance of the step type at
/// position `t`, based at row `offset`, a shared signal read at rotation `r`
/// is written at `offset + base + r * h`, and a forward signal read at the
/// next step at `offset + base + h`, where `h` is the step type's height and
/// `base` the signal's placed rotation.
pub proof fn lemma_replay_rotation(
    p: Placement,
    sel: StepSelector,
    offset: int,
    t: usize,
    shared: SharedSignal,
    r: i32,
    shared_at: SignalPlacement,
    forward: ForwardSignal,
    forward_at: SignalPlacement,
)
    requires
        t < p.steps@.len(),
    ensures
        ({
            let h = p.steps@[t as int].1.height;
            let rot = shared_at.rotation + r * h;
            lookup(p.shared@, shared.id) == Some(shared_at) && i32::MIN <= rot <= i32::MAX && 0 <= offset
                + rot <= MAX_ROW ==> assign_target(p, sel, offset, Some(t), Queriable::Shared(shared, r))
                == Ok::<(usize, int), CircuitError>((shared_at.column, offset + shared_at.rotation + r * h))
        }),
        ({
            let h = p.steps@[t as int].1.height;
            let rot = forward_at.rotation + h;
            lookup(p.forward@, forward.id) == Some(forward_at) && rot <= i32::MAX && 0 <= offset + rot
                <= MAX_ROW ==> assign_target(p, sel, offset, Some(t), Queriable::Forward(forward, true))
                == Ok::<(usize, int), CircuitError>((forward_at.column, offset + forward_at.rotation + h))
        }),
{
}

/// The catalog and identifier of a query that reads a signal where it is
/// placed: an internal signal, a forward signal at the current step, a
/// shared signal or imported advice column at rotation zero.
pub open spec fn plain_query(q: Queriable) -> Option<(SignalKind, u128)> {
    match q {
        Queriable::Internal(s) => Some((SignalKind::Internal, s.id)),
        Queriable::Forward(s, false) => Some((SignalKind::Forward, s.id)),
        Queriable::Shared(s, 0) => Some((SignalKind::Shared, s.id)),
        Queriable::Halo2AdviceQuery(c, 0) => Some((SignalKind::Halo2Advice, c.id)),
        _ => None,
    }
}

/// Within one step instance of a circuit under the single-row placement,
/// two assignments to different signals write different cells.
pub proof fn lemma_instance_cells_distinct(
    c: Circuit,
    p: Placement,
    sel: StepSelector,
    offset: int,
    t: usize,
    q1: Queriable,
    q2: Queriable,
)
    requires
        single_row_placement(c, p),
        t < c.step_types@.len(),
        plain_query(q1) is Some,
        plain_query(q2) is Some,
        plain_query(q1) != plain_query(q2),
        assign_target(p, sel, offset, Some(t), q1) is Ok,
        assign_target(p, sel, offset, Some(t), q2) is Ok,
    ensures
        assign_target(p, sel, offset, Some(t), q1) != assign_target(p, sel, offset, Some(t), q2),
{
    let (k1, id1) = plain_query(q1)->Some_0;
    let (k2, id2) = plain_query(q2)->Some_0;
    let sp = p.steps@[t as int].1;
    assert(placed(p, t as int, k1, id1) is Some);
    assert(placed(p, t as int, k2, id2) is Some);
    lemma_placement_injective(c, p, t as int, k1, id1, k2, id2);
    let a = placed(p, t as int, k1, id1)->Some_0;
    let b = placed(p, t as int, k2, id2)->Some_0;
    assert(resolve(q1, p, sel, sp) == Ok::<SignalPlacement, CircuitError>(a));
    assert(resolve(q2, p, sel, sp) == Ok::<SignalPlacement, CircuitError>(b));
}

} // verus!
