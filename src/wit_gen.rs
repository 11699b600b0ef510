//! Recorded execution traces.
use vstd::prelude::*;

use crate::ast::query::Queriable;
use crate::ast::{find_step_type, is_first_step, Circuit, StepType};
use crate::cell_manager::{find_key, lookup};
use crate::error::CircuitError;

verus! {

/// One instance of a step type in a trace, with the value of each signal it
/// assigns.
#[derive(Debug)]
pub struct StepInstance {
    pub step_type_uuid: u128,
    pub assignments: Vec<(Queriable, u64)>,
}

/// A trace: its step instances in order, and its height (zero means that the
/// height follows from the rows the trace uses).
#[derive(Debug)]
pub struct TraceWitness {
    pub step_instances: Vec<StepInstance>,
    pub height: usize,
}

/// The values of one step instance, keyed by signal identifier.
#[derive(Debug)]
pub struct SignalValues {
    pub step_type_uuid: u128,
    pub assignments: Vec<(u128, u64)>,
}

/// The queries by which a step type can assign signals, keyed by identifier:
/// its internal signals, then the forward signals at the current step, the
/// shared signals at rotation zero and the fixed signals at rotation zero.
pub open spec fn query_entries(c: Circuit, st: StepType) -> Seq<(u128, Queriable)> {
    Seq::new(st.signals@.len(), |i: int| (st.signals@[i].id, Queriable::Internal(st.signals@[i])))
        + Seq::new(
        c.forward_signals@.len(),
        |i: int| (c.forward_signals@[i].id, Queriable::Forward(c.forward_signals@[i], false)),
    ) + Seq::new(
        c.shared_signals@.len(),
        |i: int| (c.shared_signals@[i].id, Queriable::Shared(c.shared_signals@[i], 0)),
    ) + Seq::new(
        c.fixed_signals@.len(),
        |i: int| (c.fixed_signals@[i].id, Queriable::Fixed(c.fixed_signals@[i], 0)),
    )
}

fn build_query_entries(c: &Circuit, st: &StepType) -> (r: Vec<(u128, Queriable)>)
    ensures
        r@ == query_entries(*c, *st),
{
    let mut out: Vec<(u128, Queriable)> = Vec::new();
    let mut i: usize = 0;
    while i < st.signals.len()
        invariant
            i <= st.signals@.len(),
            out@ == Seq::new(i as nat, |j: int| (st.signals@[j].id, Queriable::Internal(st.signals@[j]))),
        decreases st.signals@.len() - i,
    {
        let s = st.signals[i].duplicate();
        out.push((s.id, Queriable::Internal(s)));
        i = i + 1;
        assert(out@ =~= Seq::new(i as nat, |j: int| (st.signals@[j].id, Queriable::Internal(st.signals@[j]))));
    }
    let ghost a = out@;
    let mut i: usize = 0;
    while i < c.forward_signals.len()
        invariant
            i <= c.forward_signals@.len(),
            out@ == a + Seq::new(
                i as nat,
                |j: int| (c.forward_signals@[j].id, Queriable::Forward(c.forward_signals@[j], false)),
            ),
        decreases c.forward_signals@.len() - i,
    {
        let s = c.forward_signals[i].duplicate();
        out.push((s.id, Queriable::Forward(s, false)));
        i = i + 1;
        assert(out@ =~= a + Seq::new(
            i as nat,
            |j: int| (c.forward_signals@[j].id, Queriable::Forward(c.forward_signals@[j], false)),
        ));
    }
    let ghost b = out@;
    let mut i: usize = 0;
    while i < c.shared_signals.len()
        invariant
            i <= c.shared_signals@.len(),
            out@ == b + Seq::new(
                i as nat,
                |j: int| (c.shared_signals@[j].id, Queriable::Shared(c.shared_signals@[j], 0)),
            ),
        decreases c.shared_signals@.len() - i,
    {
        let s = c.shared_signals[i].duplicate();
        out.push((s.id, Queriable::Shared(s, 0)));
        i = i + 1;
        assert(out@ =~= b + Seq::new(
            i as nat,
            |j: int| (c.shared_signals@[j].id, Queriable::Shared(c.shared_signals@[j], 0)),
        ));
    }
    let ghost d = out@;
    let mut i: usize = 0;
    while i < c.fixed_signals.len()
        invariant
            i <= c.fixed_signals@.len(),
            out@ == d + Seq::new(
                i as nat,
                |j: int| (c.fixed_signals@[j].id, Queriable::Fixed(c.fixed_signals@[j], 0)),
            ),
        decreases c.fixed_signals@.len() - i,
    {
        let s = c.fixed_signals[i].duplicate();
        out.push((s.id, Queriable::Fixed(s, 0)));
        i = i + 1;
        assert(out@ =~= d + Seq::new(
            i as nat,
            |j: int| (c.fixed_signals@[j].id, Queriable::Fixed(c.fixed_signals@[j], 0)),
        ));
    }
    assert(out@ =~= query_entries(*c, *st));
    out
}

/// The step instance of `values`: each identifier becomes the query of
/// `query_entries` that it is found under first.
pub open spec fn instance_of(c: Circuit, st: StepType, values: SignalValues, inst: StepInstance) -> bool {
    &&& inst.step_type_uuid == values.step_type_uuid
    &&& inst.assignments@.len() == values.assignments@.len()
    &&& forall|k: int|
        0 <= k < values.assignments@.len() ==> lookup(query_entries(c, st), (#[trigger] values.assignments@[k]).0)
            == Some(inst.assignments@[k].0) && inst.assignments@[k].1 == values.assignments@[k].1
}

/// The position of the first step type registered under `id`.
pub open spec fn first_step_of(c: Circuit, id: u128) -> int {
    choose|t: int| is_first_step(c.step_types@, id, t)
}

/// The values of `values` became `inst`, in the step type they name.
pub open spec fn converted(c: Circuit, values: SignalValues, inst: StepInstance) -> bool {
    let t = first_step_of(c, values.step_type_uuid);
    is_first_step(c.step_types@, values.step_type_uuid, t) && instance_of(c, c.step_types@[t], values, inst)
}

/// Turns values keyed by signal identifier into a trace. Fails on a step
/// type that the circuit lacks, and on an identifier that names no signal
/// the step type can assign.
pub fn to_trace_witness(c: &Circuit, instances: &Vec<SignalValues>, height: usize) -> (r: Result<TraceWitness, CircuitError>)
    ensures
        r is Ok ==> {
            let w = r->Ok_0;
            &&& w.height == height
            &&& w.step_instances@.len() == instances@.len()
            &&& forall|i: int|
                0 <= i < instances@.len() ==> converted(*c, #[trigger] instances@[i], w.step_instances@[i])
        },
        r matches Err(CircuitError::StepTypeNotFound(id)) ==> exists|i: int|
            0 <= i < instances@.len() && (#[trigger] instances@[i]).step_type_uuid == id && forall|j: int|
                0 <= j < c.step_types@.len() ==> c.step_types@[j].id != id,
        r matches Err(CircuitError::SignalNotPlaced(id)) ==> exists|i: int, t: int, k: int|
            0 <= i < instances@.len() && #[trigger] is_first_step(c.step_types@, instances@[i].step_type_uuid, t)
                && 0 <= k < instances@[i].assignments@.len() && #[trigger] instances@[i].assignments@[k].0 == id
                && lookup(query_entries(*c, c.step_types@[t]), id) is None,
        r is Err ==> r matches Err(CircuitError::StepTypeNotFound(_)) || r matches Err(CircuitError::SignalNotPlaced(_)),
{
    let mut out: Vec<StepInstance> = Vec::new();
    let mut i: usize = 0;
    while i < instances.len()
        invariant
            i <= instances@.len(),
            out@.len() == i,
            forall|j: int|
                0 <= j < i ==> converted(*c, #[trigger] instances@[j], out@[j]),
        decreases instances@.len() - i,
    {
        let values = &instances[i];
        let t = match find_step_type(&c.step_types, values.step_type_uuid) {
            Some(t) => t,
            None => { return Err(CircuitError::StepTypeNotFound(values.step_type_uuid)); },
        };
        let entries = build_query_entries(c, &c.step_types[t]);
        let mut assignments: Vec<(Queriable, u64)> = Vec::new();
        let mut k: usize = 0;
        while k < values.assignments.len()
            invariant
                i < instances@.len(),
                *values == instances@[i as int],
                is_first_step(c.step_types@, values.step_type_uuid, t as int),
                out@.len() == i,
                forall|j: int|
                    0 <= j < i ==> converted(*c, #[trigger] instances@[j], out@[j]),
                entries@ == query_entries(*c, c.step_types@[t as int]),
                k <= values.assignments@.len(),
                assignments@.len() == k,
                forall|m: int|
                    0 <= m < k ==> lookup(entries@, (#[trigger] values.assignments@[m]).0) == Some(assignments@[m].0)
                        && assignments@[m].1 == values.assignments@[m].1,
            decreases values.assignments@.len() - k,
        {
            let (id, v) = values.assignments[k];
            match find_key(&entries, id) {
                Some(e) => assignments.push((entries[e].1.duplicate(), v)),
                None => {
                    assert(instances@[i as int].assignments@[k as int].0 == id);
                    assert(is_first_step(c.step_types@, instances@[i as int].step_type_uuid, t as int));
                    return Err(CircuitError::SignalNotPlaced(id));
                },
            }
            k = k + 1;
        }
        let inst = StepInstance { step_type_uuid: values.step_type_uuid, assignments };
        proof {
            let f = first_step_of(*c, values.step_type_uuid);
            assert(is_first_step(c.step_types@, values.step_type_uuid, f));
            if f < t {
                assert(c.step_types@[f].id != values.step_type_uuid);
            } else if t < f {
                assert(c.step_types@[t as int].id != values.step_type_uuid);
            }
            assert(f == t);
        }
        assert(converted(*c, instances@[i as int], inst));
        let ghost before = out@;
        out.push(inst);
        proof {
            assert forall|j: int| 0 <= j < i + 1 implies converted(*c, #[trigger] instances@[j], out@[j]) by {
                if j < i {
                    assert(before[j] == out@[j]);
                }
            }
        }
        i = i + 1;
    }
    Ok(TraceWitness { step_instances: out, height })
}

} // verus!
