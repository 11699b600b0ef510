//! The step-based circuit description: signals, step types, constraints,
//! lookups and the circuit that holds them.
pub mod expr;
pub mod query;

use vstd::prelude::*;

use vstd::string::StringExecFns;

use crate::ast::expr::{expr_text, exprs_view, lemma_exprs_view, Expr, ExprV};
use crate::dsl::StepTypeHandler;
use crate::util::UuidGen;

verus! {

/// A signal that persists from one step instance to the next.
#[derive(Clone, Debug)]
pub struct ForwardSignal {
    pub id: u128,
    pub phase: usize,
    pub annotation: String,
}

impl ForwardSignal {
    /// A forward signal with a fresh identifier.
    pub fn new_with_phase(ids: &mut UuidGen, phase: usize, annotation: String) -> (r: ForwardSignal)
        requires
            old(ids).next < u128::MAX,
        ensures
            r == (ForwardSignal { id: old(ids).next, phase, annotation }),
            final(ids).next == old(ids).next + 1,
    {
        let id = ids.fresh();
        ForwardSignal { id, phase, annotation }
    }

    pub fn uuid(&self) -> (r: u128)
        ensures
            r == self.id,
    {
        self.id
    }

    pub fn phase(&self) -> (r: usize)
        ensures
            r == self.phase,
    {
        self.phase
    }

    /// A copy of this signal, equal to it.
    pub fn duplicate(&self) -> (r: ForwardSignal)
        ensures
            r == *self,
    {
        ForwardSignal { id: self.id, phase: self.phase, annotation: self.annotation.clone() }
    }
}

/// A signal like a forward signal, read at a rotation counted in step instances.
#[derive(Clone, Debug)]
pub struct SharedSignal {
    pub id: u128,
    pub phase: usize,
    pub annotation: String,
}

impl SharedSignal {
    /// A shared signal with a fresh identifier.
    pub fn new_with_phase(ids: &mut UuidGen, phase: usize, annotation: String) -> (r: SharedSignal)
        requires
            old(ids).next < u128::MAX,
        ensures
            r == (SharedSignal { id: old(ids).next, phase, annotation }),
            final(ids).next == old(ids).next + 1,
    {
        let id = ids.fresh();
        SharedSignal { id, phase, annotation }
    }

    pub fn uuid(&self) -> (r: u128)
        ensures
            r == self.id,
    {
        self.id
    }

    pub fn phase(&self) -> (r: usize)
        ensures
            r == self.phase,
    {
        self.phase
    }

    /// A copy of this signal, equal to it.
    pub fn duplicate(&self) -> (r: SharedSignal)
        ensures
            r == *self,
    {
        SharedSignal { id: self.id, phase: self.phase, annotation: self.annotation.clone() }
    }
}

/// A signal whose values are fixed by the circuit author, row by row.
#[derive(Clone, Debug)]
pub struct FixedSignal {
    pub id: u128,
    pub annotation: String,
}

impl FixedSignal {
    /// A fixed signal with a fresh identifier.
    pub fn new(ids: &mut UuidGen, annotation: String) -> (r: FixedSignal)
        requires
            old(ids).next < u128::MAX,
        ensures
            r == (FixedSignal { id: old(ids).next, annotation }),
            final(ids).next == old(ids).next + 1,
    {
        let id = ids.fresh();
        FixedSignal { id, annotation }
    }

    pub fn uuid(&self) -> (r: u128)
        ensures
            r == self.id,
    {
        self.id
    }

    /// A copy of this signal, equal to it.
    pub fn duplicate(&self) -> (r: FixedSignal)
        ensures
            r == *self,
    {
        FixedSignal { id: self.id, annotation: self.annotation.clone() }
    }
}

/// A signal that belongs to one step type.
#[derive(Clone, Debug)]
pub struct InternalSignal {
    pub id: u128,
    pub annotation: String,
}

impl InternalSignal {
    /// An internal signal with a fresh identifier.
    pub fn new(ids: &mut UuidGen, annotation: String) -> (r: InternalSignal)
        requires
            old(ids).next < u128::MAX,
        ensures
            r == (InternalSignal { id: old(ids).next, annotation }),
            final(ids).next == old(ids).next + 1,
    {
        let id = ids.fresh();
        InternalSignal { id, annotation }
    }

    pub fn uuid(&self) -> (r: u128)
        ensures
            r == self.id,
    {
        self.id
    }

    /// A copy of this signal, equal to it.
    pub fn duplicate(&self) -> (r: InternalSignal)
        ensures
            r == *self,
    {
        InternalSignal { id: self.id, annotation: self.annotation.clone() }
    }
}

/// A column owned by the surrounding system and imported into the circuit
/// under an identifier; `column` is that column's index in the backend.
#[derive(Clone, Debug)]
pub struct ImportedHalo2Column {
    pub id: u128,
    pub column: usize,
    pub annotation: String,
}

/// An imported advice column.
pub type ImportedHalo2Advice = ImportedHalo2Column;

/// An imported fixed column.
pub type ImportedHalo2Fixed = ImportedHalo2Column;

impl ImportedHalo2Column {
    /// An import of the backend column `column` with a fresh identifier.
    pub fn new(ids: &mut UuidGen, column: usize, annotation: String) -> (r: ImportedHalo2Column)
        requires
            old(ids).next < u128::MAX,
        ensures
            r == (ImportedHalo2Column { id: old(ids).next, column, annotation }),
            final(ids).next == old(ids).next + 1,
    {
        let id = ids.fresh();
        ImportedHalo2Column { id, column, annotation }
    }

    pub fn uuid(&self) -> (r: u128)
        ensures
            r == self.id,
    {
        self.id
    }

    /// A copy of this import, equal to it.
    pub fn duplicate(&self) -> (r: ImportedHalo2Column)
        ensures
            r == *self,
    {
        ImportedHalo2Column { id: self.id, column: self.column, annotation: self.annotation.clone() }
    }
}

} // verus!

verus! {

/// An annotated expression that must vanish on every row where it applies.
#[derive(Debug)]
pub struct Constraint {
    pub annotation: String,
    pub expr: Expr,
}

/// A constraint that relates the current step instance to the next one.
#[derive(Debug)]
pub struct TransitionConstraint {
    pub annotation: String,
    pub expr: Expr,
}

/// The texts that [`Lookup::add`] appends to a lookup's annotation.
pub open spec fn match_text(annotation: Seq<char>, target: ExprV) -> Seq<char> {
    seq!['m', 'a', 't', 'c', 'h', '('] + annotation + seq![' ', '=', '>', ' '] + expr_text(target)
        + seq![')', ' ']
}

/// What [`Lookup::enable`] puts in front of a lookup's annotation.
pub open spec fn enable_text(annotation: Seq<char>) -> Seq<char> {
    seq!['i', 'f', ' '] + annotation + seq![',', ' ']
}

/// `enable * e`, as an expression.
pub open spec fn enabled(enable: ExprV, e: ExprV) -> ExprV {
    ExprV::Mul(seq![enable, e])
}

/// `after` is `before` with the pair (`constraint`, `target`) added: when
/// an enable expression is set, the new constraint side is multiplied by it.
pub open spec fn added(before: Lookup, after: Lookup, annotation: String, constraint: Expr, target: Expr) -> bool {
    &&& after.enable == before.enable
    &&& after.annotation@ == before.annotation@ + match_text(annotation@, target@)
    &&& after.exprs@.len() == before.exprs@.len() + 1
    &&& after.exprs@.subrange(0, before.exprs@.len() as int) == before.exprs@
    &&& after.exprs@.last().0.annotation == annotation
    &&& after.exprs@.last().1 == target
    &&& before.enable is None ==> after.exprs@.last().0.expr == constraint
    &&& before.enable is Some ==> after.exprs@.last().0.expr@ == enabled(before.enable->Some_0.expr@, constraint@)
}

/// `after` is `before`, which has no enable expression, with the enable
/// expression set and the constraint side of every pair multiplied by it.
pub open spec fn enabled_by(before: Lookup, after: Lookup, annotation: String, enable: Expr) -> bool {
    &&& after.enable == Some(Constraint { annotation, expr: enable })
    &&& after.annotation@ == enable_text(annotation@) + before.annotation@
    &&& after.exprs@.len() == before.exprs@.len()
    &&& forall|i: int|
        0 <= i < before.exprs@.len() ==> {
            &&& (#[trigger] after.exprs@[i]).1 == before.exprs@[i].1
            &&& after.exprs@[i].0.annotation == before.exprs@[i].0.annotation
            &&& after.exprs@[i].0.expr@ == enabled(enable@, before.exprs@[i].0.expr@)
        }
}

/// Lookup enable: once the enable expression `en` is set on a lookup that
/// had none, the constraint side of every pair, present then or added later,
/// is `en` times the authored constraint, and the lookup has an enable
/// expression, so that `enable` does not admit a second call.
pub proof fn lemma_enable_law(
    l0: Lookup,
    l1: Lookup,
    l2: Lookup,
    en_annotation: String,
    en: Expr,
    annotation: String,
    constraint: Expr,
    target: Expr,
)
    requires
        l0.enable is None,
        enabled_by(l0, l1, en_annotation, en),
        added(l1, l2, annotation, constraint, target),
    ensures
        l2.exprs@.len() == l0.exprs@.len() + 1,
        forall|i: int|
            0 <= i < l0.exprs@.len() ==> (#[trigger] l2.exprs@[i]).0.expr@ == enabled(en@, l0.exprs@[i].0.expr@),
        l2.exprs@.last().0.expr@ == enabled(en@, constraint@),
        l2.enable is Some,
{
    assert forall|i: int| 0 <= i < l0.exprs@.len() implies (#[trigger] l2.exprs@[i]).0.expr@ == enabled(
        en@,
        l0.exprs@[i].0.expr@,
    ) by {
        assert(l2.exprs@.subrange(0, l1.exprs@.len() as int)[i] == l1.exprs@[i]);
    }
}

/// A set of (constraint, target) pairs, with an optional enable expression
/// that multiplies the constraint side of every pair.
#[derive(Debug)]
pub struct Lookup {
    pub annotation: String,
    pub exprs: Vec<(Constraint, Expr)>,
    pub enable: Option<Constraint>,
}

impl Default for Lookup {
    fn default() -> (r: Lookup)
        ensures
            r.annotation@ == Seq::<char>::empty(),
            r.exprs@.len() == 0,
            r.enable is None,
    {
        Lookup::new()
    }
}

impl Lookup {
    /// A lookup without pairs and without enable expression.
    pub fn new() -> (r: Lookup)
        ensures
            r.annotation@ == Seq::<char>::empty(),
            r.exprs@.len() == 0,
            r.enable is None,
    {
        Lookup { annotation: String::new(), exprs: Vec::new(), enable: None }
    }

    /// Adds the pair (`constraint_expr`, `expression`). When an enable
    /// expression is set, the constraint side is multiplied by it.
    pub fn add(&mut self, constraint_annotation: String, constraint_expr: Expr, expression: Expr)
        ensures
            added(*old(self), *final(self), constraint_annotation, constraint_expr, expression),
    {
        proof { reveal_strlit("match("); reveal_strlit(" => "); reveal_strlit(") "); }
        let text = expression.text();
        self.annotation.append("match(");
        self.annotation.append(constraint_annotation.as_str());
        self.annotation.append(" => ");
        self.annotation.append(text.as_str());
        self.annotation.append(") ");
        assert(" => "@ =~= seq![' ', '=', '>', ' ']);
        assert(self.annotation@ =~= old(self).annotation@ + match_text(
            constraint_annotation@,
            expression@,
        ));
        let constraint = Constraint { annotation: constraint_annotation, expr: constraint_expr };
        let ghost before = self.exprs@;
        match &self.enable {
            None => {
                self.exprs.push((constraint, expression));
            },
            Some(enable) => {
                let c = Self::multiply_constraints(enable, constraint);
                self.exprs.push((c, expression));
            },
        }
        assert(self.exprs@.subrange(0, before.len() as int) =~= before);
    }

    /// Sets the enable expression and multiplies the constraint side of every
    /// pair added so far by it. Setting it a second time is an authoring
    /// error that callers must not make.
    pub fn enable(&mut self, enable_annotation: String, enable_expr: Expr)
        requires
            old(self).enable is None,
        ensures
            enabled_by(*old(self), *final(self), enable_annotation, enable_expr),
    {
        let label = enable_annotation.clone();
        let enable = Constraint { annotation: enable_annotation, expr: enable_expr };
        let mut rest: Vec<(Constraint, Expr)> = Vec::new();
        std::mem::swap(&mut rest, &mut self.exprs);
        let ghost orig = rest@;
        let mut done: Vec<(Constraint, Expr)> = Vec::new();
        while rest.len() > 0
            invariant
                done@.len() + rest@.len() == orig.len(),
                rest@ == orig.subrange(done@.len() as int, orig.len() as int),
                forall|i: int|
                    0 <= i < done@.len() ==> {
                        &&& (#[trigger] done@[i]).1 == orig[i].1
                        &&& done@[i].0.annotation == orig[i].0.annotation
                        &&& done@[i].0.expr@ == enabled(enable.expr@, orig[i].0.expr@)
                    },
            decreases rest@.len(),
        {
            let (c, e) = rest.remove(0);
            let c2 = Self::multiply_constraints(&enable, c);
            done.push((c2, e));
            assert(rest@ =~= orig.subrange(done@.len() as int, orig.len() as int));
        }
        self.exprs = done;
        self.enable = Some(enable);
        proof { reveal_strlit("if "); reveal_strlit(", "); }
        let mut annotation = String::from_str("if ");
        annotation.append(label.as_str());
        annotation.append(", ");
        annotation.append(self.annotation.as_str());
        assert(annotation@ =~= enable_text(label@) + old(self).annotation@);
        self.annotation = annotation;
    }

    /// `enable * constraint`, keeping the constraint's annotation.
    fn multiply_constraints(enable: &Constraint, constraint: Constraint) -> (r: Constraint)
        ensures
            r.annotation == constraint.annotation,
            r.expr@ == enabled(enable.expr@, constraint.expr@),
    {
        let ghost ce = constraint.expr;
        let factors = vec![enable.expr.duplicate(), constraint.expr];
        proof {
            lemma_exprs_view(factors@);
            assert(exprs_view(factors@) =~= seq![enable.expr@, ce@]);
        }
        Constraint { annotation: constraint.annotation, expr: Expr::Mul(factors) }
    }
}

} // verus!

verus! {

/// A step type: its internal signals, constraints, transition constraints
/// and lookups. Two step types are equal when their identifiers are.
#[derive(Debug)]
pub struct StepType {
    pub id: u128,
    pub name: String,
    pub signals: Vec<InternalSignal>,
    pub constraints: Vec<Constraint>,
    pub transition_constraints: Vec<TransitionConstraint>,
    pub lookups: Vec<Lookup>,
    pub annotations: Vec<(u128, String)>,
}

impl StepType {
    /// An empty step type.
    pub fn new(uuid: u128, name: String) -> (r: StepType)
        ensures
            r.id == uuid,
            r.name == name,
            r.signals@.len() == 0,
            r.constraints@.len() == 0,
            r.transition_constraints@.len() == 0,
            r.lookups@.len() == 0,
            r.annotations@.len() == 0,
    {
        StepType {
            id: uuid,
            name,
            signals: Vec::new(),
            constraints: Vec::new(),
            transition_constraints: Vec::new(),
            lookups: Vec::new(),
            annotations: Vec::new(),
        }
    }

    pub fn uuid(&self) -> (r: u128)
        ensures
            r == self.id,
    {
        self.id
    }

    /// Adds an internal signal with a fresh identifier and records its name.
    pub fn add_signal(&mut self, ids: &mut UuidGen, name: String) -> (r: InternalSignal)
        requires
            old(ids).next < u128::MAX,
        ensures
            r == (InternalSignal { id: old(ids).next, annotation: name }),
            final(ids).next == old(ids).next + 1,
            final(self).signals@ == old(self).signals@.push(r),
            final(self).annotations@ == old(self).annotations@.push((r.id, name)),
            final(self).id == old(self).id,
            final(self).name == old(self).name,
            final(self).constraints == old(self).constraints,
            final(self).transition_constraints == old(self).transition_constraints,
            final(self).lookups == old(self).lookups,
    {
        let signal = InternalSignal::new(ids, name.clone());
        self.signals.push(signal.duplicate());
        self.annotations.push((signal.id, name));
        signal
    }

    /// Adds a constraint.
    pub fn add_constr(&mut self, annotation: String, expr: Expr)
        ensures
            final(self).constraints@ == old(self).constraints@.push(
                Constraint { annotation, expr },
            ),
            final(self).id == old(self).id,
            final(self).name == old(self).name,
            final(self).signals == old(self).signals,
            final(self).transition_constraints == old(self).transition_constraints,
            final(self).lookups == old(self).lookups,
            final(self).annotations == old(self).annotations,
    {
        let condition = Constraint { annotation, expr };
        self.constraints.push(condition)
    }

    /// Adds a transition constraint.
    pub fn add_transition(&mut self, annotation: String, expr: Expr)
        ensures
            final(self).transition_constraints@ == old(self).transition_constraints@.push(
                TransitionConstraint { annotation, expr },
            ),
            final(self).id == old(self).id,
            final(self).name == old(self).name,
            final(self).signals == old(self).signals,
            final(self).constraints == old(self).constraints,
            final(self).lookups == old(self).lookups,
            final(self).annotations == old(self).annotations,
    {
        let condition = TransitionConstraint { annotation, expr };
        self.transition_constraints.push(condition)
    }
}

impl PartialEq for StepType {
    fn eq(&self, other: &StepType) -> (r: bool) {
        self.id == other.id
    }
}

impl vstd::std_specs::cmp::PartialEqSpecImpl for StepType {
    open spec fn obeys_eq_spec() -> bool {
        true
    }

    open spec fn eq_spec(&self, other: &StepType) -> bool {
        self.id == other.id
    }
}

/// `i` is the first position of `steps` that holds a step type with identifier `id`.
pub open spec fn is_first_step(steps: Seq<StepType>, id: u128, i: int) -> bool {
    &&& 0 <= i < steps.len()
    &&& steps[i].id == id
    &&& forall|j: int| 0 <= j < i ==> steps[j].id != id
}

/// The position of the first step type with identifier `id`, if any.
pub fn find_step_type(steps: &Vec<StepType>, id: u128) -> (r: Option<usize>)
    ensures
        match r {
            Some(i) => is_first_step(steps@, id, i as int),
            None => forall|j: int| 0 <= j < steps@.len() ==> steps@[j].id != id,
        },
{
    let mut i: usize = 0;
    while i < steps.len()
        invariant
            i <= steps@.len(),
            forall|j: int| 0 <= j < i ==> steps@[j].id != id,
        decreases steps@.len() - i,
    {
        if steps[i].id == id {
            return Some(i);
        }
        i = i + 1;
    }
    None
}

/// The circuit: its step types, signal catalogs, exposed signals and the
/// markers for the first and last step.
#[derive(Debug)]
pub struct Circuit {
    pub step_types: Vec<StepType>,
    pub forward_signals: Vec<ForwardSignal>,
    pub shared_signals: Vec<SharedSignal>,
    pub fixed_signals: Vec<FixedSignal>,
    pub halo2_advice: Vec<ImportedHalo2Advice>,
    pub halo2_fixed: Vec<ImportedHalo2Fixed>,
    pub exposed: Vec<ForwardSignal>,
    pub annotations: Vec<(u128, String)>,
    pub first_step: Option<u128>,
    pub last_step: Option<u128>,
    /// The number of step instances; zero means that the trace decides.
    pub num_steps: usize,
    pub id: u128,
}

impl Default for Circuit {
    fn default() -> (r: Circuit)
        ensures
            r.step_types@.len() == 0,
            r.forward_signals@.len() == 0,
            r.shared_signals@.len() == 0,
            r.fixed_signals@.len() == 0,
            r.halo2_advice@.len() == 0,
            r.halo2_fixed@.len() == 0,
            r.exposed@.len() == 0,
            r.annotations@.len() == 0,
            r.first_step is None,
            r.last_step is None,
            r.num_steps == 0,
            r.id == 0,
    {
        Circuit {
            step_types: Vec::new(),
            forward_signals: Vec::new(),
            shared_signals: Vec::new(),
            fixed_signals: Vec::new(),
            halo2_advice: Vec::new(),
            halo2_fixed: Vec::new(),
            exposed: Vec::new(),
            annotations: Vec::new(),
            first_step: None,
            last_step: None,
            num_steps: 0,
            id: 0,
        }
    }
}

impl Circuit {
    /// Adds a forward signal with a fresh identifier and records its name.
    pub fn add_forward(&mut self, ids: &mut UuidGen, name: String, phase: usize) -> (r: ForwardSignal)
        requires
            old(ids).next < u128::MAX,
        ensures
            r == (ForwardSignal { id: old(ids).next, phase, annotation: name }),
            final(ids).next == old(ids).next + 1,
            final(self).forward_signals@ == old(self).forward_signals@.push(r),
            final(self).annotations@ == old(self).annotations@.push((r.id, name)),
            final(self).step_types == old(self).step_types,
            final(self).shared_signals == old(self).shared_signals,
            final(self).fixed_signals == old(self).fixed_signals,
            final(self).halo2_advice == old(self).halo2_advice,
            final(self).halo2_fixed == old(self).halo2_fixed,
            final(self).exposed == old(self).exposed,
            final(self).first_step == old(self).first_step,
            final(self).last_step == old(self).last_step,
            final(self).num_steps == old(self).num_steps,
            final(self).id == old(self).id,
    {
        let signal = ForwardSignal::new_with_phase(ids, phase, name.clone());
        self.forward_signals.push(signal.duplicate());
        self.annotations.push((signal.id, name));
        signal
    }

    /// Adds a shared signal with a fresh identifier and records its name.
    pub fn add_shared(&mut self, ids: &mut UuidGen, name: String, phase: usize) -> (r: SharedSignal)
        requires
            old(ids).next < u128::MAX,
        ensures
            r == (SharedSignal { id: old(ids).next, phase, annotation: name }),
            final(ids).next == old(ids).next + 1,
            final(self).shared_signals@ == old(self).shared_signals@.push(r),
            final(self).annotations@ == old(self).annotations@.push((r.id, name)),
            final(self).step_types == old(self).step_types,
            final(self).forward_signals == old(self).forward_signals,
            final(self).fixed_signals == old(self).fixed_signals,
            final(self).halo2_advice == old(self).halo2_advice,
            final(self).halo2_fixed == old(self).halo2_fixed,
            final(self).exposed == old(self).exposed,
            final(self).first_step == old(self).first_step,
            final(self).last_step == old(self).last_step,
            final(self).num_steps == old(self).num_steps,
            final(self).id == old(self).id,
    {
        let signal = SharedSignal::new_with_phase(ids, phase, name.clone());
        self.shared_signals.push(signal.duplicate());
        self.annotations.push((signal.id, name));
        signal
    }

    /// Adds a fixed signal with a fresh identifier and records its name.
    pub fn add_fixed(&mut self, ids: &mut UuidGen, name: String) -> (r: FixedSignal)
        requires
            old(ids).next < u128::MAX,
        ensures
            r == (FixedSignal { id: old(ids).next, annotation: name }),
            final(ids).next == old(ids).next + 1,
            final(self).fixed_signals@ == old(self).fixed_signals@.push(r),
            final(self).annotations@ == old(self).annotations@.push((r.id, name)),
            final(self).step_types == old(self).step_types,
            final(self).forward_signals == old(self).forward_signals,
            final(self).shared_signals == old(self).shared_signals,
            final(self).halo2_advice == old(self).halo2_advice,
            final(self).halo2_fixed == old(self).halo2_fixed,
            final(self).exposed == old(self).exposed,
            final(self).first_step == old(self).first_step,
            final(self).last_step == old(self).last_step,
            final(self).num_steps == old(self).num_steps,
            final(self).id == old(self).id,
    {
        let signal = FixedSignal::new(ids, name.clone());
        self.fixed_signals.push(signal.duplicate());
        self.annotations.push((signal.id, name));
        signal
    }

    /// Imports the backend advice column `column` under a fresh identifier
    /// and records its name.
    pub fn add_halo2_advice(&mut self, ids: &mut UuidGen, name: String, column: usize) -> (r: ImportedHalo2Advice)
        requires
            old(ids).next < u128::MAX,
        ensures
            r == (ImportedHalo2Column { id: old(ids).next, column, annotation: name }),
            final(ids).next == old(ids).next + 1,
            final(self).halo2_advice@ == old(self).halo2_advice@.push(r),
            final(self).annotations@ == old(self).annotations@.push((r.id, name)),
            final(self).step_types == old(self).step_types,
            final(self).forward_signals == old(self).forward_signals,
            final(self).shared_signals == old(self).shared_signals,
            final(self).fixed_signals == old(self).fixed_signals,
            final(self).halo2_fixed == old(self).halo2_fixed,
            final(self).exposed == old(self).exposed,
            final(self).first_step == old(self).first_step,
            final(self).last_step == old(self).last_step,
            final(self).num_steps == old(self).num_steps,
            final(self).id == old(self).id,
    {
        let advice = ImportedHalo2Column::new(ids, column, name.clone());
        self.halo2_advice.push(advice.duplicate());
        self.annotations.push((advice.id, name));
        advice
    }

    /// Imports the backend fixed column `column` under a fresh identifier
    /// and records its name.
    pub fn add_halo2_fixed(&mut self, ids: &mut UuidGen, name: String, column: usize) -> (r: ImportedHalo2Fixed)
        requires
            old(ids).next < u128::MAX,
        ensures
            r == (ImportedHalo2Column { id: old(ids).next, column, annotation: name }),
            final(ids).next == old(ids).next + 1,
            final(self).halo2_fixed@ == old(self).halo2_fixed@.push(r),
            final(self).annotations@ == old(self).annotations@.push((r.id, name)),
            final(self).step_types == old(self).step_types,
            final(self).forward_signals == old(self).forward_signals,
            final(self).shared_signals == old(self).shared_signals,
            final(self).fixed_signals == old(self).fixed_signals,
            final(self).halo2_advice == old(self).halo2_advice,
            final(self).exposed == old(self).exposed,
            final(self).first_step == old(self).first_step,
            final(self).last_step == old(self).last_step,
            final(self).num_steps == old(self).num_steps,
            final(self).id == old(self).id,
    {
        let fixed = ImportedHalo2Column::new(ids, column, name.clone());
        self.halo2_fixed.push(fixed.duplicate());
        self.annotations.push((fixed.id, name));
        fixed
    }

    /// Marks a forward signal as publicly revealed.
    pub fn expose(&mut self, forward_signal: ForwardSignal)
        ensures
            final(self).exposed@ == old(self).exposed@.push(forward_signal),
            final(self).step_types == old(self).step_types,
            final(self).forward_signals == old(self).forward_signals,
            final(self).shared_signals == old(self).shared_signals,
            final(self).fixed_signals == old(self).fixed_signals,
            final(self).halo2_advice == old(self).halo2_advice,
            final(self).halo2_fixed == old(self).halo2_fixed,
            final(self).annotations == old(self).annotations,
            final(self).first_step == old(self).first_step,
            final(self).last_step == old(self).last_step,
            final(self).num_steps == old(self).num_steps,
            final(self).id == old(self).id,
    {
        self.exposed.push(forward_signal);
    }

    /// Records the name of a step type.
    pub fn add_step_type(&mut self, handler: &StepTypeHandler, name: String)
        ensures
            final(self).annotations@ == old(self).annotations@.push((handler.id, name)),
            final(self).step_types == old(self).step_types,
            final(self).forward_signals == old(self).forward_signals,
            final(self).shared_signals == old(self).shared_signals,
            final(self).fixed_signals == old(self).fixed_signals,
            final(self).halo2_advice == old(self).halo2_advice,
            final(self).halo2_fixed == old(self).halo2_fixed,
            final(self).exposed == old(self).exposed,
            final(self).first_step == old(self).first_step,
            final(self).last_step == old(self).last_step,
            final(self).num_steps == old(self).num_steps,
            final(self).id == old(self).id,
    {
        self.annotations.push((handler.uuid(), name));
    }

    /// Registers a step type definition; one registered earlier under the
    /// same identifier is replaced. Returns the identifier.
    pub fn add_step_type_def(&mut self, step: StepType) -> (r: u128)
        ensures
            r == step.id,
            (exists|i: int| is_first_step(old(self).step_types@, step.id, i)) ==> exists|i: int|
                is_first_step(old(self).step_types@, step.id, i) && final(self).step_types@
                    == old(self).step_types@.update(i, step),
            (forall|j: int|
                0 <= j < old(self).step_types@.len() ==> old(self).step_types@[j].id != step.id)
                ==> final(self).step_types@ == old(self).step_types@.push(step),
            final(self).forward_signals == old(self).forward_signals,
            final(self).shared_signals == old(self).shared_signals,
            final(self).fixed_signals == old(self).fixed_signals,
            final(self).halo2_advice == old(self).halo2_advice,
            final(self).halo2_fixed == old(self).halo2_fixed,
            final(self).exposed == old(self).exposed,
            final(self).annotations == old(self).annotations,
            final(self).first_step == old(self).first_step,
            final(self).last_step == old(self).last_step,
            final(self).num_steps == old(self).num_steps,
            final(self).id == old(self).id,
    {
        let uuid = step.id;
        match find_step_type(&self.step_types, uuid) {
            Some(i) => {
                self.step_types.set(i, step);
            },
            None => {
                self.step_types.push(step);
            },
        }
        uuid
    }

    /// The step type registered under `uuid`, if any.
    pub fn get_step_type(&self, uuid: u128) -> (r: Option<&StepType>)
        ensures
            match r {
                Some(s) => exists|i: int|
                    is_first_step(self.step_types@, uuid, i) && *s == self.step_types@[i],
                None => forall|j: int|
                    0 <= j < self.step_types@.len() ==> self.step_types@[j].id != uuid,
            },
    {
        match find_step_type(&self.step_types, uuid) {
            Some(i) => Some(&self.step_types[i]),
            None => None,
        }
    }
}

} // verus!
