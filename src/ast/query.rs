//! Signal references that may appear in expressions.
use vstd::prelude::*;
use vstd::string::StringExecFns;

use crate::ast::{
    FixedSignal, ForwardSignal, ImportedHalo2Advice, ImportedHalo2Fixed, InternalSignal, SharedSignal,
};
use crate::dsl::StepTypeHandler;
use crate::util::{push_signed_decimal, signed_decimal};

verus! {

/// A reference to a signal, as it appears inside an expression.
///
/// A forward signal is read at the current step or, when the flag is set, at
/// the next one. A shared signal carries a rotation counted in whole step
/// instances; a fixed signal and an imported column carry a rotation
/// counted in rows.
#[derive(Clone, Debug)]
pub enum Queriable {
    Internal(InternalSignal),
    Forward(ForwardSignal, bool),
    Shared(SharedSignal, i32),
    Fixed(FixedSignal, i32),
    StepTypeNext(StepTypeHandler),
    Halo2AdviceQuery(ImportedHalo2Advice, i32),
    Halo2FixedQuery(ImportedHalo2Fixed, i32),
}

/// The identifier of the entity that a query refers to.
pub open spec fn query_uuid(q: Queriable) -> u128 {
    match q {
        Queriable::Internal(s) => s.id,
        Queriable::Forward(s, _) => s.id,
        Queriable::Shared(s, _) => s.id,
        Queriable::Fixed(s, _) => s.id,
        Queriable::StepTypeNext(h) => h.id,
        Queriable::Halo2AdviceQuery(c, _) => c.id,
        Queriable::Halo2FixedQuery(c, _) => c.id,
    }
}

/// `name(rot r)` when `r` is not zero, `name` otherwise.
pub open spec fn rotated_text(name: Seq<char>, rot: i32) -> Seq<char> {
    if rot != 0 {
        name + seq!['(', 'r', 'o', 't', ' '] + signed_decimal(rot as int) + seq![')']
    } else {
        name
    }
}

/// The diagnostic text of a query.
pub open spec fn query_text(q: Queriable) -> Seq<char> {
    match q {
        Queriable::Internal(s) => s.annotation@,
        Queriable::Forward(s, next) => if next {
            seq!['n', 'e', 'x', 't', '('] + s.annotation@ + seq![')']
        } else {
            s.annotation@
        },
        Queriable::Shared(s, rot) => rotated_text(s.annotation@, rot),
        Queriable::Fixed(s, rot) => rotated_text(s.annotation@, rot),
        Queriable::StepTypeNext(h) => h.annotation@,
        Queriable::Halo2AdviceQuery(c, rot) => rotated_text(c.annotation@, rot),
        Queriable::Halo2FixedQuery(c, rot) => rotated_text(c.annotation@, rot),
    }
}

fn rotated_annotation(name: &String, rot: i32) -> (r: String)
    ensures
        r@ == rotated_text(name@, rot),
{
    if rot != 0 {
        let mut out = name.clone();
        proof { reveal_strlit("(rot "); }
        out.append("(rot ");
        push_signed_decimal(&mut out, rot as i64);
        proof { reveal_strlit(")"); }
        out.append(")");
        out
    } else {
        name.clone()
    }
}

impl Queriable {
    /// The text under which this query appears in diagnostics.
    pub fn annotation(&self) -> (r: String)
        ensures
            r@ == query_text(*self),
    {
        match self {
            Queriable::Internal(s) => s.annotation.clone(),
            Queriable::Forward(s, next) => {
                if !*next {
                    s.annotation.clone()
                } else {
                    proof { reveal_strlit("next("); reveal_strlit(")"); }
                    let mut out = String::from_str("next(");
                    out.append(s.annotation.as_str());
                    out.append(")");
                    out
                }
            },
            Queriable::Shared(s, rot) => rotated_annotation(&s.annotation, *rot),
            Queriable::Fixed(s, rot) => rotated_annotation(&s.annotation, *rot),
            Queriable::StepTypeNext(h) => h.annotation.clone(),
            Queriable::Halo2AdviceQuery(c, rot) => rotated_annotation(&c.annotation, *rot),
            Queriable::Halo2FixedQuery(c, rot) => rotated_annotation(&c.annotation, *rot),
        }
    }

    /// The identifier of the signal or step type referred to.
    pub fn uuid(&self) -> (r: u128)
        ensures
            r == query_uuid(*self),
    {
        match self {
            Queriable::Internal(s) => s.uuid(),
            Queriable::Forward(s, _) => s.uuid(),
            Queriable::Shared(s, _) => s.uuid(),
            Queriable::Fixed(s, _) => s.uuid(),
            Queriable::StepTypeNext(h) => h.uuid(),
            Queriable::Halo2AdviceQuery(c, _) => c.uuid(),
            Queriable::Halo2FixedQuery(c, _) => c.uuid(),
        }
    }

    /// A copy of this query, equal to it.
    pub fn duplicate(&self) -> (r: Queriable)
        ensures
            r == *self,
    {
        match self {
            Queriable::Internal(s) => Queriable::Internal(s.duplicate()),
            Queriable::Forward(s, next) => Queriable::Forward(s.duplicate(), *next),
            Queriable::Shared(s, rot) => Queriable::Shared(s.duplicate(), *rot),
            Queriable::Fixed(s, rot) => Queriable::Fixed(s.duplicate(), *rot),
            Queriable::StepTypeNext(h) => Queriable::StepTypeNext(h.duplicate()),
            Queriable::Halo2AdviceQuery(c, rot) => Queriable::Halo2AdviceQuery(c.duplicate(), *rot),
            Queriable::Halo2FixedQuery(c, rot) => Queriable::Halo2FixedQuery(c.duplicate(), *rot),
        }
    }
}

} // verus!
