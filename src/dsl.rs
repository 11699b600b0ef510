//! Handles by which step types are referred to from expressions.
use vstd::prelude::*;

verus! {

/// A reference to a step type: its identifier and a name for diagnostics.
#[derive(Clone, Debug)]
pub struct StepTypeHandler {
    pub id: u128,
    pub annotation: String,
}

impl StepTypeHandler {
    pub fn uuid(&self) -> (r: u128)
        ensures
            r == self.id,
    {
        self.id
    }

    /// A copy of this handler, equal to it.
    pub fn duplicate(&self) -> (r: StepTypeHandler)
        ensures
            r == *self,
    {
        StepTypeHandler { id: self.id, annotation: self.annotation.clone() }
    }
}

} // verus!
