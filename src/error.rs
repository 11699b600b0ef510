//! The errors that compilation and witness replay report.
use vstd::prelude::*;

verus! {

/// Why compiling a circuit, lowering it or replaying a witness failed.
///
/// Every error is fatal to the pass that reports it; no partial result is
/// handed back.
#[derive(Debug, PartialEq, Eq, Structural)]
pub enum CircuitError {
    /// No step type is registered under this identifier.
    StepTypeNotFound(u128),
    /// This signal has no placement under the step type at hand.
    SignalNotPlaced(u128),
    /// No selector was built for this step type.
    SelectorNotFound(u128),
    /// A selector assignment whose expression is not a column query.
    InvalidSelectorExpr,
    /// A witness value for a query that cannot be assigned (a fixed signal
    /// or a step type reference).
    InvalidAssignmentTarget(u128),
    /// A witness value was assigned while no step instance was active.
    AssignOutsideStep,
    /// A sum or product without operands.
    EmptyOperands,
    /// An advice column in a phase that the backend does not offer.
    InvalidPhase(usize),
    /// A rotation that does not fit the backend's rotation type.
    RotationOutOfRange,
    /// A row before the first row or past the largest supported row.
    RowOutOfRange,
    /// More columns than the column indices can count.
    TooManyColumns,
}

} // verus!
