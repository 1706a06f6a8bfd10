use vstd::prelude::*;

verus! {

/// The failures a cost evaluation or planning run can report.
///
/// Unreachable targets are not an error: they surface as the
/// `UNREACHABLE_COST` sentinel so that minimization can still compare
/// strategies.
#[derive(Clone, Copy, PartialEq, Eq, Structural, Debug)]
pub enum PlanError {
    /// A coordinate lies outside the terrain's dimensions.
    OutOfBounds,
    /// The world holds no lifts, so there is no candidate to evaluate.
    EmptyLiftSet,
}

} // verus!
