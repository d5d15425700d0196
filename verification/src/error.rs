use vstd::prelude::*;

verus! {

/// The failures the store can report.
///
/// `NotFound` is returned by the point lookup when the requested id has no
/// record. `CounterOverflow` is returned by the identifier allocator when
/// advancing the counter would exceed the representable range; the whole
/// state transition is rejected with no partial write.
#[derive(Clone, Copy, Debug, PartialEq, Eq, Structural)]
pub enum ContractError {
    NotFound,
    CounterOverflow,
}

} // verus!
