use vstd::prelude::*;

verus! {

/// Why a ledger operation was refused. A refused operation changes nothing.
#[derive(Clone, Copy, Debug, PartialEq, Eq, Structural)]
pub enum ContractError {
    /// The ledger was read or written before it was created.
    NotInitialized {},
    /// Creation was attempted on a ledger that already exists.
    AlreadyInitialized {},
    /// The caller may not perform this operation.
    Unauthorized {},
    /// A vote was cast outside the inclusive window `[begin, end]`.
    NotAllowance { begin: u64, end: u64 },
}

} // verus!
