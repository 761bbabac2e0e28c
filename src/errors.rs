use vstd::prelude::*;

verus! {

/// Why an operation on the ledger was refused. A refused operation changes nothing.
#[derive(Clone, Copy, Debug, PartialEq, Eq, Structural)]
pub enum ErrorCodes {
    /// The caller lacks the privilege that the operation needs.
    Unauthorized,
    /// A withdrawal exceeds the recorded balance, no balance is recorded, or a
    /// deposit would take a balance past the largest `u64`.
    ExceedsLimit,
    /// The token is not on the whitelist.
    UnsupportedToken,
    /// A stake of zero.
    InvalidAmount,
    /// A bounded list is full.
    CapacityExceeded,
    /// The delegated transfer failed; it carries the transfer service's error code.
    TransferFailed(u32),
}

} // verus!
