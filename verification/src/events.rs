use vstd::prelude::*;
use crate::account::Account;
use crate::uint256::Uint256;

verus! {

/// A notification emitted as a side effect of a state change, appended to
/// the ledger's event log and consumed by outside observers (the ledger
/// never reads it back).
#[derive(Clone, Copy, PartialEq, Eq, Structural, Debug)]
pub enum Event {
    /// Emitted by every movement of value, including a mint (`from` is the
    /// zero address) and a burn (`to` is the zero address).
    Transfer { from: Account, to: Account, id: Uint256, value: Uint256 },
    /// Emitted by every successful allowance set.
    Approval { owner: Account, spender: Account, id: Uint256, value: Uint256 },
    /// Emitted by every successful operator grant or revocation.
    OperatorSet { owner: Account, spender: Account, approved: bool },
}

} // verus!
