use vstd::prelude::*;
use crate::account::Account;
use crate::uint256::Uint256;

verus! {

/// The structured errors a ledger operation can reject an input with.  Every
/// variant reports the offending addresses, identifiers and amounts, never
/// just a message.  `ERC6909InvalidApprover` and `ERC6909InvalidSpender` are
/// reserved kinds of the taxonomy: no operation of this ledger raises them
/// (zero-address approval operands surface as `ERC6909InvalidSender` and
/// `ERC6909InvalidReciver`).
#[derive(Clone, Copy, PartialEq, Eq, Structural, Debug)]
pub enum ERC6909Error {
    /// A debit was requested for more than the current balance.
    ERC6909InsufficientBalance { sender: Account, balance: Uint256, needed: Uint256, id: Uint256 },
    /// The "from"/"owner" side of an operation is the zero address.
    ERC6909InvalidSender { sender: Account },
    /// The "to"/"spender" side of an operation is the zero address.
    ERC6909InvalidReciver { reciver: Account },
    /// Reserved for approval validation; never raised by this ledger.
    ERC6909InvalidApprover { approver: Account },
    /// Reserved for approval validation; never raised by this ledger.
    ERC6909InvalidSpender { spender: Account },
    /// An allowance consumption was requested for more than what remains.
    ERC6909InsufficientAllowance { owner: Account, allowance: Uint256, needed: Uint256, id: Uint256 },
}

} // verus!
