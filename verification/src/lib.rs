//! A verified multi-token accounting ledger.
//!
//! The ledger tracks, for an arbitrary number of token identifiers, how many
//! units each account holds, how many units one account has authorized a
//! second account to move on its behalf, and whether one account has granted
//! another blanket operator rights over all of its tokens.  Every state
//! transition (mint, burn, transfer, approval, operator grant, allowance
//! consumption) carries a contract that pins down exactly which inputs
//! succeed, which error each rejected input produces, and how the state and
//! the event log change.

pub mod account;
pub mod allowances;
pub mod balances;
pub mod engine;
pub mod errors;
pub mod events;
pub mod laws;
pub mod operators;
pub mod uint256;

pub use account::Account;
pub use allowances::AllowanceRegistry;
pub use balances::BalanceLedger;
pub use engine::ERC6909;
pub use errors::ERC6909Error;
pub use events::Event;
pub use operators::OperatorRegistry;
pub use uint256::Uint256;
