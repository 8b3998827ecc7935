//! A fungible-token ledger: a fixed total supply of units is minted once at
//! genesis and thereafter only moved between accounts, either directly by an
//! owner or by a spender the owner has granted an allowance.
//!
//! The ledger is pure state-transition logic: the hosting system supplies the
//! caller identity for each operation and consumes the emitted event records.

mod account;
mod allowances;
mod balances;
mod ledger;

pub use account::AccountId;
pub use ledger::Erc20;
pub use ledger::Event;
pub use ledger::TransferError;
