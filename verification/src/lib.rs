//! A custody vault over a ledger of accounts.
//!
//! Every custody account lives at an address derived from its owner's
//! identity, so the vault keeps no lookup table: an account argument is
//! accepted only if it is the address that the claimed owner derives.

pub mod accounts;
pub mod address;
pub mod error;
pub mod guard;
pub mod laws;
pub mod ledger;
pub mod registry;
pub mod transfer;

pub use accounts::{Deposit, Register, RegisterToken, TransferAccounts, Withdraw};
pub use address::{Address, Seeds};
pub use error::{Failure, MyError, Rejection};
pub use ledger::{Account, Ledger, TokenState};
pub use registry::{register, register_token};
pub use transfer::{deposit, deposit_token, withdraw, withdraw_token};
