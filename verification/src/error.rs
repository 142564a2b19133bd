use vstd::prelude::*;

verus! {

/// The one failure that the vault itself raises.
#[derive(Clone, Copy, Debug, PartialEq, Eq, Structural)]
pub enum MyError {
    /// The balance that pays for a transfer is smaller than the amount asked for.
    InsufficientFunds,
}

impl MyError {
    /// The failure in words.
    pub fn message(&self) -> (s: &'static str)
        ensures
            s@ == "Insufficient Funds"@,
    {
        match self {
            MyError::InsufficientFunds => "Insufficient Funds",
        }
    }
}

/// Why the ledger, or the guard in front of it, turned a request down.
#[derive(Clone, Copy, Debug, PartialEq, Eq, Structural)]
pub enum Rejection {
    /// No bump seed gives the seeds an address without a secret key.
    DerivationExhausted,
    /// An account argument is not the address that the claimed inputs derive.
    AddressMismatch,
    /// No account is allocated at an address that the request names.
    AccountMissing,
    /// An account is already allocated at the address to allocate.
    AccountInUse,
    /// The account holds no asset balance.
    NotAssetAccount,
    /// The asset account is denominated in another asset type.
    MintMismatch,
    /// The authorizing party is not the authority of the account that pays.
    Unauthorized,
    /// The paying account holds less than the amount.
    BalanceTooLow,
    /// The receiving balance would exceed what a balance can hold.
    Overflow,
}

/// How a request to the vault can fail.
#[derive(Clone, Copy, Debug, PartialEq, Eq, Structural)]
pub enum Failure {
    /// The vault's own balance check failed.
    Vault(MyError),
    /// The request was rejected without the vault's balance check failing.
    Rejected(Rejection),
}

} // verus!
