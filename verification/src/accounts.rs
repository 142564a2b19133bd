use crate::address::Address;
use vstd::prelude::*;

verus! {

/// The accounts of a registration: the native custody account that the
/// caller claims for `owner`, and the owner.
#[derive(Clone, Copy, Debug, PartialEq, Eq)]
pub struct Register {
    pub user_vault_account: Address,
    pub owner: Address,
}

/// The accounts of a native deposit: the custody account that the caller
/// claims for `signer`, and the signer, who pays.
#[derive(Clone, Copy, Debug, PartialEq, Eq)]
pub struct Deposit {
    pub user_vault_account: Address,
    pub signer: Address,
}

/// The accounts of a native withdrawal: the custody account that the caller
/// claims for `signer`, and the signer, who is paid.
#[derive(Clone, Copy, Debug, PartialEq, Eq)]
pub struct Withdraw {
    pub user_vault_account: Address,
    pub signer: Address,
}

/// The accounts of an asset registration: the derived authority and the
/// asset custody account that the caller claims for `owner` and the asset
/// type, the asset type, and the owner.
#[derive(Clone, Copy, Debug, PartialEq, Eq)]
pub struct RegisterToken {
    pub token_account_owner_pda: Address,
    pub vault_token_account: Address,
    pub mint_of_token_being_sent: Address,
    pub owner: Address,
}

/// The accounts of an asset deposit or withdrawal: the derived authority and
/// the asset custody account that the caller claims for `signer` and the
/// asset type, the signer's own asset account, the asset type, and the
/// signer.
#[derive(Clone, Copy, Debug, PartialEq, Eq)]
pub struct TransferAccounts {
    pub token_account_owner_pda: Address,
    pub vault_token_account: Address,
    pub sender_token_account: Address,
    pub mint_of_token_being_sent: Address,
    pub signer: Address,
}

} // verus!
