use crate::accounts::TransferAccounts;
use crate::address::{
    derivation_seeds, derive_spec, derived_view, with_bump, Address, Seeds, AUTHORITY_TAG,
    TOKEN_VAULT_TAG, VAULT_TAG,
};
use crate::error::Rejection;
use crate::ledger::{Ledger, LedgerView};
use vstd::prelude::*;

verus! {

/// The native custody account of `owner`, with its bump seed.
pub open spec fn vault_address(owner: Seq<u8>) -> Option<(Seq<u8>, u8)> {
    derive_spec(VAULT_TAG@, owner, None)
}

/// The derived authority of `owner`, with its bump seed.
pub open spec fn authority_address(owner: Seq<u8>) -> Option<(Seq<u8>, u8)> {
    derive_spec(AUTHORITY_TAG@, owner, None)
}

/// The custody account of `owner` for the asset type `mint`, with its bump
/// seed.
pub open spec fn token_vault_address(owner: Seq<u8>, mint: Seq<u8>) -> Option<(Seq<u8>, u8)> {
    derive_spec(TOKEN_VAULT_TAG@, owner, Some(mint))
}

/// The address of a derivation, without its bump seed.
pub open spec fn address_of(derived: Option<(Seq<u8>, u8)>) -> Option<Seq<u8>> {
    match derived {
        Some((address, _)) => Some(address),
        None => None,
    }
}

/// The guard's verdict on one account argument: the bump seed where
/// `claimed` is the derived address, a rejection where the derivation gave
/// nothing or another address.
pub open spec fn check_spec(claimed: Seq<u8>, derived: Option<(Seq<u8>, u8)>) -> Result<
    u8,
    Rejection,
> {
    match derived {
        None => Err(Rejection::DerivationExhausted),
        Some((address, bump)) => if address == claimed {
            Ok(bump)
        } else {
            Err(Rejection::AddressMismatch)
        },
    }
}

/// Holds the account argument `claimed` against `derived`, the outcome of
/// deriving the address again from the claimed inputs.
pub fn check_address(claimed: &Address, derived: Option<(Address, u8)>) -> (r: Result<
    u8,
    Rejection,
>)
    ensures
        r == check_spec(claimed@, derived_view(derived)),
{
    match derived {
        None => Err(Rejection::DerivationExhausted),
        Some((address, bump)) => if address.same(claimed) {
            Ok(bump)
        } else {
            Err(Rejection::AddressMismatch)
        },
    }
}

/// What an asset custody account has to be: allocated, with an asset side,
/// denominated in `mint`, under `authority`.
pub open spec fn custody_check(
    l: LedgerView,
    account: Seq<u8>,
    mint: Seq<u8>,
    authority: Seq<u8>,
) -> Result<(), Rejection> {
    if !l.contains_key(account) {
        Err(Rejection::AccountMissing)
    } else if l[account].token is None {
        Err(Rejection::NotAssetAccount)
    } else if l[account].token->0.mint != mint {
        Err(Rejection::MintMismatch)
    } else if l[account].token->0.authority != authority {
        Err(Rejection::Unauthorized)
    } else {
        Ok(())
    }
}

/// Checks that `account` is an asset custody account for `mint` under
/// `authority`.
pub fn check_custody(ledger: &Ledger, account: &Address, mint: &Address, authority: &Address) -> (r:
    Result<(), Rejection>)
    ensures
        r == custody_check(ledger@, account@, mint@, authority@),
{
    match ledger.account(account) {
        None => Err(Rejection::AccountMissing),
        Some(a) => match a.token {
            None => Err(Rejection::NotAssetAccount),
            Some(t) => if !t.mint.same(mint) {
                Err(Rejection::MintMismatch)
            } else if !t.authority.same(authority) {
                Err(Rejection::Unauthorized)
            } else {
                Ok(())
            },
        },
    }
}

/// What the account that a withdrawal pays into has to be: allocated, with
/// an asset side, and under `signer`, so that the units go to the signer and
/// to nobody else.
pub open spec fn own_account_check(l: LedgerView, account: Seq<u8>, signer: Seq<u8>) -> Result<
    (),
    Rejection,
> {
    if !l.contains_key(account) {
        Err(Rejection::AccountMissing)
    } else if l[account].token is None {
        Err(Rejection::NotAssetAccount)
    } else if l[account].token->0.authority != signer {
        Err(Rejection::Unauthorized)
    } else {
        Ok(())
    }
}

/// Checks that `account` is an asset account of `signer`'s own.
pub fn check_own_account(ledger: &Ledger, account: &Address, signer: &Address) -> (r: Result<
    (),
    Rejection,
>)
    ensures
        r == own_account_check(ledger@, account@, signer@),
{
    match ledger.account(account) {
        None => Err(Rejection::AccountMissing),
        Some(a) => match a.token {
            None => Err(Rejection::NotAssetAccount),
            Some(t) => if !t.authority.same(signer) {
                Err(Rejection::Unauthorized)
            } else {
                Ok(())
            },
        },
    }
}

/// The guard's verdict on the accounts of an asset transfer, given what the
/// derived authority and the asset custody account derive to: the
/// authority's bump seed where every account is what it has to be.
pub open spec fn transfer_accounts_check(
    l: LedgerView,
    ctx: TransferAccounts,
    authority: Option<(Seq<u8>, u8)>,
    vault: Option<(Seq<u8>, u8)>,
) -> Result<u8, Rejection> {
    match check_spec(ctx.token_account_owner_pda@, authority) {
        Err(e) => Err(e),
        Ok(bump) => match check_spec(ctx.vault_token_account@, vault) {
            Err(e) => Err(e),
            Ok(_) => match custody_check(
                l,
                ctx.vault_token_account@,
                ctx.mint_of_token_being_sent@,
                ctx.token_account_owner_pda@,
            ) {
                Err(e) => Err(e),
                Ok(_) => if !l.contains_key(ctx.sender_token_account@) {
                    Err(Rejection::AccountMissing)
                } else if l[ctx.sender_token_account@].token is None {
                    Err(Rejection::NotAssetAccount)
                } else {
                    Ok(bump)
                },
            },
        },
    }
}

/// Holds the accounts of an asset transfer against `authority` and `vault`,
/// the outcomes of deriving the derived authority and the asset custody
/// account again from the signer and the asset type.
pub fn check_transfer_accounts(
    ledger: &Ledger,
    ctx: &TransferAccounts,
    authority: Option<(Address, u8)>,
    vault: Option<(Address, u8)>,
) -> (r: Result<u8, Rejection>)
    ensures
        r == transfer_accounts_check(ledger@, *ctx, derived_view(authority), derived_view(vault)),
{
    let bump = match check_address(&ctx.token_account_owner_pda, authority) {
        Err(e) => {
            return Err(e);
        },
        Ok(bump) => bump,
    };
    match check_address(&ctx.vault_token_account, vault) {
        Err(e) => {
            return Err(e);
        },
        Ok(_) => {},
    }
    match check_custody(
        ledger,
        &ctx.vault_token_account,
        &ctx.mint_of_token_being_sent,
        &ctx.token_account_owner_pda,
    ) {
        Err(e) => {
            return Err(e);
        },
        Ok(_) => {},
    }
    match ledger.account(&ctx.sender_token_account) {
        None => Err(Rejection::AccountMissing),
        Some(a) => match a.token {
            None => Err(Rejection::NotAssetAccount),
            Some(_) => Ok(bump),
        },
    }
}

/// The seeds that prove the derived authority of `owner`: those that it was
/// derived from, and the bump seed as a last seed of one byte.
pub open spec fn proof_seeds(owner: Seq<u8>, bump: u8) -> Seq<Seq<u8>> {
    with_bump(derivation_seeds(AUTHORITY_TAG@, owner, None), bump)
}

/// Builds the proof that stands in for a signature of the derived authority
/// of `owner`, which has no secret key.
pub fn authority_proof(owner: &Address, bump: u8) -> (s: Seeds)
    ensures
        s@ == proof_seeds(owner@, bump),
{
    let mut s = crate::address::seeds_for(AUTHORITY_TAG.as_slice(), owner, None);
    let mut last: Vec<u8> = Vec::new();
    last.push(bump);
    assert(last@ =~= seq![bump]);
    s.push(last);
    s
}

} // verus!
