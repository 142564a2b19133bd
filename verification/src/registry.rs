use crate::accounts::{Register, RegisterToken};
use crate::address::{derived_view, Address, AUTHORITY_TAG, TOKEN_VAULT_TAG, VAULT_TAG};
use crate::error::{Failure, Rejection};
use crate::guard::{
    authority_address, check_address, check_custody, check_spec, custody_check,
    token_vault_address, vault_address,
};
use crate::ledger::{fresh_account, fresh_asset_account, Ledger, LedgerView};
use vstd::prelude::*;

verus! {

/// `l` with a fresh account at `key`, unless one is allocated there.
pub open spec fn ensured(l: LedgerView, key: Seq<u8>) -> LedgerView {
    if l.contains_key(key) {
        l
    } else {
        l.insert(key, fresh_account())
    }
}

/// Whether a registration goes through, given what the owner's native
/// custody account derives to.
pub open spec fn register_result(ctx: Register, vault: Option<(Seq<u8>, u8)>) -> Result<
    (),
    Failure,
> {
    match check_spec(ctx.user_vault_account@, vault) {
        Err(e) => Err(Failure::Rejected(e)),
        Ok(_) => Ok(()),
    }
}

/// The ledger after a registration: with the custody account where it went
/// through, unchanged where it did not.
pub open spec fn register_ledger(
    l: LedgerView,
    ctx: Register,
    vault: Option<(Seq<u8>, u8)>,
) -> LedgerView {
    if register_result(ctx, vault) is Ok {
        ensured(l, ctx.user_vault_account@)
    } else {
        l
    }
}

/// Registers `ctx.owner`, where `vault` is what the owner's native custody
/// account derives to: allocates the custody account unless it is there.
pub fn register_with(ledger: &mut Ledger, ctx: &Register, vault: Option<(Address, u8)>) -> (r:
    Result<(), Failure>)
    ensures
        r == register_result(*ctx, derived_view(vault)),
        final(ledger)@ == register_ledger(old(ledger)@, *ctx, derived_view(vault)),
{
    match check_address(&ctx.user_vault_account, vault) {
        Err(e) => {
            return Err(Failure::Rejected(e));
        },
        Ok(_) => {},
    }
    if !ledger.contains(&ctx.user_vault_account) {
        let _ = ledger.allocate(&ctx.user_vault_account);
    }
    Ok(())
}

/// Registers `ctx.owner` with the vault: derives the owner's native custody
/// account, rejects `ctx.user_vault_account` unless it is that address, and
/// allocates the account unless it is there. A second registration changes
/// nothing and succeeds.
pub fn register(ledger: &mut Ledger, ctx: &Register) -> (r: Result<(), Failure>)
    ensures
        r == register_result(*ctx, vault_address(ctx.owner@)),
        final(ledger)@ == register_ledger(old(ledger)@, *ctx, vault_address(ctx.owner@)),
{
    let vault = crate::address::derive(VAULT_TAG.as_slice(), &ctx.owner, None);
    register_with(ledger, ctx, vault)
}

/// Whether an asset registration goes through, given what the owner's
/// derived authority and the asset custody account derive to.
pub open spec fn register_token_result(
    l: LedgerView,
    ctx: RegisterToken,
    authority: Option<(Seq<u8>, u8)>,
    vault: Option<(Seq<u8>, u8)>,
) -> Result<(), Failure> {
    match check_spec(ctx.token_account_owner_pda@, authority) {
        Err(e) => Err(Failure::Rejected(e)),
        Ok(_) => match check_spec(ctx.vault_token_account@, vault) {
            Err(e) => Err(Failure::Rejected(e)),
            Ok(_) => if l.contains_key(ctx.vault_token_account@) {
                match custody_check(
                    l,
                    ctx.vault_token_account@,
                    ctx.mint_of_token_being_sent@,
                    ctx.token_account_owner_pda@,
                ) {
                    Err(e) => Err(Failure::Rejected(e)),
                    Ok(_) => Ok(()),
                }
            } else if ctx.vault_token_account@ == ctx.token_account_owner_pda@ {
                Err(Failure::Rejected(Rejection::AccountInUse))
            } else {
                Ok(())
            },
        },
    }
}

/// `l` with the derived authority and the asset custody account of `ctx`,
/// each allocated unless it is there.
pub open spec fn token_registered(l: LedgerView, ctx: RegisterToken) -> LedgerView {
    let with_authority = ensured(l, ctx.token_account_owner_pda@);
    if l.contains_key(ctx.vault_token_account@) {
        with_authority
    } else {
        with_authority.insert(
            ctx.vault_token_account@,
            fresh_asset_account(ctx.mint_of_token_being_sent@, ctx.token_account_owner_pda@),
        )
    }
}

/// The ledger after an asset registration: with both accounts where it went
/// through, unchanged where it did not.
pub open spec fn register_token_ledger(
    l: LedgerView,
    ctx: RegisterToken,
    authority: Option<(Seq<u8>, u8)>,
    vault: Option<(Seq<u8>, u8)>,
) -> LedgerView {
    if register_token_result(l, ctx, authority, vault) is Ok {
        token_registered(l, ctx)
    } else {
        l
    }
}

/// Registers the asset type `ctx.mint_of_token_being_sent` for `ctx.owner`,
/// where `authority` and `vault` are what the owner's derived authority and
/// the asset custody account derive to. Allocates what is not there yet; an
/// asset custody account that is there has to be one for this asset type
/// under the derived authority.
pub fn register_token_with(
    ledger: &mut Ledger,
    ctx: &RegisterToken,
    authority: Option<(Address, u8)>,
    vault: Option<(Address, u8)>,
) -> (r: Result<(), Failure>)
    ensures
        r == register_token_result(
            old(ledger)@,
            *ctx,
            derived_view(authority),
            derived_view(vault),
        ),
        final(ledger)@ == register_token_ledger(
            old(ledger)@,
            *ctx,
            derived_view(authority),
            derived_view(vault),
        ),
{
    match check_address(&ctx.token_account_owner_pda, authority) {
        Err(e) => {
            return Err(Failure::Rejected(e));
        },
        Ok(_) => {},
    }
    match check_address(&ctx.vault_token_account, vault) {
        Err(e) => {
            return Err(Failure::Rejected(e));
        },
        Ok(_) => {},
    }
    let custody_there = ledger.contains(&ctx.vault_token_account);
    if custody_there {
        match check_custody(
            ledger,
            &ctx.vault_token_account,
            &ctx.mint_of_token_being_sent,
            &ctx.token_account_owner_pda,
        ) {
            Err(e) => {
                return Err(Failure::Rejected(e));
            },
            Ok(_) => {},
        }
    } else if ctx.vault_token_account.same(&ctx.token_account_owner_pda) {
        return Err(Failure::Rejected(Rejection::AccountInUse));
    }
    if !ledger.contains(&ctx.token_account_owner_pda) {
        let _ = ledger.allocate(&ctx.token_account_owner_pda);
    }
    if !custody_there {
        let _ = ledger.allocate_token(
            &ctx.vault_token_account,
            &ctx.mint_of_token_being_sent,
            &ctx.token_account_owner_pda,
        );
    }
    Ok(())
}

/// Registers the asset type `ctx.mint_of_token_being_sent` for `ctx.owner`:
/// derives the owner's derived authority and the asset custody account,
/// rejects the account arguments unless they are those addresses, and
/// allocates what is not there yet, the custody account under the derived
/// authority. A second registration changes nothing and succeeds.
pub fn register_token(ledger: &mut Ledger, ctx: &RegisterToken) -> (r: Result<(), Failure>)
    ensures
        r == register_token_result(
            old(ledger)@,
            *ctx,
            authority_address(ctx.owner@),
            token_vault_address(ctx.owner@, ctx.mint_of_token_being_sent@),
        ),
        final(ledger)@ == register_token_ledger(
            old(ledger)@,
            *ctx,
            authority_address(ctx.owner@),
            token_vault_address(ctx.owner@, ctx.mint_of_token_being_sent@),
        ),
{
    let authority = crate::address::derive(AUTHORITY_TAG.as_slice(), &ctx.owner, None);
    let vault = crate::address::derive(
        TOKEN_VAULT_TAG.as_slice(),
        &ctx.owner,
        Some(ctx.mint_of_token_being_sent),
    );
    register_token_with(ledger, ctx, authority, vault)
}

} // verus!
