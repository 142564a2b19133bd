use crate::accounts::{Deposit, TransferAccounts, Withdraw};
use crate::address::{derived_view, opt_view, Address, AUTHORITY_TAG, TOKEN_VAULT_TAG, VAULT_TAG};
use crate::error::{Failure, MyError, Rejection};
use crate::guard::{
    address_of, authority_address, authority_proof, check_address, check_own_account, check_spec,
    check_transfer_accounts, own_account_check, token_vault_address, transfer_accounts_check,
    vault_address,
};
use crate::ledger::{
    asset_moved, credit_check, debited, moved, token_transfer_check, transfer_check, Ledger,
    LedgerView,
};
use vstd::prelude::*;

verus! {

/// Whether a native deposit of `amount` goes through, given what the
/// signer's custody account derives to. The guard comes first, then the
/// balance check, then the ledger's own conditions.
pub open spec fn deposit_result(
    l: LedgerView,
    ctx: Deposit,
    vault: Option<(Seq<u8>, u8)>,
    amount: nat,
) -> Result<(), Failure> {
    match check_spec(ctx.user_vault_account@, vault) {
        Err(e) => Err(Failure::Rejected(e)),
        Ok(_) => if !l.contains_key(ctx.signer@) {
            Err(Failure::Rejected(Rejection::AccountMissing))
        } else if l[ctx.signer@].lamports < amount {
            Err(Failure::Vault(MyError::InsufficientFunds))
        } else {
            match transfer_check(l, ctx.signer@, ctx.user_vault_account@, ctx.signer@, amount) {
                Err(e) => Err(Failure::Rejected(e)),
                Ok(_) => Ok(()),
            }
        },
    }
}

/// The ledger after a native deposit: with the amount moved where it went
/// through, unchanged where it did not.
pub open spec fn deposit_ledger(
    l: LedgerView,
    ctx: Deposit,
    vault: Option<(Seq<u8>, u8)>,
    amount: nat,
) -> LedgerView {
    if deposit_result(l, ctx, vault, amount) is Ok {
        moved(l, ctx.signer@, ctx.user_vault_account@, amount)
    } else {
        l
    }
}

/// Deposits `amount` of the signer's native balance, where `vault` is what
/// the signer's custody account derives to.
pub fn deposit_with(
    ledger: &mut Ledger,
    ctx: &Deposit,
    vault: Option<(Address, u8)>,
    amount: u64,
) -> (r: Result<(), Failure>)
    ensures
        r == deposit_result(old(ledger)@, *ctx, derived_view(vault), amount as nat),
        final(ledger)@ == deposit_ledger(old(ledger)@, *ctx, derived_view(vault), amount as nat),
{
    match check_address(&ctx.user_vault_account, vault) {
        Err(e) => {
            return Err(Failure::Rejected(e));
        },
        Ok(_) => {},
    }
    match ledger.lamports(&ctx.signer) {
        None => {
            return Err(Failure::Rejected(Rejection::AccountMissing));
        },
        Some(balance) => {
            if balance < amount {
                return Err(Failure::Vault(MyError::InsufficientFunds));
            }
        },
    }
    match ledger.transfer(&ctx.signer, &ctx.user_vault_account, &ctx.signer, amount) {
        Err(e) => Err(Failure::Rejected(e)),
        Ok(_) => Ok(()),
    }
}

/// Moves `amount` of native balance from the signer to the signer's custody
/// account. Rejects `ctx.user_vault_account` unless it is the address that
/// the signer derives; fails with `InsufficientFunds` where the signer holds
/// less than `amount`. Nothing changes where it fails.
pub fn deposit(ledger: &mut Ledger, ctx: &Deposit, amount: u64) -> (r: Result<(), Failure>)
    ensures
        r == deposit_result(old(ledger)@, *ctx, vault_address(ctx.signer@), amount as nat),
        final(ledger)@ == deposit_ledger(
            old(ledger)@,
            *ctx,
            vault_address(ctx.signer@),
            amount as nat,
        ),
{
    let vault = crate::address::derive(VAULT_TAG.as_slice(), &ctx.signer, None);
    deposit_with(ledger, ctx, vault, amount)
}

/// Whether a native withdrawal of `amount` goes through, given what the
/// signer's custody account derives to. The guard comes first, then the
/// balance check, then what the signer's account can take.
pub open spec fn withdraw_result(
    l: LedgerView,
    ctx: Withdraw,
    vault: Option<(Seq<u8>, u8)>,
    amount: nat,
) -> Result<(), Failure> {
    match check_spec(ctx.user_vault_account@, vault) {
        Err(e) => Err(Failure::Rejected(e)),
        Ok(_) => if !l.contains_key(ctx.user_vault_account@) {
            Err(Failure::Rejected(Rejection::AccountMissing))
        } else if l[ctx.user_vault_account@].lamports < amount {
            Err(Failure::Vault(MyError::InsufficientFunds))
        } else {
            match credit_check(debited(l, ctx.user_vault_account@, amount), ctx.signer@, amount) {
                Err(e) => Err(Failure::Rejected(e)),
                Ok(_) => Ok(()),
            }
        },
    }
}

/// The ledger after a native withdrawal: with the amount moved where it went
/// through, unchanged where it did not.
pub open spec fn withdraw_ledger(
    l: LedgerView,
    ctx: Withdraw,
    vault: Option<(Seq<u8>, u8)>,
    amount: nat,
) -> LedgerView {
    if withdraw_result(l, ctx, vault, amount) is Ok {
        moved(l, ctx.user_vault_account@, ctx.signer@, amount)
    } else {
        l
    }
}

/// Withdraws `amount` of native balance to the signer, where `vault` is what
/// the signer's custody account derives to. The custody account has no
/// secret key, so the balances are changed directly: the address check is
/// the only gate.
pub fn withdraw_with(
    ledger: &mut Ledger,
    ctx: &Withdraw,
    vault: Option<(Address, u8)>,
    amount: u64,
) -> (r: Result<(), Failure>)
    ensures
        r == withdraw_result(old(ledger)@, *ctx, derived_view(vault), amount as nat),
        final(ledger)@ == withdraw_ledger(old(ledger)@, *ctx, derived_view(vault), amount as nat),
{
    match check_address(&ctx.user_vault_account, vault) {
        Err(e) => {
            return Err(Failure::Rejected(e));
        },
        Ok(_) => {},
    }
    match ledger.lamports(&ctx.user_vault_account) {
        None => {
            return Err(Failure::Rejected(Rejection::AccountMissing));
        },
        Some(balance) => {
            if balance < amount {
                return Err(Failure::Vault(MyError::InsufficientFunds));
            }
        },
    }
    match ledger.lamports(&ctx.signer) {
        None => {
            return Err(Failure::Rejected(Rejection::AccountMissing));
        },
        Some(balance) => {
            if !ctx.signer.same(&ctx.user_vault_account) && balance > u64::MAX - amount {
                return Err(Failure::Rejected(Rejection::Overflow));
            }
        },
    }
    match ledger.debit(&ctx.user_vault_account, amount) {
        Err(e) => {
            return Err(Failure::Rejected(e));
        },
        Ok(_) => {},
    }
    match ledger.credit(&ctx.signer, amount) {
        Err(e) => Err(Failure::Rejected(e)),
        Ok(_) => Ok(()),
    }
}

/// Moves `amount` of native balance from the signer's custody account to the
/// signer. Rejects `ctx.user_vault_account` unless it is the address that
/// the signer derives; fails with `InsufficientFunds` where the custody
/// account holds less than `amount`. Nothing changes where it fails.
pub fn withdraw(ledger: &mut Ledger, ctx: &Withdraw, amount: u64) -> (r: Result<(), Failure>)
    ensures
        r == withdraw_result(old(ledger)@, *ctx, vault_address(ctx.signer@), amount as nat),
        final(ledger)@ == withdraw_ledger(
            old(ledger)@,
            *ctx,
            vault_address(ctx.signer@),
            amount as nat,
        ),
{
    let vault = crate::address::derive(VAULT_TAG.as_slice(), &ctx.signer, None);
    withdraw_with(ledger, ctx, vault, amount)
}

/// Whether an asset deposit of `amount` units goes through, given what the
/// signer's derived authority and the asset custody account derive to. The
/// signer authorizes the transfer out of the signer's own asset account.
pub open spec fn deposit_token_result(
    l: LedgerView,
    ctx: TransferAccounts,
    authority: Option<(Seq<u8>, u8)>,
    vault: Option<(Seq<u8>, u8)>,
    amount: nat,
) -> Result<(), Failure> {
    match transfer_accounts_check(l, ctx, authority, vault) {
        Err(e) => Err(Failure::Rejected(e)),
        Ok(_) => if l[ctx.sender_token_account@].token->0.amount < amount {
            Err(Failure::Vault(MyError::InsufficientFunds))
        } else {
            match token_transfer_check(
                l,
                ctx.sender_token_account@,
                ctx.vault_token_account@,
                Some(ctx.signer@),
                amount,
            ) {
                Err(e) => Err(Failure::Rejected(e)),
                Ok(_) => Ok(()),
            }
        },
    }
}

/// The ledger after an asset deposit: with the units moved where it went
/// through, unchanged where it did not.
pub open spec fn deposit_token_ledger(
    l: LedgerView,
    ctx: TransferAccounts,
    authority: Option<(Seq<u8>, u8)>,
    vault: Option<(Seq<u8>, u8)>,
    amount: nat,
) -> LedgerView {
    if deposit_token_result(l, ctx, authority, vault, amount) is Ok {
        asset_moved(l, ctx.sender_token_account@, ctx.vault_token_account@, amount)
    } else {
        l
    }
}

/// Deposits `amount` units of the signer's asset balance, where `authority`
/// and `vault` are what the signer's derived authority and the asset custody
/// account derive to.
pub fn deposit_token_with(
    ledger: &mut Ledger,
    ctx: &TransferAccounts,
    authority: Option<(Address, u8)>,
    vault: Option<(Address, u8)>,
    amount: u64,
) -> (r: Result<(), Failure>)
    ensures
        r == deposit_token_result(
            old(ledger)@,
            *ctx,
            derived_view(authority),
            derived_view(vault),
            amount as nat,
        ),
        final(ledger)@ == deposit_token_ledger(
            old(ledger)@,
            *ctx,
            derived_view(authority),
            derived_view(vault),
            amount as nat,
        ),
{
    match check_transfer_accounts(ledger, ctx, authority, vault) {
        Err(e) => {
            return Err(Failure::Rejected(e));
        },
        Ok(_) => {},
    }
    match ledger.token(&ctx.sender_token_account) {
        None => {
            return Err(Failure::Rejected(Rejection::NotAssetAccount));
        },
        Some(sender) => {
            if sender.amount < amount {
                return Err(Failure::Vault(MyError::InsufficientFunds));
            }
        },
    }
    match ledger.token_transfer(
        &ctx.sender_token_account,
        &ctx.vault_token_account,
        Some(ctx.signer),
        amount,
    ) {
        Err(e) => Err(Failure::Rejected(e)),
        Ok(_) => Ok(()),
    }
}

/// Moves `amount` units of the asset type `ctx.mint_of_token_being_sent`
/// from the signer's own asset account to the signer's custody account for
/// that asset type. Rejects the account arguments unless they are the
/// addresses that the signer and the asset type derive; fails with
/// `InsufficientFunds` where the signer's account holds less than `amount`.
/// Nothing changes where it fails.
pub fn deposit_token(ledger: &mut Ledger, ctx: &TransferAccounts, amount: u64) -> (r: Result<
    (),
    Failure,
>)
    ensures
        r == deposit_token_result(
            old(ledger)@,
            *ctx,
            authority_address(ctx.signer@),
            token_vault_address(ctx.signer@, ctx.mint_of_token_being_sent@),
            amount as nat,
        ),
        final(ledger)@ == deposit_token_ledger(
            old(ledger)@,
            *ctx,
            authority_address(ctx.signer@),
            token_vault_address(ctx.signer@, ctx.mint_of_token_being_sent@),
            amount as nat,
        ),
{
    let authority = crate::address::derive(AUTHORITY_TAG.as_slice(), &ctx.signer, None);
    let vault = crate::address::derive(
        TOKEN_VAULT_TAG.as_slice(),
        &ctx.signer,
        Some(ctx.mint_of_token_being_sent),
    );
    deposit_token_with(ledger, ctx, authority, vault, amount)
}

/// Whether an asset withdrawal of `amount` units goes through, given what
/// the signer's derived authority and the asset custody account derive to,
/// and `proven`, the party that the vault's proof speaks for. The account
/// that is paid has to stand under the signer: that is part of the guard and
/// comes before the balance check.
pub open spec fn withdraw_token_result(
    l: LedgerView,
    ctx: TransferAccounts,
    authority: Option<(Seq<u8>, u8)>,
    vault: Option<(Seq<u8>, u8)>,
    proven: Option<Seq<u8>>,
    amount: nat,
) -> Result<(), Failure> {
    match transfer_accounts_check(l, ctx, authority, vault) {
        Err(e) => Err(Failure::Rejected(e)),
        Ok(_) => match own_account_check(l, ctx.sender_token_account@, ctx.signer@) {
            Err(e) => Err(Failure::Rejected(e)),
            Ok(_) => if l[ctx.vault_token_account@].token->0.amount < amount {
                Err(Failure::Vault(MyError::InsufficientFunds))
            } else {
                match token_transfer_check(
                    l,
                    ctx.vault_token_account@,
                    ctx.sender_token_account@,
                    proven,
                    amount,
                ) {
                    Err(e) => Err(Failure::Rejected(e)),
                    Ok(_) => Ok(()),
                }
            },
        },
    }
}

/// The ledger after an asset withdrawal: with the units moved where it went
/// through, unchanged where it did not.
pub open spec fn withdraw_token_ledger(
    l: LedgerView,
    ctx: TransferAccounts,
    authority: Option<(Seq<u8>, u8)>,
    vault: Option<(Seq<u8>, u8)>,
    proven: Option<Seq<u8>>,
    amount: nat,
) -> LedgerView {
    if withdraw_token_result(l, ctx, authority, vault, proven, amount) is Ok {
        asset_moved(l, ctx.vault_token_account@, ctx.sender_token_account@, amount)
    } else {
        l
    }
}

/// Withdraws `amount` units of an asset to the signer's own asset account,
/// where `authority` and `vault` are what the signer's derived authority and
/// the asset custody account derive to, and `proven` is the party that the
/// vault's proof speaks for: here the vault authorizes, not the signer. An
/// account that does not stand under the signer is not paid.
pub fn withdraw_token_with(
    ledger: &mut Ledger,
    ctx: &TransferAccounts,
    authority: Option<(Address, u8)>,
    vault: Option<(Address, u8)>,
    proven: Option<Address>,
    amount: u64,
) -> (r: Result<(), Failure>)
    ensures
        r == withdraw_token_result(
            old(ledger)@,
            *ctx,
            derived_view(authority),
            derived_view(vault),
            opt_view(proven),
            amount as nat,
        ),
        final(ledger)@ == withdraw_token_ledger(
            old(ledger)@,
            *ctx,
            derived_view(authority),
            derived_view(vault),
            opt_view(proven),
            amount as nat,
        ),
{
    match check_transfer_accounts(ledger, ctx, authority, vault) {
        Err(e) => {
            return Err(Failure::Rejected(e));
        },
        Ok(_) => {},
    }
    match check_own_account(ledger, &ctx.sender_token_account, &ctx.signer) {
        Err(e) => {
            return Err(Failure::Rejected(e));
        },
        Ok(_) => {},
    }
    match ledger.token(&ctx.vault_token_account) {
        None => {
            return Err(Failure::Rejected(Rejection::NotAssetAccount));
        },
        Some(custody) => {
            if custody.amount < amount {
                return Err(Failure::Vault(MyError::InsufficientFunds));
            }
        },
    }
    match ledger.token_transfer(
        &ctx.vault_token_account,
        &ctx.sender_token_account,
        proven,
        amount,
    ) {
        Err(e) => Err(Failure::Rejected(e)),
        Ok(_) => Ok(()),
    }
}

/// Moves `amount` units of the asset type `ctx.mint_of_token_being_sent`
/// from the signer's custody account for that asset type to the signer's own
/// asset account. Rejects the account arguments unless they are the
/// addresses that the signer and the asset type derive, and the account to
/// pay unless it stands under the signer; fails with `InsufficientFunds`
/// where the custody account holds less than `amount`.
/// The transfer is authorized by the derived authority, for which the vault
/// presents the seeds that prove it; the ledger always accepts them.
/// Nothing changes where it fails.
pub fn withdraw_token(ledger: &mut Ledger, ctx: &TransferAccounts, amount: u64) -> (r: Result<
    (),
    Failure,
>)
    ensures
        r == withdraw_token_result(
            old(ledger)@,
            *ctx,
            authority_address(ctx.signer@),
            token_vault_address(ctx.signer@, ctx.mint_of_token_being_sent@),
            address_of(authority_address(ctx.signer@)),
            amount as nat,
        ),
        final(ledger)@ == withdraw_token_ledger(
            old(ledger)@,
            *ctx,
            authority_address(ctx.signer@),
            token_vault_address(ctx.signer@, ctx.mint_of_token_being_sent@),
            address_of(authority_address(ctx.signer@)),
            amount as nat,
        ),
{
    let authority = crate::address::derive(AUTHORITY_TAG.as_slice(), &ctx.signer, None);
    let vault = crate::address::derive(
        TOKEN_VAULT_TAG.as_slice(),
        &ctx.signer,
        Some(ctx.mint_of_token_being_sent),
    );
    let proven = match authority {
        Some((_, bump)) => crate::address::proven_address(&authority_proof(&ctx.signer, bump)),
        None => None,
    };
    withdraw_token_with(ledger, ctx, authority, vault, proven, amount)
}

} // verus!
