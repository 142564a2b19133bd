use crate::accounts::{Deposit, Register, RegisterToken, TransferAccounts, Withdraw};
use crate::address::{derive_spec, derived_view, lemma_address_by_view, opt_view, Address};
use crate::error::{Failure, MyError, Rejection};
use crate::guard::{
    address_of, check_spec, custody_check, own_account_check, transfer_accounts_check,
};
use crate::ledger::{bounded, is_asset_account, LedgerView};
use crate::registry::{
    register_ledger, register_result, register_token_ledger, register_token_result,
};
use crate::transfer::{
    deposit_ledger, deposit_result, deposit_token_ledger, deposit_token_result, withdraw_ledger,
    withdraw_result, withdraw_token_ledger, withdraw_token_result,
};
use vstd::prelude::*;

verus! {

/// Derivation is a function of its inputs: two derivations from the same
/// tag, owner and asset type give the same address with the same bump seed.
pub proof fn lemma_derive_deterministic(
    tag: Seq<u8>,
    owner: Address,
    asset_type: Option<Address>,
    first: Option<(Address, u8)>,
    second: Option<(Address, u8)>,
)
    requires
        derived_view(first) == derive_spec(tag, owner@, opt_view(asset_type)),
        derived_view(second) == derive_spec(tag, owner@, opt_view(asset_type)),
    ensures
        first == second,
{
    if let Some((a, _)) = first {
        if let Some((b, _)) = second {
            lemma_address_by_view(a, b);
        }
    }
}

/// Registration is idempotent. A registration that goes through leaves
/// exactly one account at the custody address and touches no other account;
/// registering again succeeds and changes nothing.
pub proof fn lemma_register_idempotent(l: LedgerView, ctx: Register, vault: Option<(Seq<u8>, u8)>)
    requires
        register_result(ctx, vault) is Ok,
    ensures
        register_ledger(l, ctx, vault).contains_key(ctx.user_vault_account@),
        register_ledger(l, ctx, vault).dom() == l.dom().insert(ctx.user_vault_account@),
        forall|k: Seq<u8>| l.contains_key(k) ==> register_ledger(l, ctx, vault)[k] == l[k],
        register_ledger(register_ledger(l, ctx, vault), ctx, vault) == register_ledger(
            l,
            ctx,
            vault,
        ),
{
    assert(register_ledger(l, ctx, vault).dom() =~= l.dom().insert(ctx.user_vault_account@));
}

/// Asset registration is idempotent. One that goes through leaves the
/// derived authority and the asset custody account allocated, the custody
/// account denominated in the asset type and under the derived authority,
/// and touches no other account; registering again succeeds and changes
/// nothing.
pub proof fn lemma_register_token_idempotent(
    l: LedgerView,
    ctx: RegisterToken,
    authority: Option<(Seq<u8>, u8)>,
    vault: Option<(Seq<u8>, u8)>,
)
    requires
        register_token_result(l, ctx, authority, vault) is Ok,
    ensures
        ({
            let after = register_token_ledger(l, ctx, authority, vault);
            &&& after.dom() == l.dom().insert(ctx.token_account_owner_pda@).insert(
                ctx.vault_token_account@,
            )
            &&& custody_check(
                after,
                ctx.vault_token_account@,
                ctx.mint_of_token_being_sent@,
                ctx.token_account_owner_pda@,
            ) is Ok
            &&& forall|k: Seq<u8>| l.contains_key(k) ==> after[k] == l[k]
            &&& register_token_result(after, ctx, authority, vault) is Ok
            &&& register_token_ledger(after, ctx, authority, vault) == after
        }),
{
    let after = register_token_ledger(l, ctx, authority, vault);
    assert(after.dom() =~= l.dom().insert(ctx.token_account_owner_pda@).insert(
        ctx.vault_token_account@,
    ));
}

/// A native deposit into the signer's custody account, both accounts
/// allocated and distinct, the custody balance able to take the amount: a
/// signer who holds at least the amount ends with exactly that much less and
/// the custody account with exactly that much more; one who holds less gets
/// `InsufficientFunds` and the ledger stays as it was.
pub proof fn lemma_deposit_correct(
    l: LedgerView,
    ctx: Deposit,
    vault: Option<(Seq<u8>, u8)>,
    amount: nat,
)
    requires
        check_spec(ctx.user_vault_account@, vault) is Ok,
        l.contains_key(ctx.signer@),
        l.contains_key(ctx.user_vault_account@),
        ctx.signer@ != ctx.user_vault_account@,
        l[ctx.user_vault_account@].lamports + amount <= u64::MAX,
    ensures
        ({
            let signer = ctx.signer@;
            let custody = ctx.user_vault_account@;
            let after = deposit_ledger(l, ctx, vault, amount);
            if l[signer].lamports >= amount {
                &&& deposit_result(l, ctx, vault, amount) is Ok
                &&& after[custody].lamports == l[custody].lamports + amount
                &&& after[signer].lamports == l[signer].lamports - amount
            } else {
                &&& deposit_result(l, ctx, vault, amount) == Err::<(), Failure>(
                    Failure::Vault(MyError::InsufficientFunds),
                )
                &&& after == l
            }
        }),
{
}

/// A native withdrawal from the signer's custody account, both accounts
/// allocated and distinct, the signer's balance able to take the amount: a
/// custody account that holds at least the amount ends with exactly that
/// much less and the signer with exactly that much more; one that holds less
/// gives `InsufficientFunds` and the ledger stays as it was.
pub proof fn lemma_withdraw_correct(
    l: LedgerView,
    ctx: Withdraw,
    vault: Option<(Seq<u8>, u8)>,
    amount: nat,
)
    requires
        check_spec(ctx.user_vault_account@, vault) is Ok,
        l.contains_key(ctx.signer@),
        l.contains_key(ctx.user_vault_account@),
        ctx.signer@ != ctx.user_vault_account@,
        l[ctx.signer@].lamports + amount <= u64::MAX,
    ensures
        ({
            let signer = ctx.signer@;
            let custody = ctx.user_vault_account@;
            let after = withdraw_ledger(l, ctx, vault, amount);
            if l[custody].lamports >= amount {
                &&& withdraw_result(l, ctx, vault, amount) is Ok
                &&& after[custody].lamports == l[custody].lamports - amount
                &&& after[signer].lamports == l[signer].lamports + amount
            } else {
                &&& withdraw_result(l, ctx, vault, amount) == Err::<(), Failure>(
                    Failure::Vault(MyError::InsufficientFunds),
                )
                &&& after == l
            }
        }),
{
}

/// A deposit that goes through, followed by a withdrawal of the same amount
/// by the same signer, gives back the ledger as it was.
pub proof fn lemma_deposit_then_withdraw(
    l: LedgerView,
    d: Deposit,
    w: Withdraw,
    vault: Option<(Seq<u8>, u8)>,
    amount: nat,
)
    requires
        d.signer@ == w.signer@,
        d.user_vault_account@ == w.user_vault_account@,
        bounded(l),
        deposit_result(l, d, vault, amount) is Ok,
    ensures
        withdraw_result(deposit_ledger(l, d, vault, amount), w, vault, amount) is Ok,
        withdraw_ledger(deposit_ledger(l, d, vault, amount), w, vault, amount) == l,
{
    let mid = deposit_ledger(l, d, vault, amount);
    assert(withdraw_result(mid, w, vault, amount) is Ok);
    assert(withdraw_ledger(mid, w, vault, amount) =~= l);
}

/// An asset deposit into the signer's custody account for the asset type,
/// every account argument what it has to be, the signer's own asset account
/// another account of that asset type under the signer, the custody balance
/// able to take the amount: a signer who holds at least the amount ends with
/// exactly that many units less and the custody account with exactly that
/// many more; one who holds less gets `InsufficientFunds` and the ledger
/// stays as it was.
pub proof fn lemma_deposit_token_correct(
    l: LedgerView,
    ctx: TransferAccounts,
    authority: Option<(Seq<u8>, u8)>,
    vault: Option<(Seq<u8>, u8)>,
    amount: nat,
)
    requires
        transfer_accounts_check(l, ctx, authority, vault) is Ok,
        ctx.sender_token_account@ != ctx.vault_token_account@,
        l[ctx.sender_token_account@].token->0.mint == ctx.mint_of_token_being_sent@,
        l[ctx.sender_token_account@].token->0.authority == ctx.signer@,
        l[ctx.vault_token_account@].token->0.amount + amount <= u64::MAX,
    ensures
        ({
            let sender = ctx.sender_token_account@;
            let custody = ctx.vault_token_account@;
            let after = deposit_token_ledger(l, ctx, authority, vault, amount);
            if l[sender].token->0.amount >= amount {
                &&& deposit_token_result(l, ctx, authority, vault, amount) is Ok
                &&& is_asset_account(after, sender)
                &&& is_asset_account(after, custody)
                &&& after[custody].token->0.amount == l[custody].token->0.amount + amount
                &&& after[sender].token->0.amount == l[sender].token->0.amount - amount
            } else {
                &&& deposit_token_result(l, ctx, authority, vault, amount) == Err::<(), Failure>(
                    Failure::Vault(MyError::InsufficientFunds),
                )
                &&& after == l
            }
        }),
{
}

/// An asset withdrawal from the signer's custody account for the asset type,
/// every account argument what it has to be, the vault's proof speaking for
/// the derived authority, the account to pay another account of that asset
/// type under the signer, its balance able to take the amount: a custody account
/// that holds at least the amount ends with exactly that many units less and
/// the signer's account with exactly that many more; one that holds less
/// gives `InsufficientFunds` and the ledger stays as it was.
pub proof fn lemma_withdraw_token_correct(
    l: LedgerView,
    ctx: TransferAccounts,
    authority: Option<(Seq<u8>, u8)>,
    vault: Option<(Seq<u8>, u8)>,
    amount: nat,
)
    requires
        transfer_accounts_check(l, ctx, authority, vault) is Ok,
        ctx.sender_token_account@ != ctx.vault_token_account@,
        l[ctx.sender_token_account@].token->0.mint == ctx.mint_of_token_being_sent@,
        l[ctx.sender_token_account@].token->0.authority == ctx.signer@,
        l[ctx.sender_token_account@].token->0.amount + amount <= u64::MAX,
    ensures
        ({
            let sender = ctx.sender_token_account@;
            let custody = ctx.vault_token_account@;
            let proven = address_of(authority);
            let after = withdraw_token_ledger(l, ctx, authority, vault, proven, amount);
            if l[custody].token->0.amount >= amount {
                &&& withdraw_token_result(l, ctx, authority, vault, proven, amount) is Ok
                &&& is_asset_account(after, sender)
                &&& is_asset_account(after, custody)
                &&& after[custody].token->0.amount == l[custody].token->0.amount - amount
                &&& after[sender].token->0.amount == l[sender].token->0.amount + amount
            } else {
                &&& withdraw_token_result(l, ctx, authority, vault, proven, amount) == Err::<
                    (),
                    Failure,
                >(Failure::Vault(MyError::InsufficientFunds))
                &&& after == l
            }
        }),
{
}

/// A withdrawal pays the signer and nobody else. Whatever the request names,
/// an asset withdrawal that goes through takes the units from the signer's
/// custody account for the asset type, which stands under the signer's
/// derived authority, and adds them to an asset account of that asset type
/// under the signer; one that names an account under another party to be
/// paid is rejected as unauthorized, whatever the amount, and the ledger
/// stays as it was.
pub proof fn lemma_withdraw_token_pays_the_signer(
    l: LedgerView,
    ctx: TransferAccounts,
    authority: Option<(Seq<u8>, u8)>,
    vault: Option<(Seq<u8>, u8)>,
    proven: Option<Seq<u8>>,
    amount: nat,
)
    ensures
        withdraw_token_result(l, ctx, authority, vault, proven, amount) is Ok ==> {
            &&& own_account_check(l, ctx.sender_token_account@, ctx.signer@) is Ok
            &&& l[ctx.sender_token_account@].token->0.mint == ctx.mint_of_token_being_sent@
            &&& custody_check(
                l,
                ctx.vault_token_account@,
                ctx.mint_of_token_being_sent@,
                ctx.token_account_owner_pda@,
            ) is Ok
            &&& address_of(authority) == Some(ctx.token_account_owner_pda@)
            &&& address_of(vault) == Some(ctx.vault_token_account@)
        },
        transfer_accounts_check(l, ctx, authority, vault) is Ok && own_account_check(
            l,
            ctx.sender_token_account@,
            ctx.signer@,
        ) is Err ==> {
            &&& withdraw_token_result(l, ctx, authority, vault, proven, amount) == Err::<
                (),
                Failure,
            >(Failure::Rejected(Rejection::Unauthorized))
            &&& withdraw_token_ledger(l, ctx, authority, vault, proven, amount) == l
        },
{
}

/// Asset transfers stay within their asset type. Whatever an asset deposit
/// or withdrawal for one asset type does, no account is allocated or
/// removed, no native balance changes, and every account that is not an
/// asset account of that asset type is after it what it was before.
pub proof fn lemma_asset_types_isolated(
    l: LedgerView,
    ctx: TransferAccounts,
    authority: Option<(Seq<u8>, u8)>,
    vault: Option<(Seq<u8>, u8)>,
    proven: Option<Seq<u8>>,
    amount: nat,
    other: Seq<u8>,
)
    requires
        l.contains_key(other),
    ensures
        ({
            let deposited = deposit_token_ledger(l, ctx, authority, vault, amount);
            let withdrawn = withdraw_token_ledger(l, ctx, authority, vault, proven, amount);
            let of_this_type = l[other].token matches Some(t) && t.mint
                == ctx.mint_of_token_being_sent@;
            &&& deposited.dom() == l.dom()
            &&& withdrawn.dom() == l.dom()
            &&& deposited[other].lamports == l[other].lamports
            &&& withdrawn[other].lamports == l[other].lamports
            &&& !of_this_type ==> deposited[other] == l[other] && withdrawn[other] == l[other]
        }),
{
    let deposited = deposit_token_ledger(l, ctx, authority, vault, amount);
    let withdrawn = withdraw_token_ledger(l, ctx, authority, vault, proven, amount);
    assert(deposited.dom() =~= l.dom());
    assert(withdrawn.dom() =~= l.dom());
}

/// Asset transfers change balances only. After an asset deposit or
/// withdrawal every asset account is denominated in the asset type and
/// stands under the authority that it had before, so an asset custody
/// account stays under its owner's derived authority.
pub proof fn lemma_asset_accounts_keep_authority(
    l: LedgerView,
    ctx: TransferAccounts,
    authority: Option<(Seq<u8>, u8)>,
    vault: Option<(Seq<u8>, u8)>,
    proven: Option<Seq<u8>>,
    amount: nat,
    account: Seq<u8>,
    mint: Seq<u8>,
    party: Seq<u8>,
)
    ensures
        custody_check(deposit_token_ledger(l, ctx, authority, vault, amount), account, mint, party)
            == custody_check(l, account, mint, party),
        custody_check(
            withdraw_token_ledger(l, ctx, authority, vault, proven, amount),
            account,
            mint,
            party,
        ) == custody_check(l, account, mint, party),
{
}

/// The guard comes first. Where the custody account that a request names is
/// not the address that the signer derives, a native deposit or withdrawal
/// is rejected for that reason, whatever the amount and the balances, and
/// the ledger stays as it was.
pub proof fn lemma_guard_rejects_native(
    l: LedgerView,
    d: Deposit,
    w: Withdraw,
    vault: Option<(Seq<u8>, u8)>,
    amount: nat,
)
    ensures
        check_spec(d.user_vault_account@, vault) matches Err(e) ==> {
            &&& deposit_result(l, d, vault, amount) == Err::<(), Failure>(Failure::Rejected(e))
            &&& deposit_ledger(l, d, vault, amount) == l
        },
        check_spec(w.user_vault_account@, vault) matches Err(e) ==> {
            &&& withdraw_result(l, w, vault, amount) == Err::<(), Failure>(Failure::Rejected(e))
            &&& withdraw_ledger(l, w, vault, amount) == l
        },
{
}

/// The guard comes first for assets too. Where the derived authority or the
/// asset custody account that a request names is not the address that the
/// signer and the asset type derive, an asset deposit or withdrawal is
/// rejected, whatever the amount and the balances, and the ledger stays as
/// it was.
pub proof fn lemma_guard_rejects_asset(
    l: LedgerView,
    ctx: TransferAccounts,
    authority: Option<(Seq<u8>, u8)>,
    vault: Option<(Seq<u8>, u8)>,
    proven: Option<Seq<u8>>,
    amount: nat,
)
    requires
        check_spec(ctx.token_account_owner_pda@, authority) is Err || check_spec(
            ctx.vault_token_account@,
            vault,
        ) is Err,
    ensures
        deposit_token_result(l, ctx, authority, vault, amount) matches Err(Failure::Rejected(_)),
        withdraw_token_result(l, ctx, authority, vault, proven, amount) matches Err(
            Failure::Rejected(_),
        ),
        deposit_token_ledger(l, ctx, authority, vault, amount) == l,
        withdraw_token_ledger(l, ctx, authority, vault, proven, amount) == l,
{
}

/// The vault never removes an account: whatever one of its operations does,
/// every account that was allocated before it is allocated after it.
pub proof fn lemma_accounts_stay(
    l: LedgerView,
    r: Register,
    rt: RegisterToken,
    d: Deposit,
    w: Withdraw,
    t: TransferAccounts,
    authority: Option<(Seq<u8>, u8)>,
    vault: Option<(Seq<u8>, u8)>,
    proven: Option<Seq<u8>>,
    amount: nat,
    key: Seq<u8>,
)
    requires
        l.contains_key(key),
    ensures
        register_ledger(l, r, vault).contains_key(key),
        register_token_ledger(l, rt, authority, vault).contains_key(key),
        deposit_ledger(l, d, vault, amount).contains_key(key),
        withdraw_ledger(l, w, vault, amount).contains_key(key),
        deposit_token_ledger(l, t, authority, vault, amount).contains_key(key),
        withdraw_token_ledger(l, t, authority, vault, proven, amount).contains_key(key),
{
}

} // verus!
