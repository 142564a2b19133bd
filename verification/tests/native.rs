use my_solana_vault::address;
use my_solana_vault::address::VAULT_TAG;
use my_solana_vault::registry::{register, register_with};
use my_solana_vault::transfer::{deposit, deposit_with, withdraw, withdraw_with};
use my_solana_vault::{
    Address, Deposit, Failure, Ledger, MyError, Register, Rejection, Withdraw,
};

fn party(n: u8) -> Address {
    Address::new([n; 32])
}

fn custody_of(owner: &Address) -> Address {
    address::derive(&VAULT_TAG, owner, None).unwrap().0
}

fn funded(owner: &Address, lamports: u64) -> Ledger {
    let mut l = Ledger::new();
    l.allocate(owner).unwrap();
    l.credit(owner, lamports).unwrap();
    l
}

fn registered(owner: &Address, lamports: u64) -> (Ledger, Address) {
    let mut l = funded(owner, lamports);
    let custody = custody_of(owner);
    assert_eq!(register(&mut l, &Register { user_vault_account: custody, owner: *owner }), Ok(()));
    (l, custody)
}

#[test]
fn register_allocates_the_custody_account() {
    let owner = party(1);
    let mut l = funded(&owner, 1000);
    let custody = custody_of(&owner);
    assert!(!l.contains(&custody));
    assert_eq!(register(&mut l, &Register { user_vault_account: custody, owner }), Ok(()));
    assert_eq!(l.lamports(&custody), Some(0));
    assert_eq!(l.token(&custody), None);
    assert_eq!(l.lamports(&owner), Some(1000));
    assert_eq!(l.len(), 2);
}

#[test]
fn register_twice_leaves_one_custody_account() {
    let owner = party(1);
    let (mut l, custody) = registered(&owner, 1000);
    assert_eq!(deposit(&mut l, &Deposit { user_vault_account: custody, signer: owner }, 300), Ok(()));
    assert_eq!(register(&mut l, &Register { user_vault_account: custody, owner }), Ok(()));
    assert_eq!(l.len(), 2);
    assert_eq!(l.lamports(&custody), Some(300));
    assert_eq!(l.lamports(&owner), Some(700));
}

#[test]
fn register_rejects_an_account_that_the_owner_does_not_derive() {
    let owner = party(1);
    let mut l = funded(&owner, 1000);
    let r = register(&mut l, &Register { user_vault_account: custody_of(&party(2)), owner });
    assert_eq!(r, Err(Failure::Rejected(Rejection::AddressMismatch)));
    assert_eq!(l.len(), 1);
    let r = register(&mut l, &Register { user_vault_account: owner, owner });
    assert_eq!(r, Err(Failure::Rejected(Rejection::AddressMismatch)));
    assert_eq!(l.len(), 1);
}

#[test]
fn register_fails_where_the_derivation_is_exhausted() {
    let owner = party(1);
    let mut l = funded(&owner, 1000);
    let r = register_with(&mut l, &Register { user_vault_account: party(3), owner }, None);
    assert_eq!(r, Err(Failure::Rejected(Rejection::DerivationExhausted)));
    assert_eq!(l.len(), 1);
    let r = register_with(
        &mut l,
        &Register { user_vault_account: party(3), owner },
        Some((party(3), 200)),
    );
    assert_eq!(r, Ok(()));
    assert_eq!(l.lamports(&party(3)), Some(0));
}

#[test]
fn scenario_deposit_then_withdraw() {
    let owner = party(1);
    let (mut l, custody) = registered(&owner, 1000);
    assert_eq!(deposit(&mut l, &Deposit { user_vault_account: custody, signer: owner }, 500), Ok(()));
    assert_eq!(l.lamports(&custody), Some(500));
    assert_eq!(l.lamports(&owner), Some(500));
    assert_eq!(
        withdraw(&mut l, &Withdraw { user_vault_account: custody, signer: owner }, 500),
        Ok(())
    );
    assert_eq!(l.lamports(&custody), Some(0));
    assert_eq!(l.lamports(&owner), Some(1000));
}

#[test]
fn scenario_withdraw_from_an_empty_custody_account() {
    let owner = party(1);
    let (mut l, custody) = registered(&owner, 1000);
    let r = withdraw(&mut l, &Withdraw { user_vault_account: custody, signer: owner }, 500);
    assert_eq!(r, Err(Failure::Vault(MyError::InsufficientFunds)));
    assert_eq!(l.lamports(&custody), Some(0));
    assert_eq!(l.lamports(&owner), Some(1000));
}

#[test]
fn deposit_of_more_than_the_signer_holds() {
    let owner = party(1);
    let (mut l, custody) = registered(&owner, 1000);
    let ctx = Deposit { user_vault_account: custody, signer: owner };
    assert_eq!(deposit(&mut l, &ctx, 1001), Err(Failure::Vault(MyError::InsufficientFunds)));
    assert_eq!(l.lamports(&custody), Some(0));
    assert_eq!(l.lamports(&owner), Some(1000));
    assert_eq!(deposit(&mut l, &ctx, 1000), Ok(()));
    assert_eq!(l.lamports(&custody), Some(1000));
    assert_eq!(l.lamports(&owner), Some(0));
    assert_eq!(deposit(&mut l, &ctx, 0), Ok(()));
    assert_eq!(deposit(&mut l, &ctx, 1), Err(Failure::Vault(MyError::InsufficientFunds)));
}

#[test]
fn withdraw_of_part_of_the_custody_balance() {
    let owner = party(2);
    let (mut l, custody) = registered(&owner, 90);
    assert_eq!(deposit(&mut l, &Deposit { user_vault_account: custody, signer: owner }, 80), Ok(()));
    let ctx = Withdraw { user_vault_account: custody, signer: owner };
    assert_eq!(withdraw(&mut l, &ctx, 30), Ok(()));
    assert_eq!(l.lamports(&custody), Some(50));
    assert_eq!(l.lamports(&owner), Some(40));
    assert_eq!(withdraw(&mut l, &ctx, 51), Err(Failure::Vault(MyError::InsufficientFunds)));
    assert_eq!(l.lamports(&custody), Some(50));
    assert_eq!(l.lamports(&owner), Some(40));
}

#[test]
fn guard_comes_before_the_balance_check() {
    let owner = party(1);
    let thief = party(2);
    let (mut l, custody) = registered(&owner, 1000);
    l.allocate(&thief).unwrap();
    assert_eq!(deposit(&mut l, &Deposit { user_vault_account: custody, signer: owner }, 500), Ok(()));
    // The custody account of another owner, with an amount that it holds and
    // with one that it does not.
    let ctx = Withdraw { user_vault_account: custody, signer: thief };
    assert_eq!(withdraw(&mut l, &ctx, 100), Err(Failure::Rejected(Rejection::AddressMismatch)));
    assert_eq!(withdraw(&mut l, &ctx, 501), Err(Failure::Rejected(Rejection::AddressMismatch)));
    let ctx = Deposit { user_vault_account: custody, signer: thief };
    assert_eq!(deposit(&mut l, &ctx, 1), Err(Failure::Rejected(Rejection::AddressMismatch)));
    assert_eq!(l.lamports(&custody), Some(500));
    assert_eq!(l.lamports(&owner), Some(500));
    assert_eq!(l.lamports(&thief), Some(0));
}

#[test]
fn deposit_needs_a_registered_custody_account() {
    let owner = party(1);
    let mut l = funded(&owner, 1000);
    let ctx = Deposit { user_vault_account: custody_of(&owner), signer: owner };
    assert_eq!(deposit(&mut l, &ctx, 500), Err(Failure::Rejected(Rejection::AccountMissing)));
    assert_eq!(deposit(&mut l, &ctx, 1001), Err(Failure::Vault(MyError::InsufficientFunds)));
    assert_eq!(l.lamports(&owner), Some(1000));
    assert_eq!(l.len(), 1);
}

#[test]
fn deposit_and_withdraw_need_the_signer_s_account() {
    let owner = party(1);
    let mut l = Ledger::new();
    let custody = custody_of(&owner);
    assert_eq!(register(&mut l, &Register { user_vault_account: custody, owner }), Ok(()));
    let r = deposit(&mut l, &Deposit { user_vault_account: custody, signer: owner }, 0);
    assert_eq!(r, Err(Failure::Rejected(Rejection::AccountMissing)));
    let r = withdraw(&mut l, &Withdraw { user_vault_account: custody, signer: owner }, 0);
    assert_eq!(r, Err(Failure::Rejected(Rejection::AccountMissing)));
    assert_eq!(l.len(), 1);
}

#[test]
fn withdraw_needs_a_registered_custody_account() {
    let owner = party(1);
    let mut l = funded(&owner, 1000);
    let ctx = Withdraw { user_vault_account: custody_of(&owner), signer: owner };
    assert_eq!(withdraw(&mut l, &ctx, 0), Err(Failure::Rejected(Rejection::AccountMissing)));
}

#[test]
fn deposit_stops_at_the_largest_balance() {
    let owner = party(1);
    let (mut l, custody) = registered(&owner, 10);
    l.credit(&custody, u64::MAX - 4).unwrap();
    let ctx = Deposit { user_vault_account: custody, signer: owner };
    assert_eq!(deposit(&mut l, &ctx, 5), Err(Failure::Rejected(Rejection::Overflow)));
    assert_eq!(l.lamports(&owner), Some(10));
    assert_eq!(l.lamports(&custody), Some(u64::MAX - 4));
    assert_eq!(deposit(&mut l, &ctx, 4), Ok(()));
    assert_eq!(l.lamports(&custody), Some(u64::MAX));
}

#[test]
fn withdraw_stops_at_the_largest_balance() {
    let owner = party(1);
    let (mut l, custody) = registered(&owner, u64::MAX);
    l.credit(&custody, 10).unwrap();
    let ctx = Withdraw { user_vault_account: custody, signer: owner };
    assert_eq!(withdraw(&mut l, &ctx, 1), Err(Failure::Rejected(Rejection::Overflow)));
    assert_eq!(l.lamports(&owner), Some(u64::MAX));
    assert_eq!(l.lamports(&custody), Some(10));
    assert_eq!(withdraw(&mut l, &ctx, 0), Ok(()));
}

#[test]
fn custody_accounts_of_two_owners_are_apart() {
    let alice = party(1);
    let bob = party(2);
    let (mut l, custody_a) = registered(&alice, 1000);
    l.allocate(&bob).unwrap();
    l.credit(&bob, 50).unwrap();
    let custody_b = custody_of(&bob);
    assert_eq!(register(&mut l, &Register { user_vault_account: custody_b, owner: bob }), Ok(()));
    assert_eq!(deposit(&mut l, &Deposit { user_vault_account: custody_a, signer: alice }, 400), Ok(()));
    assert_eq!(deposit(&mut l, &Deposit { user_vault_account: custody_b, signer: bob }, 20), Ok(()));
    assert_eq!(l.lamports(&custody_a), Some(400));
    assert_eq!(l.lamports(&custody_b), Some(20));
    assert_eq!(l.lamports(&alice), Some(600));
    assert_eq!(l.lamports(&bob), Some(30));
    assert_eq!(l.len(), 4);
}

#[test]
fn operations_on_a_given_derivation() {
    let owner = party(1);
    let custody = party(8);
    let derived = Some((custody, 254));
    let mut l = funded(&owner, 1000);
    assert_eq!(register_with(&mut l, &Register { user_vault_account: custody, owner }, derived), Ok(()));
    let d = Deposit { user_vault_account: custody, signer: owner };
    assert_eq!(deposit_with(&mut l, &d, derived, 500), Ok(()));
    assert_eq!(l.lamports(&custody), Some(500));
    assert_eq!(l.lamports(&owner), Some(500));
    assert_eq!(
        deposit_with(&mut l, &d, Some((party(9), 254)), 1),
        Err(Failure::Rejected(Rejection::AddressMismatch))
    );
    assert_eq!(deposit_with(&mut l, &d, None, 1), Err(Failure::Rejected(Rejection::DerivationExhausted)));
    let w = Withdraw { user_vault_account: custody, signer: owner };
    assert_eq!(withdraw_with(&mut l, &w, None, 1), Err(Failure::Rejected(Rejection::DerivationExhausted)));
    assert_eq!(withdraw_with(&mut l, &w, derived, 501), Err(Failure::Vault(MyError::InsufficientFunds)));
    assert_eq!(withdraw_with(&mut l, &w, derived, 500), Ok(()));
    assert_eq!(l.lamports(&custody), Some(0));
    assert_eq!(l.lamports(&owner), Some(1000));
}

#[test]
fn signer_who_is_the_custody_account_keeps_the_balance() {
    let owner = party(1);
    let derived = Some((owner, 255));
    let mut l = funded(&owner, u64::MAX);
    let d = Deposit { user_vault_account: owner, signer: owner };
    assert_eq!(deposit_with(&mut l, &d, derived, 7), Ok(()));
    assert_eq!(l.lamports(&owner), Some(u64::MAX));
    let w = Withdraw { user_vault_account: owner, signer: owner };
    assert_eq!(withdraw_with(&mut l, &w, derived, 7), Ok(()));
    assert_eq!(l.lamports(&owner), Some(u64::MAX));
}
