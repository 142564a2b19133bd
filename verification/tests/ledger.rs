use my_solana_vault::{Account, Address, Ledger, Rejection, TokenState};

fn party(n: u8) -> Address {
    Address::new([n; 32])
}

#[test]
fn new_ledger_is_empty() {
    let l = Ledger::new();
    assert_eq!(l.len(), 0);
    assert!(!l.contains(&party(1)));
    assert_eq!(l.lamports(&party(1)), None);
    assert_eq!(l.token(&party(1)), None);
    assert_eq!(l.account(&party(1)), None);
}

#[test]
fn allocate_gives_an_empty_account_once() {
    let mut l = Ledger::new();
    assert_eq!(l.allocate(&party(1)), Ok(()));
    assert_eq!(l.len(), 1);
    assert_eq!(l.lamports(&party(1)), Some(0));
    assert_eq!(l.token(&party(1)), None);
    assert_eq!(l.allocate(&party(1)), Err(Rejection::AccountInUse));
    assert_eq!(l.len(), 1);
    assert_eq!(l.allocate(&party(2)), Ok(()));
    assert_eq!(l.len(), 2);
}

#[test]
fn allocate_token_gives_an_empty_asset_account_once() {
    let mut l = Ledger::new();
    assert_eq!(l.allocate_token(&party(1), &party(9), &party(5)), Ok(()));
    assert_eq!(
        l.token(&party(1)),
        Some(TokenState { mint: party(9), authority: party(5), amount: 0 })
    );
    assert_eq!(l.lamports(&party(1)), Some(0));
    assert_eq!(l.allocate_token(&party(1), &party(10), &party(6)), Err(Rejection::AccountInUse));
    assert_eq!(l.allocate(&party(1)), Err(Rejection::AccountInUse));
    assert_eq!(
        l.token(&party(1)),
        Some(TokenState { mint: party(9), authority: party(5), amount: 0 })
    );
    let a = l.account(&party(1)).unwrap();
    assert_eq!(a.key, party(1));
    assert_eq!(a.lamports, 0);
}

#[test]
fn credit_and_debit_change_one_balance() {
    let mut l = Ledger::new();
    l.allocate(&party(1)).unwrap();
    l.allocate(&party(2)).unwrap();
    assert_eq!(l.credit(&party(1), 1000), Ok(()));
    assert_eq!(l.lamports(&party(1)), Some(1000));
    assert_eq!(l.lamports(&party(2)), Some(0));
    assert_eq!(l.debit(&party(1), 400), Ok(()));
    assert_eq!(l.lamports(&party(1)), Some(600));
    assert_eq!(l.debit(&party(1), 601), Err(Rejection::BalanceTooLow));
    assert_eq!(l.lamports(&party(1)), Some(600));
    assert_eq!(l.debit(&party(1), 600), Ok(()));
    assert_eq!(l.lamports(&party(1)), Some(0));
}

#[test]
fn credit_and_debit_need_an_account() {
    let mut l = Ledger::new();
    assert_eq!(l.credit(&party(1), 1), Err(Rejection::AccountMissing));
    assert_eq!(l.debit(&party(1), 0), Err(Rejection::AccountMissing));
    assert_eq!(l.len(), 0);
}

#[test]
fn credit_stops_at_the_largest_balance() {
    let mut l = Ledger::new();
    l.allocate(&party(1)).unwrap();
    assert_eq!(l.credit(&party(1), u64::MAX - 1), Ok(()));
    assert_eq!(l.credit(&party(1), 2), Err(Rejection::Overflow));
    assert_eq!(l.lamports(&party(1)), Some(u64::MAX - 1));
    assert_eq!(l.credit(&party(1), 1), Ok(()));
    assert_eq!(l.lamports(&party(1)), Some(u64::MAX));
}

#[test]
fn mint_to_issues_units() {
    let mut l = Ledger::new();
    l.allocate_token(&party(1), &party(9), &party(5)).unwrap();
    l.allocate(&party(2)).unwrap();
    assert_eq!(l.mint_to(&party(1), 70), Ok(()));
    assert_eq!(l.mint_to(&party(1), 30), Ok(()));
    assert_eq!(l.token(&party(1)).unwrap().amount, 100);
    assert_eq!(l.lamports(&party(1)), Some(0));
    assert_eq!(l.mint_to(&party(2), 1), Err(Rejection::NotAssetAccount));
    assert_eq!(l.mint_to(&party(3), 1), Err(Rejection::AccountMissing));
    assert_eq!(l.mint_to(&party(1), u64::MAX), Err(Rejection::Overflow));
    assert_eq!(l.token(&party(1)).unwrap().amount, 100);
}

#[test]
fn transfer_moves_native_balance() {
    let mut l = Ledger::new();
    l.allocate(&party(1)).unwrap();
    l.allocate(&party(2)).unwrap();
    l.allocate(&party(3)).unwrap();
    l.credit(&party(1), 1000).unwrap();
    l.credit(&party(3), 5).unwrap();
    assert_eq!(l.transfer(&party(1), &party(2), &party(1), 250), Ok(()));
    assert_eq!(l.lamports(&party(1)), Some(750));
    assert_eq!(l.lamports(&party(2)), Some(250));
    assert_eq!(l.lamports(&party(3)), Some(5));
    assert_eq!(l.transfer(&party(1), &party(2), &party(1), 0), Ok(()));
    assert_eq!(l.lamports(&party(1)), Some(750));
}

#[test]
fn transfer_fails_without_a_change() {
    let mut l = Ledger::new();
    l.allocate(&party(1)).unwrap();
    l.allocate(&party(2)).unwrap();
    l.credit(&party(1), 10).unwrap();
    l.credit(&party(2), u64::MAX - 5).unwrap();
    assert_eq!(l.transfer(&party(1), &party(2), &party(1), 11), Err(Rejection::BalanceTooLow));
    assert_eq!(l.transfer(&party(1), &party(2), &party(1), 6), Err(Rejection::Overflow));
    assert_eq!(l.transfer(&party(1), &party(4), &party(1), 1), Err(Rejection::AccountMissing));
    assert_eq!(l.transfer(&party(4), &party(1), &party(4), 1), Err(Rejection::AccountMissing));
    assert_eq!(l.lamports(&party(1)), Some(10));
    assert_eq!(l.lamports(&party(2)), Some(u64::MAX - 5));
    assert_eq!(l.transfer(&party(1), &party(2), &party(1), 5), Ok(()));
    assert_eq!(l.lamports(&party(2)), Some(u64::MAX));
}

#[test]
fn transfer_to_oneself_changes_nothing() {
    let mut l = Ledger::new();
    l.allocate(&party(1)).unwrap();
    l.credit(&party(1), u64::MAX).unwrap();
    assert_eq!(l.transfer(&party(1), &party(1), &party(1), 7), Ok(()));
    assert_eq!(l.lamports(&party(1)), Some(u64::MAX));
}

fn asset_ledger() -> Ledger {
    let mut l = Ledger::new();
    l.allocate_token(&party(1), &party(9), &party(5)).unwrap();
    l.allocate_token(&party(2), &party(9), &party(6)).unwrap();
    l.allocate_token(&party(3), &party(10), &party(5)).unwrap();
    l.allocate(&party(4)).unwrap();
    l.mint_to(&party(1), 100).unwrap();
    l.mint_to(&party(3), 40).unwrap();
    l
}

#[test]
fn token_transfer_moves_units_of_one_asset_type() {
    let mut l = asset_ledger();
    assert_eq!(l.token_transfer(&party(1), &party(2), Some(party(5)), 60), Ok(()));
    assert_eq!(l.token(&party(1)).unwrap().amount, 40);
    assert_eq!(l.token(&party(2)).unwrap().amount, 60);
    assert_eq!(l.token(&party(3)).unwrap().amount, 40);
    assert_eq!(
        l.token(&party(2)),
        Some(TokenState { mint: party(9), authority: party(6), amount: 60 })
    );
    assert_eq!(l.token_transfer(&party(1), &party(1), Some(party(5)), 40), Ok(()));
    assert_eq!(l.token(&party(1)).unwrap().amount, 40);
}

#[test]
fn token_transfer_fails_without_a_change() {
    let mut l = asset_ledger();
    let none: Option<Address> = None;
    assert_eq!(
        l.token_transfer(&party(1), &party(8), Some(party(5)), 1),
        Err(Rejection::AccountMissing)
    );
    assert_eq!(
        l.token_transfer(&party(1), &party(4), Some(party(5)), 1),
        Err(Rejection::NotAssetAccount)
    );
    assert_eq!(
        l.token_transfer(&party(1), &party(3), Some(party(5)), 1),
        Err(Rejection::MintMismatch)
    );
    assert_eq!(
        l.token_transfer(&party(1), &party(2), Some(party(6)), 1),
        Err(Rejection::Unauthorized)
    );
    assert_eq!(l.token_transfer(&party(1), &party(2), none, 1), Err(Rejection::Unauthorized));
    assert_eq!(
        l.token_transfer(&party(1), &party(2), Some(party(5)), 101),
        Err(Rejection::BalanceTooLow)
    );
    l.mint_to(&party(2), u64::MAX).unwrap();
    assert_eq!(
        l.token_transfer(&party(1), &party(2), Some(party(5)), 1),
        Err(Rejection::Overflow)
    );
    assert_eq!(l.token(&party(1)).unwrap().amount, 100);
    assert_eq!(l.token(&party(2)).unwrap().amount, u64::MAX);
    assert_eq!(l.token(&party(3)).unwrap().amount, 40);
}

#[test]
fn transfer_needs_the_word_of_the_paying_account() {
    let mut l = Ledger::new();
    l.allocate(&party(1)).unwrap();
    l.allocate(&party(2)).unwrap();
    l.credit(&party(1), 10).unwrap();
    assert_eq!(l.transfer(&party(1), &party(2), &party(2), 5), Err(Rejection::Unauthorized));
    assert_eq!(l.transfer(&party(1), &party(2), &party(3), 11), Err(Rejection::Unauthorized));
    assert_eq!(l.lamports(&party(1)), Some(10));
    assert_eq!(l.lamports(&party(2)), Some(0));
    assert_eq!(l.transfer(&party(1), &party(2), &party(1), 5), Ok(()));
    assert_eq!(l.lamports(&party(2)), Some(5));
}

#[test]
fn open_allocates_an_account_with_what_it_holds() {
    let mut l = Ledger::new();
    let token = TokenState { mint: party(9), authority: party(5), amount: 12 };
    let a = Account { key: party(1), lamports: 34, token: Some(token) };
    let b = Account { key: party(2), lamports: 56, token: None };
    assert_eq!(l.open(a), Ok(()));
    assert_eq!(l.open(b), Ok(()));
    assert_eq!(l.open(Account { key: party(1), lamports: 0, token: None }), Err(Rejection::AccountInUse));
    assert_eq!(l.account(&party(1)), Some(a));
    assert_eq!(l.account(&party(2)), Some(b));
    assert_eq!(l.lamports(&party(1)), Some(34));
    assert_eq!(l.token(&party(1)), Some(token));
    assert_eq!(l.token(&party(2)), None);
    assert_eq!(l.len(), 2);
}
