use crate::address::Address;
use crate::error::Rejection;
use vstd::prelude::*;

verus! {

/// The asset side of an account: which asset type it is denominated in, who
/// may authorize transfers out of it, and how many units it holds.
#[derive(Clone, Copy, Debug, PartialEq, Eq)]
pub struct TokenState {
    pub mint: Address,
    pub authority: Address,
    pub amount: u64,
}

/// What a `TokenState` stands for.
pub struct TokenView {
    pub mint: Seq<u8>,
    pub authority: Seq<u8>,
    pub amount: nat,
}

impl View for TokenState {
    type V = TokenView;

    open spec fn view(&self) -> TokenView {
        TokenView { mint: self.mint@, authority: self.authority@, amount: self.amount as nat }
    }
}

/// One account of the ledger.
#[derive(Clone, Copy, Debug, PartialEq, Eq)]
pub struct Account {
    pub key: Address,
    pub lamports: u64,
    pub token: Option<TokenState>,
}

/// What the ledger holds at one address: the native balance, and the asset
/// side where the account has one.
pub struct AccountView {
    pub lamports: nat,
    pub token: Option<TokenView>,
}

impl View for Account {
    type V = AccountView;

    open spec fn view(&self) -> AccountView {
        AccountView {
            lamports: self.lamports as nat,
            token: match self.token {
                Some(t) => Some(t@),
                None => None,
            },
        }
    }
}

/// The ledger as a map from an address to what is allocated there.
pub type LedgerView = Map<Seq<u8>, AccountView>;

spec fn holds_key(accounts: Seq<Account>, key: Seq<u8>) -> bool {
    exists|i: int| 0 <= i < accounts.len() && (#[trigger] accounts[i]).key@ == key
}

spec fn index_of(accounts: Seq<Account>, key: Seq<u8>) -> int {
    choose|i: int| 0 <= i < accounts.len() && (#[trigger] accounts[i]).key@ == key
}

spec fn distinct_keys(accounts: Seq<Account>) -> bool {
    forall|i: int, j: int|
        0 <= i < j < accounts.len() ==> (#[trigger] accounts[i]).key@ != (
        #[trigger] accounts[j]).key@
}

/// The map that a list of accounts with distinct keys stands for.
spec fn table(accounts: Seq<Account>) -> LedgerView {
    Map::new(
        |k: Seq<u8>| holds_key(accounts, k),
        |k: Seq<u8>| accounts[index_of(accounts, k)]@,
    )
}

proof fn lemma_table_at(accounts: Seq<Account>, i: int)
    requires
        distinct_keys(accounts),
        0 <= i < accounts.len(),
    ensures
        table(accounts).contains_key(accounts[i].key@),
        table(accounts)[accounts[i].key@] == accounts[i]@,
{
    let k = accounts[i].key@;
    assert(holds_key(accounts, k));
    let j = index_of(accounts, k);
    assert(0 <= j < accounts.len() && accounts[j].key@ == k);
    assert(i == j);
}

proof fn lemma_table_update(accounts: Seq<Account>, i: int, a: Account)
    requires
        distinct_keys(accounts),
        0 <= i < accounts.len(),
        a.key@ == accounts[i].key@,
    ensures
        distinct_keys(accounts.update(i, a)),
        table(accounts.update(i, a)) == table(accounts).insert(a.key@, a@),
{
    let after = accounts.update(i, a);
    assert forall|x: int, y: int| 0 <= x < y < after.len() implies (#[trigger] after[x]).key@ != (
    #[trigger] after[y]).key@ by {
        assert(after[x].key@ == accounts[x].key@);
        assert(after[y].key@ == accounts[y].key@);
    }
    assert forall|k: Seq<u8>| holds_key(after, k) == holds_key(accounts, k) by {
        if holds_key(after, k) {
            let j = index_of(after, k);
            assert(accounts[j].key@ == k);
        }
        if holds_key(accounts, k) {
            let j = index_of(accounts, k);
            assert(after[j].key@ == k);
        }
    }
    assert forall|k: Seq<u8>| holds_key(after, k) implies #[trigger] table(after)[k] == table(
        accounts,
    ).insert(a.key@, a@)[k] by {
        let j = index_of(after, k);
        assert(accounts[j].key@ == k);
        lemma_table_at(accounts, j);
        lemma_table_at(after, j);
    }
    assert(table(after) =~= table(accounts).insert(a.key@, a@));
}

proof fn lemma_table_push(accounts: Seq<Account>, a: Account)
    requires
        distinct_keys(accounts),
        !holds_key(accounts, a.key@),
    ensures
        distinct_keys(accounts.push(a)),
        table(accounts.push(a)) == table(accounts).insert(a.key@, a@),
{
    let after = accounts.push(a);
    let n = accounts.len() as int;
    assert forall|x: int, y: int| 0 <= x < y < after.len() implies (#[trigger] after[x]).key@ != (
    #[trigger] after[y]).key@ by {
        assert(after[x] == accounts[x]);
        if y < n {
            assert(after[y] == accounts[y]);
        }
    }
    assert(after[n].key@ == a.key@);
    assert forall|k: Seq<u8>| holds_key(after, k) == (holds_key(accounts, k) || k == a.key@) by {
        if holds_key(after, k) {
            let j = index_of(after, k);
            if j < n {
                assert(accounts[j].key@ == k);
            }
        }
        if holds_key(accounts, k) {
            let j = index_of(accounts, k);
            assert(after[j].key@ == k);
        }
    }
    assert forall|k: Seq<u8>| holds_key(after, k) implies #[trigger] table(after)[k] == table(
        accounts,
    ).insert(a.key@, a@)[k] by {
        let j = index_of(after, k);
        lemma_table_at(after, j);
        if j < n {
            assert(accounts[j].key@ == k);
            lemma_table_at(accounts, j);
        }
    }
    assert(table(after) =~= table(accounts).insert(a.key@, a@));
}

proof fn lemma_table_size(accounts: Seq<Account>)
    requires
        distinct_keys(accounts),
    ensures
        table(accounts).dom().finite(),
        table(accounts).dom().len() == accounts.len(),
    decreases accounts.len(),
{
    if accounts.len() == 0 {
        assert(table(accounts).dom() =~= Set::<Seq<u8>>::empty());
    } else {
        let init = accounts.drop_last();
        let a = accounts.last();
        assert forall|i: int, j: int| 0 <= i < j < init.len() implies (#[trigger] init[i]).key@ != (
        #[trigger] init[j]).key@ by {
            assert(init[i] == accounts[i]);
            assert(init[j] == accounts[j]);
        }
        if holds_key(init, a.key@) {
            let i = index_of(init, a.key@);
            assert(init[i] == accounts[i]);
            assert(accounts[accounts.len() - 1] == a);
            assert(false);
        }
        lemma_table_push(init, a);
        assert(init.push(a) =~= accounts);
        lemma_table_size(init);
        assert(!table(init).dom().contains(a.key@));
    }
}

/// `l` with the native balance at `key` set to `lamports`.
pub open spec fn with_lamports(l: LedgerView, key: Seq<u8>, lamports: nat) -> LedgerView {
    l.insert(key, AccountView { lamports, token: l[key].token })
}

/// `l` with the asset balance at `key` set to `amount`.
pub open spec fn with_amount(l: LedgerView, key: Seq<u8>, amount: nat) -> LedgerView {
    l.insert(
        key,
        AccountView {
            lamports: l[key].lamports,
            token: Some(
                TokenView {
                    mint: l[key].token->0.mint,
                    authority: l[key].token->0.authority,
                    amount,
                },
            ),
        },
    )
}

/// Whether `key` is allocated in `l` and has an asset side.
pub open spec fn is_asset_account(l: LedgerView, key: Seq<u8>) -> bool {
    l.contains_key(key) && l[key].token is Some
}

/// `l` after `amount` was taken from the native balance at `key`.
pub open spec fn debited(l: LedgerView, key: Seq<u8>, amount: nat) -> LedgerView {
    with_lamports(l, key, (l[key].lamports - amount) as nat)
}

/// `l` after `amount` was added to the native balance at `key`.
pub open spec fn credited(l: LedgerView, key: Seq<u8>, amount: nat) -> LedgerView {
    with_lamports(l, key, l[key].lamports + amount)
}

/// `l` after `amount` units were taken from the asset balance at `key`.
pub open spec fn asset_debited(l: LedgerView, key: Seq<u8>, amount: nat) -> LedgerView {
    with_amount(l, key, (l[key].token->0.amount - amount) as nat)
}

/// `l` after `amount` units were added to the asset balance at `key`.
pub open spec fn asset_credited(l: LedgerView, key: Seq<u8>, amount: nat) -> LedgerView {
    with_amount(l, key, l[key].token->0.amount + amount)
}

/// `l` after `amount` of native balance left `from` and arrived at `to`.
pub open spec fn moved(l: LedgerView, from: Seq<u8>, to: Seq<u8>, amount: nat) -> LedgerView {
    credited(debited(l, from, amount), to, amount)
}

/// `l` after `amount` units of an asset left `from` and arrived at `to`.
pub open spec fn asset_moved(l: LedgerView, from: Seq<u8>, to: Seq<u8>, amount: nat) -> LedgerView {
    asset_credited(asset_debited(l, from, amount), to, amount)
}

/// Whether every balance in `l` is one that an account can hold.
pub open spec fn bounded(l: LedgerView) -> bool {
    forall|k: Seq<u8>| #[trigger]
        l.contains_key(k) ==> l[k].lamports <= u64::MAX && (l[k].token matches Some(t)
            ==> t.amount <= u64::MAX)
}

/// A fresh account without an asset side.
pub open spec fn fresh_account() -> AccountView {
    AccountView { lamports: 0, token: None }
}

/// A fresh asset account of the asset type `mint` under `authority`.
pub open spec fn fresh_asset_account(mint: Seq<u8>, authority: Seq<u8>) -> AccountView {
    AccountView { lamports: 0, token: Some(TokenView { mint, authority, amount: 0 }) }
}

/// Whether an account can be allocated at `key`.
pub open spec fn allocate_check(l: LedgerView, key: Seq<u8>) -> Result<(), Rejection> {
    if l.contains_key(key) {
        Err(Rejection::AccountInUse)
    } else {
        Ok(())
    }
}

/// Whether `amount` can be taken from the native balance at `key`.
pub open spec fn debit_check(l: LedgerView, key: Seq<u8>, amount: nat) -> Result<(), Rejection> {
    if !l.contains_key(key) {
        Err(Rejection::AccountMissing)
    } else if l[key].lamports < amount {
        Err(Rejection::BalanceTooLow)
    } else {
        Ok(())
    }
}

/// Whether `amount` can be added to the native balance at `key`.
pub open spec fn credit_check(l: LedgerView, key: Seq<u8>, amount: nat) -> Result<(), Rejection> {
    if !l.contains_key(key) {
        Err(Rejection::AccountMissing)
    } else if l[key].lamports + amount > u64::MAX {
        Err(Rejection::Overflow)
    } else {
        Ok(())
    }
}

/// Whether `amount` units can be issued to the asset account at `key`.
pub open spec fn mint_check(l: LedgerView, key: Seq<u8>, amount: nat) -> Result<(), Rejection> {
    if !l.contains_key(key) {
        Err(Rejection::AccountMissing)
    } else if l[key].token is None {
        Err(Rejection::NotAssetAccount)
    } else if l[key].token->0.amount + amount > u64::MAX {
        Err(Rejection::Overflow)
    } else {
        Ok(())
    }
}

/// Whether the ledger moves `amount` of native balance from `from` to `to`
/// on the word of `signer`, the party that signed the request: only the
/// paying account itself can have a transfer made out of it.
pub open spec fn transfer_check(
    l: LedgerView,
    from: Seq<u8>,
    to: Seq<u8>,
    signer: Seq<u8>,
    amount: nat,
) -> Result<(), Rejection> {
    if !l.contains_key(from) || !l.contains_key(to) {
        Err(Rejection::AccountMissing)
    } else if signer != from {
        Err(Rejection::Unauthorized)
    } else if l[from].lamports < amount {
        Err(Rejection::BalanceTooLow)
    } else if from != to && l[to].lamports + amount > u64::MAX {
        Err(Rejection::Overflow)
    } else {
        Ok(())
    }
}

/// Whether the ledger moves `amount` units from the asset account `from` to
/// the asset account `to` in the name of `authority`, the party that signed
/// or that a proof speaks for; `None` where there is no such party.
pub open spec fn token_transfer_check(
    l: LedgerView,
    from: Seq<u8>,
    to: Seq<u8>,
    authority: Option<Seq<u8>>,
    amount: nat,
) -> Result<(), Rejection> {
    if !l.contains_key(from) || !l.contains_key(to) {
        Err(Rejection::AccountMissing)
    } else if l[from].token is None || l[to].token is None {
        Err(Rejection::NotAssetAccount)
    } else if l[from].token->0.mint != l[to].token->0.mint {
        Err(Rejection::MintMismatch)
    } else if authority != Some(l[from].token->0.authority) {
        Err(Rejection::Unauthorized)
    } else if l[from].token->0.amount < amount {
        Err(Rejection::BalanceTooLow)
    } else if from != to && l[to].token->0.amount + amount > u64::MAX {
        Err(Rejection::Overflow)
    } else {
        Ok(())
    }
}

/// The accounts that the vault can see, each under its address.
pub struct Ledger {
    accounts: Vec<Account>,
}

impl View for Ledger {
    type V = LedgerView;

    closed spec fn view(&self) -> LedgerView {
        table(self.accounts@)
    }
}

impl Ledger {
    #[verifier::type_invariant]
    spec fn inv(&self) -> bool {
        distinct_keys(self.accounts@)
    }

    /// A ledger with no account.
    pub fn new() -> (l: Ledger)
        ensures
            l@ == Map::<Seq<u8>, AccountView>::empty(),
    {
        let l = Ledger { accounts: Vec::new() };
        assert(l@ =~= Map::<Seq<u8>, AccountView>::empty());
        l
    }

    fn position(&self, key: &Address) -> (r: Option<usize>)
        ensures
            match r {
                Some(i) => i < self.accounts@.len() && self.accounts@[i as int].key@ == key@
                    && self@.contains_key(key@) && self@[key@] == self.accounts@[i as int]@,
                None => !self@.contains_key(key@) && !holds_key(self.accounts@, key@),
            },
    {
        proof {
            use_type_invariant(self);
        }
        let mut i: usize = 0;
        while i < self.accounts.len()
            invariant
                i <= self.accounts@.len(),
                distinct_keys(self.accounts@),
                forall|j: int| 0 <= j < i ==> (#[trigger] self.accounts@[j]).key@ != key@,
            decreases self.accounts@.len() - i,
        {
            if self.accounts[i].key.same(key) {
                proof {
                    lemma_table_at(self.accounts@, i as int);
                }
                return Some(i);
            }
            i += 1;
        }
        None
    }

    /// The account at `key`, if one is allocated there.
    pub fn account(&self, key: &Address) -> (r: Option<Account>)
        ensures
            match r {
                Some(a) => self@.contains_key(key@) && self@[key@] == a@ && a.key@ == key@,
                None => !self@.contains_key(key@),
            },
    {
        match self.position(key) {
            Some(i) => Some(self.accounts[i]),
            None => None,
        }
    }

    fn put(&mut self, i: usize, a: Account)
        requires
            i < old(self).accounts@.len(),
            old(self).accounts@[i as int].key@ == a.key@,
        ensures
            final(self)@ == old(self)@.insert(a.key@, a@),
            final(self).accounts@ == old(self).accounts@.update(i as int, a),
    {
        proof {
            use_type_invariant(&*self);
            lemma_table_update(self.accounts@, i as int, a);
        }
        let mut accounts: Vec<Account> = Vec::new();
        core::mem::swap(&mut self.accounts, &mut accounts);
        accounts.set(i, a);
        self.accounts = accounts;
    }

    fn append(&mut self, a: Account)
        requires
            !old(self)@.contains_key(a.key@),
        ensures
            final(self)@ == old(self)@.insert(a.key@, a@),
    {
        proof {
            use_type_invariant(&*self);
            lemma_table_push(self.accounts@, a);
        }
        let mut accounts: Vec<Account> = Vec::new();
        core::mem::swap(&mut self.accounts, &mut accounts);
        accounts.push(a);
        self.accounts = accounts;
    }

    /// The balances of a ledger are balances that an account can hold.
    pub proof fn lemma_bounded(&self)
        ensures
            bounded(self@),
    {
        assert forall|k: Seq<u8>| #[trigger] self@.contains_key(k) implies self@[k].lamports
            <= u64::MAX && (self@[k].token matches Some(t) ==> t.amount <= u64::MAX) by {
            let i = index_of(self.accounts@, k);
            assert(self@[k] == self.accounts@[i]@);
        }
    }

    /// How many accounts are allocated.
    pub fn len(&self) -> (n: usize)
        ensures
            self@.dom().finite(),
            n == self@.dom().len(),
    {
        proof {
            use_type_invariant(self);
            lemma_table_size(self.accounts@);
        }
        self.accounts.len()
    }

    /// Whether an account is allocated at `key`.
    pub fn contains(&self, key: &Address) -> (r: bool)
        ensures
            r == self@.contains_key(key@),
    {
        self.position(key).is_some()
    }

    /// The native balance at `key`.
    pub fn lamports(&self, key: &Address) -> (r: Option<u64>)
        ensures
            r is Some == self@.contains_key(key@),
            r matches Some(n) ==> self@[key@].lamports == n,
    {
        match self.position(key) {
            Some(i) => Some(self.accounts[i].lamports),
            None => None,
        }
    }

    /// The asset side of the account at `key`.
    pub fn token(&self, key: &Address) -> (r: Option<TokenState>)
        ensures
            r is Some == is_asset_account(self@, key@),
            r matches Some(t) ==> self@[key@].token == Some(t@),
    {
        match self.position(key) {
            Some(i) => self.accounts[i].token,
            None => None,
        }
    }

    /// Allocates `account`, with what it holds, at its own address.
    pub fn open(&mut self, account: Account) -> (r: Result<(), Rejection>)
        ensures
            r == allocate_check(old(self)@, account.key@),
            final(self)@ == if r is Ok {
                old(self)@.insert(account.key@, account@)
            } else {
                old(self)@
            },
    {
        if self.contains(&account.key) {
            return Err(Rejection::AccountInUse);
        }
        self.append(account);
        Ok(())
    }

    /// Allocates an account with no balance at `key`.
    pub fn allocate(&mut self, key: &Address) -> (r: Result<(), Rejection>)
        ensures
            r == allocate_check(old(self)@, key@),
            final(self)@ == if r is Ok {
                old(self)@.insert(key@, fresh_account())
            } else {
                old(self)@
            },
    {
        self.open(Account { key: *key, lamports: 0, token: None })
    }

    /// Allocates an empty asset account at `key`, denominated in `mint`, out
    /// of which `authority` may authorize transfers.
    pub fn allocate_token(&mut self, key: &Address, mint: &Address, authority: &Address) -> (r:
        Result<(), Rejection>)
        ensures
            r == allocate_check(old(self)@, key@),
            final(self)@ == if r is Ok {
                old(self)@.insert(key@, fresh_asset_account(mint@, authority@))
            } else {
                old(self)@
            },
    {
        let token = TokenState { mint: *mint, authority: *authority, amount: 0 };
        self.open(Account { key: *key, lamports: 0, token: Some(token) })
    }

    /// Takes `amount` from the native balance at `key`.
    pub fn debit(&mut self, key: &Address, amount: u64) -> (r: Result<(), Rejection>)
        ensures
            r == debit_check(old(self)@, key@, amount as nat),
            final(self)@ == if r is Ok {
                debited(old(self)@, key@, amount as nat)
            } else {
                old(self)@
            },
    {
        match self.position(key) {
            None => Err(Rejection::AccountMissing),
            Some(i) => {
                let mut a = self.accounts[i];
                if a.lamports < amount {
                    return Err(Rejection::BalanceTooLow);
                }
                a.lamports = a.lamports - amount;
                self.put(i, a);
                Ok(())
            },
        }
    }

    /// Adds `amount` to the native balance at `key`.
    pub fn credit(&mut self, key: &Address, amount: u64) -> (r: Result<(), Rejection>)
        ensures
            r == credit_check(old(self)@, key@, amount as nat),
            final(self)@ == if r is Ok {
                credited(old(self)@, key@, amount as nat)
            } else {
                old(self)@
            },
    {
        match self.position(key) {
            None => Err(Rejection::AccountMissing),
            Some(i) => {
                let mut a = self.accounts[i];
                if a.lamports > u64::MAX - amount {
                    return Err(Rejection::Overflow);
                }
                a.lamports = a.lamports + amount;
                self.put(i, a);
                Ok(())
            },
        }
    }

    /// Issues `amount` new units to the asset account at `key`.
    pub fn mint_to(&mut self, key: &Address, amount: u64) -> (r: Result<(), Rejection>)
        ensures
            r == mint_check(old(self)@, key@, amount as nat),
            final(self)@ == if r is Ok {
                asset_credited(old(self)@, key@, amount as nat)
            } else {
                old(self)@
            },
    {
        match self.position(key) {
            None => Err(Rejection::AccountMissing),
            Some(i) => {
                let mut a = self.accounts[i];
                match a.token {
                    None => Err(Rejection::NotAssetAccount),
                    Some(mut t) => {
                        if t.amount > u64::MAX - amount {
                            return Err(Rejection::Overflow);
                        }
                        t.amount = t.amount + amount;
                        a.token = Some(t);
                        self.put(i, a);
                        Ok(())
                    },
                }
            },
        }
    }

    /// The ledger's transfer of native balance: moves `amount` from `from` to
    /// `to` on the word of `signer`, the party that signed the request.
    /// Nothing changes where it fails.
    pub fn transfer(&mut self, from: &Address, to: &Address, signer: &Address, amount: u64) -> (r:
        Result<(), Rejection>)
        ensures
            r == transfer_check(old(self)@, from@, to@, signer@, amount as nat),
            final(self)@ == if r is Ok {
                moved(old(self)@, from@, to@, amount as nat)
            } else {
                old(self)@
            },
    {
        proof {
            use_type_invariant(&*self);
        }
        let i = match self.position(from) {
            Some(i) => i,
            None => {
                return Err(Rejection::AccountMissing);
            },
        };
        let j = match self.position(to) {
            Some(j) => j,
            None => {
                return Err(Rejection::AccountMissing);
            },
        };
        if !signer.same(from) {
            return Err(Rejection::Unauthorized);
        }
        let mut payer = self.accounts[i];
        if payer.lamports < amount {
            return Err(Rejection::BalanceTooLow);
        }
        if i == j {
            assert(moved(self@, from@, to@, amount as nat) =~= self@);
            return Ok(());
        }
        let mut payee = self.accounts[j];
        if payee.lamports > u64::MAX - amount {
            return Err(Rejection::Overflow);
        }
        payer.lamports = payer.lamports - amount;
        payee.lamports = payee.lamports + amount;
        self.put(i, payer);
        self.put(j, payee);
        Ok(())
    }

    /// The ledger's transfer of an asset: moves `amount` units from the asset
    /// account `from` to the asset account `to` in the name of `authority`,
    /// the party that signed the request or that a proof speaks for. Nothing
    /// changes where it fails.
    pub fn token_transfer(
        &mut self,
        from: &Address,
        to: &Address,
        authority: Option<Address>,
        amount: u64,
    ) -> (r: Result<(), Rejection>)
        ensures
            r == token_transfer_check(
                old(self)@,
                from@,
                to@,
                crate::address::opt_view(authority),
                amount as nat,
            ),
            final(self)@ == if r is Ok {
                asset_moved(old(self)@, from@, to@, amount as nat)
            } else {
                old(self)@
            },
    {
        proof {
            use_type_invariant(&*self);
        }
        let i = match self.position(from) {
            Some(i) => i,
            None => {
                return Err(Rejection::AccountMissing);
            },
        };
        let j = match self.position(to) {
            Some(j) => j,
            None => {
                return Err(Rejection::AccountMissing);
            },
        };
        let mut payer = self.accounts[i];
        let mut payee = self.accounts[j];
        let (mut out, mut into) = match (payer.token, payee.token) {
            (Some(out), Some(into)) => (out, into),
            _ => {
                return Err(Rejection::NotAssetAccount);
            },
        };
        if !out.mint.same(&into.mint) {
            return Err(Rejection::MintMismatch);
        }
        let authorized = match authority {
            Some(party) => party.same(&out.authority),
            None => false,
        };
        if !authorized {
            return Err(Rejection::Unauthorized);
        }
        if out.amount < amount {
            return Err(Rejection::BalanceTooLow);
        }
        if i == j {
            assert(asset_moved(self@, from@, to@, amount as nat) =~= self@);
            return Ok(());
        }
        if into.amount > u64::MAX - amount {
            return Err(Rejection::Overflow);
        }
        out.amount = out.amount - amount;
        into.amount = into.amount + amount;
        payer.token = Some(out);
        payee.token = Some(into);
        self.put(i, payer);
        self.put(j, payee);
        Ok(())
    }
}

} // verus!
