

use anchor_lang::prelude::Pubkey;
use anchor_lang::solana_program::pubkey::PubkeyError;
use vstd::prelude::*;

verus! {

/// Identity of this vault towards the ledger.
pub const PROGRAM_ID: [u8; 32] = [
    93, 193, 36, 84, 181, 61, 196, 238, 126, 24, 197, 222, 147, 232, 81, 214,
    236, 10, 128, 227, 164, 184, 222, 84, 160, 59, 2, 127, 57, 109, 174, 230,
];

/// Purpose tag of a native custody account: the bytes of `vault`.
pub const VAULT_TAG: [u8; 5] = [118, 97, 117, 108, 116];

/// Purpose tag of an asset custody account: the bytes of `token_vault`.
pub const TOKEN_VAULT_TAG: [u8; 11] = [116, 111, 107, 101, 110, 95, 118, 97, 117, 108, 116];

/// Purpose tag of a derived authority: the bytes of `token_account_owner_pda`.
pub const AUTHORITY_TAG: [u8; 23] = [
    116, 111, 107, 101, 110, 95, 97, 99, 99, 111, 117, 110, 116, 95, 111, 119,
    110, 101, 114, 95, 112, 100, 97,
];

/// An address on the ledger: an owner identity, an asset type or an account.
#[derive(Clone, Copy, Debug, PartialEq, Eq, Hash)]
pub struct Address {
    pub bytes: [u8; 32],
}

impl View for Address {
    type V = Seq<u8>;

    open spec fn view(&self) -> Seq<u8> {
        self.bytes@
    }
}

impl Address {
    /// The address made of `bytes`.
    pub fn new(bytes: [u8; 32]) -> (a: Address)
        ensures
            a@ == bytes@,
    {
        Address { bytes }
    }

    /// Whether two addresses are the same 32 bytes.
    pub fn same(&self, other: &Address) -> (r: bool)
        ensures
            r == (self@ == other@),
    {
        let mut i: usize = 0;
        while i < 32
            invariant
                i <= 32,
                forall|j: int| 0 <= j < i ==> self.bytes@[j] == other.bytes@[j],
            decreases 32 - i,
        {
            if self.bytes[i] != other.bytes[i] {
                return false;
            }
            i += 1;
        }
        assert(self@ =~= other@);
        true
    }

    /// The 32 bytes as a seed.
    pub fn to_seed(&self) -> (v: Vec<u8>)
        ensures
            v@ == self@,
    {
        let mut v: Vec<u8> = Vec::new();
        let mut i: usize = 0;
        while i < 32
            invariant
                i <= 32,
                v@ == self@.subrange(0, i as int),
            decreases 32 - i,
        {
            v.push(self.bytes[i]);
            i += 1;
            assert(v@ =~= self@.subrange(0, i as int));
        }
        assert(v@ =~= self@);
        v
    }
}

/// Two addresses with the same bytes are the same address.
pub proof fn lemma_address_by_view(a: Address, b: Address)
    requires
        a@ == b@,
    ensures
        a == b,
{
    assert(a.bytes =~= b.bytes);
}

/// The seeds of one derivation, in the order in which they are hashed.
#[derive(Debug, PartialEq, Eq)]
pub struct Seeds {
    pub parts: Vec<Vec<u8>>,
}

impl View for Seeds {
    type V = Seq<Seq<u8>>;

    open spec fn view(&self) -> Seq<Seq<u8>> {
        Seq::new(self.parts@.len(), |i: int| self.parts@[i]@)
    }
}

impl Seeds {
    /// No seed yet.
    pub fn new() -> (s: Seeds)
        ensures
            s@ == Seq::<Seq<u8>>::empty(),
    {
        let s = Seeds { parts: Vec::new() };
        assert(s@ =~= Seq::<Seq<u8>>::empty());
        s
    }

    /// Adds `seed` behind the seeds that are there.
    pub fn push(&mut self, seed: Vec<u8>)
        ensures
            final(self)@ == old(self)@.push(seed@),
    {
        self.parts.push(seed);
        assert(self@ =~= old(self)@.push(seed@));
    }
}

#[verifier::external_type_specification]
#[verifier::external_body]
pub struct ExPubkeyError(anchor_lang::solana_program::pubkey::PubkeyError);

/// The program address that `seeds`, taken as they are, hash to under the
/// program `program_id`, or nothing where the seeds are refused or the hash
/// is a point of the curve.
pub uninterp spec fn created_program_address(seeds: Seq<Seq<u8>>, program_id: Seq<u8>) -> Option<
    Seq<u8>,
>;

/// `seeds` with `bump` behind them as a last seed of one byte.
pub open spec fn with_bump(seeds: Seq<Seq<u8>>, bump: u8) -> Seq<Seq<u8>> {
    seeds.push(seq![bump])
}

/// Whether the search for a program address stops at `bump`: it is the
/// largest bump seed from 255 down to 1 with which `seeds` hash to an
/// address.
pub open spec fn is_found_bump(seeds: Seq<Seq<u8>>, program_id: Seq<u8>, bump: u8) -> bool {
    &&& bump >= 1
    &&& created_program_address(with_bump(seeds, bump), program_id) is Some
    &&& forall|b: u8|
        bump < b ==> #[trigger] created_program_address(with_bump(seeds, b), program_id) is None
}

/// What the search for a program address gives for `seeds` under the program
/// `program_id`: the bump seed that it stops at and the address that the
/// seeds hash to with it, or nothing where no bump seed from 255 down to 1
/// gives an address.
pub open spec fn found_program_address(seeds: Seq<Seq<u8>>, program_id: Seq<u8>) -> Option<
    (Seq<u8>, u8),
> {
    if exists|bump: u8| is_found_bump(seeds, program_id, bump) {
        let bump = choose|bump: u8| is_found_bump(seeds, program_id, bump);
        Some((created_program_address(with_bump(seeds, bump), program_id)->0, bump))
    } else {
        None
    }
}

/// The search stops at one bump seed only.
proof fn lemma_found(seeds: Seq<Seq<u8>>, program_id: Seq<u8>, address: Seq<u8>, bump: u8)
    requires
        is_found_bump(seeds, program_id, bump),
        created_program_address(with_bump(seeds, bump), program_id) == Some(address),
    ensures
        found_program_address(seeds, program_id) == Some((address, bump)),
{
    let chosen = choose|b: u8| is_found_bump(seeds, program_id, b);
    assert(is_found_bump(seeds, program_id, chosen));
    if chosen < bump {
        assert(created_program_address(with_bump(seeds, bump), program_id) is None);
    }
    if bump < chosen {
        assert(created_program_address(with_bump(seeds, chosen), program_id) is None);
    }
}

/// Whether `seeds` are more, or one of them longer, than a search for a
/// program address takes beside the bump seed.
pub open spec fn too_long(seeds: Seq<Seq<u8>>) -> bool {
    seeds.len() >= 16 || exists|i: int| 0 <= i < seeds.len() && (#[trigger] seeds[i]).len() > 32
}

/// An address with its bump seed, as plain values.
pub open spec fn derived_view(derived: Option<(Address, u8)>) -> Option<(Seq<u8>, u8)> {
    match derived {
        Some((address, bump)) => Some((address@, bump)),
        None => None,
    }
}

/// `Pubkey::try_find_program_address`. Trusted: it tries the bump seeds from
/// 255 down to 1, each as a last seed of one byte behind `seeds`, and gives
/// the first with which `Pubkey::create_program_address` gives an address,
/// and that address; it gives nothing where none of them does, and so for 16
/// seeds or more, or for a seed of more than 32 bytes.
#[verifier::external_body]
fn find_program_address(seeds: &Seeds, program_id: &Address) -> (r: Option<(Address, u8)>)
    ensures
        match r {
            Some((address, bump)) => {
                &&& is_found_bump(seeds@, program_id@, bump)
                &&& created_program_address(with_bump(seeds@, bump), program_id@) == Some(
                    address@,
                )
            },
            None => forall|bump: u8|
                bump >= 1 ==> #[trigger] created_program_address(
                    with_bump(seeds@, bump),
                    program_id@,
                ) is None,
        },
        too_long(seeds@) ==> r is None,
{
    let parts: Vec<&[u8]> = seeds.parts.iter().map(|s| s.as_slice()).collect();
    Pubkey::try_find_program_address(&parts, &Pubkey::new_from_array(program_id.bytes)).map(
        |(key, bump)| (Address { bytes: key.to_bytes() }, bump),
    )
}

/// `Pubkey::create_program_address`. Trusted: the result is a function of the
/// seeds and the program id alone.
#[verifier::external_body]
fn create_program_address(seeds: &Seeds, program_id: &Address) -> (r: Result<
    Address,
    PubkeyError,
>)
    ensures
        match r {
            Ok(address) => created_program_address(seeds@, program_id@) == Some(address@),
            Err(_) => created_program_address(seeds@, program_id@) is None,
        },
{
    let parts: Vec<&[u8]> = seeds.parts.iter().map(|s| s.as_slice()).collect();
    Pubkey::create_program_address(&parts, &Pubkey::new_from_array(program_id.bytes)).map(
        |key| Address { bytes: key.to_bytes() },
    )
}

/// The identity of this vault as an address.
pub fn program_id() -> (id: Address)
    ensures
        id@ == PROGRAM_ID@,
{
    Address { bytes: PROGRAM_ID }
}

/// The seeds of an address: the purpose tag, the asset type where there is
/// one, and the owner.
pub open spec fn derivation_seeds(tag: Seq<u8>, owner: Seq<u8>, asset_type: Option<Seq<u8>>) -> Seq<
    Seq<u8>,
> {
    match asset_type {
        Some(mint) => seq![tag, mint, owner],
        None => seq![tag, owner],
    }
}

/// The address that belongs to `tag`, `owner` and `asset_type` under this
/// vault, with its bump seed.
pub open spec fn derive_spec(tag: Seq<u8>, owner: Seq<u8>, asset_type: Option<Seq<u8>>) -> Option<
    (Seq<u8>, u8),
> {
    found_program_address(derivation_seeds(tag, owner, asset_type), PROGRAM_ID@)
}

/// An optional address as plain bytes.
pub open spec fn opt_view(a: Option<Address>) -> Option<Seq<u8>> {
    match a {
        Some(address) => Some(address@),
        None => None,
    }
}

fn seed_of(bytes: &[u8]) -> (v: Vec<u8>)
    ensures
        v@ == bytes@,
{
    let mut v: Vec<u8> = Vec::new();
    let mut i: usize = 0;
    while i < bytes.len()
        invariant
            i <= bytes@.len(),
            v@ == bytes@.subrange(0, i as int),
        decreases bytes@.len() - i,
    {
        v.push(bytes[i]);
        i += 1;
        assert(v@ =~= bytes@.subrange(0, i as int));
    }
    assert(v@ =~= bytes@);
    v
}

/// Builds the seeds of an address.
pub fn seeds_for(tag: &[u8], owner: &Address, asset_type: Option<Address>) -> (s: Seeds)
    ensures
        s@ == derivation_seeds(tag@, owner@, opt_view(asset_type)),
{
    let mut s = Seeds::new();
    s.push(seed_of(tag));
    match asset_type {
        Some(mint) => {
            s.push(mint.to_seed());
        },
        None => {},
    }
    s.push(owner.to_seed());
    assert(s@ =~= derivation_seeds(tag@, owner@, opt_view(asset_type)));
    s
}

/// Derives the address that belongs to `tag`, `owner` and `asset_type`, and
/// the bump seed that proves it: the largest from 255 down to 1 with which
/// the seeds hash to an address without a secret key. The same inputs always
/// give the same address. `None` where the search for a bump seed is
/// exhausted, as it is for a tag of more than 32 bytes.
pub fn derive(tag: &[u8], owner: &Address, asset_type: Option<Address>) -> (r: Option<
    (Address, u8),
>)
    ensures
        derived_view(r) == derive_spec(tag@, owner@, opt_view(asset_type)),
        r matches Some((address, bump)) ==> created_program_address(
            with_bump(derivation_seeds(tag@, owner@, opt_view(asset_type)), bump),
            PROGRAM_ID@,
        ) == Some(address@),
        tag@.len() > 32 ==> r is None,
{
    let seeds = seeds_for(tag, owner, asset_type);
    assert(seeds@[0] == tag@);
    let r = find_program_address(&seeds, &program_id());
    proof {
        match r {
            Some((address, bump)) => {
                lemma_found(seeds@, PROGRAM_ID@, address@, bump);
            },
            None => {},
        }
    }
    r
}

/// The address that `seeds` hash to as they are, bump seed included: the
/// party in whose name a proof made of these seeds speaks. `None` where the
/// seeds give no address.
pub fn proven_address(seeds: &Seeds) -> (r: Option<Address>)
    ensures
        opt_view(r) == created_program_address(seeds@, PROGRAM_ID@),
{
    match create_program_address(seeds, &program_id()) {
        Ok(address) => Some(address),
        Err(_) => None,
    }
}

} // verus!
