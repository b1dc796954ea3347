//! Deterministic addresses of an escrow record and of its vault.
//!
//! Both are derived from the program's own address and from the terms that
//! identify a deal: the maker, the seed and the two assets. Nobody chooses
//! them, so nobody can point the program at a record or a vault of their own
//! making.

use crate::address::{lemma_address_by_view, Address};
use anchor_lang::prelude::Pubkey;
use vstd::bytes::{spec_u64_to_le_bytes, u64_to_le_bytes};
use vstd::prelude::*;

verus! {

/// The program-derived address and bump that the ledger's key derivation gives
/// for a list of seeds under a program, or `None` where it gives none.
pub uninterp spec fn program_address(seeds: Seq<Seq<u8>>, program: Seq<u8>) -> Option<(Seq<u8>, u8)>;

/// Views of a list of byte strings.
pub open spec fn seed_views(seeds: Seq<Vec<u8>>) -> Seq<Seq<u8>> {
    Seq::new(seeds.len(), |i: int| seeds[i]@)
}

/// Calls `Pubkey::try_find_program_address`. The contract claims only that the
/// outcome is a function of the seeds and the program's address, and gives that
/// function the name `program_address`. It claims nothing about which address
/// or bump comes out, nor that one is found.
#[verifier::external_body]
fn find_program_address(seeds: &Vec<Vec<u8>>, program: &Address) -> (r: Option<(Address, u8)>)
    ensures
        match r {
            Some((address, bump)) => program_address(seed_views(seeds@), program@) == Some(
                (address@, bump),
            ),
            None => program_address(seed_views(seeds@), program@) is None,
        },
{
    let parts: Vec<&[u8]> = seeds.iter().map(|s| s.as_slice()).collect();
    let id = Pubkey::new_from_array(program.bytes);
    match Pubkey::try_find_program_address(&parts, &id) {
        Some((key, bump)) => Some((Address { bytes: key.to_bytes() }, bump)),
        None => None,
    }
}

/// Domain tag of escrow records: the ASCII bytes of "escrow".
pub open spec fn escrow_tag() -> Seq<u8> {
    seq![0x65u8, 0x73u8, 0x63u8, 0x72u8, 0x6fu8, 0x77u8]
}

/// Domain tag of vaults: the ASCII bytes of "vault".
pub open spec fn vault_tag() -> Seq<u8> {
    seq![0x76u8, 0x61u8, 0x75u8, 0x6cu8, 0x74u8]
}

/// Seeds of an escrow record: the record tag, the maker, the seed in
/// little-endian order, and the two assets.
pub open spec fn escrow_seeds(maker: Address, seed: u64, mint_a: Address, mint_b: Address) -> Seq<
    Seq<u8>,
> {
    seq![escrow_tag(), maker@, spec_u64_to_le_bytes(seed), mint_a@, mint_b@]
}

/// Seeds of a vault: those of its record, followed by the vault tag.
pub open spec fn vault_seeds(maker: Address, seed: u64, mint_a: Address, mint_b: Address) -> Seq<
    Seq<u8>,
> {
    escrow_seeds(maker, seed, mint_a, mint_b).push(vault_tag())
}

/// The addresses that belong to one deal.
#[derive(Clone, Copy, Debug, PartialEq, Eq)]
pub struct DerivedAddresses {
    /// Address of the escrow record.
    pub escrow: Address,
    /// Bump that the derivation of the record's address settled on.
    pub bump: u8,
    /// Address of the vault.
    pub vault: Address,
}

/// Whether `d` holds the addresses derived for the given deal.
pub open spec fn is_derived(
    d: DerivedAddresses,
    program: Address,
    maker: Address,
    seed: u64,
    mint_a: Address,
    mint_b: Address,
) -> bool {
    &&& program_address(escrow_seeds(maker, seed, mint_a, mint_b), program@) == Some(
        (d.escrow@, d.bump),
    )
    &&& program_address(vault_seeds(maker, seed, mint_a, mint_b), program@) matches Some(v)
        && v.0 == d.vault@
}

/// Whether both addresses of the given deal can be derived.
pub open spec fn derivable(
    program: Address,
    maker: Address,
    seed: u64,
    mint_a: Address,
    mint_b: Address,
) -> bool {
    &&& program_address(escrow_seeds(maker, seed, mint_a, mint_b), program@) is Some
    &&& program_address(vault_seeds(maker, seed, mint_a, mint_b), program@) is Some
}

/// The addresses derived for the given deal, or `None` where one of them
/// cannot be derived.
pub open spec fn derived(
    program: Address,
    maker: Address,
    seed: u64,
    mint_a: Address,
    mint_b: Address,
) -> Option<DerivedAddresses> {
    if derivable(program, maker, seed, mint_a, mint_b) {
        Some(choose|d: DerivedAddresses| is_derived(d, program, maker, seed, mint_a, mint_b))
    } else {
        None
    }
}

/// A deal has at most one set of derived addresses.
pub proof fn lemma_derived_unique(
    d: DerivedAddresses,
    program: Address,
    maker: Address,
    seed: u64,
    mint_a: Address,
    mint_b: Address,
)
    requires
        is_derived(d, program, maker, seed, mint_a, mint_b),
    ensures
        derived(program, maker, seed, mint_a, mint_b) == Some(d),
{
    let c = choose|c: DerivedAddresses| is_derived(c, program, maker, seed, mint_a, mint_b);
    lemma_address_by_view(c.escrow, d.escrow);
    lemma_address_by_view(c.vault, d.vault);
}

fn tag_of_escrow() -> (r: Vec<u8>)
    ensures
        r@ == escrow_tag(),
{
    let r: Vec<u8> = vec![0x65u8, 0x73u8, 0x63u8, 0x72u8, 0x6fu8, 0x77u8];
    assert(r@ =~= escrow_tag());
    r
}

fn tag_of_vault() -> (r: Vec<u8>)
    ensures
        r@ == vault_tag(),
{
    let r: Vec<u8> = vec![0x76u8, 0x61u8, 0x75u8, 0x6cu8, 0x74u8];
    assert(r@ =~= vault_tag());
    r
}

/// Derives the addresses of the record and the vault of one deal, or `None`
/// where the derivation finds no address for one of them.
pub fn derive_addresses(
    program: &Address,
    maker: &Address,
    seed: u64,
    mint_a: &Address,
    mint_b: &Address,
) -> (r: Option<DerivedAddresses>)
    ensures
        r == derived(*program, *maker, seed, *mint_a, *mint_b),
        r is Some <==> derivable(*program, *maker, seed, *mint_a, *mint_b),
        r matches Some(d) ==> is_derived(d, *program, *maker, seed, *mint_a, *mint_b),
{
    let mut seeds: Vec<Vec<u8>> = Vec::new();
    seeds.push(tag_of_escrow());
    seeds.push(maker.to_vec());
    seeds.push(u64_to_le_bytes(seed));
    seeds.push(mint_a.to_vec());
    seeds.push(mint_b.to_vec());
    assert(seed_views(seeds@) =~= escrow_seeds(*maker, seed, *mint_a, *mint_b));
    let record = find_program_address(&seeds, program);
    seeds.push(tag_of_vault());
    assert(seed_views(seeds@) =~= vault_seeds(*maker, seed, *mint_a, *mint_b));
    let vault = find_program_address(&seeds, program);
    match (record, vault) {
        (Some((escrow, bump)), Some((vault, _))) => {
            let d = DerivedAddresses { escrow, bump, vault };
            proof {
                lemma_derived_unique(d, *program, *maker, seed, *mint_a, *mint_b);
            }
            Some(d)
        },
        _ => None,
    }
}

} // verus!
