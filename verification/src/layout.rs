//! The persisted forms of an escrow record and of a holding.
//!
//! A record is stored as 113 bytes, its fields one after the other: the seed
//! (8 bytes, little-endian), the maker, the deposited asset and the wanted
//! asset (32 bytes each), the amount wanted (8 bytes, little-endian), and the
//! bump (1 byte). A holding is stored as 72 bytes: the owner and the asset
//! (32 bytes each) and the amount (8 bytes, little-endian).

use crate::address::{lemma_address_by_view, Address};
use crate::book::{EscrowRecord, Holding};
use vstd::bytes::{
    lemma_auto_spec_u64_to_from_le_bytes, spec_u64_to_le_bytes, u64_from_le_bytes,
    u64_to_le_bytes,
};
use vstd::prelude::*;
use vstd::slice::slice_subrange;

verus! {

/// Length of a stored record, in bytes.
pub const RECORD_LEN: usize = 113;

/// Length of a stored holding, in bytes.
pub const HOLDING_LEN: usize = 72;

/// The bytes that a holding is stored as.
pub open spec fn holding_layout(h: Holding) -> Seq<u8> {
    h.owner@ + h.mint@ + spec_u64_to_le_bytes(h.amount)
}

/// Where each field lies in the stored form of a holding.
pub proof fn lemma_holding_fields(h: Holding)
    ensures
        holding_layout(h).len() == HOLDING_LEN,
        holding_layout(h).subrange(0, 32) == h.owner@,
        holding_layout(h).subrange(32, 64) == h.mint@,
        holding_layout(h).subrange(64, 72) == spec_u64_to_le_bytes(h.amount),
{
    lemma_auto_spec_u64_to_from_le_bytes();
    assert(h.owner@.len() == 32 && h.mint@.len() == 32);
    assert(holding_layout(h).subrange(0, 32) =~= h.owner@);
    assert(holding_layout(h).subrange(32, 64) =~= h.mint@);
    assert(holding_layout(h).subrange(64, 72) =~= spec_u64_to_le_bytes(h.amount));
}

/// Two holdings with the same stored form are the same holding.
pub proof fn law_holding_layout_is_injective(a: Holding, b: Holding)
    requires
        holding_layout(a) == holding_layout(b),
    ensures
        a == b,
{
    lemma_holding_fields(a);
    lemma_holding_fields(b);
    lemma_auto_spec_u64_to_from_le_bytes();
    lemma_address_by_view(a.owner, b.owner);
    lemma_address_by_view(a.mint, b.mint);
}

/// The bytes that a record is stored as.
pub open spec fn layout(r: EscrowRecord) -> Seq<u8> {
    spec_u64_to_le_bytes(r.seed) + r.maker@ + r.mint_a@ + r.mint_b@ + spec_u64_to_le_bytes(
        r.receive,
    ) + seq![r.bump]
}

/// Where each field lies in the stored form.
pub proof fn lemma_layout_fields(r: EscrowRecord)
    ensures
        layout(r).len() == RECORD_LEN,
        layout(r).subrange(0, 8) == spec_u64_to_le_bytes(r.seed),
        layout(r).subrange(8, 40) == r.maker@,
        layout(r).subrange(40, 72) == r.mint_a@,
        layout(r).subrange(72, 104) == r.mint_b@,
        layout(r).subrange(104, 112) == spec_u64_to_le_bytes(r.receive),
        layout(r)[112] == r.bump,
{
    lemma_auto_spec_u64_to_from_le_bytes();
    assert(r.maker@.len() == 32 && r.mint_a@.len() == 32 && r.mint_b@.len() == 32);
    assert(layout(r).subrange(0, 8) =~= spec_u64_to_le_bytes(r.seed));
    assert(layout(r).subrange(8, 40) =~= r.maker@);
    assert(layout(r).subrange(40, 72) =~= r.mint_a@);
    assert(layout(r).subrange(72, 104) =~= r.mint_b@);
    assert(layout(r).subrange(104, 112) =~= spec_u64_to_le_bytes(r.receive));
}

/// Two records with the same stored form are the same record: reading back
/// what was written gives the record that was written.
pub proof fn law_layout_is_injective(a: EscrowRecord, b: EscrowRecord)
    requires
        layout(a) == layout(b),
    ensures
        a == b,
{
    lemma_layout_fields(a);
    lemma_layout_fields(b);
    lemma_auto_spec_u64_to_from_le_bytes();
    lemma_address_by_view(a.maker, b.maker);
    lemma_address_by_view(a.mint_a, b.mint_a);
    lemma_address_by_view(a.mint_b, b.mint_b);
}

fn push_address(out: &mut Vec<u8>, a: &Address)
    ensures
        final(out)@ == old(out)@ + a@,
{
    let mut i: usize = 0;
    while i < 32
        invariant
            i <= 32,
            out@ == old(out)@ + a@.subrange(0, i as int),
        decreases 32 - i,
    {
        out.push(a.bytes[i]);
        assert(out@ =~= old(out)@ + a@.subrange(0, i + 1));
        i += 1;
    }
    assert(a@.subrange(0, 32) =~= a@);
}

pub(crate) fn push_u64(out: &mut Vec<u8>, x: u64)
    ensures
        final(out)@ == old(out)@ + spec_u64_to_le_bytes(x),
{
    let b = u64_to_le_bytes(x);
    let mut i: usize = 0;
    while i < 8
        invariant
            i <= 8,
            b@.len() == 8,
            out@ == old(out)@ + b@.subrange(0, i as int),
        decreases 8 - i,
    {
        out.push(b[i]);
        assert(out@ =~= old(out)@ + b@.subrange(0, i + 1));
        i += 1;
    }
    assert(b@.subrange(0, 8) =~= b@);
}

fn address_at(bytes: &[u8], start: usize) -> (r: Address)
    requires
        start + 32 <= bytes@.len(),
    ensures
        r@ == bytes@.subrange(start as int, start + 32),
{
    let mut a: [u8; 32] = [0u8;32];
    let n: usize = bytes.len();
    let mut i: usize = 0;
    while i < 32
        invariant
            i <= 32,
            n == bytes@.len(),
            start + 32 <= n,
            forall|j: int| 0 <= j < i ==> a@[j] == bytes@[start + j],
        decreases 32 - i,
    {
        a[i] = bytes[start + i];
        i += 1;
    }
    assert(a@ =~= bytes@.subrange(start as int, start + 32));
    Address { bytes: a }
}

impl Holding {
    /// The holding in its stored form.
    pub fn to_bytes(&self) -> (r: Vec<u8>)
        ensures
            r@ == holding_layout(*self),
            r@.len() == HOLDING_LEN,
    {
        let mut out: Vec<u8> = Vec::new();
        push_address(&mut out, &self.owner);
        push_address(&mut out, &self.mint);
        push_u64(&mut out, self.amount);
        proof {
            lemma_holding_fields(*self);
            assert(out@ =~= holding_layout(*self));
        }
        out
    }

    /// Reads a holding from its stored form: `None` unless `bytes` has the
    /// length of a holding, else the one holding that is stored as `bytes`.
    pub fn from_bytes(bytes: &[u8]) -> (r: Option<Holding>)
        ensures
            r is Some <==> bytes@.len() == HOLDING_LEN,
            r matches Some(h) ==> holding_layout(h) == bytes@,
    {
        if bytes.len() != HOLDING_LEN {
            return None;
        }
        let h = Holding {
            owner: address_at(bytes, 0),
            mint: address_at(bytes, 32),
            amount: u64_from_le_bytes(slice_subrange(bytes, 64, 72)),
        };
        proof {
            lemma_auto_spec_u64_to_from_le_bytes();
            lemma_holding_fields(h);
            assert(spec_u64_to_le_bytes(h.amount) == bytes@.subrange(64, 72));
            assert(holding_layout(h) =~= bytes@);
        }
        Some(h)
    }
}

impl EscrowRecord {
    /// The record in its stored form.
    pub fn to_bytes(&self) -> (r: Vec<u8>)
        ensures
            r@ == layout(*self),
            r@.len() == RECORD_LEN,
    {
        let mut out: Vec<u8> = Vec::new();
        push_u64(&mut out, self.seed);
        push_address(&mut out, &self.maker);
        push_address(&mut out, &self.mint_a);
        push_address(&mut out, &self.mint_b);
        push_u64(&mut out, self.receive);
        out.push(self.bump);
        proof {
            lemma_layout_fields(*self);
            assert(out@ =~= layout(*self));
        }
        out
    }

    /// Reads a record from its stored form: `None` unless `bytes` has the
    /// length of a record, else the one record that is stored as `bytes`.
    pub fn from_bytes(bytes: &[u8]) -> (r: Option<EscrowRecord>)
        ensures
            r is Some <==> bytes@.len() == RECORD_LEN,
            r matches Some(rec) ==> layout(rec) == bytes@,
    {
        if bytes.len() != RECORD_LEN {
            return None;
        }
        let rec = EscrowRecord {
            seed: u64_from_le_bytes(slice_subrange(bytes, 0, 8)),
            maker: address_at(bytes, 8),
            mint_a: address_at(bytes, 40),
            mint_b: address_at(bytes, 72),
            receive: u64_from_le_bytes(slice_subrange(bytes, 104, 112)),
            bump: bytes[112],
        };
        proof {
            lemma_auto_spec_u64_to_from_le_bytes();
            lemma_layout_fields(rec);
            assert(spec_u64_to_le_bytes(rec.seed) == bytes@.subrange(0, 8));
            assert(spec_u64_to_le_bytes(rec.receive) == bytes@.subrange(104, 112));
            assert(layout(rec) =~= bytes@);
        }
        Some(rec)
    }
}

} // verus!
