//! The records of open escrows, their vaults, and the holdings of the parties.

use crate::address::Address;
use vstd::prelude::*;

verus! {

/// Why an operation was refused. A refused operation changes nothing.
#[derive(Clone, Copy, Debug, PartialEq, Eq, Hash)]
pub enum EscrowError {
    /// A quantity is negative. Quantities are unsigned, so no input gives it.
    InvalidAmount,
    /// The paying holding has less than the amount to move.
    InsufficientFunds,
    /// The signer is not the party that the operation asks for.
    Unauthorized,
    /// A holding is not of the asset, or not of the party, that the deal names.
    AccountMismatch,
    /// A record is already open at the derived address.
    AddressCollision,
    /// No record is open at the address.
    RecordNotFound,
}

/// The terms of one deal. They are set when the escrow opens and never change.
#[derive(Clone, Copy, Debug, PartialEq, Eq)]
pub struct EscrowRecord {
    /// Tells apart the escrows of one maker over one pair of assets.
    pub seed: u64,
    /// Who opened the escrow: the only party that may cancel it, and the one
    /// that is paid when it completes.
    pub maker: Address,
    /// The asset that the maker deposits.
    pub mint_a: Address,
    /// The asset that the maker wants.
    pub mint_b: Address,
    /// How much of `mint_b` the maker wants.
    pub receive: u64,
    /// Bump of the record's derived address.
    pub bump: u8,
}

/// The custody of one deposit. Only the program moves what it holds.
#[derive(Clone, Copy, Debug, PartialEq, Eq)]
pub struct Vault {
    /// The vault's derived address.
    pub address: Address,
    /// The asset held.
    pub mint: Address,
    /// How much is held.
    pub amount: u64,
}

/// An open escrow: a record and its vault, which exist together.
#[derive(Clone, Copy, Debug, PartialEq, Eq)]
pub struct Escrow {
    /// The record's derived address.
    pub address: Address,
    pub record: EscrowRecord,
    pub vault: Vault,
}

/// A party's holding of one asset.
#[derive(Clone, Copy, Debug, PartialEq, Eq)]
pub struct Holding {
    pub owner: Address,
    pub mint: Address,
    pub amount: u64,
}

/// What holds of every open escrow: the vault holds the deposited asset, and
/// the two assets of the deal differ.
pub open spec fn entry_ok(e: Escrow) -> bool {
    &&& e.vault.mint == e.record.mint_a
    &&& e.record.mint_a != e.record.mint_b
}

spec fn present(s: Seq<Escrow>, a: Seq<u8>) -> bool {
    exists|i: int| 0 <= i < s.len() && #[trigger] s[i].address@ == a
}

spec fn index_of(s: Seq<Escrow>, a: Seq<u8>) -> int {
    choose|i: int| 0 <= i < s.len() && #[trigger] s[i].address@ == a
}

spec fn as_map(s: Seq<Escrow>) -> Map<Seq<u8>, Escrow> {
    Map::new(|a: Seq<u8>| present(s, a), |a: Seq<u8>| s[index_of(s, a)])
}

/// No two escrows of the list share an address.
pub open spec fn distinct_addresses(s: Seq<Escrow>) -> bool {
    forall|i: int, j: int|
        0 <= i < j < s.len() ==> (#[trigger] s[i]).address@ != (#[trigger] s[j]).address@
}

proof fn lemma_at(s: Seq<Escrow>, i: int)
    requires
        distinct_addresses(s),
        0 <= i < s.len(),
    ensures
        present(s, s[i].address@),
        as_map(s)[s[i].address@] == s[i],
{
    let a = s[i].address@;
    assert(present(s, a));
    let k = index_of(s, a);
    assert(0 <= k < s.len() && s[k].address@ == a);
    if k < i {
        assert(s[k].address@ != s[i].address@);
    } else if i < k {
        assert(s[i].address@ != s[k].address@);
    }
}

proof fn lemma_push(s: Seq<Escrow>, e: Escrow)
    requires
        distinct_addresses(s),
        !present(s, e.address@),
    ensures
        distinct_addresses(s.push(e)),
        as_map(s.push(e)) == as_map(s).insert(e.address@, e),
{
    let t = s.push(e);
    assert forall|i: int, j: int| 0 <= i < j < t.len() implies (#[trigger] t[i]).address@ != (
    #[trigger] t[j]).address@ by {
        if j < s.len() {
            assert(s[i].address@ != s[j].address@);
        } else {
            assert(t[i] == s[i]);
            if s[i].address@ == e.address@ {
                assert(present(s, e.address@));
            }
        }
    }
    assert forall|a: Seq<u8>| present(t, a) <==> (present(s, a) || a == e.address@) by {
        if present(t, a) {
            let k = index_of(t, a);
            if k < s.len() {
                assert(s[k].address@ == a);
            }
        }
        if present(s, a) {
            let k = index_of(s, a);
            assert(t[k].address@ == a);
        }
        if a == e.address@ {
            assert(t[s.len() as int].address@ == a);
        }
    }
    assert forall|a: Seq<u8>| present(t, a) implies as_map(t)[a] == as_map(s).insert(
        e.address@,
        e,
    )[a] by {
        if a == e.address@ {
            lemma_at(t, s.len() as int);
        } else {
            let k = index_of(s, a);
            assert(t[k] == s[k]);
            lemma_at(t, k);
            lemma_at(s, k);
        }
    }
    assert(as_map(t) =~= as_map(s).insert(e.address@, e));
}

proof fn lemma_remove(s: Seq<Escrow>, i: int)
    requires
        distinct_addresses(s),
        0 <= i < s.len(),
    ensures
        distinct_addresses(s.remove(i)),
        as_map(s.remove(i)) == as_map(s).remove(s[i].address@),
{
    let t = s.remove(i);
    let gone = s[i].address@;
    assert forall|p: int| 0 <= p < t.len() implies #[trigger] t[p] == s[if p < i {
        p
    } else {
        p + 1
    }] by {}
    assert forall|p: int, q: int| 0 <= p < q < t.len() implies (#[trigger] t[p]).address@ != (
    #[trigger] t[q]).address@ by {
        let sp = if p < i { p } else { p + 1 };
        let sq = if q < i { q } else { q + 1 };
        assert(t[p] == s[sp] && t[q] == s[sq]);
        assert(s[sp].address@ != s[sq].address@);
    }
    assert forall|a: Seq<u8>| present(t, a) <==> (present(s, a) && a != gone) by {
        if present(t, a) {
            let k = index_of(t, a);
            let sk = if k < i { k } else { k + 1 };
            assert(t[k] == s[sk]);
            assert(s[sk].address@ == a);
            if sk < i {
                assert(s[sk].address@ != s[i].address@);
            } else {
                assert(s[i].address@ != s[sk].address@);
            }
        }
        if present(s, a) && a != gone {
            let k = index_of(s, a);
            let tk = if k < i { k } else { k - 1 };
            assert(t[tk] == s[k]);
            assert(t[tk].address@ == a);
        }
    }
    assert forall|a: Seq<u8>| present(t, a) implies as_map(t)[a] == as_map(s)[a] by {
        let k = index_of(s, a);
        let tk = if k < i { k } else { k - 1 };
        assert(t[tk] == s[k]);
        lemma_at(t, tk);
        lemma_at(s, k);
    }
    assert(as_map(t) =~= as_map(s).remove(gone));
}

/// The open escrows of one program, each under its record's address.
///
/// An escrow is entered when it opens and taken out when it completes or is
/// cancelled; in between nothing changes it.
#[derive(Clone, Debug)]
pub struct EscrowBook {
    program: Address,
    entries: Vec<Escrow>,
}

impl View for EscrowBook {
    type V = Map<Seq<u8>, Escrow>;

    /// The open escrows by the bytes of their addresses.
    closed spec fn view(&self) -> Map<Seq<u8>, Escrow> {
        as_map(self.entries@)
    }
}

impl EscrowBook {
    /// The address of the program, under which all addresses are derived.
    pub closed spec fn program_id(&self) -> Address {
        self.program
    }

    /// No two escrows share an address, each is entered under its own, and
    /// `entry_ok` holds of each.
    pub closed spec fn wf(&self) -> bool {
        &&& distinct_addresses(self.entries@)
        &&& forall|i: int| 0 <= i < self.entries@.len() ==> entry_ok(#[trigger] self.entries@[i])
    }

    /// Every open escrow is entered under its own address, its vault holds
    /// the deposited asset, and its two assets differ; and the open escrows
    /// are finitely many.
    pub proof fn law_every_entry_is_sound(&self)
        requires
            self.wf(),
        ensures
            self@.dom().finite(),
            forall|a: Seq<u8>| #[trigger]
                self@.contains_key(a) ==> self@[a].address@ == a && entry_ok(self@[a]),
    {
        let s = self.entries@;
        assert forall|a: Seq<u8>| #[trigger] self@.contains_key(a) implies self@[a].address@ == a
            && entry_ok(self@[a]) by {
            assert(present(s, a));
            let k = index_of(s, a);
            assert(entry_ok(s[k]));
        }
        lemma_finite(s);
    }

    /// A book with no open escrow.
    pub fn new(program: Address) -> (r: EscrowBook)
        ensures
            r.wf(),
            r@ == Map::<Seq<u8>, Escrow>::empty(),
            r.program_id() == program,
    {
        let r = EscrowBook { program, entries: Vec::new() };
        assert(r@ =~= Map::<Seq<u8>, Escrow>::empty());
        r
    }

    /// Rebuilds a book from the escrows that were open when it was stored:
    /// `None` where two of them share an address or `entry_ok` fails of one.
    pub fn restore(program: Address, entries: &Vec<Escrow>) -> (r: Option<EscrowBook>)
        ensures
            r is Some <==> distinct_addresses(entries@) && forall|i: int|
                0 <= i < entries@.len() ==> entry_ok(#[trigger] entries@[i]),
            r matches Some(b) ==> {
                &&& b.wf()
                &&& b.program_id() == program
                &&& b@.len() == entries@.len()
                &&& forall|i: int|
                    0 <= i < entries@.len() ==> b@.contains_key((#[trigger] entries@[i]).address@)
                        && b@[entries@[i].address@] == entries@[i]
                &&& forall|a: Seq<u8>| #[trigger]
                    b@.contains_key(a) ==> exists|i: int|
                        0 <= i < entries@.len() && (#[trigger] entries@[i]).address@ == a
            },
    {
        let mut book = EscrowBook { program, entries: Vec::new() };
        assert(book.entries@ =~= entries@.subrange(0, 0));
        let mut i: usize = 0;
        while i < entries.len()
            invariant
                i <= entries@.len(),
                book.wf(),
                book.program == program,
                book.entries@ == entries@.subrange(0, i as int),
            decreases entries@.len() - i,
        {
            let e = entries[i];
            if !e.vault.mint.same(&e.record.mint_a) || e.record.mint_a.same(&e.record.mint_b) {
                assert(!entry_ok(entries@[i as int]));
                return None;
            }
            match book.find(&e.address) {
                Some(j) => {
                    assert(entries@[j as int] == book.entries@[j as int]);
                    assert(entries@[j as int].address@ == entries@[i as int].address@);
                    return None;
                },
                None => {},
            }
            proof {
                lemma_push(book.entries@, e);
            }
            book.entries.push(e);
            assert(book.entries@ =~= entries@.subrange(0, i + 1));
            i += 1;
        }
        proof {
            assert(book.entries@ =~= entries@);
            lemma_len(entries@);
            assert forall|i: int| 0 <= i < entries@.len() implies book@.contains_key(
                (#[trigger] entries@[i]).address@,
            ) && book@[entries@[i].address@] == entries@[i] by {
                lemma_at(entries@, i);
            }
            assert forall|a: Seq<u8>| #[trigger] book@.contains_key(a) implies exists|i: int|
                0 <= i < entries@.len() && (#[trigger] entries@[i]).address@ == a by {
                assert(present(entries@, a));
            }
        }
        Some(book)
    }

    /// The open escrows, each once, for storing the book.
    pub fn entries(&self) -> (r: Vec<Escrow>)
        requires
            self.wf(),
        ensures
            distinct_addresses(r@),
            r@.len() == self@.len(),
            forall|i: int|
                0 <= i < r@.len() ==> entry_ok(#[trigger] r@[i]) && self@.contains_key(
                    r@[i].address@,
                ) && self@[r@[i].address@] == r@[i],
    {
        let mut out: Vec<Escrow> = Vec::new();
        let mut i: usize = 0;
        while i < self.entries.len()
            invariant
                i <= self.entries@.len(),
                out@ == self.entries@.subrange(0, i as int),
            decreases self.entries@.len() - i,
        {
            out.push(self.entries[i]);
            assert(out@ =~= self.entries@.subrange(0, i + 1));
            i += 1;
        }
        proof {
            assert(out@ =~= self.entries@);
            lemma_len(self.entries@);
            assert forall|i: int| 0 <= i < out@.len() implies entry_ok(#[trigger] out@[i])
                && self@.contains_key(out@[i].address@) && self@[out@[i].address@] == out@[i] by {
                lemma_at(self.entries@, i);
            }
        }
        out
    }

    /// The program's address.
    pub fn program(&self) -> (r: Address)
        ensures
            r == self.program_id(),
    {
        self.program
    }

    /// How many escrows are open.
    pub fn len(&self) -> (r: usize)
        requires
            self.wf(),
        ensures
            r == self@.len(),
    {
        proof {
            lemma_len(self.entries@);
        }
        self.entries.len()
    }

    fn find(&self, address: &Address) -> (r: Option<usize>)
        ensures
            match r {
                Some(i) => i < self.entries@.len() && self.entries@[i as int].address@ == address@,
                None => !present(self.entries@, address@),
            },
    {
        let mut i: usize = 0;
        while i < self.entries.len()
            invariant
                i <= self.entries@.len(),
                forall|j: int| 0 <= j < i ==> (#[trigger] self.entries@[j]).address@ != address@,
            decreases self.entries@.len() - i,
        {
            if self.entries[i].address.same(address) {
                return Some(i);
            }
            i += 1;
        }
        None
    }

    /// The escrow open at `address`, if there is one.
    pub fn lookup(&self, address: &Address) -> (r: Option<Escrow>)
        requires
            self.wf(),
        ensures
            r == (if self@.contains_key(address@) {
                Some(self@[address@])
            } else {
                None
            }),
    {
        match self.find(address) {
            Some(i) => {
                proof {
                    lemma_at(self.entries@, i as int);
                }
                Some(self.entries[i])
            },
            None => None,
        }
    }

    /// Whether an escrow is open at `address`.
    pub fn is_open(&self, address: &Address) -> (r: bool)
        requires
            self.wf(),
        ensures
            r == self@.contains_key(address@),
    {
        self.find(address).is_some()
    }

    /// Enters an escrow under its address, where none is open.
    pub(crate) fn enter(&mut self, e: Escrow)
        requires
            old(self).wf(),
            !old(self)@.contains_key(e.address@),
            entry_ok(e),
        ensures
            final(self).wf(),
            final(self)@ == old(self)@.insert(e.address@, e),
            final(self).program_id() == old(self).program_id(),
    {
        proof {
            lemma_push(self.entries@, e);
        }
        self.entries.push(e);
    }

    /// Takes out the escrow at `address` and returns it, where one is open.
    pub(crate) fn close(&mut self, address: &Address) -> (r: Option<Escrow>)
        requires
            old(self).wf(),
        ensures
            final(self).wf(),
            final(self).program_id() == old(self).program_id(),
            final(self)@ == old(self)@.remove(address@),
            r == (if old(self)@.contains_key(address@) {
                Some(old(self)@[address@])
            } else {
                None
            }),
    {
        match self.find(address) {
            Some(i) => {
                proof {
                    lemma_at(self.entries@, i as int);
                    lemma_remove(self.entries@, i as int);
                }
                let e = self.entries.remove(i);
                Some(e)
            },
            None => {
                assert(self@ =~= self@.remove(address@));
                None
            },
        }
    }
}

proof fn lemma_finite(s: Seq<Escrow>)
    ensures
        as_map(s).dom().finite(),
    decreases s.len(),
{
    if s.len() == 0 {
        assert(as_map(s).dom() =~= Set::<Seq<u8>>::empty());
    } else {
        let t = s.drop_last();
        lemma_finite(t);
        let a = s.last().address@;
        assert forall|b: Seq<u8>| as_map(s).dom().contains(b) <==> as_map(t).dom().insert(
            a,
        ).contains(b) by {
            if present(s, b) {
                let k = index_of(s, b);
                if k < t.len() {
                    assert(t[k].address@ == b);
                }
            }
            if present(t, b) {
                let k = index_of(t, b);
                assert(s[k].address@ == b);
            }
            if b == a {
                assert(s[s.len() - 1].address@ == b);
            }
        }
        assert(as_map(s).dom() =~= as_map(t).dom().insert(a));
    }
}

proof fn lemma_len(s: Seq<Escrow>)
    requires
        distinct_addresses(s),
    ensures
        as_map(s).dom().finite(),
        as_map(s).len() == s.len(),
    decreases s.len(),
{
    lemma_finite(s);
    if s.len() == 0 {
        assert(as_map(s).dom() =~= Set::<Seq<u8>>::empty());
    } else {
        let t = s.drop_last();
        let e = s.last();
        assert(distinct_addresses(t)) by {
            assert forall|i: int, j: int| 0 <= i < j < t.len() implies (#[trigger] t[i]).address@
                != (#[trigger] t[j]).address@ by {
                assert(s[i].address@ != s[j].address@);
            }
        }
        if present(t, e.address@) {
            let k = index_of(t, e.address@);
            assert(s[k].address@ != s[s.len() - 1].address@);
        }
        lemma_len(t);
        lemma_push(t, e);
        assert(t.push(e) =~= s);
    }
}

} // verus!
