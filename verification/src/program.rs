//! The three operations on escrows: opening one, completing it, cancelling it.
//!
//! Each either applies in full or is refused and changes nothing. An escrow
//! that was completed or cancelled is gone: nothing reopens it, and whatever
//! is tried on its address afterwards finds no record.

use crate::address::Address;
use crate::book::{entry_ok, Escrow, EscrowBook, EscrowError, EscrowRecord, Holding, Vault};
use crate::derive::{derivable, derive_addresses, derived, is_derived, DerivedAddresses};
use vstd::prelude::*;

verus! {

/// The holding after `x` was paid into it.
pub open spec fn credited(h: Holding, x: u64) -> Holding {
    Holding { amount: (h.amount + x) as u64, ..h }
}

/// The holding after `x` was paid out of it.
pub open spec fn debited(h: Holding, x: u64) -> Holding {
    Holding { amount: (h.amount - x) as u64, ..h }
}

/// The escrow that opens for the given terms at the given addresses.
pub open spec fn opened(
    d: DerivedAddresses,
    maker: Address,
    mint_a: Address,
    mint_b: Address,
    seed: u64,
    receive: u64,
    amount: u64,
) -> Escrow {
    Escrow {
        address: d.escrow,
        record: EscrowRecord { seed, maker, mint_a, mint_b, receive, bump: d.bump },
        vault: Vault { address: d.vault, mint: mint_a, amount },
    }
}

/// Whether an escrow sits at the addresses derived from its own terms.
pub open spec fn at_derived_address(program: Address, e: Escrow) -> bool {
    is_derived(
        DerivedAddresses { escrow: e.address, bump: e.record.bump, vault: e.vault.address },
        program,
        e.record.maker,
        e.record.seed,
        e.record.mint_a,
        e.record.mint_b,
    )
}

/// Whether every open escrow sits at the addresses derived from its terms.
pub open spec fn all_derived(book: EscrowBook) -> bool {
    forall|a: Seq<u8>| #[trigger]
        book@.contains_key(a) ==> at_derived_address(book.program_id(), book@[a])
}

/// Whether opening succeeds, and the error if not. The checks come in this
/// order: the paying holding is the maker's; the two assets differ and the
/// holding is of the deposited one; no record is open at the address; the
/// holding covers the deposit.
pub open spec fn open_outcome(
    book: Map<Seq<u8>, Escrow>,
    d: DerivedAddresses,
    maker: Address,
    mint_a: Address,
    mint_b: Address,
    amount: u64,
    source: Holding,
) -> Result<(), EscrowError> {
    if source.owner != maker {
        Err(EscrowError::Unauthorized)
    } else if mint_a == mint_b || source.mint != mint_a {
        Err(EscrowError::AccountMismatch)
    } else if book.contains_key(d.escrow@) {
        Err(EscrowError::AddressCollision)
    } else if source.amount < amount {
        Err(EscrowError::InsufficientFunds)
    } else {
        Ok(())
    }
}

/// What opening does: on success the escrow is entered with the deposit in its
/// vault and the deposit has left the maker's holding; on failure nothing
/// changed.
pub open spec fn open_post(
    before: Map<Seq<u8>, Escrow>,
    after: Map<Seq<u8>, Escrow>,
    source_before: Holding,
    source_after: Holding,
    d: DerivedAddresses,
    maker: Address,
    mint_a: Address,
    mint_b: Address,
    seed: u64,
    receive: u64,
    amount: u64,
    r: Result<(), EscrowError>,
) -> bool {
    &&& r == open_outcome(before, d, maker, mint_a, mint_b, amount, source_before)
    &&& r is Ok ==> {
        &&& after == before.insert(d.escrow@, opened(d, maker, mint_a, mint_b, seed, receive, amount))
        &&& after[d.escrow@].vault.amount == amount
        &&& source_after == debited(source_before, amount)
        &&& source_after.amount == source_before.amount - amount
    }
    &&& r is Err ==> after == before && source_after == source_before
}

/// Whether completion succeeds, and the error if not. The checks come in this
/// order: a record is open at the address; the paying holding is the taker's;
/// the taker's receiving holding and the maker's holding belong to them and
/// all three are of the assets that the record names; the taker covers what
/// the maker asks.
pub open spec fn take_outcome(
    book: Map<Seq<u8>, Escrow>,
    address: Seq<u8>,
    taker: Address,
    taker_a: Holding,
    taker_b: Holding,
    maker_b: Holding,
) -> Result<(), EscrowError> {
    if !book.contains_key(address) {
        Err(EscrowError::RecordNotFound)
    } else if taker_b.owner != taker {
        Err(EscrowError::Unauthorized)
    } else if taker_a.owner != taker || taker_a.mint != book[address].record.mint_a || taker_b.mint
        != book[address].record.mint_b || maker_b.mint != book[address].record.mint_b
        || maker_b.owner != book[address].record.maker {
        Err(EscrowError::AccountMismatch)
    } else if taker_b.amount < book[address].record.receive {
        Err(EscrowError::InsufficientFunds)
    } else {
        Ok(())
    }
}

/// Whether the two receiving holdings have room for what a completion that
/// succeeds pays into them. Holdings of one asset never sum to more than its
/// supply, which fits in 64 bits.
pub open spec fn take_fits(
    book: Map<Seq<u8>, Escrow>,
    address: Seq<u8>,
    taker: Address,
    taker_a: Holding,
    taker_b: Holding,
    maker_b: Holding,
) -> bool {
    take_outcome(book, address, taker, taker_a, taker_b, maker_b) is Ok ==> {
        &&& taker_a.amount + book[address].vault.amount <= u64::MAX
        &&& maker_b.amount + book[address].record.receive <= u64::MAX
    }
}

/// Whether cancellation succeeds, and the error if not. The checks come in
/// this order: a record is open at the address; the signer is its maker; the
/// receiving holding is the maker's and of the deposited asset.
pub open spec fn refund_outcome(
    book: Map<Seq<u8>, Escrow>,
    address: Seq<u8>,
    signer: Address,
    maker_a: Holding,
) -> Result<(), EscrowError> {
    if !book.contains_key(address) {
        Err(EscrowError::RecordNotFound)
    } else if signer != book[address].record.maker {
        Err(EscrowError::Unauthorized)
    } else if maker_a.owner != book[address].record.maker || maker_a.mint
        != book[address].record.mint_a {
        Err(EscrowError::AccountMismatch)
    } else {
        Ok(())
    }
}

/// Whether the maker's holding has room for what a cancellation that succeeds
/// pays back into it.
pub open spec fn refund_fits(
    book: Map<Seq<u8>, Escrow>,
    address: Seq<u8>,
    signer: Address,
    maker_a: Holding,
) -> bool {
    refund_outcome(book, address, signer, maker_a) is Ok ==> maker_a.amount
        + book[address].vault.amount <= u64::MAX
}

/// Opens an escrow at addresses that the caller hands in: enters the record
/// and moves `amount` of `mint_a` from the maker's holding into the vault, or
/// refuses and changes nothing.
///
/// The addresses are taken as given. They are the derived ones when `make`
/// calls; only then does every open escrow stay at its derived addresses.
#[allow(unused_comparisons)]
pub fn open_at(
    book: &mut EscrowBook,
    d: &DerivedAddresses,
    maker: &Address,
    mint_a: &Address,
    mint_b: &Address,
    source: &mut Holding,
    seed: u64,
    receive: u64,
    amount: u64,
) -> (r: Result<(), EscrowError>)
    requires
        old(book).wf(),
    ensures
        final(book).wf(),
        final(book).program_id() == old(book).program_id(),
        open_post(
            old(book)@,
            final(book)@,
            *old(source),
            *final(source),
            *d,
            *maker,
            *mint_a,
            *mint_b,
            seed,
            receive,
            amount,
            r,
        ),
        all_derived(*old(book)) && is_derived(
            *d,
            old(book).program_id(),
            *maker,
            seed,
            *mint_a,
            *mint_b,
        ) ==> all_derived(*final(book)),
{
    if !(receive >= 0 && amount >= 0) {
        return Err(EscrowError::InvalidAmount);
    }
    if !source.owner.same(maker) {
        return Err(EscrowError::Unauthorized);
    }
    if mint_a.same(mint_b) || !source.mint.same(mint_a) {
        return Err(EscrowError::AccountMismatch);
    }
    if book.is_open(&d.escrow) {
        return Err(EscrowError::AddressCollision);
    }
    if source.amount < amount {
        return Err(EscrowError::InsufficientFunds);
    }
    let e = Escrow {
        address: d.escrow,
        record: EscrowRecord {
            seed,
            maker: *maker,
            mint_a: *mint_a,
            mint_b: *mint_b,
            receive,
            bump: d.bump,
        },
        vault: Vault { address: d.vault, mint: *mint_a, amount },
    };
    assert(entry_ok(e));
    book.enter(e);
    source.amount = source.amount - amount;
    Ok(())
}

/// Creation. Derives the addresses of the record and the vault from the
/// maker, the seed and the two assets, and opens the escrow there.
pub fn make(
    book: &mut EscrowBook,
    maker: &Address,
    mint_a: &Address,
    mint_b: &Address,
    source: &mut Holding,
    seed: u64,
    receive: u64,
    amount: u64,
) -> (r: Result<(), EscrowError>)
    requires
        old(book).wf(),
        derivable(old(book).program_id(), *maker, seed, *mint_a, *mint_b),
    ensures
        final(book).wf(),
        final(book).program_id() == old(book).program_id(),
        open_post(
            old(book)@,
            final(book)@,
            *old(source),
            *final(source),
            derived(old(book).program_id(), *maker, seed, *mint_a, *mint_b).unwrap(),
            *maker,
            *mint_a,
            *mint_b,
            seed,
            receive,
            amount,
            r,
        ),
        all_derived(*old(book)) ==> all_derived(*final(book)),
{
    let program = book.program();
    let d = derive_addresses(&program, maker, seed, mint_a, mint_b).unwrap();
    open_at(book, &d, maker, mint_a, mint_b, source, seed, receive, amount)
}

/// Creation, for callers that cannot know whether the addresses of the deal
/// can be derived: `None`, with nothing changed, where they cannot; otherwise
/// what `make` does and returns.
pub fn try_make(
    book: &mut EscrowBook,
    maker: &Address,
    mint_a: &Address,
    mint_b: &Address,
    source: &mut Holding,
    seed: u64,
    receive: u64,
    amount: u64,
) -> (r: Option<Result<(), EscrowError>>)
    requires
        old(book).wf(),
    ensures
        final(book).wf(),
        final(book).program_id() == old(book).program_id(),
        r is Some <==> derivable(old(book).program_id(), *maker, seed, *mint_a, *mint_b),
        r is None ==> final(book)@ == old(book)@ && *final(source) == *old(source),
        r matches Some(res) ==> open_post(
            old(book)@,
            final(book)@,
            *old(source),
            *final(source),
            derived(old(book).program_id(), *maker, seed, *mint_a, *mint_b).unwrap(),
            *maker,
            *mint_a,
            *mint_b,
            seed,
            receive,
            amount,
            res,
        ),
        all_derived(*old(book)) ==> all_derived(*final(book)),
{
    let program = book.program();
    if derive_addresses(&program, maker, seed, mint_a, mint_b).is_some() {
        Some(make(book, maker, mint_a, mint_b, source, seed, receive, amount))
    } else {
        None
    }
}

/// Decides a completion without performing it: the escrow that it would
/// close, or the error that it would be refused with.
pub fn can_take(
    book: &EscrowBook,
    address: &Address,
    taker: &Address,
    taker_a: &Holding,
    taker_b: &Holding,
    maker_b: &Holding,
) -> (r: Result<Escrow, EscrowError>)
    requires
        book.wf(),
    ensures
        match r {
            Ok(e) => take_outcome(book@, address@, *taker, *taker_a, *taker_b, *maker_b) is Ok
                && book@.contains_key(address@) && e == book@[address@],
            Err(why) => take_outcome(book@, address@, *taker, *taker_a, *taker_b, *maker_b)
                == Err::<(), EscrowError>(why),
        },
{
    let e = match book.lookup(address) {
        Some(e) => e,
        None => {
            return Err(EscrowError::RecordNotFound);
        },
    };
    if !taker_b.owner.same(taker) {
        return Err(EscrowError::Unauthorized);
    }
    if !taker_a.owner.same(taker) || !taker_a.mint.same(&e.record.mint_a) || !taker_b.mint.same(
        &e.record.mint_b,
    ) || !maker_b.mint.same(&e.record.mint_b) || !maker_b.owner.same(&e.record.maker) {
        return Err(EscrowError::AccountMismatch);
    }
    if taker_b.amount < e.record.receive {
        return Err(EscrowError::InsufficientFunds);
    }
    Ok(e)
}

/// Decides a cancellation without performing it: the escrow that it would
/// close, or the error that it would be refused with.
pub fn can_refund(book: &EscrowBook, address: &Address, signer: &Address, maker_a: &Holding) -> (r:
    Result<Escrow, EscrowError>)
    requires
        book.wf(),
    ensures
        match r {
            Ok(e) => refund_outcome(book@, address@, *signer, *maker_a) is Ok
                && book@.contains_key(address@) && e == book@[address@],
            Err(why) => refund_outcome(book@, address@, *signer, *maker_a) == Err::<
                (),
                EscrowError,
            >(why),
        },
{
    let e = match book.lookup(address) {
        Some(e) => e,
        None => {
            return Err(EscrowError::RecordNotFound);
        },
    };
    if !signer.same(&e.record.maker) {
        return Err(EscrowError::Unauthorized);
    }
    if !maker_a.owner.same(&e.record.maker) || !maker_a.mint.same(&e.record.mint_a) {
        return Err(EscrowError::AccountMismatch);
    }
    Ok(e)
}

/// Completion. The taker pays the maker what the record asks, in `mint_b`, and
/// gets all that the vault holds, in `mint_a`; the record and the vault are
/// then gone. Both payments happen or neither does.
pub fn take(
    book: &mut EscrowBook,
    address: &Address,
    taker: &Address,
    taker_a: &mut Holding,
    taker_b: &mut Holding,
    maker_b: &mut Holding,
) -> (r: Result<(), EscrowError>)
    requires
        old(book).wf(),
        take_fits(
            old(book)@,
            address@,
            *taker,
            *old(taker_a),
            *old(taker_b),
            *old(maker_b),
        ),
    ensures
        final(book).wf(),
        final(book).program_id() == old(book).program_id(),
        r == take_outcome(
            old(book)@,
            address@,
            *taker,
            *old(taker_a),
            *old(taker_b),
            *old(maker_b),
        ),
        r is Ok ==> {
            &&& final(book)@ == old(book)@.remove(address@)
            &&& !final(book)@.contains_key(address@)
            &&& *final(taker_a) == credited(*old(taker_a), old(book)@[address@].vault.amount)
            &&& final(taker_a).amount == old(taker_a).amount + old(book)@[address@].vault.amount
            &&& *final(taker_b) == debited(*old(taker_b), old(book)@[address@].record.receive)
            &&& final(taker_b).amount == old(taker_b).amount - old(book)@[address@].record.receive
            &&& *final(maker_b) == credited(*old(maker_b), old(book)@[address@].record.receive)
            &&& final(maker_b).amount == old(maker_b).amount + old(book)@[address@].record.receive
        },
        r is Err ==> {
            &&& final(book)@ == old(book)@
            &&& *final(taker_a) == *old(taker_a)
            &&& *final(taker_b) == *old(taker_b)
            &&& *final(maker_b) == *old(maker_b)
        },
        all_derived(*old(book)) ==> all_derived(*final(book)),
{
    let e = match can_take(book, address, taker, taker_a, taker_b, maker_b) {
        Ok(e) => e,
        Err(why) => {
            return Err(why);
        },
    };
    taker_b.amount = taker_b.amount - e.record.receive;
    maker_b.amount = maker_b.amount + e.record.receive;
    taker_a.amount = taker_a.amount + e.vault.amount;
    let _ = book.close(address);
    Ok(())
}

/// Cancellation. Only the maker may cancel: the vault's whole balance goes
/// back to the maker's holding, and the record and the vault are then gone.
/// No `mint_b` moves.
pub fn refund(
    book: &mut EscrowBook,
    address: &Address,
    signer: &Address,
    maker_a: &mut Holding,
) -> (r: Result<(), EscrowError>)
    requires
        old(book).wf(),
        refund_fits(old(book)@, address@, *signer, *old(maker_a)),
    ensures
        final(book).wf(),
        final(book).program_id() == old(book).program_id(),
        r == refund_outcome(old(book)@, address@, *signer, *old(maker_a)),
        r is Ok ==> {
            &&& final(book)@ == old(book)@.remove(address@)
            &&& !final(book)@.contains_key(address@)
            &&& *final(maker_a) == credited(*old(maker_a), old(book)@[address@].vault.amount)
            &&& final(maker_a).amount == old(maker_a).amount + old(book)@[address@].vault.amount
        },
        r is Err ==> final(book)@ == old(book)@ && *final(maker_a) == *old(maker_a),
        all_derived(*old(book)) ==> all_derived(*final(book)),
{
    let e = match can_refund(book, address, signer, maker_a) {
        Ok(e) => e,
        Err(why) => {
            return Err(why);
        },
    };
    maker_a.amount = maker_a.amount + e.vault.amount;
    let _ = book.close(address);
    Ok(())
}

} // verus!
