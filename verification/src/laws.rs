//! What holds of the operations taken together.

use crate::address::Address;
use crate::book::{Escrow, EscrowBook, EscrowError, Holding};
use crate::derive::{derived, DerivedAddresses};
use crate::program::{
    all_derived, credited, debited, open_outcome, opened, refund_fits, refund_outcome, take_fits,
    take_outcome,
};
use vstd::prelude::*;

verus! {

/// Once an escrow is closed, by completion or by cancellation, both
/// completion and cancellation at its address find no record, whoever asks
/// and whatever holdings are offered.
pub proof fn law_closed_is_final(
    book: Map<Seq<u8>, Escrow>,
    address: Seq<u8>,
    signer: Address,
    taker_a: Holding,
    taker_b: Holding,
    maker_b: Holding,
    maker_a: Holding,
)
    ensures
        take_outcome(book.remove(address), address, signer, taker_a, taker_b, maker_b) == Err::<
            (),
            EscrowError,
        >(EscrowError::RecordNotFound),
        refund_outcome(book.remove(address), address, signer, maker_a) == Err::<(), EscrowError>(
            EscrowError::RecordNotFound,
        ),
{
}

/// Where no escrow is open at an address, completion and cancellation there
/// find no record.
pub proof fn law_absent_is_not_found(
    book: Map<Seq<u8>, Escrow>,
    address: Seq<u8>,
    signer: Address,
    taker_a: Holding,
    taker_b: Holding,
    maker_b: Holding,
    maker_a: Holding,
)
    requires
        !book.contains_key(address),
    ensures
        take_outcome(book, address, signer, taker_a, taker_b, maker_b) == Err::<(), EscrowError>(
            EscrowError::RecordNotFound,
        ),
        refund_outcome(book, address, signer, maker_a) == Err::<(), EscrowError>(
            EscrowError::RecordNotFound,
        ),
{
}

/// Cancellation of an open escrow by anyone but its maker is refused as
/// unauthorized, whatever holding is offered.
pub proof fn law_only_maker_cancels(
    book: Map<Seq<u8>, Escrow>,
    address: Seq<u8>,
    signer: Address,
    maker_a: Holding,
)
    requires
        book.contains_key(address),
        signer != book[address].record.maker,
    ensures
        refund_outcome(book, address, signer, maker_a) == Err::<(), EscrowError>(
            EscrowError::Unauthorized,
        ),
{
}

/// An escrow that was just opened can be cancelled by its maker into the
/// holding that paid the deposit. That holding then holds what it held before
/// the escrow was opened, and the book is as it was.
pub proof fn law_open_then_cancel_restores(
    book: Map<Seq<u8>, Escrow>,
    d: DerivedAddresses,
    maker: Address,
    mint_a: Address,
    mint_b: Address,
    seed: u64,
    receive: u64,
    amount: u64,
    source: Holding,
)
    requires
        open_outcome(book, d, maker, mint_a, mint_b, amount, source) is Ok,
    ensures
        ({
            let e = opened(d, maker, mint_a, mint_b, seed, receive, amount);
            let after = book.insert(d.escrow@, e);
            let paid = debited(source, amount);
            &&& refund_outcome(after, d.escrow@, maker, paid) is Ok
            &&& refund_fits(after, d.escrow@, maker, paid)
            &&& credited(paid, after[d.escrow@].vault.amount) == source
            &&& after.remove(d.escrow@) == book
        }),
{
    let e = opened(d, maker, mint_a, mint_b, seed, receive, amount);
    let after = book.insert(d.escrow@, e);
    assert(after.remove(d.escrow@) =~= book);
}

/// An escrow that was just opened can be completed by any taker who offers a
/// holding of the wanted asset that covers what the maker asks. The taker then
/// gets exactly the deposit, the maker exactly what was asked, and the taker
/// pays exactly that.
pub proof fn law_open_then_complete_settles(
    book: Map<Seq<u8>, Escrow>,
    d: DerivedAddresses,
    maker: Address,
    mint_a: Address,
    mint_b: Address,
    seed: u64,
    receive: u64,
    amount: u64,
    source: Holding,
    taker: Address,
    taker_a: Holding,
    taker_b: Holding,
    maker_b: Holding,
)
    requires
        open_outcome(book, d, maker, mint_a, mint_b, amount, source) is Ok,
        taker_a.owner == taker && taker_a.mint == mint_a,
        taker_b.owner == taker && taker_b.mint == mint_b,
        maker_b.owner == maker && maker_b.mint == mint_b,
        taker_b.amount >= receive,
    ensures
        ({
            let e = opened(d, maker, mint_a, mint_b, seed, receive, amount);
            let after = book.insert(d.escrow@, e);
            &&& take_outcome(after, d.escrow@, taker, taker_a, taker_b, maker_b) is Ok
            &&& after[d.escrow@].vault.amount == amount
            &&& after[d.escrow@].record.receive == receive
            &&& after.remove(d.escrow@) == book
            &&& take_fits(after, d.escrow@, taker, taker_a, taker_b, maker_b) <==> (taker_a.amount
                + amount <= u64::MAX && maker_b.amount + receive <= u64::MAX)
        }),
{
    let e = opened(d, maker, mint_a, mint_b, seed, receive, amount);
    let after = book.insert(d.escrow@, e);
    assert(after.remove(d.escrow@) =~= book);
}

/// While every open escrow sits at the addresses derived from its terms, no
/// two open escrows have the same maker, seed and assets.
pub proof fn law_one_escrow_per_deal(book: EscrowBook, first: Seq<u8>, second: Seq<u8>)
    requires
        book.wf(),
        all_derived(book),
        book@.contains_key(first),
        book@.contains_key(second),
        book@[first].record.maker == book@[second].record.maker,
        book@[first].record.seed == book@[second].record.seed,
        book@[first].record.mint_a == book@[second].record.mint_a,
        book@[first].record.mint_b == book@[second].record.mint_b,
    ensures
        first == second,
{
    book.law_every_entry_is_sound();
}

/// While every open escrow sits at the addresses derived from its terms,
/// creation with the maker, seed and assets of an open escrow never succeeds:
/// unless it is refused for the holding that pays, it is refused as a
/// collision.
pub proof fn law_reused_seed_collides(
    book: EscrowBook,
    open: Seq<u8>,
    receive: u64,
    amount: u64,
    source: Holding,
)
    requires
        book.wf(),
        all_derived(book),
        book@.contains_key(open),
    ensures
        ({
            let r = book@[open].record;
            let d = derived(book.program_id(), r.maker, r.seed, r.mint_a, r.mint_b);
            &&& d is Some
            &&& d.unwrap().escrow@ == open
            &&& open_outcome(book@, d.unwrap(), r.maker, r.mint_a, r.mint_b, amount, source) is Err
            &&& source.owner == r.maker && source.mint == r.mint_a ==> open_outcome(
                book@,
                d.unwrap(),
                r.maker,
                r.mint_a,
                r.mint_b,
                amount,
                source,
            ) == Err::<(), EscrowError>(EscrowError::AddressCollision)
        }),
{
    book.law_every_entry_is_sound();
    let e = book@[open];
    let here = DerivedAddresses { escrow: e.address, bump: e.record.bump, vault: e.vault.address };
    crate::derive::lemma_derived_unique(
        here,
        book.program_id(),
        e.record.maker,
        e.record.seed,
        e.record.mint_a,
        e.record.mint_b,
    );
}

/// Opening and closing an escrow leave every other escrow as it was.
pub proof fn law_escrows_are_independent(
    book: Map<Seq<u8>, Escrow>,
    address: Seq<u8>,
    e: Escrow,
    other: Seq<u8>,
)
    requires
        other != address,
    ensures
        book.insert(address, e).contains_key(other) == book.contains_key(other),
        book.remove(address).contains_key(other) == book.contains_key(other),
        book.contains_key(other) ==> book.insert(address, e)[other] == book[other]
            && book.remove(address)[other] == book[other],
{
}

/// What a completion moves is conserved: the two holdings of the wanted asset
/// sum to what they did before.
pub proof fn law_payment_is_conserved(payer: Holding, payee: Holding, x: u64)
    requires
        x <= payer.amount,
        payee.amount + x <= u64::MAX,
    ensures
        debited(payer, x).amount + credited(payee, x).amount == payer.amount + payee.amount,
{
}

} // verus!
