use anchor_escrow::{
    can_refund, can_take, derive_addresses, make, open_at, refund, take, try_make, Address,
    DerivedAddresses, Escrow, EscrowBook, EscrowError, EscrowRecord, Holding, Vault,
};

fn addr(b: u8) -> Address {
    Address::new([b; 32])
}

fn program() -> Address {
    addr(9)
}

fn maker() -> Address {
    addr(1)
}

fn taker() -> Address {
    addr(2)
}

fn mint_a() -> Address {
    addr(3)
}

fn mint_b() -> Address {
    addr(4)
}

fn holding(owner: Address, mint: Address, amount: u64) -> Holding {
    Holding { owner, mint, amount }
}

fn fixed() -> DerivedAddresses {
    DerivedAddresses { escrow: addr(5), bump: 254, vault: addr(6) }
}

#[test]
fn make_then_take_settles_both_legs() {
    let mut book = EscrowBook::new(program());
    let mut maker_a = holding(maker(), mint_a(), 500);
    let mut maker_b = holding(maker(), mint_b(), 7);
    let mut taker_a = holding(taker(), mint_a(), 0);
    let mut taker_b = holding(taker(), mint_b(), 80);

    let d = derive_addresses(&program(), &maker(), 1, &mint_a(), &mint_b()).unwrap();
    assert_eq!(make(&mut book, &maker(), &mint_a(), &mint_b(), &mut maker_a, 1, 50, 100), Ok(()));
    assert_eq!(maker_a.amount, 400);
    let e = book.lookup(&d.escrow).unwrap();
    assert_eq!(e.vault.amount, 100);
    assert_eq!(e.vault.mint, mint_a());
    assert_eq!(e.vault.address, d.vault);
    assert_eq!(
        e.record,
        EscrowRecord {
            seed: 1,
            maker: maker(),
            mint_a: mint_a(),
            mint_b: mint_b(),
            receive: 50,
            bump: d.bump,
        }
    );

    assert_eq!(
        take(&mut book, &d.escrow, &taker(), &mut taker_a, &mut taker_b, &mut maker_b),
        Ok(())
    );
    assert_eq!(taker_a.amount, 100);
    assert_eq!(taker_b.amount, 30);
    assert_eq!(maker_b.amount, 57);
    assert_eq!(maker_a.amount, 400);
    assert!(!book.is_open(&d.escrow));
    assert_eq!(book.lookup(&d.escrow), None);
    assert_eq!(book.len(), 0);

    assert_eq!(
        take(&mut book, &d.escrow, &taker(), &mut taker_a, &mut taker_b, &mut maker_b),
        Err(EscrowError::RecordNotFound)
    );
    assert_eq!((taker_a.amount, taker_b.amount, maker_b.amount), (100, 30, 57));
}

#[test]
fn make_then_refund_restores_the_deposit() {
    let mut book = EscrowBook::new(program());
    let mut maker_a = holding(maker(), mint_a(), 10);
    let d = derive_addresses(&program(), &maker(), 2, &mint_a(), &mint_b()).unwrap();
    assert_eq!(
        try_make(&mut book, &maker(), &mint_a(), &mint_b(), &mut maker_a, 2, 30, 10),
        Some(Ok(()))
    );
    assert_eq!(maker_a.amount, 0);
    assert!(book.is_open(&d.escrow));
    assert_eq!(refund(&mut book, &d.escrow, &maker(), &mut maker_a), Ok(()));
    assert_eq!(maker_a.amount, 10);
    assert!(!book.is_open(&d.escrow));
    assert_eq!(book.len(), 0);
    assert_eq!(
        refund(&mut book, &d.escrow, &maker(), &mut maker_a),
        Err(EscrowError::RecordNotFound)
    );
    assert_eq!(maker_a.amount, 10);
}

#[test]
fn open_at_enters_the_escrow_as_given() {
    let mut book = EscrowBook::new(program());
    let mut source = holding(maker(), mint_a(), 25);
    let d = fixed();
    assert_eq!(
        open_at(&mut book, &d, &maker(), &mint_a(), &mint_b(), &mut source, 77, 3, 25),
        Ok(())
    );
    assert_eq!(source, holding(maker(), mint_a(), 0));
    assert_eq!(book.len(), 1);
    assert_eq!(
        book.lookup(&addr(5)),
        Some(Escrow {
            address: addr(5),
            record: EscrowRecord {
                seed: 77,
                maker: maker(),
                mint_a: mint_a(),
                mint_b: mint_b(),
                receive: 3,
                bump: 254,
            },
            vault: Vault { address: addr(6), mint: mint_a(), amount: 25 },
        })
    );
    assert_eq!(book.lookup(&addr(6)), None);
    assert_eq!(book.program(), program());
}

#[test]
fn zero_amounts_are_accepted() {
    let mut book = EscrowBook::new(program());
    let mut source = holding(maker(), mint_a(), 0);
    let mut taker_a = holding(taker(), mint_a(), 4);
    let mut taker_b = holding(taker(), mint_b(), 0);
    let mut maker_b = holding(maker(), mint_b(), 0);
    let d = fixed();
    assert_eq!(
        open_at(&mut book, &d, &maker(), &mint_a(), &mint_b(), &mut source, 0, 0, 0),
        Ok(())
    );
    assert_eq!(
        take(&mut book, &d.escrow, &taker(), &mut taker_a, &mut taker_b, &mut maker_b),
        Ok(())
    );
    assert_eq!((taker_a.amount, taker_b.amount, maker_b.amount), (4, 0, 0));
    assert!(!book.is_open(&d.escrow));
}

#[test]
fn reused_seed_collides() {
    let mut book = EscrowBook::new(program());
    let mut source = holding(maker(), mint_a(), 100);
    assert_eq!(make(&mut book, &maker(), &mint_a(), &mint_b(), &mut source, 1, 5, 40), Ok(()));
    assert_eq!(
        make(&mut book, &maker(), &mint_a(), &mint_b(), &mut source, 1, 6, 10),
        Err(EscrowError::AddressCollision)
    );
    assert_eq!(source.amount, 60);
    assert_eq!(book.len(), 1);
    let d = derive_addresses(&program(), &maker(), 1, &mint_a(), &mint_b()).unwrap();
    assert_eq!(book.lookup(&d.escrow).unwrap().record.receive, 5);
    // another seed opens a second escrow beside the first
    assert_eq!(make(&mut book, &maker(), &mint_a(), &mint_b(), &mut source, 2, 6, 10), Ok(()));
    assert_eq!(book.len(), 2);
    assert_eq!(source.amount, 50);
}

#[test]
fn make_needs_the_funds() {
    let mut book = EscrowBook::new(program());
    let mut source = holding(maker(), mint_a(), 99);
    assert_eq!(
        make(&mut book, &maker(), &mint_a(), &mint_b(), &mut source, 1, 50, 100),
        Err(EscrowError::InsufficientFunds)
    );
    assert_eq!(source.amount, 99);
    assert_eq!(book.len(), 0);
    let d = derive_addresses(&program(), &maker(), 1, &mint_a(), &mint_b()).unwrap();
    assert!(!book.is_open(&d.escrow));
    assert_eq!(make(&mut book, &maker(), &mint_a(), &mint_b(), &mut source, 1, 50, 99), Ok(()));
    assert_eq!(source.amount, 0);
}

#[test]
fn make_checks_the_paying_holding() {
    let mut book = EscrowBook::new(program());
    let mut foreign = holding(taker(), mint_a(), 100);
    assert_eq!(
        make(&mut book, &maker(), &mint_a(), &mint_b(), &mut foreign, 1, 50, 10),
        Err(EscrowError::Unauthorized)
    );
    let mut wrong_asset = holding(maker(), mint_b(), 100);
    assert_eq!(
        make(&mut book, &maker(), &mint_a(), &mint_b(), &mut wrong_asset, 1, 50, 10),
        Err(EscrowError::AccountMismatch)
    );
    let mut source = holding(maker(), mint_a(), 100);
    assert_eq!(
        make(&mut book, &maker(), &mint_a(), &mint_a(), &mut source, 1, 50, 10),
        Err(EscrowError::AccountMismatch)
    );
    assert_eq!((foreign.amount, wrong_asset.amount, source.amount), (100, 100, 100));
    assert_eq!(book.len(), 0);
}

#[test]
fn take_on_a_missing_record_changes_nothing() {
    let mut book = EscrowBook::new(program());
    let mut taker_a = holding(taker(), mint_a(), 1);
    let mut taker_b = holding(taker(), mint_b(), 2);
    let mut maker_b = holding(maker(), mint_b(), 3);
    assert_eq!(
        take(&mut book, &addr(5), &taker(), &mut taker_a, &mut taker_b, &mut maker_b),
        Err(EscrowError::RecordNotFound)
    );
    assert_eq!((taker_a.amount, taker_b.amount, maker_b.amount), (1, 2, 3));
    let mut maker_a = holding(maker(), mint_a(), 4);
    assert_eq!(
        refund(&mut book, &addr(5), &maker(), &mut maker_a),
        Err(EscrowError::RecordNotFound)
    );
    assert_eq!(maker_a.amount, 4);
}

#[test]
fn refund_by_a_stranger_leaves_the_escrow_open() {
    let mut book = EscrowBook::new(program());
    let mut source = holding(maker(), mint_a(), 10);
    let d = fixed();
    assert_eq!(
        open_at(&mut book, &d, &maker(), &mint_a(), &mint_b(), &mut source, 2, 30, 10),
        Ok(())
    );
    let before = book.lookup(&d.escrow);
    let mut theirs = holding(taker(), mint_a(), 0);
    assert_eq!(
        refund(&mut book, &d.escrow, &taker(), &mut theirs),
        Err(EscrowError::Unauthorized)
    );
    assert_eq!(
        refund(&mut book, &d.escrow, &taker(), &mut source),
        Err(EscrowError::Unauthorized)
    );
    assert_eq!(theirs.amount, 0);
    assert_eq!(source.amount, 0);
    assert!(book.is_open(&d.escrow));
    assert_eq!(book.lookup(&d.escrow), before);
    assert_eq!(book.lookup(&d.escrow).unwrap().vault.amount, 10);
}

#[test]
fn refund_pays_only_the_makers_holding_of_the_deposit() {
    let mut book = EscrowBook::new(program());
    let mut source = holding(maker(), mint_a(), 10);
    let d = fixed();
    assert_eq!(
        open_at(&mut book, &d, &maker(), &mint_a(), &mint_b(), &mut source, 2, 30, 10),
        Ok(())
    );
    let mut theirs = holding(taker(), mint_a(), 0);
    assert_eq!(
        refund(&mut book, &d.escrow, &maker(), &mut theirs),
        Err(EscrowError::AccountMismatch)
    );
    let mut other_asset = holding(maker(), mint_b(), 0);
    assert_eq!(
        refund(&mut book, &d.escrow, &maker(), &mut other_asset),
        Err(EscrowError::AccountMismatch)
    );
    assert!(book.is_open(&d.escrow));
    assert_eq!((theirs.amount, other_asset.amount), (0, 0));
}

#[test]
fn take_checks_the_offered_holdings() {
    let mut book = EscrowBook::new(program());
    let mut source = holding(maker(), mint_a(), 100);
    let d = fixed();
    assert_eq!(
        open_at(&mut book, &d, &maker(), &mint_a(), &mint_b(), &mut source, 1, 50, 100),
        Ok(())
    );
    let good_a = holding(taker(), mint_a(), 0);
    let good_b = holding(taker(), mint_b(), 50);
    let good_m = holding(maker(), mint_b(), 0);

    // the paying holding is not the taker's
    let (mut a, mut b, mut m) = (good_a, holding(maker(), mint_b(), 50), good_m);
    assert_eq!(
        take(&mut book, &d.escrow, &taker(), &mut a, &mut b, &mut m),
        Err(EscrowError::Unauthorized)
    );
    // the receiving holding is of the wrong asset
    let (mut a, mut b, mut m) = (holding(taker(), mint_b(), 0), good_b, good_m);
    assert_eq!(
        take(&mut book, &d.escrow, &taker(), &mut a, &mut b, &mut m),
        Err(EscrowError::AccountMismatch)
    );
    // the paying holding is of the wrong asset
    let (mut a, mut b, mut m) = (good_a, holding(taker(), mint_a(), 50), good_m);
    assert_eq!(
        take(&mut book, &d.escrow, &taker(), &mut a, &mut b, &mut m),
        Err(EscrowError::AccountMismatch)
    );
    // the maker's holding is somebody else's
    let (mut a, mut b, mut m) = (good_a, good_b, holding(taker(), mint_b(), 0));
    assert_eq!(
        take(&mut book, &d.escrow, &taker(), &mut a, &mut b, &mut m),
        Err(EscrowError::AccountMismatch)
    );
    // the maker's holding is of the wrong asset
    let (mut a, mut b, mut m) = (good_a, good_b, holding(maker(), mint_a(), 0));
    assert_eq!(
        take(&mut book, &d.escrow, &taker(), &mut a, &mut b, &mut m),
        Err(EscrowError::AccountMismatch)
    );
    // the taker cannot cover what is asked
    let (mut a, mut b, mut m) = (good_a, holding(taker(), mint_b(), 49), good_m);
    assert_eq!(
        take(&mut book, &d.escrow, &taker(), &mut a, &mut b, &mut m),
        Err(EscrowError::InsufficientFunds)
    );
    assert_eq!((a.amount, b.amount, m.amount), (0, 49, 0));
    assert_eq!(book.lookup(&d.escrow).unwrap().vault.amount, 100);
    // and with everything in order it settles
    let (mut a, mut b, mut m) = (good_a, good_b, good_m);
    assert_eq!(take(&mut book, &d.escrow, &taker(), &mut a, &mut b, &mut m), Ok(()));
    assert_eq!((a.amount, b.amount, m.amount), (100, 0, 50));
}

#[test]
fn closing_one_escrow_leaves_the_others() {
    let mut book = EscrowBook::new(program());
    let mut source = holding(maker(), mint_a(), 100);
    let d1 = DerivedAddresses { escrow: addr(10), bump: 255, vault: addr(11) };
    let d2 = DerivedAddresses { escrow: addr(20), bump: 255, vault: addr(21) };
    let d3 = DerivedAddresses { escrow: addr(30), bump: 255, vault: addr(31) };
    for (d, seed, amount) in [(d1, 1u64, 10u64), (d2, 2, 20), (d3, 3, 30)] {
        assert_eq!(
            open_at(&mut book, &d, &maker(), &mint_a(), &mint_b(), &mut source, seed, 1, amount),
            Ok(())
        );
    }
    assert_eq!(source.amount, 40);
    assert_eq!(book.len(), 3);
    let e1 = book.lookup(&d1.escrow);
    let e3 = book.lookup(&d3.escrow);
    assert_eq!(refund(&mut book, &d2.escrow, &maker(), &mut source), Ok(()));
    assert_eq!(source.amount, 60);
    assert_eq!(book.len(), 2);
    assert_eq!(book.lookup(&d1.escrow), e1);
    assert_eq!(book.lookup(&d3.escrow), e3);
    assert_eq!(book.lookup(&d2.escrow), None);
    // the address is free again
    assert_eq!(
        open_at(&mut book, &d2, &maker(), &mint_a(), &mint_b(), &mut source, 2, 1, 5),
        Ok(())
    );
    assert_eq!(book.lookup(&d2.escrow).unwrap().vault.amount, 5);
}

#[test]
fn addresses_compare_by_their_bytes() {
    let mut bytes = [7u8; 32];
    let a = Address::new(bytes);
    assert!(a.same(&addr(7)));
    bytes[31] = 8;
    assert!(!Address::new(bytes).same(&a));
    bytes[31] = 7;
    bytes[0] = 0;
    assert!(!Address::new(bytes).same(&a));
    assert_eq!(a.bytes, [7u8; 32]);
}

#[test]
fn deciding_changes_nothing() {
    let mut book = EscrowBook::new(program());
    let mut source = holding(maker(), mint_a(), 100);
    let d = fixed();
    assert_eq!(
        open_at(&mut book, &d, &maker(), &mint_a(), &mint_b(), &mut source, 1, 50, 100),
        Ok(())
    );
    let e = book.lookup(&d.escrow).unwrap();
    let a = holding(taker(), mint_a(), 0);
    let b = holding(taker(), mint_b(), 50);
    let m = holding(maker(), mint_b(), 0);
    assert_eq!(can_take(&book, &d.escrow, &taker(), &a, &b, &m), Ok(e));
    assert_eq!(
        can_take(&book, &d.escrow, &taker(), &a, &holding(taker(), mint_b(), 49), &m),
        Err(EscrowError::InsufficientFunds)
    );
    assert_eq!(
        can_take(&book, &addr(6), &taker(), &a, &b, &m),
        Err(EscrowError::RecordNotFound)
    );
    assert_eq!(can_refund(&book, &d.escrow, &maker(), &source), Ok(e));
    assert_eq!(
        can_refund(&book, &d.escrow, &taker(), &source),
        Err(EscrowError::Unauthorized)
    );
    assert_eq!(
        can_refund(&book, &addr(6), &maker(), &source),
        Err(EscrowError::RecordNotFound)
    );
    assert_eq!(book.lookup(&d.escrow), Some(e));
    assert_eq!(book.len(), 1);
}

#[test]
fn a_stored_book_is_restored() {
    let mut book = EscrowBook::new(program());
    let mut source = holding(maker(), mint_a(), 100);
    let d1 = DerivedAddresses { escrow: addr(10), bump: 255, vault: addr(11) };
    let d2 = DerivedAddresses { escrow: addr(20), bump: 253, vault: addr(21) };
    assert_eq!(
        open_at(&mut book, &d1, &maker(), &mint_a(), &mint_b(), &mut source, 1, 5, 10),
        Ok(())
    );
    assert_eq!(
        open_at(&mut book, &d2, &maker(), &mint_a(), &mint_b(), &mut source, 2, 6, 20),
        Ok(())
    );
    let stored = book.entries();
    assert_eq!(stored.len(), 2);
    let again = EscrowBook::restore(program(), &stored).unwrap();
    assert_eq!(again.len(), 2);
    assert_eq!(again.program(), program());
    assert_eq!(again.lookup(&addr(10)), book.lookup(&addr(10)));
    assert_eq!(again.lookup(&addr(20)), book.lookup(&addr(20)));
    assert_eq!(again.lookup(&addr(20)).unwrap().vault.amount, 20);
    assert_eq!(again.lookup(&addr(11)), None);

    // two escrows at one address
    let twice = vec![stored[0], stored[1], stored[0]];
    assert!(EscrowBook::restore(program(), &twice).is_none());
    // a vault that holds another asset than the deposited one
    let mut odd = stored[0];
    odd.vault.mint = mint_b();
    assert!(EscrowBook::restore(program(), &vec![odd]).is_none());
    // a deal of an asset for itself
    let mut same = stored[0];
    same.record.mint_b = mint_a();
    assert!(EscrowBook::restore(program(), &vec![same]).is_none());
    assert_eq!(EscrowBook::restore(program(), &Vec::new()).unwrap().len(), 0);
}
