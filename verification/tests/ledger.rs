use token_escrow::address::{Address, DerivedAddress};
use token_escrow::ledger::{Authority, Ledger, LedgerError, Step};
use token_escrow::state::Escrow;

fn address(n: u8) -> Address {
    Address::new([n; 32])
}

fn record(from: u8, to: u8) -> Escrow {
    Escrow {
        from: address(from),
        to: address(to),
        token_a: address(10),
        token_b: address(20),
        amount_a: 5,
        amount_b: 6,
        expiry: 7,
    }
}

#[test]
fn new_ledger_is_empty() {
    let ledger = Ledger::new(10);
    assert_eq!(ledger.deposit(), 10);
    assert_eq!(ledger.balance(&address(1), &address(10)), None);
    assert!(ledger.record(&address(1)).is_none());
    assert_eq!(ledger.funds(&address(1)), 0);
}

#[test]
fn funding_adds_up_and_overflows() {
    let mut ledger = Ledger::new(10);
    assert_eq!(ledger.fund(&address(1), 30), Ok(()));
    assert_eq!(ledger.fund(&address(1), 12), Ok(()));
    assert_eq!(ledger.funds(&address(1)), 42);
    assert_eq!(ledger.funds(&address(2)), 0);
    assert_eq!(ledger.fund(&address(1), u64::MAX - 41), Err(LedgerError::BalanceOverflow));
    assert_eq!(ledger.funds(&address(1)), 42);
    assert_eq!(ledger.fund(&address(1), u64::MAX - 42), Ok(()));
    assert_eq!(ledger.funds(&address(1)), u64::MAX);
}

#[test]
fn opening_a_holding_takes_the_reserve() {
    let mut ledger = Ledger::new(10);
    ledger.fund(&address(1), 25).unwrap();
    assert_eq!(ledger.open_holding(&address(1), &address(2), &address(10)), Ok(()));
    assert_eq!(ledger.balance(&address(2), &address(10)), Some(0));
    assert_eq!(ledger.balance(&address(1), &address(10)), None);
    assert_eq!(ledger.balance(&address(2), &address(11)), None);
    assert_eq!(ledger.funds(&address(1)), 15);
    assert_eq!(
        ledger.open_holding(&address(1), &address(2), &address(10)),
        Err(LedgerError::AccountInUse)
    );
    assert_eq!(ledger.funds(&address(1)), 15);
    assert_eq!(ledger.open_holding(&address(1), &address(1), &address(10)), Ok(()));
    assert_eq!(
        ledger.open_holding(&address(1), &address(3), &address(10)),
        Err(LedgerError::InsufficientReserve)
    );
    assert_eq!(ledger.balance(&address(3), &address(10)), None);
    assert_eq!(ledger.funds(&address(1)), 5);
}

#[test]
fn ensuring_a_holding_is_idempotent() {
    let mut ledger = Ledger::new(10);
    ledger.fund(&address(1), 10).unwrap();
    assert_eq!(ledger.ensure_holding(&address(1), &address(2), &address(10)), Ok(()));
    ledger.issue(&address(2), &address(10), 7).unwrap();
    assert_eq!(ledger.funds(&address(1)), 0);
    assert_eq!(ledger.ensure_holding(&address(1), &address(2), &address(10)), Ok(()));
    assert_eq!(ledger.balance(&address(2), &address(10)), Some(7));
    assert_eq!(ledger.funds(&address(1)), 0);
    assert_eq!(
        ledger.ensure_holding(&address(1), &address(2), &address(11)),
        Err(LedgerError::InsufficientReserve)
    );
}

#[test]
fn issuing_needs_a_holding_and_room() {
    let mut ledger = Ledger::new(0);
    assert_eq!(ledger.issue(&address(1), &address(10), 5), Err(LedgerError::AccountNotFound));
    ledger.open_holding(&address(1), &address(1), &address(10)).unwrap();
    assert_eq!(ledger.issue(&address(1), &address(10), u64::MAX), Ok(()));
    assert_eq!(ledger.issue(&address(1), &address(10), 1), Err(LedgerError::BalanceOverflow));
    assert_eq!(ledger.balance(&address(1), &address(10)), Some(u64::MAX));
}

fn two_holdings() -> Ledger {
    let mut ledger = Ledger::new(0);
    ledger.open_holding(&address(1), &address(1), &address(10)).unwrap();
    ledger.open_holding(&address(2), &address(2), &address(10)).unwrap();
    ledger.issue(&address(1), &address(10), 100).unwrap();
    ledger
}

#[test]
fn transfer_moves_the_amount() {
    let mut ledger = two_holdings();
    let signer = Authority::Signer(address(1));
    assert_eq!(ledger.transfer(&address(1), &address(2), &address(10), 30, &signer), Ok(()));
    assert_eq!(ledger.balance(&address(1), &address(10)), Some(70));
    assert_eq!(ledger.balance(&address(2), &address(10)), Some(30));
    assert_eq!(ledger.transfer(&address(1), &address(2), &address(10), 70, &signer), Ok(()));
    assert_eq!(ledger.balance(&address(1), &address(10)), Some(0));
    assert_eq!(ledger.balance(&address(2), &address(10)), Some(100));
    assert_eq!(ledger.transfer(&address(1), &address(2), &address(10), 0, &signer), Ok(()));
}

#[test]
fn transfer_refusals_change_nothing() {
    let mut ledger = two_holdings();
    let signer = Authority::Signer(address(1));
    assert_eq!(
        ledger.transfer(&address(1), &address(2), &address(10), 101, &signer),
        Err(LedgerError::InsufficientFunds)
    );
    assert_eq!(
        ledger.transfer(&address(1), &address(3), &address(10), 1, &signer),
        Err(LedgerError::AccountNotFound)
    );
    assert_eq!(
        ledger.transfer(&address(3), &address(1), &address(10), 1, &Authority::Signer(address(3))),
        Err(LedgerError::AccountNotFound)
    );
    assert_eq!(
        ledger.transfer(&address(1), &address(2), &address(11), 1, &signer),
        Err(LedgerError::AccountNotFound)
    );
    assert_eq!(
        ledger.transfer(&address(1), &address(2), &address(10), 1, &Authority::Signer(address(2))),
        Err(LedgerError::NotAuthorised)
    );
    ledger.issue(&address(2), &address(10), u64::MAX).unwrap();
    assert_eq!(
        ledger.transfer(&address(1), &address(2), &address(10), 1, &signer),
        Err(LedgerError::BalanceOverflow)
    );
    assert_eq!(ledger.balance(&address(1), &address(10)), Some(100));
    assert_eq!(ledger.balance(&address(2), &address(10)), Some(u64::MAX));
}

#[test]
fn transfer_to_oneself_changes_nothing() {
    let mut ledger = two_holdings();
    let signer = Authority::Signer(address(1));
    assert_eq!(ledger.transfer(&address(1), &address(1), &address(10), 100, &signer), Ok(()));
    assert_eq!(ledger.balance(&address(1), &address(10)), Some(100));
    assert_eq!(
        ledger.transfer(&address(1), &address(1), &address(10), 101, &signer),
        Err(LedgerError::InsufficientFunds)
    );
}

#[test]
fn derived_authority_speaks_for_its_address() {
    let mut ledger = two_holdings();
    let derived = Authority::Derived(DerivedAddress { address: address(1), bump: 200 });
    assert_eq!(derived.who(), address(1));
    assert_eq!(Authority::Signer(address(4)).who(), address(4));
    assert_eq!(ledger.transfer(&address(1), &address(2), &address(10), 30, &derived), Ok(()));
    assert_eq!(ledger.balance(&address(2), &address(10)), Some(30));
    let other = Authority::Derived(DerivedAddress { address: address(2), bump: 200 });
    assert_eq!(
        ledger.transfer(&address(1), &address(2), &address(10), 30, &other),
        Err(LedgerError::NotAuthorised)
    );
}

#[test]
fn closing_a_holding_refunds_the_reserve() {
    let mut ledger = Ledger::new(10);
    ledger.fund(&address(1), 10).unwrap();
    ledger.open_holding(&address(1), &address(2), &address(10)).unwrap();
    ledger.issue(&address(2), &address(10), 1).unwrap();
    let owner = Authority::Signer(address(2));
    assert_eq!(
        ledger.close_holding(&address(2), &address(10), &owner, &address(3)),
        Err(LedgerError::HoldingNotEmpty)
    );
    assert_eq!(
        ledger.close_holding(&address(2), &address(11), &owner, &address(3)),
        Err(LedgerError::AccountNotFound)
    );
    let mut empty = Ledger::new(10);
    empty.fund(&address(1), 10).unwrap();
    empty.open_holding(&address(1), &address(2), &address(10)).unwrap();
    assert_eq!(
        empty.close_holding(&address(2), &address(10), &Authority::Signer(address(1)), &address(3)),
        Err(LedgerError::NotAuthorised)
    );
    assert_eq!(empty.close_holding(&address(2), &address(10), &owner, &address(3)), Ok(()));
    assert_eq!(empty.balance(&address(2), &address(10)), None);
    assert_eq!(empty.funds(&address(3)), 10);
    assert_eq!(empty.funds(&address(1)), 0);
    assert_eq!(
        empty.close_holding(&address(2), &address(10), &owner, &address(3)),
        Err(LedgerError::AccountNotFound)
    );
}

#[test]
fn closing_fails_where_the_refund_overflows() {
    let mut ledger = Ledger::new(10);
    ledger.fund(&address(1), 10).unwrap();
    ledger.open_holding(&address(1), &address(2), &address(10)).unwrap();
    ledger.fund(&address(3), u64::MAX - 9).unwrap();
    let owner = Authority::Signer(address(2));
    assert_eq!(
        ledger.close_holding(&address(2), &address(10), &owner, &address(3)),
        Err(LedgerError::BalanceOverflow)
    );
    assert_eq!(ledger.balance(&address(2), &address(10)), Some(0));
    assert_eq!(ledger.funds(&address(3)), u64::MAX - 9);
}

#[test]
fn records_are_created_once_and_closed_once() {
    let mut ledger = Ledger::new(10);
    ledger.fund(&address(1), 15).unwrap();
    assert_eq!(ledger.create_record(&address(1), &address(50), record(1, 2)), Ok(()));
    let stored = ledger.record(&address(50)).unwrap();
    assert_eq!(stored.from, address(1));
    assert_eq!(stored.to, address(2));
    assert_eq!(stored.token_a, address(10));
    assert_eq!(stored.token_b, address(20));
    assert_eq!((stored.amount_a, stored.amount_b, stored.expiry), (5, 6, 7));
    assert_eq!(ledger.funds(&address(1)), 5);
    assert_eq!(
        ledger.create_record(&address(1), &address(50), record(3, 4)),
        Err(LedgerError::AccountInUse)
    );
    assert_eq!(ledger.record(&address(50)).unwrap().from, address(1));
    assert_eq!(
        ledger.create_record(&address(1), &address(51), record(3, 4)),
        Err(LedgerError::InsufficientReserve)
    );
    assert!(ledger.record(&address(51)).is_none());
    assert_eq!(ledger.close_record(&address(51), &address(1)), Err(LedgerError::AccountNotFound));
    assert_eq!(ledger.close_record(&address(50), &address(2)), Ok(()));
    assert!(ledger.record(&address(50)).is_none());
    assert_eq!(ledger.funds(&address(2)), 10);
    assert_eq!(ledger.close_record(&address(50), &address(2)), Err(LedgerError::AccountNotFound));
}

#[test]
fn run_is_all_or_nothing() {
    let mut ledger = two_holdings();
    let signer = Authority::Signer(address(1));
    let steps = vec![
        Step::Transfer {
            from: address(1),
            to: address(2),
            mint: address(10),
            amount: 60,
            authority: signer,
        },
        Step::OpenHolding { payer: address(1), owner: address(3), mint: address(10) },
        Step::Transfer {
            from: address(1),
            to: address(3),
            mint: address(10),
            amount: 60,
            authority: signer,
        },
    ];
    assert_eq!(ledger.run(&steps), Err(LedgerError::InsufficientFunds));
    assert_eq!(ledger.balance(&address(1), &address(10)), Some(100));
    assert_eq!(ledger.balance(&address(2), &address(10)), Some(0));
    assert_eq!(ledger.balance(&address(3), &address(10)), None);
    assert_eq!(ledger.run(&steps[..2].to_vec()), Ok(()));
    assert_eq!(ledger.balance(&address(1), &address(10)), Some(40));
    assert_eq!(ledger.balance(&address(2), &address(10)), Some(60));
    assert_eq!(ledger.balance(&address(3), &address(10)), Some(0));
    assert_eq!(ledger.run(&Vec::new()), Ok(()));
}

#[test]
fn apply_takes_each_kind_of_step() {
    let mut ledger = Ledger::new(1);
    ledger.fund(&address(1), 3).unwrap();
    let owner = Authority::Signer(address(2));
    assert_eq!(
        ledger.apply(&Step::EnsureHolding {
            payer: address(1),
            owner: address(2),
            mint: address(10)
        }),
        Ok(())
    );
    assert_eq!(
        ledger.apply(&Step::CreateRecord {
            payer: address(1),
            address: address(50),
            escrow: record(1, 2)
        }),
        Ok(())
    );
    assert_eq!(ledger.funds(&address(1)), 1);
    assert_eq!(
        ledger.apply(&Step::CloseRecord { address: address(50), refund_to: address(1) }),
        Ok(())
    );
    assert_eq!(
        ledger.apply(&Step::CloseHolding {
            owner: address(2),
            mint: address(10),
            authority: owner,
            refund_to: address(2)
        }),
        Ok(())
    );
    assert_eq!(ledger.funds(&address(1)), 2);
    assert_eq!(ledger.funds(&address(2)), 1);
    assert_eq!(ledger.balance(&address(2), &address(10)), None);
}

#[test]
fn snapshot_is_independent() {
    let mut ledger = two_holdings();
    let copy = ledger.snapshot();
    ledger.issue(&address(1), &address(10), 1).unwrap();
    assert_eq!(copy.balance(&address(1), &address(10)), Some(100));
    assert_eq!(ledger.balance(&address(1), &address(10)), Some(101));
}
