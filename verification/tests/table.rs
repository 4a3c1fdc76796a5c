use token_escrow::address::Address;
use token_escrow::ledger::HoldingId;
use token_escrow::table::{Key, Table};

fn address(n: u8) -> Address {
    Address::new([n; 32])
}

#[test]
fn keys_are_the_same_when_equal() {
    assert!(address(1).same(&address(1)));
    assert!(!address(1).same(&address(2)));
    let id = HoldingId { owner: address(1), mint: address(2) };
    assert!(id.same(&HoldingId { owner: address(1), mint: address(2) }));
    assert!(!id.same(&HoldingId { owner: address(2), mint: address(1) }));
    assert!(!id.same(&HoldingId { owner: address(1), mint: address(3) }));
    assert!(!id.same(&HoldingId { owner: address(3), mint: address(2) }));
}

#[test]
fn table_starts_empty() {
    let table: Table<Address, u64> = Table::new();
    assert_eq!(table.get(&address(1)), None);
}

#[test]
fn table_insert_adds_and_replaces() {
    let mut table: Table<Address, u64> = Table::new();
    table.insert(address(1), 10);
    table.insert(address(2), 20);
    assert_eq!(table.get(&address(1)), Some(10));
    assert_eq!(table.get(&address(2)), Some(20));
    assert_eq!(table.get(&address(3)), None);
    table.insert(address(1), 11);
    assert_eq!(table.get(&address(1)), Some(11));
    assert_eq!(table.get(&address(2)), Some(20));
}

#[test]
fn table_remove_takes_one_key_away() {
    let mut table: Table<Address, u64> = Table::new();
    for n in 1..=5u8 {
        table.insert(address(n), n as u64);
    }
    table.remove(&address(3));
    table.remove(&address(9));
    for n in 1..=5u8 {
        let expected = if n == 3 { None } else { Some(n as u64) };
        assert_eq!(table.get(&address(n)), expected);
    }
    table.remove(&address(1));
    table.remove(&address(5));
    assert_eq!(table.get(&address(1)), None);
    assert_eq!(table.get(&address(5)), None);
    assert_eq!(table.get(&address(2)), Some(2));
    assert_eq!(table.get(&address(4)), Some(4));
    table.insert(address(3), 33);
    assert_eq!(table.get(&address(3)), Some(33));
}

#[test]
fn table_snapshot_is_a_copy() {
    let mut table: Table<HoldingId, u64> = Table::new();
    let id = HoldingId { owner: address(1), mint: address(2) };
    table.insert(id, 7);
    let copy = table.snapshot();
    table.insert(id, 8);
    table.remove(&id);
    assert_eq!(copy.get(&id), Some(7));
    assert_eq!(table.get(&id), None);
}
