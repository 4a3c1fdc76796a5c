use anchor_lang::prelude::Pubkey;
use token_escrow::address::{confirm, fee_collector, find_escrow_address, Address, DerivedAddress};
use token_escrow::constants::{ESCROW_SEED, FEE_VAULT, PROGRAM_ID};

fn address(n: u8) -> Address {
    Address::new([n; 32])
}

#[test]
fn addresses_compare_by_bytes() {
    let mut bytes = [7u8; 32];
    assert_eq!(Address::new(bytes), address(7));
    bytes[31] = 8;
    assert_ne!(Address::new(bytes), address(7));
    bytes[31] = 7;
    bytes[0] = 6;
    assert_ne!(Address::new(bytes), address(7));
    assert_eq!(address(7).bytes, [7u8; 32]);
}

#[test]
fn program_id_is_the_declared_one() {
    let expected: Pubkey = "BtDRSPLuXPy9zn6yfE5huNYbGq1rMqxKF5Ac5s189bUk".parse().unwrap();
    assert_eq!(PROGRAM_ID, expected.to_bytes());
}

#[test]
fn fee_collector_is_the_configured_identity() {
    assert_eq!(fee_collector().bytes, FEE_VAULT);
}

#[test]
fn escrow_address_is_the_program_derived_address() {
    let (depositor, token_a, token_b) = (address(1), address(10), address(20));
    let found = find_escrow_address(&depositor, &token_a, &token_b).unwrap();
    let seeds: [&[u8]; 4] = [&ESCROW_SEED, &depositor.bytes, &token_a.bytes, &token_b.bytes];
    let (key, bump) = Pubkey::find_program_address(&seeds, &Pubkey::new_from_array(PROGRAM_ID));
    assert_eq!(found.address.bytes, key.to_bytes());
    assert_eq!(found.bump, bump);
    let with_bump: [&[u8]; 5] =
        [&ESCROW_SEED, &depositor.bytes, &token_a.bytes, &token_b.bytes, &[found.bump]];
    let made = Pubkey::create_program_address(&with_bump, &Pubkey::new_from_array(PROGRAM_ID));
    assert_eq!(made.unwrap().to_bytes(), found.address.bytes);
}

#[test]
fn escrow_address_is_none_of_its_seeds() {
    let (depositor, token_a, token_b) = (address(1), address(10), address(20));
    let found = find_escrow_address(&depositor, &token_a, &token_b).unwrap();
    assert_ne!(found.address, depositor);
    assert_ne!(found.address, token_a);
    assert_ne!(found.address, token_b);
    assert_ne!(found.address.bytes, PROGRAM_ID);
}

#[test]
fn escrow_address_is_recomputable() {
    let (depositor, token_a, token_b) = (address(3), address(4), address(5));
    let first = find_escrow_address(&depositor, &token_a, &token_b);
    let second = find_escrow_address(&depositor, &token_a, &token_b);
    assert!(first.is_some());
    assert_eq!(first, second);
}

#[test]
fn derived_addresses_compare_by_address_and_bump() {
    let found = DerivedAddress { address: address(5), bump: 254 };
    assert_eq!(found, DerivedAddress { address: address(5), bump: 254 });
    assert_ne!(found, DerivedAddress { address: address(5), bump: 253 });
    assert_ne!(found, DerivedAddress { address: address(6), bump: 254 });
}

#[test]
fn escrow_address_depends_on_each_seed_and_their_order() {
    let base = find_escrow_address(&address(1), &address(2), &address(3)).unwrap();
    let others = [
        find_escrow_address(&address(9), &address(2), &address(3)).unwrap(),
        find_escrow_address(&address(1), &address(9), &address(3)).unwrap(),
        find_escrow_address(&address(1), &address(2), &address(9)).unwrap(),
        find_escrow_address(&address(1), &address(3), &address(2)).unwrap(),
        find_escrow_address(&address(2), &address(1), &address(3)).unwrap(),
    ];
    for other in others {
        assert_ne!(other.address, base.address);
    }
}

#[test]
fn confirm_holds_a_derivation_against_an_address() {
    let found = DerivedAddress { address: address(5), bump: 254 };
    assert_eq!(confirm(Some(found), &address(5)), Some(found));
    assert_eq!(confirm(Some(found), &address(6)), None);
    assert_eq!(confirm(None, &address(5)), None);
}
