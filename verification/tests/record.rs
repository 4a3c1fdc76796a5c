use token_escrow::address::Address;
use token_escrow::state::{Escrow, RECORD_SIZE};

fn sample(expiry: i64) -> Escrow {
    Escrow {
        from: Address::new([1; 32]),
        to: Address::new([2; 32]),
        token_a: Address::new([3; 32]),
        token_b: Address::new([4; 32]),
        amount_a: 1000,
        amount_b: 0x0102_0304_0506_0708,
        expiry,
    }
}

#[test]
fn record_size_is_fixed() {
    assert_eq!(RECORD_SIZE, 152);
    assert_eq!(RECORD_SIZE, 4 * 32 + 3 * 8);
    assert_eq!(sample(0).to_bytes().len(), RECORD_SIZE);
    assert_eq!(sample(i64::MIN).to_bytes().len(), RECORD_SIZE);
}

#[test]
fn record_is_laid_out_field_by_field() {
    let bytes = sample(-2).to_bytes();
    assert_eq!(bytes[0..32], [1u8; 32]);
    assert_eq!(bytes[32..64], [2u8; 32]);
    assert_eq!(bytes[64..96], [3u8; 32]);
    assert_eq!(bytes[96..128], [4u8; 32]);
    assert_eq!(bytes[128..136], [0xe8, 0x03, 0, 0, 0, 0, 0, 0]);
    assert_eq!(bytes[136..144], [8, 7, 6, 5, 4, 3, 2, 1]);
    assert_eq!(bytes[144..152], [0xfe, 0xff, 0xff, 0xff, 0xff, 0xff, 0xff, 0xff]);
}

#[test]
fn record_reads_back_as_written() {
    for expiry in [0, 1, -1, 1_700_000_000, i64::MAX, i64::MIN] {
        let record = sample(expiry);
        assert_eq!(Escrow::from_bytes(&record.to_bytes()), Some(record));
    }
}

#[test]
fn bytes_write_back_as_read() {
    let mut bytes = Vec::new();
    for i in 0..RECORD_SIZE {
        bytes.push((i * 7 % 251) as u8);
    }
    let record = Escrow::from_bytes(&bytes).unwrap();
    assert_eq!(record.from.bytes[0], 0);
    assert_eq!(record.to.bytes[0], (32 * 7 % 251) as u8);
    assert_eq!(record.to_bytes(), bytes);
}

#[test]
fn record_of_another_length_is_not_read() {
    let bytes = sample(5).to_bytes();
    assert!(Escrow::from_bytes(&bytes[..151]).is_none());
    assert!(Escrow::from_bytes(&[]).is_none());
    let mut longer = bytes.clone();
    longer.push(0);
    assert!(Escrow::from_bytes(&longer).is_none());
}

#[test]
fn address_from_slice_takes_the_bytes() {
    let mut bytes = [0u8; 32];
    for (i, byte) in bytes.iter_mut().enumerate() {
        *byte = i as u8;
    }
    assert_eq!(Address::from_slice(&bytes).unwrap().bytes, bytes);
    assert_eq!(Address::from_slice(&bytes), Some(Address::new(bytes)));
    assert_eq!(Address::from_slice(&bytes[..31]), None);
    assert_eq!(Address::from_slice(&[0u8; 33]), None);
    assert_eq!(Address::from_slice(&[]), None);
}

#[test]
fn records_compare_field_by_field() {
    let record = sample(9);
    assert_eq!(record, sample(9));
    assert_ne!(record, sample(10));
    assert_ne!(record, Escrow { from: Address::new([9; 32]), ..record });
    assert_ne!(record, Escrow { to: Address::new([9; 32]), ..record });
    assert_ne!(record, Escrow { token_a: Address::new([9; 32]), ..record });
    assert_ne!(record, Escrow { token_b: Address::new([9; 32]), ..record });
    assert_ne!(record, Escrow { amount_a: 1001, ..record });
    assert_ne!(record, Escrow { amount_b: 1, ..record });
}
