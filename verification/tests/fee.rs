use token_escrow::constants::FEE;
use token_escrow::error::EscrowError;
use token_escrow::utils::{fee_with_rate, get_fee, part, part_with_rate, Parted};

#[test]
fn fee_rate_is_one() {
    assert_eq!(FEE, 1);
}

#[test]
fn fee_on_a_thousand_is_ten() {
    assert_eq!(get_fee(1000), Ok(10));
    assert_eq!(part(1000), Ok(Parted { fee: 10, remainder: 990 }));
}

#[test]
fn fee_on_fifty_is_nothing() {
    assert_eq!(get_fee(50), Ok(0));
    assert_eq!(part(50), Ok(Parted { fee: 0, remainder: 50 }));
}

#[test]
fn fee_rounds_down() {
    assert_eq!(get_fee(0), Ok(0));
    assert_eq!(get_fee(99), Ok(0));
    assert_eq!(get_fee(100), Ok(1));
    assert_eq!(get_fee(199), Ok(1));
    assert_eq!(get_fee(200), Ok(2));
    assert_eq!(get_fee(2000), Ok(20));
}

#[test]
fn fee_on_the_largest_amount() {
    assert_eq!(get_fee(u64::MAX), Ok(u64::MAX / 100));
    assert_eq!(
        part(u64::MAX),
        Ok(Parted { fee: u64::MAX / 100, remainder: u64::MAX - u64::MAX / 100 })
    );
}

#[test]
fn fee_at_other_rates() {
    assert_eq!(fee_with_rate(1000, 1), Ok(10));
    assert_eq!(fee_with_rate(1000, 2), Ok(5));
    assert_eq!(fee_with_rate(1000, 10), Ok(1));
    assert_eq!(fee_with_rate(1000, 11), Ok(0));
    assert_eq!(part_with_rate(1000, 2), Ok(Parted { fee: 5, remainder: 995 }));
}

#[test]
fn zero_rate_is_an_overflow() {
    assert_eq!(fee_with_rate(1000, 0), Err(EscrowError::Overflow));
    assert_eq!(fee_with_rate(0, 0), Err(EscrowError::Overflow));
    assert_eq!(part_with_rate(1000, 0), Err(EscrowError::Overflow));
}

#[test]
fn rate_too_large_is_an_overflow() {
    let largest = u64::MAX / 100;
    assert_eq!(fee_with_rate(u64::MAX, largest), Ok(1));
    assert_eq!(fee_with_rate(1000, largest + 1), Err(EscrowError::Overflow));
    assert_eq!(part_with_rate(1000, u64::MAX), Err(EscrowError::Overflow));
}

#[test]
fn fee_and_remainder_add_up() {
    for amount in [0u64, 1, 99, 100, 101, 12345, 1 << 40, u64::MAX] {
        for rate in [1u64, 2, 3, 7, 100, 1 << 20] {
            let parted = part_with_rate(amount, rate).unwrap();
            assert_eq!(parted.fee, amount / (rate * 100));
            assert_eq!(parted.fee + parted.remainder, amount);
        }
    }
}

#[test]
fn error_messages() {
    assert_eq!(EscrowError::Unauthorised.message(), "Unauthorised");
    assert_eq!(EscrowError::IncorrectMint.message(), "Incorrect mint address");
    assert_eq!(EscrowError::IncorrectAddress.message(), "Incorrect account address");
    assert_eq!(EscrowError::Expired.message(), "Expiry date has elapsed");
    assert_eq!(EscrowError::Overflow.message(), "Fee amount overflow");
}
