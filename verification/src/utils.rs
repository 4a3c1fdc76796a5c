//! The fee calculator.
use vstd::prelude::*;
use crate::constants::FEE;
use crate::error::EscrowError;

verus! {

/// The fee on `amount` at `rate`: `amount / (rate * 100)`, rounded down.
/// It is an `Overflow` where the divisor is zero or does not fit in 64 bits.
pub open spec fn fee_at(amount: u64, rate: u64) -> Result<u64, EscrowError> {
    if rate == 0 || rate * 100 > u64::MAX {
        Err(EscrowError::Overflow)
    } else {
        Ok((amount as int / (rate * 100)) as u64)
    }
}

/// Computes the fee on `amount` at an arbitrary `rate`.
pub fn fee_with_rate(amount: u64, rate: u64) -> (r: Result<u64, EscrowError>)
    ensures
        r == fee_at(amount, rate),
{
    match rate.checked_mul(100) {
        None => Err(EscrowError::Overflow),
        Some(divisor) => match amount.checked_div(divisor) {
            None => Err(EscrowError::Overflow),
            Some(fee) => Ok(fee),
        },
    }
}

/// Computes the protocol fee on `amount`.
pub fn get_fee(amount: u64) -> (r: Result<u64, EscrowError>)
    ensures
        r == fee_at(amount, FEE),
{
    fee_with_rate(amount, FEE)
}

/// An amount parted into the fee and what is left of it.
#[derive(Clone, Copy, Debug, PartialEq, Eq, Structural)]
pub struct Parted {
    pub fee: u64,
    pub remainder: u64,
}

/// `amount` parted at `rate`: the fee as `fee_at` gives it, and the amount
/// less the fee. It is an `Overflow` where the fee is one, or where the fee
/// exceeds the amount.
pub open spec fn parted_at(amount: u64, rate: u64) -> Result<Parted, EscrowError> {
    match fee_at(amount, rate) {
        Err(e) => Err(e),
        Ok(fee) => if fee > amount {
            Err(EscrowError::Overflow)
        } else {
            Ok(Parted { fee, remainder: (amount - fee) as u64 })
        },
    }
}

/// Parts `amount` at an arbitrary `rate`.
pub fn part_with_rate(amount: u64, rate: u64) -> (r: Result<Parted, EscrowError>)
    ensures
        r == parted_at(amount, rate),
{
    match fee_with_rate(amount, rate) {
        Err(e) => Err(e),
        Ok(fee) => match amount.checked_sub(fee) {
            None => Err(EscrowError::Overflow),
            Some(remainder) => Ok(Parted { fee, remainder }),
        },
    }
}

/// Parts `amount` into the protocol fee and the remainder.
pub fn part(amount: u64) -> (r: Result<Parted, EscrowError>)
    ensures
        r == parted_at(amount, FEE),
{
    part_with_rate(amount, FEE)
}

/// Parting an amount fails exactly when the rate is degenerate: zero, or so
/// large that a hundred times it does not fit in 64 bits. Otherwise the fee
/// is the amount divided by a hundred times the rate, rounded down, and fee
/// and remainder add up to the amount.
pub proof fn lemma_parted(amount: u64, rate: u64)
    ensures
        parted_at(amount, rate) is Err <==> rate == 0 || rate * 100 > u64::MAX,
        parted_at(amount, rate) is Err ==> parted_at(amount, rate) == Err::<Parted, EscrowError>(
            EscrowError::Overflow,
        ),
        parted_at(amount, rate) matches Ok(p) ==> {
            &&& p.fee == amount as int / (rate * 100)
            &&& p.fee + p.remainder == amount
            &&& p.fee * (rate * 100) <= amount < (p.fee + 1) * (rate * 100)
        },
{
    if !(rate == 0 || rate * 100 > u64::MAX) {
        let d = rate * 100;
        let q = amount as int / d;
        vstd::arithmetic::div_mod::lemma_fundamental_div_mod(amount as int, d);
        vstd::arithmetic::div_mod::lemma_mod_bound(amount as int, d);
        vstd::arithmetic::div_mod::lemma_div_pos_is_pos(amount as int, d);
        assert(q * d <= amount) by (nonlinear_arith)
            requires
                amount == d * q + (amount as int % d),
                0 <= amount as int % d,
        ;
        assert(amount < (q + 1) * d) by (nonlinear_arith)
            requires
                amount == d * q + (amount as int % d),
                amount as int % d < d,
        ;
        assert(q <= amount) by (nonlinear_arith)
            requires
                q * d <= amount,
                d >= 1,
                q >= 0,
        ;
    }
}

} // verus!
