//! Protocol constants.
use vstd::prelude::*;

verus! {

/// The protocol fee rate: the fee on an amount is the amount divided by
/// `FEE * 100`, rounded down.
pub const FEE: u64 = 1;

/// The domain tag under which escrow addresses are derived: the bytes of the
/// word `escrow`.
pub const ESCROW_SEED: [u8; 6] = [101, 115, 99, 114, 111, 119];

/// The identity of this program on the ledger; derived addresses belong to it.
pub const PROGRAM_ID: [u8; 32] = [
    161, 179, 137, 14, 160, 15, 109, 241, 42, 94, 0, 70, 118, 135, 202, 220,
    162, 107, 135, 98, 129, 104, 77, 190, 13, 135, 240, 61, 197, 247, 1, 65,
];

/// The identity that collects the protocol fees: the owner of the fee
/// holdings. It is fixed here, and no operation takes another.
pub const FEE_VAULT: [u8; 32] = [
    70, 69, 69, 45, 86, 65, 85, 76, 84, 0, 0, 0, 0, 0, 0, 0,
    0, 0, 0, 0, 0, 0, 0, 0, 0, 0, 0, 0, 0, 0, 0, 1,
];

} // verus!
