//! The escrow record.
use vstd::prelude::*;
use vstd::bytes::{
    lemma_auto_spec_u64_to_from_le_bytes, spec_u64_from_le_bytes, spec_u64_to_le_bytes,
    u64_from_le_bytes, u64_to_le_bytes,
};
use vstd::slice::slice_subrange;
use vstd::std_specs::cmp::PartialEqSpecImpl;
use crate::address::{lemma_address_by_bytes, Address};

verus! {

/// One pending swap. Every field is set when the escrow is opened and never
/// changes afterwards.
#[derive(Clone, Copy, Debug)]
pub struct Escrow {
    /// The depositor.
    pub from: Address,
    /// The counterparty.
    pub to: Address,
    /// The asset the depositor put up.
    pub token_a: Address,
    /// The asset the depositor wants in return.
    pub token_b: Address,
    /// How much of `token_a` is in custody.
    pub amount_a: u64,
    /// How much of `token_b` the counterparty pays.
    pub amount_b: u64,
    /// The last moment at which the escrow can be settled.
    pub expiry: i64,
}

impl PartialEq for Escrow {
    fn eq(&self, other: &Escrow) -> (r: bool) {
        self.from == other.from && self.to == other.to && self.token_a == other.token_a
            && self.token_b == other.token_b && self.amount_a == other.amount_a
            && self.amount_b == other.amount_b && self.expiry == other.expiry
    }
}

impl PartialEqSpecImpl for Escrow {
    open spec fn obeys_eq_spec() -> bool {
        true
    }

    open spec fn eq_spec(&self, other: &Escrow) -> bool {
        *self == *other
    }
}

/// The size of a persisted record: four addresses of 32 bytes and three
/// numbers of 8.
pub const RECORD_SIZE: usize = 152;

impl Escrow {
    /// The persisted form of the record: its fields in order, the numbers
    /// with the least significant byte first.
    pub open spec fn encoded(self) -> Seq<u8> {
        self.from@ + self.to@ + self.token_a@ + self.token_b@ + spec_u64_to_le_bytes(
            self.amount_a,
        ) + spec_u64_to_le_bytes(self.amount_b) + spec_u64_to_le_bytes(self.expiry as u64)
    }

    /// Writes the record in its persisted form.
    pub fn to_bytes(&self) -> (bytes: Vec<u8>)
        ensures
            bytes@ == self.encoded(),
            bytes@.len() == RECORD_SIZE,
    {
        let mut bytes: Vec<u8> = Vec::new();
        bytes.extend_from_slice(self.from.bytes.as_slice());
        bytes.extend_from_slice(self.to.bytes.as_slice());
        bytes.extend_from_slice(self.token_a.bytes.as_slice());
        bytes.extend_from_slice(self.token_b.bytes.as_slice());
        assert(bytes@ =~= self.from@ + self.to@ + self.token_a@ + self.token_b@);
        let amount_a = u64_to_le_bytes(self.amount_a);
        let amount_b = u64_to_le_bytes(self.amount_b);
        let expiry = u64_to_le_bytes(#[verifier::truncate] (self.expiry as u64));
        bytes.extend_from_slice(amount_a.as_slice());
        bytes.extend_from_slice(amount_b.as_slice());
        bytes.extend_from_slice(expiry.as_slice());
        assert(bytes@ =~= self.encoded());
        bytes
    }

    /// Reads a record from its persisted form: the record that `bytes`
    /// encodes, where there is one.
    pub fn from_bytes(bytes: &[u8]) -> (r: Option<Escrow>)
        ensures
            r is Some <==> bytes@.len() == RECORD_SIZE,
            r matches Some(record) ==> record.encoded() == bytes@,
    {
        if bytes.len() != RECORD_SIZE {
            return None;
        }
        let amount_a = u64_from_le_bytes(slice_subrange(bytes, 128, 136));
        let amount_b = u64_from_le_bytes(slice_subrange(bytes, 136, 144));
        let expiry = u64_from_le_bytes(slice_subrange(bytes, 144, 152));
        let record = Escrow {
            from: Address::from_slice(slice_subrange(bytes, 0, 32)).unwrap(),
            to: Address::from_slice(slice_subrange(bytes, 32, 64)).unwrap(),
            token_a: Address::from_slice(slice_subrange(bytes, 64, 96)).unwrap(),
            token_b: Address::from_slice(slice_subrange(bytes, 96, 128)).unwrap(),
            amount_a,
            amount_b,
            expiry: #[verifier::truncate] (expiry as i64),
        };
        proof {
            lemma_auto_spec_u64_to_from_le_bytes();
            assert(((expiry as i64) as u64) == expiry) by (bit_vector);
            assert(spec_u64_to_le_bytes(amount_a) == bytes@.subrange(128, 136));
            assert(spec_u64_to_le_bytes(amount_b) == bytes@.subrange(136, 144));
            assert(spec_u64_to_le_bytes(record.expiry as u64) == bytes@.subrange(144, 152));
            assert(record.encoded() =~= bytes@);
        }
        Some(record)
    }
}

/// Two records with the same persisted form are the same record: what is
/// read back from the bytes of a record is that record.
pub proof fn lemma_encoding_is_injective(a: Escrow, b: Escrow)
    requires
        a.encoded() == b.encoded(),
    ensures
        a == b,
{
    lemma_auto_spec_u64_to_from_le_bytes();
    let (x, y) = (a.encoded(), b.encoded());
    assert(a.from@ =~= x.subrange(0, 32));
    assert(b.from@ =~= y.subrange(0, 32));
    assert(a.to@ =~= x.subrange(32, 64));
    assert(b.to@ =~= y.subrange(32, 64));
    assert(a.token_a@ =~= x.subrange(64, 96));
    assert(b.token_a@ =~= y.subrange(64, 96));
    assert(a.token_b@ =~= x.subrange(96, 128));
    assert(b.token_b@ =~= y.subrange(96, 128));
    assert(spec_u64_to_le_bytes(a.amount_a) =~= x.subrange(128, 136));
    assert(spec_u64_to_le_bytes(b.amount_a) =~= y.subrange(128, 136));
    assert(spec_u64_to_le_bytes(a.amount_b) =~= x.subrange(136, 144));
    assert(spec_u64_to_le_bytes(b.amount_b) =~= y.subrange(136, 144));
    assert(spec_u64_to_le_bytes(a.expiry as u64) =~= x.subrange(144, 152));
    assert(spec_u64_to_le_bytes(b.expiry as u64) =~= y.subrange(144, 152));
    lemma_address_by_bytes(a.from, b.from);
    lemma_address_by_bytes(a.to, b.to);
    lemma_address_by_bytes(a.token_a, b.token_a);
    lemma_address_by_bytes(a.token_b, b.token_b);
    assert(a.amount_a == spec_u64_from_le_bytes(spec_u64_to_le_bytes(a.amount_a)));
    assert(b.amount_a == spec_u64_from_le_bytes(spec_u64_to_le_bytes(b.amount_a)));
    assert(a.amount_b == spec_u64_from_le_bytes(spec_u64_to_le_bytes(a.amount_b)));
    assert(b.amount_b == spec_u64_from_le_bytes(spec_u64_to_le_bytes(b.amount_b)));
    let (s, t) = (a.expiry as u64, b.expiry as u64);
    assert(s == spec_u64_from_le_bytes(spec_u64_to_le_bytes(s)));
    assert(t == spec_u64_from_le_bytes(spec_u64_to_le_bytes(t)));
    let (p, q) = (a.expiry, b.expiry);
    assert((p as u64) == (q as u64) ==> p == q) by (bit_vector);
}

} // verus!
