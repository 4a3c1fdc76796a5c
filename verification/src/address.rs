//! Addresses and their derivation.
use vstd::prelude::*;
use vstd::std_specs::cmp::PartialEqSpecImpl;
use anchor_lang::prelude::Pubkey;
use crate::constants::{ESCROW_SEED, FEE_VAULT, PROGRAM_ID};

verus! {

/// A 32-byte identifier: of a party, of an asset, or of an account.
#[derive(Clone, Copy, Debug)]
pub struct Address {
    pub bytes: [u8; 32],
}

impl View for Address {
    type V = Seq<u8>;

    open spec fn view(&self) -> Seq<u8> {
        self.bytes@
    }
}

/// Two addresses are the same address exactly when their bytes agree.
pub proof fn lemma_address_by_bytes(a: Address, b: Address)
    ensures
        (a@ == b@) <==> (a == b),
{
    if a@ == b@ {
        assert(forall|i: int| 0 <= i < 32 ==> a.bytes[i] == a@[i]);
        assert(forall|i: int| 0 <= i < 32 ==> b.bytes[i] == b@[i]);
        assert(a.bytes =~= b.bytes);
    }
}

impl PartialEq for Address {
    fn eq(&self, other: &Address) -> (r: bool) {
        let mut i: usize = 0;
        while i < 32
            invariant
                i <= 32,
                forall|j: int| 0 <= j < i ==> self.bytes@[j] == other.bytes@[j],
            decreases 32 - i,
        {
            if self.bytes[i] != other.bytes[i] {
                return false;
            }
            i += 1;
        }
        proof {
            assert(self@ =~= other@);
            lemma_address_by_bytes(*self, *other);
        }
        true
    }
}

impl PartialEqSpecImpl for Address {
    open spec fn obeys_eq_spec() -> bool {
        true
    }

    open spec fn eq_spec(&self, other: &Address) -> bool {
        *self == *other
    }
}

impl Address {
    /// The address with the given bytes.
    pub fn new(bytes: [u8; 32]) -> (a: Address)
        ensures
            a.bytes == bytes,
    {
        Address { bytes }
    }

    /// The address whose bytes are those of `bytes`; none unless they are 32.
    pub fn from_slice(bytes: &[u8]) -> (r: Option<Address>)
        ensures
            r is Some <==> bytes@.len() == 32,
            r matches Some(a) ==> a@ == bytes@,
    {
        if bytes.len() != 32 {
            return None;
        }
        let mut out = [0u8; 32];
        let mut i: usize = 0;
        while i < 32
            invariant
                i <= 32,
                bytes@.len() == 32,
                forall|j: int| 0 <= j < i ==> out@[j] == bytes@[j],
            decreases 32 - i,
        {
            out[i] = bytes[i];
            i += 1;
        }
        assert(out@ =~= bytes@);
        Some(Address { bytes: out })
    }
}

/// An address derived from a seed tuple, with the bump seed that completes
/// the derivation. No private key belongs to such an address: knowing the
/// seeds and the bump is what authorises acting for it.
#[derive(Clone, Copy, Debug)]
pub struct DerivedAddress {
    pub address: Address,
    pub bump: u8,
}

impl PartialEq for DerivedAddress {
    fn eq(&self, other: &DerivedAddress) -> (r: bool) {
        self.address == other.address && self.bump == other.bump
    }
}

impl PartialEqSpecImpl for DerivedAddress {
    open spec fn obeys_eq_spec() -> bool {
        true
    }

    open spec fn eq_spec(&self, other: &DerivedAddress) -> bool {
        *self == *other
    }
}

/// A derivation result as bytes: the derived address and its bump seed.
pub open spec fn derived_view(d: Option<DerivedAddress>) -> Option<(Seq<u8>, u8)> {
    match d {
        Some(found) => Some((found.address@, found.bump)),
        None => None,
    }
}

/// Whether the derivation `derived` found exactly `address`.
pub open spec fn derives(derived: Option<(Seq<u8>, u8)>, address: Address) -> bool {
    match derived {
        Some(found) => found.0 == address@,
        None => false,
    }
}

/// Holds a derivation against the address it is expected to give: the
/// derived address with its bump seed where they agree, nothing where they
/// differ or the derivation found no address.
pub fn confirm(derived: Option<DerivedAddress>, address: &Address) -> (r: Option<DerivedAddress>)
    ensures
        r is Some <==> derives(derived_view(derived), *address),
        r is Some ==> r == derived && r.unwrap().address == *address,
{
    match derived {
        Some(found) => {
            proof {
                lemma_address_by_bytes(found.address, *address);
            }
            if found.address == *address {
                Some(found)
            } else {
                None
            }
        },
        None => None,
    }
}

/// The program-derived address, and its bump seed, that the ledger runtime
/// finds for the seeds `tag`, `first`, `second`, `third` under `program`;
/// `None` where no bump seed yields a valid address or a seed is too long.
pub uninterp spec fn program_address(
    tag: Seq<u8>,
    first: Seq<u8>,
    second: Seq<u8>,
    third: Seq<u8>,
    program: Seq<u8>,
) -> Option<(Seq<u8>, u8)>;

/// Calls `Pubkey::try_find_program_address` with the four seeds `tag`,
/// `first`, `second`, `third` and the program `program`. The search is a
/// function of the seeds and the program alone (a hash of them and of the
/// bump seed, tried from 255 downwards), and `program_address` names what it
/// finds. Nothing else is claimed of it.
#[verifier::external_body]
fn try_find_program_address(
    tag: &[u8],
    first: &Address,
    second: &Address,
    third: &Address,
    program: &Address,
) -> (r: Option<DerivedAddress>)
    ensures
        derived_view(r) == program_address(tag@, first@, second@, third@, program@),
{
    let seeds: [&[u8]; 4] = [tag, &first.bytes, &second.bytes, &third.bytes];
    match Pubkey::try_find_program_address(&seeds, &Pubkey::new_from_array(program.bytes)) {
        Some((key, bump)) => Some(DerivedAddress { address: Address { bytes: key.to_bytes() }, bump }),
        None => None,
    }
}

/// The identity that collects the protocol fees.
pub open spec fn fee_vault() -> Address {
    Address { bytes: FEE_VAULT }
}

/// The identity that collects the protocol fees.
pub fn fee_collector() -> (r: Address)
    ensures
        r == fee_vault(),
{
    Address { bytes: FEE_VAULT }
}

/// Where the escrow of `depositor` for the pair (`token_a`, `token_b`) lives:
/// the address derived from the domain tag and these three, under this
/// program.
pub open spec fn escrow_address(depositor: Address, token_a: Address, token_b: Address) -> Option<
    (Seq<u8>, u8),
> {
    program_address(ESCROW_SEED@, depositor@, token_a@, token_b@, PROGRAM_ID@)
}

/// Derives the address of the escrow of `depositor` for the pair
/// (`token_a`, `token_b`). Any party can recompute it.
pub fn find_escrow_address(depositor: &Address, token_a: &Address, token_b: &Address) -> (r: Option<
    DerivedAddress,
>)
    ensures
        derived_view(r) == escrow_address(*depositor, *token_a, *token_b),
{
    let tag = ESCROW_SEED;
    let program = Address { bytes: PROGRAM_ID };
    try_find_program_address(tag.as_slice(), depositor, token_a, token_b, &program)
}

} // verus!
