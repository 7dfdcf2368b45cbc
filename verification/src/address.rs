//! Addresses derived from a seed and the program's identity.

use vstd::prelude::*;

verus! {

/// The number of bytes of an address.
pub const ADDRESS_LEN: usize = 32;

/// The address derived from `seed` for the program `program_id`, and the
/// bump that goes with it; `None` where there is none.
///
/// This names what `pinocchio::pubkey::try_find_program_address` returns for
/// the one seed `seed`. Nothing more is claimed of it than that it depends
/// on the seed and the program's identity alone.
pub uninterp spec fn program_address(seed: Seq<u8>, program_id: Seq<u8>) -> Option<(Seq<u8>, u8)>;

/// A derived address and its bump, as plain sequences.
pub open spec fn derived_view(derived: Option<([u8; 32], u8)>) -> Option<(Seq<u8>, u8)> {
    match derived {
        Some((address, bump)) => Some((address@, bump)),
        None => None,
    }
}

/// The seed of the state record's address: the ASCII letters of `state`.
pub open spec fn state_seed() -> Seq<u8> {
    seq![0x73u8, 0x74u8, 0x61u8, 0x74u8, 0x65u8]
}

/// The seed of the burn authority's address: the ASCII letters of
/// `program_authority`.
pub open spec fn authority_seed() -> Seq<u8> {
    seq![
        0x70u8, 0x72u8, 0x6fu8, 0x67u8, 0x72u8, 0x61u8, 0x6du8, 0x5fu8, 0x61u8, 0x75u8, 0x74u8,
        0x68u8, 0x6fu8, 0x72u8, 0x69u8, 0x74u8, 0x79u8,
    ]
}

/// The seed of the state record's address.
pub fn state_seed_bytes() -> (seed: [u8; 5])
    ensures
        seed@ == state_seed(),
{
    let seed: [u8; 5] = [0x73, 0x74, 0x61, 0x74, 0x65];
    assert(seed@ =~= state_seed());
    seed
}

/// The seed of the burn authority's address.
pub fn authority_seed_bytes() -> (seed: [u8; 17])
    ensures
        seed@ == authority_seed(),
{
    let seed: [u8; 17] = [
        0x70, 0x72, 0x6f, 0x67, 0x72, 0x61, 0x6d, 0x5f, 0x61, 0x75, 0x74, 0x68, 0x6f, 0x72, 0x69,
        0x74, 0x79,
    ];
    assert(seed@ =~= authority_seed());
    seed
}

/// Calls `pinocchio::pubkey::try_find_program_address` with the one seed
/// `seed`. The call searches for a bump with which the seed and the
/// program's identity hash to an address that no key pair owns, and returns
/// `None` where it finds none; off the ledger it always returns `None`. The
/// contract only gives the outcome its name.
#[verifier::external_body]
pub(crate) fn find_program_address(seed: &[u8], program_id: &[u8; 32]) -> (derived: Option<
    ([u8; 32], u8),
>)
    ensures
        derived_view(derived) == program_address(seed@, program_id@),
{
    pinocchio::pubkey::try_find_program_address(&[seed], program_id)
}

/// Whether two addresses are the same.
pub fn same_address(left: &[u8; 32], right: &[u8; 32]) -> (same: bool)
    ensures
        same == (left@ == right@),
{
    let mut i: usize = 0;
    while i < ADDRESS_LEN
        invariant
            i <= ADDRESS_LEN,
            left@.subrange(0, i as int) == right@.subrange(0, i as int),
        decreases ADDRESS_LEN - i,
    {
        if left[i] != right[i] {
            return false;
        }
        proof {
            assert(left@.subrange(0, i + 1) =~= left@.subrange(0, i as int).push(left@[i as int]));
            assert(right@.subrange(0, i + 1) =~= right@.subrange(0, i as int).push(
                right@[i as int],
            ));
        }
        i = i + 1;
    }
    proof {
        assert(left@ =~= left@.subrange(0, 32));
        assert(right@ =~= right@.subrange(0, 32));
    }
    true
}

} // verus!
