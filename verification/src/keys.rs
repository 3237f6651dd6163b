//! Identities as the host defines them.
//!
//! An identity is 32 bytes. Whether two identities are the same, and which
//! identity is the system program's, is the host library's to say: the two
//! functions here ask it, and their contracts are taken on trust.

use solana_program::pubkey::Pubkey;
use vstd::prelude::*;

verus! {

/// The identity whose 32 bytes are all zero.
pub open spec fn zero_key() -> Seq<u8> {
    Seq::new(32, |i: int| 0u8)
}

/// Calls `Pubkey::new_from_array` on both arrays and compares the results
/// with `Pubkey`'s `==`. `Pubkey` wraps the array it is made from and derives
/// its equality, so the answer is whether the two arrays hold the same bytes.
/// Not proved: the claim rests on the host library's source.
#[verifier::external_body]
pub(crate) fn same_key(a: &[u8; 32], b: &[u8; 32]) -> (same: bool)
    ensures
        same == (a@ == b@),
{
    Pubkey::new_from_array(*a) == Pubkey::new_from_array(*b)
}

/// Calls `solana_program::system_program::id` and hands out its bytes. The
/// host library declares that identity from the base-58 string of 32 ones,
/// which is 32 zero bytes. Not proved: the claim rests on the host library's
/// source.
#[verifier::external_body]
#[allow(deprecated)]
pub(crate) fn system_program_key() -> (key: [u8; 32])
    ensures
        key@ == zero_key(),
{
    solana_program::system_program::id().to_bytes()
}

} // verus!
