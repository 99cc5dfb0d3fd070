use vstd::prelude::*;

verus! {

/// Calls `rand::random::<u64>()`. Nothing is claimed of the value.
#[verifier::external_body]
pub(crate) fn random_u64() -> u64 {
    rand::random::<u64>()
}

/// Calls `rand::random::<u128>()`. Nothing is claimed of the value.
#[verifier::external_body]
pub(crate) fn random_u128() -> u128 {
    rand::random::<u128>()
}

/// Calls `rand::random::<u16>()`. Nothing is claimed of the value.
#[verifier::external_body]
pub(crate) fn random_u16() -> u16 {
    rand::random::<u16>()
}

/// Calls `rand::random::<usize>()`. Nothing is claimed of the value.
#[verifier::external_body]
pub(crate) fn random_usize() -> usize {
    rand::random::<usize>()
}

} // verus!
