//! SHA-256, as the `sha2` crate computes it.
use sha2::Digest;
use sha2::Sha256;
use vstd::prelude::*;

verus! {

/// The hasher of the `sha2` crate.
#[verifier::external_type_specification]
#[verifier::external_body]
pub struct ExSha256(sha2::Sha256);

/// The bytes that a hasher has taken in, in order.
pub uninterp spec fn absorbed(hasher: Sha256) -> Seq<u8>;

/// The SHA-256 digest of a message.
pub uninterp spec fn sha256(message: Seq<u8>) -> Seq<u8>;

/// `Digest::new`: a hasher that has taken in nothing.
#[verifier::external_body]
pub(crate) fn new_hasher() -> (hasher: Sha256)
    ensures
        absorbed(hasher) == Seq::<u8>::empty(),
{
    Sha256::new()
}

/// `Digest::update`: the hasher takes in `data` behind what it has.
#[verifier::external_body]
pub(crate) fn absorb(hasher: &mut Sha256, data: &[u8])
    ensures
        absorbed(*final(hasher)) == absorbed(*old(hasher)) + data@,
{
    hasher.update(data)
}

/// `Digest::finalize` on a copy of the hasher: the digest of what it has taken in.
#[verifier::external_body]
pub(crate) fn finish(hasher: &Sha256) -> (digest: [u8; 32])
    ensures
        digest@ == sha256(absorbed(*hasher)),
{
    hasher.clone().finalize().into()
}

} // verus!
