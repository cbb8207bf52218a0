//! SHA-256, computed by the `sha2` crate over data streamed from flash.
use sha2::Digest;
use vstd::prelude::*;

verus! {

/// The SHA-256 digest of `data`.
pub uninterp spec fn sha256_of(data: Seq<u8>) -> Seq<u8>;

/// An incremental SHA-256 hasher.  `sha2::Sha256` is a type alias of a
/// generic wrapper that cannot be declared to the verifier, so the hasher is
/// held here, opaque, and known only by the bytes fed to it.
#[verifier::external_body]
pub struct Sha256Stream {
    inner: sha2::Sha256,
}

/// The bytes fed so far to the hasher `h`.
pub uninterp spec fn sha256_fed(h: Sha256Stream) -> Seq<u8>;

/// Relies on `Digest::new` for `sha2::Sha256`: a hasher that has been fed
/// nothing.
#[verifier::external_body]
pub(crate) fn sha256_new() -> (h: Sha256Stream)
    ensures
        sha256_fed(h) == Seq::<u8>::empty(),
{
    Sha256Stream { inner: sha2::Sha256::new() }
}

/// Relies on `Digest::update` for `sha2::Sha256`: appends `data` to what the
/// hasher has been fed.
#[verifier::external_body]
pub(crate) fn sha256_update(h: &mut Sha256Stream, data: &[u8])
    ensures
        sha256_fed(*final(h)) == sha256_fed(*old(h)) + data@,
{
    h.inner.update(data)
}

/// Relies on `Digest::finalize` for `sha2::Sha256`: the digest of everything
/// the hasher has been fed.
#[verifier::external_body]
pub(crate) fn sha256_finalize(h: Sha256Stream) -> (r: [u8; 32])
    ensures
        r@ == sha256_of(sha256_fed(h)),
{
    h.inner.finalize().into()
}

} // verus!
