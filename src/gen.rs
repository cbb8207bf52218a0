//! Image generation for tests.
//!
//! A test image is made of a zeroed header area followed by pseudo-random
//! bytes from a seeded xoshiro256+ generator.  Signing it is left to an
//! outside tool.
use rand::{RngCore, SeedableRng};
use rand_xoshiro::Xoshiro256Plus;
use vstd::prelude::*;

verus! {

/// The `len` bytes with which xoshiro256+, seeded with `seed`, fills a buffer
/// of that length.  (A shorter fill is not always a prefix of a longer one.)
pub uninterp spec fn xoshiro_bytes(seed: u64, len: nat) -> Seq<u8>;

/// Relies on `Xoshiro256Plus::seed_from_u64` and `RngCore::fill_bytes` of
/// `rand_xoshiro`: `len` bytes that depend on the seed alone.
#[verifier::external_body]
fn prng_bytes(seed: u64, len: usize) -> (r: Vec<u8>)
    ensures
        r@ == xoshiro_bytes(seed, len as nat),
        r@.len() == len,
{
    let mut rng = Xoshiro256Plus::seed_from_u64(seed);
    let mut data = vec![0u8; len];
    rng.fill_bytes(&mut data);
    data
}

/// A signed image, as bytes.
pub struct GeneratedImage {
    pub data: Vec<u8>,
}

/// The settings of a test image.
pub struct GenBuilder {
    /// Size of the zeroed header.
    header_size: usize,
    /// Total size of the image, not counting the TLV.
    size: usize,
    /// Seed for the PRNG.
    seed: usize,
    /// Version.
    version: String,
}

impl GenBuilder {
    pub closed spec fn spec_header_size(&self) -> nat {
        self.header_size as nat
    }

    pub closed spec fn spec_size(&self) -> nat {
        self.size as nat
    }

    pub closed spec fn spec_seed(&self) -> nat {
        self.seed as nat
    }

    pub closed spec fn spec_version(&self) -> Seq<char> {
        self.version@
    }

    /// Set the size of the image body.
    pub fn size(&mut self, size: usize) -> (r: &mut Self)
        ensures
            r.spec_size() == size,
            r.spec_header_size() == old(self).spec_header_size(),
            r.spec_seed() == old(self).spec_seed(),
            r.spec_version() == old(self).spec_version(),
            *final(self) == *final(r),
    {
        self.size = size;
        self
    }

    /// Set the seed of the generator.
    pub fn seed(&mut self, seed: usize) -> (r: &mut Self)
        ensures
            r.spec_seed() == seed,
            r.spec_header_size() == old(self).spec_header_size(),
            r.spec_size() == old(self).spec_size(),
            r.spec_version() == old(self).spec_version(),
            *final(self) == *final(r),
    {
        self.seed = seed;
        self
    }

    /// The size of the zeroed header area.
    pub fn header_size(&self) -> (r: usize)
        ensures
            r == self.spec_header_size(),
    {
        self.header_size
    }

    /// The version to sign the image with.
    pub fn version(&self) -> (r: &str)
        ensures
            r@ == self.spec_version(),
    {
        self.version.as_str()
    }

    /// The unsigned image: `size` bytes from the generator seeded with
    /// `seed`, the first `header_size` of them zeroed.
    pub fn input(&self) -> (r: Vec<u8>)
        ensures
            r@.len() == self.spec_size(),
            forall|i: int|
                0 <= i < r@.len() ==> #[trigger] r@[i] == if i < self.spec_header_size() {
                    0u8
                } else {
                    xoshiro_bytes(self.spec_seed() as u64, self.spec_size())[i]
                },
    {
        let mut data = prng_bytes(self.seed as u64, self.size);
        let ghost stream = data@;
        // The header is required to be zeros.
        let mut i: usize = 0;
        while i < self.header_size && i < data.len()
            invariant
                stream == xoshiro_bytes(self.spec_seed() as u64, self.spec_size()),
                data@.len() == stream.len(),
                i <= data@.len(),
                i <= self.header_size,
                forall|j: int|
                    0 <= j < data@.len() ==> #[trigger] data@[j] == if j < i {
                        0u8
                    } else {
                        stream[j]
                    },
            decreases data@.len() - i,
        {
            data.set(i, 0);
            i = i + 1;
        }
        data
    }
}

impl Default for GenBuilder {
    fn default() -> (r: Self)
        ensures
            r.spec_header_size() == 256,
            r.spec_size() == 76_137,
            r.spec_seed() == 1,
            r.spec_version() == "0.1.0"@,
    {
        GenBuilder { header_size: 256, size: 76_137, seed: 1, version: "0.1.0".to_owned() }
    }
}

} // verus!
