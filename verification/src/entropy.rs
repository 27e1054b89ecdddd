//! Condenses entropy samples into a seed: the samples are strung together in
//! the order they are added and hashed with SHA3-256.

use sha3::{Digest, Sha3_256};
use vstd::prelude::*;

verus! {

/// The length of a seed in bytes.
pub const SEED_LEN: usize = 32;

/// The length of the externally supplied secret in bytes.
pub const SECRET_LEN: usize = 32;

/// The SHA3-256 digest of `data`.
pub uninterp spec fn sha3_256(data: Seq<u8>) -> Seq<u8>;

/// Hashes `data` with `Sha3_256::digest`.
///
/// Trusted: the result is the SHA3-256 digest of the bytes given.
#[verifier::external_body]
fn sha3_256_digest(data: &Vec<u8>) -> (digest: [u8; 32])
    ensures
        digest@ == sha3_256(data@),
{
    Sha3_256::digest(data.as_slice()).into()
}

/// What feeds the secondary generator's seed: the uninitialised memory, then
/// the secret twice.
pub open spec fn secondary_preimage(uninit_memory: Seq<u8>, secret: Seq<u8>) -> Seq<u8> {
    uninit_memory + secret + secret
}

/// What feeds the main generator's seed: the uninitialised memory, the
/// secret, the converter's noise, then the clock drift.
pub open spec fn main_preimage(
    uninit_memory: Seq<u8>,
    secret: Seq<u8>,
    adc: Seq<u8>,
    clock_drift: Seq<u8>,
) -> Seq<u8> {
    uninit_memory + secret + adc + clock_drift
}

/// Gathers samples and condenses them into one seed.
pub struct EntropyHasher {
    gathered: Vec<u8>,
}

impl EntropyHasher {
    /// Everything added so far, in order.
    pub closed spec fn gathered(&self) -> Seq<u8> {
        self.gathered@
    }

    /// A hasher that has gathered nothing yet.
    pub fn new() -> (hasher: Self)
        ensures
            hasher.gathered() == Seq::<u8>::empty(),
    {
        EntropyHasher { gathered: Vec::new() }
    }

    /// Adds one sample behind those already gathered.
    pub fn add(&mut self, sample: &[u8])
        ensures
            final(self).gathered() == old(self).gathered() + sample@,
    {
        let n: usize = sample.len();
        let mut i: usize = 0;
        while i < n
            invariant
                n == sample@.len(),
                i <= n,
                self.gathered@ == old(self).gathered@ + sample@.take(i as int),
            decreases n - i,
        {
            self.gathered.push(sample[i]);
            i += 1;
        }
    }

    /// The seed for what was gathered: its SHA3-256 digest.
    pub fn hash(&self) -> (seed: [u8; 32])
        ensures
            seed@ == sha3_256(self.gathered()),
    {
        sha3_256_digest(&self.gathered)
    }
}

/// The seed of the secondary generator. None of its sources has to be
/// waited for.
pub fn secondary_seed(uninit_memory: &[u8], secret: &[u8; 32]) -> (seed: [u8; 32])
    ensures
        seed@ == sha3_256(secondary_preimage(uninit_memory@, secret@)),
{
    let mut hasher = EntropyHasher::new();
    hasher.add(uninit_memory);
    hasher.add(secret.as_slice());
    hasher.add(secret.as_slice());
    hasher.hash()
}

/// The seed of the main generator.
pub fn main_seed(uninit_memory: &[u8], secret: &[u8; 32], adc: &[u8], clock_drift: &[u8]) -> (seed:
    [u8; 32])
    ensures
        seed@ == sha3_256(main_preimage(uninit_memory@, secret@, adc@, clock_drift@)),
{
    let mut hasher = EntropyHasher::new();
    hasher.add(uninit_memory);
    hasher.add(secret.as_slice());
    hasher.add(adc);
    hasher.add(clock_drift);
    hasher.hash()
}

/// The two seeds never come from the same bytes unless the converter's noise
/// followed by the clock drift spells out the secret itself; in particular
/// not when those two samples together are shorter or longer than the secret.
pub proof fn seed_preimages_differ(
    uninit_memory: Seq<u8>,
    secret: Seq<u8>,
    adc: Seq<u8>,
    clock_drift: Seq<u8>,
)
    ensures
        secondary_preimage(uninit_memory, secret) == main_preimage(
            uninit_memory,
            secret,
            adc,
            clock_drift,
        ) <==> secret == adc + clock_drift,
        adc.len() + clock_drift.len() != secret.len() ==> secondary_preimage(uninit_memory, secret)
            != main_preimage(uninit_memory, secret, adc, clock_drift),
{
    let head = uninit_memory + secret;
    assert(main_preimage(uninit_memory, secret, adc, clock_drift) =~= head + (adc + clock_drift));
    assert((head + secret).skip(head.len() as int) =~= secret);
    assert((head + (adc + clock_drift)).skip(head.len() as int) =~= adc + clock_drift);
}

} // verus!
