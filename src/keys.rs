use vstd::prelude::*;

use rand::distributions::{Distribution, Standard};
use solana_sdk::signature::Keypair;

verus! {

/// The Ed25519 public key that `solana-keypair` derives from a 32-byte secret
/// (it goes through `ed25519_dalek::PublicKey::from(&SecretKey)` whichever way
/// the key pair is made).
pub uninterp spec fn ed25519_public_of(secret: Seq<u8>) -> Seq<u8>;

/// Relies on `rand::random`: a value from the thread-local generator.
/// Nothing is promised of the value.
pub assume_specification<T>[ rand::random::<T> ]() -> (r: T)
    where
        Standard: Distribution<T>,
;

/// Relies on `Keypair::new_from_array` and `Keypair::to_bytes`: every 32-byte
/// secret gives a key pair, written as the secret followed by its public key.
#[verifier::external_body]
fn keypair_bytes_from_secret(secret: [u8; 32]) -> (r: [u8; 64])
    ensures
        r@ == secret@ + ed25519_public_of(secret@),
{
    Keypair::new_from_array(secret).to_bytes()
}

/// Byte `k` of the little-endian form of `seed`.
pub open spec fn seed_byte(seed: u32, k: int) -> u8 {
    if k == 0 {
        (seed % 256) as u8
    } else if k == 1 {
        ((seed / 256) % 256) as u8
    } else if k == 2 {
        ((seed / 65536) % 256) as u8
    } else {
        (seed / 16777216) as u8
    }
}

/// A key pair: a 32-byte secret and the public key derived from it.
pub struct KeyPair {
    pub secret: Vec<u8>,
    pub public: Vec<u8>,
}

impl KeyPair {
    /// The public key is the one the secret gives.
    pub open spec fn wf(&self) -> bool {
        &&& self.secret@.len() == 32
        &&& self.public@ == ed25519_public_of(self.secret@)
    }

    /// The key pair as 64 bytes: secret, then public key.
    pub open spec fn spec_bytes(&self) -> Seq<u8> {
        self.secret@ + self.public@
    }

    /// The key pair of a 32-byte secret.
    pub fn from_secret(secret: [u8; 32]) -> (r: KeyPair)
        ensures
            r.wf(),
            r.secret@ == secret@,
    {
        let both = keypair_bytes_from_secret(secret);
        let mut s: Vec<u8> = Vec::new();
        let mut p: Vec<u8> = Vec::new();
        let mut i: usize = 0;
        while i < 32
            invariant
                i <= 32,
                both@ == secret@ + ed25519_public_of(secret@),
                secret@.len() == 32,
                s@ == both@.subrange(0, i as int),
                p@ == both@.subrange(32, 32 + i),
            decreases 32 - i,
        {
            s.push(both[i]);
            p.push(both[32 + i]);
            assert(s@ =~= both@.subrange(0, i + 1));
            assert(p@ =~= both@.subrange(32, 32 + i + 1));
            i = i + 1;
        }
        assert(both@.len() == 64);
        assert(s@ =~= secret@);
        assert(both@.subrange(32, 64) =~= ed25519_public_of(secret@));
        KeyPair { secret: s, public: p }
    }

    /// The 64 bytes of the key pair: secret, then public key.
    pub fn to_bytes(&self) -> (r: Vec<u8>)
        ensures
            r@ == self.spec_bytes(),
    {
        let mut out: Vec<u8> = Vec::new();
        let mut i: usize = 0;
        while i < self.secret.len()
            invariant
                i <= self.secret@.len(),
                out@ == self.secret@.subrange(0, i as int),
            decreases self.secret@.len() - i,
        {
            out.push(self.secret[i]);
            assert(out@ =~= self.secret@.subrange(0, i + 1));
            i = i + 1;
        }
        let mut j: usize = 0;
        while j < self.public.len()
            invariant
                i == self.secret@.len(),
                j <= self.public@.len(),
                out@ == self.secret@ + self.public@.subrange(0, j as int),
            decreases self.public@.len() - j,
        {
            out.push(self.public[j]);
            assert(out@ =~= self.secret@ + self.public@.subrange(0, j + 1));
            j = j + 1;
        }
        assert(self.public@.subrange(0, j as int) =~= self.public@);
        out
    }
}

/// The candidate secret of a seed: `fill`, with its first four bytes replaced
/// by the little-endian bytes of `seed`.
pub fn seeded_secret(seed: u32, fill: [u8; 32]) -> (r: [u8; 32])
    ensures
        forall|k: int| 0 <= k < 4 ==> r@[k] == seed_byte(seed, k),
        forall|k: int| 4 <= k < 32 ==> r@[k] == fill@[k],
{
    let mut bytes = fill;
    bytes[0] = (seed % 256) as u8;
    bytes[1] = ((seed / 256) % 256) as u8;
    bytes[2] = ((seed / 65536) % 256) as u8;
    bytes[3] = (seed / 16777216) as u8;
    bytes
}

/// Draws a key pair for a seed: 28 random bytes after the four bytes of the
/// seed make the secret, and the public key is derived from it. Every 32-byte
/// value is a valid Ed25519 secret, so derivation never fails here; records
/// from the accelerator, which can be inconsistent, are mended by
/// `accelerator::keypair_from_record`.
pub fn generate_keypair_from_seed(seed: u32) -> (r: KeyPair)
    ensures
        r.wf(),
        forall|k: int| 0 <= k < 4 ==> r.secret@[k] == seed_byte(seed, k),
{
    let fill: [u8; 32] = rand::random();
    KeyPair::from_secret(seeded_secret(seed, fill))
}

/// Draws `count` random 32-bit seeds.
pub fn generate_random_seeds(count: usize) -> (r: Vec<u32>)
    ensures
        r@.len() == count,
{
    let mut out: Vec<u32> = Vec::new();
    let mut i: usize = 0;
    while i < count
        invariant
            i <= count,
            out@.len() == i,
        decreases count - i,
    {
        out.push(rand::random());
        i = i + 1;
    }
    out
}

} // verus!
