use vstd::prelude::*;
use vstd::string::StringSliceAdditionalSpecFns;

use solana_sdk::signature::Keypair;

use crate::keys::{ed25519_public_of, KeyPair};

verus! {

/// The match spec as the accelerator's kernel takes it: each pattern's bytes
/// (a single zero byte standing in for an empty pattern, as a device buffer
/// cannot be empty), each pattern's length, and the case flag.
pub struct KernelPatternArgs {
    pub prefix: Vec<u8>,
    pub prefix_len: u32,
    pub suffix: Vec<u8>,
    pub suffix_len: u32,
    pub case_flag: u32,
}

/// The buffer a pattern is sent in.
pub open spec fn pattern_buffer(bytes: Seq<u8>) -> Seq<u8> {
    if bytes.len() == 0 {
        seq![0u8]
    } else {
        bytes
    }
}

fn buffer_of(s: &str) -> (r: Vec<u8>)
    ensures
        r@ == pattern_buffer(s.spec_bytes()),
{
    let bytes = s.as_bytes();
    let mut out: Vec<u8> = Vec::new();
    if bytes.len() == 0 {
        out.push(0u8);
        assert(out@ =~= seq![0u8]);
        return out;
    }
    let mut i: usize = 0;
    while i < bytes.len()
        invariant
            i <= bytes@.len(),
            bytes@ == s.spec_bytes(),
            out@ == bytes@.subrange(0, i as int),
        decreases bytes@.len() - i,
    {
        out.push(bytes[i]);
        assert(out@ =~= bytes@.subrange(0, i + 1));
        i = i + 1;
    }
    assert(out@ =~= bytes@);
    out
}

impl KernelPatternArgs {
    /// Encodes the patterns for the kernel; an absent pattern is sent as the
    /// empty one.
    pub fn new(starts_with: &str, ends_with: &str, case_sensitive: bool) -> (r: KernelPatternArgs)
        requires
            starts_with.spec_bytes().len() <= u32::MAX,
            ends_with.spec_bytes().len() <= u32::MAX,
        ensures
            r.prefix@ == pattern_buffer(starts_with.spec_bytes()),
            r.prefix_len == starts_with.spec_bytes().len(),
            r.suffix@ == pattern_buffer(ends_with.spec_bytes()),
            r.suffix_len == ends_with.spec_bytes().len(),
            r.case_flag == if case_sensitive {
                1u32
            } else {
                0u32
            },
    {
        KernelPatternArgs {
            prefix: buffer_of(starts_with),
            prefix_len: starts_with.len() as u32,
            suffix: buffer_of(ends_with),
            suffix_len: ends_with.len() as u32,
            case_flag: if case_sensitive {
                1
            } else {
                0
            },
        }
    }
}

/// How the seed kernel is launched for a batch.
#[derive(Clone, Copy, PartialEq, Eq, Structural, Debug)]
pub struct SeedLaunch {
    /// Host-drawn random seeds the device expands.
    pub base_seeds: usize,
    /// Seeds each work item writes.
    pub seeds_per_item: u32,
    /// Work items per group.
    pub work_group_size: usize,
    /// Work items in all: enough for every seed, a whole number of groups.
    pub global_work_size: usize,
    /// Seeds the batch asks for.
    pub total_seeds: u32,
}

pub open spec fn launch_of(num_seeds: nat) -> SeedLaunch {
    SeedLaunch {
        base_seeds: if num_seeds / 4096 > 1024 {
            (num_seeds / 4096) as usize
        } else {
            1024
        },
        seeds_per_item: 4,
        work_group_size: 256,
        global_work_size: (((num_seeds + 3) / 4 + 255) / 256 * 256) as usize,
        total_seeds: num_seeds as u32,
    }
}

impl SeedLaunch {
    /// The launch for a batch of `num_seeds` seeds: one host seed per 4096
    /// device seeds (at least 1024), four seeds per work item, groups of 256.
    pub fn for_seeds(num_seeds: usize) -> (r: SeedLaunch)
        requires
            num_seeds <= u32::MAX,
        ensures
            r == launch_of(num_seeds as nat),
            r.global_work_size * 4 >= num_seeds,
            r.global_work_size % 256 == 0,
    {
        let per_base = num_seeds / 4096;
        let items: u64 = (num_seeds as u64 + 3) / 4;
        let groups: u64 = (items + 255) / 256;
        SeedLaunch {
            base_seeds: if per_base > 1024 {
                per_base
            } else {
                1024
            },
            seeds_per_item: 4,
            work_group_size: 256,
            global_work_size: (groups * 256) as usize,
            total_seeds: num_seeds as u32,
        }
    }
}

/// A record the full-offload kernel wrote for one seed.
pub struct KernelRecord {
    pub public: Vec<u8>,
    pub secret: Vec<u8>,
}

/// Record `i` of the kernel's output: 32 public-key bytes, then 32 secret bytes.
pub open spec fn record_at(out: Seq<u8>, i: int) -> (Seq<u8>, Seq<u8>) {
    (out.subrange(64 * i, 64 * i + 32), out.subrange(64 * i + 32, 64 * i + 64))
}

/// A public-key field of zeros: the kernel's mark for "no match".
pub open spec fn is_blank(field: Seq<u8>) -> bool {
    forall|k: int| 0 <= k < field.len() ==> field[k] == 0
}

/// The records among the first `n` of `out` whose public key is not blank, in order.
pub open spec fn kernel_matches(out: Seq<u8>, n: nat) -> Seq<(Seq<u8>, Seq<u8>)>
    decreases n,
{
    if n == 0 {
        Seq::empty()
    } else {
        let prev = kernel_matches(out, (n - 1) as nat);
        let rec = record_at(out, n - 1);
        if is_blank(rec.0) {
            prev
        } else {
            prev.push(rec)
        }
    }
}

fn copy_range(out: &Vec<u8>, from: usize, to: usize) -> (r: Vec<u8>)
    requires
        from <= to <= out@.len(),
    ensures
        r@ == out@.subrange(from as int, to as int),
{
    let mut v: Vec<u8> = Vec::new();
    let mut i: usize = from;
    while i < to
        invariant
            from <= i <= to <= out@.len(),
            v@ == out@.subrange(from as int, i as int),
        decreases to - i,
    {
        v.push(out[i]);
        assert(v@ =~= out@.subrange(from as int, i + 1));
        i = i + 1;
    }
    v
}

fn blank_field(out: &Vec<u8>, from: usize) -> (r: bool)
    requires
        from + 32 <= out@.len(),
    ensures
        r == is_blank(out@.subrange(from as int, from + 32)),
{
    let ghost field = out@.subrange(from as int, from + 32);
    let n = out.len();
    let mut k: usize = 0;
    while k < 32
        invariant
            k <= 32,
            n == out@.len(),
            from + 32 <= out@.len(),
            field == out@.subrange(from as int, from + 32),
            forall|j: int| 0 <= j < k ==> field[j] == 0,
        decreases 32 - k,
    {
        if out[from + k] != 0 {
            assert(field[k as int] != 0);
            return false;
        }
        k = k + 1;
    }
    true
}

/// The matches in the full-offload kernel's output for `seeds` seeds; the
/// records with a blank public key are dropped before anything else is done.
pub fn matched_records(out: &Vec<u8>, seeds: usize) -> (r: Vec<KernelRecord>)
    requires
        out@.len() == 64 * seeds,
    ensures
        r@.len() == kernel_matches(out@, seeds as nat).len(),
        forall|i: int|
            0 <= i < r@.len() ==> (#[trigger] r@[i].public@, r@[i].secret@) == kernel_matches(
                out@,
                seeds as nat,
            )[i],
{
    let mut found: Vec<KernelRecord> = Vec::new();
    let n = out.len();
    let mut i: usize = 0;
    while i < seeds
        invariant
            i <= seeds,
            n == out@.len(),
            out@.len() == 64 * seeds,
            found@.len() == kernel_matches(out@, i as nat).len(),
            forall|j: int|
                0 <= j < found@.len() ==> (#[trigger] found@[j].public@, found@[j].secret@)
                    == kernel_matches(out@, i as nat)[j],
        decreases seeds - i,
    {
        let base: usize = 64 * i;
        if !blank_field(out, base) {
            found.push(
                KernelRecord {
                    public: copy_range(out, base, base + 32),
                    secret: copy_range(out, base + 32, base + 64),
                },
            );
        }
        i = i + 1;
    }
    found
}

/// Relies on `Keypair::try_from(&[u8])` and `Keypair::to_bytes`: the bytes are
/// accepted exactly when they are 64 bytes, a secret followed by the public
/// key derived from it, and are then returned as they are.
#[verifier::external_body]
fn checked_keypair_bytes(bytes: &[u8]) -> (r: Option<[u8; 64]>)
    ensures
        r.is_some() == (bytes@.len() == 64 && bytes@.subrange(32, 64) == ed25519_public_of(
            bytes@.subrange(0, 32),
        )),
        r matches Some(b) ==> b@ == bytes@,
{
    Keypair::try_from(bytes).ok().map(|k| k.to_bytes())
}

/// The key pair of a kernel record. When the record's public key is not the
/// one its secret gives, the key pair is derived from the secret instead.
pub fn keypair_from_record(rec: &KernelRecord) -> (r: KeyPair)
    requires
        rec.public@.len() == 32,
        rec.secret@.len() == 32,
    ensures
        r.wf(),
        r.secret@ == rec.secret@,
{
    let mut bytes: Vec<u8> = rec.secret.clone();
    let mut tail: Vec<u8> = rec.public.clone();
    bytes.append(&mut tail);
    match checked_keypair_bytes(bytes.as_slice()) {
        Some(b) => {
            assert(b@.subrange(0, 32) =~= rec.secret@);
            assert(b@.subrange(32, 64) =~= rec.public@);
            KeyPair { secret: rec.secret.clone(), public: rec.public.clone() }
        },
        None => {
            let mut secret: [u8; 32] = [0u8; 32];
            let mut k: usize = 0;
            while k < 32
                invariant
                    k <= 32,
                    rec.secret@.len() == 32,
                    forall|j: int| 0 <= j < k ==> secret@[j] == rec.secret@[j],
                decreases 32 - k,
            {
                secret[k] = rec.secret[k];
                k = k + 1;
            }
            assert(secret@ =~= rec.secret@);
            KeyPair::from_secret(secret)
        },
    }
}

} // verus!
