use vstd::prelude::*;

use crate::encoding::{base58_encode, base58_of};
use crate::keys::KeyPair;
use crate::matcher::{check_pattern_match, MatchSpec};

verus! {

/// A moment in UTC: seconds since the Unix epoch and nanoseconds within that second.
#[derive(Clone, Copy, PartialEq, Eq, Structural, Debug)]
pub struct Timestamp {
    pub secs: i64,
    pub nanos: u32,
}

/// Relies on `chrono::Utc::now`: the current time, read as seconds and
/// nanoseconds since the Unix epoch. Nothing is promised of its value.
#[verifier::external_body]
pub(crate) fn now() -> (r: Timestamp) {
    let t = chrono::Utc::now();
    Timestamp { secs: t.timestamp(), nanos: t.timestamp_subsec_nanos() }
}

/// A key pair whose public key matched, as it is reported and stored.
#[derive(Clone, Debug)]
pub struct VanityResult {
    pub public_key: String,
    pub private_key: String,
    pub pattern_matched: String,
    pub attempts: u64,
    pub found_at: Timestamp,
}

/// What a result says, apart from when it was found.
pub struct ResultView {
    pub public_key: Seq<char>,
    pub private_key: Seq<char>,
    pub pattern_matched: Seq<char>,
    pub attempts: nat,
}

impl View for VanityResult {
    type V = ResultView;

    open spec fn view(&self) -> ResultView {
        ResultView {
            public_key: self.public_key@,
            private_key: self.private_key@,
            pattern_matched: self.pattern_matched@,
            attempts: self.attempts as nat,
        }
    }
}

/// The pattern a result is filed under: the prefix if there is one, else the
/// suffix, else `random`.
pub open spec fn label_of(spec: MatchSpec) -> Seq<char> {
    match spec.prefix {
        Some(p) => p@,
        None => match spec.suffix {
            Some(s) => s@,
            None => "random"@,
        },
    }
}

/// The pattern name that results of `spec` carry.
pub fn pattern_label(spec: &MatchSpec) -> (r: String)
    ensures
        r@ == label_of(*spec),
{
    match &spec.prefix {
        Some(p) => p.clone(),
        None => match &spec.suffix {
            Some(s) => s.clone(),
            None => "random".to_string(),
        },
    }
}

/// The result a matching key pair gives, found after `attempts` candidates.
pub open spec fn result_of(spec: MatchSpec, kp: KeyPair, attempts: nat) -> ResultView {
    ResultView {
        public_key: base58_of(kp.public@),
        private_key: base58_of(kp.spec_bytes()),
        pattern_matched: label_of(spec),
        attempts,
    }
}

/// The results that the candidates `cands` give, in order, when `before`
/// candidates were evaluated ahead of them: one for each candidate whose
/// encoded public key `spec` accepts, stamped with its running count.
pub open spec fn batch_finds(spec: MatchSpec, cands: Seq<KeyPair>, before: nat) -> Seq<ResultView>
    decreases cands.len(),
{
    if cands.len() == 0 {
        Seq::empty()
    } else {
        let prev = batch_finds(spec, cands.drop_last(), before);
        let kp = cands.last();
        if spec.accepts(base58_of(kp.public@)) {
            prev.push(result_of(spec, kp, before + cands.len()))
        } else {
            prev
        }
    }
}

/// Tests one candidate key pair; if its encoded public key satisfies `spec`,
/// returns the result, stamped with `attempts` and the current time.
pub fn evaluate_candidate(spec: &MatchSpec, kp: &KeyPair, attempts: u64) -> (r: Option<
    VanityResult,
>)
    ensures
        r is Some <==> spec.accepts(base58_of(kp.public@)),
        r matches Some(v) ==> v@ == result_of(*spec, *kp, attempts as nat),
{
    if check_pattern_match(kp.public.as_slice(), &spec.prefix, &spec.suffix, spec.case_sensitive) {
        let bytes = kp.to_bytes();
        Some(
            VanityResult {
                public_key: base58_encode(kp.public.as_slice()),
                private_key: base58_encode(bytes.as_slice()),
                pattern_matched: pattern_label(spec),
                attempts,
                found_at: now(),
            },
        )
    } else {
        None
    }
}

/// One search loop's own bookkeeping: how many candidates it has evaluated.
pub struct Worker {
    pub evaluated: u64,
}

impl Worker {
    pub fn new() -> (r: Worker)
        ensures
            r.evaluated == 0,
    {
        Worker { evaluated: 0 }
    }

    /// Evaluates a batch of candidates in order. Each match becomes a result
    /// whose `attempts` is this worker's count of candidates evaluated up to
    /// and including the match; the count then covers the whole batch.
    pub fn process_batch(&mut self, spec: &MatchSpec, cands: &Vec<KeyPair>) -> (r: Vec<
        VanityResult,
    >)
        requires
            old(self).evaluated + cands@.len() <= u64::MAX,
        ensures
            final(self).evaluated == old(self).evaluated + cands@.len(),
            r@.len() == batch_finds(*spec, cands@, old(self).evaluated as nat).len(),
            forall|i: int|
                0 <= i < r@.len() ==> #[trigger] r@[i]@ == batch_finds(
                    *spec,
                    cands@,
                    old(self).evaluated as nat,
                )[i],
    {
        let ghost start = self.evaluated as nat;
        let mut out: Vec<VanityResult> = Vec::new();
        let mut i: usize = 0;
        while i < cands.len()
            invariant
                i <= cands@.len(),
                start + cands@.len() <= u64::MAX,
                self.evaluated == start + i,
                out@.len() == batch_finds(*spec, cands@.subrange(0, i as int), start).len(),
                forall|j: int|
                    0 <= j < out@.len() ==> #[trigger] out@[j]@ == batch_finds(
                        *spec,
                        cands@.subrange(0, i as int),
                        start,
                    )[j],
            decreases cands@.len() - i,
        {
            self.evaluated = self.evaluated + 1;
            let found = evaluate_candidate(spec, &cands[i], self.evaluated);
            let ghost prefix = cands@.subrange(0, i + 1);
            assert(prefix.drop_last() =~= cands@.subrange(0, i as int));
            assert(prefix.last() == cands@[i as int]);
            match found {
                Some(v) => {
                    out.push(v);
                },
                None => {},
            }
            i = i + 1;
        }
        assert(cands@.subrange(0, i as int) =~= cands@);
        out
    }
}

} // verus!
