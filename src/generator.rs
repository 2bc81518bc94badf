use vstd::prelude::*;

use crate::encoding::{base58_encode, base58_of};
use crate::keys::KeyPair;
use crate::matcher::{first_hit, first_pattern_in, texts, MatchSpec};
use crate::orchestrator::{cpu_count, plan_of, Aggregator, ConfigError, Phase, SearchPlan};
use crate::search::{now, ResultView, VanityResult};

verus! {

/// A configured vanity search: the patterns, how many new results to find,
/// the accelerator device to use if any, and where results are stored.
pub struct VanityGenerator {
    pub starts_with: Option<String>,
    pub ends_with: Option<String>,
    pub count: usize,
    pub device: Option<usize>,
    pub iteration_bits: u32,
    pub case_sensitive: bool,
    pub output_path: String,
}

fn clone_pattern(p: &Option<String>) -> (r: Option<String>)
    ensures
        r == *p,
{
    match p {
        Some(s) => Some(s.clone()),
        None => None,
    }
}

/// The results that `cands` give in a multi-pattern search: one for each
/// candidate whose encoded public key contains one of `pats`, filed under the
/// first such pattern and stamped with `attempts`.
pub open spec fn pattern_finds(
    pats: Seq<String>,
    cands: Seq<KeyPair>,
    case_sensitive: bool,
    attempts: nat,
) -> Seq<ResultView>
    decreases cands.len(),
{
    if cands.len() == 0 {
        Seq::empty()
    } else {
        let prev = pattern_finds(pats, cands.drop_last(), case_sensitive, attempts);
        let kp = cands.last();
        match first_hit(base58_of(kp.public@), texts(pats), case_sensitive, 0) {
            Some(j) => prev.push(
                ResultView {
                    public_key: base58_of(kp.public@),
                    private_key: base58_of(kp.spec_bytes()),
                    pattern_matched: pats[j as int]@,
                    attempts,
                },
            ),
            None => prev,
        }
    }
}

impl VanityGenerator {
    /// Configures a search. Asking for no results is refused.
    pub fn new(
        starts_with: Option<String>,
        ends_with: Option<String>,
        count: usize,
        device: Option<usize>,
        iteration_bits: u32,
        case_sensitive: bool,
        output_path: String,
    ) -> (r: Result<VanityGenerator, ConfigError>)
        ensures
            count == 0 <==> r is Err,
            r matches Err(e) ==> e == ConfigError::ZeroTarget,
            r matches Ok(g) ==> {
                &&& g.starts_with == starts_with
                &&& g.ends_with == ends_with
                &&& g.count == count
                &&& g.device == device
                &&& g.iteration_bits == iteration_bits
                &&& g.case_sensitive == case_sensitive
                &&& g.output_path == output_path
            },
    {
        if count == 0 {
            return Err(ConfigError::ZeroTarget);
        }
        Ok(
            VanityGenerator {
                starts_with,
                ends_with,
                count,
                device,
                iteration_bits,
                case_sensitive,
                output_path,
            },
        )
    }

    /// The match spec the workers test candidates against.
    pub fn match_spec(&self) -> (r: MatchSpec)
        ensures
            r.prefix == self.starts_with,
            r.suffix == self.ends_with,
            r.case_sensitive == self.case_sensitive,
    {
        MatchSpec::new(
            clone_pattern(&self.starts_with),
            clone_pattern(&self.ends_with),
            self.case_sensitive,
        )
    }

    /// The worker pool for this search on this machine, given the number of
    /// accelerator devices (none when no accelerator can be used). It is the
    /// plan `SearchPlan::select` makes for the CPU threads there are.
    pub fn plan(&self, available: Option<usize>) -> (r: Result<SearchPlan, ConfigError>)
        ensures
            exists|n: usize| n >= 1 && r == plan_of(self.device, available, n),
    {
        let n = cpu_count();
        SearchPlan::select(self.device, available, n)
    }

    /// Starts the run: `count` new results are to be found after the results
    /// `prior` loaded from the store.
    pub fn begin(&self, prior: Vec<VanityResult>) -> (r: Result<Aggregator, ConfigError>)
        ensures
            self.count == 0 <==> r is Err,
            r matches Err(e) ==> e == ConfigError::ZeroTarget,
            r matches Ok(a) ==> {
                &&& a@.wf()
                &&& a@.results == prior@
                &&& a@.found == 0
                &&& a@.target == self.count
                &&& a@.phase == Phase::Running
            },
    {
        Aggregator::start(prior, self.count)
    }

    /// One batch of a multi-pattern search: each candidate whose encoded
    /// public key contains one of `patterns` gives a result filed under the
    /// first such pattern, stamped with `attempts`.
    pub fn scan_for_patterns(&self, patterns: &Vec<String>, cands: &Vec<KeyPair>, attempts: u64) -> (r:
        Vec<VanityResult>)
        ensures
            r@.len() == pattern_finds(patterns@, cands@, self.case_sensitive, attempts as nat).len(),
            forall|i: int|
                0 <= i < r@.len() ==> #[trigger] r@[i]@ == pattern_finds(
                    patterns@,
                    cands@,
                    self.case_sensitive,
                    attempts as nat,
                )[i],
    {
        let mut out: Vec<VanityResult> = Vec::new();
        let mut i: usize = 0;
        while i < cands.len()
            invariant
                i <= cands@.len(),
                out@.len() == pattern_finds(
                    patterns@,
                    cands@.subrange(0, i as int),
                    self.case_sensitive,
                    attempts as nat,
                ).len(),
                forall|j: int|
                    0 <= j < out@.len() ==> #[trigger] out@[j]@ == pattern_finds(
                        patterns@,
                        cands@.subrange(0, i as int),
                        self.case_sensitive,
                        attempts as nat,
                    )[j],
            decreases cands@.len() - i,
        {
            let kp = &cands[i];
            let address = base58_encode(kp.public.as_slice());
            let ghost prefix = cands@.subrange(0, i + 1);
            assert(prefix.drop_last() =~= cands@.subrange(0, i as int));
            assert(prefix.last() == cands@[i as int]);
            match first_pattern_in(address.as_str(), patterns, self.case_sensitive) {
                Some(j) => {
                    proof {
                        crate::matcher::lemma_first_hit_in_range(
                            address@,
                            texts(patterns@),
                            self.case_sensitive,
                            0,
                        );
                    }
                    let bytes = kp.to_bytes();
                    out.push(
                        VanityResult {
                            public_key: address,
                            private_key: base58_encode(bytes.as_slice()),
                            pattern_matched: patterns[j].clone(),
                            attempts,
                            found_at: now(),
                        },
                    );
                },
                None => {},
            }
            i = i + 1;
        }
        assert(cands@.subrange(0, i as int) =~= cands@);
        out
    }

    /// Adds a batch of a multi-pattern search to `results`, keeping no more
    /// than `count`; says whether `count` results are there.
    pub fn absorb(results: &mut Vec<VanityResult>, batch: Vec<VanityResult>, count: usize) -> (r:
        bool)
        ensures
            final(results)@ == (old(results)@ + batch@).take(
                if old(results)@.len() + batch@.len() > count {
                    count as int
                } else {
                    (old(results)@.len() + batch@.len()) as int
                },
            ),
            r == (old(results)@.len() + batch@.len() >= count),
    {
        let mut batch = batch;
        let ghost both = old(results)@ + batch@;
        results.append(&mut batch);
        assert(results@ =~= both);
        let complete = results.len() >= count;
        results.truncate(count);
        assert(results@ =~= both.take(
            if both.len() > count {
                count as int
            } else {
                both.len() as int
            },
        ));
        complete
    }
}

} // verus!
