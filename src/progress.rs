use vstd::prelude::*;

verus! {

/// `a + b`, held at `u64::MAX`.
pub open spec fn saturating_sum(a: u64, b: u64) -> u64 {
    if a + b > u64::MAX {
        u64::MAX
    } else {
        (a + b) as u64
    }
}

/// The counter's value after batches of the given sizes were recorded, in order.
pub open spec fn total_after(start: u64, batches: Seq<u64>) -> u64
    decreases batches.len(),
{
    if batches.len() == 0 {
        start
    } else {
        saturating_sum(total_after(start, batches.drop_last()), batches.last())
    }
}

/// The number of candidates in the given batches.
pub open spec fn batch_sum(batches: Seq<u64>) -> nat
    decreases batches.len(),
{
    if batches.len() == 0 {
        0
    } else {
        (batch_sum(batches.drop_last()) + batches.last()) as nat
    }
}

/// The search's shared count of attempts. Workers add each batch once they
/// have evaluated it; the count never goes down.
pub struct AttemptCounter {
    pub total: u64,
}

impl AttemptCounter {
    /// A counter at zero, as each run starts.
    pub fn new() -> (r: AttemptCounter)
        ensures
            r.total == 0,
    {
        AttemptCounter { total: 0 }
    }

    /// Adds a batch of `n` evaluated candidates.
    pub fn record(&mut self, n: u64)
        ensures
            final(self).total == saturating_sum(old(self).total, n),
    {
        self.total = self.total.saturating_add(n);
    }

    pub fn total(&self) -> (r: u64)
        ensures
            r == self.total,
    {
        self.total
    }
}

/// The attempt counter never goes down: after more batches it holds at least
/// what it held after fewer. And it always covers the candidates of every
/// batch recorded since it started, unless it stands at `u64::MAX`.
pub proof fn lemma_counter_monotonic_and_covering(start: u64, batches: Seq<u64>, i: int, j: int)
    requires
        0 <= i <= j <= batches.len(),
    ensures
        total_after(start, batches.subrange(0, i)) <= total_after(start, batches.subrange(0, j)),
        start <= total_after(start, batches),
        total_after(start, batches) == u64::MAX || total_after(start, batches) == start
            + batch_sum(batches),
    decreases batches.len(),
{
    if batches.len() > 0 {
        let rest = batches.drop_last();
        lemma_counter_monotonic_and_covering(start, rest, 0, 0);
        if j == batches.len() {
            assert(batches.subrange(0, j) =~= batches);
            if i < j {
                assert(batches.subrange(0, i) =~= rest.subrange(0, i));
                lemma_counter_monotonic_and_covering(start, rest, i, j - 1);
                assert(rest.subrange(0, j - 1) =~= rest);
            }
        } else {
            assert(batches.subrange(0, i) =~= rest.subrange(0, i));
            assert(batches.subrange(0, j) =~= rest.subrange(0, j));
            lemma_counter_monotonic_and_covering(start, rest, i, j);
        }
    }
}

/// Throughput sampling: remembers the count at the previous sample.
pub struct RateMonitor {
    pub last_attempts: u64,
}

/// Attempts per second for `attempts` made in `elapsed_millis` milliseconds
/// (rounded down, held at `u64::MAX`), or none when no time has passed.
pub open spec fn per_second(attempts: u64, elapsed_millis: u64) -> Option<u64> {
    if elapsed_millis == 0 {
        None
    } else {
        let v = attempts * 1000 / (elapsed_millis as int);
        Some(
            if v > u64::MAX {
                u64::MAX
            } else {
                v as u64
            },
        )
    }
}

/// The rate between two samples `elapsed_millis` apart. A count below the
/// previous one counts as no progress.
pub open spec fn rate_between(previous: u64, current: u64, elapsed_millis: u64) -> Option<u64> {
    per_second(if current >= previous { (current - previous) as u64 } else { 0 }, elapsed_millis)
}

impl RateMonitor {
    pub fn new(start: u64) -> (r: RateMonitor)
        ensures
            r.last_attempts == start,
    {
        RateMonitor { last_attempts: start }
    }

    /// Takes a sample of the counter; returns the attempts per second since
    /// the previous sample.
    pub fn sample(&mut self, current: u64, elapsed_millis: u64) -> (r: Option<u64>)
        ensures
            final(self).last_attempts == current,
            r == rate_between(old(self).last_attempts, current, elapsed_millis),
    {
        let previous = self.last_attempts;
        self.last_attempts = current;
        rate_per_second(if current >= previous { current - previous } else { 0 }, elapsed_millis)
    }
}

/// Attempts per second for `attempts` made in `elapsed_millis` milliseconds.
pub fn rate_per_second(attempts: u64, elapsed_millis: u64) -> (r: Option<u64>)
    ensures
        r == per_second(attempts, elapsed_millis),
{
    if elapsed_millis == 0 {
        None
    } else {
        let wide: u128 = attempts as u128 * 1000 / elapsed_millis as u128;
        assert(wide <= attempts as int * 1000) by (nonlinear_arith)
            requires
                wide as int == attempts as int * 1000 / elapsed_millis as int,
                elapsed_millis >= 1,
        ;
        if wide > u64::MAX as u128 {
            Some(u64::MAX)
        } else {
            Some(wide as u64)
        }
    }
}

} // verus!
