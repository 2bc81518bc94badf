use vstd::prelude::*;

use crate::search::VanityResult;

verus! {

/// A search that cannot start as configured.
#[derive(Clone, Copy, PartialEq, Eq, Structural, Debug)]
pub enum ConfigError {
    /// Asked for no results at all.
    ZeroTarget,
    /// The chosen accelerator is not among the devices there are.
    InvalidDevice { index: usize, available: usize },
}

/// Where candidates come from.
#[derive(Clone, Copy, PartialEq, Eq, Structural, Debug)]
pub enum SearchMode {
    /// CPU workers alone.
    CpuOnly,
    /// One thread drives the accelerator `device`, beside the CPU workers.
    Hybrid { device: usize },
}

/// The worker pool a search starts, and the CPU threads it was planned for.
#[derive(Clone, Copy, PartialEq, Eq, Structural, Debug)]
pub struct SearchPlan {
    pub mode: SearchMode,
    pub cpu_workers: usize,
    pub cpu_threads: usize,
}

/// Every CPU thread works when no accelerator does; beside one, half of them
/// (at least one) do.
pub open spec fn workers_for(mode: SearchMode, cpu_threads: usize) -> usize {
    match mode {
        SearchMode::CpuOnly => if cpu_threads == 0 {
            1
        } else {
            cpu_threads
        },
        SearchMode::Hybrid { .. } => if cpu_threads / 2 == 0 {
            1
        } else {
            (cpu_threads / 2) as usize
        },
    }
}

/// The plan for the requested device: CPU alone when none is asked for or no
/// accelerator can be used at all; the device with half the CPU threads when
/// it exists; a configuration error when it does not.
pub open spec fn plan_of(device: Option<usize>, available: Option<usize>, cpu_threads: usize) -> Result<
    SearchPlan,
    ConfigError,
> {
    match (device, available) {
        (Some(i), Some(n)) => if i < n {
            Ok(
                SearchPlan {
                    mode: SearchMode::Hybrid { device: i },
                    cpu_workers: workers_for(SearchMode::Hybrid { device: i }, cpu_threads),
                    cpu_threads,
                },
            )
        } else {
            Err(ConfigError::InvalidDevice { index: i, available: n })
        },
        _ => Ok(cpu_only_plan(cpu_threads)),
    }
}

pub open spec fn cpu_only_plan(cpu_threads: usize) -> SearchPlan {
    SearchPlan {
        mode: SearchMode::CpuOnly,
        cpu_workers: workers_for(SearchMode::CpuOnly, cpu_threads),
        cpu_threads,
    }
}

impl SearchPlan {
    /// The CPU-only plan, which is also what a search falls back to when its
    /// accelerator fails.
    pub fn cpu_only(cpu_threads: usize) -> (r: SearchPlan)
        ensures
            r == cpu_only_plan(cpu_threads),
    {
        SearchPlan {
            mode: SearchMode::CpuOnly,
            cpu_workers: if cpu_threads == 0 {
                1
            } else {
                cpu_threads
            },
            cpu_threads,
        }
    }

    /// Chooses the worker pool. `available` is the number of accelerator
    /// devices, or none when no accelerator can be used.
    pub fn select(device: Option<usize>, available: Option<usize>, cpu_threads: usize) -> (r:
        Result<SearchPlan, ConfigError>)
        ensures
            r == plan_of(device, available, cpu_threads),
    {
        match (device, available) {
            (Some(i), Some(n)) => {
                if i < n {
                    let half = cpu_threads / 2;
                    Ok(
                        SearchPlan {
                            mode: SearchMode::Hybrid { device: i },
                            cpu_workers: if half == 0 {
                                1
                            } else {
                                half
                            },
                            cpu_threads,
                        },
                    )
                } else {
                    Err(ConfigError::InvalidDevice { index: i, available: n })
                }
            },
            _ => Ok(SearchPlan::cpu_only(cpu_threads)),
        }
    }

    /// The plan after the accelerator failed: CPU alone, every thread working.
    pub fn degrade(&self) -> (r: SearchPlan)
        ensures
            r == cpu_only_plan(self.cpu_threads),
    {
        SearchPlan::cpu_only(self.cpu_threads)
    }
}

/// Relies on `num_cpus::get`: the number of CPUs this process may use, which
/// is documented to be at least one.
#[verifier::external_body]
pub(crate) fn cpu_count() -> (r: usize)
    ensures
        r >= 1,
{
    num_cpus::get()
}

/// Where the accelerator-driving worker takes its seeds from.
#[derive(Clone, Copy, PartialEq, Eq, Structural, Debug)]
pub enum SeedSource {
    Device,
    Cpu,
}

impl SeedSource {
    /// The source for the next batch, after a request of `requested` seeds
    /// from the device delivered `delivered` of them (none when it failed).
    /// A device that fails or delivers a short batch is not asked again: the
    /// worker goes on with CPU seeds.
    pub fn after_device_batch(self, delivered: Option<usize>, requested: usize) -> (r: SeedSource)
        ensures
            r == (if self == SeedSource::Device && delivered == Some(requested) {
                SeedSource::Device
            } else {
                SeedSource::Cpu
            }),
    {
        match (self, delivered) {
            (SeedSource::Device, Some(n)) => if n == requested {
                SeedSource::Device
            } else {
                SeedSource::Cpu
            },
            _ => SeedSource::Cpu,
        }
    }
}

/// Candidates a CPU worker draws per batch when the CPU searches alone.
pub const CPU_ONLY_BATCH: usize = 1_000_000;

/// Candidates a CPU worker draws per batch beside the accelerator.
pub const HYBRID_CPU_BATCH: usize = 100_000;

/// The usual batch of a CPU worker in the given mode.
pub open spec fn base_batch(mode: SearchMode) -> usize {
    match mode {
        SearchMode::CpuOnly => CPU_ONLY_BATCH,
        SearchMode::Hybrid { .. } => HYBRID_CPU_BATCH,
    }
}

/// A CPU worker's batch: the usual one for the mode, raised to the target
/// when that is larger, so that in random mode, where every candidate
/// matches, the first batch already meets the target.
pub fn cpu_batch_size(mode: SearchMode, target: usize) -> (r: usize)
    ensures
        r == if target > base_batch(mode) {
            target
        } else {
            base_batch(mode)
        },
{
    let usual = match mode {
        SearchMode::CpuOnly => CPU_ONLY_BATCH,
        SearchMode::Hybrid { .. } => HYBRID_CPU_BATCH,
    };
    if target > usual {
        target
    } else {
        usual
    }
}

/// Where the orchestrator stands once a search has started.
#[derive(Clone, Copy, PartialEq, Eq, Structural, Debug)]
pub enum Phase {
    /// Taking results until this run has found its target.
    Running,
    /// The target is met: the workers are being told to stop.
    Draining,
    /// The workers are gone and the results are final.
    Done,
}

/// What the orchestrator does with a result it has received.
#[derive(Clone, Copy, PartialEq, Eq, Structural, Debug)]
pub enum Receipt {
    /// Keep it and store the result set.
    Persist,
    /// Keep it, store the result set, and stop the workers: the target is met.
    PersistAndStop,
    /// Drop it: the target was already met.
    Ignore,
}

/// The orchestrator's state: the result set (results loaded from an earlier
/// run first), how many results this run has found, and its target.
pub struct Aggregator {
    pub results: Vec<VanityResult>,
    pub prior: usize,
    pub found: usize,
    pub target: usize,
    pub phase: Phase,
}

pub struct AggregatorView {
    pub results: Seq<VanityResult>,
    pub prior: nat,
    pub found: nat,
    pub target: nat,
    pub phase: Phase,
}

impl View for Aggregator {
    type V = AggregatorView;

    open spec fn view(&self) -> AggregatorView {
        AggregatorView {
            results: self.results@,
            prior: self.prior as nat,
            found: self.found as nat,
            target: self.target as nat,
            phase: self.phase,
        }
    }
}

impl AggregatorView {
    /// The result set holds the earlier results and this run's finds, which
    /// never outnumber the target; the run is taking results exactly while
    /// the target is not met.
    pub open spec fn wf(self) -> bool {
        &&& self.target > 0
        &&& self.prior + self.found == self.results.len()
        &&& self.found <= self.target
        &&& (self.phase == Phase::Running <==> self.found < self.target)
    }

    /// What receiving `r` does to the state.
    pub open spec fn after_receive(self, r: VanityResult) -> AggregatorView {
        if self.phase == Phase::Running {
            AggregatorView {
                results: self.results.push(r),
                found: self.found + 1,
                phase: if self.found + 1 == self.target {
                    Phase::Draining
                } else {
                    Phase::Running
                },
                ..self
            }
        } else {
            self
        }
    }

    /// What the orchestrator does on receiving a result.
    pub open spec fn receipt(self) -> Receipt {
        if self.phase != Phase::Running {
            Receipt::Ignore
        } else if self.found + 1 == self.target {
            Receipt::PersistAndStop
        } else {
            Receipt::Persist
        }
    }

    /// The state after receiving the results `rs`, in order.
    pub open spec fn after_all(self, rs: Seq<VanityResult>) -> AggregatorView
        decreases rs.len(),
    {
        if rs.len() == 0 {
            self
        } else {
            self.after_all(rs.drop_last()).after_receive(rs.last())
        }
    }
}

impl Aggregator {
    /// Starts a run that is to find `target` new results, after the results
    /// `prior` loaded from an earlier run.
    pub fn start(prior: Vec<VanityResult>, target: usize) -> (r: Result<Aggregator, ConfigError>)
        ensures
            target == 0 <==> r is Err,
            r matches Err(e) ==> e == ConfigError::ZeroTarget,
            r matches Ok(a) ==> {
                &&& a@.wf()
                &&& a@.results == prior@
                &&& a@.prior == prior@.len()
                &&& a@.found == 0
                &&& a@.target == target
                &&& a@.phase == Phase::Running
            },
    {
        if target == 0 {
            return Err(ConfigError::ZeroTarget);
        }
        let n = prior.len();
        Ok(Aggregator { results: prior, prior: n, found: 0, target, phase: Phase::Running })
    }

    /// Takes one result from the channel and says what to do next.
    pub fn receive(&mut self, r: VanityResult) -> (action: Receipt)
        requires
            old(self)@.wf(),
        ensures
            final(self)@ == old(self)@.after_receive(r),
            action == old(self)@.receipt(),
            final(self)@.wf(),
    {
        if self.phase != Phase::Running {
            return Receipt::Ignore;
        }
        self.results.push(r);
        self.found = self.found + 1;
        if self.found == self.target {
            self.phase = Phase::Draining;
            Receipt::PersistAndStop
        } else {
            Receipt::Persist
        }
    }

    /// Marks the workers as gone once the target was met.
    pub fn finish(&mut self)
        ensures
            old(self).phase == Phase::Draining ==> final(self)@ == (AggregatorView {
                phase: Phase::Done,
                ..old(self)@
            }),
            old(self).phase != Phase::Draining ==> final(self)@ == old(self)@,
    {
        if self.phase == Phase::Draining {
            self.phase = Phase::Done;
        }
    }

    pub fn is_running(&self) -> (r: bool)
        ensures
            r == (self.phase == Phase::Running),
    {
        self.phase == Phase::Running
    }
}

/// Receiving results keeps the orchestrator's state sound: a run never keeps
/// more new results than its target, the results it started with stay first
/// and unchanged, results that come once the target is met change nothing,
/// and enough results always bring the run to draining with exactly its
/// target found (so a run that started with `k` results ends with `k` plus
/// its target).
pub proof fn lemma_results_never_exceed_target(s: AggregatorView, rs: Seq<VanityResult>)
    requires
        s.wf(),
    ensures
        s.after_all(rs).wf(),
        s.after_all(rs).results.len() <= s.prior + s.target,
        s.after_all(rs).prior == s.prior,
        s.after_all(rs).target == s.target,
        s.after_all(rs).results.subrange(0, s.results.len() as int) == s.results,
        s.phase != Phase::Running ==> s.after_all(rs) == s,
        s.phase == Phase::Running && rs.len() >= s.target - s.found ==> s.after_all(rs).phase
            == Phase::Draining && s.after_all(rs).found == s.target,
        s.phase == Phase::Running && rs.len() < s.target - s.found ==> s.after_all(rs).found
            == s.found + rs.len(),
    decreases rs.len(),
{
    if rs.len() > 0 {
        let before = rs.drop_last();
        lemma_results_never_exceed_target(s, before);
        let mid = s.after_all(before);
        assert(s.after_all(rs) == mid.after_receive(rs.last()));
        if mid.phase == Phase::Running {
            assert(mid.results.push(rs.last()).subrange(0, s.results.len() as int)
                =~= mid.results.subrange(0, s.results.len() as int));
        }
    } else {
        assert(s.results.subrange(0, s.results.len() as int) =~= s.results);
    }
}

} // verus!
