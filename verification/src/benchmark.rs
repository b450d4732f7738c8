//! Running a plan: which iteration starts when, and what the run gives.

use vstd::prelude::*;
use crate::actions::{Report, Step};
use crate::config::Config;
use crate::error::{Error, ErrorKind, Failure};
use crate::expandable::nested::{document_compiles, document_steps, filter_of, DEPTH_LIMIT};
use crate::expandable::steps_model;
use crate::reader::Files;
use crate::tags::Tags;
use crate::text::{chars_of, decimal_text, format_i64, parse_u64, parse_u64_spec, string_of};

verus! {

/// A compiled plan.
pub type Benchmark = Vec<Step>;

/// The reports of one iteration.
pub type Reports = Vec<Report>;

/// The timeout of requests where none is asked for, in seconds.
pub const DEFAULT_TIMEOUT_SECONDS: u64 = 10;

/// The timeout of requests that durations are measured against, in seconds.
pub const MAX_TIMEOUT_SECONDS: u64 = 120;

/// What a run gives: the reports of each iteration, in the order in which the
/// iterations ended, and how long the run took, in microseconds.
#[derive(Debug, PartialEq, Eq)]
pub struct BenchmarkResult {
    pub reports: Vec<Reports>,
    pub duration: u64,
}

/// The timeout of requests, in seconds, that the option `timeout` asks for:
/// the default where there is no option; else the number that it is, or the
/// default where it is none, but no less than `MAX_TIMEOUT_SECONDS`.
pub open spec fn timeout_spec(timeout: Option<Seq<char>>) -> u64 {
    match timeout {
        None => DEFAULT_TIMEOUT_SECONDS,
        Some(t) => {
            let asked = match parse_u64_spec(t) {
                Some(n) => n,
                None => DEFAULT_TIMEOUT_SECONDS,
            };
            if asked < MAX_TIMEOUT_SECONDS {
                MAX_TIMEOUT_SECONDS
            } else {
                asked
            }
        },
    }
}

/// The timeout of requests, in seconds, that the option `timeout` asks for.
pub fn request_timeout(timeout: Option<&str>) -> (r: u64)
    ensures
        r == timeout_spec(
            match timeout {
                Some(t) => Some(t@),
                None => None,
            },
        ),
{
    match timeout {
        None => DEFAULT_TIMEOUT_SECONDS,
        Some(t) => {
            let asked = match parse_u64(&chars_of(t)) {
                Some(n) => n,
                None => DEFAULT_TIMEOUT_SECONDS,
            };
            if asked < MAX_TIMEOUT_SECONDS {
                MAX_TIMEOUT_SECONDS
            } else {
                asked
            }
        },
    }
}

/// How many worker threads a run uses: as many as the machine has processors,
/// but no more than iterations run at a time.
pub fn worker_threads(cpus: usize, concurrency: i64) -> (r: usize)
    ensures
        r == if concurrency < 0 {
            0
        } else if cpus <= concurrency {
            cpus as int
        } else {
            concurrency as int
        },
{
    if concurrency < 0 {
        0
    } else if (cpus as u64) <= (concurrency as u64) {
        cpus
    } else {
        concurrency as usize
    }
}

/// What compiling the plan at `path` gives: the steps of the entries under
/// `plan`; a plan without steps is refused.
pub open spec fn compiles(
    path: Seq<char>,
    tags: Tags,
    files: Files,
    r: Result<Seq<crate::actions::StepView>, Failure>,
) -> bool {
    exists|steps: Result<Seq<crate::actions::StepView>, Failure>|
        #![trigger checked(path, steps)]
        document_compiles(path, Some("plan"@), filter_of(tags), files, DEPTH_LIMIT as nat, steps)
            && r == checked(path, steps)
}

/// The steps `steps`, unless there are none.
pub open spec fn checked(path: Seq<char>, steps: Result<Seq<crate::actions::StepView>, Failure>)
    -> Result<Seq<crate::actions::StepView>, Failure> {
    match steps {
        Ok(s) => if s.len() == 0 {
            Err((ErrorKind::EmptyBenchmark, path))
        } else {
            Ok(s)
        },
        Err(f) => Err(f),
    }
}

/// Compiles the plan at `benchmark_path`. The documents and files that it
/// draws on are taken from `files`; where one is missing, the error says which.
pub fn compile(benchmark_path: &str, tags: &Tags, files: &Files) -> (r: Result<Benchmark, Error>)
    ensures
        compiles(benchmark_path@, *tags, *files, steps_model(r)),
{
    let steps = document_steps(benchmark_path, Some("plan"), tags, files, DEPTH_LIMIT);
    let ghost model = steps_model(steps);
    let r = match steps {
        Ok(s) => {
            if s.len() == 0 {
                Err(Error::about(ErrorKind::EmptyBenchmark, benchmark_path))
            } else {
                Ok(s)
            }
        },
        Err(e) => Err(e),
    };
    assert(steps_model(r) == checked(benchmark_path@, model));
    r
}

/// How many seconds after its admission iteration `i` of `iterations` starts,
/// the iterations being spread over `rampup` seconds: `i` times the whole
/// number of seconds that falls to one iteration.
pub open spec fn ramp_delay(rampup: int, iterations: int, i: int) -> int {
    if rampup > 0 && iterations > 0 {
        (rampup / iterations) * i
    } else {
        0
    }
}

/// The starts of the iterations are spread evenly over the ramp-up: each
/// iteration starts one share of it after the one before, none before the run
/// starts and none after the ramp-up is over.
pub proof fn law_ramp_up(rampup: int, iterations: int, i: int)
    requires
        rampup > 0,
        iterations > 0,
        0 <= i < iterations,
    ensures
        ramp_delay(rampup, iterations, 0) == 0,
        ramp_delay(rampup, iterations, i + 1) == ramp_delay(rampup, iterations, i) + rampup
            / iterations,
        0 <= ramp_delay(rampup, iterations, i) <= rampup,
{
    let share = rampup / iterations;
    assert(share * (i + 1) == share * i + share) by (nonlinear_arith);
    assert(0 <= share * i <= rampup) by (nonlinear_arith)
        requires
            share == rampup / iterations,
            0 <= i < iterations,
            0 < rampup,
            0 < iterations,
    {
    }
}

/// What the scheduler tells the run to do next.
#[derive(Clone, Copy, Debug, PartialEq, Eq, Structural)]
pub enum Admission {
    /// Start the iteration `iteration`, which first waits `delay` seconds.
    Start { iteration: i64, delay: u64 },
    /// As many iterations are running as may; wait for one to end.
    Wait,
    /// All iterations have ended.
    Done,
}

/// Decides which iteration starts when: never more than `concurrency` at a
/// time, each as soon as there is room for it, in the order of their numbers.
pub struct Scheduler {
    concurrency: i64,
    iterations: i64,
    rampup: i64,
    started: i64,
    finished: i64,
    reports: Vec<Reports>,
}

impl Scheduler {
    #[verifier::type_invariant]
    spec fn well_formed(self) -> bool {
        &&& 1 <= self.concurrency <= self.iterations
        &&& 0 <= self.rampup
        &&& 0 <= self.finished <= self.started <= self.iterations
        &&& self.started - self.finished <= self.concurrency
        &&& self.reports@.len() == self.finished
    }

    /// How many iterations may run at a time.
    pub closed spec fn concurrency(&self) -> int {
        self.concurrency as int
    }

    /// How many iterations the run has.
    pub closed spec fn iterations(&self) -> int {
        self.iterations as int
    }

    /// Over how many seconds the starts of the iterations are spread.
    pub closed spec fn rampup(&self) -> int {
        self.rampup as int
    }

    /// How many iterations have been started.
    pub closed spec fn started(&self) -> int {
        self.started as int
    }

    /// How many iterations have ended.
    pub closed spec fn finished(&self) -> int {
        self.finished as int
    }

    /// The reports of the iterations that have ended, in the order in which
    /// they ended.
    pub closed spec fn collected(&self) -> Seq<Reports> {
        self.reports@
    }

    /// How many iterations have been started and how many have ended. Whatever
    /// was asked of the scheduler before: no more are running than may, no more
    /// are started than the run has, and the reports of all that have ended
    /// are kept.
    pub fn progress(&self) -> (r: (i64, i64))
        ensures
            r.0 == self.started(),
            r.1 == self.finished(),
            1 <= self.concurrency() <= self.iterations(),
            0 <= self.rampup(),
            0 <= self.finished() <= self.started() <= self.iterations(),
            self.started() - self.finished() <= self.concurrency(),
            self.collected().len() == self.finished(),
    {
        proof {
            use_type_invariant(self);
        }
        (self.started, self.finished)
    }

    /// A scheduler for `iterations` iterations, `concurrency` at a time,
    /// spread over `rampup` seconds. The concurrency must be at least 1 and at
    /// most the number of iterations; a negative ramp-up counts as none.
    pub fn new(concurrency: i64, iterations: i64, rampup: i64) -> (r: Result<Scheduler, Error>)
        ensures
            match r {
                Ok(s) => {
                    &&& 1 <= concurrency <= iterations
                    &&& s.concurrency() == concurrency
                    &&& s.iterations() == iterations
                    &&& s.rampup() == if rampup < 0 {
                        0
                    } else {
                        rampup as int
                    }
                    &&& s.started() == 0
                    &&& s.finished() == 0
                },
                Err(e) => if concurrency < 1 {
                    e@ == (ErrorKind::NoConcurrency, decimal_text(concurrency as int))
                } else {
                    concurrency > iterations && e@ == (
                        ErrorKind::ConcurrencyTooHigh,
                        decimal_text(concurrency as int),
                    )
                },
            },
    {
        if concurrency < 1 {
            return Err(Error::new(ErrorKind::NoConcurrency, string_of(&format_i64(concurrency))));
        }
        if concurrency > iterations {
            return Err(
                Error::new(ErrorKind::ConcurrencyTooHigh, string_of(&format_i64(concurrency))),
            );
        }
        Ok(
            Scheduler {
                concurrency,
                iterations,
                rampup: if rampup < 0 {
                    0
                } else {
                    rampup
                },
                started: 0,
                finished: 0,
                reports: Vec::new(),
            },
        )
    }

    /// A scheduler for the run that `config` describes.
    pub fn for_config(config: &Config) -> (r: Result<Scheduler, Error>)
        ensures
            match r {
                Ok(s) => {
                    &&& 1 <= config.concurrency <= config.iterations
                    &&& s.concurrency() == config.concurrency
                    &&& s.iterations() == config.iterations
                    &&& s.started() == 0
                    &&& s.finished() == 0
                },
                Err(_) => config.concurrency < 1 || config.concurrency > config.iterations,
            },
    {
        Scheduler::new(config.concurrency, config.iterations, config.rampup)
    }

    /// A scheduler for a run that captures one iteration, whatever the plan
    /// says of iterations, concurrency and ramp-up.
    pub fn capture() -> (r: Scheduler)
        ensures
            r.concurrency() == 1,
            r.iterations() == 1,
            r.rampup() == 0,
            r.started() == 0,
            r.finished() == 0,
    {
        Scheduler {
            concurrency: 1,
            iterations: 1,
            rampup: 0,
            started: 0,
            finished: 0,
            reports: Vec::new(),
        }
    }

    /// How many iterations are running.
    pub fn running(&self) -> (r: i64)
        ensures
            r == self.started() - self.finished(),
            0 <= r <= self.concurrency(),
    {
        proof {
            use_type_invariant(self);
        }
        self.started - self.finished
    }

    /// What to do next. An iteration is started where not all are started and
    /// fewer are running than may; its number is the number of iterations
    /// started before it, and it first waits its share of the ramp-up. The run
    /// is done when all iterations have ended.
    pub fn next(&mut self) -> (r: Admission)
        ensures
            final(self).concurrency() == old(self).concurrency(),
            final(self).iterations() == old(self).iterations(),
            final(self).rampup() == old(self).rampup(),
            final(self).finished() == old(self).finished(),
            final(self).collected() == old(self).collected(),
            final(self).started() - final(self).finished() <= final(self).concurrency(),
            r == if old(self).finished() == old(self).iterations() {
                Admission::Done
            } else if old(self).started() < old(self).iterations() && old(self).started() - old(
                self,
            ).finished() < old(self).concurrency() {
                (Admission::Start {
                    iteration: old(self).started() as i64,
                    delay: ramp_delay(
                        old(self).rampup(),
                        old(self).iterations(),
                        old(self).started(),
                    ) as u64,
                })
            } else {
                Admission::Wait
            },
            final(self).started() == if r is Start {
                old(self).started() + 1
            } else {
                old(self).started()
            },
    {
        proof {
            use_type_invariant(&*self);
        }
        if self.finished == self.iterations {
            Admission::Done
        } else if self.started < self.iterations && self.started - self.finished
            < self.concurrency {
            let iteration = self.started;
            let delay: u64 = if self.rampup > 0 {
                let share = self.rampup / self.iterations;
                assert(0 <= share * iteration <= self.rampup) by (nonlinear_arith)
                    requires
                        share == self.rampup / self.iterations,
                        0 <= iteration < self.iterations,
                        0 < self.rampup,
                {
                }
                (share * iteration) as u64
            } else {
                0
            };
            self.started = self.started + 1;
            Admission::Start { iteration, delay }
        } else {
            Admission::Wait
        }
    }

    /// Takes the reports of an iteration that has ended, and gives the
    /// scheduler back with them. Where no iteration is running, they are
    /// refused, and the scheduler comes back as it was.
    pub fn finish(self, reports: Reports) -> (r: (Scheduler, bool))
        ensures
            r.0.concurrency() == self.concurrency(),
            r.0.iterations() == self.iterations(),
            r.0.rampup() == self.rampup(),
            r.0.started() == self.started(),
            r.1 == (self.finished() < self.started()),
            r.1 ==> r.0.finished() == self.finished() + 1 && r.0.collected()
                == self.collected().push(reports),
            !r.1 ==> r.0.finished() == self.finished() && r.0.collected() == self.collected(),
    {
        proof {
            use_type_invariant(&self);
        }
        if self.finished < self.started {
            let Scheduler { concurrency, iterations, rampup, started, finished, reports: held } =
                self;
            let mut held = held;
            held.push(reports);
            (
                Scheduler {
                    concurrency,
                    iterations,
                    rampup,
                    started,
                    finished: finished + 1,
                    reports: held,
                },
                true,
            )
        } else {
            (self, false)
        }
    }

    /// Whether all iterations have ended.
    pub fn is_done(&self) -> (r: bool)
        ensures
            r == (self.finished() == self.iterations()),
    {
        self.finished == self.iterations
    }

    /// What the run gives, after `duration` microseconds: the reports of the
    /// iterations that have ended.
    pub fn into_result(self, duration: u64) -> (r: BenchmarkResult)
        ensures
            r.reports@ == self.collected(),
            r.reports@.len() == self.finished(),
            self.finished() == self.iterations() ==> r.reports@.len() == self.iterations(),
            r.duration == duration,
    {
        proof {
            use_type_invariant(&self);
        }
        BenchmarkResult { reports: self.reports, duration }
    }
}

} // verus!
