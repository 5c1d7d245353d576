//! Trying a job again after it failed.
use vstd::prelude::*;

use crate::config::{CommandError, LoadedConfig, OptionValue};

verus! {

/// How often a job that failed is tried again, and how long to wait before that.
#[derive(Debug, Clone, Copy, PartialEq, Eq, Structural)]
pub struct JobRetry {
    /// The most times it is tried again.
    pub limit: u64,
    /// The wait before each of them, in milliseconds.
    pub interval_ms: u64,
}

/// The number of further attempts that a value asks for.
pub open spec fn limit_of(v: Option<OptionValue>) -> u64 {
    match v {
        Some(OptionValue::Integer(n)) => if n > 0 {
            n as u64
        } else {
            0
        },
        _ => 0,
    }
}

/// The wait that a value asks for.
pub open spec fn interval_of(v: Option<OptionValue>) -> u64 {
    match v {
        Some(OptionValue::Time(ms)) => ms,
        _ => 0,
    }
}

impl JobRetry {
    /// Up to `limit` further attempts, each after `interval_ms` milliseconds.
    pub fn new(limit: u64, interval_ms: u64) -> (r: Self)
        ensures
            r.limit == limit,
            r.interval_ms == interval_ms,
    {
        JobRetry { limit, interval_ms }
    }

    /// One attempt and no further one.
    pub fn none() -> (r: Self)
        ensures
            r.limit == 0,
            r.interval_ms == 0,
    {
        JobRetry { limit: 0, interval_ms: 0 }
    }

    /// As `job-retry` and `job-retry-interval` say.
    pub fn from_options(config: &LoadedConfig) -> (r: Self)
        ensures
            r.limit == limit_of(config.option("job-retry"@, None)),
            r.interval_ms == interval_of(config.option("job-retry-interval"@, None)),
    {
        let limit: u64 = match config.options.get("job-retry", None) {
            Some(OptionValue::Integer(n)) => {
                let v: i64 = *n;
                if v > 0 {
                    v as u64
                } else {
                    0
                }
            },
            _ => 0,
        };
        let interval_ms: u64 = match config.options.get("job-retry-interval", None) {
            Some(OptionValue::Time(ms)) => *ms,
            _ => 0,
        };
        JobRetry { limit, interval_ms }
    }
}

/// Whether a job that failed so many times is tried again.
pub open spec fn tried_again(failures: nat, limit: nat) -> bool {
    failures <= limit
}

/// The attempts at one job.
pub struct Attempts {
    retry: JobRetry,
    failures: u64,
}

/// What follows a failed attempt.
pub enum AfterFailure {
    /// Another attempt, once `wait_ms` milliseconds have passed.
    Again { attempts: Attempts, wait_ms: u64 },
    /// Nothing: the job failed with this error.
    GiveUp(CommandError),
}

impl Attempts {
    #[verifier::type_invariant]
    spec fn inv(self) -> bool {
        self.failures <= self.retry.limit
    }

    /// How the job is tried again.
    pub closed spec fn retry(self) -> JobRetry {
        self.retry
    }

    /// How many attempts have failed.
    pub closed spec fn failures(self) -> nat {
        self.failures as nat
    }

    /// No attempt yet.
    pub fn start(retry: JobRetry) -> (r: Self)
        ensures
            r.retry() == retry,
            r.failures() == 0,
    {
        Attempts { retry, failures: 0 }
    }

    /// Takes up that an attempt failed with `error`: the job is tried again as long as it
    /// may be, then it fails with the error of its last attempt.
    pub fn failed(self, error: CommandError) -> (r: AfterFailure)
        ensures
            self.failures() <= self.retry().limit,
            if tried_again(self.failures() + 1, self.retry().limit as nat) {
                &&& r matches AfterFailure::Again { attempts, wait_ms }
                &&& attempts.retry() == self.retry()
                &&& attempts.failures() == self.failures() + 1
                &&& wait_ms == self.retry().interval_ms
            } else {
                r == AfterFailure::GiveUp(error)
            },
    {
        proof {
            use_type_invariant(&self);
        }
        if self.failures < self.retry.limit {
            let wait_ms: u64 = self.retry.interval_ms;
            AfterFailure::Again { attempts: Attempts { retry: self.retry, failures: self.failures + 1 }, wait_ms }
        } else {
            AfterFailure::GiveUp(error)
        }
    }
}

/// How many attempts are made after `failures` failed ones, where `succeeds` says of each
/// attempt, counted from zero, how it ends.
pub open spec fn attempts_after(succeeds: spec_fn(int) -> bool, limit: nat, failures: nat) -> nat
    decreases limit + 1 - failures,
{
    if failures > limit {
        0
    } else if succeeds(failures as int) || !tried_again(failures + 1, limit) {
        1
    } else {
        1 + attempts_after(succeeds, limit, failures + 1)
    }
}

/// A job is attempted once and at most `limit` more times. It is attempted up to its
/// first success; without one, all attempts that it may have are made. So it succeeds
/// if and only if one of those does.
pub proof fn law_attempts_are_bounded(succeeds: spec_fn(int) -> bool, limit: nat)
    ensures
        ({
            let made = attempts_after(succeeds, limit, 0);
            &&& 1 <= made <= limit + 1
            &&& forall|k: int| 0 <= k < made - 1 ==> !#[trigger] succeeds(k)
            &&& succeeds(made - 1) || made == limit + 1
            &&& succeeds(made - 1) <==> exists|k: int| 0 <= k <= limit && #[trigger] succeeds(k)
        }),
{
    lemma_attempts(succeeds, limit, 0);
}

proof fn lemma_attempts(succeeds: spec_fn(int) -> bool, limit: nat, failures: nat)
    requires
        failures <= limit,
    ensures
        ({
            let last = failures + attempts_after(succeeds, limit, failures) - 1;
            &&& failures <= last <= limit
            &&& forall|k: int| failures <= k < last ==> !#[trigger] succeeds(k)
            &&& succeeds(last) || last == limit
        }),
    decreases limit - failures,
{
    if !succeeds(failures as int) && failures < limit {
        lemma_attempts(succeeds, limit, failures + 1);
    }
}

/// Further attempts are as many as `job-retry` gives, none where it gives no positive
/// number, each after the wait that `job-retry-interval` gives.
pub proof fn law_retry_is_as_given(
    config: &LoadedConfig,
    limit: Option<&OptionValue>,
    wait: Option<&OptionValue>,
    r: JobRetry,
    none: JobRetry,
)
    requires
        call_ensures(crate::config::Options::get, (&config.options, "job-retry", None::<u32>), limit),
        call_ensures(crate::config::Options::get, (&config.options, "job-retry-interval", None::<u32>), wait),
        call_ensures(JobRetry::from_options, (config,), r),
        call_ensures(JobRetry::none, (), none),
    ensures
        match limit {
            Some(OptionValue::Integer(n)) => if *n > 0 {
                r.limit == *n
            } else {
                r.limit == 0
            },
            _ => r.limit == 0,
        },
        match wait {
            Some(OptionValue::Time(ms)) => r.interval_ms == *ms,
            _ => r.interval_ms == 0,
        },
        none.limit == 0 && none.interval_ms == 0,
{
}

/// A failed job is tried again while fewer attempts have failed than may be tried again,
/// after the same wait each time; then it ends with the error of its last attempt.
pub proof fn law_failures_are_counted(attempts: Attempts, error: CommandError, r: AfterFailure, retry: JobRetry, fresh: Attempts)
    requires
        call_ensures(Attempts::failed, (attempts, error), r),
        call_ensures(Attempts::start, (retry,), fresh),
    ensures
        fresh.failures() == 0 && fresh.retry() == retry,
        r is Again <==> attempts.failures() < attempts.retry().limit,
        r is Again ==> r->attempts.failures() == attempts.failures() + 1 && r->attempts.retry() == attempts.retry() && r->wait_ms
            == attempts.retry().interval_ms,
        r is GiveUp ==> r->GiveUp_0 == error,
{
}

/// A retry is made of its limit and its wait.
pub proof fn law_new_retry(limit: u64, interval_ms: u64, r: JobRetry)
    requires
        call_ensures(JobRetry::new, (limit, interval_ms), r),
    ensures
        r.limit == limit,
        r.interval_ms == interval_ms,
{
}

}
