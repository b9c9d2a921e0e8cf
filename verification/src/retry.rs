//! The retrying transaction executor: exponential backoff with jitter
//! around a user transaction body.
//!
//! The executor never sleeps or talks to the server itself: it computes
//! each delay, classifies each error, and decides — retry after this many
//! milliseconds, or give up — and the caller runs the attempts. The
//! decision refuses a retry as soon as the time elapsed since the first
//! attempt reaches the retry budget, so the caller stops within the
//! budget plus one full attempt ([`lemma_retry_window`]).
use vstd::prelude::*;
use vstd::arithmetic::div_mod::{lemma_div_is_ordered, lemma_div_multiples_vanish};
use vstd::arithmetic::mul::lemma_mul_inequality;
use crate::config::Config;
use crate::errors::Error;
use crate::value::{byte_models, bytes_eq};

verus! {

/// The largest backoff delay the schedule will ever produce.
pub const MAX_RETRY_DELAY_MS: u64 = 0x3FFF_FFFF_FFFF_FFFF;

/// The backoff delay capped at [`MAX_RETRY_DELAY_MS`].
pub open spec fn capped(delay_ms: u64) -> int {
    if delay_ms > MAX_RETRY_DELAY_MS {
        MAX_RETRY_DELAY_MS as int
    } else {
        delay_ms as int
    }
}

/// What the executor decided after a failed attempt.
pub enum RetryDecision {
    /// Sleep this long, then attempt again with the next base delay.
    Retry { sleep_ms: u64, next_delay_ms: u64 },
    /// The retry budget is spent: surface the last error.
    GiveUp,
}

/// Runs transaction bodies again after retriable failures, delaying each
/// attempt by an exponentially growing, jittered backoff, until the retry
/// budget is spent.
pub struct TransactionExecutor {
    pub max_retry_time_ms: u64,
    pub initial_retry_delay_ms: u64,
    pub multiplier_percent: u64,
    pub jitter_percent: u64,
    pub retriable_codes: Vec<Vec<u8>>,
}

/// Whether another attempt may start at `now_ms`: the time since the
/// first attempt is still below the retry budget.
pub open spec fn may_retry(ex: TransactionExecutor, start_ms: int, now_ms: int) -> bool {
    now_ms - start_ms < ex.max_retry_time_ms
}

/// Whether an error may be retried: transient connection failures always,
/// and a server failure exactly when its code stands in the injected
/// table. Client usage, serialization and authentication errors never.
pub open spec fn spec_retriable(e: Error, codes: Seq<Seq<u8>>) -> bool {
    match e {
        Error::IOError { .. } => true,
        Error::ConnectionError => true,
        Error::CommunicationError => true,
        Error::Server { code, .. } => codes.contains(code@),
        _ => false,
    }
}

/// Relies on `rand::random_range`: a uniform draw from a non-empty
/// half-open range lies in that range.
#[verifier::external_body]
fn random_in_range(lo: u64, hi: u64) -> (r: u64)
    requires
        lo < hi,
    ensures
        lo <= r < hi,
{
    rand::random_range(lo..hi)
}

impl TransactionExecutor {
    /// The jitter the executor may add to or subtract from a delay is a
    /// proper fraction of it.
    pub open spec fn wf(self) -> bool {
        self.jitter_percent <= 100
    }

    /// An executor tuned by the configuration, with the injected table of
    /// retriable server codes.
    pub fn new(config: &Config, retriable_codes: Vec<Vec<u8>>) -> (ex: TransactionExecutor)
        requires
            config.retry_delay_jitter_percent <= 100,
        ensures
            ex.wf(),
            ex.max_retry_time_ms == config.max_retry_time_ms,
            ex.initial_retry_delay_ms == config.initial_retry_delay_ms,
            ex.multiplier_percent == config.retry_delay_multiplier_percent,
            ex.jitter_percent == config.retry_delay_jitter_percent,
            ex.retriable_codes == retriable_codes,
    {
        TransactionExecutor {
            max_retry_time_ms: config.max_retry_time_ms as u64,
            initial_retry_delay_ms: config.initial_retry_delay_ms as u64,
            multiplier_percent: config.retry_delay_multiplier_percent as u64,
            jitter_percent: config.retry_delay_jitter_percent as u64,
            retriable_codes,
        }
    }

    /// The jittered sleep before the next attempt: a uniform draw from
    /// the interval of one jitter width around the capped delay. With no
    /// jitter width the delay itself.
    pub fn compute_delay_with_jitter(&self, delay_ms: u64) -> (r: u64)
        requires
            self.wf(),
        ensures
            ({
                let d = capped(delay_ms);
                let j = d * self.jitter_percent / 100;
                &&& (j > 0 ==> d - j <= r < d + j)
                &&& (j == 0 ==> r == d)
            }),
    {
        let d: u64 = if delay_ms > MAX_RETRY_DELAY_MS {
            MAX_RETRY_DELAY_MS
        } else {
            delay_ms
        };
        proof {
            lemma_mul_inequality(self.jitter_percent as int, 100, d as int);
            lemma_div_is_ordered(
                d as int * self.jitter_percent as int,
                d as int * 100,
                100,
            );
            lemma_div_multiples_vanish(d as int, 100);
        }
        let j: u64 = ((d as u128 * self.jitter_percent as u128) / 100) as u64;
        if j == 0 {
            d
        } else {
            random_in_range(d - j, d + j)
        }
    }

    /// The base delay of the attempt after this one: the delay grown by
    /// the multiplier, capped at [`MAX_RETRY_DELAY_MS`].
    pub fn next_delay_ms(&self, delay_ms: u64) -> (r: u64)
        ensures
            r == (if delay_ms * self.multiplier_percent / 100 > MAX_RETRY_DELAY_MS {
                MAX_RETRY_DELAY_MS as int
            } else {
                delay_ms * self.multiplier_percent / 100
            }),
    {
        proof {
            let dm = delay_ms as int;
            let mp = self.multiplier_percent as int;
            assert(dm * mp < 0x1_0000_0000_0000_0000_0000_0000_0000_0000) by (nonlinear_arith)
                requires
                    0 <= dm < 0x1_0000_0000_0000_0000,
                    0 <= mp < 0x1_0000_0000_0000_0000,
            ;
        }
        let p: u128 = (delay_ms as u128) * (self.multiplier_percent as u128) / 100;
        if p > MAX_RETRY_DELAY_MS as u128 {
            MAX_RETRY_DELAY_MS
        } else {
            p as u64
        }
    }

    /// Decides after a failed attempt at `now_ms`: another attempt — with
    /// its jittered sleep and the next base delay — exactly while the
    /// time since `start_ms` is below the retry budget, and giving up the
    /// moment it is not.
    pub fn retry_decision(&self, start_ms: u64, now_ms: u64, delay_ms: u64) -> (d: RetryDecision)
        requires
            self.wf(),
            start_ms <= now_ms,
        ensures
            d is GiveUp <==> !may_retry(*self, start_ms as int, now_ms as int),
            ({
                match d {
                    RetryDecision::Retry { sleep_ms, next_delay_ms } => {
                        let c = capped(delay_ms);
                        let j = c * self.jitter_percent / 100;
                        &&& (j > 0 ==> c - j <= sleep_ms < c + j)
                        &&& (j == 0 ==> sleep_ms == c)
                        &&& next_delay_ms == (if delay_ms * self.multiplier_percent / 100
                            > MAX_RETRY_DELAY_MS {
                            MAX_RETRY_DELAY_MS as int
                        } else {
                            delay_ms * self.multiplier_percent / 100
                        })
                    },
                    RetryDecision::GiveUp => true,
                }
            }),
    {
        if now_ms - start_ms < self.max_retry_time_ms {
            RetryDecision::Retry {
                sleep_ms: self.compute_delay_with_jitter(delay_ms),
                next_delay_ms: self.next_delay_ms(delay_ms),
            }
        } else {
            RetryDecision::GiveUp
        }
    }

    /// Whether the error allows another attempt, exactly as
    /// [`spec_retriable`] classifies it against the injected table.
    pub fn is_retriable(&self, e: &Error) -> (r: bool)
        ensures
            r == spec_retriable(*e, byte_models(self.retriable_codes@)),
    {
        let ghost codes = byte_models(self.retriable_codes@);
        match e {
            Error::IOError { .. } => true,
            Error::ConnectionError => true,
            Error::CommunicationError => true,
            Error::Server { code, .. } => {
                let n = self.retriable_codes.len();
                let mut i: usize = 0;
                while i < n
                    invariant
                        e matches Error::Server { code: c2, message: m2 } && c2@ == code@,
                        n == self.retriable_codes@.len(),
                        codes == byte_models(self.retriable_codes@),
                        codes.len() == n,
                        i <= n,
                        forall|j: int| 0 <= j < i ==> codes[j] != code@,
                    decreases n - i,
                {
                    if bytes_eq(self.retriable_codes[i].as_slice(), code.as_slice()) {
                        proof {
                            assert(codes[i as int] == code@);
                            assert(codes.contains(code@));
                        }
                        return true;
                    }
                    i = i + 1;
                }
                proof {
                    assert(!codes.contains(code@)) by {
                        if codes.contains(code@) {
                            let k = choose|k: int| 0 <= k < codes.len() && codes[k] == code@;
                            assert(codes[k] == code@);
                        }
                    }
                }
                false
            },
            _ => false,
        }
    }
}

/// The executor stops in time: on any run of attempts whose retries were
/// each granted at their decision time, every attempt after the first
/// began before the retry budget had elapsed — so the run ends within the
/// budget plus one full attempt of the first attempt's start.
pub proof fn lemma_retry_window(ex: TransactionExecutor, start_ms: int, attempts: Seq<int>)
    requires
        forall|k: int| 1 <= k < attempts.len() ==> may_retry(ex, start_ms, #[trigger] attempts[k]),
    ensures
        forall|k: int| 1 <= k < attempts.len() ==> #[trigger] attempts[k] < start_ms
            + ex.max_retry_time_ms,
{
}

} // verus!
