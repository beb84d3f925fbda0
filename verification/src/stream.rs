//! Per-stream helpers: line trimming for raw log bytes, open-error
//! classification, and the reconnect backoff schedule.

use vstd::prelude::*;
use vstd::arithmetic::power2::{lemma2_to64, lemma2_to64_rest, lemma_pow2_unfold, pow2};
use vstd::slice::slice_subrange;

verus! {

/// Upper bound accepted for the configured maximum backoff delay.
pub const BACKOFF_CAP_MS: u64 = 3600000;

/// Width of the additive jitter window: each delay gets a jitter in
/// [0, JITTER_MS).
pub const JITTER_MS: u64 = 250;

/// How a failed log-stream open is treated.
#[derive(Debug, Clone, Copy, PartialEq, Eq)]
pub enum ErrorClass {
    /// The server denied access: terminal for the follower, and a reason to
    /// shut the program down.
    Auth,
    /// The target is gone: terminal for the follower; the watcher drives the
    /// lifecycle from here.
    NotFound,
    /// Transient: reconnect after a backoff delay.
    Retry,
}

/// Classify a failed open by its HTTP status: 401/403 are auth failures,
/// 404 is not-found, everything else (429, 5xx, no status at all: a network
/// error) is retried.
pub fn classify_open_status(status: Option<u16>) -> (r: ErrorClass)
    ensures
        (match status {
            Some(401u16) | Some(403u16) => r == ErrorClass::Auth,
            Some(404u16) => r == ErrorClass::NotFound,
            _ => r == ErrorClass::Retry,
        }),
{
    match status {
        Some(401) | Some(403) => ErrorClass::Auth,
        Some(404) => ErrorClass::NotFound,
        _ => ErrorClass::Retry,
    }
}

/// The base delay (before jitter) of the attempt numbered `attempt`
/// (starting at 0) since the last successful open: exponential doubling
/// from `min`, capped at `max`.
pub open spec fn backoff_base(min: nat, max: nat, attempt: nat) -> nat {
    if min * pow2(attempt) <= max {
        min * pow2(attempt)
    } else {
        max
    }
}

/// Reconnect backoff: exponential doubling from a minimum delay, capped at
/// a maximum, with additive jitter in [0, JITTER_MS) so that
/// simultaneously-reconnecting followers do not synchronise. A successful
/// open resets the schedule to the minimum.
pub struct Backoff {
    min_ms: u64,
    max_ms: u64,
    cur_ms: u64,
    attempt: u64,
    seed: u64,
}

/// Fresh jitter below JITTER_MS, advancing a small linear-congruential
/// state.
fn next_jitter(seed: &mut u64) -> (j: u64)
    ensures
        j < JITTER_MS,
{
    *seed = seed.wrapping_mul(6364136223846793005).wrapping_add(1442695040888963407);
    (*seed >> 33) % JITTER_MS
}

impl Backoff {
    /// The configured minimum delay.
    pub closed spec fn min_spec(&self) -> nat {
        self.min_ms as nat
    }

    /// The configured maximum delay.
    pub closed spec fn max_spec(&self) -> nat {
        self.max_ms as nat
    }

    /// Delays handed out since the last reset (clamped once the base delay
    /// has surely reached the cap).
    pub closed spec fn attempt_spec(&self) -> nat {
        self.attempt as nat
    }

    /// The schedule is valid: bounds ordered and the stored current delay
    /// is exactly the base delay of the next attempt.
    pub closed spec fn wf(&self) -> bool {
        &&& 1 <= self.min_ms
        &&& self.min_ms <= self.max_ms
        &&& self.max_ms <= BACKOFF_CAP_MS
        &&& self.attempt <= 64
        &&& self.cur_ms == backoff_base(self.min_spec(), self.max_spec(), self.attempt_spec())
    }

    /// A schedule starting at `min_ms`; `seed` individualises the jitter.
    pub fn new(min_ms: u64, max_ms: u64, seed: u64) -> (r: Backoff)
        requires
            1 <= min_ms <= max_ms <= BACKOFF_CAP_MS,
        ensures
            r.wf(),
            r.min_spec() == min_ms,
            r.max_spec() == max_ms,
            r.attempt_spec() == 0,
    {
        proof {
            lemma2_to64_rest();
            lemma2_to64();
            assert(pow2(0) == 1);
        }
        Backoff { min_ms, max_ms, cur_ms: min_ms, attempt: 0, seed }
    }

    /// Back to the minimum delay, after a successful open.
    pub fn reset(&mut self)
        requires
            old(self).wf(),
        ensures
            final(self).wf(),
            final(self).min_spec() == old(self).min_spec(),
            final(self).max_spec() == old(self).max_spec(),
            final(self).attempt_spec() == 0,
    {
        self.cur_ms = self.min_ms;
        self.attempt = 0;
        proof {
            lemma2_to64();
            assert(pow2(0) == 1);
        }
    }

    /// The delay before the next reconnect: the base delay of this attempt
    /// plus a jitter below JITTER_MS; the base then doubles, capped at the
    /// maximum. For the n-th delay since a reset (n starting at 1) the base
    /// is min·2^(n-1), capped at max, so the delay lies in
    /// [min·2^(n-1), min·2^(n-1) + JITTER_MS), itself capped below
    /// max + JITTER_MS.
    pub fn next_delay_ms(&mut self) -> (d: u64)
        requires
            old(self).wf(),
        ensures
            final(self).wf(),
            final(self).min_spec() == old(self).min_spec(),
            final(self).max_spec() == old(self).max_spec(),
            backoff_base(old(self).min_spec(), old(self).max_spec(), old(self).attempt_spec())
                <= d < backoff_base(
                old(self).min_spec(),
                old(self).max_spec(),
                old(self).attempt_spec(),
            ) + JITTER_MS,
            d < old(self).max_spec() + JITTER_MS,
            final(self).attempt_spec() == (if old(self).attempt_spec() < 64 {
                old(self).attempt_spec() + 1
            } else {
                old(self).attempt_spec()
            }),
    {
        let ghost min = self.min_spec();
        let ghost max = self.max_spec();
        let ghost a = self.attempt_spec();
        let jitter = next_jitter(&mut self.seed);
        let d = self.cur_ms + jitter;
        let dbl = self.cur_ms * 2;
        self.cur_ms = if dbl > self.max_ms {
            self.max_ms
        } else {
            dbl
        };
        if self.attempt < 64 {
            self.attempt = self.attempt + 1;
        }
        proof {
            lemma_pow2_unfold(a + 1);
            assert(min * (2 * pow2(a)) == 2 * (min * pow2(a))) by (nonlinear_arith);
            if a < 64 {
                if min * pow2(a) <= max {
                    assert(backoff_base(min, max, a) == min * pow2(a));
                } else {
                    assert(min * pow2(a + 1) >= min * pow2(a)) by (nonlinear_arith)
                        requires
                            min >= 1,
                            pow2(a + 1) >= pow2(a),
                    ;
                    assert(pow2(a + 1) == 2 * pow2(a));
                }
            } else {
                assert(a == 64);
                lemma2_to64_rest();
                assert(min * pow2(64) >= pow2(64)) by (nonlinear_arith)
                    requires
                        min >= 1,
                ;
            }
        }
        d
    }
}

/// Length of `s` once every trailing `\n` (10) and `\r` (13) byte is removed.
pub open spec fn trimmed_len(s: Seq<u8>) -> int
    decreases s.len(),
{
    if s.len() > 0 && (s.last() == 10u8 || s.last() == 13u8) {
        trimmed_len(s.drop_last())
    } else {
        s.len() as int
    }
}

proof fn lemma_trimmed_len_bounds(s: Seq<u8>)
    ensures
        0 <= trimmed_len(s) <= s.len(),
    decreases s.len(),
{
    if s.len() > 0 && (s.last() == 10u8 || s.last() == 13u8) {
        lemma_trimmed_len_bounds(s.drop_last());
    }
}

/// Strips every trailing newline and carriage-return byte from a raw log line.
pub fn trim_newline(bytes: &[u8]) -> (r: &[u8])
    ensures
        r@ == bytes@.subrange(0, trimmed_len(bytes@)),
{
    let n: usize = bytes.len();
    let mut end: usize = n;
    proof {
        assert(bytes@.subrange(0, n as int) =~= bytes@);
    }
    while end > 0 && (bytes[end - 1] == 10 || bytes[end - 1] == 13)
        invariant
            end <= n,
            n == bytes@.len(),
            trimmed_len(bytes@.subrange(0, end as int)) == trimmed_len(bytes@),
        decreases end,
    {
        proof {
            let pre = bytes@.subrange(0, end as int);
            assert(pre.last() == bytes@[end - 1]);
            assert(pre.drop_last() =~= bytes@.subrange(0, end - 1));
        }
        end = end - 1;
    }
    proof {
        let pre = bytes@.subrange(0, end as int);
        if end > 0 {
            assert(pre.last() == bytes@[end - 1]);
        }
        assert(trimmed_len(pre) == pre.len());
        lemma_trimmed_len_bounds(bytes@);
    }
    slice_subrange(bytes, 0, end)
}

} // verus!
