//! Exponential restart backoff: given the consecutive-failure count, the
//! ceiling on the delay before the next spawn attempt. The delay doubles with
//! each consecutive failure up to a cap.

use std::time::Duration;

use vstd::arithmetic::power2::{lemma_pow2_strictly_increases, pow2};
use vstd::arithmetic::mul::{lemma_mul_inequality, lemma_mul_is_associative};
use vstd::bits::{lemma_u32_pow2_no_overflow, lemma_u32_shl_is_mul};
use vstd::prelude::*;

verus! {

/// The length of a duration in nanoseconds (`Duration::as_nanos`).
pub uninterp spec fn duration_nanos(d: Duration) -> nat;

/// The longest representable duration, in nanoseconds (`Duration::MAX`:
/// `u64::MAX` seconds and 999 999 999 nanoseconds).
pub open spec fn max_duration_nanos() -> nat {
    18446744073709551615999999999
}

/// `Duration::checked_mul`: `d * k`, or `None` when the product exceeds the
/// longest representable duration.
#[verifier::external_body]
fn checked_mul(d: Duration, k: u32) -> (r: Option<Duration>)
    ensures
        r is Some <==> duration_nanos(d) * k <= max_duration_nanos(),
        r matches Some(x) ==> duration_nanos(x) == duration_nanos(d) * k,
        k <= 1 ==> r is Some,
{
    d.checked_mul(k)
}

/// `Ord::min` on durations: the shorter of the two, the first on a tie.
#[verifier::external_body]
fn min_duration(a: Duration, b: Duration) -> (r: Duration)
    ensures
        r == (if duration_nanos(b) < duration_nanos(a) {
            b
        } else {
            a
        }),
        duration_nanos(r) <= max_duration_nanos(),
{
    a.min(b)
}

/// `Duration::from_millis`.
#[verifier::external_body]
fn duration_from_millis(ms: u64) -> (r: Duration)
    ensures
        duration_nanos(r) == ms * 1_000_000,
        duration_nanos(r) <= max_duration_nanos(),
{
    Duration::from_millis(ms)
}

/// `Duration::from_secs`.
#[verifier::external_body]
fn duration_from_secs(s: u64) -> (r: Duration)
    ensures
        duration_nanos(r) == s * 1_000_000_000,
        duration_nanos(r) <= max_duration_nanos(),
{
    Duration::from_secs(s)
}

/// Restart backoff policy: `base` for the first retry, doubling per
/// consecutive failure, never above `max`.
#[derive(Debug, Clone, Copy)]
pub struct Backoff {
    pub base: Duration,
    pub max: Duration,
}

/// The ceiling, in nanoseconds, for `failures` consecutive failures: `base`
/// doubled `min(failures, 31)` times, `max` when that product is not
/// representable, and never more than `max`.
pub open spec fn spec_ceiling(base: nat, max: nat, failures: nat) -> nat {
    let shift = if failures < 31 {
        failures
    } else {
        31
    };
    let product = base * pow2(shift);
    let uncapped = if product <= max_duration_nanos() {
        product
    } else {
        max
    };
    if max < uncapped {
        max
    } else {
        uncapped
    }
}

impl Default for Backoff {
    /// Half a second, doubling up to thirty seconds.
    fn default() -> (b: Self)
        ensures
            duration_nanos(b.base) == 500_000_000,
            duration_nanos(b.max) == 30_000_000_000,
    {
        Backoff { base: duration_from_millis(500), max: duration_from_secs(30) }
    }
}

impl Backoff {
    /// Exponential delay for `failures` consecutive failures
    /// (`failures == 0` → `base`), saturating at `max`.
    pub fn ceiling(&self, failures: u32) -> (r: Duration)
        ensures
            duration_nanos(r) == spec_ceiling(
                duration_nanos(self.base),
                duration_nanos(self.max),
                failures as nat,
            ),
            duration_nanos(r) <= duration_nanos(self.max),
            duration_nanos(r) <= max_duration_nanos(),
            failures == 0 ==> duration_nanos(r) == if duration_nanos(self.max) < duration_nanos(
                self.base,
            ) {
                duration_nanos(self.max)
            } else {
                duration_nanos(self.base)
            },
    {
        let shift: u32 = if failures < 31 {
            failures
        } else {
            31
        };
        proof {
            lemma_u32_pow2_no_overflow(shift as nat);
            lemma_u32_shl_is_mul(1, shift);
        }
        let factor: u32 = 1u32 << shift;
        proof {
            vstd::arithmetic::power2::lemma2_to64();
            if failures == 0 {
                assert(factor == 1);
            }
        }
        let product = checked_mul(self.base, factor);
        proof {
            if failures == 0 {
                assert(product is Some);
                assert(duration_nanos(self.base) * 1 == duration_nanos(self.base));
            }
        }
        let uncapped = match product {
            Some(d) => d,
            None => self.max,
        };
        min_duration(uncapped, self.max)
    }
}


/// The delay ceiling never exceeds the configured cap.
pub proof fn law_ceiling_capped(b: Backoff, failures: nat)
    ensures
        spec_ceiling(duration_nanos(b.base), duration_nanos(b.max), failures) <= duration_nanos(
            b.max,
        ),
{
}

/// With no failures yet the ceiling is the base delay (or the cap, if lower).
/// The premise is the validity of a `Duration` (never above `Duration::MAX`),
/// which every duration the wrappers hand out satisfies; `Backoff::ceiling`
/// states the same for its own receiver at zero failures.
pub proof fn law_ceiling_starts_at_base(b: Backoff)
    requires
        duration_nanos(b.base) <= max_duration_nanos(),
    ensures
        spec_ceiling(duration_nanos(b.base), duration_nanos(b.max), 0) == if duration_nanos(b.max)
            < duration_nanos(b.base) {
            duration_nanos(b.max)
        } else {
            duration_nanos(b.base)
        },
{
    vstd::arithmetic::power2::lemma2_to64();
    assert(duration_nanos(b.base) * pow2(0) == duration_nanos(b.base));
}

/// More consecutive failures never shorten the ceiling.
pub proof fn law_ceiling_monotone(b: Backoff, f1: nat, f2: nat)
    requires
        f1 <= f2,
    ensures
        spec_ceiling(duration_nanos(b.base), duration_nanos(b.max), f1) <= spec_ceiling(
            duration_nanos(b.base),
            duration_nanos(b.max),
            f2,
        ),
{
    let s1: nat = if f1 < 31 { f1 } else { 31 };
    let s2: nat = if f2 < 31 { f2 } else { 31 };
    if s1 < s2 {
        lemma_pow2_strictly_increases(s1, s2);
    }
    lemma_mul_inequality(pow2(s1) as int, pow2(s2) as int, duration_nanos(b.base) as int);
    assert(duration_nanos(b.base) * pow2(s1) <= duration_nanos(b.base) * pow2(s2)) by {
        vstd::arithmetic::mul::lemma_mul_is_commutative(
            duration_nanos(b.base) as int,
            pow2(s1) as int,
        );
        vstd::arithmetic::mul::lemma_mul_is_commutative(
            duration_nanos(b.base) as int,
            pow2(s2) as int,
        );
    }
}

/// Below the cap, each further failure doubles the ceiling (the cap being a
/// representable duration).
pub proof fn law_ceiling_doubles(b: Backoff, failures: nat)
    requires
        duration_nanos(b.max) <= max_duration_nanos(),
        failures < 31,
        duration_nanos(b.base) * pow2(failures + 1) <= duration_nanos(b.max),
    ensures
        spec_ceiling(duration_nanos(b.base), duration_nanos(b.max), failures + 1) == 2
            * spec_ceiling(duration_nanos(b.base), duration_nanos(b.max), failures),
{
    let base = duration_nanos(b.base);
    let max = duration_nanos(b.max);
    vstd::arithmetic::power2::lemma_pow2_unfold(failures + 1);
    assert(pow2(failures + 1) == 2 * pow2(failures));
    lemma_mul_is_associative(base as int, 2, pow2(failures) as int);
    vstd::arithmetic::mul::lemma_mul_is_commutative(base as int, 2);
    lemma_mul_is_associative(2, base as int, pow2(failures) as int);
    assert(base * pow2(failures + 1) == 2 * (base * pow2(failures)));
}

} // verus!
