//! The composite health score: a blend of ping latency, resolution latency
//! and uptime, each expressed in hundredths of a point (0 to 10000).

use vstd::prelude::*;
use vstd::arithmetic::div_mod::{
    lemma_div_is_ordered, lemma_div_multiples_vanish, lemma_div_pos_is_pos,
};
use vstd::arithmetic::mul::{
    lemma_mul_inequality, lemma_mul_is_commutative, lemma_mul_nonnegative,
};
use crate::metrics::CENTI_FULL;

verus! {

/// `a * c / d` stays between 0 and `c` when `0 <= a <= d`.
pub proof fn lemma_scaled_ratio_le(a: int, d: int, c: int)
    requires
        0 <= a <= d,
        0 < d,
        0 <= c,
    ensures
        0 <= a * c / d <= c,
{
    lemma_mul_nonnegative(a, c);
    lemma_div_pos_is_pos(a * c, d);
    lemma_mul_inequality(a, d, c);
    lemma_div_is_ordered(a * c, d * c, d);
    lemma_mul_is_commutative(d, c);
    lemma_div_multiples_vanish(c, d);
}

/// The ping component: 100.00 at or below the good threshold, falling
/// linearly to 60.00 at the slow threshold, then linearly toward 0.00 at
/// twice the slow threshold and beyond.
pub open spec fn ping_score_centi(avg_ping: int, good: int, slow: int) -> int {
    if avg_ping <= good {
        10000
    } else if avg_ping <= slow {
        10000 - (avg_ping - good) * 4000 / (slow - good)
    } else {
        let over = if avg_ping - slow <= slow {
            avg_ping - slow
        } else {
            slow
        };
        6000 - over * 6000 / slow
    }
}

/// The resolution component: 100.00 at zero latency, falling linearly to
/// 0.00 at three times the slow threshold and beyond.
pub open spec fn resolve_score_centi(avg_resolve: int, slow: int) -> int {
    if avg_resolve >= 3 * slow {
        0
    } else {
        (3 * slow - avg_resolve) * 10000 / (3 * slow)
    }
}

/// The blend: 45% ping score, 25% resolution score, 30% uptime.
pub open spec fn composite_score_centi(ping: int, resolve: int, uptime: int) -> int {
    (45 * ping + 25 * resolve + 30 * uptime) / 100
}

/// The score of a resolver with the given window aggregates. A resolver
/// without any successful sample on record (its mean ping is still zero)
/// scores zero.
pub open spec fn health_score_centi(
    avg_ping: int,
    avg_resolve: int,
    uptime: int,
    good: int,
    slow: int,
) -> int {
    if avg_ping == 0 {
        0
    } else {
        composite_score_centi(
            ping_score_centi(avg_ping, good, slow),
            resolve_score_centi(avg_resolve, slow),
            uptime,
        )
    }
}

/// The ping component never leaves 0..=10000.
pub proof fn lemma_ping_score_in_range(avg_ping: int, good: int, slow: int)
    requires
        0 <= avg_ping,
        0 <= good < slow,
    ensures
        0 <= ping_score_centi(avg_ping, good, slow) <= 10000,
{
    if avg_ping <= good {
    } else if avg_ping <= slow {
        lemma_scaled_ratio_le(avg_ping - good, slow - good, 4000);
    } else {
        let over = if avg_ping - slow <= slow {
            avg_ping - slow
        } else {
            slow
        };
        lemma_scaled_ratio_le(over, slow, 6000);
    }
}

/// The resolution component never leaves 0..=10000.
pub proof fn lemma_resolve_score_in_range(avg_resolve: int, slow: int)
    requires
        0 <= avg_resolve,
        0 < slow,
    ensures
        0 <= resolve_score_centi(avg_resolve, slow) <= 10000,
{
    if avg_resolve < 3 * slow {
        lemma_scaled_ratio_le(3 * slow - avg_resolve, 3 * slow, 10000);
    }
}

/// A blend of components in 0..=10000 stays in 0..=10000.
pub proof fn lemma_composite_score_in_range(ping: int, resolve: int, uptime: int)
    requires
        0 <= ping <= 10000,
        0 <= resolve <= 10000,
        0 <= uptime <= 10000,
    ensures
        0 <= composite_score_centi(ping, resolve, uptime) <= 10000,
{
    let num = 45 * ping + 25 * resolve + 30 * uptime;
    lemma_div_pos_is_pos(num, 100);
    lemma_div_is_ordered(num, 1000000, 100);
    lemma_div_multiples_vanish(10000, 100);
}

/// The score of any window aggregate is in 0..=10000: the heart of the
/// guarantee that every published score lies between 0.00 and 100.00.
pub proof fn lemma_health_score_in_range(
    avg_ping: int,
    avg_resolve: int,
    uptime: int,
    good: int,
    slow: int,
)
    requires
        0 <= avg_ping,
        0 <= avg_resolve,
        0 <= uptime <= 10000,
        0 <= good < slow,
    ensures
        0 <= health_score_centi(avg_ping, avg_resolve, uptime, good, slow) <= 10000,
{
    if avg_ping != 0 {
        lemma_ping_score_in_range(avg_ping, good, slow);
        lemma_resolve_score_in_range(avg_resolve, slow);
        lemma_composite_score_in_range(
            ping_score_centi(avg_ping, good, slow),
            resolve_score_centi(avg_resolve, slow),
            uptime,
        );
    }
}

/// Computes the ping component of the score.
pub fn compute_ping_score(avg_ping: u64, good: u64, slow: u64) -> (r: u64)
    requires
        good < slow,
    ensures
        r == ping_score_centi(avg_ping as int, good as int, slow as int),
        r <= 10000,
{
    proof {
        lemma_ping_score_in_range(avg_ping as int, good as int, slow as int);
    }
    if avg_ping <= good {
        10000
    } else if avg_ping <= slow {
        let scaled = (avg_ping - good) as u128 * 4000 / ((slow - good) as u128);
        10000 - (scaled as u64)
    } else {
        let over = if avg_ping - slow <= slow {
            avg_ping - slow
        } else {
            slow
        };
        let scaled = over as u128 * 6000 / (slow as u128);
        6000 - (scaled as u64)
    }
}

/// Computes the resolution component of the score.
pub fn compute_resolve_score(avg_resolve: u64, slow: u64) -> (r: u64)
    requires
        0 < slow,
    ensures
        r == resolve_score_centi(avg_resolve as int, slow as int),
        r <= 10000,
{
    proof {
        lemma_resolve_score_in_range(avg_resolve as int, slow as int);
    }
    let m = 3 * (slow as u128);
    let a = avg_resolve as u128;
    if a >= m {
        0
    } else {
        ((m - a) * 10000 / m) as u64
    }
}

/// Computes the composite score from window aggregates.
pub fn compute_score(avg_ping: u64, avg_resolve: u64, uptime: u64, good: u64, slow: u64) -> (r:
    u64)
    requires
        good < slow,
        uptime <= 10000,
    ensures
        r == health_score_centi(
            avg_ping as int,
            avg_resolve as int,
            uptime as int,
            good as int,
            slow as int,
        ),
        r <= CENTI_FULL,
{
    if avg_ping == 0 {
        0
    } else {
        let ping = compute_ping_score(avg_ping, good, slow);
        let resolve = compute_resolve_score(avg_resolve, slow);
        proof {
            lemma_composite_score_in_range(ping as int, resolve as int, uptime as int);
        }
        (45 * ping + 25 * resolve + 30 * uptime) / 100
    }
}

} // verus!
