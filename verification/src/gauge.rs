use vstd::prelude::*;
use crate::text::{dec_seq, digit_char, u64_to_dec, u64_to_string, digit_of, string_from_chars};

verus! {

/// `n / unit`, rounded to the nearest integer, half away from zero.
pub open spec fn scaled_tenths(n: u64, unit: u64) -> nat
    recommends
        unit >= 2,
{
    ((n as nat) / (unit as nat) + if (n as nat) % (unit as nat) >= (unit as nat) / 2 {
        1nat
    } else {
        0nat
    }) as nat
}

/// The short human form of a count: plain decimal below a thousand,
/// otherwise one decimal of precision with a `K` or `M` suffix.
pub open spec fn spec_format_number(n: u64) -> Seq<char> {
    if n >= 1000000 {
        let t = scaled_tenths(n, 100000);
        dec_seq(t / 10).push('.').push(digit_char(t % 10)).push('M')
    } else if n >= 1000 {
        let t = scaled_tenths(n, 100);
        dec_seq(t / 10).push('.').push(digit_char(t % 10)).push('K')
    } else {
        dec_seq(n as nat)
    }
}

fn format_scaled(n: u64, unit: u64, suffix: char) -> (r: String)
    requires
        2 <= unit <= 100000,
    ensures
        r@ == dec_seq(scaled_tenths(n, unit) / 10).push('.').push(
            digit_char(scaled_tenths(n, unit) % 10),
        ).push(suffix),
{
    let q = n / unit;
    let rem = n % unit;
    proof {
        assert((n as int) / (unit as int) <= (n as int) / 2) by (nonlinear_arith)
            requires
                2 <= unit,
                0 <= n,
        ;
    }
    let t = if rem >= unit / 2 {
        q + 1
    } else {
        q
    };
    assert(t == scaled_tenths(n, unit));
    let mut chars = u64_to_dec(t / 10);
    chars.push('.');
    chars.push(digit_of(t % 10));
    chars.push(suffix);
    string_from_chars(&chars)
}

/// Format a count the way the dashboard shows it: `532`, `1.5K`,
/// `12.3M`.
pub fn format_number(n: u64) -> (r: String)
    ensures
        r@ == spec_format_number(n),
{
    if n >= 1000000 {
        format_scaled(n, 100000, 'M')
    } else if n >= 1000 {
        format_scaled(n, 100, 'K')
    } else {
        u64_to_string(n)
    }
}

/// How much of the limit is left; zero once usage reaches it, never
/// negative.
pub fn remaining_quota(used: u64, max: u64) -> (r: u64)
    ensures
        r as int == if used >= max {
            0int
        } else {
            max as int - used as int
        },
{
    if used >= max {
        0
    } else {
        max - used
    }
}

/// Percent of the limit used, in tenths of a percent — 1200 means
/// 120.0% — truncated, and saturated at `u64::MAX`.
pub fn percent_used_tenths(used: u64, max: u64) -> (r: u64)
    requires
        max > 0,
    ensures
        r as int == if (used as int) * 1000 / (max as int) > u64::MAX as int {
            u64::MAX as int
        } else {
            (used as int) * 1000 / (max as int)
        },
{
    let v = (used as u128) * 1000 / (max as u128);
    if v > u64::MAX as u128 {
        u64::MAX
    } else {
        v as u64
    }
}

/// How many of `width` cells a usage bar fills: proportional to the
/// usage and clamped to the bar itself, even past the limit.
pub fn bar_cells(used: u64, max: u64, width: u64) -> (r: u64)
    requires
        max > 0,
    ensures
        r as int == if (used as int) * (width as int) / (max as int) > width as int {
            width as int
        } else {
            (used as int) * (width as int) / (max as int)
        },
{
    proof {
        assert((used as int) * (width as int) <= (u64::MAX as int) * (u64::MAX as int))
            by (nonlinear_arith)
            requires
                used <= u64::MAX,
                width <= u64::MAX,
        ;
    }
    let v = (used as u128) * (width as u128) / (max as u128);
    if v > width as u128 {
        width
    } else {
        v as u64
    }
}

/// How many usage gauges a quota snapshot yields: one per reported
/// dimension, in the fixed order requests, tokens, cost.
pub fn gauge_count(usage: &crate::quota::TokenUsage) -> (n: usize)
    ensures
        n == (if usage.requests_made is Some {
            1int
        } else {
            0int
        }) + (if usage.tokens_used is Some {
            1int
        } else {
            0int
        }) + (if usage.cost_micros is Some {
            1int
        } else {
            0int
        }),
        n <= 3,
{
    let mut n: usize = 0;
    if usage.requests_made.is_some() {
        n = n + 1;
    }
    if usage.tokens_used.is_some() {
        n = n + 1;
    }
    if usage.cost_micros.is_some() {
        n = n + 1;
    }
    n
}

} // verus!
