//! Percentage derivation for the gauges and the process table.
//!
//! The memory gauge uses a rounded percentage; the CPU gauge deliberately
//! truncates for its fill while rounding for its label; process rows
//! truncate. A zero memory total is guarded and shown as zero percent.

use vstd::prelude::*;

verus! {

use vstd::arithmetic::div_mod::lemma_div_is_ordered;
use vstd::arithmetic::div_mod::lemma_div_plus_one;
use vstd::arithmetic::div_mod::lemma_fundamental_div_mod_converse_div;

/// Memory percentage: `100 * used / total`, rounded half up; a host that
/// reports no memory at all shows zero percent instead of faulting.
pub open spec fn spec_mem_percent(used: int, total: int) -> int {
    if total == 0 {
        0
    } else {
        (200 * used + total) / (2 * total)
    }
}

/// CPU gauge fill: the raw usage (carried in hundredths of a percent)
/// truncated to whole percent, clamped into the gauge's accepted range.
pub open spec fn spec_cpu_fill(centi: int) -> int {
    if centi / 100 > 100 {
        100
    } else {
        centi / 100
    }
}

/// CPU label value: the raw usage rounded half up to whole percent,
/// computed independently of the fill and deliberately not clamped.
pub open spec fn spec_cpu_label(centi: int) -> int {
    (centi + 50) / 100
}

/// Per-process percentage: `100 * memory / total`, truncated, zero when
/// the total is zero, saturated at `u64::MAX` (reachable only when a
/// process reports far more memory than the total).
pub open spec fn spec_proc_percent(memory: int, total: int) -> int {
    if total == 0 {
        0
    } else if 100 * memory / total > u64::MAX {
        u64::MAX as int
    } else {
        100 * memory / total
    }
}

/// Rounded memory percentage, used for both the gauge fill and its label.
/// Within the provider's `used <= total` invariant it never exceeds 100.
pub fn mem_percent(used: u64, total: u64) -> (r: u16)
    requires
        used <= total,
    ensures
        r == spec_mem_percent(used as int, total as int),
        r <= 100,
        total == 0 ==> r == 0,
{
    if total == 0 {
        0
    } else {
        let n: u128 = 200u128 * (used as u128) + (total as u128);
        let d: u128 = 2u128 * (total as u128);
        let q: u128 = n / d;
        proof {
            let t = total as int;
            let u = used as int;
            lemma_div_is_ordered(200 * u + t, 201 * t, 2 * t);
            lemma_fundamental_div_mod_converse_div(201 * t, 2 * t, 100, t);
        }
        q as u16
    }
}

/// Truncated, clamped CPU gauge fill from usage in hundredths of a percent.
pub fn cpu_fill(centi: u32) -> (r: u16)
    ensures
        r == spec_cpu_fill(centi as int),
        r <= 100,
{
    let p: u32 = centi / 100;
    if p > 100 {
        100
    } else {
        p as u16
    }
}

/// Rounded CPU label value from usage in hundredths of a percent.
pub fn cpu_label_value(centi: u32) -> (r: u32)
    ensures
        r == spec_cpu_label(centi as int),
{
    let v: u64 = ((centi as u64) + 50) / 100;
    proof {
        lemma_div_is_ordered(centi as int + 50, u32::MAX as int + 50, 100);
    }
    v as u32
}

/// Truncated per-process memory percentage for one table row.
pub fn proc_percent(memory: u64, total: u64) -> (r: u64)
    ensures
        r == spec_proc_percent(memory as int, total as int),
        total == 0 ==> r == 0,
        memory <= total && total > 0 ==> r <= 100,
{
    if total == 0 {
        0
    } else {
        let q: u128 = 100u128 * (memory as u128) / (total as u128);
        proof {
            let t = total as int;
            let m = memory as int;
            if m <= t {
                lemma_div_is_ordered(100 * m, 100 * t, t);
                lemma_fundamental_div_mod_converse_div(100 * t, t, 100, 0);
            }
        }
        if q > u64::MAX as u128 {
            u64::MAX
        } else {
            q as u64
        }
    }
}

/// Law: the CPU label never falls below the (unclamped) fill and exceeds
/// it by at most one — the gap rounding versus truncation can open.
pub proof fn lemma_cpu_label_near_fill(centi: int)
    requires
        0 <= centi,
        centi / 100 <= 100,
    ensures
        spec_cpu_fill(centi) <= spec_cpu_label(centi),
        spec_cpu_label(centi) <= spec_cpu_fill(centi) + 1,
{
    lemma_div_is_ordered(centi, centi + 50, 100);
    lemma_div_is_ordered(centi + 50, centi + 100, 100);
    lemma_div_plus_one(centi, 100);
}

} // verus!
