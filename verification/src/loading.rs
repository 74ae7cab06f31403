//! Timing of the loading screen's pulse spinner: a row of bars, each
//! stepping through the same glyph cycle at its own pace, so the bars drift
//! apart over time.

use crate::clock;
use std::time::Duration;
use vstd::prelude::*;

verus! {

/// Glyphs in one pulse cycle.
pub const PULSE_FRAME_COUNT: usize = 12;

/// How long the first bar shows each glyph.
pub const PULSE_FRAME_INTERVAL_MS: u128 = 80;

/// Bars in the spinner.
pub const PULSE_BAR_COUNT: usize = 7;

/// How much slower each bar is than the one before it.
pub const PULSE_BAR_INTERVAL_STEP_MS: u128 = 15;

pub open spec fn bar_interval(bar: nat) -> nat {
    (PULSE_FRAME_INTERVAL_MS + bar * PULSE_BAR_INTERVAL_STEP_MS) as nat
}

pub open spec fn frame_at(elapsed_ms: nat, bar: nat) -> nat {
    (elapsed_ms / bar_interval(bar)) % (PULSE_FRAME_COUNT as nat)
}

/// How long bar `bar` shows each glyph.
pub fn pulse_bar_interval_ms(bar: usize) -> (r: u128)
    ensures
        r == bar_interval(bar as nat),
{
    PULSE_FRAME_INTERVAL_MS + bar as u128 * PULSE_BAR_INTERVAL_STEP_MS
}

/// The glyph index bar `bar` shows `elapsed_ms` into the load.
pub fn pulse_frame_at(elapsed_ms: u128, bar: usize) -> (r: usize)
    ensures
        r == frame_at(elapsed_ms as nat, bar as nat),
        r < PULSE_FRAME_COUNT,
{
    ((elapsed_ms / pulse_bar_interval_ms(bar)) % (PULSE_FRAME_COUNT as u128)) as usize
}

/// The glyph index bar `bar` shows after `elapsed`.
pub fn pulse_frame_index(elapsed: Duration, bar: usize) -> (r: usize)
    ensures
        r == frame_at(clock::millis_of(elapsed) as nat, bar as nat),
        r < PULSE_FRAME_COUNT,
{
    pulse_frame_at(clock::as_millis(&elapsed), bar)
}

/// The pulse cycle's glyphs, rising then falling.
pub open spec fn pulse_glyphs() -> Seq<Seq<char>> {
    seq!["▁"@, "▃"@, "▄"@, "▅"@, "▆"@, "▇"@, "█"@, "▇"@, "▆"@, "▅"@, "▄"@, "▃"@]
}

/// The glyph with index `i` of the pulse cycle.
pub fn pulse_glyph(i: usize) -> (r: &'static str)
    requires
        i < PULSE_FRAME_COUNT,
    ensures
        r@ == pulse_glyphs()[i as int],
{
    match i {
        0 => "▁",
        1 => "▃",
        2 => "▄",
        3 => "▅",
        4 => "▆",
        5 => "▇",
        6 => "█",
        7 => "▇",
        8 => "▆",
        9 => "▅",
        10 => "▄",
        _ => "▃",
    }
}

/// Later bars step more slowly, so no two bars share a pace.
pub proof fn lemma_bar_intervals_distinct(a: nat, b: nat)
    requires
        a < b,
    ensures
        bar_interval(a) < bar_interval(b),
{
}

/// Each bar comes back to the same glyph after one full cycle.
pub proof fn lemma_frame_cycle(elapsed_ms: nat, bar: nat)
    ensures
        frame_at(elapsed_ms + (PULSE_FRAME_COUNT as nat) * bar_interval(bar), bar) == frame_at(elapsed_ms, bar),
{
    let n = bar_interval(bar) as int;
    let x = elapsed_ms as int;
    vstd::arithmetic::div_mod::lemma_fundamental_div_mod(x, n);
    let q = x / n;
    let r = x % n;
    assert(x + 12 * n == n * (q + 12) + r) by (nonlinear_arith)
        requires
            x == n * q + r,
    ;
    vstd::arithmetic::div_mod::lemma_div_multiples_vanish_fancy(q + 12, r, n);
    vstd::arithmetic::div_mod::lemma_mod_multiples_vanish(1, q, 12);
}

/// Within one interval a bar holds its glyph.
pub proof fn lemma_frame_steady(start: nat, offset: nat, bar: nat)
    requires
        start % bar_interval(bar) + offset < bar_interval(bar),
    ensures
        frame_at(start + offset, bar) == frame_at(start, bar),
{
    let n = bar_interval(bar) as int;
    let x = start as int;
    vstd::arithmetic::div_mod::lemma_fundamental_div_mod(x, n);
    let q = x / n;
    let r = x % n;
    assert(x + offset == n * q + (r + offset));
    vstd::arithmetic::div_mod::lemma_div_multiples_vanish_fancy(q, r + offset, n);
}

} // verus!
