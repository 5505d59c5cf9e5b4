//! The colour ramp of round-trip times: green, yellow, orange, red at the
//! configured thresholds, blended linearly between them.

use vstd::prelude::*;

use crate::config::RttBarConfig;

verus! {

/// An sRGB colour.
pub type Rgb = (u8, u8, u8);

pub open spec fn green() -> Rgb { (72, 198, 108) }

pub open spec fn yellow() -> Rgb { (255, 214, 48) }

pub open spec fn orange() -> Rgb { (255, 132, 32) }

pub open spec fn red() -> Rgb { (214, 48, 48) }

/// `start` moved `num / den` of the way to `end`, rounded to the nearest
/// integer, halves away from zero.
pub open spec fn lerp_channel(start: u8, end: u8, num: int, den: int) -> int {
    let x = start as int * den + (end as int - start as int) * num;
    (2 * x + den) / (2 * den)
}

pub open spec fn lerp_rgb(start: Rgb, end: Rgb, num: int, den: int) -> Rgb {
    (
        lerp_channel(start.0, end.0, num, den) as u8,
        lerp_channel(start.1, end.1, num, den) as u8,
        lerp_channel(start.2, end.2, num, den) as u8,
    )
}

/// The colour of `rtt_ms` under (normalized) thresholds `c`.
pub open spec fn gradient(rtt_ms: u32, c: RttBarConfig) -> Rgb {
    if rtt_ms <= c.green_ms {
        green()
    } else if rtt_ms <= c.yellow_ms {
        lerp_rgb(green(), yellow(), rtt_ms - c.green_ms, c.yellow_ms - c.green_ms)
    } else if rtt_ms <= c.orange_ms {
        lerp_rgb(yellow(), orange(), rtt_ms - c.yellow_ms, c.orange_ms - c.yellow_ms)
    } else if rtt_ms <= c.insane_ms {
        lerp_rgb(orange(), red(), rtt_ms - c.orange_ms, c.insane_ms - c.orange_ms)
    } else {
        red()
    }
}

/// The blend stays between its end points.
pub proof fn lemma_lerp_between(start: u8, end: u8, num: int, den: int)
    requires
        0 <= num <= den,
        den > 0,
    ensures
        (start <= end ==> start <= lerp_channel(start, end, num, den) <= end),
        (end <= start ==> end <= lerp_channel(start, end, num, den) <= start),
        num == 0 ==> lerp_channel(start, end, num, den) == start,
        num == den ==> lerp_channel(start, end, num, den) == end,
{
    let x = start as int * den + (end as int - start as int) * num;
    let r = (2 * x + den) / (2 * den);
    if start <= end {
        assert(start as int * den <= x <= end as int * den) by (nonlinear_arith)
            requires
                0 <= num <= den,
                start <= end,
                x == start as int * den + (end as int - start as int) * num,
        ;
        assert(start <= r <= end) by (nonlinear_arith)
            requires
                start as int * den <= x <= end as int * den,
                den > 0,
                r == (2 * x + den) / (2 * den),
        ;
    } else {
        assert(end as int * den <= x <= start as int * den) by (nonlinear_arith)
            requires
                0 <= num <= den,
                end <= start,
                x == start as int * den + (end as int - start as int) * num,
        ;
        assert(end <= r <= start) by (nonlinear_arith)
            requires
                end as int * den <= x <= start as int * den,
                den > 0,
                r == (2 * x + den) / (2 * den),
        ;
    }
    if num == 0 {
        assert(r == start) by (nonlinear_arith)
            requires
                x == start as int * den,
                den > 0,
                r == (2 * x + den) / (2 * den),
        ;
    }
    if num == den {
        assert(r == end) by (nonlinear_arith)
            requires
                num == den,
                x == start as int * den + (end as int - start as int) * num,
                den > 0,
                r == (2 * x + den) / (2 * den),
        ;
    }
}

fn lerp_channel_exec(start: u8, end: u8, num: u64, den: u64) -> (r: u8)
    requires
        num <= den,
        0 < den <= u32::MAX,
    ensures
        r as int == lerp_channel(start, end, num as int, den as int),
{
    proof {
        lemma_lerp_between(start, end, num as int, den as int);
    }
    let s = start as u64;
    let e = end as u64;
    let x: u64 = if e >= s {
        assert((e - s) * num <= 255 * den) by (nonlinear_arith)
            requires
                e - s <= 255,
                num <= den,
        ;
        assert(s * den <= 255 * den) by (nonlinear_arith)
            requires
                s <= 255,
        ;
        s * den + (e - s) * num
    } else {
        assert((s - e) * num <= s * den) by (nonlinear_arith)
            requires
                s - e <= s,
                num <= den,
        ;
        assert(s * den <= 255 * den) by (nonlinear_arith)
            requires
                s <= 255,
        ;
        s * den - (s - e) * num
    };
    assert(x as int == start as int * den + (end as int - start as int) * num) by (nonlinear_arith)
        requires
            e >= s ==> x == s * den + (e - s) * num,
            e < s ==> x == s * den - (s - e) * num,
            s == start,
            e == end,
    ;
    let q = (2 * x + den) / (2 * den);
    q as u8
}

fn lerp_rgb_exec(start: Rgb, end: Rgb, num: u64, den: u64) -> (r: Rgb)
    requires
        num <= den,
        0 < den <= u32::MAX,
    ensures
        r == lerp_rgb(start, end, num as int, den as int),
{
    (
        lerp_channel_exec(start.0, end.0, num, den),
        lerp_channel_exec(start.1, end.1, num, den),
        lerp_channel_exec(start.2, end.2, num, den),
    )
}

/// The colour of an RTT: green up to `green_ms`, then blended towards
/// yellow at `yellow_ms`, orange at `orange_ms` and red at `insane_ms`,
/// red beyond; the thresholds are normalized first.
pub fn rtt_gradient_rgb(rtt_ms: u32, config: RttBarConfig) -> (r: Rgb)
    requires
        config.can_normalize(),
    ensures
        r == gradient(rtt_ms, config.spec_normalized()),
{
    let c = config.normalized();
    if rtt_ms <= c.green_ms {
        return (72, 198, 108);
    }
    if rtt_ms <= c.yellow_ms {
        return lerp_rgb_exec((72, 198, 108), (255, 214, 48), (rtt_ms - c.green_ms) as u64, (c.yellow_ms - c.green_ms) as u64);
    }
    if rtt_ms <= c.orange_ms {
        return lerp_rgb_exec((255, 214, 48), (255, 132, 32), (rtt_ms - c.yellow_ms) as u64, (c.orange_ms - c.yellow_ms) as u64);
    }
    if rtt_ms <= c.insane_ms {
        return lerp_rgb_exec((255, 132, 32), (214, 48, 48), (rtt_ms - c.orange_ms) as u64, (c.insane_ms - c.orange_ms) as u64);
    }
    (214, 48, 48)
}

/// Each threshold shows its milestone colour exactly: green at
/// `green_ms`, yellow at `yellow_ms`, orange at `orange_ms`, red at
/// `insane_ms` and beyond.
pub proof fn lemma_gradient_milestones(c: RttBarConfig, rtt_ms: u32)
    requires
        c.is_normalized(),
    ensures
        rtt_ms <= c.green_ms ==> gradient(rtt_ms, c) == green(),
        rtt_ms == c.yellow_ms ==> gradient(rtt_ms, c) == yellow(),
        rtt_ms == c.orange_ms ==> gradient(rtt_ms, c) == orange(),
        rtt_ms >= c.insane_ms ==> gradient(rtt_ms, c) == red(),
{
    if rtt_ms == c.yellow_ms {
        lemma_lerp_between(72, 255, rtt_ms - c.green_ms, c.yellow_ms - c.green_ms);
        lemma_lerp_between(198, 214, rtt_ms - c.green_ms, c.yellow_ms - c.green_ms);
        lemma_lerp_between(108, 48, rtt_ms - c.green_ms, c.yellow_ms - c.green_ms);
    }
    if rtt_ms == c.orange_ms {
        lemma_lerp_between(255, 255, rtt_ms - c.yellow_ms, c.orange_ms - c.yellow_ms);
        lemma_lerp_between(214, 132, rtt_ms - c.yellow_ms, c.orange_ms - c.yellow_ms);
        lemma_lerp_between(48, 32, rtt_ms - c.yellow_ms, c.orange_ms - c.yellow_ms);
    }
    if rtt_ms == c.insane_ms {
        lemma_lerp_between(255, 214, rtt_ms - c.orange_ms, c.insane_ms - c.orange_ms);
        lemma_lerp_between(132, 48, rtt_ms - c.orange_ms, c.insane_ms - c.orange_ms);
        lemma_lerp_between(32, 48, rtt_ms - c.orange_ms, c.insane_ms - c.orange_ms);
    }
}

} // verus!
