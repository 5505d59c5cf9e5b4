//! The RTT bar: its scale and its plain-text form.

use vstd::prelude::*;

use crate::text::{decimal, push_decimal, push_str};

verus! {

/// Absolute scale used for Browse detail RTT bars (matches export card scale).
pub const DETAIL_RTT_SCALE_MS: u32 = crate::config::RTT_BAR_ABSOLUTE_SCALE_MS;

/// Glyph used for the unfilled portion of an RTT bar so the full track is visible.
pub const RTT_BAR_EMPTY: &'static str = "░";

/// `rtt: {n} ms`.
pub open spec fn rtt_plain_text(rtt_ms: u64) -> Seq<char> {
    "rtt: "@ + decimal(rtt_ms as nat) + " ms"@
}

/// Plain-text RTT line for outline / dig plain output (no bar glyphs).
pub fn format_rtt_plain_line(rtt_ms: u64) -> (s: String)
    ensures
        s@ == rtt_plain_text(rtt_ms),
{
    let mut s = String::new();
    push_str(&mut s, "rtt: ");
    push_decimal(&mut s, rtt_ms);
    push_str(&mut s, " ms");
    assert(s@ =~= rtt_plain_text(rtt_ms));
    s
}

/// An RTT capped to `u32`.
pub open spec fn capped_rtt(rtt: u64) -> int {
    if rtt <= u32::MAX { rtt as int } else { u32::MAX as int }
}

/// The largest capped RTT of a sequence, or 0 for none.
pub open spec fn max_capped(rtts: Seq<u64>) -> int
    decreases rtts.len(),
{
    if rtts.len() == 0 {
        0
    } else {
        let m = max_capped(rtts.drop_last());
        let c = capped_rtt(rtts.last());
        if c > m { c } else { m }
    }
}

/// The bar scale for the visible rows: the largest RTT among the hops
/// shown (`rtts`, one per visible hop), capped to `u32`, and at least 1.
pub fn max_rtt_ms_for_visible(rtts: &Vec<u64>) -> (r: u32)
    ensures
        r as int == (if max_capped(rtts@) >= 1 { max_capped(rtts@) } else { 1 }),
{
    let mut best: u32 = 0;
    let mut i: usize = 0;
    assert(rtts@.subrange(0, 0) =~= Seq::<u64>::empty());
    while i < rtts.len()
        invariant
            i <= rtts.len(),
            best as int == max_capped(rtts@.subrange(0, i as int)),
        decreases rtts.len() - i,
    {
        let ghost next = rtts@.subrange(0, i + 1);
        assert(next.drop_last() =~= rtts@.subrange(0, i as int));
        let v = rtts[i];
        let c: u32 = if v <= 4294967295u64 { v as u32 } else { 4294967295u32 };
        if c > best {
            best = c;
        }
        i = i + 1;
    }
    assert(rtts@.subrange(0, rtts@.len() as int) =~= rtts@);
    if best >= 1 { best } else { 1 }
}

} // verus!
