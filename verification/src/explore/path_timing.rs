//! Path notation of the Compare timing summary.

use vstd::prelude::*;

use crate::text::{push_sep_decimals, push_str, sep_decimals};

verus! {

/// `[0`, then `→` and each child index, then `]`.
pub open spec fn path_chain_text(path: Seq<usize>) -> Seq<char> {
    "[0"@ + sep_decimals(path, '→') + "]"@
}

/// A path written from the root as `[0→1→2]` (the root alone is `[0]`).
pub fn format_path_chain(path: &Vec<usize>) -> (s: String)
    ensures
        s@ == path_chain_text(path@),
{
    let mut chain = String::new();
    push_str(&mut chain, "[0");
    push_sep_decimals(&mut chain, path, '→');
    push_str(&mut chain, "]");
    assert(chain@ =~= path_chain_text(path@));
    chain
}

/// Whether the hop at `hop_path` lies on the highlighted path: its path is
/// a prefix of the highlight.
pub fn path_on_highlight(hop_path: &Vec<usize>, highlight: &Vec<usize>) -> (r: bool)
    ensures
        r == (hop_path@.len() <= highlight@.len() && highlight@.subrange(0, hop_path@.len() as int) == hop_path@),
{
    if hop_path.len() > highlight.len() {
        return false;
    }
    let mut i: usize = 0;
    while i < hop_path.len()
        invariant
            i <= hop_path.len() <= highlight.len(),
            highlight@.subrange(0, i as int) == hop_path@.subrange(0, i as int),
        decreases hop_path.len() - i,
    {
        if hop_path[i] != highlight[i] {
            assert(highlight@.subrange(0, hop_path@.len() as int)[i as int] != hop_path@[i as int]);
            return false;
        }
        i = i + 1;
        assert(highlight@.subrange(0, i as int) =~= hop_path@.subrange(0, i as int));
    }
    assert(hop_path@.subrange(0, hop_path@.len() as int) =~= hop_path@);
    true
}

} // verus!
