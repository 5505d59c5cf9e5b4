//! The outline of a trace: the query line, then each node as a tree line
//! with its display index and summary, its detail lines indented below.

use vstd::prelude::*;

use crate::explore::detail::{detail_text_lines, hop_detail_lines, hop_summary_line, hop_summary_text, indented_block, render_indented_block};
use crate::explore::fork_summary::{TraceNode, TraceTree};
use crate::explore::terminal::UiSymbols;
use crate::text::{decimal, owned, push_decimal, push_str};

verus! {

/// The number of nodes of the tree below `n`, `n` included.
pub open spec fn node_count(n: TraceNode) -> nat
    decreases n, 0nat,
{
    1 + list_count(n.children@, 0)
}

/// The number of nodes below children `i..`.
pub open spec fn list_count(cs: Seq<TraceNode>, i: int) -> nat
    decreases cs, if 0 <= i < cs.len() { (cs.len() - i) as nat } else { 0 },
{
    if 0 <= i < cs.len() {
        node_count(cs[i]) + list_count(cs, i + 1)
    } else {
        0
    }
}

/// The prefix under which a node's children and details are drawn.
pub open spec fn child_prefix(prefix: Seq<char>, last: bool, sym: UiSymbols) -> Seq<char> {
    prefix + if last {
        "   "@
    } else {
        sym.branch_pipe@
    }
}

/// The outline of the tree below `n`: its line, drawn after `prefix` with
/// the end or tee glyph, showing `index` (its place in display order),
/// its detail lines, then its children in order.
pub open spec fn node_outline(n: TraceNode, prefix: Seq<char>, last: bool, index: nat, sym: UiSymbols) -> Seq<char>
    decreases n, 0nat,
{
    let branch = if last {
        sym.branch_end@
    } else {
        sym.branch_tee@
    };
    let inner = child_prefix(prefix, last, sym);
    prefix + branch + "["@ + decimal(index) + "] "@ + hop_summary_text(n.hop, sym) + "\n"@ + indented_block(
        detail_text_lines(n.hop, sym),
        inner + "   "@,
    ) + list_outline(n.children@, 0, inner, index + 1, sym)
}

/// The outlines of children `i..`, the first of them at display index
/// `index`.
pub open spec fn list_outline(cs: Seq<TraceNode>, i: int, prefix: Seq<char>, index: nat, sym: UiSymbols) -> Seq<char>
    decreases cs, if 0 <= i < cs.len() { (cs.len() - i) as nat } else { 0 },
{
    if 0 <= i < cs.len() {
        node_outline(cs[i], prefix, i + 1 == cs.len(), index, sym) + list_outline(
            cs,
            i + 1,
            prefix,
            index + node_count(cs[i]),
            sym,
        )
    } else {
        Seq::empty()
    }
}

/// The outline of a trace: `QNAME QTYPE`, then the tree from the root.
pub open spec fn trace_outline(tree: TraceTree, sym: UiSymbols) -> Seq<char> {
    tree.qname@ + " "@ + tree.qtype@ + "\n"@ + node_outline(tree.root, Seq::empty(), true, 0, sym)
}

/// The line of a node and its indented detail lines.
fn node_head(node: &TraceNode, last: bool, prefix: &str, inner: &str, index: usize, symbols: UiSymbols) -> (s: String)
    ensures
        s@ == prefix@ + (if last { symbols.branch_end@ } else { symbols.branch_tee@ }) + "["@ + decimal(
            index as nat,
        ) + "] "@ + hop_summary_text(node.hop, symbols) + "\n"@ + indented_block(
            detail_text_lines(node.hop, symbols),
            inner@ + "   "@,
        ),
{
    let branch = if last {
        symbols.branch_end
    } else {
        symbols.branch_tee
    };
    let mut s = owned(prefix);
    push_str(&mut s, branch);
    push_str(&mut s, "[");
    push_decimal(&mut s, index as u64);
    push_str(&mut s, "] ");
    let summary = hop_summary_line(&node.hop, symbols);
    push_str(&mut s, summary.as_str());
    push_str(&mut s, "\n");
    let mut detail_indent = owned(inner);
    push_str(&mut detail_indent, "   ");
    let block = render_indented_block(&hop_detail_lines(&node.hop, symbols), detail_indent.as_str());
    push_str(&mut s, block.as_str());
    s
}

#[verifier::rlimit(40)]
fn render_trace_node(
    node: &TraceNode,
    last: bool,
    prefix: &str,
    index: usize,
    symbols: UiSymbols,
    output: &mut String,
) -> (next: usize)
    requires
        index + node_count(*node) <= usize::MAX,
    ensures
        final(output)@ == old(output)@ + node_outline(*node, prefix@, last, index as nat, symbols),
        next == index + node_count(*node),
    decreases node, 0nat,
{
    let mut inner = owned(prefix);
    if last {
        push_str(&mut inner, "   ");
    } else {
        push_str(&mut inner, symbols.branch_pipe);
    }
    let head = node_head(node, last, prefix, inner.as_str(), index, symbols);
    push_str(output, head.as_str());
    let next = render_children(&node.children, 0, inner.as_str(), index + 1, symbols, output);
    assert(output@ =~= old(output)@ + node_outline(*node, prefix@, last, index as nat, symbols));
    next
}

fn render_children(
    cs: &Vec<TraceNode>,
    i: usize,
    prefix: &str,
    index: usize,
    symbols: UiSymbols,
    output: &mut String,
) -> (next: usize)
    requires
        i <= cs@.len(),
        index + list_count(cs@, i as int) <= usize::MAX,
    ensures
        final(output)@ == old(output)@ + list_outline(cs@, i as int, prefix@, index as nat, symbols),
        next == index + list_count(cs@, i as int),
    decreases cs@, cs@.len() - i,
{
    if i >= cs.len() {
        return index;
    }
    let after = render_trace_node(&cs[i], i + 1 == cs.len(), prefix, index, symbols, output);
    let next = render_children(cs, i + 1, prefix, after, symbols, output);
    proof {
        assert(output@ =~= old(output)@ + list_outline(cs@, i as int, prefix@, index as nat, symbols));
    }
    next
}

/// The outline of a trace, as `session outline` prints it. (The tree is
/// taken to have fewer than `usize::MAX` nodes, as any tree in memory
/// does.)
pub fn render_trace_outline(tree: &TraceTree, symbols: UiSymbols) -> (s: String)
    requires
        node_count(tree.root) <= usize::MAX,
    ensures
        s@ == trace_outline(*tree, symbols),
{
    let mut output = owned(tree.qname.as_str());
    push_str(&mut output, " ");
    push_str(&mut output, tree.qtype.as_str());
    push_str(&mut output, "\n");
    let _ = render_trace_node(&tree.root, true, "", 0, symbols, &mut output);
    proof {
        reveal_strlit("");
    }
    output
}

} // verus!
