//! The explore screens: layout arithmetic, colours, symbols and the text
//! they show.

pub mod pane_split;
pub mod view_state;
pub mod terminal;
pub mod rtt_color;
pub mod theme;
pub mod compare_screen;
pub mod path_timing;
pub mod rtt_bar;
pub mod detail;
pub mod options;
pub mod help;
pub mod tui_state;
pub mod flags;
pub mod path_summary;
pub mod refresh;
pub mod fork_summary;
pub mod outline;
pub mod tui_step;
pub mod compare_columns;

use vstd::prelude::*;

verus! {

/// Why an explore command could not run.
#[derive(Debug, Clone, PartialEq, Eq)]
pub enum ExploreError {
    /// Reading or writing failed; the message of the I/O error.
    Io(String),
    /// Explore needs an interactive terminal.
    NotTerminal,
    /// The session has no trace tree.
    NoTraceTree,
    /// The target has no sibling paths.
    NothingToCompare { target: String },
    /// The compare target named no node.
    UnresolvedCompareTarget(String),
}

impl ExploreError {
    /// The message shown for the error.
    pub fn message(&self) -> (s: String)
        ensures
            s@ == match self {
                ExploreError::Io(m) => m@,
                ExploreError::NotTerminal =>
                    "explore requires an interactive terminal (stdin and stdout); use `delve session outline` for a printable tree"@,
                ExploreError::NoTraceTree => "session has no trace tree"@,
                ExploreError::NothingToCompare { target } => "nothing to compare at "@ + target@
                    + ": no sibling paths"@,
                ExploreError::UnresolvedCompareTarget(m) => m@,
            },
    {
        match self {
            ExploreError::Io(m) => m.clone(),
            ExploreError::NotTerminal => String::from_str(
                "explore requires an interactive terminal (stdin and stdout); use `delve session outline` for a printable tree",
            ),
            ExploreError::NoTraceTree => String::from_str("session has no trace tree"),
            ExploreError::NothingToCompare { target } => {
                let mut s = String::new();
                s.append("nothing to compare at ");
                s.append(target.as_str());
                s.append(": no sibling paths");
                s
            },
            ExploreError::UnresolvedCompareTarget(m) => m.clone(),
        }
    }
}

/// The tree that explore shows: the session's first tree, if it has one.
pub fn primary_tree_index(tree_count: usize) -> (r: Result<usize, ExploreError>)
    ensures
        tree_count > 0 ==> r == Ok::<usize, ExploreError>(0),
        tree_count == 0 ==> r == Err::<usize, ExploreError>(ExploreError::NoTraceTree),
{
    if tree_count > 0 {
        Ok(0)
    } else {
        Err(ExploreError::NoTraceTree)
    }
}

} // verus!
pub mod tree;
pub mod hop_identity;
