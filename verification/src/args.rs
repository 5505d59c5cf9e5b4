//! The `delve` command line as plain data. The front end parses the
//! arguments and hands them over in these types.

use vstd::prelude::*;

verus! {

/// `delve`: the top level.
#[derive(Debug, Clone, PartialEq, Eq)]
pub struct Cli {
    pub command: Command,
}

/// The subcommands.
#[derive(Debug, Clone, PartialEq, Eq)]
pub enum Command {
    /// Trace the delegation path for a query name.
    Trace(TraceArgs),
    /// Inspect or manage stored trace sessions.
    Session(SessionCommand),
    /// Inspect or manage the response cache.
    Cache(CacheCommand),
}

/// `delve trace`: the dig-style arguments, read by `parse_trace_args`.
#[derive(Debug, Clone, PartialEq, Eq)]
pub struct TraceArgs {
    pub args: Vec<String>,
}

/// `delve session`.
#[derive(Debug, Clone, PartialEq, Eq)]
pub struct SessionCommand {
    pub command: SessionSubcommand,
}

/// The session subcommands.
#[derive(Debug, Clone, PartialEq, Eq)]
pub enum SessionSubcommand {
    List,
    Current,
    Show(SessionShowArgs),
    Rm(SessionRmArgs),
    Pin(SessionIdArgs),
    Unpin(SessionIdArgs),
    Purge(SessionPurgeArgs),
    Outline(SessionOutlineArgs),
    Events(SessionEventsArgs),
    Explore(SessionExploreArgs),
    Branch(SessionBranchArgs),
}

/// `delve session branch`: the node by display index or path, and what to
/// query there.
#[derive(Debug, Clone, PartialEq, Eq)]
pub struct SessionBranchArgs {
    pub id: Option<String>,
    pub at_hop: Option<usize>,
    pub at_path: Option<String>,
    pub server: Option<String>,
    pub expand: bool,
    pub dry_run: bool,
}

/// `delve session outline`.
#[derive(Debug, Clone, PartialEq, Eq)]
pub struct SessionOutlineArgs {
    pub id: Option<String>,
}

/// `delve session events`.
#[derive(Debug, Clone, PartialEq, Eq)]
pub struct SessionEventsArgs {
    pub id: Option<String>,
}

/// `delve session explore`.
#[derive(Debug, Clone, PartialEq, Eq)]
pub struct SessionExploreArgs {
    pub id: Option<String>,
}

/// `delve session show`.
#[derive(Debug, Clone, PartialEq, Eq)]
pub struct SessionShowArgs {
    pub id: Option<String>,
    pub json: bool,
}

/// `delve session rm`.
#[derive(Debug, Clone, PartialEq, Eq)]
pub struct SessionRmArgs {
    pub id: String,
}

/// `delve session pin` and `unpin`.
#[derive(Debug, Clone, PartialEq, Eq)]
pub struct SessionIdArgs {
    pub id: String,
}

/// `delve session purge`.
#[derive(Debug, Clone, PartialEq, Eq)]
pub struct SessionPurgeArgs {
    pub id: Option<String>,
    pub all: bool,
    pub dry_run: bool,
}

/// `delve cache`.
#[derive(Debug, Clone, PartialEq, Eq)]
pub struct CacheCommand {
    pub command: CacheSubcommand,
}

/// The cache subcommands.
#[derive(Debug, Clone, PartialEq, Eq)]
pub enum CacheSubcommand {
    Stats,
    Purge(CachePurgeArgs),
}

/// `delve cache purge`.
#[derive(Debug, Clone, Copy, PartialEq, Eq, Structural)]
pub struct CachePurgeArgs {
    pub expired: bool,
    pub all: bool,
}

/// What `delve cache purge` removes.
#[derive(Debug, Clone, Copy, PartialEq, Eq, Structural)]
pub enum CachePurgeScope {
    Expired,
    All,
}

/// `--all` removes everything; otherwise (with `--expired` or no flag)
/// only expired entries go.
pub fn cache_purge_scope(args: CachePurgeArgs) -> (r: CachePurgeScope)
    ensures
        r == if args.all { CachePurgeScope::All } else { CachePurgeScope::Expired },
{
    if args.all {
        CachePurgeScope::All
    } else {
        CachePurgeScope::Expired
    }
}

} // verus!
