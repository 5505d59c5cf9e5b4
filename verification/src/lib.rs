//! delve: the decision logic of a DNS delegation-path tracer, with its
//! contracts stated and proved in Verus.
//!
//! The modules hold the logic that needs no terminal, network or disk:
//! configuration parsing and defaults, argument parsing, pane and scroll
//! arithmetic, colour ramps, the explore loop's step function, branch
//! planning and attachment, and the text that the tool prints.

pub mod text;
pub mod config;
pub mod retention;
pub mod explore;
pub mod branch;
pub mod node_path;
pub mod export;
pub mod query_option;
pub mod dig_options;
pub mod expand_confirm;
pub mod family_notice;
pub mod icmp_notice;
pub mod hop_display;
pub mod args;
pub mod cdt;
pub mod paths;
pub mod clock;
pub mod capture;
pub mod last_session;
pub mod progress;
pub mod name_set;
pub mod session_text;
pub mod branch_run;
pub mod branch_targets;
