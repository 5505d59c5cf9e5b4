//! Refreshing the RTTs of a stored trace: what a refresh covers, and
//! whether its results still need saving.

use vstd::prelude::*;

verus! {

/// What a refresh re-measures.
#[derive(Debug, Clone, Copy, PartialEq, Eq, Structural)]
pub enum RefreshScope {
    All,
    DnsRttOnly,
    IcmpOnly,
}

/// Which measurements a scope runs: `(dns, icmp)`.
pub fn refresh_plan(scope: RefreshScope) -> (r: (bool, bool))
    ensures
        r.0 == (scope != RefreshScope::IcmpOnly),
        r.1 == (scope != RefreshScope::DnsRttOnly),
{
    match scope {
        RefreshScope::All => (true, true),
        RefreshScope::DnsRttOnly => (true, false),
        RefreshScope::IcmpOnly => (false, true),
    }
}

/// What re-querying the trace's hops changed.
#[derive(Debug, Clone, Copy, PartialEq, Eq, Structural)]
pub struct DnsRefreshReport {
    pub hops_total: usize,
    pub hops_updated: usize,
    pub hops_failed: usize,
}

/// What re-probing the ICMP targets changed.
#[derive(Debug, Clone, PartialEq, Eq)]
pub struct IcmpRefreshReport {
    pub targets_total: usize,
    pub targets_updated: usize,
    pub targets_failed: usize,
    pub capability_notice: Option<String>,
}

/// The outcome of a refresh of either kind.
#[derive(Debug, Clone, PartialEq, Eq)]
pub struct UnifiedRefreshReport {
    pub dns: Option<DnsRefreshReport>,
    pub icmp: Option<IcmpRefreshReport>,
}

impl UnifiedRefreshReport {
    /// Whether any hop or target got a new measurement that is not saved.
    pub fn has_unsaved_changes(&self) -> (r: bool)
        ensures
            r == ((self.dns matches Some(d) && d.hops_updated > 0) || (self.icmp matches Some(i)
                && i.targets_updated > 0)),
    {
        let dns = match &self.dns {
            Some(d) => d.hops_updated > 0,
            None => false,
        };
        let icmp = match &self.icmp {
            Some(i) => i.targets_updated > 0,
            None => false,
        };
        dns || icmp
    }
}

/// Progress reports of a refresh, implemented by the front end.
pub trait UnifiedRefreshProgress {
    fn dns_hop_started(&mut self, current: usize, total: usize);

    fn icmp_target_started(&mut self, current: usize, total: usize);
}

/// Why a refresh failed.
#[derive(Debug, Clone, PartialEq, Eq)]
pub enum RefreshError {
    /// The stored request could not be turned into a trace configuration.
    TraceConfig(String),
    /// The session store failed.
    Session(String),
    /// The session holds no trace tree.
    NoTree,
}

impl RefreshError {
    /// The message shown for the error.
    pub fn message(&self) -> (s: String)
        ensures
            s@ == match self {
                RefreshError::TraceConfig(m) => m@,
                RefreshError::Session(m) => m@,
                RefreshError::NoTree => "session has no trace tree"@,
            },
    {
        match self {
            RefreshError::TraceConfig(m) => m.clone(),
            RefreshError::Session(m) => m.clone(),
            RefreshError::NoTree => String::from_str("session has no trace tree"),
        }
    }
}

} // verus!
