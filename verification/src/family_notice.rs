//! The one-line notice of which address family a trace uses, and why.

use vstd::prelude::*;

use crate::dig_options::{AddressFamilyRequest, FamilySource};

verus! {

/// The address families a trace ends up using.
#[derive(Debug, Clone, Copy, PartialEq, Eq, Structural)]
pub enum ResolvedAddressFamily {
    V4,
    V6,
    Both,
}

/// How the notice names a resolved family.
pub open spec fn family_label(resolved: ResolvedAddressFamily) -> Seq<char> {
    match resolved {
        ResolvedAddressFamily::V4 => "v4-only"@,
        ResolvedAddressFamily::V6 => "v6-only"@,
        ResolvedAddressFamily::Both => "dual-stack"@,
    }
}

impl ResolvedAddressFamily {
    /// The family's label.
    pub fn label(self) -> (s: &'static str)
        ensures
            s@ == family_label(self),
    {
        match self {
            ResolvedAddressFamily::V4 => "v4-only",
            ResolvedAddressFamily::V6 => "v6-only",
            ResolvedAddressFamily::Both => "dual-stack",
        }
    }
}

/// Why automatic selection chose the family: IPv6 was unreachable, or the
/// probe succeeded.
pub open spec fn probe_reason(resolved: ResolvedAddressFamily) -> Seq<char> {
    match resolved {
        ResolvedAddressFamily::V4 => "ipv6 unreachable"@,
        _ => "ipv6 probe ok"@,
    }
}

/// The reason shown: the flag the operator gave, or the probe's outcome.
pub open spec fn family_reason(source: FamilySource, resolved: ResolvedAddressFamily) -> Seq<char> {
    match source {
        FamilySource::Default => probe_reason(resolved),
        FamilySource::Minus4 => "-4"@,
        FamilySource::Minus6 => "-6"@,
        FamilySource::PlusFamily(f) => match f {
            AddressFamilyRequest::Auto => probe_reason(resolved),
            AddressFamilyRequest::V4 => "+family=v4"@,
            AddressFamilyRequest::V6 => "+family=v6"@,
            AddressFamilyRequest::Both => "+family=both"@,
        },
    }
}

/// `address family: LABEL (REASON)`.
pub fn format_family_notice(
    source: FamilySource,
    _request: AddressFamilyRequest,
    resolved: ResolvedAddressFamily,
) -> (s: String)
    ensures
        s@ == "address family: "@ + family_label(resolved) + " ("@ + family_reason(source, resolved)
            + ")"@,
{
    let probe = match resolved {
        ResolvedAddressFamily::V4 => "ipv6 unreachable",
        _ => "ipv6 probe ok",
    };
    let reason = match source {
        FamilySource::Default => probe,
        FamilySource::Minus4 => "-4",
        FamilySource::Minus6 => "-6",
        FamilySource::PlusFamily(f) => match f {
            AddressFamilyRequest::Auto => probe,
            AddressFamilyRequest::V4 => "+family=v4",
            AddressFamilyRequest::V6 => "+family=v6",
            AddressFamilyRequest::Both => "+family=both",
        },
    };
    let mut s = String::new();
    s.append("address family: ");
    s.append(resolved.label());
    s.append(" (");
    s.append(reason);
    s.append(")");
    s
}

} // verus!
