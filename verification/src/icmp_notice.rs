//! Guidance printed when comparison ICMP cannot use datagram sockets.

use vstd::prelude::*;

use crate::text::{chars_of, string_of, trim, trim_chars};

verus! {

/// How network RTTs can be measured on this machine.
#[derive(Debug, Clone, Copy, PartialEq, Eq, Structural)]
pub enum IcmpProbeCapability {
    /// Unprivileged ICMP datagram sockets.
    Datagram,
    /// The system `ping` command.
    PingCommand,
    /// Neither.
    Unavailable,
}

/// How to silence the notice.
pub open spec fn disable_hint() -> Seq<char> {
    " To silence this notice, set enrichment.icmp.enabled: false in delve.yaml."@
}

/// The Linux sysctl that lets group `gid` open ICMP datagram sockets.
pub open spec fn ping_group_hint(gid: Seq<char>) -> Seq<char> {
    " Optional native fix: sudo sysctl -w net.ipv4.ping_group_range=\"0 "@ + gid + "\"."@
}

/// The group id for the hint: the output of `id -g` trimmed, or `1000`
/// when there is none.
pub open spec fn gid_for_hint(id_output: Option<Seq<char>>) -> Seq<char> {
    match id_output {
        Some(o) => if trim(o).len() > 0 { trim(o) } else { "1000"@ },
        None => "1000"@,
    }
}

/// The group id to suggest, from what `id -g` printed (`None` when it could
/// not be run or printed no text).
pub fn ping_group_gid(id_output: Option<&str>) -> (s: String)
    ensures
        s@ == gid_for_hint(
            match id_output {
                Some(o) => Some(o@),
                None => None,
            },
        ),
{
    match id_output {
        Some(o) => {
            let t = trim_chars(&chars_of(o));
            if t.len() > 0 {
                string_of(&t)
            } else {
                String::from_str("1000")
            }
        },
        None => String::from_str("1000"),
    }
}

/// The notice for a capability; on Linux (`linux_gid` given) it adds the
/// sysctl hint for that group.
pub open spec fn icmp_notice(capability: IcmpProbeCapability, linux_gid: Option<Seq<char>>) -> Option<
    Seq<char>,
> {
    let hint = match linux_gid {
        Some(g) => ping_group_hint(g),
        None => Seq::empty(),
    };
    match capability {
        IcmpProbeCapability::Datagram => None,
        IcmpProbeCapability::PingCommand => Some(
            "icmp: unprivileged ICMP sockets unavailable; using /bin/ping for network RTT."@ + hint
                + disable_hint(),
        ),
        IcmpProbeCapability::Unavailable => Some(
            "icmp: unavailable — unprivileged ICMP sockets are blocked and /bin/ping is not usable."@
                + hint + disable_hint(),
        ),
    }
}

/// The stderr guidance for a comparison's ICMP capability, if any.
pub fn format_comparison_icmp_notice(capability: IcmpProbeCapability, linux_gid: Option<&str>) -> (r:
    Option<String>)
    ensures
        match icmp_notice(
            capability,
            match linux_gid {
                Some(g) => Some(g@),
                None => None,
            },
        ) {
            Some(t) => r matches Some(s) && s@ == t,
            None => r is None,
        },
{
    let first = match capability {
        IcmpProbeCapability::Datagram => {
            return None;
        },
        IcmpProbeCapability::PingCommand => "icmp: unprivileged ICMP sockets unavailable; using /bin/ping for network RTT.",
        IcmpProbeCapability::Unavailable => "icmp: unavailable — unprivileged ICMP sockets are blocked and /bin/ping is not usable.",
    };
    let mut s = String::new();
    s.append(first);
    match linux_gid {
        Some(g) => {
            s.append(" Optional native fix: sudo sysctl -w net.ipv4.ping_group_range=\"0 ");
            s.append(g);
            s.append("\".");
        },
        None => {},
    }
    s.append(" To silence this notice, set enrichment.icmp.enabled: false in delve.yaml.");
    Some(s)
}

} // verus!
