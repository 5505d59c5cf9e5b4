//! What a saved session records about where the trace ran from.

use vstd::prelude::*;

use crate::clock::{now_rfc3339, now_text, reading_ok, ClockReading};
use crate::config::{DelveConfig, IpAddress};
use crate::text::{chars_of, eq_lit, owned};

verus! {

/// The public address recorded with a session.
#[derive(Debug, Clone, PartialEq, Eq)]
pub struct PublicIpCapture {
    pub provider: String,
    pub address: IpAddress,
    pub observed_at: String,
}

/// Where a trace ran from.
#[derive(Debug, Clone, PartialEq, Eq)]
pub struct CaptureContext {
    pub local_source_ips: Vec<IpAddress>,
    pub public_ip: Option<PublicIpCapture>,
}

/// Whether the configuration yields a capture: capture enabled, the
/// `static` provider, and an address configured.
pub open spec fn captures(config: DelveConfig) -> bool {
    config.capture_public_ip_enabled && config.capture_public_ip_provider@ == "static"@
        && config.capture_public_ip_static_address is Some
}

fn resolve_public_ip(config: &DelveConfig) -> (r: Option<PublicIpCapture>)
    ensures
        match r {
            Some(p) => config.capture_public_ip_provider@ == "static"@
                && config.capture_public_ip_static_address == Some(p.address) && p.provider@ == "static"@
                && exists|r: ClockReading| #[trigger] reading_ok(r) && p.observed_at@ == now_text(r),
            None => !(config.capture_public_ip_provider@ == "static"@
                && config.capture_public_ip_static_address is Some),
        },
{
    let provider = chars_of(config.capture_public_ip_provider.as_str());
    if eq_lit(&provider, "static") {
        match config.capture_public_ip_static_address {
            Some(address) => Some(
                PublicIpCapture { provider: owned("static"), address, observed_at: now_rfc3339() },
            ),
            None => None,
        }
    } else {
        None
    }
}

/// The capture context for a new session: none unless public-address
/// capture is enabled and resolves; the `static` provider records the
/// configured address without any network access, with the time of
/// capture as `now_rfc3339` writes it.
pub fn capture_context_from_config(config: &DelveConfig) -> (r: Option<CaptureContext>)
    ensures
        r is Some <==> captures(*config),
        match r {
            Some(c) => c.local_source_ips@.len() == 0 && (c.public_ip matches Some(p) && p.provider@
                == "static"@ && config.capture_public_ip_static_address == Some(p.address) && exists|
                rd: ClockReading,
            | #[trigger] reading_ok(rd) && p.observed_at@ == now_text(rd)),
            None => true,
        },
{
    if !config.capture_public_ip_enabled {
        return None;
    }
    match resolve_public_ip(config) {
        Some(public_ip) => Some(CaptureContext { local_source_ips: Vec::new(), public_ip: Some(public_ip) }),
        None => None,
    }
}

} // verus!
