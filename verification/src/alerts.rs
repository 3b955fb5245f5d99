//! The alert heuristic: a cheap, stateless, single-packet verdict.

use vstd::prelude::*;
use crate::models::{IpReputation, Packet};

verus! {

/// When a packet counts as suspicious: a reputation score above 70, or
/// cleartext FTP control traffic (IP protocol number 21) regardless of
/// reputation.
pub open spec fn spec_suspicious(packet: &Packet, rep: Option<&IpReputation>) -> bool {
    ||| rep matches Some(r) && r.score > 70
    ||| packet.ip matches Some(ip) && ip.protocol == 21
}

/// Flags a packet as suspicious, from its headers and an optional
/// reputation supplied by the enrichment collaborator.
pub fn detect_suspicious(packet: &Packet, rep: Option<&IpReputation>) -> (verdict: bool)
    ensures
        verdict == spec_suspicious(packet, rep),
{
    if let Some(r) = rep {
        if r.score > 70 {
            return true;
        }
    }

    if let Some(ip) = &packet.ip {
        if ip.protocol == 21 {
            return true;
        }
    }

    false
}

} // verus!
