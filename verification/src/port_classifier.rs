//! A coarser classifier that labels traffic by the destination port alone,
//! kept alongside the payload-sniffing one for callers that only need a
//! quick directional label.

use vstd::prelude::*;
use crate::models::{Packet, TransportProtocol};

verus! {

/// The destination-port label: a fixed table for TCP and UDP, "ICMP" for
/// ICMP, and "Unknown" for anything else.
pub open spec fn spec_port_label(t: Option<TransportProtocol>) -> Seq<char> {
    match t {
        Some(TransportProtocol::Tcp(h)) => if h.dst_port == 80 {
            "HTTP"@
        } else if h.dst_port == 443 {
            "HTTPS"@
        } else if h.dst_port == 22 {
            "SSH"@
        } else if h.dst_port == 53 {
            "DNS-over-TCP"@
        } else {
            "TCP"@
        },
        Some(TransportProtocol::Udp(h)) => if h.dst_port == 53 {
            "DNS"@
        } else if h.dst_port == 67 || h.dst_port == 68 {
            "DHCP"@
        } else {
            "UDP"@
        },
        Some(TransportProtocol::Icmp) => "ICMP"@,
        _ => "Unknown"@,
    }
}

/// Labels a packet from its transport layer's destination port alone.
pub fn classify(packet: &Packet) -> (r: String)
    ensures
        r@ == spec_port_label(packet.transport),
{
    match &packet.transport {
        Some(TransportProtocol::Tcp(t)) => {
            if t.dst_port == 80 {
                String::from_str("HTTP")
            } else if t.dst_port == 443 {
                String::from_str("HTTPS")
            } else if t.dst_port == 22 {
                String::from_str("SSH")
            } else if t.dst_port == 53 {
                String::from_str("DNS-over-TCP")
            } else {
                String::from_str("TCP")
            }
        },
        Some(TransportProtocol::Udp(u)) => {
            if u.dst_port == 53 {
                String::from_str("DNS")
            } else if u.dst_port == 67 || u.dst_port == 68 {
                String::from_str("DHCP")
            } else {
                String::from_str("UDP")
            }
        },
        Some(TransportProtocol::Icmp) => String::from_str("ICMP"),
        _ => String::from_str("Unknown"),
    }
}

} // verus!
