//! The protocol classifier: a best-effort application-level label from a
//! packet's header fields and, for ambiguous ports, its payload prefix.

use vstd::prelude::*;
use crate::models::{Packet, TransportProtocol};
use crate::text::{contains_char, str_contains_char};

verus! {

/// A TLS record prefix: content type 0x16 (handshake), major version 0x03.
pub open spec fn spec_tls(payload: Seq<u8>) -> bool {
    payload.len() >= 5 && payload[0] == 0x16 && payload[1] == 0x03
}

/// A TLS 1.2 record prefix.
pub open spec fn spec_tls12(payload: Seq<u8>) -> bool {
    payload.len() >= 3 && payload[0] == 0x16 && payload[1] == 0x03 && payload[2] == 0x03
}

/// A TLS 1.3 record prefix.
pub open spec fn spec_tls13(payload: Seq<u8>) -> bool {
    payload.len() >= 3 && payload[0] == 0x16 && payload[1] == 0x03 && payload[2] == 0x04
}

/// Sniffs a generic TLS record at the start of the raw frame bytes.
pub fn looks_like_tls(payload: &[u8]) -> (r: bool)
    ensures
        r == spec_tls(payload@),
{
    if payload.len() < 5 {
        return false;
    }
    *vstd::slice::slice_index_get(payload, 0) == 0x16 && *vstd::slice::slice_index_get(payload, 1)
        == 0x03
}

/// Sniffs a TLS 1.2 record at the start of the raw frame bytes.
pub fn is_tls12(payload: &[u8]) -> (r: bool)
    ensures
        r == spec_tls12(payload@),
{
    if payload.len() < 3 {
        return false;
    }
    *vstd::slice::slice_index_get(payload, 0) == 0x16 && *vstd::slice::slice_index_get(payload, 1)
        == 0x03 && *vstd::slice::slice_index_get(payload, 2) == 0x03
}

/// Sniffs a TLS 1.3 record at the start of the raw frame bytes.
pub fn is_tls13(payload: &[u8]) -> (r: bool)
    ensures
        r == spec_tls13(payload@),
{
    if payload.len() < 3 {
        return false;
    }
    *vstd::slice::slice_index_get(payload, 0) == 0x16 && *vstd::slice::slice_index_get(payload, 1)
        == 0x03 && *vstd::slice::slice_index_get(payload, 2) == 0x04
}

/// The source/destination port pair a transport layer carries, if any.
pub open spec fn spec_ports(t: Option<TransportProtocol>) -> Option<(u16, u16)> {
    match t {
        Some(TransportProtocol::Tcp(h)) => Some((h.src_port, h.dst_port)),
        Some(TransportProtocol::Udp(h)) => Some((h.src_port, h.dst_port)),
        _ => None,
    }
}

/// The label for TCP traffic on a port pair, ports taken unordered so that
/// a well-known port matches on either side of the connection.
pub open spec fn spec_classify_tcp(minp: u16, maxp: u16, payload: Seq<u8>) -> Seq<char> {
    if minp == 53 {
        "DNS"@
    } else if minp == 80 || maxp == 80 {
        "HTTP"@
    } else if minp == 443 || maxp == 443 {
        if spec_tls13(payload) {
            "TLSv1.3"@
        } else if spec_tls12(payload) {
            "TLSv1.2"@
        } else if spec_tls(payload) {
            "TLS"@
        } else {
            "HTTPS"@
        }
    } else {
        "TCP"@
    }
}

/// The label for UDP traffic, selected by the smaller port of the pair.
pub open spec fn spec_classify_udp(minp: u16) -> Seq<char> {
    if minp == 53 {
        "DNS"@
    } else if minp == 67 || minp == 68 {
        "DHCP"@
    } else if minp == 123 {
        "NTP"@
    } else if minp == 137 {
        "NBNS"@
    } else if minp == 1900 {
        "SSDP"@
    } else if minp == 5353 {
        "mDNS"@
    } else if minp == 443 {
        "QUIC"@
    } else {
        "UDP"@
    }
}

/// The classification policy: Ethernet-only overrides first, then dispatch
/// on the IP protocol number, with port heuristics and TLS sniffing for TCP
/// and UDP, and the textual address form deciding IPV6 against IPV4.
pub open spec fn spec_classify(p: &Packet) -> Seq<char> {
    if p.eth matches Some(e) && e.ethertype == 0x0806 {
        "ARP"@
    } else if p.eth matches Some(e) && e.ethertype == 0x88CC {
        "LLDP"@
    } else if p.ip is Some {
        let ip = p.ip->0;
        let proto = ip.protocol;
        if proto == 1 {
            "ICMP"@
        } else if proto == 2 {
            "IGMPv2"@
        } else if proto == 58 {
            "ICMPv6"@
        } else if proto == 6 {
            match spec_ports(p.transport) {
                Some((sport, dport)) => {
                    let minp = if sport < dport {
                        sport
                    } else {
                        dport
                    };
                    let maxp = if sport < dport {
                        dport
                    } else {
                        sport
                    };
                    spec_classify_tcp(minp, maxp, p.payload@)
                },
                None => "TCP"@,
            }
        } else if proto == 17 {
            match spec_ports(p.transport) {
                Some((sport, dport)) => spec_classify_udp(
                    if sport < dport {
                        sport
                    } else {
                        dport
                    },
                ),
                None => "UDP"@,
            }
        } else {
            if contains_char(ip.src_ip@, ':') || contains_char(ip.dst_ip@, ':') {
                "IPV6"@
            } else {
                "IPV4"@
            }
        }
    } else {
        "OTHER"@
    }
}

/// Assigns a packet its label, a pure function of the header fields and the
/// payload prefix.
pub fn classify(packet: &Packet) -> (r: &'static str)
    ensures
        r@ == spec_classify(packet),
{
    if let Some(eth) = &packet.eth {
        if eth.ethertype == 0x0806 {
            return "ARP";
        }
        if eth.ethertype == 0x88CC {
            return "LLDP";
        }
    }

    let ports: Option<(u16, u16)> = match &packet.transport {
        Some(TransportProtocol::Tcp(t)) => Some((t.src_port, t.dst_port)),
        Some(TransportProtocol::Udp(u)) => Some((u.src_port, u.dst_port)),
        _ => None,
    };

    if let Some(ip) = &packet.ip {
        let proto = ip.protocol;
        if proto == 1 {
            return "ICMP";
        }
        if proto == 2 {
            return "IGMPv2";
        }
        if proto == 58 {
            return "ICMPv6";
        }
        if proto == 6 {
            if let Some((sport, dport)) = ports {
                let (minp, maxp) = if sport < dport {
                    (sport, dport)
                } else {
                    (dport, sport)
                };
                if minp == 53 {
                    return "DNS";
                }
                if minp == 80 || maxp == 80 {
                    return "HTTP";
                }
                if minp == 443 || maxp == 443 {
                    if is_tls13(packet.payload.as_slice()) {
                        return "TLSv1.3";
                    }
                    if is_tls12(packet.payload.as_slice()) {
                        return "TLSv1.2";
                    }
                    if looks_like_tls(packet.payload.as_slice()) {
                        return "TLS";
                    }
                    return "HTTPS";
                }
            }
            return "TCP";
        }
        if proto == 17 {
            if let Some((sport, dport)) = ports {
                let minp = if sport < dport {
                    sport
                } else {
                    dport
                };
                if minp == 53 {
                    return "DNS";
                }
                if minp == 67 || minp == 68 {
                    return "DHCP";
                }
                if minp == 123 {
                    return "NTP";
                }
                if minp == 137 {
                    return "NBNS";
                }
                if minp == 1900 {
                    return "SSDP";
                }
                if minp == 5353 {
                    return "mDNS";
                }
                if minp == 443 {
                    return "QUIC";
                }
            }
            return "UDP";
        }
        if str_contains_char(ip.src_ip.as_str(), ':') || str_contains_char(ip.dst_ip.as_str(), ':')
        {
            return "IPV6";
        }
        return "IPV4";
    }

    "OTHER"
}

/// Two packets that agree everywhere except that the transport layer's
/// source and destination ports are exchanged.
pub open spec fn ports_swapped(p1: &Packet, p2: &Packet) -> bool {
    &&& p1.timestamp == p2.timestamp
    &&& p1.eth == p2.eth
    &&& p1.ip == p2.ip
    &&& p1.payload@ == p2.payload@
    &&& match (p1.transport, p2.transport) {
        (Some(TransportProtocol::Tcp(t1)), Some(TransportProtocol::Tcp(t2))) => t1.src_port
            == t2.dst_port && t1.dst_port == t2.src_port && t1.flags == t2.flags,
        (Some(TransportProtocol::Udp(u1)), Some(TransportProtocol::Udp(u2))) => u1.src_port
            == u2.dst_port && u1.dst_port == u2.src_port,
        (a, b) => a == b,
    }
}

/// Classification is symmetric under swapping source and destination
/// ports: port matching always compares the unordered pair, so a
/// well-known port matches identically regardless of direction.
pub proof fn lemma_classify_port_symmetric(p1: &Packet, p2: &Packet)
    requires
        ports_swapped(p1, p2),
    ensures
        spec_classify(p1) == spec_classify(p2),
{
}

} // verus!

