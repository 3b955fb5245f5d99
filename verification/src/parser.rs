//! The layered frame decoder: raw captured bytes to a structured `Packet`.
//!
//! Every multi-byte read is gated by an explicit length check, so the
//! decoder never panics on truncated or corrupted input.  A frame shorter
//! than an Ethernet header (14 bytes) is refused; anything longer yields a
//! packet whose higher layers are populated only as far as the bytes allow.

use vstd::prelude::*;
use vstd::slice::{slice_index_get, slice_to_vec};
use crate::models::{EthernetHeader, IpHeader, Packet, TcpHeader, TransportProtocol, UdpHeader};
use crate::text::{dec_digits, hex2, push_hex2, u64_to_dec};

verus! {

broadcast use vstd::slice::group_slice_axioms;

/// The big-endian 16-bit value at offset `i`.
pub open spec fn be16(s: Seq<u8>, i: int) -> u16
    recommends
        0 <= i && i + 1 < s.len(),
{
    ((s[i] as int) * 256 + (s[i + 1] as int)) as u16
}

/// The textual MAC address of the six bytes at offset `i`: twelve lowercase
/// hex digits in colon-separated pairs.
pub open spec fn mac_text(s: Seq<u8>, i: int) -> Seq<char>
    recommends
        0 <= i && i + 5 < s.len(),
{
    hex2(s[i]) + seq![':'] + hex2(s[i + 1]) + seq![':'] + hex2(s[i + 2]) + seq![':'] + hex2(
        s[i + 3],
    ) + seq![':'] + hex2(s[i + 4]) + seq![':'] + hex2(s[i + 5])
}

/// The dotted-quad text of an IPv4 address.
pub open spec fn ipv4_text(a: u8, b: u8, c: u8, d: u8) -> Seq<char> {
    dec_digits(a as nat) + seq!['.'] + dec_digits(b as nat) + seq!['.'] + dec_digits(c as nat)
        + seq!['.'] + dec_digits(d as nat)
}

/// The textual form of the sixteen address bytes at offset `i`: eight
/// colon-separated groups of four lowercase hex digits, uncompressed.
pub open spec fn ipv6_text(s: Seq<u8>, i: int) -> Seq<char>
    recommends
        0 <= i && i + 15 < s.len(),
{
    hex2(s[i]) + hex2(s[i + 1]) + seq![':'] + hex2(s[i + 2]) + hex2(s[i + 3]) + seq![':'] + hex2(
        s[i + 4],
    ) + hex2(s[i + 5]) + seq![':'] + hex2(s[i + 6]) + hex2(s[i + 7]) + seq![':'] + hex2(s[i + 8])
        + hex2(s[i + 9]) + seq![':'] + hex2(s[i + 10]) + hex2(s[i + 11]) + seq![':'] + hex2(
        s[i + 12],
    ) + hex2(s[i + 13]) + seq![':'] + hex2(s[i + 14]) + hex2(s[i + 15])
}

/// The transport layer the decoder extracts from an IPv4 frame: ports are
/// read at fixed offsets past a minimal 20-byte IP header, only when at
/// least 38 bytes are present; TCP flags need byte 47, and a TCP frame too
/// short for it yields no transport layer at all.
pub open spec fn spec_transport(raw: Seq<u8>) -> Option<TransportProtocol> {
    if be16(raw, 12) == 0x0800 && raw.len() >= 38 {
        let proto = raw[23];
        if proto == 6 {
            if raw.len() >= 48 {
                Some(
                    TransportProtocol::Tcp(
                        TcpHeader {
                            src_port: be16(raw, 34),
                            dst_port: be16(raw, 36),
                            flags: raw[47],
                        },
                    ),
                )
            } else {
                None
            }
        } else if proto == 17 {
            Some(
                TransportProtocol::Udp(
                    UdpHeader { src_port: be16(raw, 34), dst_port: be16(raw, 36) },
                ),
            )
        } else if proto == 1 {
            Some(TransportProtocol::Icmp)
        } else {
            Some(TransportProtocol::Unknown)
        }
    } else {
        None
    }
}

/// What the decoder promises of a packet built from `raw` with capture time
/// `ts`: the link layer mirrors bytes [0..14), the IPv4 network layer is
/// present exactly when 34 bytes are, the transport layer follows
/// `spec_transport`, and the payload is the whole raw frame.
pub open spec fn decoded_from(p: Packet, raw: Seq<u8>, ts: u128) -> bool {
    &&& p.timestamp == ts
    &&& p.payload@ == raw
    &&& p.eth matches Some(e) && e.ethertype == be16(raw, 12) && e.src_mac@ == mac_text(raw, 6)
        && e.dst_mac@ == mac_text(raw, 0)
    &&& if be16(raw, 12) == 0x0800 && raw.len() >= 34 {
        p.ip matches Some(ip) && ip.protocol == raw[23] && ip.src_ip@ == ipv4_text(
            raw[26],
            raw[27],
            raw[28],
            raw[29],
        ) && ip.dst_ip@ == ipv4_text(raw[30], raw[31], raw[32], raw[33])
    } else {
        p.ip is None
    }
    &&& p.transport == spec_transport(raw)
}

/// Builds the dotted-quad text of an IPv4 address.
pub fn format_ipv4(a: u8, b: u8, c: u8, d: u8) -> (r: String)
    ensures
        r@ == ipv4_text(a, b, c, d),
{
    proof {
        reveal_strlit(".");
    }
    let mut s = u64_to_dec(a as u64);
    s.append(".");
    let sb = u64_to_dec(b as u64);
    s.append(sb.as_str());
    s.append(".");
    let sc = u64_to_dec(c as u64);
    s.append(sc.as_str());
    s.append(".");
    let sd = u64_to_dec(d as u64);
    s.append(sd.as_str());
    s
}

/// Builds the colon-separated MAC text of the six bytes at offset `i`.
pub fn format_mac(raw: &[u8], i: usize) -> (r: String)
    requires
        i + 6 <= raw@.len(),
    ensures
        r@ == mac_text(raw@, i as int),
{
    proof {
        reveal_strlit(":");
    }
    let n = raw.len();
    let mut s = String::new();
    push_hex2(&mut s, *slice_index_get(raw, i));
    s.append(":");
    push_hex2(&mut s, *slice_index_get(raw, i + 1));
    s.append(":");
    push_hex2(&mut s, *slice_index_get(raw, i + 2));
    s.append(":");
    push_hex2(&mut s, *slice_index_get(raw, i + 3));
    s.append(":");
    push_hex2(&mut s, *slice_index_get(raw, i + 4));
    s.append(":");
    push_hex2(&mut s, *slice_index_get(raw, i + 5));
    s
}

/// Builds the uncompressed group text of the sixteen address bytes at
/// offset `i`.
pub fn format_ipv6(raw: &[u8], i: usize) -> (r: String)
    requires
        i + 16 <= raw@.len(),
    ensures
        r@ == ipv6_text(raw@, i as int),
{
    proof {
        reveal_strlit(":");
    }
    let n = raw.len();
    let mut s = String::new();
    push_hex2(&mut s, *slice_index_get(raw, i));
    push_hex2(&mut s, *slice_index_get(raw, i + 1));
    s.append(":");
    push_hex2(&mut s, *slice_index_get(raw, i + 2));
    push_hex2(&mut s, *slice_index_get(raw, i + 3));
    s.append(":");
    push_hex2(&mut s, *slice_index_get(raw, i + 4));
    push_hex2(&mut s, *slice_index_get(raw, i + 5));
    s.append(":");
    push_hex2(&mut s, *slice_index_get(raw, i + 6));
    push_hex2(&mut s, *slice_index_get(raw, i + 7));
    s.append(":");
    push_hex2(&mut s, *slice_index_get(raw, i + 8));
    push_hex2(&mut s, *slice_index_get(raw, i + 9));
    s.append(":");
    push_hex2(&mut s, *slice_index_get(raw, i + 10));
    push_hex2(&mut s, *slice_index_get(raw, i + 11));
    s.append(":");
    push_hex2(&mut s, *slice_index_get(raw, i + 12));
    push_hex2(&mut s, *slice_index_get(raw, i + 13));
    s.append(":");
    push_hex2(&mut s, *slice_index_get(raw, i + 14));
    push_hex2(&mut s, *slice_index_get(raw, i + 15));
    s
}

fn read_be16(raw: &[u8], i: usize) -> (r: u16)
    requires
        i + 2 <= raw@.len(),
    ensures
        r == be16(raw@, i as int),
{
    let n = raw.len();
    let hi = *slice_index_get(raw, i);
    let lo = *slice_index_get(raw, i + 1);
    (hi as u16) * 256 + (lo as u16)
}

/// Reads the TCP port pair and flag byte at the decoder's fixed offsets.
pub fn parse_tcp(raw: &[u8]) -> (r: Option<TransportProtocol>)
    requires
        raw@.len() >= 48,
    ensures
        r == Some(
            TransportProtocol::Tcp(
                TcpHeader {
                    src_port: be16(raw@, 34),
                    dst_port: be16(raw@, 36),
                    flags: raw@[47],
                },
            ),
        ),
{
    let src_port = read_be16(raw, 34);
    let dst_port = read_be16(raw, 36);
    let flags = *slice_index_get(raw, 47);
    Some(TransportProtocol::Tcp(TcpHeader { src_port, dst_port, flags }))
}

/// Reads the UDP port pair at the decoder's fixed offsets.
pub fn parse_udp(raw: &[u8]) -> (r: Option<TransportProtocol>)
    requires
        raw@.len() >= 38,
    ensures
        r == Some(
            TransportProtocol::Udp(
                UdpHeader { src_port: be16(raw@, 34), dst_port: be16(raw@, 36) },
            ),
        ),
{
    let src_port = read_be16(raw, 34);
    let dst_port = read_be16(raw, 36);
    Some(TransportProtocol::Udp(UdpHeader { src_port, dst_port }))
}

/// Decodes one raw frame captured at time `timestamp`.  Refuses (returns
/// `None`) exactly when fewer than 14 bytes are present; otherwise the
/// packet's layers are populated as far as the bytes allow.
pub fn decode_frame(raw: &[u8], timestamp: u128) -> (r: Option<Packet>)
    ensures
        r is Some <==> raw@.len() >= 14,
        r matches Some(p) ==> decoded_from(p, raw@, timestamp),
{
    if raw.len() < 14 {
        return None;
    }

    let ethertype = read_be16(raw, 12);

    let eth = EthernetHeader {
        src_mac: format_mac(raw, 6),
        dst_mac: format_mac(raw, 0),
        ethertype,
    };

    let mut ip: Option<IpHeader> = None;
    let mut transport: Option<TransportProtocol> = None;

    if ethertype == 0x0800 && raw.len() >= 34 {
        let protocol = *slice_index_get(raw, 23);
        let src_ip = format_ipv4(
            *slice_index_get(raw, 26),
            *slice_index_get(raw, 27),
            *slice_index_get(raw, 28),
            *slice_index_get(raw, 29),
        );
        let dst_ip = format_ipv4(
            *slice_index_get(raw, 30),
            *slice_index_get(raw, 31),
            *slice_index_get(raw, 32),
            *slice_index_get(raw, 33),
        );
        ip = Some(IpHeader { src_ip, dst_ip, protocol });

        if raw.len() >= 38 {
            transport = if protocol == 6 {
                if raw.len() >= 48 {
                    parse_tcp(raw)
                } else {
                    None
                }
            } else if protocol == 17 {
                parse_udp(raw)
            } else if protocol == 1 {
                Some(TransportProtocol::Icmp)
            } else {
                Some(TransportProtocol::Unknown)
            };
        }
    }

    Some(Packet { timestamp, eth: Some(eth), ip, transport, payload: slice_to_vec(raw) })
}

/// Relies on chrono's `Utc::now` and `DateTime::timestamp_millis` for the
/// capture timestamp.  The clock is outside the program: nothing is
/// promised of the value.
#[verifier::external_body]
fn now_unix_millis() -> (t: i64) {
    chrono::Utc::now().timestamp_millis()
}

/// Decodes one raw frame, stamping it with the capture time read from the
/// system clock (clamped below at the epoch).
pub fn parse_packet(raw: &[u8]) -> (r: Option<Packet>)
    ensures
        r is Some <==> raw@.len() >= 14,
        r matches Some(p) ==> decoded_from(p, raw@, p.timestamp),
{
    let now = now_unix_millis();
    let ts: u128 = if now >= 0 {
        now as u128
    } else {
        0
    };
    decode_frame(raw, ts)
}

} // verus!
