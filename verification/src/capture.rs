//! The capture pipeline's decision logic.
//!
//! The loop that owns the live interface handle performs the acquisition
//! and the hand-off; everything it decides — keep, drop, retry or
//! terminate, and how a raw frame becomes a published packet — is here,
//! as pure functions of the acquisition outcome.

use vstd::prelude::*;
use crate::classifier::{classify, spec_classify};
use crate::models::{IpHeader, Packet};
use crate::parser::{
    be16, format_ipv4, format_ipv6, ipv4_text, ipv6_text, mac_text, parse_packet, spec_transport,
};
use crate::storage::{make_record, InspectRecord};

verus! {

broadcast use vstd::slice::group_slice_axioms;

/// The layer-3 post-processing step for EtherTypes the base decoder does
/// not resolve: IPv6 and ARP addresses read from fixed offsets when enough
/// bytes are present, and the IPv4 header re-read under its IHL-aware
/// length check.  Every other frame leaves the network layer untouched.
pub fn fill_ip_from_l3(packet: &mut Packet, ether_type: u16, data: &[u8])
    ensures
        final(packet).timestamp == old(packet).timestamp,
        final(packet).eth == old(packet).eth,
        final(packet).transport == old(packet).transport,
        final(packet).payload == old(packet).payload,
        ({
            let d = data@;
            if ether_type == 0x0800 && d.len() >= 34 && d.len() >= 14 + 4 * (d[14] as int % 16) {
                final(packet).ip matches Some(ip) && ip.protocol == d[23] && ip.src_ip@
                    == ipv4_text(d[26], d[27], d[28], d[29]) && ip.dst_ip@ == ipv4_text(
                    d[30],
                    d[31],
                    d[32],
                    d[33],
                )
            } else if ether_type == 0x86DD && d.len() >= 54 {
                final(packet).ip matches Some(ip) && ip.protocol == d[20] && ip.src_ip@
                    == ipv6_text(d, 22) && ip.dst_ip@ == ipv6_text(d, 38)
            } else if ether_type == 0x0806 && d.len() >= 42 {
                final(packet).ip matches Some(ip) && ip.protocol == 0 && ip.src_ip@ == ipv4_text(
                    d[28],
                    d[29],
                    d[30],
                    d[31],
                ) && ip.dst_ip@ == ipv4_text(d[38], d[39], d[40], d[41])
            } else {
                final(packet).ip == old(packet).ip
            }
        }),
{
    let n = data.len();
    if ether_type == 0x0800 {
        if n >= 34 {
            let ihl = (*vstd::slice::slice_index_get(data, 14) % 16) as usize;
            let header_len = ihl * 4;
            if n >= 14 + header_len {
                let protocol = *vstd::slice::slice_index_get(data, 23);
                let src_ip = format_ipv4(
                    *vstd::slice::slice_index_get(data, 26),
                    *vstd::slice::slice_index_get(data, 27),
                    *vstd::slice::slice_index_get(data, 28),
                    *vstd::slice::slice_index_get(data, 29),
                );
                let dst_ip = format_ipv4(
                    *vstd::slice::slice_index_get(data, 30),
                    *vstd::slice::slice_index_get(data, 31),
                    *vstd::slice::slice_index_get(data, 32),
                    *vstd::slice::slice_index_get(data, 33),
                );
                packet.ip = Some(IpHeader { src_ip, dst_ip, protocol });
            }
        }
    } else if ether_type == 0x86DD {
        if n >= 54 {
            let protocol = *vstd::slice::slice_index_get(data, 20);
            let src_ip = format_ipv6(data, 22);
            let dst_ip = format_ipv6(data, 38);
            packet.ip = Some(IpHeader { src_ip, dst_ip, protocol });
        }
    } else if ether_type == 0x0806 {
        if n >= 42 {
            let src_ip = format_ipv4(
                *vstd::slice::slice_index_get(data, 28),
                *vstd::slice::slice_index_get(data, 29),
                *vstd::slice::slice_index_get(data, 30),
                *vstd::slice::slice_index_get(data, 31),
            );
            let dst_ip = format_ipv4(
                *vstd::slice::slice_index_get(data, 38),
                *vstd::slice::slice_index_get(data, 39),
                *vstd::slice::slice_index_get(data, 40),
                *vstd::slice::slice_index_get(data, 41),
            );
            packet.ip = Some(IpHeader { src_ip, dst_ip, protocol: 0 });
        }
    }
}

/// One outcome of a bounded-timeout acquisition call, as the loop that
/// owns the interface handle reports it.
pub enum CaptureEvent {
    /// A raw frame came off the wire.
    Frame(Vec<u8>),
    /// The bounded timeout elapsed with no frame: not an error.
    Timeout,
    /// Any other acquisition error: fatal for the session.
    Fatal,
}

/// What the pipeline does next with one acquisition outcome.
pub enum CaptureStep {
    /// Hand this decoded packet to the consumer.
    Publish(Packet),
    /// Drop the frame silently: it was too short to decode.
    Discard,
    /// Try the next acquisition call.
    Retry,
    /// End the capture session.
    Terminate,
}

/// The network layer a published packet carries, by EtherType: IPv4 under
/// the 34-byte check, IPv6 and ARP under theirs, absent otherwise.
pub open spec fn published_ip(p: Packet, raw: Seq<u8>) -> bool {
    let et = be16(raw, 12);
    if et == 0x0800 && raw.len() >= 34 {
        p.ip matches Some(ip) && ip.protocol == raw[23] && ip.src_ip@ == ipv4_text(
            raw[26],
            raw[27],
            raw[28],
            raw[29],
        ) && ip.dst_ip@ == ipv4_text(raw[30], raw[31], raw[32], raw[33])
    } else if et == 0x86DD && raw.len() >= 54 {
        p.ip matches Some(ip) && ip.protocol == raw[20] && ip.src_ip@ == ipv6_text(raw, 22)
            && ip.dst_ip@ == ipv6_text(raw, 38)
    } else if et == 0x0806 && raw.len() >= 42 {
        p.ip matches Some(ip) && ip.protocol == 0 && ip.src_ip@ == ipv4_text(
            raw[28],
            raw[29],
            raw[30],
            raw[31],
        ) && ip.dst_ip@ == ipv4_text(raw[38], raw[39], raw[40], raw[41])
    } else {
        p.ip is None
    }
}

/// What the pipeline promises of every packet it publishes from `raw`.
pub open spec fn published_from(p: Packet, raw: Seq<u8>) -> bool {
    &&& p.payload@ == raw
    &&& p.eth matches Some(e) && e.ethertype == be16(raw, 12) && e.src_mac@ == mac_text(raw, 6)
        && e.dst_mac@ == mac_text(raw, 0)
    &&& published_ip(p, raw)
    &&& p.transport == spec_transport(raw)
}

/// One turn of the capture state machine: decode and post-process a frame
/// into a packet to publish, discard an undersized frame, retry after a
/// timeout, terminate on a fatal error.
pub fn capture_step(event: CaptureEvent) -> (step: CaptureStep)
    ensures
        match event {
            CaptureEvent::Frame(raw) => if raw@.len() >= 14 {
                step matches CaptureStep::Publish(p) && published_from(p, raw@)
            } else {
                step is Discard
            },
            CaptureEvent::Timeout => step is Retry,
            CaptureEvent::Fatal => step is Terminate,
        },
{
    match event {
        CaptureEvent::Frame(raw) => {
            match parse_packet(raw.as_slice()) {
                Some(mut packet) => {
                    let hi = raw[12];
                    let lo = raw[13];
                    let ether_type = (hi as u16) * 256 + (lo as u16);
                    fill_ip_from_l3(&mut packet, ether_type, raw.as_slice());
                    CaptureStep::Publish(packet)
                },
                None => CaptureStep::Discard,
            }
        },
        CaptureEvent::Timeout => CaptureStep::Retry,
        CaptureEvent::Fatal => CaptureStep::Terminate,
    }
}

/// What the consumer decides for one received packet: its label, the
/// record to persist, and whether to keep it at all.
pub struct ConsumeOutcome {
    /// The classifier's label.
    pub label: String,
    /// The record to persist and display when `keep` holds.
    pub record: InspectRecord,
    /// An unrecognized frame with no network layer is skipped entirely.
    pub keep: bool,
}

/// The consumer's turn for one received packet: classify it, build its
/// inspection record under the next sequence id, and decide whether it is
/// shown and persisted at all.
pub fn consume_packet(id: u64, iface: &str, packet: &Packet) -> (out: ConsumeOutcome)
    ensures
        out.label@ == spec_classify(packet),
        out.record.id == id,
        out.record.iface@ == iface@,
        out.record.proto@ == spec_classify(packet),
        match packet.ip {
            Some(ip) => out.record.src_ip@ == ip.src_ip@ && out.record.dst_ip@ == ip.dst_ip@,
            None => out.record.src_ip@ == "?"@ && out.record.dst_ip@ == "?"@,
        },
        out.record.size == packet.payload@.len(),
        out.record.payload@ == packet.payload@,
        out.keep == !(packet.ip is None && spec_classify(packet) == "OTHER"@),
{
    let label = classify(packet);
    let record = make_record(id, iface, label, packet);
    let keep = match &packet.ip {
        Some(_) => true,
        None => {
            let is_other = match &packet.eth {
                Some(eth) => eth.ethertype != 0x0806 && eth.ethertype != 0x88CC,
                None => true,
            };
            proof {
                // the three labels a packet without a network layer can get
                reveal_strlit("ARP");
                reveal_strlit("LLDP");
                reveal_strlit("OTHER");
                assert("ARP"@.len() == 3);
                assert("LLDP"@.len() == 4);
                assert("OTHER"@.len() == 5);
                if is_other {
                    assert(spec_classify(packet) == "OTHER"@);
                } else {
                    assert(spec_classify(packet) != "OTHER"@);
                }
            }
            !is_other
        },
    };
    ConsumeOutcome { label: String::from_str(label), record, keep }
}

} // verus!
