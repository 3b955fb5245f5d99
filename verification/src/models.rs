//! The data types that flow through the capture pipeline.

use vstd::prelude::*;

verus! {

/// The unit flowing through the pipeline: one captured link-layer frame,
/// decoded as far as its bytes allow.  `payload` always holds the full raw
/// captured bytes, both for classification sniffing and for the persisted
/// hexdump re-analysis.
#[derive(Debug, Clone)]
pub struct Packet {
    /// Capture time in milliseconds since the epoch; set once at decode time.
    pub timestamp: u128,
    /// Present whenever the raw frame is at least 14 bytes long.
    pub eth: Option<EthernetHeader>,
    /// Present only when the decoder can bounds-check every byte it reads.
    pub ip: Option<IpHeader>,
    pub transport: Option<TransportProtocol>,
    pub payload: Vec<u8>,
}

#[derive(Debug, Clone)]
pub struct EthernetHeader {
    pub src_mac: String,
    pub dst_mac: String,
    pub ethertype: u16,
}

#[derive(Debug, Clone)]
pub struct IpHeader {
    /// Textual source address, IPv4 dotted quad or IPv6 groups.
    pub src_ip: String,
    pub dst_ip: String,
    /// Transport protocol number; 0 marks an ARP frame rather than IP traffic.
    pub protocol: u8,
}

#[derive(Debug, Clone)]
pub enum TransportProtocol {
    Tcp(TcpHeader),
    Udp(UdpHeader),
    Icmp,
    Unknown,
}

#[derive(Debug, Clone)]
pub struct TcpHeader {
    pub src_port: u16,
    pub dst_port: u16,
    pub flags: u8,
}

#[derive(Debug, Clone)]
pub struct UdpHeader {
    pub src_port: u16,
    pub dst_port: u16,
}

/// Result of the external reputation lookup; the core only reads `score`.
#[derive(Debug, Clone)]
pub struct IpReputation {
    pub ip: String,
    pub country: Option<String>,
    /// 0 = safe, 100 = malicious.
    pub score: u32,
    pub tags: Vec<String>,
}

} // verus!
