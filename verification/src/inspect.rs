//! The offline inspector: a second, independent decoder over a persisted
//! record's raw payload, plus the hex-and-ASCII dump and the capture-time
//! text.  It tolerates every truncation the live decoder does, reporting
//! "truncated" instead of reading out of bounds.

use vstd::prelude::*;
use vstd::slice::slice_index_get;
use crate::parser::{be16, format_ipv4, format_ipv6, ipv4_text, ipv6_text};
use crate::storage::InspectRecord;
use crate::text::{dec_digits, hex2, hex_min4, push_char, push_hex2, u64_to_dec, usize_to_hex_min4};

verus! {

broadcast use vstd::slice::group_slice_axioms;

/// The big-endian 32-bit value at offset `i`.
pub open spec fn be32(s: Seq<u8>, i: int) -> u32
    recommends
        0 <= i && i + 3 < s.len(),
{
    ((s[i] as int) * 0x1000000 + (s[i + 1] as int) * 0x10000 + (s[i + 2] as int) * 256 + (s[i
        + 3] as int)) as u32
}

/// The TCP fields the inspector shows.
#[derive(Debug, Clone)]
pub struct TcpReport {
    pub src_port: u16,
    pub dst_port: u16,
    pub seq_no: u32,
    pub ack_no: u32,
    pub data_offset: u8,
    pub flags: u8,
}

/// The UDP fields the inspector shows.
#[derive(Debug, Clone)]
pub struct UdpReport {
    pub src_port: u16,
    pub dst_port: u16,
    pub length: u16,
}

/// The transport part of a layer breakdown.
#[derive(Debug, Clone)]
pub enum TransportReport {
    Tcp(TcpReport),
    /// Fewer than 20 bytes remained past the IP header.
    TcpTruncated { len: usize },
    Udp(UdpReport),
    /// Fewer than 8 bytes remained past the IP header.
    UdpTruncated { len: usize },
    /// A protocol the inspector breaks down no further.
    NotShown,
}

/// The IPv4 fields the inspector shows.
#[derive(Debug, Clone)]
pub struct Ipv4Report {
    pub ihl: u8,
    pub header_len: usize,
    pub total_len: u16,
    pub ttl: u8,
    pub protocol: u8,
    pub src: String,
    pub dst: String,
    pub transport: TransportReport,
}

/// The IPv6 fields the inspector shows.
#[derive(Debug, Clone)]
pub struct Ipv6Report {
    pub traffic_class: u8,
    pub flow_label: u32,
    pub payload_len: u16,
    pub next_header: u8,
    pub hop_limit: u8,
    pub src: String,
    pub dst: String,
    pub transport: TransportReport,
}

/// The layer breakdown of one payload.
#[derive(Debug, Clone)]
pub enum LayerReport {
    /// No payload bytes at all.
    Empty,
    /// The first nibble names neither IP version.
    UnknownFormat { first: u8 },
    /// Fewer than 20 bytes for an IPv4 header.
    Ipv4Truncated { len: usize },
    /// The IHL claims more header than the payload holds.
    Ipv4Incomplete { ihl: u8, len: usize },
    Ipv4(Ipv4Report),
    /// Fewer than 40 bytes for an IPv6 header.
    Ipv6Truncated { len: usize },
    Ipv6(Ipv6Report),
}

/// What a correct TCP breakdown of `d` past offset `off` says.
pub open spec fn tcp_report_ok(r: TransportReport, d: Seq<u8>, off: int) -> bool {
    let rem = d.len() - off;
    if rem < 20 {
        r matches TransportReport::TcpTruncated { len } && len == rem
    } else {
        r matches TransportReport::Tcp(t) && t.src_port == be16(d, off) && t.dst_port == be16(
            d,
            off + 2,
        ) && t.seq_no == be32(d, off + 4) && t.ack_no == be32(d, off + 8) && t.data_offset == d[off
            + 12] as int / 16 && t.flags == d[off + 13]
    }
}

/// What a correct UDP breakdown of `d` past offset `off` says.
pub open spec fn udp_report_ok(r: TransportReport, d: Seq<u8>, off: int) -> bool {
    let rem = d.len() - off;
    if rem < 8 {
        r matches TransportReport::UdpTruncated { len } && len == rem
    } else {
        r matches TransportReport::Udp(u) && u.src_port == be16(d, off) && u.dst_port == be16(
            d,
            off + 2,
        ) && u.length == be16(d, off + 4)
    }
}

/// What a correct transport breakdown under protocol number `proto` says.
pub open spec fn transport_report_ok(r: TransportReport, d: Seq<u8>, off: int, proto: u8) -> bool {
    if proto == 6 {
        tcp_report_ok(r, d, off)
    } else if proto == 17 {
        udp_report_ok(r, d, off)
    } else {
        r is NotShown
    }
}

/// What a correct IPv4 breakdown of `d` says.
pub open spec fn ipv4_report_ok(r: LayerReport, d: Seq<u8>) -> bool {
    if d.len() < 20 {
        r matches LayerReport::Ipv4Truncated { len } && len == d.len()
    } else {
        let ihl = d[0] as int % 16;
        let header_len = ihl * 4;
        if d.len() < header_len {
            r matches LayerReport::Ipv4Incomplete { ihl: i, len } && i == ihl && len == d.len()
        } else {
            r matches LayerReport::Ipv4(v) && v.ihl == ihl && v.header_len == header_len
                && v.total_len == be16(d, 2) && v.ttl == d[8] && v.protocol == d[9] && v.src@
                == ipv4_text(d[12], d[13], d[14], d[15]) && v.dst@ == ipv4_text(
                d[16],
                d[17],
                d[18],
                d[19],
            ) && transport_report_ok(v.transport, d, header_len, d[9])
        }
    }
}

/// What a correct IPv6 breakdown of `d` says.
pub open spec fn ipv6_report_ok(r: LayerReport, d: Seq<u8>) -> bool {
    if d.len() < 40 {
        r matches LayerReport::Ipv6Truncated { len } && len == d.len()
    } else {
        r matches LayerReport::Ipv6(v) && v.traffic_class == (d[0] as int % 16) * 16 + d[1] as int
            / 16 && v.flow_label == (d[1] as int % 16) * 0x10000 + (d[2] as int) * 256 + d[3] as int
            && v.payload_len == be16(d, 4) && v.next_header == d[6] && v.hop_limit == d[7] && v.src@
            == ipv6_text(d, 8) && v.dst@ == ipv6_text(d, 24) && transport_report_ok(
            v.transport,
            d,
            40,
            d[6],
        )
    }
}

/// What a correct full layer breakdown of `d` says: dispatch on the first
/// nibble, IPv4 or IPv6 beneath it, TCP or UDP beneath that.
pub open spec fn layer_report_ok(r: LayerReport, d: Seq<u8>) -> bool {
    if d.len() == 0 {
        r is Empty
    } else if d[0] as int / 16 == 4 {
        ipv4_report_ok(r, d)
    } else if d[0] as int / 16 == 6 {
        ipv6_report_ok(r, d)
    } else {
        r matches LayerReport::UnknownFormat { first } && first == d[0]
    }
}

/// Breaks down a TCP header at `off`, or reports it truncated.
pub fn analyze_tcp(data: &[u8], off: usize) -> (r: TransportReport)
    requires
        off <= data@.len(),
    ensures
        tcp_report_ok(r, data@, off as int),
{
    let n = data.len();
    if n - off < 20 {
        return TransportReport::TcpTruncated { len: n - off };
    }
    let src_port = read_be16(data, off);
    let dst_port = read_be16(data, off + 2);
    let seq_no = read_be32(data, off + 4);
    let ack_no = read_be32(data, off + 8);
    let data_offset = *slice_index_get(data, off + 12) / 16;
    let flags = *slice_index_get(data, off + 13);
    TransportReport::Tcp(TcpReport { src_port, dst_port, seq_no, ack_no, data_offset, flags })
}

/// Breaks down a UDP header at `off`, or reports it truncated.
pub fn analyze_udp(data: &[u8], off: usize) -> (r: TransportReport)
    requires
        off <= data@.len(),
    ensures
        udp_report_ok(r, data@, off as int),
{
    let n = data.len();
    if n - off < 8 {
        return TransportReport::UdpTruncated { len: n - off };
    }
    let src_port = read_be16(data, off);
    let dst_port = read_be16(data, off + 2);
    let length = read_be16(data, off + 4);
    TransportReport::Udp(UdpReport { src_port, dst_port, length })
}

fn analyze_transport(data: &[u8], off: usize, proto: u8) -> (r: TransportReport)
    requires
        off <= data@.len(),
    ensures
        transport_report_ok(r, data@, off as int, proto),
{
    if proto == 6 {
        analyze_tcp(data, off)
    } else if proto == 17 {
        analyze_udp(data, off)
    } else {
        TransportReport::NotShown
    }
}

/// Breaks down an IPv4 header and whatever transport lies beneath it.
pub fn analyze_ipv4(data: &[u8]) -> (r: LayerReport)
    ensures
        ipv4_report_ok(r, data@),
{
    let n = data.len();
    if n < 20 {
        return LayerReport::Ipv4Truncated { len: n };
    }
    let ihl = *slice_index_get(data, 0) % 16;
    let header_len = (ihl as usize) * 4;
    if n < header_len {
        return LayerReport::Ipv4Incomplete { ihl, len: n };
    }
    let total_len = read_be16(data, 2);
    let ttl = *slice_index_get(data, 8);
    let protocol = *slice_index_get(data, 9);
    let src = format_ipv4(
        *slice_index_get(data, 12),
        *slice_index_get(data, 13),
        *slice_index_get(data, 14),
        *slice_index_get(data, 15),
    );
    let dst = format_ipv4(
        *slice_index_get(data, 16),
        *slice_index_get(data, 17),
        *slice_index_get(data, 18),
        *slice_index_get(data, 19),
    );
    let transport = analyze_transport(data, header_len, protocol);
    LayerReport::Ipv4(
        Ipv4Report { ihl, header_len, total_len, ttl, protocol, src, dst, transport },
    )
}

/// Breaks down an IPv6 header and whatever transport lies beneath it.
pub fn analyze_ipv6(data: &[u8]) -> (r: LayerReport)
    ensures
        ipv6_report_ok(r, data@),
{
    let n = data.len();
    if n < 40 {
        return LayerReport::Ipv6Truncated { len: n };
    }
    let b0 = *slice_index_get(data, 0);
    let b1 = *slice_index_get(data, 1);
    let b2 = *slice_index_get(data, 2);
    let b3 = *slice_index_get(data, 3);
    let traffic_class = (b0 % 16) * 16 + b1 / 16;
    let flow_label = ((b1 % 16) as u32) * 0x10000 + (b2 as u32) * 256 + (b3 as u32);
    let payload_len = read_be16(data, 4);
    let next_header = *slice_index_get(data, 6);
    let hop_limit = *slice_index_get(data, 7);
    let src = format_ipv6(data, 8);
    let dst = format_ipv6(data, 24);
    let transport = analyze_transport(data, 40, next_header);
    LayerReport::Ipv6(
        Ipv6Report {
            traffic_class,
            flow_label,
            payload_len,
            next_header,
            hop_limit,
            src,
            dst,
            transport,
        },
    )
}

/// Breaks down a record's payload: IPv4 or IPv6 at the first nibble, then
/// TCP or UDP beneath, tolerating every truncation.
pub fn analyze_layers(data: &[u8]) -> (r: LayerReport)
    ensures
        layer_report_ok(r, data@),
{
    if data.len() == 0 {
        return LayerReport::Empty;
    }
    let first = *slice_index_get(data, 0);
    let version = first / 16;
    if version == 4 {
        analyze_ipv4(data)
    } else if version == 6 {
        analyze_ipv6(data)
    } else {
        LayerReport::UnknownFormat { first }
    }
}

fn read_be16(data: &[u8], i: usize) -> (r: u16)
    requires
        i + 2 <= data@.len(),
    ensures
        r == be16(data@, i as int),
{
    let n = data.len();
    let hi = *slice_index_get(data, i);
    let lo = *slice_index_get(data, i + 1);
    (hi as u16) * 256 + (lo as u16)
}

fn read_be32(data: &[u8], i: usize) -> (r: u32)
    requires
        i + 4 <= data@.len(),
    ensures
        r == be32(data@, i as int),
{
    let n = data.len();
    let b0 = *slice_index_get(data, i);
    let b1 = *slice_index_get(data, i + 1);
    let b2 = *slice_index_get(data, i + 2);
    let b3 = *slice_index_get(data, i + 3);
    (b0 as u32) * 0x1000000 + (b1 as u32) * 0x10000 + (b2 as u32) * 256 + (b3 as u32)
}

/// The character the dump's ASCII column shows for one byte: the byte
/// itself when printable (graphic or space), a dot otherwise.
pub open spec fn ascii_dump_char(b: u8) -> char {
    if 32 <= b <= 126 {
        b as char
    } else {
        '.'
    }
}

/// One hex cell of a dump row: two digits and a space for a present byte,
/// three spaces for a missing one, and the extra gap after the eighth.
pub open spec fn dump_cell(chunk: Seq<u8>, i: int) -> Seq<char> {
    (if i < chunk.len() {
        hex2(chunk[i]) + seq![' ']
    } else {
        seq![' ', ' ', ' ']
    }) + (if i == 7 {
        seq![' ']
    } else {
        Seq::empty()
    })
}

/// The hex cells of a dump row from position `i` on.
pub open spec fn dump_cells_from(chunk: Seq<u8>, i: int) -> Seq<char>
    decreases 16 - i,
{
    if i < 0 || i >= 16 {
        Seq::empty()
    } else {
        dump_cell(chunk, i) + dump_cells_from(chunk, i + 1)
    }
}

/// One full dump row: the offset in hex, the sixteen hex cells, and the
/// ASCII column.
pub open spec fn dump_row(d: Seq<u8>, r: int) -> Seq<char>
    recommends
        0 <= r,
        16 * r < d.len(),
{
    let hi = if 16 * r + 16 <= d.len() {
        16 * r + 16
    } else {
        d.len() as int
    };
    let chunk = d.subrange(16 * r, hi);
    hex_min4((16 * r) as nat) + seq![' ', ' '] + dump_cells_from(chunk, 0) + seq![' ', ' ']
        + chunk.map(|i: int, b: u8| ascii_dump_char(b))
}

/// Renders the 16-byte-per-row hex-and-ASCII dump of a payload: one
/// string per row, every payload byte in exactly one row.
pub fn hex_dump(data: &[u8]) -> (rows: Vec<String>)
    ensures
        rows@.len() == (data@.len() + 15) / 16,
        forall|r: int| 0 <= r < rows@.len() ==> (#[trigger] rows@[r])@ == dump_row(data@, r),
{
    let n = data.len();
    let total_rows = n / 16 + if n % 16 > 0 {
        1
    } else {
        0
    };
    proof {
        assert(total_rows == (n + 15) / 16);
    }
    let mut rows: Vec<String> = Vec::new();
    let mut rix: usize = 0;
    while rix < total_rows
        invariant
            rix <= total_rows,
            n == data@.len(),
            total_rows == (n + 15) / 16,
            rows@.len() == rix,
            forall|r: int| 0 <= r < rows@.len() ==> (#[trigger] rows@[r])@ == dump_row(data@, r),
        decreases total_rows - rix,
    {
        proof {
            assert(16 * rix < n);
        }
        let off: usize = 16 * rix;
        let hi = if n - off >= 16 {
            off + 16
        } else {
            n
        };
        let ghost chunk = data@.subrange(off as int, hi as int);
        let mut row = usize_to_hex_min4(off);
        row.append("  ");
        proof {
            reveal_strlit("  ");
            assert("  "@ =~= seq![' ', ' ']);
        }

        // the sixteen hex cells
        let mut i: usize = 0;
        while i < 16
            invariant
                i <= 16,
                off <= hi <= n,
                n == data@.len(),
                hi == if n - off >= 16 {
                    off + 16
                } else {
                    n as int
                },
                chunk == data@.subrange(off as int, hi as int),
                row@ + dump_cells_from(chunk, i as int) == hex_min4(off as nat) + seq![' ', ' ']
                    + dump_cells_from(chunk, 0),
            decreases 16 - i,
        {
            let ghost row_at_entry = row@;
            if i < hi - off {
                push_hex2(&mut row, *slice_index_get(data, off + i));
                row.append(" ");
            } else {
                row.append("   ");
            }
            if i == 7 {
                row.append(" ");
            }
            proof {
                reveal_strlit(" ");
                reveal_strlit("   ");
                assert(" "@ =~= seq![' ']);
                assert("   "@ =~= seq![' ', ' ', ' ']);
                assert(chunk.len() == hi - off);
                if i < hi - off {
                    assert(chunk[i as int] == data@[off + i]);
                }
                assert(row@ =~= row_at_entry + dump_cell(chunk, i as int));
                assert(row_at_entry + (dump_cell(chunk, i as int) + dump_cells_from(
                    chunk,
                    i + 1 as int,
                )) =~= (row_at_entry + dump_cell(chunk, i as int)) + dump_cells_from(
                    chunk,
                    i + 1 as int,
                ));
            }
            i = i + 1;
        }

        row.append("  ");

        // the ASCII column
        let mut k: usize = 0;
        while k < hi - off
            invariant
                off <= hi <= n,
                k <= hi - off,
                n == data@.len(),
                chunk == data@.subrange(off as int, hi as int),
                row@ == hex_min4(off as nat) + seq![' ', ' '] + dump_cells_from(chunk, 0) + seq![
                    ' ',
                    ' ',
                ] + chunk.subrange(0, k as int).map(|i: int, b: u8| ascii_dump_char(b)),
            decreases hi - off - k,
        {
            let b = *slice_index_get(data, off + k);
            let c: char = if 32 <= b && b <= 126 {
                b as char
            } else {
                '.'
            };
            push_char(&mut row, c);
            proof {
                assert(chunk[k as int] == data@[off + k]);
                assert(chunk.subrange(0, k + 1 as int).map(|i: int, b: u8| ascii_dump_char(b))
                    =~= chunk.subrange(0, k as int).map(|i: int, b: u8| ascii_dump_char(b)).push(
                    ascii_dump_char(chunk[k as int]),
                ));
            }
            k = k + 1;
        }

        proof {
            assert(chunk.subrange(0, chunk.len() as int) =~= chunk);
            assert(row@ == dump_row(data@, rix as int));
        }
        rows.push(row);
        rix = rix + 1;
    }
    rows
}

/// The full inspection of one record: the layer breakdown and the dump.
#[derive(Debug, Clone)]
pub struct InspectReport {
    pub layers: LayerReport,
    pub dump: Vec<String>,
}

/// Independently re-derives the detailed layer breakdown and hexdump of a
/// persisted record's raw payload.
pub fn inspect(record: &InspectRecord) -> (report: InspectReport)
    ensures
        layer_report_ok(report.layers, record.payload@),
        report.dump@.len() == (record.payload@.len() + 15) / 16,
        forall|r: int| 0 <= r < report.dump@.len() ==> (#[trigger] report.dump@[r])@ == dump_row(
            record.payload@,
            r,
        ),
{
    let layers = analyze_layers(record.payload.as_slice());
    let dump = hex_dump(record.payload.as_slice());
    InspectReport { layers, dump }
}

/// The three zero-padded decimal digits of a value below one thousand.
pub open spec fn dec_pad3(n: nat) -> Seq<char>
    recommends
        n < 1000,
{
    if n < 10 {
        seq!['0', '0'] + dec_digits(n)
    } else if n < 100 {
        seq!['0'] + dec_digits(n)
    } else {
        dec_digits(n)
    }
}

/// The UTC date-and-time text of a second count, as chrono's
/// "%Y-%m-%d %H:%M:%S" writes it; a function of the count alone.
pub uninterp spec fn utc_datetime_text(secs: u64) -> Seq<char>;

/// Relies on chrono's `DateTime<Utc>` formatting with "%Y-%m-%d %H:%M:%S";
/// the text depends on the second count alone.  Counts far past the
/// calendar's range would make chrono unwind, so they are excluded.
#[verifier::external_body]
fn utc_datetime_string(secs: u64) -> (r: String)
    requires
        secs < 8_000_000_000_000,
    ensures
        r@ == utc_datetime_text(secs),
{
    let t = std::time::UNIX_EPOCH + std::time::Duration::from_secs(secs);
    let datetime: chrono::DateTime<chrono::Utc> = t.into();
    format!("{}", datetime.format("%Y-%m-%d %H:%M:%S"))
}

/// The capture-time text: the UTC date and time of the millisecond count,
/// a dot, and the three millisecond digits.
pub fn format_timestamp_ms(ts_ms: u128) -> (r: String)
    requires
        ts_ms < 8_000_000_000_000_000,
    ensures
        r@ == utc_datetime_text((ts_ms / 1000) as u64) + seq!['.'] + dec_pad3(
            (ts_ms % 1000) as nat,
        ),
{
    proof {
        reveal_strlit(".");
        reveal_strlit("0");
        reveal_strlit("00");
    }
    let secs = (ts_ms / 1000) as u64;
    let millis = (ts_ms % 1000) as u64;
    let mut r = utc_datetime_string(secs);
    r.append(".");
    if millis < 10 {
        r.append("00");
    } else if millis < 100 {
        r.append("0");
    }
    let d = u64_to_dec(millis);
    r.append(d.as_str());
    proof {
        assert("."@ =~= seq!['.']);
        assert("0"@ =~= seq!['0']);
        assert("00"@ =~= seq!['0', '0']);
    }
    r
}

} // verus!
