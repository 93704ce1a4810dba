//! IPv4 and TCP headers as plain values, and their wire form.
//!
//! The bytes are produced and read by `etherparse`; the functions of this
//! module that call it state, byte by byte, what it writes and what it reads.
//! Checksums are the only results that are named rather than stated.

use vstd::prelude::*;
use vstd::slice::slice_subrange;

verus! {

/// Length in bytes of an IPv4 header without options.
pub const IPV4_HEADER_LEN: usize = 20;

/// Length in bytes of a TCP header without options.
pub const TCP_HEADER_LEN: usize = 20;

/// The protocol number of TCP in an IPv4 header.
pub const PROTOCOL_TCP: u8 = 6;

/// Largest payload that an IPv4 header without options can announce.
pub const MAX_IPV4_PAYLOAD: usize = 65515;

/// An IPv4 address, most significant octet first.
#[derive(Debug, Clone, Copy, PartialEq, Eq, Hash, Structural)]
pub struct Ipv4Address {
    pub a: u8,
    pub b: u8,
    pub c: u8,
    pub d: u8,
}

/// The eight control bits of a TCP header.
#[derive(Debug, Clone, Copy, PartialEq, Eq, Structural)]
pub struct TcpFlags {
    pub cwr: bool,
    pub ece: bool,
    pub urg: bool,
    pub ack: bool,
    pub psh: bool,
    pub rst: bool,
    pub syn: bool,
    pub fin: bool,
}

/// The fields of an IPv4 header that this stack sets when it sends.
#[derive(Debug, Clone, Copy, PartialEq, Eq, Structural)]
pub struct Ipv4Header {
    pub source: Ipv4Address,
    pub destination: Ipv4Address,
    pub time_to_live: u8,
    pub protocol: u8,
    /// Number of bytes that follow the header.
    pub payload_len: u16,
}

/// The fields of a TCP header, checksum aside.
#[derive(Debug, Clone, Copy, PartialEq, Eq, Structural)]
pub struct TcpHeader {
    pub source_port: u16,
    pub destination_port: u16,
    pub sequence_number: u32,
    pub acknowledgment_number: u32,
    pub window_size: u16,
    pub flags: TcpFlags,
}

/// What was read from the IPv4 header at the start of a frame.
#[derive(Debug, Clone, Copy, PartialEq, Eq, Structural)]
pub struct ParsedIpv4 {
    /// Length of the header, options included.
    pub header_len: usize,
    pub total_len: u16,
    pub time_to_live: u8,
    pub protocol: u8,
    pub source: Ipv4Address,
    pub destination: Ipv4Address,
}

/// What was read from a TCP header.
#[derive(Debug, Clone, Copy, PartialEq, Eq, Structural)]
pub struct ParsedTcp {
    /// Length of the header, options included.
    pub header_len: usize,
    pub checksum: u16,
    pub header: TcpHeader,
}

/// A frame split into its two headers and the place where the payload starts.
#[derive(Debug, Clone, Copy, PartialEq, Eq, Structural)]
pub struct ParsedFrame {
    pub ip: ParsedIpv4,
    pub tcp: ParsedTcp,
    pub payload_offset: usize,
}

impl TcpFlags {
    /// No control bit set.
    pub open spec fn spec_none() -> TcpFlags {
        TcpFlags {
            cwr: false,
            ece: false,
            urg: false,
            ack: false,
            psh: false,
            rst: false,
            syn: false,
            fin: false,
        }
    }

    /// No control bit set.
    #[verifier::when_used_as_spec(spec_none)]
    pub fn none() -> (r: TcpFlags)
        ensures
            r == TcpFlags::spec_none(),
    {
        TcpFlags {
            cwr: false,
            ece: false,
            urg: false,
            ack: false,
            psh: false,
            rst: false,
            syn: false,
            fin: false,
        }
    }
}

/// The more significant byte of a 16-bit value.
pub open spec fn hi(x: u16) -> u8 {
    (x >> 8) as u8
}

/// The less significant byte of a 16-bit value.
pub open spec fn lo(x: u16) -> u8 {
    (x & 0xff) as u8
}

/// Byte `i` of a 32-bit value, counted from the most significant one.
pub open spec fn octet(x: u32, i: int) -> u8 {
    if i == 0 {
        (x >> 24) as u8
    } else if i == 1 {
        ((x >> 16) & 0xff) as u8
    } else if i == 2 {
        ((x >> 8) & 0xff) as u8
    } else {
        (x & 0xff) as u8
    }
}

/// The 16-bit big-endian value made of two bytes.
pub open spec fn word(b0: u8, b1: u8) -> u16 {
    ((b0 as u16) << 8) | (b1 as u16)
}

/// The 32-bit big-endian value made of four bytes.
pub open spec fn long(b0: u8, b1: u8, b2: u8, b3: u8) -> u32 {
    ((b0 as u32) << 24) | ((b1 as u32) << 16) | ((b2 as u32) << 8) | (b3 as u32)
}

/// The value of one control bit in the flags byte.
pub open spec fn flag_bit(set: bool, bit: u8) -> u8 {
    if set {
        bit
    } else {
        0
    }
}

/// The flags byte of a TCP header.
pub open spec fn flags_byte(f: TcpFlags) -> u8 {
    flag_bit(f.fin, 1) | flag_bit(f.syn, 2) | flag_bit(f.rst, 4) | flag_bit(f.psh, 8) | flag_bit(
        f.ack,
        16,
    ) | flag_bit(f.urg, 32) | flag_bit(f.ece, 64) | flag_bit(f.cwr, 128)
}

/// The control bits held by a flags byte.
pub open spec fn flags_of(b: u8) -> TcpFlags {
    TcpFlags {
        fin: b & 1 != 0,
        syn: b & 2 != 0,
        rst: b & 4 != 0,
        psh: b & 8 != 0,
        ack: b & 16 != 0,
        urg: b & 32 != 0,
        ece: b & 64 != 0,
        cwr: b & 128 != 0,
    }
}

/// The checksum that `etherparse` computes over an IPv4 header.
pub uninterp spec fn ipv4_header_checksum(h: Ipv4Header) -> u16;

/// The checksum that `etherparse` computes over the IPv4 pseudo-header, a TCP
/// header and the payload behind it.
pub uninterp spec fn tcp_ipv4_checksum(
    source: Ipv4Address,
    destination: Ipv4Address,
    h: TcpHeader,
    payload: Seq<u8>,
) -> u16;

/// The checksum that `etherparse` computes for a received TCP segment, header
/// options included, under the IPv4 pseudo-header; `None` where the bytes do
/// not start with a TCP header or are too many for one packet.
pub uninterp spec fn received_tcp_checksum(
    source: Ipv4Address,
    destination: Ipv4Address,
    segment: Seq<u8>,
) -> Option<u16>;

/// The twenty bytes of an IPv4 header without options: version 4, no
/// fragmentation allowed, identification zero.
pub open spec fn ipv4_wire(h: Ipv4Header, checksum: u16) -> Seq<u8> {
    let total = (h.payload_len + 20) as u16;
    seq![
        0x45u8,
        0u8,
        hi(total),
        lo(total),
        0u8,
        0u8,
        0x40u8,
        0u8,
        h.time_to_live,
        h.protocol,
        hi(checksum),
        lo(checksum),
        h.source.a,
        h.source.b,
        h.source.c,
        h.source.d,
        h.destination.a,
        h.destination.b,
        h.destination.c,
        h.destination.d,
    ]
}

/// The twenty bytes of a TCP header without options and without urgent data.
pub open spec fn tcp_wire(h: TcpHeader, checksum: u16) -> Seq<u8> {
    seq![
        hi(h.source_port),
        lo(h.source_port),
        hi(h.destination_port),
        lo(h.destination_port),
        octet(h.sequence_number, 0),
        octet(h.sequence_number, 1),
        octet(h.sequence_number, 2),
        octet(h.sequence_number, 3),
        octet(h.acknowledgment_number, 0),
        octet(h.acknowledgment_number, 1),
        octet(h.acknowledgment_number, 2),
        octet(h.acknowledgment_number, 3),
        0x50u8,
        flags_byte(h.flags),
        hi(h.window_size),
        lo(h.window_size),
        hi(checksum),
        lo(checksum),
        0u8,
        0u8,
    ]
}

/// A whole segment on the wire: IPv4 header, TCP header with its checksum,
/// payload.
pub open spec fn segment_wire(ip: Ipv4Header, tcp: TcpHeader, payload: Seq<u8>) -> Seq<u8> {
    ipv4_wire(ip, ipv4_header_checksum(ip)) + tcp_wire(
        tcp,
        tcp_ipv4_checksum(ip.source, ip.destination, tcp, payload),
    ) + payload
}

/// The IPv4 header at the start of `b`, if there is a well-formed one: at
/// least twenty bytes, version 4, a header length of five words or more that
/// the bytes at hand cover.
pub open spec fn ipv4_parsed(b: Seq<u8>) -> Option<ParsedIpv4> {
    if b.len() >= 20 && (b[0] >> 4) == 4 && (b[0] & 0xf) >= 5 && b.len() >= 4 * (b[0] & 0xf) {
        Some(
            ParsedIpv4 {
                header_len: (4 * (b[0] & 0xf)) as usize,
                total_len: word(b[2], b[3]),
                time_to_live: b[8],
                protocol: b[9],
                source: Ipv4Address { a: b[12], b: b[13], c: b[14], d: b[15] },
                destination: Ipv4Address { a: b[16], b: b[17], c: b[18], d: b[19] },
            },
        )
    } else {
        None
    }
}

/// The length in bytes that the data offset of a TCP header announces.
pub open spec fn tcp_announced_len(b: Seq<u8>) -> int {
    ((b[12] & 0xf0) >> 2) as int
}

/// The TCP header at the start of `b`, if there is a well-formed one: at
/// least twenty bytes and a data offset of five words or more that the bytes
/// at hand cover.
pub open spec fn tcp_parsed(b: Seq<u8>) -> Option<ParsedTcp> {
    if b.len() >= 20 && tcp_announced_len(b) >= 20 && b.len() >= tcp_announced_len(b) {
        Some(
            ParsedTcp {
                header_len: tcp_announced_len(b) as usize,
                checksum: word(b[16], b[17]),
                header: TcpHeader {
                    source_port: word(b[0], b[1]),
                    destination_port: word(b[2], b[3]),
                    sequence_number: long(b[4], b[5], b[6], b[7]),
                    acknowledgment_number: long(b[8], b[9], b[10], b[11]),
                    window_size: word(b[14], b[15]),
                    flags: flags_of(b[13]),
                },
            },
        )
    } else {
        None
    }
}

/// A frame read as a TCP segment over IPv4: `None` unless it starts with a
/// well-formed IPv4 header that names TCP, followed by a well-formed TCP
/// header.
pub open spec fn frame_parsed(frame: Seq<u8>) -> Option<ParsedFrame> {
    match ipv4_parsed(frame) {
        None => None,
        Some(ip) => if ip.protocol != PROTOCOL_TCP {
            None
        } else {
            match tcp_parsed(frame.subrange(ip.header_len as int, frame.len() as int)) {
                None => None,
                Some(tcp) => Some(
                    ParsedFrame { ip, tcp, payload_offset: (ip.header_len + tcp.header_len) as usize },
                ),
            }
        },
    }
}

/// The TCP checksum that a frame carries is the one computed over what the
/// frame holds behind its IPv4 header.
pub open spec fn checksum_holds(frame: Seq<u8>, p: ParsedFrame) -> bool {
    received_tcp_checksum(
        p.ip.source,
        p.ip.destination,
        frame.subrange(p.ip.header_len as int, frame.len() as int),
    ) == Some(p.tcp.checksum)
}

/// A frame as the stack receives it: a TCP segment over IPv4 whose checksum
/// holds. Anything else is dropped.
pub open spec fn frame_received(frame: Seq<u8>) -> Option<ParsedFrame> {
    match frame_parsed(frame) {
        None => None,
        Some(p) => if checksum_holds(frame, p) {
            Some(p)
        } else {
            None
        },
    }
}

/// Two bytes written most significant first read back as the same value.
pub proof fn lemma_word_round_trip(x: u16)
    ensures
        word(hi(x), lo(x)) == x,
{
    assert((((x >> 8) as u8) as u16) << 8 | (((x & 0xff) as u8) as u16) == x) by (bit_vector);
}

/// Four bytes written most significant first read back as the same value.
pub proof fn lemma_long_round_trip(x: u32)
    ensures
        long(octet(x, 0), octet(x, 1), octet(x, 2), octet(x, 3)) == x,
{
    assert((((x >> 24) as u8) as u32) << 24 | ((((x >> 16) & 0xff) as u8) as u32) << 16 | ((((x
        >> 8) & 0xff) as u8) as u32) << 8 | (((x & 0xff) as u8) as u32) == x) by (bit_vector);
}

/// The flags byte holds each control bit apart from the others.
pub proof fn lemma_flags_round_trip(f: TcpFlags)
    ensures
        flags_of(flags_byte(f)) == f,
{
    let a0 = flag_bit(f.fin, 1);
    let a1 = flag_bit(f.syn, 2);
    let a2 = flag_bit(f.rst, 4);
    let a3 = flag_bit(f.psh, 8);
    let a4 = flag_bit(f.ack, 16);
    let a5 = flag_bit(f.urg, 32);
    let a6 = flag_bit(f.ece, 64);
    let a7 = flag_bit(f.cwr, 128);
    let b = a0 | a1 | a2 | a3 | a4 | a5 | a6 | a7;
    assert({
        &&& (b & 1 != 0) == (a0 != 0)
        &&& (b & 2 != 0) == (a1 != 0)
        &&& (b & 4 != 0) == (a2 != 0)
        &&& (b & 8 != 0) == (a3 != 0)
        &&& (b & 16 != 0) == (a4 != 0)
        &&& (b & 32 != 0) == (a5 != 0)
        &&& (b & 64 != 0) == (a6 != 0)
        &&& (b & 128 != 0) == (a7 != 0)
    }) by (bit_vector)
        requires
            b == a0 | a1 | a2 | a3 | a4 | a5 | a6 | a7,
            a0 == 0 || a0 == 1,
            a1 == 0 || a1 == 2,
            a2 == 0 || a2 == 4,
            a3 == 0 || a3 == 8,
            a4 == 0 || a4 == 16,
            a5 == 0 || a5 == 32,
            a6 == 0 || a6 == 64,
            a7 == 0 || a7 == 128,
    ;
}

/// A segment put on the wire and read back yields the header fields it was
/// made from, the payload it carried, and a checksum equal to the one
/// computed anew from what was read.
pub proof fn lemma_segment_round_trip(ip: Ipv4Header, tcp: TcpHeader, payload: Seq<u8>)
    requires
        ip.protocol == PROTOCOL_TCP,
        ip.payload_len == TCP_HEADER_LEN + payload.len(),
        ip.payload_len <= MAX_IPV4_PAYLOAD,
    ensures
        frame_parsed(segment_wire(ip, tcp, payload)) matches Some(p) && {
            &&& p.ip.header_len == IPV4_HEADER_LEN
            &&& p.ip.total_len == IPV4_HEADER_LEN + TCP_HEADER_LEN + payload.len()
            &&& p.ip.time_to_live == ip.time_to_live
            &&& p.ip.protocol == ip.protocol
            &&& p.ip.source == ip.source
            &&& p.ip.destination == ip.destination
            &&& p.tcp.header_len == TCP_HEADER_LEN
            &&& p.tcp.header == tcp
            &&& p.tcp.checksum == tcp_ipv4_checksum(
                p.ip.source,
                p.ip.destination,
                p.tcp.header,
                payload,
            )
            &&& p.payload_offset == IPV4_HEADER_LEN + TCP_HEADER_LEN
            &&& segment_wire(ip, tcp, payload).subrange(
                p.payload_offset as int,
                segment_wire(ip, tcp, payload).len() as int,
            ) == payload
        },
{
    let checksum = tcp_ipv4_checksum(ip.source, ip.destination, tcp, payload);
    let head = ipv4_wire(ip, ipv4_header_checksum(ip));
    let body = tcp_wire(tcp, checksum);
    let w = segment_wire(ip, tcp, payload);
    assert(w == head + body + payload);
    assert(head.len() == 20 && body.len() == 20);
    assert(0x45u8 >> 4 == 4 && 0x45u8 & 0xf == 5) by (bit_vector);
    assert(forall|i: int| 0 <= i < 20 ==> w[i] == head[i]);
    lemma_word_round_trip((ip.payload_len + 20) as u16);
    let rest = w.subrange(20, w.len() as int);
    assert(rest == body + payload);
    assert(forall|i: int| 0 <= i < 20 ==> rest[i] == body[i]);
    assert((0x50u8 & 0xf0) >> 2 == 20) by (bit_vector);
    lemma_word_round_trip(tcp.source_port);
    lemma_word_round_trip(tcp.destination_port);
    lemma_word_round_trip(tcp.window_size);
    lemma_word_round_trip(checksum);
    lemma_long_round_trip(tcp.sequence_number);
    lemma_long_round_trip(tcp.acknowledgment_number);
    lemma_flags_round_trip(tcp.flags);
    assert(w.subrange(40, w.len() as int) == payload);
}

/// Reads an IPv4 header with `etherparse::Ipv4HeaderSlice::from_slice` and
/// copies out the fields. The contract restates the checks that `from_slice`
/// makes and the offsets its accessors read.
#[verifier::external_body]
fn ipv4_from_slice(bytes: &[u8]) -> (r: Option<ParsedIpv4>)
    ensures
        r == ipv4_parsed(bytes@),
{
    match etherparse::Ipv4HeaderSlice::from_slice(bytes) {
        Ok(s) => {
            let ([a, b, c, d], [e, f, g, h]) = (s.source(), s.destination());
            let (source, destination) = (Ipv4Address { a, b, c, d }, Ipv4Address { a: e, b: f, c: g, d: h });
            let (header_len, total_len) = (s.slice().len(), s.total_len());
            Some(ParsedIpv4 { header_len, total_len, time_to_live: s.ttl(), protocol: s.protocol().0, source, destination })
        },
        Err(_) => None,
    }
}

/// Reads a TCP header with `etherparse::TcpHeaderSlice::from_slice` and
/// copies out the fields. The contract restates the checks that `from_slice`
/// makes and the offsets its accessors read.
#[verifier::external_body]
fn tcp_from_slice(bytes: &[u8]) -> (r: Option<ParsedTcp>)
    ensures
        r == tcp_parsed(bytes@),
{
    match etherparse::TcpHeaderSlice::from_slice(bytes) {
        Ok(s) => {
            let flags = TcpFlags {
                cwr: s.cwr(), ece: s.ece(), urg: s.urg(), ack: s.ack(),
                psh: s.psh(), rst: s.rst(), syn: s.syn(), fin: s.fin(),
            };
            let (source_port, destination_port) = (s.source_port(), s.destination_port());
            let (sequence_number, acknowledgment_number) = (s.sequence_number(), s.acknowledgment_number());
            let header = TcpHeader { source_port, destination_port, sequence_number, acknowledgment_number, window_size: s.window_size(), flags };
            Some(ParsedTcp { header_len: s.slice().len(), checksum: s.checksum(), header })
        },
        Err(_) => None,
    }
}

/// Builds an IPv4 header with `etherparse::Ipv4Header::new` and serialises it
/// with `etherparse::Ipv4Header::write`, which fills in the header checksum.
/// The contract lists the twenty bytes written; the checksum is named.
#[verifier::external_body]
fn ipv4_to_bytes(h: &Ipv4Header) -> (out: Vec<u8>)
    requires
        h.payload_len <= MAX_IPV4_PAYLOAD,
    ensures
        out@ == ipv4_wire(*h, ipv4_header_checksum(*h)),
{
    let source = [h.source.a, h.source.b, h.source.c, h.source.d];
    let destination = [h.destination.a, h.destination.b, h.destination.c, h.destination.d];
    let protocol = etherparse::IpNumber(h.protocol);
    let ip = etherparse::Ipv4Header::new(h.payload_len, h.time_to_live, protocol, source, destination).unwrap();
    let mut out = Vec::new();
    ip.write(&mut out).unwrap();
    out
}

/// Computes the TCP checksum over the IPv4 pseudo-header, the header and the
/// payload with `etherparse::TcpHeader::calc_checksum_ipv4_raw`, which fails
/// only on a payload too long for one packet. The result is named.
#[verifier::external_body]
fn tcp_checksum(source: Ipv4Address, destination: Ipv4Address, h: &TcpHeader, payload: &[u8]) -> (r: u16)
    requires
        payload@.len() <= MAX_IPV4_PAYLOAD - TCP_HEADER_LEN,
    ensures
        r == tcp_ipv4_checksum(source, destination, *h, payload@),
{
    let mut t = etherparse::TcpHeader::new(h.source_port, h.destination_port, h.sequence_number, h.window_size);
    t.acknowledgment_number = h.acknowledgment_number;
    (t.cwr, t.ece, t.urg, t.ack) = (h.flags.cwr, h.flags.ece, h.flags.urg, h.flags.ack);
    (t.psh, t.rst, t.syn, t.fin) = (h.flags.psh, h.flags.rst, h.flags.syn, h.flags.fin);
    let source = [source.a, source.b, source.c, source.d];
    let destination = [destination.a, destination.b, destination.c, destination.d];
    t.calc_checksum_ipv4_raw(source, destination, payload).unwrap()
}

/// Serialises a TCP header with `etherparse::TcpHeader::write`. The contract
/// lists the twenty bytes written; the checksum is the one handed in.
#[verifier::external_body]
fn tcp_to_bytes(h: &TcpHeader, checksum: u16) -> (out: Vec<u8>)
    ensures
        out@ == tcp_wire(*h, checksum),
{
    let mut t = etherparse::TcpHeader::new(h.source_port, h.destination_port, h.sequence_number, h.window_size);
    t.acknowledgment_number = h.acknowledgment_number;
    t.checksum = checksum;
    (t.cwr, t.ece, t.urg, t.ack) = (h.flags.cwr, h.flags.ece, h.flags.urg, h.flags.ack);
    (t.psh, t.rst, t.syn, t.fin) = (h.flags.psh, h.flags.rst, h.flags.syn, h.flags.fin);
    let mut out = Vec::new();
    t.write(&mut out).unwrap();
    out
}

/// Computes the checksum of a received TCP segment under the IPv4
/// pseudo-header with `etherparse::TcpHeaderSlice::calc_checksum_ipv4_raw`,
/// on the header that `etherparse::TcpHeaderSlice::from_slice` finds at the
/// start of the bytes and the payload behind it. The result is named.
#[verifier::external_body]
fn tcp_segment_checksum(source: Ipv4Address, destination: Ipv4Address, segment: &[u8]) -> (r: Option<u16>)
    ensures
        r == received_tcp_checksum(source, destination, segment@),
{
    let header = etherparse::TcpHeaderSlice::from_slice(segment).ok()?;
    let payload = &segment[header.slice().len()..];
    let source = [source.a, source.b, source.c, source.d];
    let destination = [destination.a, destination.b, destination.c, destination.d];
    header.calc_checksum_ipv4_raw(source, destination, payload).ok()
}

/// Splits a frame into its IPv4 header, its TCP header and its payload.
/// Returns `None` for anything that is not a TCP segment over IPv4.
pub fn parse_frame(frame: &[u8]) -> (r: Option<ParsedFrame>)
    ensures
        r == frame_parsed(frame@),
        r matches Some(p) ==> p.payload_offset <= frame@.len(),
{
    let ip = match ipv4_from_slice(frame) {
        None => { return None; },
        Some(ip) => ip,
    };
    if ip.protocol != PROTOCOL_TCP {
        return None;
    }
    assert(ip.header_len <= frame@.len()) by {
        let b0 = frame@[0];
        assert(4 * (b0 & 0xf) <= 60) by (bit_vector);
    }
    let rest = slice_subrange(frame, ip.header_len, frame.len());
    match tcp_from_slice(rest) {
        None => None,
        Some(tcp) => {
            assert(tcp.header_len <= rest@.len()) by {
                let b12 = rest@[12];
                assert((b12 & 0xf0) >> 2 <= 60) by (bit_vector);
            }
            Some(ParsedFrame { ip, tcp, payload_offset: ip.header_len + tcp.header_len })
        },
    }
}

/// Reads a frame that came from the tunnel: splits it as `parse_frame` does
/// and checks its TCP checksum. Returns `None` for a frame to drop.
pub fn receive_frame(frame: &[u8]) -> (r: Option<ParsedFrame>)
    ensures
        r == frame_received(frame@),
        r matches Some(p) ==> p.payload_offset <= frame@.len(),
{
    let parsed = match parse_frame(frame) {
        None => {
            return None;
        },
        Some(parsed) => parsed,
    };
    assert(parsed.ip.header_len <= parsed.payload_offset);
    let segment = slice_subrange(frame, parsed.ip.header_len, frame.len());
    match tcp_segment_checksum(parsed.ip.source, parsed.ip.destination, segment) {
        Some(checksum) => if checksum == parsed.tcp.checksum {
            Some(parsed)
        } else {
            None
        },
        None => None,
    }
}

/// Puts a segment on the wire: the IPv4 header with its checksum, the TCP
/// header with its checksum, then the payload.
pub fn encode_segment(ip: &Ipv4Header, tcp: &TcpHeader, payload: &[u8]) -> (frame: Vec<u8>)
    requires
        ip.payload_len == TCP_HEADER_LEN + payload@.len(),
        ip.payload_len <= MAX_IPV4_PAYLOAD,
    ensures
        frame@ == segment_wire(*ip, *tcp, payload@),
        frame@.len() == IPV4_HEADER_LEN + TCP_HEADER_LEN + payload@.len(),
{
    let mut frame = ipv4_to_bytes(ip);
    let checksum = tcp_checksum(ip.source, ip.destination, tcp, payload);
    let mut tcp_bytes = tcp_to_bytes(tcp, checksum);
    frame.append(&mut tcp_bytes);
    frame.extend_from_slice(payload);
    frame
}

} // verus!
