use ruts_tcp::wire::{encode_segment, parse_frame, receive_frame};
use ruts_tcp::wire::{Ipv4Address, Ipv4Header, ParsedFrame, ParsedIpv4, ParsedTcp, TcpFlags, TcpHeader};

fn local() -> Ipv4Address {
    Ipv4Address { a: 192, b: 168, c: 0, d: 1 }
}

fn peer() -> Ipv4Address {
    Ipv4Address { a: 192, b: 168, c: 0, d: 44 }
}

fn ip_for(payload: &[u8]) -> Ipv4Header {
    Ipv4Header {
        source: local(),
        destination: peer(),
        time_to_live: 64,
        protocol: 6,
        payload_len: 20 + payload.len() as u16,
    }
}

fn sample_tcp() -> TcpHeader {
    let mut flags = TcpFlags::none();
    flags.syn = true;
    flags.ack = true;
    TcpHeader {
        source_port: 8080,
        destination_port: 50123,
        sequence_number: 0x0102_0304,
        acknowledgment_number: 0xA0B0_C0D0,
        window_size: 64240,
        flags,
    }
}

/// The one's complement sum of 16-bit words that both checksums rest on.
fn internet_checksum(parts: &[&[u8]]) -> u16 {
    let mut bytes: Vec<u8> = Vec::new();
    for part in parts {
        bytes.extend_from_slice(part);
    }
    if bytes.len() % 2 == 1 {
        bytes.push(0);
    }
    let mut sum: u32 = 0;
    for pair in bytes.chunks(2) {
        sum += u32::from(u16::from_be_bytes([pair[0], pair[1]]));
    }
    while sum > 0xFFFF {
        sum = (sum & 0xFFFF) + (sum >> 16);
    }
    !(sum as u16)
}

#[test]
fn encoded_ipv4_header_bytes() {
    let payload = b"hello";
    let frame = encode_segment(&ip_for(payload), &sample_tcp(), payload);
    assert_eq!(frame.len(), 45);
    assert_eq!(frame[0], 0x45);
    assert_eq!(frame[1], 0);
    assert_eq!(&frame[2..4], &[0, 45]);
    assert_eq!(&frame[4..8], &[0, 0, 0x40, 0]);
    assert_eq!(frame[8], 64);
    assert_eq!(frame[9], 6);
    assert_eq!(&frame[12..16], &[192, 168, 0, 1]);
    assert_eq!(&frame[16..20], &[192, 168, 0, 44]);
}

#[test]
fn encoded_tcp_header_bytes() {
    let payload = b"hello";
    let frame = encode_segment(&ip_for(payload), &sample_tcp(), payload);
    let tcp = &frame[20..40];
    assert_eq!(&tcp[0..2], &8080u16.to_be_bytes());
    assert_eq!(&tcp[2..4], &50123u16.to_be_bytes());
    assert_eq!(&tcp[4..8], &[1, 2, 3, 4]);
    assert_eq!(&tcp[8..12], &[0xA0, 0xB0, 0xC0, 0xD0]);
    assert_eq!(tcp[12], 0x50);
    assert_eq!(tcp[13], 0x12);
    assert_eq!(&tcp[14..16], &64240u16.to_be_bytes());
    assert_eq!(&tcp[18..20], &[0, 0]);
    assert_eq!(&frame[40..], b"hello");
}

#[test]
fn every_control_bit_has_its_place() {
    let cases: [(fn(&mut TcpFlags), u8); 8] = [
        (|f| f.fin = true, 1),
        (|f| f.syn = true, 2),
        (|f| f.rst = true, 4),
        (|f| f.psh = true, 8),
        (|f| f.ack = true, 16),
        (|f| f.urg = true, 32),
        (|f| f.ece = true, 64),
        (|f| f.cwr = true, 128),
    ];
    for (set, byte) in cases {
        let mut tcp = sample_tcp();
        tcp.flags = TcpFlags::none();
        set(&mut tcp.flags);
        let frame = encode_segment(&ip_for(&[]), &tcp, &[]);
        assert_eq!(frame[33], byte);
        let parsed = parse_frame(&frame).expect("a segment");
        assert_eq!(parsed.tcp.header.flags, tcp.flags);
    }
}

#[test]
fn encoded_checksums_validate() {
    let payload = b"hello";
    let frame = encode_segment(&ip_for(payload), &sample_tcp(), payload);
    assert_eq!(internet_checksum(&[&frame[0..20]]), 0);
    let pseudo = [192, 168, 0, 1, 192, 168, 0, 44, 0, 6, 0, 25];
    assert_eq!(internet_checksum(&[&pseudo, &frame[20..]]), 0);
}

#[test]
fn encoded_checksums_match_etherparse() {
    let payload = b"an odd payload!";
    let frame = encode_segment(&ip_for(payload), &sample_tcp(), payload);
    let (ip, rest) = etherparse::Ipv4Header::from_slice(&frame).unwrap();
    assert_eq!(ip.header_checksum, ip.calc_header_checksum());
    let (tcp, body) = etherparse::TcpHeader::from_slice(rest).unwrap();
    assert_eq!(body, payload);
    assert_eq!(tcp.checksum, tcp.calc_checksum_ipv4(&ip, body).unwrap());
    assert_ne!(tcp.checksum, 0);
}

#[test]
fn emitting_and_parsing_back_yields_the_same_fields() {
    let payload = b"round trip";
    let ip = ip_for(payload);
    let tcp = sample_tcp();
    let frame = encode_segment(&ip, &tcp, payload);
    let parsed = parse_frame(&frame).expect("a segment");
    assert_eq!(parsed.ip.header_len, 20);
    assert_eq!(parsed.ip.total_len, 50);
    assert_eq!(parsed.ip.time_to_live, 64);
    assert_eq!(parsed.ip.protocol, 6);
    assert_eq!(parsed.ip.source, local());
    assert_eq!(parsed.ip.destination, peer());
    assert_eq!(parsed.tcp.header_len, 20);
    assert_eq!(parsed.tcp.header, tcp);
    assert_eq!(parsed.payload_offset, 40);
    assert_eq!(&frame[parsed.payload_offset..], payload);
    let pseudo = [192, 168, 0, 1, 192, 168, 0, 44, 0, 6, 0, 30];
    assert_eq!(internet_checksum(&[&pseudo, &frame[20..]]), 0);
    assert_eq!(u16::from_be_bytes([frame[36], frame[37]]), parsed.tcp.checksum);
}

#[test]
fn parse_reads_fields_at_their_offsets() {
    let mut frame = vec![0u8; 44];
    frame[0] = 0x45;
    frame[2] = 0;
    frame[3] = 44;
    frame[8] = 17;
    frame[9] = 6;
    frame[12..16].copy_from_slice(&[10, 0, 0, 2]);
    frame[16..20].copy_from_slice(&[10, 0, 0, 1]);
    frame[20..22].copy_from_slice(&4000u16.to_be_bytes());
    frame[22..24].copy_from_slice(&8080u16.to_be_bytes());
    frame[24..28].copy_from_slice(&1000u32.to_be_bytes());
    frame[28..32].copy_from_slice(&77u32.to_be_bytes());
    frame[32] = 0x50;
    frame[33] = 0x18;
    frame[34..36].copy_from_slice(&8192u16.to_be_bytes());
    frame[36..38].copy_from_slice(&0xBEEFu16.to_be_bytes());
    frame[40..44].copy_from_slice(b"data");
    let parsed = parse_frame(&frame).expect("a segment");
    assert_eq!(parsed.ip.header_len, 20);
    assert_eq!(parsed.ip.total_len, 44);
    assert_eq!(parsed.ip.time_to_live, 17);
    assert_eq!(parsed.ip.source, Ipv4Address { a: 10, b: 0, c: 0, d: 2 });
    assert_eq!(parsed.ip.destination, Ipv4Address { a: 10, b: 0, c: 0, d: 1 });
    assert_eq!(parsed.tcp.header.source_port, 4000);
    assert_eq!(parsed.tcp.header.destination_port, 8080);
    assert_eq!(parsed.tcp.header.sequence_number, 1000);
    assert_eq!(parsed.tcp.header.acknowledgment_number, 77);
    assert_eq!(parsed.tcp.header.window_size, 8192);
    assert_eq!(parsed.tcp.checksum, 0xBEEF);
    let mut expected = TcpFlags::none();
    expected.ack = true;
    expected.psh = true;
    assert_eq!(parsed.tcp.header.flags, expected);
    assert_eq!(parsed.payload_offset, 40);
}

#[test]
fn parse_skips_header_options() {
    let mut frame = vec![0u8; 24 + 28 + 3];
    frame[0] = 0x46;
    frame[9] = 6;
    frame[24 + 12] = 0x70;
    let parsed = parse_frame(&frame).expect("a segment");
    assert_eq!(parsed.ip.header_len, 24);
    assert_eq!(parsed.tcp.header_len, 28);
    assert_eq!(parsed.payload_offset, 52);
}

#[test]
fn parse_rejects_what_is_not_ipv4() {
    assert!(parse_frame(&[]).is_none());
    assert!(parse_frame(&[0x45; 19]).is_none());
    let mut frame = vec![0u8; 40];
    frame[0] = 0x65;
    frame[9] = 6;
    frame[32] = 0x50;
    assert!(parse_frame(&frame).is_none());
    frame[0] = 0x44;
    assert!(parse_frame(&frame).is_none());
    frame[0] = 0x4F;
    assert!(parse_frame(&frame).is_none());
    frame[0] = 0x45;
    assert!(parse_frame(&frame).is_some());
}

#[test]
fn parse_rejects_what_is_not_tcp() {
    let mut frame = vec![0u8; 40];
    frame[0] = 0x45;
    frame[32] = 0x50;
    frame[9] = 17;
    assert!(parse_frame(&frame).is_none());
    frame[9] = 6;
    assert!(parse_frame(&frame).is_some());
    frame[32] = 0x40;
    assert!(parse_frame(&frame).is_none());
    frame[32] = 0x60;
    assert!(parse_frame(&frame).is_none());
    assert!(parse_frame(&frame[..39]).is_none());
}

#[test]
fn encode_takes_the_longest_payload() {
    let payload = vec![7u8; 65495];
    let ip = Ipv4Header {
        source: local(),
        destination: peer(),
        time_to_live: 64,
        protocol: 6,
        payload_len: 65515,
    };
    let frame = encode_segment(&ip, &sample_tcp(), &payload);
    assert_eq!(frame.len(), 65535);
    assert_eq!(&frame[2..4], &[0xFF, 0xFF]);
    let parsed = parse_frame(&frame).expect("a segment");
    assert_eq!(parsed.ip.total_len, 65535);
}

#[test]
fn receive_checks_the_tcp_checksum() {
    let payload = b"checked";
    let frame = encode_segment(&ip_for(payload), &sample_tcp(), payload);
    assert_eq!(receive_frame(&frame), parse_frame(&frame));
    assert!(receive_frame(&frame).is_some());
    for at in [20usize, 24, 33, 36, 37, 40, 46] {
        let mut damaged = frame.clone();
        damaged[at] ^= 0x10;
        assert!(receive_frame(&damaged).is_none(), "byte {}", at);
    }
    let mut other_source = frame.clone();
    other_source[15] ^= 0x01;
    assert!(parse_frame(&other_source).is_some());
    assert!(receive_frame(&other_source).is_none());
    assert!(receive_frame(&frame[..20]).is_none());
    assert!(receive_frame(&[]).is_none());
}

/// A small generator of bytes, the same on every run.
struct Bytes(u64);

impl Bytes {
    fn next(&mut self) -> u8 {
        self.0 = self.0.wrapping_mul(6364136223846793005).wrapping_add(1442695040888963407);
        (self.0 >> 33) as u8
    }
}

/// What a frame holds, read byte by byte at the offsets of the two headers.
fn read_by_hand(b: &[u8]) -> Option<ParsedFrame> {
    if b.len() < 20 || b[0] >> 4 != 4 || b[0] & 0xf < 5 || b.len() < 4 * usize::from(b[0] & 0xf) {
        return None;
    }
    let ip = ParsedIpv4 {
        header_len: 4 * usize::from(b[0] & 0xf),
        total_len: u16::from_be_bytes([b[2], b[3]]),
        time_to_live: b[8],
        protocol: b[9],
        source: Ipv4Address { a: b[12], b: b[13], c: b[14], d: b[15] },
        destination: Ipv4Address { a: b[16], b: b[17], c: b[18], d: b[19] },
    };
    if ip.protocol != 6 {
        return None;
    }
    let t = &b[ip.header_len..];
    if t.len() < 20 {
        return None;
    }
    let header_len = usize::from((t[12] & 0xf0) >> 2);
    if header_len < 20 || t.len() < header_len {
        return None;
    }
    let tcp = ParsedTcp {
        header_len,
        checksum: u16::from_be_bytes([t[16], t[17]]),
        header: TcpHeader {
            source_port: u16::from_be_bytes([t[0], t[1]]),
            destination_port: u16::from_be_bytes([t[2], t[3]]),
            sequence_number: u32::from_be_bytes([t[4], t[5], t[6], t[7]]),
            acknowledgment_number: u32::from_be_bytes([t[8], t[9], t[10], t[11]]),
            window_size: u16::from_be_bytes([t[14], t[15]]),
            flags: TcpFlags {
                fin: t[13] & 1 != 0,
                syn: t[13] & 2 != 0,
                rst: t[13] & 4 != 0,
                psh: t[13] & 8 != 0,
                ack: t[13] & 16 != 0,
                urg: t[13] & 32 != 0,
                ece: t[13] & 64 != 0,
                cwr: t[13] & 128 != 0,
            },
        },
    };
    Some(ParsedFrame { ip, tcp, payload_offset: ip.header_len + header_len })
}

#[test]
fn parse_agrees_with_reading_by_hand() {
    let mut bytes = Bytes(7);
    let mut segments = 0;
    for round in 0..4000 {
        let len = usize::from(bytes.next()) % 140;
        let mut frame: Vec<u8> = (0..len).map(|_| bytes.next()).collect();
        if round % 2 == 0 && len > 9 {
            frame[0] = 0x40 | (frame[0] & 0x0f);
            frame[9] = 6;
        }
        if round % 4 == 0 && len > 0 {
            frame[0] = 0x45 + (frame[0] & 0x03);
        }
        let expected = read_by_hand(&frame);
        assert_eq!(parse_frame(&frame), expected, "round {}", round);
        if expected.is_some() {
            segments += 1;
        }
    }
    assert!(segments > 300, "only {} segments", segments);
}

#[test]
fn encode_agrees_with_writing_by_hand() {
    let mut bytes = Bytes(11);
    for _ in 0..500 {
        let mut word = || u16::from_be_bytes([bytes.next(), bytes.next()]);
        let (source_port, destination_port, window_size) = (word(), word(), word());
        let sequence_number = (u32::from(word()) << 16) | u32::from(word());
        let acknowledgment_number = (u32::from(word()) << 16) | u32::from(word());
        let bits = bytes.next();
        let flags = TcpFlags {
            fin: bits & 1 != 0,
            syn: bits & 2 != 0,
            rst: bits & 4 != 0,
            psh: bits & 8 != 0,
            ack: bits & 16 != 0,
            urg: bits & 32 != 0,
            ece: bits & 64 != 0,
            cwr: bits & 128 != 0,
        };
        let tcp = TcpHeader {
            source_port,
            destination_port,
            sequence_number,
            acknowledgment_number,
            window_size,
            flags,
        };
        let payload: Vec<u8> = (0..usize::from(bytes.next())).map(|_| bytes.next()).collect();
        let ip = Ipv4Header {
            source: Ipv4Address { a: bytes.next(), b: bytes.next(), c: bytes.next(), d: bytes.next() },
            destination: Ipv4Address { a: bytes.next(), b: bytes.next(), c: bytes.next(), d: bytes.next() },
            time_to_live: bytes.next(),
            protocol: bytes.next(),
            payload_len: 20 + payload.len() as u16,
        };
        let frame = encode_segment(&ip, &tcp, &payload);
        let total = (40 + payload.len() as u16).to_be_bytes();
        let mut expected = vec![0x45, 0, total[0], total[1], 0, 0, 0x40, 0];
        expected.extend_from_slice(&[ip.time_to_live, ip.protocol, frame[10], frame[11]]);
        expected.extend_from_slice(&[ip.source.a, ip.source.b, ip.source.c, ip.source.d]);
        expected.extend_from_slice(&[
            ip.destination.a,
            ip.destination.b,
            ip.destination.c,
            ip.destination.d,
        ]);
        expected.extend_from_slice(&source_port.to_be_bytes());
        expected.extend_from_slice(&destination_port.to_be_bytes());
        expected.extend_from_slice(&sequence_number.to_be_bytes());
        expected.extend_from_slice(&acknowledgment_number.to_be_bytes());
        expected.extend_from_slice(&[0x50, bits]);
        expected.extend_from_slice(&window_size.to_be_bytes());
        expected.extend_from_slice(&[frame[36], frame[37], 0, 0]);
        expected.extend_from_slice(&payload);
        assert_eq!(frame, expected);
        assert_eq!(internet_checksum(&[&frame[0..20]]), 0);
        let length = (20 + payload.len() as u16).to_be_bytes();
        let pseudo = [
            ip.source.a,
            ip.source.b,
            ip.source.c,
            ip.source.d,
            ip.destination.a,
            ip.destination.b,
            ip.destination.c,
            ip.destination.d,
            0,
            6,
            length[0],
            length[1],
        ];
        assert_eq!(internet_checksum(&[&pseudo, &frame[20..]]), 0);
        if ip.protocol == 6 {
            let parsed = receive_frame(&frame).expect("an emitted frame is received");
            assert_eq!(parsed.tcp.header, tcp);
        }
    }
}
