use ruts_tcp::manager::{ConnectionManager, Endpoint, Poll, Quad};
use ruts_tcp::tcp::{Connection, RecvSequenceSpace, SendSequenceSpace, State};
use ruts_tcp::wire::{encode_segment, parse_frame};
use ruts_tcp::wire::{Ipv4Address, Ipv4Header, TcpFlags, TcpHeader};

const LOCAL: Ipv4Address = Ipv4Address { a: 192, b: 168, c: 0, d: 1 };
const PEER: Ipv4Address = Ipv4Address { a: 192, b: 168, c: 0, d: 2 };

fn flags(set: &[&str]) -> TcpFlags {
    let mut flags = TcpFlags::none();
    for name in set {
        match *name {
            "syn" => flags.syn = true,
            "ack" => flags.ack = true,
            "fin" => flags.fin = true,
            "psh" => flags.psh = true,
            other => panic!("no such flag: {}", other),
        }
    }
    flags
}

fn header(seq: u32, ack: u32, window: u16, set: &[&str]) -> TcpHeader {
    TcpHeader {
        source_port: 51000,
        destination_port: 8080,
        sequence_number: seq,
        acknowledgment_number: ack,
        window_size: window,
        flags: flags(set),
    }
}

fn frame(tcp: &TcpHeader, payload: &[u8]) -> Vec<u8> {
    let ip = Ipv4Header {
        source: PEER,
        destination: LOCAL,
        time_to_live: 64,
        protocol: 6,
        payload_len: 20 + payload.len() as u16,
    };
    encode_segment(&ip, tcp, payload)
}

fn the_quad() -> Quad {
    Quad {
        local: Endpoint { ip: LOCAL, port: 8080 },
        remote: Endpoint { ip: PEER, port: 51000 },
    }
}

fn after_handshake() -> ConnectionManager {
    let mut manager = ConnectionManager::new();
    manager.bind(8080).unwrap();
    manager.on_frame(&frame(&header(1000, 0, 64240, &["syn"]), &[]));
    manager.on_frame(&frame(&header(1001, 1, 64240, &["ack"]), &[]));
    manager
}

#[test]
fn three_way_handshake_passive() {
    let mut manager = ConnectionManager::new();
    manager.bind(8080).unwrap();
    let first = manager.on_frame(&frame(&header(1000, 0, 64240, &["syn"]), &[]));
    let syn_ack = parse_frame(first.frame.as_ref().unwrap()).unwrap();
    assert_eq!(syn_ack.tcp.header.flags, flags(&["syn", "ack"]));
    assert_eq!(syn_ack.tcp.header.sequence_number, 0);
    assert_eq!(syn_ack.tcp.header.acknowledgment_number, 1001);
    assert_eq!(syn_ack.tcp.header.window_size, 64240);
    assert_eq!(syn_ack.ip.source, LOCAL);
    assert_eq!(syn_ack.ip.destination, PEER);
    assert!(first.wake.pending);
    assert_eq!(manager.poll_established(&the_quad()), Ok(Poll::Pending));
    manager.on_frame(&frame(&header(1001, 1, 64240, &["ack"]), &[]));
    assert_eq!(manager.poll_established(&the_quad()), Ok(Poll::Ready(())));
    assert_eq!(manager.take_pending(8080), Poll::Ready(the_quad()));
}

#[test]
fn data_receive() {
    let mut manager = after_handshake();
    let delivery = manager.on_frame(&frame(&header(1001, 1, 64240, &["ack", "psh"]), b"hello"));
    assert!(delivery.wake.receive);
    let ack = parse_frame(delivery.frame.as_ref().unwrap()).unwrap().tcp.header;
    assert_eq!(ack.acknowledgment_number, 1006);
    assert!(ack.flags.ack);
    let data = match manager.read(&the_quad(), 16) {
        Ok(Poll::Ready(data)) => data,
        other => panic!("the read should be ready: {:?}", other),
    };
    assert_eq!(data.len(), 5);
    assert_eq!(data, b"hello");
}

#[test]
fn window_arithmetic_wrap() {
    let send = SendSequenceSpace {
        una: 0xFFFF_FF00,
        nxt: 0x0000_0100,
        wnd: 1024,
        up: false,
        wl1: 0,
        wl2: 0,
        iss: 0xFFFF_FE00,
    };
    let recv = RecvSequenceSpace { nxt: 1001, wnd: 8192, up: false, irs: 1000 };
    let mut c = Connection::from_parts(State::Estab, send, recv, (LOCAL, 8080), (PEER, 51000));
    c.on_packet(&header(1001, 0xFFFF_FE00, 64240, &["ack"]), &[]);
    assert_eq!(c.send().una, 0xFFFF_FF00);
    assert_eq!(c.send().wnd, 1024);
    assert_eq!(c.state(), State::Estab);
    c.on_packet(&header(1001, 0x0000_0050, 64240, &["ack"]), &[]);
    assert_eq!(c.send().una, 0x0000_0050);
    assert_eq!(c.send().wnd, 64240);
}

#[test]
fn passive_close() {
    let send = SendSequenceSpace { una: 1, nxt: 1, wnd: 64240, up: false, wl1: 0, wl2: 0, iss: 0 };
    let recv = RecvSequenceSpace { nxt: 2000, wnd: 64240, up: false, irs: 999 };
    let mut c = Connection::from_parts(State::Estab, send, recv, (LOCAL, 8080), (PEER, 51000));
    let reaction = c.on_packet(&header(2000, 1, 64240, &["fin", "ack"]), &[]);
    assert_eq!(c.recv().nxt, 2001);
    assert_eq!(c.state(), State::CloseWait);
    let ack = parse_frame(reaction.frame.as_ref().unwrap()).unwrap().tcp.header;
    assert_eq!(ack.flags, flags(&["ack"]));
    assert_eq!(ack.acknowledgment_number, 2001);
    assert!(reaction.available.read);
    assert_eq!(c.outbuf_len(), 0);
    let reaction = c.on_packet(&header(2001, 1, 64240, &["ack"]), &[]);
    assert_eq!(c.state(), State::LastAck);
    let fin = parse_frame(reaction.frame.as_ref().unwrap()).unwrap().tcp.header;
    assert_eq!(fin.flags, flags(&["fin", "ack"]));
    assert_eq!(fin.sequence_number, 1);
    assert_eq!(c.send().nxt, 2);
    c.on_packet(&header(2001, 2, 64240, &["ack"]), &[]);
    assert_eq!(c.state(), State::Closed);
    assert!(c.is_closed());
}

#[test]
fn full_traversal_removes_the_connection() {
    let mut manager = ConnectionManager::new();
    manager.bind(8080).unwrap();
    manager.on_frame(&frame(&header(1000, 0, 64240, &["syn"]), &[]));
    assert!(manager.contains(&the_quad()));
    manager.on_frame(&frame(&header(1001, 1, 64240, &["ack"]), &[]));
    manager.on_frame(&frame(&header(1001, 1, 64240, &["fin", "ack"]), &[]));
    assert_eq!(manager.read(&the_quad(), 8), Ok(Poll::Ready(vec![])));
    manager.on_frame(&frame(&header(1002, 1, 64240, &["ack"]), &[]));
    assert!(manager.contains(&the_quad()));
    manager.on_frame(&frame(&header(1002, 2, 64240, &["ack"]), &[]));
    assert!(!manager.contains(&the_quad()));
}

#[test]
fn rejection_of_non_syn_to_bound_port() {
    let mut manager = ConnectionManager::new();
    manager.bind(8080).unwrap();
    let delivery = manager.on_frame(&frame(&header(500, 0, 64240, &["ack"]), &[]));
    assert!(!manager.contains(&the_quad()));
    assert_eq!(manager.take_pending(8080), Poll::Pending);
    assert!(!delivery.wake.pending);
    let reset = parse_frame(delivery.frame.as_ref().unwrap()).unwrap();
    assert_eq!(reset.tcp.header.flags, TcpFlags { rst: true, ..TcpFlags::none() });
    assert_eq!(reset.tcp.header.sequence_number, 0);
    assert_eq!(reset.tcp.header.acknowledgment_number, 0);
    assert_eq!(reset.tcp.header.source_port, 8080);
    assert_eq!(reset.tcp.header.destination_port, 51000);
    assert_eq!(reset.ip.source, LOCAL);
    assert_eq!(reset.ip.destination, PEER);
}

#[test]
fn out_of_window_segment() {
    let send = SendSequenceSpace { una: 1, nxt: 1, wnd: 8192, up: false, wl1: 0, wl2: 0, iss: 0 };
    let recv = RecvSequenceSpace { nxt: 1001, wnd: 8192, up: false, irs: 1000 };
    let mut c = Connection::from_parts(State::Estab, send, recv, (LOCAL, 8080), (PEER, 51000));
    let reaction = c.on_packet(&header(20000, 1, 8192, &["ack", "psh"]), b"far away");
    assert_eq!(c.inbuf_len(), 0);
    assert_eq!(c.state(), State::Estab);
    assert_eq!(c.recv().nxt, 1001);
    let ack = parse_frame(reaction.frame.as_ref().unwrap()).unwrap().tcp.header;
    assert_eq!(ack.flags, flags(&["ack"]));
    assert_eq!(ack.acknowledgment_number, 1001);
    assert_eq!(reaction.frame.as_ref().unwrap().len(), 40);
}
