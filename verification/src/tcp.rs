//! The per-connection TCP state machine.
//!
//! A [`Connection`] never touches the device. Each operation that the
//! protocol answers with a segment returns that segment as bytes, and the
//! caller hands them to the tunnel.

use std::collections::VecDeque;
use vstd::prelude::*;
use vstd::slice::slice_subrange;
use crate::buffer::{append_bytes, take_front};
use crate::model::{carried, one_if, opened_by, opening, opening_syn, refusal};
use crate::model::{reset_header, segment_len};
use crate::model::{ConnectionView, Disposition};
use crate::sequence::{advance, in_left_open_range};
use crate::sequence::{is_duplicate, is_in_range_wrap, lemma_advance_twice};
use crate::sequence::{predecessor, step_forward, step_if, successor};
use crate::wire::{encode_segment, segment_wire};
use crate::wire::{Ipv4Address, Ipv4Header, ParsedIpv4, TcpFlags, TcpHeader};
use crate::wire::{IPV4_HEADER_LEN, PROTOCOL_TCP, TCP_HEADER_LEN};

verus! {

/// Largest frame that the tunnel carries.
pub const MTU: usize = 1500;

/// Largest payload of one emitted segment: what the frame leaves behind the
/// two headers.
pub const MAX_SEGMENT_PAYLOAD: usize = 1460;

/// High-water mark of the outbound queue, in bytes.
pub const TRANSMISSION_QLEN_SIZE: usize = 1_500_000;

/// The initial send sequence number of every connection.
pub const INITIAL_SEND_SEQUENCE: u32 = 0;

/// Time to live of every emitted packet.
pub const TIME_TO_LIVE: u8 = 64;

/// The local port that an active open uses unless its caller picks one.
pub const ACTIVE_OPEN_PORT: u16 = 9182;

/// The states of a connection.
#[derive(Debug, Clone, Copy, PartialEq, Eq, Structural)]
pub enum State {
    SynRcvd,
    SynSent,
    Estab,
    FinWait1,
    FinWait2,
    CloseWait,
    Closing,
    TimeWait,
    LastAck,
    Closed,
}

/// Which user operations can make progress on a connection.
#[derive(Debug, Clone, Copy, PartialEq, Eq, Structural)]
pub struct Available {
    pub read: bool,
    pub write: bool,
}

/// The send sequence space.
///
/// ```text
///             1         2          3          4
///        ----------|----------|----------|----------
///               SND.UNA    SND.NXT    SND.UNA
///                                    +SND.WND
///
///  1 - old sequence numbers that have been acknowledged
///  2 - sequence numbers of unacknowledged data
///  3 - sequence numbers allowed for new data transmission
///  4 - future sequence numbers that are not yet allowed
/// ```
#[derive(Debug, Clone, Copy, PartialEq, Eq, Structural)]
pub struct SendSequenceSpace {
    /// oldest unacknowledged sequence number
    pub una: u32,
    /// next sequence number to send
    pub nxt: u32,
    /// window advertised by the peer
    pub wnd: u16,
    /// urgent pointer
    pub up: bool,
    /// sequence number of the segment that last updated the window
    pub wl1: u32,
    /// acknowledgment number of the segment that last updated the window
    pub wl2: u32,
    /// initial send sequence number
    pub iss: u32,
}

/// The receive sequence space.
///
/// ```text
///                 1          2          3
///             ----------|----------|----------
///                    RCV.NXT    RCV.NXT
///                              +RCV.WND
///
///  1 - old sequence numbers that have been acknowledged
///  2 - sequence numbers allowed for new reception
///  3 - future sequence numbers that are not yet allowed
/// ```
#[derive(Debug, Clone, Copy, PartialEq, Eq, Structural)]
pub struct RecvSequenceSpace {
    /// next sequence number expected
    pub nxt: u32,
    /// window advertised to the peer
    pub wnd: u16,
    /// urgent pointer
    pub up: bool,
    /// initial receive sequence number
    pub irs: u32,
}

/// One TCP connection: its state, both sequence spaces, the header templates
/// of the segments it sends, and the bytes queued in each direction.
#[derive(Debug)]
pub struct Connection {
    state: State,
    send: SendSequenceSpace,
    recv: RecvSequenceSpace,
    iphdr: Ipv4Header,
    tcphdr: TcpHeader,
    inbuf: VecDeque<u8>,
    outbuf: VecDeque<u8>,
    fin_queued: bool,
}

/// A segment that was put together for the tunnel.
#[derive(Debug)]
pub struct Emission {
    /// The whole frame: IPv4 header, TCP header, payload.
    pub frame: Vec<u8>,
    /// How many bytes of the caller's payload the frame carries.
    pub payload_len: usize,
}

/// What a connection answers to an inbound segment.
#[derive(Debug)]
pub struct Reaction {
    /// What the user can do on the connection after the segment.
    pub available: Available,
    /// The frame to hand to the tunnel, if the segment calls for one.
    pub frame: Option<Vec<u8>>,
}

impl View for Connection {
    type V = ConnectionView;

    closed spec fn view(&self) -> ConnectionView {
        ConnectionView {
            state: self.state,
            send: self.send,
            recv: self.recv,
            iphdr: self.iphdr,
            tcphdr: self.tcphdr,
            inbuf: self.inbuf@,
            outbuf: self.outbuf@,
            fin_queued: self.fin_queued,
        }
    }
}

impl Available {
    /// Nothing can make progress.
    pub fn empty() -> (r: Available)
        ensures
            r == (Available { read: false, write: false }),
    {
        Available { read: false, write: false }
    }

    /// The set as bits: 1 for reading, 2 for writing.
    pub fn bits(&self) -> (r: u8)
        ensures
            r == one_if(self.read) + 2 * one_if(self.write),
    {
        let r: u8 = if self.read { 1 } else { 0 };
        let w: u8 = if self.write { 2 } else { 0 };
        r + w
    }
}

/// Builds the header of the reset that answers `tcphdr`.
fn reset_for(
    source_port: u16,
    destination_port: u16,
    window_size: u16,
    tcphdr: &TcpHeader,
    payload_len: usize,
) -> (r: TcpHeader)
    ensures
        r == reset_header(source_port, destination_port, window_size, *tcphdr, payload_len as nat),
{
    let mut flags = TcpFlags::none();
    flags.rst = true;
    if tcphdr.flags.ack {
        TcpHeader {
            source_port,
            destination_port,
            sequence_number: tcphdr.acknowledgment_number,
            acknowledgment_number: 0,
            window_size,
            flags,
        }
    } else {
        flags.ack = true;
        let after_text = step_forward(tcphdr.sequence_number, payload_len);
        let after_syn = step_if(after_text, tcphdr.flags.syn);
        let end = step_if(after_syn, tcphdr.flags.fin);
        proof {
            lemma_advance_twice(
                tcphdr.sequence_number,
                payload_len as int,
                one_if(tcphdr.flags.syn),
            );
            lemma_advance_twice(
                tcphdr.sequence_number,
                payload_len + one_if(tcphdr.flags.syn),
                one_if(tcphdr.flags.fin),
            );
        }
        TcpHeader {
            source_port,
            destination_port,
            sequence_number: 0,
            acknowledgment_number: end,
            window_size,
            flags,
        }
    }
}

impl State {
    /// Leaves SYN-RECEIVED for ESTABLISHED.
    fn finish_handshake(self) -> (r: State)
        ensures
            r == self.after_handshake(),
    {
        match self {
            State::SynRcvd => State::Estab,
            other => other,
        }
    }

    /// Tells whether an acknowledgment moves the send window in this state.
    fn moves_send_window(self) -> (r: bool)
        ensures
            r == self.tracks_acks(),
    {
        match self {
            State::Estab | State::FinWait1 | State::FinWait2 | State::CloseWait | State::Closing => true,
            _ => false,
        }
    }

    /// Takes the steps of the closing side that a segment drives.
    fn closing_steps(self, fin: bool, all_acknowledged: bool) -> (r: State)
        ensures
            r == self.after_closing_steps(fin, all_acknowledged),
    {
        let mut state = self;
        if let State::FinWait1 = state {
            state = State::FinWait2;
        }
        if let State::FinWait2 = state {
            if fin {
                state = State::TimeWait;
            }
        }
        if let State::Closing = state {
            if all_acknowledged {
                state = State::TimeWait;
            }
        }
        state
    }

    /// Takes the one step that the text and the FIN of a segment drive.
    fn text_step(self, fin: bool, idle: bool) -> (r: State)
        ensures
            r == self.after_text(fin, idle),
    {
        match self {
            State::Estab => if fin {
                State::CloseWait
            } else {
                State::Estab
            },
            State::CloseWait => if idle {
                State::LastAck
            } else {
                State::CloseWait
            },
            State::LastAck => State::Closed,
            other => other,
        }
    }
}

impl SendSequenceSpace {
    /// Takes the acknowledgment of a segment if it acknowledges something
    /// new, and with it the window unless a newer segment set it.
    fn take_ack(self, tcphdr: &TcpHeader) -> (r: SendSequenceSpace)
        ensures
            r == if self.acknowledges_new(tcphdr.acknowledgment_number) {
                self.acknowledged_by(*tcphdr)
            } else {
                self
            },
    {
        let seg_seq = tcphdr.sequence_number;
        let seg_ack = tcphdr.acknowledgment_number;
        let mut send = self;
        if is_in_range_wrap(send.una, seg_ack, successor(send.nxt)) {
            send.una = seg_ack;
            if (send.wl1 < seg_seq) || (send.wl1 == seg_seq && send.wl2 <= seg_ack) {
                send.wnd = tcphdr.window_size;
                send.wl1 = seg_seq;
                send.wl2 = seg_ack;
            }
        }
        send
    }
}

impl Connection {
    /// The invariant of a connection between two operations.
    pub open spec fn wf(&self) -> bool {
        self@.wf()
    }

    /// The state of the connection.
    pub fn state(&self) -> (r: State)
        ensures
            r == self@.state,
    {
        self.state
    }

    /// The send sequence space.
    pub fn send(&self) -> (r: SendSequenceSpace)
        ensures
            r == self@.send,
    {
        self.send
    }

    /// The receive sequence space.
    pub fn recv(&self) -> (r: RecvSequenceSpace)
        ensures
            r == self@.recv,
    {
        self.recv
    }

    /// Number of received bytes that the user has not read yet.
    pub fn inbuf_len(&self) -> (r: usize)
        ensures
            r == self@.inbuf.len(),
    {
        self.inbuf.len()
    }

    /// Number of bytes written by the user that were not sent yet.
    pub fn outbuf_len(&self) -> (r: usize)
        ensures
            r == self@.outbuf.len(),
    {
        self.outbuf.len()
    }

    /// Tells whether the peer has closed its side.
    pub fn is_recv_closed(&self) -> (r: bool)
        ensures
            r == self@.state.recv_closed(),
    {
        match self.state {
            State::TimeWait | State::CloseWait | State::Closing => true,
            _ => false,
        }
    }

    /// Tells whether the user may still write.
    pub fn is_send_open(&self) -> (r: bool)
        ensures
            r == self@.state.send_open(),
    {
        match self.state {
            State::SynSent | State::SynRcvd | State::Estab | State::CloseWait => true,
            _ => false,
        }
    }

    /// What the user can do on the connection now.
    pub fn availability(&self) -> (r: Available)
        ensures
            r == self@.available(),
    {
        let mut availability = Available::empty();
        if self.is_recv_closed() || self.inbuf.len() > 0 {
            availability.read = true;
        }
        if self.is_send_open() && self.outbuf.len() < TRANSMISSION_QLEN_SIZE {
            availability.write = true;
        }
        availability
    }

    /// Tells whether the connection is closed, and may leave the table.
    pub fn is_closed(&self) -> (r: bool)
        ensures
            r == (self@.state == State::Closed),
    {
        match self.state {
            State::Closed => true,
            _ => false,
        }
    }

    /// Tells whether the handshake is over and the connection not closed.
    pub fn is_established(&self) -> (r: bool)
        ensures
            r == self@.state.synchronized(),
    {
        match self.state {
            State::Closed | State::SynRcvd | State::SynSent => false,
            _ => true,
        }
    }

    /// Clears every control bit of the header template.
    fn reset_tcphdr_flags(&mut self)
        ensures
            final(self)@ == (ConnectionView {
                tcphdr: TcpHeader { flags: TcpFlags::none(), ..old(self)@.tcphdr },
                ..old(self)@
            }),
    {
        self.tcphdr.flags.cwr = false;
        self.tcphdr.flags.ece = false;
        self.tcphdr.flags.urg = false;
        self.tcphdr.flags.ack = false;
        self.tcphdr.flags.psh = false;
        self.tcphdr.flags.rst = false;
        self.tcphdr.flags.syn = false;
        self.tcphdr.flags.fin = false;
    }

    /// Builds a connection from its parts, with empty queues. The local
    /// address and port become the source of every segment it sends.
    pub fn from_parts(
        state: State,
        send: SendSequenceSpace,
        recv: RecvSequenceSpace,
        local: (Ipv4Address, u16),
        remote: (Ipv4Address, u16),
    ) -> (c: Connection)
        ensures
            c.wf(),
            c@ == (ConnectionView {
                state,
                send,
                recv,
                iphdr: Ipv4Header {
                    source: local.0,
                    destination: remote.0,
                    time_to_live: TIME_TO_LIVE,
                    protocol: PROTOCOL_TCP,
                    payload_len: 0,
                },
                tcphdr: TcpHeader {
                    source_port: local.1,
                    destination_port: remote.1,
                    sequence_number: send.nxt,
                    acknowledgment_number: recv.nxt,
                    window_size: recv.wnd,
                    flags: TcpFlags::none(),
                },
                inbuf: Seq::empty(),
                outbuf: Seq::empty(),
                fin_queued: false,
            }),
    {
        Connection {
            state,
            send,
            recv,
            iphdr: Ipv4Header {
                source: local.0,
                destination: remote.0,
                time_to_live: TIME_TO_LIVE,
                protocol: PROTOCOL_TCP,
                payload_len: 0,
            },
            tcphdr: TcpHeader {
                source_port: local.1,
                destination_port: remote.1,
                sequence_number: send.nxt,
                acknowledgment_number: recv.nxt,
                window_size: recv.wnd,
                flags: TcpFlags::none(),
            },
            inbuf: VecDeque::new(),
            outbuf: VecDeque::new(),
            fin_queued: false,
        }
    }

    /// Emits one segment that carries the control bits staged in the header
    /// template, with ACK forced on, and as much of `payload` as one frame
    /// holds. Returns the frame and the number of payload bytes in it.
    pub fn write(&mut self, payload: &[u8]) -> (r: Emission)
        ensures
            r.payload_len == carried(payload@.len()),
            r.frame@ == old(self)@.emitted_frame(payload@),
            r.frame@.len() == IPV4_HEADER_LEN + TCP_HEADER_LEN + r.payload_len,
            r.frame@.len() <= MTU,
            final(self)@ == old(self)@.after_emission(payload@),
    {
        self.tcphdr.flags.ack = true;
        let n = if payload.len() > MAX_SEGMENT_PAYLOAD {
            MAX_SEGMENT_PAYLOAD
        } else {
            payload.len()
        };
        self.iphdr.payload_len = (TCP_HEADER_LEN + n) as u16;
        self.tcphdr.sequence_number = self.send.nxt;
        self.tcphdr.acknowledgment_number = self.recv.nxt;
        let frame = encode_segment(&self.iphdr, &self.tcphdr, slice_subrange(payload, 0, n));
        let control = self.tcphdr.flags.syn || self.tcphdr.flags.fin;
        proof {
            lemma_advance_twice(self.send.nxt, n as int, one_if(control));
        }
        self.send.nxt = step_if(step_forward(self.send.nxt, n), control);
        self.reset_tcphdr_flags();
        Emission { frame, payload_len: n }
    }
    /// Opens a connection for a segment that arrived on a bound port with no
    /// connection of its own. Without SYN the segment opens nothing, and
    /// `refuse` builds the reset that answers it. With SYN the connection is
    /// created in SYN-RECEIVED, and returned with the SYN+ACK that answers.
    pub fn accept(iphdr: &ParsedIpv4, tcphdr: &TcpHeader) -> (r: Option<(Connection, Vec<u8>)>)
        ensures
            !tcphdr.flags.syn ==> r is None,
            tcphdr.flags.syn ==> (r matches Some(opened) && {
                &&& opened.0@ == opened_by(*iphdr, *tcphdr).after_emission(Seq::empty())
                &&& opened.1@ == opened_by(*iphdr, *tcphdr).emitted_frame(Seq::empty())
                &&& opened.0.wf()
            }),
    {
        if !tcphdr.flags.syn {
            return None;
        }
        let iss = INITIAL_SEND_SEQUENCE;
        let window_size = tcphdr.window_size;
        let mut flags = TcpFlags::none();
        flags.syn = true;
        let mut connection = Connection {
            state: State::SynRcvd,
            send: SendSequenceSpace {
                iss,
                una: iss,
                nxt: iss,
                wnd: window_size,
                up: false,
                wl1: 0,
                wl2: 0,
            },
            recv: RecvSequenceSpace {
                nxt: successor(tcphdr.sequence_number),
                wnd: window_size,
                up: false,
                irs: tcphdr.sequence_number,
            },
            iphdr: Ipv4Header {
                source: iphdr.destination,
                destination: iphdr.source,
                time_to_live: TIME_TO_LIVE,
                protocol: PROTOCOL_TCP,
                payload_len: 0,
            },
            tcphdr: TcpHeader {
                source_port: tcphdr.destination_port,
                destination_port: tcphdr.source_port,
                sequence_number: iss,
                acknowledgment_number: 0,
                window_size,
                flags,
            },
            inbuf: VecDeque::new(),
            outbuf: VecDeque::new(),
            fin_queued: false,
        };
        let empty: Vec<u8> = Vec::new();
        let emission = connection.write(empty.as_slice());
        Some((connection, emission.frame))
    }

    /// Starts an active open from the local address and port towards
    /// `remote_ip` and `remote_port`: returns the connection in SYN-SENT and
    /// the SYN that the caller must send.
    pub fn establish_connection(
        local_ip: Ipv4Address,
        local_port: u16,
        remote_ip: Ipv4Address,
        remote_port: u16,
    ) -> (r: (Connection, Vec<u8>))
        ensures
            r.0@ == opening(local_ip, local_port, remote_ip, remote_port),
            r.1@ == segment_wire(
                opening(local_ip, local_port, remote_ip, remote_port).iphdr,
                opening_syn(local_port, remote_port),
                Seq::empty(),
            ),
            r.0.wf(),
    {
        let iss = INITIAL_SEND_SEQUENCE;
        let wnd: u16 = 0;
        let mut flags = TcpFlags::none();
        flags.syn = true;
        let mut tcphdr = TcpHeader {
            source_port: local_port,
            destination_port: remote_port,
            sequence_number: iss,
            acknowledgment_number: 0,
            window_size: wnd,
            flags,
        };
        let iphdr = Ipv4Header {
            source: local_ip,
            destination: remote_ip,
            time_to_live: TIME_TO_LIVE,
            protocol: PROTOCOL_TCP,
            payload_len: TCP_HEADER_LEN as u16,
        };
        let empty: Vec<u8> = Vec::new();
        let frame = encode_segment(&iphdr, &tcphdr, empty.as_slice());
        tcphdr.flags = TcpFlags::none();
        let connection = Connection {
            state: State::SynSent,
            send: SendSequenceSpace {
                una: iss,
                nxt: successor(iss),
                wnd,
                iss,
                up: false,
                wl1: 0,
                wl2: 0,
            },
            recv: RecvSequenceSpace { nxt: 0, wnd: 0, up: false, irs: 0 },
            iphdr,
            tcphdr,
            inbuf: VecDeque::new(),
            outbuf: VecDeque::new(),
            fin_queued: false,
        };
        (connection, frame)
    }

    /// Tells whether `seq` lies in the receive window.
    fn in_window(&self, seq: u32) -> (r: bool)
        ensures
            r == self@.recv.in_window(seq),
    {
        is_in_range_wrap(
            predecessor(self.recv.nxt),
            seq,
            step_forward(self.recv.nxt, self.recv.wnd as usize),
        )
    }

    /// Tells whether the receive window accepts a segment.
    fn accepts(&self, tcphdr: &TcpHeader, payload_len: usize) -> (r: bool)
        ensures
            r == self@.recv.accepts(
                tcphdr.sequence_number,
                segment_len(*tcphdr, payload_len as nat),
            ),
    {
        let seq = tcphdr.sequence_number;
        if payload_len == 0 && !tcphdr.flags.syn && !tcphdr.flags.fin {
            if self.recv.wnd == 0 {
                seq == self.recv.nxt
            } else {
                self.in_window(seq)
            }
        } else if self.recv.wnd == 0 {
            false
        } else {
            let after_text = step_forward(seq, payload_len);
            let after_syn = step_if(after_text, tcphdr.flags.syn);
            let end = step_if(after_syn, tcphdr.flags.fin);
            let last = predecessor(end);
            proof {
                let len = segment_len(*tcphdr, payload_len as nat);
                lemma_advance_twice(seq, payload_len as int, one_if(tcphdr.flags.syn));
                lemma_advance_twice(
                    seq,
                    payload_len + one_if(tcphdr.flags.syn),
                    one_if(tcphdr.flags.fin),
                );
                lemma_advance_twice(seq, len, -1);
            }
            self.in_window(seq) && self.in_window(last)
        }
    }

    /// Tells whether `ack` lies in the half-open range `(start, end]`.
    fn in_left_open(start: u32, ack: u32, end: u32) -> (r: bool)
        ensures
            r == in_left_open_range(start, ack, end),
    {
        is_in_range_wrap(start, ack, successor(end))
    }

    /// Sorts an inbound segment by what the connection will do with it.
    fn classify(&self, tcphdr: &TcpHeader, payload_len: usize) -> (r: Disposition)
        ensures
            r == self@.disposition(*tcphdr, payload_len as nat),
    {
        let seg_ack = tcphdr.acknowledgment_number;
        if let State::SynSent = self.state {
            if !Self::in_left_open(self.send.iss, seg_ack, self.send.nxt) && !Self::in_left_open(
                self.send.una,
                seg_ack,
                self.send.nxt,
            ) {
                if tcphdr.flags.rst {
                    return Disposition::Ignored;
                }
                return Disposition::Rejected;
            }
            if !tcphdr.flags.syn {
                return Disposition::Ignored;
            }
            return Disposition::Connected;
        }
        if !self.accepts(tcphdr, payload_len) {
            if tcphdr.flags.rst {
                return Disposition::Ignored;
            }
            return Disposition::Refused;
        }
        if tcphdr.flags.syn {
            if self.is_established() {
                return Disposition::Reset;
            }
            return Disposition::Ignored;
        }
        if !tcphdr.flags.ack {
            return Disposition::Ignored;
        }
        let mut state = self.state;
        if let State::SynRcvd = state {
            if is_in_range_wrap(predecessor(self.send.una), seg_ack, successor(self.send.nxt)) {
                state = State::Estab;
            } else {
                return Disposition::Rejected;
            }
        }
        if let State::Estab | State::FinWait1 | State::FinWait2 | State::CloseWait | State::Closing = state {
            if !Self::in_left_open(self.send.una, seg_ack, self.send.nxt) && !is_duplicate(
                self.send.una,
                seg_ack,
                self.send.nxt,
            ) {
                return Disposition::AckRejected;
            }
        }
        Disposition::Processed
    }

    /// Emits a segment without payload that carries the staged control bits.
    fn answer(&mut self) -> (frame: Vec<u8>)
        ensures
            frame@ == old(self)@.emitted_frame(Seq::empty()),
            final(self)@ == old(self)@.after_emission(Seq::empty()),
    {
        let empty: Vec<u8> = Vec::new();
        let emission = self.write(empty.as_slice());
        emission.frame
    }

    /// Builds the segment that resets the connection, for a caller that
    /// tears it down. A connection that is not synchronized is torn down
    /// without a word to the peer.
    pub fn reset_frame(&self) -> (r: Option<Vec<u8>>)
        ensures
            self@.state.synchronized() ==> (r matches Some(frame) && frame@
                == self@.reset_frame()),
            !self@.state.synchronized() ==> r is None,
    {
        if !self.is_established() {
            return None;
        }
        let mut flags = TcpFlags::none();
        flags.rst = true;
        flags.ack = true;
        let iphdr = Ipv4Header {
            source: self.iphdr.source,
            destination: self.iphdr.destination,
            time_to_live: self.iphdr.time_to_live,
            protocol: self.iphdr.protocol,
            payload_len: TCP_HEADER_LEN as u16,
        };
        let reset = TcpHeader {
            source_port: self.tcphdr.source_port,
            destination_port: self.tcphdr.destination_port,
            sequence_number: self.send.nxt,
            acknowledgment_number: self.recv.nxt,
            window_size: self.tcphdr.window_size,
            flags,
        };
        let empty: Vec<u8> = Vec::new();
        assert(Seq::<u8>::empty().take(0) =~= Seq::<u8>::empty());
        Some(encode_segment(&iphdr, &reset, empty.as_slice()))
    }

    /// Builds the reset that answers a segment which does not fit an open in
    /// progress.
    fn rejection(&self, tcphdr: &TcpHeader, payload_len: usize) -> (frame: Vec<u8>)
        ensures
            frame@ == self@.rejection(*tcphdr, payload_len as nat),
    {
        let iphdr = Ipv4Header {
            source: self.iphdr.source,
            destination: self.iphdr.destination,
            time_to_live: self.iphdr.time_to_live,
            protocol: self.iphdr.protocol,
            payload_len: TCP_HEADER_LEN as u16,
        };
        let reset = reset_for(
            self.tcphdr.source_port,
            self.tcphdr.destination_port,
            self.tcphdr.window_size,
            tcphdr,
            payload_len,
        );
        let empty: Vec<u8> = Vec::new();
        encode_segment(&iphdr, &reset, empty.as_slice())
    }

    /// Builds the reset that answers a segment which arrived for no
    /// connection and opens none. Returns `None` for a segment that is a
    /// reset itself.
    pub fn refuse(iphdr: &ParsedIpv4, tcphdr: &TcpHeader, payload_len: usize) -> (r: Option<Vec<u8>>)
        ensures
            match (r, refusal(*iphdr, *tcphdr, payload_len as nat)) {
                (Some(sent), Some(due)) => sent@ == due,
                (None, None) => true,
                _ => false,
            },
    {
        if tcphdr.flags.rst {
            return None;
        }
        let ip = Ipv4Header {
            source: iphdr.destination,
            destination: iphdr.source,
            time_to_live: TIME_TO_LIVE,
            protocol: PROTOCOL_TCP,
            payload_len: TCP_HEADER_LEN as u16,
        };
        let reset = reset_for(tcphdr.destination_port, tcphdr.source_port, 0, tcphdr, payload_len);
        let empty: Vec<u8> = Vec::new();
        Some(encode_segment(&ip, &reset, empty.as_slice()))
    }

    /// Applies a segment that the connection takes in: the acknowledgment,
    /// the state transitions, the text and the FIN.
    fn take_in(&mut self, tcphdr: &TcpHeader, payload: &[u8])
        ensures
            final(self)@ == old(self)@.taken_in(*tcphdr, payload@),
    {
        let fin = tcphdr.flags.fin;
        let established = self.state.finish_handshake();
        if established.moves_send_window() {
            self.send = self.send.take_ack(tcphdr);
        }
        let all_acknowledged = tcphdr.acknowledgment_number == self.send.nxt;
        let at_text = established.closing_steps(fin, all_acknowledged);
        let idle = self.outbuf.len() == 0;
        self.state = at_text.text_step(fin, idle);
        self.tcphdr.flags = TcpFlags::none();
        if at_text == State::Estab {
            append_bytes(&mut self.inbuf, payload);
        }
        if idle && (at_text == State::CloseWait || self.fin_queued) {
            self.tcphdr.flags.fin = true;
            self.fin_queued = false;
        }
        proof {
            lemma_advance_twice(self.recv.nxt, payload@.len() as int, one_if(fin));
        }
        self.recv.nxt = step_if(step_forward(self.recv.nxt, payload.len()), fin);
    }

    /// Handles a segment that arrived for this connection. Returns what the
    /// user can do afterwards and the frame that answers the segment, if one
    /// is due.
    pub fn on_packet(&mut self, tcphdr: &TcpHeader, payload: &[u8]) -> (r: Reaction)
        requires
            old(self).wf(),
        ensures
            final(self).wf(),
            final(self)@ == old(self)@.on_packet(*tcphdr, payload@).connection,
            r.available == final(self)@.available(),
            match (r.frame, old(self)@.on_packet(*tcphdr, payload@).frame) {
                (Some(sent), Some(due)) => sent@ == due,
                (None, None) => true,
                _ => false,
            },
    {
        let frame = match self.classify(tcphdr, payload.len()) {
            Disposition::Ignored => None,
            Disposition::Connected => {
                self.recv.nxt = successor(tcphdr.sequence_number);
                self.recv.irs = tcphdr.sequence_number;
                self.send.una = tcphdr.acknowledgment_number;
                self.state = State::Estab;
                Some(self.answer())
            },
            Disposition::Refused => Some(self.answer()),
            Disposition::Reset => {
                self.tcphdr.flags.rst = true;
                let frame = self.answer();
                self.inbuf.clear();
                self.outbuf.clear();
                self.fin_queued = false;
                self.state = State::Closed;
                Some(frame)
            },
            Disposition::Rejected => Some(self.rejection(tcphdr, payload.len())),
            Disposition::AckRejected => {
                if let State::SynRcvd = self.state {
                    self.state = State::Estab;
                }
                Some(self.answer())
            },
            Disposition::Processed => {
                self.take_in(tcphdr, payload);
                let n = if self.outbuf.len() > MAX_SEGMENT_PAYLOAD {
                    MAX_SEGMENT_PAYLOAD
                } else {
                    self.outbuf.len()
                };
                let sent = take_front(&mut self.outbuf, n);
                let emission = self.write(sent.as_slice());
                Some(emission.frame)
            },
        };
        Reaction { available: self.availability(), frame }
    }

    /// Closes the sending side for the user: queues the FIN behind what is
    /// left to send and moves a connection that is established, or about to
    /// be, to FIN-WAIT-1. The FIN leaves with the answer to a later segment.
    pub fn close(&mut self)
        requires
            old(self).wf(),
        ensures
            final(self).wf(),
            final(self)@ == old(self)@.closed_by_user(),
    {
        match self.state {
            State::SynRcvd | State::Estab => {
                self.state = State::FinWait1;
                self.fin_queued = true;
            },
            _ => {},
        }
    }

    /// Hands the user up to `max` received bytes, oldest first, and removes
    /// them from the inbound queue.
    pub fn read(&mut self, max: usize) -> (data: Vec<u8>)
        requires
            old(self).wf(),
        ensures
            final(self).wf(),
            data@.len() == if max < old(self)@.inbuf.len() {
                max as int
            } else {
                old(self)@.inbuf.len() as int
            },
            data@ == old(self)@.inbuf.take(data@.len() as int),
            final(self)@ == (ConnectionView {
                inbuf: old(self)@.inbuf.skip(data@.len() as int),
                ..old(self)@
            }),
    {
        let n = if max < self.inbuf.len() {
            max
        } else {
            self.inbuf.len()
        };
        take_front(&mut self.inbuf, n)
    }

    /// Queues bytes of the user for sending, as many as fit below the
    /// high-water mark of the outbound queue, and returns how many.
    pub fn enqueue(&mut self, data: &[u8]) -> (n: usize)
        requires
            old(self).wf(),
        ensures
            final(self).wf(),
            n == if data@.len() < TRANSMISSION_QLEN_SIZE - old(self)@.outbuf.len() {
                data@.len() as int
            } else {
                TRANSMISSION_QLEN_SIZE - old(self)@.outbuf.len()
            },
            final(self)@ == (ConnectionView {
                outbuf: old(self)@.outbuf + data@.take(n as int),
                ..old(self)@
            }),
    {
        let room = TRANSMISSION_QLEN_SIZE - self.outbuf.len();
        let n = if data.len() < room {
            data.len()
        } else {
            room
        };
        append_bytes(&mut self.outbuf, slice_subrange(data, 0, n));
        n
    }
}

} // verus!
