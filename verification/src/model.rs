//! The TCP state machine as mathematics: what a connection is, what each
//! segment does to it, and the laws that follow.
//!
//! Nothing here runs. The functions of the `tcp` module are verified against
//! these definitions.

use vstd::prelude::*;
use crate::sequence::{advance, duplicate_ack, in_left_open_range, in_open_range};
use crate::sequence::{forward_distance, lemma_advance_zero, lemma_open_range_is_forward_arc};
use crate::tcp::{Available, RecvSequenceSpace, SendSequenceSpace, State};
use crate::tcp::{INITIAL_SEND_SEQUENCE, MAX_SEGMENT_PAYLOAD, TIME_TO_LIVE};
use crate::tcp::TRANSMISSION_QLEN_SIZE;
use crate::wire::segment_wire;
use crate::wire::{Ipv4Address, Ipv4Header, ParsedIpv4, TcpFlags, TcpHeader};
use crate::wire::{IPV4_HEADER_LEN, PROTOCOL_TCP, TCP_HEADER_LEN};

verus! {

/// A connection as a mathematical value.
pub struct ConnectionView {
    pub state: State,
    pub send: SendSequenceSpace,
    pub recv: RecvSequenceSpace,
    pub iphdr: Ipv4Header,
    pub tcphdr: TcpHeader,
    pub inbuf: Seq<u8>,
    pub outbuf: Seq<u8>,
    /// The user has closed the sending side and the FIN has not left yet.
    pub fin_queued: bool,
}

/// One if the condition holds, zero otherwise.
pub open spec fn one_if(b: bool) -> int {
    if b {
        1
    } else {
        0
    }
}

/// How many bytes of a payload of `len` bytes one segment carries.
pub open spec fn carried(len: nat) -> int {
    if len > MAX_SEGMENT_PAYLOAD {
        MAX_SEGMENT_PAYLOAD as int
    } else {
        len as int
    }
}

impl State {
    /// The receive side is closed: the peer's FIN was seen.
    pub open spec fn recv_closed(self) -> bool {
        self == State::TimeWait || self == State::CloseWait || self == State::Closing
    }

    /// The handshake is over and the connection is not closed.
    pub open spec fn synchronized(self) -> bool {
        self != State::Closed && self != State::SynRcvd && self != State::SynSent
    }

    /// The local FIN was neither sent nor queued: the user may still write.
    pub open spec fn send_open(self) -> bool {
        self == State::SynSent || self == State::SynRcvd || self == State::Estab || self
            == State::CloseWait
    }

    /// The states in which an acknowledgment moves the send window.
    pub open spec fn tracks_acks(self) -> bool {
        self == State::Estab || self == State::FinWait1 || self == State::FinWait2 || self
            == State::CloseWait || self == State::Closing
    }

    /// The state once the acknowledgment of a passive open was accepted.
    pub open spec fn after_handshake(self) -> State {
        if self == State::SynRcvd {
            State::Estab
        } else {
            self
        }
    }

    /// The state after the transitions that a segment taken in drives on the
    /// closing side: out of FIN-WAIT-1 at once, out of FIN-WAIT-2 on a FIN,
    /// out of CLOSING when everything sent is acknowledged.
    pub open spec fn after_closing_steps(self, fin: bool, all_acknowledged: bool) -> State {
        if self == State::FinWait1 || self == State::FinWait2 {
            if fin {
                State::TimeWait
            } else {
                State::FinWait2
            }
        } else if self == State::Closing && all_acknowledged {
            State::TimeWait
        } else {
            self
        }
    }

    /// The state after the text of a segment taken in was processed. An
    /// established connection goes to CLOSE-WAIT on a FIN; one in CLOSE-WAIT
    /// with nothing left to send goes to LAST-ACK; one in LAST-ACK is closed.
    /// A segment drives one of these steps, not several.
    pub open spec fn after_text(self, fin: bool, idle: bool) -> State {
        if self == State::Estab {
            if fin {
                State::CloseWait
            } else {
                State::Estab
            }
        } else if self == State::CloseWait {
            if idle {
                State::LastAck
            } else {
                State::CloseWait
            }
        } else if self == State::LastAck {
            State::Closed
        } else {
            self
        }
    }
}

impl ConnectionView {
    /// The queue of outbound bytes respects its high-water mark and no
    /// control bit is left over from an earlier segment.
    pub open spec fn wf(self) -> bool {
        &&& self.outbuf.len() <= TRANSMISSION_QLEN_SIZE
        &&& self.tcphdr.flags == TcpFlags::none()
    }

    /// What the user can do: read when bytes wait or the peer has closed,
    /// write while the local side is open and the outbound queue has room.
    pub open spec fn available(self) -> Available {
        Available {
            read: self.state.recv_closed() || self.inbuf.len() > 0,
            write: self.state.send_open() && self.outbuf.len() < TRANSMISSION_QLEN_SIZE,
        }
    }

    /// The TCP header of the next emitted segment: the template with the
    /// current sequence numbers, and ACK forced on.
    pub open spec fn emitted_tcp(self) -> TcpHeader {
        TcpHeader {
            sequence_number: self.send.nxt,
            acknowledgment_number: self.recv.nxt,
            flags: TcpFlags { ack: true, ..self.tcphdr.flags },
            ..self.tcphdr
        }
    }

    /// The IPv4 header of the next emitted segment, for a payload of `len`
    /// bytes handed to the emission.
    pub open spec fn emitted_ip(self, len: nat) -> Ipv4Header {
        Ipv4Header { payload_len: (TCP_HEADER_LEN + carried(len)) as u16, ..self.iphdr }
    }

    /// The frame that the next emission puts together for `payload`.
    pub open spec fn emitted_frame(self, payload: Seq<u8>) -> Seq<u8> {
        segment_wire(
            self.emitted_ip(payload.len()),
            self.emitted_tcp(),
            payload.take(carried(payload.len())),
        )
    }

    /// The connection after it has emitted a segment for `payload`: the next
    /// send sequence number moves past the bytes carried, and one further for
    /// a SYN or a FIN; the templates hold what was sent, with no control bit
    /// left.
    pub open spec fn after_emission(self, payload: Seq<u8>) -> ConnectionView {
        ConnectionView {
            send: SendSequenceSpace {
                nxt: advance(
                    self.send.nxt,
                    carried(payload.len()) + one_if(self.tcphdr.flags.syn || self.tcphdr.flags.fin),
                ),
                ..self.send
            },
            iphdr: self.emitted_ip(payload.len()),
            tcphdr: TcpHeader { flags: TcpFlags::none(), ..self.emitted_tcp() },
            ..self
        }
    }
}

/// The sequence space that a segment occupies: its payload, and one number
/// each for a SYN and a FIN.
pub open spec fn segment_len(seg: TcpHeader, payload_len: nat) -> int {
    payload_len + one_if(seg.flags.syn) + one_if(seg.flags.fin)
}

impl RecvSequenceSpace {
    /// `seq` lies in the receive window: at or after the next expected
    /// number and before the window's end.
    pub open spec fn in_window(self, seq: u32) -> bool {
        in_open_range(advance(self.nxt, -1), seq, advance(self.nxt, self.wnd as int))
    }

    /// The acceptability test for a segment that starts at `seq` and
    /// occupies `len` sequence numbers.
    pub open spec fn accepts(self, seq: u32, len: int) -> bool {
        if len == 0 {
            if self.wnd == 0 {
                seq == self.nxt
            } else {
                self.in_window(seq)
            }
        } else {
            self.wnd > 0 && self.in_window(seq) && self.in_window(advance(seq, len - 1))
        }
    }
}

impl SendSequenceSpace {
    /// In an active open, `ack` acknowledges the SYN that was sent.
    pub open spec fn answers_syn(self, ack: u32) -> bool {
        in_left_open_range(self.iss, ack, self.nxt) || in_left_open_range(self.una, ack, self.nxt)
    }

    /// In a passive open, `ack` completes the handshake: it lies at or after
    /// the oldest unacknowledged number and not beyond the next to send.
    pub open spec fn completes_handshake(self, ack: u32) -> bool {
        in_open_range(advance(self.una, -1), ack, advance(self.nxt, 1))
    }

    /// `ack` acknowledges something new that was sent.
    pub open spec fn acknowledges_new(self, ack: u32) -> bool {
        in_left_open_range(self.una, ack, self.nxt)
    }

    /// A segment with these numbers is newer than the one that last set the
    /// send window.
    pub open spec fn window_is_stale(self, seq: u32, ack: u32) -> bool {
        self.wl1 < seq || (self.wl1 == seq && self.wl2 <= ack)
    }

    /// The send sequence space after a segment that acknowledges something
    /// new: the acknowledged region grows, and the window is taken from the
    /// segment unless a newer one set it.
    pub open spec fn acknowledged_by(self, seg: TcpHeader) -> SendSequenceSpace {
        if self.window_is_stale(seg.sequence_number, seg.acknowledgment_number) {
            SendSequenceSpace {
                una: seg.acknowledgment_number,
                wnd: seg.window_size,
                wl1: seg.sequence_number,
                wl2: seg.acknowledgment_number,
                ..self
            }
        } else {
            SendSequenceSpace { una: seg.acknowledgment_number, ..self }
        }
    }
}

/// The header of the reset that answers a segment for which no connection
/// is synchronized. If the segment acknowledges, the reset takes the
/// acknowledgment number as its sequence number. Otherwise it has sequence
/// number zero and acknowledges everything that the segment occupies.
pub open spec fn reset_header(
    source_port: u16,
    destination_port: u16,
    window_size: u16,
    seg: TcpHeader,
    payload_len: nat,
) -> TcpHeader {
    if seg.flags.ack {
        TcpHeader {
            source_port,
            destination_port,
            sequence_number: seg.acknowledgment_number,
            acknowledgment_number: 0,
            window_size,
            flags: TcpFlags { rst: true, ..TcpFlags::none() },
        }
    } else {
        TcpHeader {
            source_port,
            destination_port,
            sequence_number: 0,
            acknowledgment_number: advance(seg.sequence_number, segment_len(seg, payload_len)),
            window_size,
            flags: TcpFlags { rst: true, ack: true, ..TcpFlags::none() },
        }
    }
}

/// The reset that answers a segment which arrived for no connection and
/// opens none: it goes back where the segment came from. A reset is never
/// answered.
pub open spec fn refusal(ip: ParsedIpv4, seg: TcpHeader, payload_len: nat) -> Option<Seq<u8>> {
    if seg.flags.rst {
        None
    } else {
        Some(
            segment_wire(
                Ipv4Header {
                    source: ip.destination,
                    destination: ip.source,
                    time_to_live: TIME_TO_LIVE,
                    protocol: PROTOCOL_TCP,
                    payload_len: TCP_HEADER_LEN as u16,
                },
                reset_header(seg.destination_port, seg.source_port, 0, seg, payload_len),
                Seq::empty(),
            ),
        )
    }
}

/// What a connection makes of an inbound segment.
#[derive(Debug, Clone, Copy, PartialEq, Eq, Structural)]
pub enum Disposition {
    /// Dropped: nothing changes and nothing is sent.
    Ignored,
    /// The answer to an active open: the connection is established and
    /// acknowledges.
    Connected,
    /// Outside the receive window: dropped and answered with an
    /// acknowledgment.
    Refused,
    /// A SYN inside an established connection: the connection is reset.
    Reset,
    /// A segment that does not fit an open in progress: the answer to an
    /// active open that acknowledges something else, or an acknowledgment
    /// that does not complete a passive open. It is answered with a reset
    /// and the connection stays as it is.
    Rejected,
    /// An acknowledgment of something not sent yet: answered with an
    /// acknowledgment, the rest of the segment is dropped.
    AckRejected,
    /// Taken in: the acknowledgment, the state transitions and the text are
    /// processed and a segment is sent back.
    Processed,
}

/// A connection after a segment, and the frame it sends in answer.
pub struct Outcome {
    pub connection: ConnectionView,
    pub frame: Option<Seq<u8>>,
}

impl ConnectionView {
    /// How the connection disposes of a segment whose payload has
    /// `payload_len` bytes. The tests are made in this order: the answer to
    /// an active open; the receive window; a SYN; a missing ACK; the
    /// handshake of a passive open; the acknowledgment number.
    pub open spec fn disposition(self, seg: TcpHeader, payload_len: nat) -> Disposition {
        if self.state == State::SynSent {
            if !self.send.answers_syn(seg.acknowledgment_number) {
                if seg.flags.rst {
                    Disposition::Ignored
                } else {
                    Disposition::Rejected
                }
            } else if seg.flags.syn {
                Disposition::Connected
            } else {
                Disposition::Ignored
            }
        } else if !self.recv.accepts(seg.sequence_number, segment_len(seg, payload_len)) {
            if seg.flags.rst {
                Disposition::Ignored
            } else {
                Disposition::Refused
            }
        } else if seg.flags.syn {
            if self.state.synchronized() {
                Disposition::Reset
            } else {
                Disposition::Ignored
            }
        } else if !seg.flags.ack {
            Disposition::Ignored
        } else if self.state == State::SynRcvd && !self.send.completes_handshake(
            seg.acknowledgment_number,
        ) {
            Disposition::Rejected
        } else if self.state.after_handshake().tracks_acks() && !self.send.acknowledges_new(
            seg.acknowledgment_number,
        ) && !duplicate_ack(self.send.una, seg.acknowledgment_number, self.send.nxt) {
            Disposition::AckRejected
        } else {
            Disposition::Processed
        }
    }

    /// The send sequence space after the acknowledgment of a segment that is
    /// taken in.
    pub open spec fn send_after_ack(self, seg: TcpHeader) -> SendSequenceSpace {
        if self.state.after_handshake().tracks_acks() && self.send.acknowledges_new(
            seg.acknowledgment_number,
        ) {
            self.send.acknowledged_by(seg)
        } else {
            self.send
        }
    }

    /// The state in which the text of a segment taken in is processed.
    pub open spec fn state_at_text(self, seg: TcpHeader) -> State {
        self.state.after_handshake().after_closing_steps(
            seg.flags.fin,
            seg.acknowledgment_number == self.send_after_ack(seg).nxt,
        )
    }

    /// The state in which a segment taken in leaves the connection.
    pub open spec fn state_after(self, seg: TcpHeader) -> State {
        self.state_at_text(seg).after_text(seg.flags.fin, self.outbuf.len() == 0)
    }

    /// The connection sends its FIN with the answer to this segment: it has
    /// nothing left to send, and it is in CLOSE-WAIT or its user has closed
    /// the sending side.
    pub open spec fn sends_fin(self, seg: TcpHeader) -> bool {
        self.outbuf.len() == 0 && (self.state_at_text(seg) == State::CloseWait || self.fin_queued)
    }

    /// The payload of a segment taken in reaches the user: the connection is
    /// established when the text is processed.
    pub open spec fn delivers(self, seg: TcpHeader) -> bool {
        self.state_at_text(seg) == State::Estab
    }

    /// The connection just before it answers a segment that it has taken in:
    /// the acknowledgment is applied, the state has moved, the payload is
    /// queued for the user, the next expected sequence number has moved past
    /// the payload and past a FIN, and a FIN of its own is staged if one is
    /// due.
    pub open spec fn taken_in(self, seg: TcpHeader, payload: Seq<u8>) -> ConnectionView {
        ConnectionView {
            state: self.state_after(seg),
            send: self.send_after_ack(seg),
            recv: RecvSequenceSpace {
                nxt: advance(self.recv.nxt, payload.len() + one_if(seg.flags.fin)),
                ..self.recv
            },
            tcphdr: TcpHeader {
                flags: TcpFlags { fin: self.sends_fin(seg), ..TcpFlags::none() },
                ..self.tcphdr
            },
            inbuf: if self.delivers(seg) {
                self.inbuf + payload
            } else {
                self.inbuf
            },
            fin_queued: self.fin_queued && self.outbuf.len() > 0,
            ..self
        }
    }

    /// The connection once the answer to an active open was adopted.
    pub open spec fn connected_by(self, seg: TcpHeader) -> ConnectionView {
        ConnectionView {
            state: State::Estab,
            send: SendSequenceSpace { una: seg.acknowledgment_number, ..self.send },
            recv: RecvSequenceSpace {
                nxt: advance(seg.sequence_number, 1),
                irs: seg.sequence_number,
                ..self.recv
            },
            ..self
        }
    }

    /// The reset that answers a segment which does not fit an open in
    /// progress.
    pub open spec fn rejection(self, seg: TcpHeader, payload_len: nat) -> Seq<u8> {
        segment_wire(
            Ipv4Header { payload_len: TCP_HEADER_LEN as u16, ..self.iphdr },
            reset_header(
                self.tcphdr.source_port,
                self.tcphdr.destination_port,
                self.tcphdr.window_size,
                seg,
                payload_len,
            ),
            Seq::empty(),
        )
    }

    /// The connection after its user has closed the sending side. Before or
    /// just after the handshake the connection goes to FIN-WAIT-1 and its
    /// FIN is queued behind what is left to send. In any other state the
    /// close changes nothing: the FIN has left already, or leaves by itself
    /// as in CLOSE-WAIT.
    pub open spec fn closed_by_user(self) -> ConnectionView {
        if self.state == State::SynRcvd || self.state == State::Estab {
            ConnectionView { state: State::FinWait1, fin_queued: true, ..self }
        } else {
            self
        }
    }

    /// The connection with the control bits of its next segment staged.
    pub open spec fn staging(self, flags: TcpFlags) -> ConnectionView {
        ConnectionView { tcphdr: TcpHeader { flags, ..self.tcphdr }, ..self }
    }

    /// The segment that resets a synchronized connection: no payload, RST
    /// beside the ACK that every emission carries, the next send sequence
    /// number and the next expected one.
    pub open spec fn reset_frame(self) -> Seq<u8> {
        self.staging(TcpFlags { rst: true, ..TcpFlags::none() }).emitted_frame(Seq::empty())
    }

    /// What an inbound segment does to the connection and which frame
    /// answers it.
    pub open spec fn on_packet(self, seg: TcpHeader, payload: Seq<u8>) -> Outcome {
        match self.disposition(seg, payload.len()) {
            Disposition::Ignored => Outcome { connection: self, frame: None },
            Disposition::Connected => Outcome {
                connection: self.connected_by(seg).after_emission(Seq::empty()),
                frame: Some(self.connected_by(seg).emitted_frame(Seq::empty())),
            },
            Disposition::Refused => Outcome {
                connection: self.after_emission(Seq::empty()),
                frame: Some(self.emitted_frame(Seq::empty())),
            },
            Disposition::Reset => {
                let resetting = self.staging(TcpFlags { rst: true, ..TcpFlags::none() });
                Outcome {
                    connection: ConnectionView {
                        state: State::Closed,
                        inbuf: Seq::empty(),
                        outbuf: Seq::empty(),
                        fin_queued: false,
                        ..resetting.after_emission(Seq::empty())
                    },
                    frame: Some(self.reset_frame()),
                }
            },
            Disposition::Rejected => Outcome {
                connection: self,
                frame: Some(self.rejection(seg, payload.len())),
            },
            Disposition::AckRejected => {
                let established = ConnectionView { state: self.state.after_handshake(), ..self };
                Outcome {
                    connection: established.after_emission(Seq::empty()),
                    frame: Some(established.emitted_frame(Seq::empty())),
                }
            },
            Disposition::Processed => {
                let answering = self.taken_in(seg, payload);
                let sent = self.outbuf.take(carried(self.outbuf.len()));
                Outcome {
                    connection: ConnectionView {
                        outbuf: self.outbuf.skip(carried(self.outbuf.len())),
                        ..answering.after_emission(sent)
                    },
                    frame: Some(answering.emitted_frame(sent)),
                }
            },
        }
    }
}

/// The connection that a SYN opens on a bound port, before it answers: the
/// peer's sequence number and window are adopted, the header templates point
/// back at the peer, and SYN is staged for the answer.
pub open spec fn opened_by(ip: ParsedIpv4, seg: TcpHeader) -> ConnectionView {
    ConnectionView {
        state: State::SynRcvd,
        send: SendSequenceSpace {
            iss: INITIAL_SEND_SEQUENCE,
            una: INITIAL_SEND_SEQUENCE,
            nxt: INITIAL_SEND_SEQUENCE,
            wnd: seg.window_size,
            up: false,
            wl1: 0,
            wl2: 0,
        },
        recv: RecvSequenceSpace {
            nxt: advance(seg.sequence_number, 1),
            wnd: seg.window_size,
            up: false,
            irs: seg.sequence_number,
        },
        iphdr: Ipv4Header {
            source: ip.destination,
            destination: ip.source,
            time_to_live: TIME_TO_LIVE,
            protocol: PROTOCOL_TCP,
            payload_len: 0,
        },
        tcphdr: TcpHeader {
            source_port: seg.destination_port,
            destination_port: seg.source_port,
            sequence_number: INITIAL_SEND_SEQUENCE,
            acknowledgment_number: 0,
            window_size: seg.window_size,
            flags: TcpFlags { syn: true, ..TcpFlags::none() },
        },
        inbuf: Seq::empty(),
        outbuf: Seq::empty(),
        fin_queued: false,
    }
}

/// The TCP header of the SYN that starts an active open.
pub open spec fn opening_syn(local_port: u16, remote_port: u16) -> TcpHeader {
    TcpHeader {
        source_port: local_port,
        destination_port: remote_port,
        sequence_number: INITIAL_SEND_SEQUENCE,
        acknowledgment_number: 0,
        window_size: 0,
        flags: TcpFlags { syn: true, ..TcpFlags::none() },
    }
}

/// The connection of an active open once its SYN is sent: the SYN occupies
/// the initial sequence number and nothing is known of the peer.
pub open spec fn opening(
    local_ip: Ipv4Address,
    local_port: u16,
    remote_ip: Ipv4Address,
    remote_port: u16,
) -> ConnectionView {
    ConnectionView {
        state: State::SynSent,
        send: SendSequenceSpace {
            iss: INITIAL_SEND_SEQUENCE,
            una: INITIAL_SEND_SEQUENCE,
            nxt: advance(INITIAL_SEND_SEQUENCE, 1),
            wnd: 0,
            up: false,
            wl1: 0,
            wl2: 0,
        },
        recv: RecvSequenceSpace { nxt: 0, wnd: 0, up: false, irs: 0 },
        iphdr: Ipv4Header {
            source: local_ip,
            destination: remote_ip,
            time_to_live: TIME_TO_LIVE,
            protocol: PROTOCOL_TCP,
            payload_len: TCP_HEADER_LEN as u16,
        },
        tcphdr: TcpHeader { flags: TcpFlags::none(), ..opening_syn(local_port, remote_port) },
        inbuf: Seq::empty(),
        outbuf: Seq::empty(),
        fin_queued: false,
    }
}

/// An acknowledgment of something new moves the oldest unacknowledged
/// sequence number forward and never past the next one to send: what is in
/// flight shrinks, and the next sequence number to send stays.
pub proof fn lemma_acknowledgment_shrinks_flight(send: SendSequenceSpace, seg: TcpHeader)
    requires
        send.acknowledges_new(seg.acknowledgment_number),
    ensures
        send.acknowledged_by(seg).una == seg.acknowledgment_number,
        send.acknowledged_by(seg).nxt == send.nxt,
        forward_distance(send.acknowledged_by(seg).una, send.nxt) < forward_distance(
            send.una,
            send.nxt,
        ),
{
    reveal(advance);
    lemma_open_range_is_forward_arc(send.una, seg.acknowledgment_number, advance(send.nxt, 1));
}

/// Every emission moves the next send sequence number past exactly the
/// payload bytes that the frame carries, and one further when it carries a
/// SYN or a FIN; nothing else of the sequence spaces moves.
pub proof fn lemma_emission_advances_send_next(c: ConnectionView, payload: Seq<u8>)
    ensures
        c.after_emission(payload).send.nxt == advance(
            c.send.nxt,
            carried(payload.len()) + one_if(c.tcphdr.flags.syn || c.tcphdr.flags.fin),
        ),
        c.after_emission(payload).send.una == c.send.una,
        c.after_emission(payload).recv == c.recv,
        c.emitted_frame(payload).len() == IPV4_HEADER_LEN + TCP_HEADER_LEN + carried(
            payload.len(),
        ),
        c.emitted_tcp().sequence_number == c.send.nxt,
        c.emitted_tcp().acknowledgment_number == c.recv.nxt,
{
}

/// Handling a segment moves the next send sequence number past exactly what
/// the answer carries: the bytes taken from the outbound queue and the FIN
/// when a segment is taken in, nothing for the bare acknowledgments and
/// resets that answer any other segment.
pub proof fn lemma_segment_advances_send_next(c: ConnectionView, seg: TcpHeader, payload: Seq<u8>)
    requires
        c.wf(),
    ensures
        c.on_packet(seg, payload).connection.send.nxt == if c.disposition(seg, payload.len())
            == Disposition::Processed {
            advance(c.send.nxt, carried(c.outbuf.len()) + one_if(c.sends_fin(seg)))
        } else {
            c.send.nxt
        },
{
    lemma_advance_zero(c.send.nxt);
}

/// Handling a segment moves the next expected sequence number past exactly
/// what was taken in: the payload bytes and the FIN of a segment that the
/// window accepts, nothing for a segment that is dropped. The answer to an
/// active open places it one past the peer's SYN.
pub proof fn lemma_segment_advances_recv_next(c: ConnectionView, seg: TcpHeader, payload: Seq<u8>)
    requires
        c.wf(),
    ensures
        c.on_packet(seg, payload).connection.recv.nxt == match c.disposition(seg, payload.len()) {
            Disposition::Processed => advance(c.recv.nxt, payload.len() + one_if(seg.flags.fin)),
            Disposition::Connected => advance(seg.sequence_number, 1),
            _ => c.recv.nxt,
        },
        c.disposition(seg, payload.len()) == Disposition::Processed ==> c.recv.accepts(
            seg.sequence_number,
            segment_len(seg, payload.len()),
        ),
{
}

/// A passive open answers a SYN with one SYN+ACK that acknowledges the
/// sequence number after the SYN and carries the initial send sequence
/// number; an acknowledgment of that SYN+ACK which the window accepts and
/// which carries neither SYN nor FIN then establishes the connection, and
/// nothing of the peer's sequence space is consumed.
pub proof fn lemma_passive_open(ip: ParsedIpv4, syn: TcpHeader, ack: TcpHeader, payload: Seq<u8>)
    requires
        syn.flags.syn,
        ack.flags.ack,
        !ack.flags.syn,
        !ack.flags.fin,
        ack.acknowledgment_number == advance(INITIAL_SEND_SEQUENCE, 1),
        opened_by(ip, syn).recv.accepts(ack.sequence_number, payload.len() as int),
    ensures
        opened_by(ip, syn).emitted_tcp() == (TcpHeader {
            source_port: syn.destination_port,
            destination_port: syn.source_port,
            sequence_number: INITIAL_SEND_SEQUENCE,
            acknowledgment_number: advance(syn.sequence_number, 1),
            window_size: syn.window_size,
            flags: TcpFlags { syn: true, ack: true, ..TcpFlags::none() },
        }),
        opened_by(ip, syn).emitted_frame(Seq::empty()) == segment_wire(
            Ipv4Header {
                source: ip.destination,
                destination: ip.source,
                time_to_live: TIME_TO_LIVE,
                protocol: PROTOCOL_TCP,
                payload_len: TCP_HEADER_LEN as u16,
            },
            opened_by(ip, syn).emitted_tcp(),
            Seq::empty(),
        ),
        ({
            let listening = opened_by(ip, syn).after_emission(Seq::empty());
            &&& listening.state == State::SynRcvd
            &&& listening.send.nxt == advance(INITIAL_SEND_SEQUENCE, 1)
            &&& listening.on_packet(ack, payload).connection.state == State::Estab
            &&& listening.on_packet(ack, payload).connection.send.una == ack.acknowledgment_number
        }),
{
    reveal(advance);
    let opened = opened_by(ip, syn);
    assert(Seq::<u8>::empty().take(0) =~= Seq::<u8>::empty());
    let listening = opened.after_emission(Seq::empty());
    assert(listening.recv == opened.recv);
    assert(segment_len(ack, payload.len()) == payload.len());
    assert(listening.disposition(ack, payload.len()) == Disposition::Processed);
}

} // verus!
