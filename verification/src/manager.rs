//! The table of connections and of listening ports, and what each event does
//! to it: a frame from the tunnel, a bind, an accept, a read, a write.
//!
//! The table is plain data. The caller keeps it behind its lock, performs
//! what an operation hands back (a frame to send, waiters to wake) and comes
//! back when an operation is pending.

use std::collections::HashMap;
use std::collections::VecDeque;
use vstd::prelude::*;
use vstd::slice::slice_subrange;
use crate::model::{opened_by, opening, opening_syn, refusal, ConnectionView};
use crate::tcp::{Connection, State};
use crate::wire::{frame_received, receive_frame, segment_wire};
use crate::wire::{Ipv4Address, ParsedFrame};

verus! {

broadcast use vstd::std_specs::hash::group_hash_axioms;

/// One end of a connection.
#[derive(Debug, Clone, Copy, Hash, PartialEq, Eq, Structural)]
pub struct Endpoint {
    pub ip: Ipv4Address,
    pub port: u16,
}

/// The four-tuple that names a connection, seen from the local side.
#[derive(Debug, Clone, Copy, Hash, PartialEq, Eq, Structural)]
pub struct Quad {
    pub local: Endpoint,
    pub remote: Endpoint,
}

impl Endpoint {
    /// The endpoint as a number of 48 bits: the address, then the port.
    pub open spec fn spec_key(&self) -> u64 {
        ((self.ip.a as u64) << 40) | ((self.ip.b as u64) << 32) | ((self.ip.c as u64) << 24) | ((
        self.ip.d as u64) << 16) | (self.port as u64)
    }

    /// The endpoint as a number of 48 bits: the address, then the port.
    #[verifier::when_used_as_spec(spec_key)]
    pub fn key(&self) -> (r: u64)
        ensures
            r == self.spec_key(),
            r < 0x1_0000_0000_0000,
    {
        proof {
            lemma_endpoint_key_bound(*self);
        }
        ((self.ip.a as u64) << 40) | ((self.ip.b as u64) << 32) | ((self.ip.c as u64) << 24) | ((
        self.ip.d as u64) << 16) | (self.port as u64)
    }
}

impl Quad {
    /// The four-tuple as a number of 96 bits, under which the table files
    /// the connection: the local endpoint, then the remote one.
    pub open spec fn spec_key(&self) -> u128 {
        ((self.local.spec_key() as u128) << 48) | (self.remote.spec_key() as u128)
    }

    /// The four-tuple as a number of 96 bits, under which the table files
    /// the connection: the local endpoint, then the remote one.
    #[verifier::when_used_as_spec(spec_key)]
    pub fn key(&self) -> (r: u128)
        ensures
            r == self.spec_key(),
    {
        ((self.local.key() as u128) << 48) | (self.remote.key() as u128)
    }
}

/// The number of an endpoint fits in 48 bits.
pub proof fn lemma_endpoint_key_bound(x: Endpoint)
    ensures
        x.spec_key() < 0x1_0000_0000_0000,
{
    let (a, b, c, d, p) = (x.ip.a, x.ip.b, x.ip.c, x.ip.d, x.port);
    assert(((a as u64) << 40) | ((b as u64) << 32) | ((c as u64) << 24) | ((d as u64) << 16) | (
    p as u64) < 0x1_0000_0000_0000) by (bit_vector);
}

/// Two endpoints with the same number are the same endpoint.
pub proof fn lemma_endpoint_key_injective(x: Endpoint, y: Endpoint)
    requires
        x.spec_key() == y.spec_key(),
    ensures
        x == y,
{
    let (a, b, c, d, p) = (x.ip.a, x.ip.b, x.ip.c, x.ip.d, x.port);
    let (e, f, g, h, q) = (y.ip.a, y.ip.b, y.ip.c, y.ip.d, y.port);
    assert(a == e && b == f && c == g && d == h && p == q) by (bit_vector)
        requires
            ((a as u64) << 40) | ((b as u64) << 32) | ((c as u64) << 24) | ((d as u64) << 16) | (
            p as u64) == ((e as u64) << 40) | ((f as u64) << 32) | ((g as u64) << 24) | ((h as u64)
                << 16) | (q as u64),
    ;
}

/// Two four-tuples with the same number are the same four-tuple: the table
/// never files two connections under one key.
pub proof fn lemma_quad_key_injective(x: Quad, y: Quad)
    requires
        x.spec_key() == y.spec_key(),
    ensures
        x == y,
{
    let (xl, xr) = (x.local.spec_key(), x.remote.spec_key());
    let (yl, yr) = (y.local.spec_key(), y.remote.spec_key());
    lemma_endpoint_key_bound(x.local);
    lemma_endpoint_key_bound(x.remote);
    lemma_endpoint_key_bound(y.local);
    lemma_endpoint_key_bound(y.remote);
    assert(xl == yl && xr == yr) by (bit_vector)
        requires
            ((xl as u128) << 48) | (xr as u128) == ((yl as u128) << 48) | (yr as u128),
            xl < 0x1_0000_0000_0000,
            xr < 0x1_0000_0000_0000,
            yl < 0x1_0000_0000_0000,
            yr < 0x1_0000_0000_0000,
    ;
    lemma_endpoint_key_injective(x.local, y.local);
    lemma_endpoint_key_injective(x.remote, y.remote);
}

/// Why an operation of the user failed.
#[derive(Debug, Clone, Copy, PartialEq, Eq, Structural)]
pub enum Error {
    /// The port is already bound, or the four-tuple already names a
    /// connection.
    AddrInUse,
    /// The connection is gone: it was reset, torn down or closed.
    ConnectionAborted,
}

/// The result of an operation that may have to wait.
#[derive(Debug, PartialEq, Eq)]
pub enum Poll<T> {
    /// The operation is done.
    Ready(T),
    /// Nothing can be done yet: wait for the matching signal and try again.
    Pending,
}

/// The signals to raise after a frame was handled.
#[derive(Debug, Clone, Copy, PartialEq, Eq, Structural)]
pub struct Wake {
    /// A connection waits to be accepted.
    pub pending: bool,
    /// A reader can make progress.
    pub receive: bool,
    /// A writer can make progress.
    pub send: bool,
    /// An active open may have completed.
    pub established: bool,
}

/// What handling a frame hands back to the caller.
#[derive(Debug)]
pub struct Delivery {
    /// The frame to hand to the tunnel, if one is due.
    pub frame: Option<Vec<u8>>,
    /// The signals to raise once the table is released.
    pub wake: Wake,
}

/// The table of connections, the queues of connections that wait to be
/// accepted on each bound port, and the termination flag.
#[derive(Debug)]
pub struct ConnectionManager {
    terminate: bool,
    connections: HashMap<u128, Connection>,
    pending: HashMap<u16, VecDeque<Quad>>,
}

/// The table as a mathematical value.
pub struct ManagerView {
    pub terminate: bool,
    pub connections: Map<Quad, ConnectionView>,
    pub pending: Map<u16, Seq<Quad>>,
}

/// The table after a frame, with what the caller has to do.
pub struct FrameOutcome {
    pub manager: ManagerView,
    pub frame: Option<Seq<u8>>,
    pub wake: Wake,
}

impl Wake {
    /// No signal.
    pub open spec fn nothing() -> Wake {
        Wake { pending: false, receive: false, send: false, established: false }
    }

    /// The signals for every user of a connection that went away.
    pub open spec fn departed() -> Wake {
        Wake { pending: false, receive: true, send: true, established: true }
    }
}

/// The four-tuple of a frame, seen from the receiver: local is where the
/// frame was sent to.
pub open spec fn quad_of(p: ParsedFrame) -> Quad {
    Quad {
        local: Endpoint { ip: p.ip.destination, port: p.tcp.header.destination_port },
        remote: Endpoint { ip: p.ip.source, port: p.tcp.header.source_port },
    }
}

/// The connections filed under the keys of their four-tuples.
spec fn filed(m: Map<u128, Connection>) -> Map<Quad, ConnectionView> {
    Map::new(|q: Quad| m.contains_key(q.spec_key()), |q: Quad| m[q.spec_key()]@)
}

/// The four-tuple of a key of the table.
spec fn filed_under(k: u128) -> Quad {
    choose|q: Quad| q.spec_key() == k
}

/// The queues of the bound ports.
spec fn queued(m: Map<u16, VecDeque<Quad>>) -> Map<u16, Seq<Quad>> {
    Map::new(|p: u16| m.contains_key(p), |p: u16| m[p]@)
}

/// Filing a connection under the key of its four-tuple touches no other
/// four-tuple.
proof fn lemma_filed_insert(m: Map<u128, Connection>, quad: Quad, c: Connection)
    ensures
        filed(m.insert(quad.spec_key(), c)) == filed(m).insert(quad, c@),
{
    assert forall|q: Quad| q.spec_key() == quad.spec_key() implies q == quad by {
        lemma_quad_key_injective(q, quad);
    }
    assert(filed(m.insert(quad.spec_key(), c)) =~= filed(m).insert(quad, c@));
}

/// Withdrawing the key of a four-tuple touches no other four-tuple.
proof fn lemma_filed_remove(m: Map<u128, Connection>, quad: Quad)
    ensures
        filed(m.remove(quad.spec_key())) == filed(m).remove(quad),
{
    assert forall|q: Quad| q.spec_key() == quad.spec_key() implies q == quad by {
        lemma_quad_key_injective(q, quad);
    }
    assert(filed(m.remove(quad.spec_key())) =~= filed(m).remove(quad));
}

/// Giving a port a queue touches no other port.
proof fn lemma_queued_insert(m: Map<u16, VecDeque<Quad>>, port: u16, queue: VecDeque<Quad>)
    ensures
        queued(m.insert(port, queue)) == queued(m).insert(port, queue@),
{
    assert(queued(m.insert(port, queue)) =~= queued(m).insert(port, queue@));
}

/// Taking the queue of a port touches no other port.
proof fn lemma_queued_remove(m: Map<u16, VecDeque<Quad>>, port: u16)
    ensures
        queued(m.remove(port)) == queued(m).remove(port),
{
    assert(queued(m.remove(port)) =~= queued(m).remove(port));
}

impl ManagerView {
    /// The table with the connection of `quad` set to `c`.
    pub open spec fn with_connection(self, quad: Quad, c: ConnectionView) -> ManagerView {
        ManagerView { connections: self.connections.insert(quad, c), ..self }
    }

    /// The table without the connection of `quad`.
    pub open spec fn without_connection(self, quad: Quad) -> ManagerView {
        ManagerView { connections: self.connections.remove(quad), ..self }
    }

    /// The table untouched, nothing to send and nobody to wake.
    pub open spec fn unmoved(self) -> FrameOutcome {
        FrameOutcome { manager: self, frame: None, wake: Wake::nothing() }
    }

    /// What a segment does that arrived for the existing connection `quad`.
    /// The connection handles it; a connection that is closed afterwards
    /// leaves the table and all its users are woken; otherwise readers and
    /// writers are woken as the connection reports, and the waiter of an
    /// active open when the connection left SYN-SENT for ESTABLISHED.
    pub open spec fn on_segment(self, quad: Quad, p: ParsedFrame, payload: Seq<u8>) -> FrameOutcome {
        let before = self.connections[quad];
        let outcome = before.on_packet(p.tcp.header, payload);
        let after = outcome.connection;
        if after.state == State::Closed {
            FrameOutcome {
                manager: self.without_connection(quad),
                frame: outcome.frame,
                wake: Wake::departed(),
            }
        } else {
            FrameOutcome {
                manager: self.with_connection(quad, after),
                frame: outcome.frame,
                wake: Wake {
                    pending: false,
                    receive: after.available().read,
                    send: after.available().write,
                    established: before.state == State::SynSent && after.state.synchronized(),
                },
            }
        }
    }

    /// What a segment does that arrived for no connection. On a bound port
    /// a SYN opens a connection: it is filed under the frame's four-tuple,
    /// the four-tuple goes to the front of the port's queue, the SYN+ACK is
    /// due and the acceptor is woken. Any other segment to a bound port is
    /// answered with a reset, and a segment to a port that nobody listens
    /// on is dropped.
    pub open spec fn on_stray(self, quad: Quad, p: ParsedFrame, payload_len: nat) -> FrameOutcome {
        if !self.pending.contains_key(quad.local.port) {
            self.unmoved()
        } else if !p.tcp.header.flags.syn {
            FrameOutcome {
                manager: self,
                frame: refusal(p.ip, p.tcp.header, payload_len),
                wake: Wake::nothing(),
            }
        } else {
            let opened = opened_by(p.ip, p.tcp.header);
            FrameOutcome {
                manager: ManagerView {
                    connections: self.connections.insert(quad, opened.after_emission(Seq::empty())),
                    pending: self.pending.insert(
                        quad.local.port,
                        seq![quad] + self.pending[quad.local.port],
                    ),
                    ..self
                },
                frame: Some(opened.emitted_frame(Seq::empty())),
                wake: Wake { pending: true, ..Wake::nothing() },
            }
        }
    }

    /// What a frame from the tunnel does to the table. A frame that is not
    /// a TCP segment over IPv4, or whose checksum fails, is dropped. Otherwise the segment goes to the
    /// connection of its four-tuple, or, if there is none, to the listener
    /// of its port.
    pub open spec fn on_frame(self, frame: Seq<u8>) -> FrameOutcome {
        match frame_received(frame) {
            None => self.unmoved(),
            Some(p) => {
                let quad = quad_of(p);
                if self.connections.contains_key(quad) {
                    self.on_segment(
                        quad,
                        p,
                        frame.subrange(p.payload_offset as int, frame.len() as int),
                    )
                } else {
                    self.on_stray(quad, p, (frame.len() - p.payload_offset) as nat)
                }
            },
        }
    }

    /// `order` names every synchronized connection of the table, each once.
    pub open spec fn lists_synchronized(self, order: Seq<Quad>) -> bool {
        &&& order.no_duplicates()
        &&& forall|q: Quad|
            order.contains(q) <==> (self.connections.contains_key(q)
                && self.connections[q].state.synchronized())
    }

    /// The table after an attempt to bind `port`: the port gets an empty
    /// queue unless it is bound already.
    pub open spec fn bind(self, port: u16) -> ManagerView {
        if self.pending.contains_key(port) {
            self
        } else {
            ManagerView { pending: self.pending.insert(port, Seq::empty()), ..self }
        }
    }

    /// The result of an attempt to bind `port`.
    pub open spec fn bind_result(self, port: u16) -> Result<(), Error> {
        if self.pending.contains_key(port) {
            Err(Error::AddrInUse)
        } else {
            Ok(())
        }
    }

    /// The table after the listener of `port` went away: the port is free
    /// again, and the connections that still waited in its queue are torn
    /// down.
    pub open spec fn unbind(self, port: u16) -> ManagerView {
        if self.pending.contains_key(port) {
            ManagerView {
                connections: self.connections.remove_keys(self.pending[port].to_set()),
                pending: self.pending.remove(port),
                ..self
            }
        } else {
            self
        }
    }
}

/// The resets that tear down the connections named by `queue`, in the order
/// of the queue: one for each connection that is in the table and
/// synchronized when its turn comes.
pub open spec fn resets_of(connections: Map<Quad, ConnectionView>, queue: Seq<Quad>) -> Seq<Seq<u8>>
    decreases queue.len(),
{
    if queue.len() == 0 {
        Seq::empty()
    } else {
        let first = queue[0];
        let rest = resets_of(connections.remove(first), queue.drop_first());
        if connections.contains_key(first) && connections[first].state.synchronized() {
            seq![connections[first].reset_frame()] + rest
        } else {
            rest
        }
    }
}

/// The frames of a list as sequences of bytes.
pub open spec fn bytes_of(frames: Seq<Vec<u8>>) -> Seq<Seq<u8>> {
    frames.map_values(|frame: Vec<u8>| frame@)
}

/// Binding a port twice in a row fails the second time with `AddrInUse`,
/// whatever the first attempt returned.
pub proof fn lemma_second_bind_fails(m: ManagerView, port: u16)
    ensures
        m.bind(port).bind_result(port) == Err::<(), Error>(Error::AddrInUse),
        m.bind(port).bind(port) == m.bind(port),
{
}

/// Whichever comes first, a frame from the tunnel or the departure of the
/// listener of `port`, the port ends up free and the termination flag is as
/// it was.
pub proof fn lemma_unbind_and_frame_in_any_order(m: ManagerView, frame: Seq<u8>, port: u16)
    ensures
        m.unbind(port).on_frame(frame).manager.terminate == m.terminate,
        m.on_frame(frame).manager.unbind(port).terminate == m.terminate,
        !m.unbind(port).on_frame(frame).manager.pending.contains_key(port),
        !m.on_frame(frame).manager.unbind(port).pending.contains_key(port),
{
}

/// A connection that is closed once its segment was handled is absent from
/// the table.
pub proof fn lemma_closed_connection_leaves(m: ManagerView, frame: Seq<u8>)
    requires
        frame_received(frame) matches Some(p) && m.connections.contains_key(quad_of(p)) && ({
            let payload = frame.subrange(p.payload_offset as int, frame.len() as int);
            m.connections[quad_of(p)].on_packet(p.tcp.header, payload).connection.state
                == State::Closed
        }),
    ensures
        !m.on_frame(frame).manager.connections.contains_key(quad_of(frame_received(frame).unwrap())),
{
}

impl View for ConnectionManager {
    type V = ManagerView;

    closed spec fn view(&self) -> ManagerView {
        ManagerView {
            terminate: self.terminate,
            connections: filed(self.connections@),
            pending: queued(self.pending@),
        }
    }
}

impl ConnectionManager {
    /// Every connection of the table satisfies its invariant.
    pub closed spec fn wf(&self) -> bool {
        forall|k: u128| #[trigger]
            self.connections@.contains_key(k) ==> self.connections@[k].wf() && filed_under(
                k,
            ).spec_key() == k
    }

    /// An empty table: no connection, no bound port, not terminating.
    pub fn new() -> (m: ConnectionManager)
        ensures
            m.wf(),
            m@ == (ManagerView {
                terminate: false,
                connections: Map::empty(),
                pending: Map::empty(),
            }),
    {
        let m = ConnectionManager {
            terminate: false,
            connections: HashMap::new(),
            pending: HashMap::new(),
        };
        assert(filed(m.connections@) =~= Map::empty());
        assert(queued(m.pending@) =~= Map::empty());
        m
    }

    /// Asks the packet loop to stop.
    pub fn terminate(&mut self)
        requires
            old(self).wf(),
        ensures
            final(self).wf(),
            final(self)@ == (ManagerView { terminate: true, ..old(self)@ }),
    {
        self.terminate = true;
    }

    /// Tells whether the packet loop was asked to stop.
    pub fn is_terminating(&self) -> (r: bool)
        ensures
            r == self@.terminate,
    {
        self.terminate
    }

    /// Tells whether a listener holds `port`.
    pub fn is_bound(&self, port: u16) -> (r: bool)
        ensures
            r == self@.pending.contains_key(port),
    {
        self.pending.contains_key(&port)
    }

    /// Tells whether the table holds a connection for `quad`.
    pub fn contains(&self, quad: &Quad) -> (r: bool)
        ensures
            r == self@.connections.contains_key(*quad),
    {
        let key = quad.key();
        self.connections.contains_key(&key)
    }

    /// Files `connection` under `quad`, in place of what was there.
    fn file(&mut self, quad: &Quad, connection: Connection)
        requires
            old(self).wf(),
            connection.wf(),
        ensures
            final(self).wf(),
            final(self)@ == old(self)@.with_connection(*quad, connection@),
    {
        proof {
            lemma_filed_insert(self.connections@, *quad, connection);
        }
        self.connections.insert(quad.key(), connection);
    }

    /// Takes the connection of `quad` out of the table.
    fn withdraw(&mut self, quad: &Quad) -> (r: Option<Connection>)
        requires
            old(self).wf(),
        ensures
            final(self).wf(),
            final(self)@ == old(self)@.without_connection(*quad),
            match r {
                Some(c) => old(self)@.connections.contains_key(*quad) && c@
                    == old(self)@.connections[*quad] && c.wf(),
                None => !old(self)@.connections.contains_key(*quad),
            },
    {
        proof {
            lemma_filed_remove(self.connections@, *quad);
        }
        let key = quad.key();
        self.connections.remove(&key)
    }

    /// Binds `port`: gives it an empty queue of connections to accept.
    /// Fails with `AddrInUse` if the port is bound already.
    pub fn bind(&mut self, port: u16) -> (r: Result<(), Error>)
        requires
            old(self).wf(),
        ensures
            final(self).wf(),
            final(self)@ == old(self)@.bind(port),
            r == old(self)@.bind_result(port),
    {
        if self.pending.contains_key(&port) {
            return Err(Error::AddrInUse);
        }
        let queue: VecDeque<Quad> = VecDeque::new();
        proof {
            lemma_queued_insert(self.pending@, port, queue);
        }
        self.pending.insert(port, queue);
        Ok(())
    }

    /// Takes the queue of `port` out of the table.
    fn unqueue(&mut self, port: u16) -> (r: Option<VecDeque<Quad>>)
        requires
            old(self).wf(),
        ensures
            final(self).wf(),
            final(self)@ == (ManagerView {
                pending: old(self)@.pending.remove(port),
                ..old(self)@
            }),
            match r {
                Some(queue) => old(self)@.pending.contains_key(port) && queue@
                    == old(self)@.pending[port],
                None => !old(self)@.pending.contains_key(port),
            },
    {
        proof {
            lemma_queued_remove(self.pending@, port);
        }
        self.pending.remove(&port)
    }

    /// Gives `port` the queue `queue`, in place of what it had.
    fn requeue(&mut self, port: u16, queue: VecDeque<Quad>)
        requires
            old(self).wf(),
        ensures
            final(self).wf(),
            final(self)@ == (ManagerView {
                pending: old(self)@.pending.insert(port, queue@),
                ..old(self)@
            }),
    {
        proof {
            lemma_queued_insert(self.pending@, port, queue);
        }
        self.pending.insert(port, queue);
    }

    /// Releases `port` when its listener goes away, and tears down the
    /// connections that still waited in its queue. Returns the resets to
    /// send for those that were synchronized, or `None` if the port was not
    /// bound.
    pub fn unbind(&mut self, port: u16) -> (r: Option<Vec<Vec<u8>>>)
        requires
            old(self).wf(),
        ensures
            final(self).wf(),
            final(self)@ == old(self)@.unbind(port),
            match r {
                None => !old(self)@.pending.contains_key(port),
                Some(frames) => old(self)@.pending.contains_key(port) && bytes_of(frames@)
                    == resets_of(old(self)@.connections, old(self)@.pending[port]),
            },
    {
        let mut queue = match self.unqueue(port) {
            None => {
                assert(self@.pending =~= old(self)@.pending);
                return None;
            },
            Some(queue) => queue,
        };
        let ghost waiting = queue@;
        let ghost before = self@;
        let mut frames: Vec<Vec<u8>> = Vec::new();
        let mut i: usize = 0;
        assert(waiting.skip(0) == waiting);
        assert(bytes_of(frames@) + resets_of(before.connections, waiting) == resets_of(
            before.connections,
            waiting,
        ));
        while i < queue.len()
            invariant
                self.wf(),
                i <= queue@.len(),
                queue@ == waiting,
                self@.terminate == before.terminate,
                self@.pending == before.pending,
                self@.connections == before.connections.remove_keys(waiting.take(i as int).to_set()),
                bytes_of(frames@) + resets_of(self@.connections, waiting.skip(i as int))
                    == resets_of(before.connections, waiting),
            decreases queue@.len() - i,
        {
            let quad = queue[i];
            let ghost current = self@.connections;
            let ghost sent = bytes_of(frames@);
            let ghost due = resets_of(current, waiting.skip(i as int));
            assert(waiting.skip(i as int)[0] == quad);
            assert(waiting.skip(i as int).drop_first() == waiting.skip(i + 1));
            match self.withdraw(&quad) {
                Some(connection) => {
                    match connection.reset_frame() {
                        Some(frame) => {
                            frames.push(frame);
                            assert(bytes_of(frames@) == sent.push(frame@));
                            assert(sent.push(frame@) + resets_of(
                                current.remove(quad),
                                waiting.skip(i + 1),
                            ) == sent + due);
                        },
                        None => {},
                    }
                },
                None => {},
            }
            assert(waiting.take(i + 1) == waiting.take(i as int).push(quad));
            proof {
                waiting.take(i as int).lemma_push_to_set_commute(quad);
            }
            assert(before.connections.remove_keys(waiting.take(i + 1).to_set())
                =~= before.connections.remove_keys(waiting.take(i as int).to_set()).remove(quad));
            i += 1;
        }
        assert(waiting.take(i as int) == waiting);
        assert(resets_of(self@.connections, waiting.skip(i as int)) == Seq::<Seq<u8>>::empty());
        Some(frames)
    }

    /// Hands out the connection that has waited longest on `port`, if there
    /// is one. The port must be bound: a listener holds it.
    pub fn take_pending(&mut self, port: u16) -> (r: Poll<Quad>)
        requires
            old(self).wf(),
            old(self)@.pending.contains_key(port),
        ensures
            final(self).wf(),
            match r {
                Poll::Ready(quad) => {
                    &&& old(self)@.pending[port].len() > 0
                    &&& quad == old(self)@.pending[port].last()
                    &&& final(self)@ == (ManagerView {
                        pending: old(self)@.pending.insert(
                            port,
                            old(self)@.pending[port].drop_last(),
                        ),
                        ..old(self)@
                    })
                },
                Poll::Pending => {
                    &&& old(self)@.pending[port].len() == 0
                    &&& final(self)@ == old(self)@
                },
            },
    {
        let mut queue = match self.unqueue(port) {
            None => VecDeque::new(),
            Some(queue) => queue,
        };
        let last = queue.pop_back();
        self.requeue(port, queue);
        match last {
            Some(quad) => {
                assert(self@.pending =~= old(self)@.pending.insert(
                    port,
                    old(self)@.pending[port].drop_last(),
                ));
                Poll::Ready(quad)
            },
            None => {
                assert(self@.pending =~= old(self)@.pending);
                Poll::Pending
            },
        }
    }

    /// Handles one frame read from the tunnel. Returns the frame to send in
    /// answer, if one is due, and the signals to raise.
    pub fn on_frame(&mut self, frame: &[u8]) -> (r: Delivery)
        requires
            old(self).wf(),
        ensures
            final(self).wf(),
            final(self)@ == old(self)@.on_frame(frame@).manager,
            r.wake == old(self)@.on_frame(frame@).wake,
            match (r.frame, old(self)@.on_frame(frame@).frame) {
                (Some(sent), Some(due)) => sent@ == due,
                (None, None) => true,
                _ => false,
            },
    {
        let nothing = Wake { pending: false, receive: false, send: false, established: false };
        let parsed = match receive_frame(frame) {
            None => {
                return Delivery { frame: None, wake: nothing };
            },
            Some(parsed) => parsed,
        };
        let quad = Quad {
            local: Endpoint { ip: parsed.ip.destination, port: parsed.tcp.header.destination_port },
            remote: Endpoint { ip: parsed.ip.source, port: parsed.tcp.header.source_port },
        };
        match self.withdraw(&quad) {
            Some(mut connection) => {
                let payload = slice_subrange(frame, parsed.payload_offset, frame.len());
                let connecting = connection.state() == State::SynSent;
                let reaction = connection.on_packet(&parsed.tcp.header, payload);
                if connection.is_closed() {
                    return Delivery {
                        frame: reaction.frame,
                        wake: Wake { pending: false, receive: true, send: true, established: true },
                    };
                }
                let wake = Wake {
                    pending: false,
                    receive: reaction.available.read,
                    send: reaction.available.write,
                    established: connecting && connection.is_established(),
                };
                self.file(&quad, connection);
                assert(self@.connections =~= old(self)@.connections.insert(quad, connection@));
                Delivery { frame: reaction.frame, wake }
            },
            None => {
                assert(self@.connections =~= old(self)@.connections);
                let port = quad.local.port;
                if !self.is_bound(port) {
                    return Delivery { frame: None, wake: nothing };
                }
                let (connection, answer) = match Connection::accept(&parsed.ip, &parsed.tcp.header) {
                    None => {
                        let reset = Connection::refuse(
                            &parsed.ip,
                            &parsed.tcp.header,
                            frame.len() - parsed.payload_offset,
                        );
                        return Delivery { frame: reset, wake: nothing };
                    },
                    Some(opened) => opened,
                };
                self.file(&quad, connection);
                let mut queue = match self.unqueue(port) {
                    None => VecDeque::new(),
                    Some(queue) => queue,
                };
                queue.push_front(quad);
                self.requeue(port, queue);
                assert(self@.pending =~= old(self)@.pending.insert(
                    port,
                    seq![quad] + old(self)@.pending[port],
                ));
                Delivery {
                    frame: Some(answer),
                    wake: Wake { pending: true, receive: false, send: false, established: false },
                }
            },
        }
    }

    /// Starts an active open from `local` towards `remote`. Returns the
    /// four-tuple of the new connection and the SYN to send. Fails with
    /// `AddrInUse` if the four-tuple names a connection already.
    pub fn connect(&mut self, local: Endpoint, remote: Endpoint) -> (r: Result<
        (Quad, Vec<u8>),
        Error,
    >)
        requires
            old(self).wf(),
        ensures
            final(self).wf(),
            ({
                let quad = Quad { local, remote };
                let fresh = opening(local.ip, local.port, remote.ip, remote.port);
                if old(self)@.connections.contains_key(quad) {
                    &&& r matches Err(Error::AddrInUse)
                    &&& final(self)@ == old(self)@
                } else {
                    &&& r matches Ok(started)
                    &&& started.0 == quad
                    &&& started.1@ == segment_wire(
                        fresh.iphdr,
                        opening_syn(local.port, remote.port),
                        Seq::empty(),
                    )
                    &&& final(self)@ == old(self)@.with_connection(quad, fresh)
                }
            }),
    {
        let quad = Quad { local, remote };
        if self.contains(&quad) {
            return Err(Error::AddrInUse);
        }
        let (connection, syn) = Connection::establish_connection(
            local.ip,
            local.port,
            remote.ip,
            remote.port,
        );
        self.file(&quad, connection);
        Ok((quad, syn))
    }

    /// Tells the waiter of an active open where it stands: ready once the
    /// connection is synchronized, aborted once it is gone.
    pub fn poll_established(&self, quad: &Quad) -> (r: Result<Poll<()>, Error>)
        requires
            self.wf(),
        ensures
            match r {
                Err(e) => e == Error::ConnectionAborted && !self@.connections.contains_key(*quad),
                Ok(Poll::Ready(_)) => self@.connections.contains_key(*quad)
                    && self@.connections[*quad].state.synchronized(),
                Ok(Poll::Pending) => self@.connections.contains_key(*quad)
                    && !self@.connections[*quad].state.synchronized(),
            },
    {
        let key = quad.key();
        match self.connections.get(&key) {
            None => Err(Error::ConnectionAborted),
            Some(connection) => if connection.is_established() {
                Ok(Poll::Ready(()))
            } else {
                Ok(Poll::Pending)
            },
        }
    }

    /// Reads up to `max` bytes from the connection of `quad`. A connection
    /// that is gone aborts the read. With nothing queued, the read is at its
    /// end (no bytes) once the peer has closed, and pending before. With
    /// bytes queued, the oldest ones are handed out and leave the queue.
    pub fn read(&mut self, quad: &Quad, max: usize) -> (r: Result<Poll<Vec<u8>>, Error>)
        requires
            old(self).wf(),
        ensures
            final(self).wf(),
            match r {
                Err(e) => {
                    &&& e == Error::ConnectionAborted
                    &&& !old(self)@.connections.contains_key(*quad)
                    &&& final(self)@ == old(self)@
                },
                Ok(Poll::Pending) => {
                    &&& old(self)@.connections.contains_key(*quad)
                    &&& old(self)@.connections[*quad].inbuf.len() == 0
                    &&& !old(self)@.connections[*quad].state.recv_closed()
                    &&& final(self)@ == old(self)@
                },
                Ok(Poll::Ready(data)) => {
                    &&& old(self)@.connections.contains_key(*quad)
                    &&& ({
                        let c = old(self)@.connections[*quad];
                        &&& c.inbuf.len() > 0 || c.state.recv_closed()
                        &&& data@.len() == if max < c.inbuf.len() {
                            max as int
                        } else {
                            c.inbuf.len() as int
                        }
                        &&& data@ == c.inbuf.take(data@.len() as int)
                        &&& final(self)@ == old(self)@.with_connection(
                            *quad,
                            ConnectionView { inbuf: c.inbuf.skip(data@.len() as int), ..c },
                        )
                    })
                },
            },
    {
        let mut connection = match self.withdraw(quad) {
            None => {
                assert(self@.connections =~= old(self)@.connections);
                return Err(Error::ConnectionAborted);
            },
            Some(connection) => connection,
        };
        if connection.inbuf_len() == 0 && !connection.is_recv_closed() {
            self.file(quad, connection);
            assert(self@.connections =~= old(self)@.connections);
            return Ok(Poll::Pending);
        }
        let data = connection.read(max);
        self.file(quad, connection);
        assert(self@.connections =~= old(self)@.connections.insert(*quad, connection@));
        Ok(Poll::Ready(data))
    }

    /// Queues bytes of `data` for sending on the connection of `quad`. A
    /// connection that is gone aborts the write. A full queue leaves the
    /// write pending. Otherwise as many bytes are queued as fit below the
    /// high-water mark, and their number is returned.
    pub fn write(&mut self, quad: &Quad, data: &[u8]) -> (r: Result<Poll<usize>, Error>)
        requires
            old(self).wf(),
        ensures
            final(self).wf(),
            match r {
                Err(e) => {
                    &&& e == Error::ConnectionAborted
                    &&& !old(self)@.connections.contains_key(*quad)
                    &&& final(self)@ == old(self)@
                },
                Ok(Poll::Pending) => {
                    &&& old(self)@.connections.contains_key(*quad)
                    &&& old(self)@.connections[*quad].outbuf.len() >= crate::tcp::TRANSMISSION_QLEN_SIZE
                    &&& final(self)@ == old(self)@
                },
                Ok(Poll::Ready(n)) => {
                    &&& old(self)@.connections.contains_key(*quad)
                    &&& ({
                        let c = old(self)@.connections[*quad];
                        let room = crate::tcp::TRANSMISSION_QLEN_SIZE - c.outbuf.len();
                        &&& room > 0
                        &&& n == if data@.len() < room {
                            data@.len() as int
                        } else {
                            room
                        }
                        &&& final(self)@ == old(self)@.with_connection(
                            *quad,
                            ConnectionView { outbuf: c.outbuf + data@.take(n as int), ..c },
                        )
                    })
                },
            },
    {
        let mut connection = match self.withdraw(quad) {
            None => {
                assert(self@.connections =~= old(self)@.connections);
                return Err(Error::ConnectionAborted);
            },
            Some(connection) => connection,
        };
        if connection.outbuf_len() >= crate::tcp::TRANSMISSION_QLEN_SIZE {
            self.file(quad, connection);
            assert(self@.connections =~= old(self)@.connections);
            return Ok(Poll::Pending);
        }
        let n = connection.enqueue(data);
        self.file(quad, connection);
        assert(self@.connections =~= old(self)@.connections.insert(*quad, connection@));
        Ok(Poll::Ready(n))
    }

    /// Closes the sending side of the connection of `quad` for its user.
    /// Returns the signals to raise: readers are woken, whatever the state
    /// of the connection. A connection that is gone aborts the close.
    pub fn close(&mut self, quad: &Quad) -> (r: Result<Wake, Error>)
        requires
            old(self).wf(),
        ensures
            final(self).wf(),
            match r {
                Err(e) => {
                    &&& e == Error::ConnectionAborted
                    &&& !old(self)@.connections.contains_key(*quad)
                    &&& final(self)@ == old(self)@
                },
                Ok(wake) => {
                    &&& old(self)@.connections.contains_key(*quad)
                    &&& wake == (Wake { receive: true, ..Wake::nothing() })
                    &&& final(self)@ == old(self)@.with_connection(
                        *quad,
                        old(self)@.connections[*quad].closed_by_user(),
                    )
                },
            },
    {
        let mut connection = match self.withdraw(quad) {
            None => {
                assert(self@.connections =~= old(self)@.connections);
                return Err(Error::ConnectionAborted);
            },
            Some(connection) => connection,
        };
        connection.close();
        self.file(quad, connection);
        assert(self@.connections =~= old(self)@.connections.insert(*quad, connection@));
        Ok(Wake { pending: false, receive: true, send: false, established: false })
    }

    /// Tells whether everything written on the connection of `quad` was
    /// sent: ready when the outbound queue is empty, pending before, aborted
    /// when the connection is gone.
    pub fn flush(&self, quad: &Quad) -> (r: Result<Poll<()>, Error>)
        requires
            self.wf(),
        ensures
            match r {
                Err(e) => e == Error::ConnectionAborted && !self@.connections.contains_key(*quad),
                Ok(Poll::Ready(_)) => self@.connections.contains_key(*quad)
                    && self@.connections[*quad].outbuf.len() == 0,
                Ok(Poll::Pending) => self@.connections.contains_key(*quad)
                    && self@.connections[*quad].outbuf.len() > 0,
            },
    {
        let key = quad.key();
        match self.connections.get(&key) {
            None => Err(Error::ConnectionAborted),
            Some(connection) => if connection.outbuf_len() == 0 {
                Ok(Poll::Ready(()))
            } else {
                Ok(Poll::Pending)
            },
        }
    }

    /// The keys under which the table files its connections, each once, in
    /// no particular order.
    fn keys(&self) -> (keys: Vec<u128>)
        ensures
            keys@.to_set() == self.connections@.dom(),
            keys@.no_duplicates(),
    {
        let mut keys: Vec<u128> = Vec::new();
        for key in it: self.connections.keys()
            invariant
                keys@ == it.seq().unref().take(it.index() as int),
                it.seq().unref().to_set() == self.connections@.dom(),
                it.seq().unref().no_duplicates(),
                it.index() == it.seq().len() ==> keys@ == it.seq().unref(),
        {
            keys.push(*key);
            assert(it.seq().unref().take(it.index() + 1) == it.seq().unref().take(
                it.index() as int,
            ).push(*key));
            assert(it.seq().unref().take(it.seq().unref().len() as int) == it.seq().unref());
        }
        keys
    }

    /// Tears down every connection when the stack stops. The table is left
    /// without connections; the bound ports stay as they are. Returns the
    /// resets to send: one for each connection that was synchronized, in no
    /// particular order.
    pub fn teardown(&mut self) -> (frames: Vec<Vec<u8>>)
        requires
            old(self).wf(),
        ensures
            final(self).wf(),
            final(self)@ == (ManagerView { connections: Map::empty(), ..old(self)@ }),
            exists|order: Seq<Quad>|
                {
                    &&& old(self)@.lists_synchronized(order)
                    &&& order.len() == frames@.len()
                    &&& forall|i: int|
                        0 <= i < order.len() ==> (#[trigger] frames@[i])@
                            == old(self)@.connections[order[i]].reset_frame()
                },
    {
        let keys = self.keys();
        let mut frames: Vec<Vec<u8>> = Vec::new();
        let ghost mut order: Seq<Quad> = Seq::empty();
        let ghost table = self@;
        let mut i: usize = 0;
        while i < keys.len()
            invariant
                self.wf(),
                self@ == table,
                keys@.to_set() == self.connections@.dom(),
                keys@.no_duplicates(),
                i <= keys@.len(),
                order.len() == frames@.len(),
                order.no_duplicates(),
                forall|j: int|
                    0 <= j < order.len() ==> {
                        &&& table.connections.contains_key(#[trigger] order[j])
                        &&& table.connections[order[j]].state.synchronized()
                        &&& frames@[j]@ == table.connections[order[j]].reset_frame()
                        &&& exists|at: int| 0 <= at < i && #[trigger] keys@[at] == order[j].spec_key()
                    },
                forall|at: int|
                    0 <= at < i && self.connections@[#[trigger] keys@[at]]@.state.synchronized()
                        ==> order.contains(filed_under(keys@[at])),
            decreases keys@.len() - i,
        {
            let key = keys[i];
            assert(keys@.to_set().contains(key));
            let ghost quad = filed_under(key);
            assert(quad.spec_key() == key);
            let ghost earlier = order;
            match self.connections.get(&key) {
                Some(connection) => {
                    match connection.reset_frame() {
                        Some(frame) => {
                            frames.push(frame);
                            proof {
                                assert forall|j: int| 0 <= j < earlier.len() implies earlier[j]
                                    != quad by {
                                    let at = choose|at: int|
                                        0 <= at < i && #[trigger] keys@[at] == earlier[j].spec_key();
                                    assert(keys@[at] != keys@[i as int]);
                                }
                                order = earlier.push(quad);
                                assert(order[earlier.len() as int] == quad);
                                assert(keys@[i as int] == quad.spec_key());
                            }
                        },
                        None => {},
                    }
                },
                None => {},
            }
            proof {
                assert forall|at: int|
                    0 <= at < i + 1 && self.connections@[#[trigger] keys@[at]]@.state.synchronized()
                    implies order.contains(filed_under(keys@[at])) by {
                    if at < i {
                        let found = choose|j: int|
                            0 <= j < earlier.len() && earlier[j] == filed_under(keys@[at]);
                        assert(order[found] == filed_under(keys@[at]));
                    } else {
                        assert(order[earlier.len() as int] == quad);
                    }
                }
            }
            i += 1;
        }
        self.connections.clear();
        proof {
            assert(filed(self.connections@) =~= Map::<Quad, ConnectionView>::empty());
            assert forall|q: Quad|
                table.connections.contains_key(q) && table.connections[q].state.synchronized()
                implies order.contains(q) by {
                let k = q.spec_key();
                assert(keys@.to_set().contains(k));
                let at = choose|at: int| 0 <= at < keys@.len() && keys@[at] == k;
                assert(order.contains(filed_under(keys@[at])));
                lemma_quad_key_injective(filed_under(k), q);
            }
            assert forall|q: Quad| order.contains(q) implies table.connections.contains_key(q)
                && table.connections[q].state.synchronized() by {
                let j = choose|j: int| 0 <= j < order.len() && order[j] == q;
                assert(table.connections.contains_key(order[j]));
            }
            assert(table.lists_synchronized(order));
        }
        frames
    }
}

} // verus!
