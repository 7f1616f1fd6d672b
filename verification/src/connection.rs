//! The connection manager's bookkeeping: which clients are known, when each
//! was last heard from, and the sequence number of the next envelope.
//!
//! The socket itself stays with the caller. Inbound, the caller hands over
//! each datagram with its sender and the time; outbound, it is handed the
//! bytes and the endpoints to send them to.

use vstd::prelude::*;
use crate::address::NetAddr;
use crate::codec::{
    DecodeError, decode_client_packet, encode_server_message, spec_decode_client,
    spec_server_packet_bytes,
};
use crate::model::{ClientMessage, ClientMessageView, NetworkPacket, PacketView, ServerMessage};
use crate::registry::{elapsed, spec_elapsed};

verus! {

/// A known client: its endpoint and the time, in milliseconds, of its last
/// datagram.
#[derive(Clone, Copy, Debug)]
pub struct ClientInfo {
    pub addr: NetAddr,
    pub last_seen: u64,
}

/// Bytes to send, and the endpoints to send them to, in order.
#[derive(Debug)]
pub struct Outbound {
    pub bytes: Vec<u8>,
    pub targets: Vec<NetAddr>,
}

/// The index of the client with endpoint `addr`, from index `from` on.
pub open spec fn spec_index_of(clients: Seq<ClientInfo>, addr: NetAddr, from: int) -> Option<int>
    decreases clients.len() - from,
{
    if from < 0 || from >= clients.len() {
        None
    } else if clients[from].addr == addr {
        Some(from)
    } else {
        spec_index_of(clients, addr, from + 1)
    }
}

/// The clients after a datagram from `addr` arrived at `now`: a known
/// client is marked as heard from, an unknown one joins at the end.
pub open spec fn spec_heard(clients: Seq<ClientInfo>, addr: NetAddr, now: u64) -> Seq<ClientInfo> {
    match spec_index_of(clients, addr, 0) {
        Some(i) => clients.update(i, ClientInfo { addr, last_seen: now }),
        None => clients.push(ClientInfo { addr, last_seen: now }),
    }
}

/// Whether a client has been heard from within `timeout` milliseconds of
/// `now`.
pub open spec fn spec_live(c: ClientInfo, now: u64, timeout: u64) -> bool {
    spec_elapsed(now, c.last_seen) <= timeout
}

/// The clients that are left after the sweep at `now`: those heard from
/// within `timeout` milliseconds, in their order.
pub open spec fn spec_kept(clients: Seq<ClientInfo>, now: u64, timeout: u64) -> Seq<ClientInfo>
    decreases clients.len(),
{
    if clients.len() == 0 {
        clients
    } else if spec_live(clients.last(), now, timeout) {
        spec_kept(clients.drop_last(), now, timeout).push(clients.last())
    } else {
        spec_kept(clients.drop_last(), now, timeout)
    }
}

/// The endpoints of the clients, in order.
pub open spec fn spec_addresses(clients: Seq<ClientInfo>) -> Seq<NetAddr> {
    Seq::new(clients.len(), |i: int| clients[i].addr)
}

/// No endpoint occurs twice among the clients.
pub open spec fn spec_distinct(clients: Seq<ClientInfo>) -> bool {
    forall|i: int, j: int|
        0 <= i < j < clients.len() ==> (#[trigger] clients[i]).addr != (#[trigger] clients[j]).addr
}

/// The sequence number after `n`: one more, starting over after the largest.
pub open spec fn spec_next_sequence(n: u32) -> u32 {
    if n == u32::MAX {
        0
    } else {
        (n + 1) as u32
    }
}

/// The search for an endpoint finds its first occurrence, or none.
pub proof fn lemma_index_of(clients: Seq<ClientInfo>, addr: NetAddr, from: int)
    requires
        0 <= from,
    ensures
        match spec_index_of(clients, addr, from) {
            Some(i) => from <= i < clients.len() && clients[i].addr == addr,
            None => forall|j: int| from <= j < clients.len() ==> (#[trigger] clients[j]).addr != addr,
        },
    decreases clients.len() - from,
{
    if from < clients.len() && clients[from].addr != addr {
        lemma_index_of(clients, addr, from + 1);
    }
}

/// Hearing from an endpoint leaves every endpoint known once.
pub proof fn lemma_heard_distinct(clients: Seq<ClientInfo>, addr: NetAddr, now: u64)
    requires
        spec_distinct(clients),
    ensures
        spec_distinct(spec_heard(clients, addr, now)),
        spec_index_of(spec_heard(clients, addr, now), addr, 0) is Some,
{
    lemma_index_of(clients, addr, 0);
    let after = spec_heard(clients, addr, now);
    lemma_index_of(after, addr, 0);
    match spec_index_of(clients, addr, 0) {
        Some(i) => {
            assert(after[i].addr == addr);
        },
        None => {
            assert(after[clients.len() as int].addr == addr);
        },
    }
}

/// Every client kept by a sweep was a client before, and the sweep keeps
/// their order; so it leaves every endpoint known once.
pub proof fn lemma_kept_distinct(clients: Seq<ClientInfo>, now: u64, timeout: u64)
    requires
        spec_distinct(clients),
    ensures
        spec_distinct(spec_kept(clients, now, timeout)),
        spec_kept(clients, now, timeout).len() <= clients.len(),
        forall|k: int|
            0 <= k < spec_kept(clients, now, timeout).len() ==> spec_live(
                #[trigger] spec_kept(clients, now, timeout)[k],
                now,
                timeout,
            ) && exists|j: int|
                0 <= j < clients.len() && #[trigger] clients[j] == spec_kept(
                    clients,
                    now,
                    timeout,
                )[k],
    decreases clients.len(),
{
    if clients.len() > 0 {
        let front = clients.drop_last();
        assert(spec_distinct(front)) by {
            assert forall|i: int, j: int| 0 <= i < j < front.len() implies (#[trigger] front[i]).addr
                != (#[trigger] front[j]).addr by {
                assert(front[i] == clients[i]);
                assert(front[j] == clients[j]);
            }
        }
        lemma_kept_distinct(front, now, timeout);
        let kept_front = spec_kept(front, now, timeout);
        let kept = spec_kept(clients, now, timeout);
        assert forall|k: int| 0 <= k < kept.len() implies spec_live(#[trigger] kept[k], now, timeout)
            && exists|j: int| 0 <= j < clients.len() && #[trigger] clients[j] == kept[k] by {
            if k < kept_front.len() {
                let j = choose|j: int| 0 <= j < front.len() && #[trigger] front[j] == kept_front[k];
                assert(clients[j] == kept[k]);
            } else {
                assert(clients[clients.len() - 1] == kept[k]);
            }
        }
        assert forall|a: int, b: int| 0 <= a < b < kept.len() implies (#[trigger] kept[a]).addr != (
        #[trigger] kept[b]).addr by {
            if b < kept_front.len() {
                assert(kept[a] == kept_front[a]);
                assert(kept[b] == kept_front[b]);
            } else {
                let j = choose|j: int| 0 <= j < front.len() && #[trigger] front[j] == kept_front[a];
                assert(clients[j] == kept[a]);
                assert(clients[clients.len() - 1] == kept[b]);
            }
        }
    }
}

/// The inbound and outbound bookkeeping of the server's socket.
#[derive(Debug)]
pub struct ConnectionManager {
    clients: Vec<ClientInfo>,
    sequence: u32,
}

impl ConnectionManager {
    /// The known clients, in the order in which they were first heard from.
    pub closed spec fn spec_clients(&self) -> Seq<ClientInfo> {
        self.clients@
    }

    /// The sequence number of the last envelope sent.
    pub closed spec fn spec_sequence(&self) -> u32 {
        self.sequence
    }

    /// No endpoint is known twice.
    pub open spec fn wf(&self) -> bool {
        spec_distinct(self.spec_clients())
    }

    /// A manager that knows no client and has sent nothing.
    pub fn new() -> (r: Self)
        ensures
            r.wf(),
            r.spec_clients() == Seq::<ClientInfo>::empty(),
            r.spec_sequence() == 0,
    {
        ConnectionManager { clients: Vec::new(), sequence: 0 }
    }

    /// Notes that a datagram from `client_addr` arrived at `now`.
    pub fn update_client(&mut self, client_addr: NetAddr, now: u64)
        requires
            old(self).wf(),
        ensures
            final(self).wf(),
            final(self).spec_clients() == spec_heard(old(self).spec_clients(), client_addr, now),
            final(self).spec_sequence() == old(self).spec_sequence(),
    {
        proof {
            lemma_heard_distinct(self.clients@, client_addr, now);
        }
        let mut i: usize = 0;
        while i < self.clients.len()
            invariant
                *self == *old(self),
                spec_distinct(spec_heard(self.clients@, client_addr, now)),
                0 <= i <= self.clients@.len(),
                spec_index_of(self.clients@, client_addr, i as int) == spec_index_of(
                    self.clients@,
                    client_addr,
                    0,
                ),
            decreases self.clients@.len() - i,
        {
            if self.clients[i].addr == client_addr {
                self.clients[i] = ClientInfo { addr: client_addr, last_seen: now };
                return ;
            }
            i = i + 1;
        }
        self.clients.push(ClientInfo { addr: client_addr, last_seen: now });
    }

    /// Forgets every client that has been silent for longer than `timeout`
    /// milliseconds at `now`.
    pub fn remove_inactive_clients(&mut self, now: u64, timeout: u64)
        requires
            old(self).wf(),
        ensures
            final(self).wf(),
            final(self).spec_clients() == spec_kept(old(self).spec_clients(), now, timeout),
            final(self).spec_sequence() == old(self).spec_sequence(),
    {
        let mut kept: Vec<ClientInfo> = Vec::new();
        let mut i: usize = 0;
        while i < self.clients.len()
            invariant
                *self == *old(self),
                spec_distinct(self.clients@),
                0 <= i <= self.clients@.len(),
                kept@ == spec_kept(self.clients@.take(i as int), now, timeout),
            decreases self.clients@.len() - i,
        {
            let c = self.clients[i];
            proof {
                assert(self.clients@.take(i + 1).drop_last() =~= self.clients@.take(i as int));
                assert(self.clients@.take(i + 1).last() == c);
            }
            if elapsed(now, c.last_seen) <= timeout {
                kept.push(c);
            }
            i = i + 1;
        }
        proof {
            assert(self.clients@.take(i as int) =~= self.clients@);
            lemma_kept_distinct(self.clients@, now, timeout);
        }
        self.clients = kept;
    }

    /// The endpoints of the known clients, in order.
    pub fn client_addresses(&self) -> (r: Vec<NetAddr>)
        ensures
            r@ == spec_addresses(self.spec_clients()),
    {
        let mut out: Vec<NetAddr> = Vec::new();
        let mut i: usize = 0;
        while i < self.clients.len()
            invariant
                0 <= i <= self.clients@.len(),
                out@.len() == i,
                forall|j: int| 0 <= j < i ==> #[trigger] out@[j] == self.clients@[j].addr,
            decreases self.clients@.len() - i,
        {
            out.push(self.clients[i].addr);
            i = i + 1;
        }
        assert(out@ =~= spec_addresses(self.clients@));
        out
    }

    /// Takes the next sequence number: one more than the last, starting
    /// over after the largest.
    pub fn get_sequence(&mut self) -> (r: u32)
        ensures
            r == spec_next_sequence(old(self).spec_sequence()),
            final(self).spec_sequence() == r,
            final(self).spec_clients() == old(self).spec_clients(),
    {
        self.sequence = if self.sequence == 4_294_967_295 {
            0
        } else {
            self.sequence + 1
        };
        self.sequence
    }

    /// Takes in a datagram that arrived from `addr` at `now`.
    ///
    /// The sender is noted as heard from, whatever the datagram holds. The
    /// result is the envelope that the datagram starts with, together with
    /// the sender, or the reason why the datagram is discarded.
    pub fn receive(&mut self, datagram: &[u8], addr: NetAddr, now: u64) -> (r: Result<
        (NetworkPacket<ClientMessage>, NetAddr),
        DecodeError,
    >)
        requires
            old(self).wf(),
        ensures
            final(self).wf(),
            final(self).spec_clients() == spec_heard(old(self).spec_clients(), addr, now),
            final(self).spec_sequence() == old(self).spec_sequence(),
            match r {
                Ok((p, from)) => from == addr && spec_decode_client(datagram@) == Ok::<
                    PacketView<ClientMessageView>,
                    DecodeError,
                >(p@),
                Err(e) => spec_decode_client(datagram@) == Err::<
                    PacketView<ClientMessageView>,
                    DecodeError,
                >(e),
            },
    {
        self.update_client(addr, now);
        match decode_client_packet(datagram) {
            Ok(packet) => Ok((packet, addr)),
            Err(e) => Err(e),
        }
    }

    /// Prepares a message for one client: it is put in an envelope with the
    /// next sequence number and the timestamp `now`, and encoded.
    pub fn send_to(&mut self, payload: &ServerMessage, addr: NetAddr, now: u64) -> (r: Outbound)
        ensures
            final(self).spec_sequence() == spec_next_sequence(old(self).spec_sequence()),
            final(self).spec_clients() == old(self).spec_clients(),
            r.bytes@ == spec_server_packet_bytes(
                PacketView {
                    sequence: final(self).spec_sequence(),
                    timestamp: now,
                    payload: payload@,
                },
            ),
            r.targets@ == seq![addr],
    {
        let sequence = self.get_sequence();
        let bytes = encode_server_message(sequence, now, payload);
        let mut targets: Vec<NetAddr> = Vec::new();
        targets.push(addr);
        assert(targets@ =~= seq![addr]);
        Outbound { bytes, targets }
    }

    /// Prepares a message for every known client: it is put in one envelope
    /// with the next sequence number and the timestamp `now`, encoded once,
    /// and addressed to each client in turn.
    pub fn broadcast(&mut self, payload: &ServerMessage, now: u64) -> (r: Outbound)
        ensures
            final(self).spec_sequence() == spec_next_sequence(old(self).spec_sequence()),
            final(self).spec_clients() == old(self).spec_clients(),
            r.bytes@ == spec_server_packet_bytes(
                PacketView {
                    sequence: final(self).spec_sequence(),
                    timestamp: now,
                    payload: payload@,
                },
            ),
            r.targets@ == spec_addresses(old(self).spec_clients()),
    {
        let sequence = self.get_sequence();
        let bytes = encode_server_message(sequence, now, payload);
        let targets = self.client_addresses();
        Outbound { bytes, targets }
    }
}

} // verus!
