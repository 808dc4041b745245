//! Where a client's packets go once it holds a TURN allocation: which
//! outgoing packets are relayed, which incoming ones the TURN client reads,
//! the local address an incoming packet is attributed to, how long the loop
//! may wait, the channels the TURN client reports bound, and the remote relay
//! candidates held back until a channel to them is bound.

use vstd::prelude::*;

use std::collections::VecDeque;

use crate::candidate::{CandidateKind, RemoteCandidate};
use crate::gather::TurnRecv;
use crate::netaddr::{from_v6_mapped, from_v6_mapped_spec, SocketAddress};
use crate::rtc_logic::{remote_candidate_permission_addr, should_wait_for_turn_channel, TurnRelayInfo};

verus! {

/// Whether a packet the connection sends from `source` goes through the
/// TURN allocation: it does when it is sent from the relayed address.
pub fn transmit_via_relay(relay_addr: Option<SocketAddress>, source: SocketAddress) -> (r: bool)
    ensures
        r == (relay_addr == Some(from_v6_mapped_spec(source))),
{
    match relay_addr {
        Some(relay) => relay == from_v6_mapped(source),
        None => false,
    }
}

/// Whether a packet received from `source` is first handed to the TURN
/// client: it is when it comes from the TURN server.
pub fn received_from_turn_server(turn_server: Option<SocketAddress>, source: SocketAddress) -> (r: bool)
    ensures
        r == (turn_server == Some(source)),
{
    match turn_server {
        Some(server) => server == source,
        None => false,
    }
}

/// What becomes of a packet from the TURN server once the TURN client read it.
#[derive(Clone, Copy, Debug, PartialEq, Eq, Structural)]
pub enum RelayedReceive {
    /// Data a peer sent through the relay: give it to the connection as
    /// received at the relayed address, then flush the TURN client.
    DeliverRelayed,
    /// A TURN message: flush the TURN client.
    Flush,
    /// Not a TURN message: give it to the connection as it is.
    PassOn,
    /// An ICMP error for a peer: drop it.
    Drop,
}

/// What becomes of a packet from the TURN server, by what the TURN client
/// made of it.
pub fn relayed_receive(recv: TurnRecv) -> (r: RelayedReceive)
    ensures
        r == match recv {
            TurnRecv::PeerData => RelayedReceive::DeliverRelayed,
            TurnRecv::Handled => RelayedReceive::Flush,
            TurnRecv::Ignored => RelayedReceive::PassOn,
            TurnRecv::PeerIcmp => RelayedReceive::Drop,
        },
{
    match recv {
        TurnRecv::PeerData => RelayedReceive::DeliverRelayed,
        TurnRecv::Handled => RelayedReceive::Flush,
        TurnRecv::Ignored => RelayedReceive::PassOn,
        TurnRecv::PeerIcmp => RelayedReceive::Drop,
    }
}

/// The local address a packet from `source` is attributed to: the preferred
/// local address of the source's family, or the socket's own address where
/// that family has none.
pub fn receive_local_addr(
    source: SocketAddress,
    local_v4: Option<SocketAddress>,
    local_v6: Option<SocketAddress>,
    local: SocketAddress,
) -> (r: SocketAddress)
    ensures
        r == (match source {
            SocketAddress::V4 { .. } => match local_v4 {
                Some(a) => a,
                None => local,
            },
            SocketAddress::V6 { .. } => match local_v6 {
                Some(a) => a,
                None => local,
            },
        }),
{
    match source {
        SocketAddress::V4 { .. } => match local_v4 {
            Some(a) => a,
            None => local,
        },
        SocketAddress::V6 { .. } => match local_v6 {
            Some(a) => a,
            None => local,
        },
    }
}

/// How long the client may wait for input: until the connection's next
/// timeout, or the TURN client's if it holds one and that comes first.
pub fn client_timeout_ms(connection_ms: u64, turn_ms: Option<u64>) -> (r: u64)
    ensures
        r == match turn_ms {
            Some(t) => if t < connection_ms {
                t
            } else {
                connection_ms
            },
            None => connection_ms,
        },
{
    match turn_ms {
        Some(t) => if t < connection_ms {
            t
        } else {
            connection_ms
        },
        None => connection_ms,
    }
}

/// A channel event the TURN client reports.
#[derive(Clone, Copy, Debug, PartialEq, Eq, Structural)]
pub enum ChannelEvent {
    /// A channel to this peer was bound.
    Created(SocketAddress),
    /// Binding a channel to this peer failed.
    CreateFailed(SocketAddress),
    /// Anything else.
    Other,
}

impl TurnRelayInfo {
    /// Takes in a channel event: a channel bound counts as bound, a failed
    /// one no longer does.
    pub fn apply_channel_event(&mut self, event: ChannelEvent)
        ensures
            final(self).attempted_spec() == old(self).attempted_spec(),
            final(self).server_spec() == old(self).server_spec(),
            final(self).relay_spec() == old(self).relay_spec(),
            final(self).bound_spec() == match event {
                ChannelEvent::Created(peer) => old(self).bound_spec().insert(peer),
                ChannelEvent::CreateFailed(peer) => old(self).bound_spec().remove(peer),
                ChannelEvent::Other => old(self).bound_spec(),
            },
    {
        match event {
            ChannelEvent::Created(peer) => self.mark_channel_bound(peer),
            ChannelEvent::CreateFailed(peer) => self.mark_channel_unbound(peer),
            ChannelEvent::Other => {},
        }
    }
}

/// Whether a remote candidate is held back: there is a TURN allocation whose
/// channels are `channels`, and only relays are used, the candidate is a
/// relay candidate and no channel to its address is bound.
pub open spec fn held_back(c: RemoteCandidate, channels: Option<Set<SocketAddress>>, relay_only: bool) -> bool {
    match channels {
        Some(bound) => relay_only && c.kind == CandidateKind::Relayed && !bound.contains(from_v6_mapped_spec(c.addr)),
        None => false,
    }
}

/// The candidates among the first `n` of `s` that are held back, in order.
pub open spec fn still_held(s: Seq<RemoteCandidate>, channels: Option<Set<SocketAddress>>, relay_only: bool, n: int) -> Seq<
    RemoteCandidate,
>
    decreases n,
{
    if n <= 0 {
        Seq::empty()
    } else {
        let prev = still_held(s, channels, relay_only, n - 1);
        if held_back(s[n - 1], channels, relay_only) {
            prev.push(s[n - 1])
        } else {
            prev
        }
    }
}

/// The candidates among the first `n` of `s` that are no longer held back,
/// in order.
pub open spec fn now_ready(s: Seq<RemoteCandidate>, channels: Option<Set<SocketAddress>>, relay_only: bool, n: int) -> Seq<
    RemoteCandidate,
>
    decreases n,
{
    if n <= 0 {
        Seq::empty()
    } else {
        let prev = now_ready(s, channels, relay_only, n - 1);
        if held_back(s[n - 1], channels, relay_only) {
            prev
        } else {
            prev.push(s[n - 1])
        }
    }
}

/// The bound channels of an allocation, if there is one.
pub open spec fn bound_of(turn: Option<&TurnRelayInfo>) -> Option<Set<SocketAddress>> {
    match turn {
        Some(ch) => Some(ch.bound_spec()),
        None => None,
    }
}

/// Whether a remote candidate is held back until a TURN channel to it is
/// bound (see `held_back`).
pub fn is_held_back(c: &RemoteCandidate, turn: Option<&TurnRelayInfo>, relay_only: bool) -> (r: bool)
    ensures
        r == held_back(*c, bound_of(turn), relay_only),
{
    match turn {
        Some(ch) => {
            let peer = remote_candidate_permission_addr(c);
            should_wait_for_turn_channel(relay_only, c.kind, ch.have_bound_channel(peer))
        },
        None => false,
    }
}

/// Goes through the held-back remote candidates once: those no longer held
/// back are handed out, in order, to be added to the connection; the others
/// stay held back, in order.
pub fn promote_ready(pending: &mut VecDeque<RemoteCandidate>, turn: Option<&TurnRelayInfo>, relay_only: bool) -> (ready: Vec<
    RemoteCandidate,
>)
    ensures
        ready@ == now_ready(old(pending)@, bound_of(turn), relay_only, old(pending)@.len() as int),
        final(pending)@ == still_held(old(pending)@, bound_of(turn), relay_only, old(pending)@.len() as int),
{
    let ghost start = pending@;
    let mut held: VecDeque<RemoteCandidate> = VecDeque::new();
    let mut ready: Vec<RemoteCandidate> = Vec::new();
    let ghost mut done: int = 0;
    while pending.len() > 0
        invariant
            0 <= done <= start.len(),
            pending@ == start.skip(done),
            held@ == still_held(start, bound_of(turn), relay_only, done),
            ready@ == now_ready(start, bound_of(turn), relay_only, done),
        decreases pending@.len(),
    {
        let front = pending.pop_front();
        match front {
            Some(c) => {
                assert(c == start[done]);
                if is_held_back(&c, turn, relay_only) {
                    held.push_back(c);
                } else {
                    ready.push(c);
                }
                proof {
                    assert(start.skip(done + 1) =~= start.skip(done).drop_first());
                    done = done + 1;
                }
            },
            None => {},
        }
    }
    assert(done == start.len());
    *pending = held;
    ready
}

} // verus!
