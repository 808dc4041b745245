//! The decisions of a client's peer connection: which local addresses
//! stand for each family, the relay-only answer, the TURN channels bound
//! for peers, the handshake that waits for the connection and its channels,
//! and the holding back of reliable data while the channel is full.

use vstd::prelude::*;

use std::collections::VecDeque;

use crate::candidate::{CandidateKind, RemoteCandidate};
use crate::netaddr::{from_v6_mapped, from_v6_mapped_spec, IpAddress, SocketAddress};
use crate::signalling::find_from;
use crate::text::{chars_of, push_all, string_of, sub_vec, vec_matches_at};

verus! {

/// Whether `addr` is an IPv4 socket address.
pub open spec fn is_v4(addr: SocketAddress) -> bool {
    addr is V4
}

/// The first address of the family `v4` among the candidates of kind `kind`.
pub open spec fn first_of_kind(cands: Seq<(CandidateKind, SocketAddress)>, kind: CandidateKind, v4: bool) -> Option<SocketAddress>
    decreases cands.len(),
{
    if cands.len() == 0 {
        None
    } else if cands[0].0 == kind && is_v4(cands[0].1) == v4 {
        Some(cands[0].1)
    } else {
        first_of_kind(cands.drop_first(), kind, v4)
    }
}

/// The local address that stands for the family `v4`: the first host
/// candidate of it, else the first server-reflexive one.
pub open spec fn preferred_spec(cands: Seq<(CandidateKind, SocketAddress)>, v4: bool) -> Option<SocketAddress> {
    match first_of_kind(cands, CandidateKind::Host, v4) {
        Some(a) => Some(a),
        None => first_of_kind(cands, CandidateKind::ServerReflexive, v4),
    }
}

fn first_of_kind_exec(cands: &Vec<(CandidateKind, SocketAddress)>, kind: CandidateKind, v4: bool) -> (r: Option<SocketAddress>)
    ensures
        r == first_of_kind(cands@, kind, v4),
{
    let mut i: usize = 0;
    assert(cands@.skip(0) =~= cands@);
    while i < cands.len()
        invariant
            i <= cands@.len(),
            first_of_kind(cands@, kind, v4) == first_of_kind(cands@.skip(i as int), kind, v4),
        decreases cands@.len() - i,
    {
        let (k, a) = cands[i];
        let a_v4 = match a {
            SocketAddress::V4 { .. } => true,
            SocketAddress::V6 { .. } => false,
        };
        assert(cands@.skip(i as int)[0] == cands@[i as int]);
        if k == kind && a_v4 == v4 {
            return Some(a);
        }
        assert(cands@.skip(i as int).drop_first() =~= cands@.skip(i + 1));
        i += 1;
    }
    assert(cands@.skip(i as int).len() == 0);
    None
}

/// The local IPv4 and IPv6 addresses that received packets are attributed
/// to, from the gathered candidates `(kind, address)`: host candidates first,
/// server-reflexive ones where a family has no host candidate.
pub fn preferred_local_addrs(cands: &Vec<(CandidateKind, SocketAddress)>) -> (r: (Option<SocketAddress>, Option<SocketAddress>))
    ensures
        r.0 == preferred_spec(cands@, true),
        r.1 == preferred_spec(cands@, false),
{
    let v4 = match first_of_kind_exec(cands, CandidateKind::Host, true) {
        Some(a) => Some(a),
        None => first_of_kind_exec(cands, CandidateKind::ServerReflexive, true),
    };
    let v6 = match first_of_kind_exec(cands, CandidateKind::Host, false) {
        Some(a) => Some(a),
        None => first_of_kind_exec(cands, CandidateKind::ServerReflexive, false),
    };
    (v4, v6)
}

/// `s` with every occurrence of `from` (found left to right, not
/// overlapping) replaced by `to`.
pub open spec fn replace_all(s: Seq<char>, from: Seq<char>, to: Seq<char>) -> Seq<char>
    decreases s.len(),
{
    let k = find_from(s, from, 0);
    if from.len() == 0 || k >= s.len() {
        s
    } else {
        proof {
            lemma_find_in_range(s, from);
        }
        s.take(k) + to + replace_all(s.skip(k + from.len()), from, to)
    }
}

/// An occurrence of a nonempty `p` found from the start lies within `s`.
pub proof fn lemma_find_in_range(s: Seq<char>, p: Seq<char>)
    requires
        p.len() > 0,
    ensures
        find_from(s, p, 0) < s.len() ==> 0 <= find_from(s, p, 0) && find_from(s, p, 0) + p.len()
            <= s.len(),
{
    lemma_find_from_facts(s, p, 0);
}

/// The search for `p` from position `i` ends within `s`, and an occurrence it
/// finds starts at `i` or later and lies within `s`.
pub proof fn lemma_find_from_facts(s: Seq<char>, p: Seq<char>, i: int)
    requires
        0 <= i,
    ensures
        find_from(s, p, i) <= s.len(),
        find_from(s, p, i) < s.len() ==> i <= find_from(s, p, i) && find_from(s, p, i) + p.len() <= s.len(),
    decreases s.len() - i,
{
    if i >= s.len() || i + p.len() > s.len() {
    } else if s.subrange(i, i + p.len()) == p {
    } else {
        lemma_find_from_facts(s, p, i + 1);
    }
}

proof fn lemma_find_from_step(s: Seq<char>, p: Seq<char>, i: int)
    requires
        0 <= i,
        i < s.len(),
        i + p.len() <= s.len(),
        s.subrange(i, i + p.len()) != p,
    ensures
        find_from(s, p, i) == find_from(s, p, i + 1),
{
}

/// The line of an answer that offers trickle ICE.
pub open spec fn trickle_line() -> Seq<char> {
    "a=ice-options:trickle\r\n"@
}

/// The same line, limited to relay candidates.
pub open spec fn relay_only_trickle_line() -> Seq<char> {
    "a=ice-options:trickle relay-only\r\n"@
}

/// The answer a relay-only client sends: every trickle line of `sdp` marked
/// relay-only.
pub fn relay_only_answer(sdp: &str) -> (r: String)
    ensures
        r@ == replace_all(sdp@, trickle_line(), relay_only_trickle_line()),
{
    let s = chars_of(sdp);
    let from = chars_of("a=ice-options:trickle\r\n");
    let to = chars_of("a=ice-options:trickle relay-only\r\n");
    proof {
        reveal_strlit("a=ice-options:trickle\r\n");
    }
    let n = s.len();
    let mut out = String::new();
    let mut start: usize = 0;
    let mut i: usize = 0;
    assert(s@.skip(0) =~= s@);
    assert(out@ + replace_all(s@, from@, to@) =~= replace_all(s@, from@, to@));
    while i < n
        invariant
            n == s@.len(),
            from@ == trickle_line(),
            to@ == relay_only_trickle_line(),
            from@.len() > 0,
            start <= i <= n,
            out@ + replace_all(s@.skip(start as int), from@, to@) == replace_all(s@, from@, to@),
            find_from(s@.skip(start as int), from@, 0) == find_from(s@.skip(start as int), from@, (i - start) as int),
        decreases n - i,
    {
        let ghost t = s@.skip(start as int);
        if vec_matches_at(&s, &from, i) {
            let piece = sub_vec(&s, start, i);
            push_all(&mut out, &piece);
            push_all(&mut out, &to);
            proof {
                let k = (i - start) as int;
                assert(t.subrange(k, k + from@.len()) =~= s@.subrange(i as int, i + from@.len()));
                assert(find_from(t, from@, k) == k);
                assert(t.take(k) =~= piece@);
                assert(t.skip(k + from@.len()) =~= s@.skip(i + from@.len()));
                assert(s@.skip(i + from@.len()).skip(0) =~= s@.skip(i + from@.len()));
            }
            start = i + from.len();
            i = start;
        } else {
            proof {
                let k = (i - start) as int;
                if k + from@.len() <= t.len() {
                    assert(t.subrange(k, k + from@.len()) =~= s@.subrange(i as int, i + from@.len()));
                    lemma_find_from_step(t, from@, k);
                }
            }
            i += 1;
        }
    }
    let ghost t = s@.skip(start as int);
    proof {
        assert(find_from(t, from@, (i - start) as int) == t.len());
    }
    let rest = sub_vec(&s, start, n);
    assert(rest@ =~= t);
    push_all(&mut out, &rest);
    out
}

proof fn lemma_push_to_set(s: Seq<SocketAddress>, a: SocketAddress)
    ensures
        s.push(a).to_set() == s.to_set().insert(a),
{
    assert forall|x: SocketAddress| s.push(a).contains(x) <==> (s.contains(x) || x == a) by {
        if s.push(a).contains(x) {
            let i = choose|i: int| 0 <= i < s.push(a).len() && s.push(a)[i] == x;
            if i < s.len() {
                assert(s[i] == x);
            }
        }
        if s.contains(x) {
            let i = choose|i: int| 0 <= i < s.len() && s[i] == x;
            assert(s.push(a)[i] == x);
        }
        if x == a {
            assert(s.push(a)[s.len() as int] == a);
        }
    }
    assert(s.push(a).to_set() =~= s.to_set().insert(a));
}

/// A TURN allocation as the connection's loop sees it: the TURN server's
/// address, the relayed address allocated on it, the peer addresses a
/// channel bind was tried for, and those a channel is bound to.
pub struct TurnRelayInfo {
    server_addr: SocketAddress,
    relay_addr: SocketAddress,
    attempted: Vec<SocketAddress>,
    bound: Vec<SocketAddress>,
}

impl TurnRelayInfo {
    /// Address of the TURN server.
    pub closed spec fn server_spec(&self) -> SocketAddress {
        self.server_addr
    }

    /// The relayed address allocated on the TURN server.
    pub closed spec fn relay_spec(&self) -> SocketAddress {
        self.relay_addr
    }

    /// Address of the TURN server.
    pub fn server_addr(&self) -> (r: SocketAddress)
        ensures
            r == self.server_spec(),
    {
        self.server_addr
    }

    /// The relayed address allocated on the TURN server.
    pub fn relay_addr(&self) -> (r: SocketAddress)
        ensures
            r == self.relay_spec(),
    {
        self.relay_addr
    }

    /// The peers a channel bind was tried for.
    pub closed spec fn attempted_spec(&self) -> Set<SocketAddress> {
        self.attempted@.to_set()
    }

    /// The peers a channel is bound to.
    pub closed spec fn bound_spec(&self) -> Set<SocketAddress> {
        self.bound@.to_set()
    }

    /// An allocation of `relay_addr` on the TURN server at `server_addr`,
    /// with no channel tried or bound.
    pub fn new(server_addr: SocketAddress, relay_addr: SocketAddress) -> (r: Self)
        ensures
            r.server_spec() == server_addr,
            r.relay_spec() == relay_addr,
            r.attempted_spec() == Set::<SocketAddress>::empty(),
            r.bound_spec() == Set::<SocketAddress>::empty(),
    {
        let r = TurnRelayInfo { server_addr, relay_addr, attempted: Vec::new(), bound: Vec::new() };
        assert(r.attempted@.to_set() =~= Set::<SocketAddress>::empty());
        assert(r.bound@.to_set() =~= Set::<SocketAddress>::empty());
        r
    }

    /// Whether a channel is bound to `peer`.
    pub fn have_bound_channel(&self, peer: SocketAddress) -> (r: bool)
        ensures
            r == self.bound_spec().contains(peer),
    {
        contains_addr(&self.bound, peer)
    }

    /// A channel to `peer` was bound.
    pub fn mark_channel_bound(&mut self, peer: SocketAddress)
        ensures
            final(self).bound_spec() == old(self).bound_spec().insert(peer),
            final(self).attempted_spec() == old(self).attempted_spec(),
            final(self).server_spec() == old(self).server_spec(),
            final(self).relay_spec() == old(self).relay_spec(),
    {
        if !contains_addr(&self.bound, peer) {
            self.bound.push(peer);
            proof {
                lemma_push_to_set(old(self).bound@, peer);
            }
        } else {
            assert(old(self).bound@.to_set().insert(peer) =~= old(self).bound@.to_set());
        }
    }

    /// The channel to `peer` could not be bound, or went away.
    pub fn mark_channel_unbound(&mut self, peer: SocketAddress)
        ensures
            final(self).bound_spec() == old(self).bound_spec().remove(peer),
            final(self).attempted_spec() == old(self).attempted_spec(),
            final(self).server_spec() == old(self).server_spec(),
            final(self).relay_spec() == old(self).relay_spec(),
    {
        let mut kept: Vec<SocketAddress> = Vec::new();
        let mut i: usize = 0;
        while i < self.bound.len()
            invariant
                i <= self.bound@.len(),
                self.bound@ == old(self).bound@,
                kept@.to_set() == self.bound@.take(i as int).to_set().remove(peer),
            decreases self.bound@.len() - i,
        {
            let a = self.bound[i];
            proof {
                assert(self.bound@.take(i as int + 1) =~= self.bound@.take(i as int).push(a));
            }
            let ghost before = kept@;
            proof {
                lemma_push_to_set(self.bound@.take(i as int), a);
            }
            if a != peer {
                kept.push(a);
                proof {
                    lemma_push_to_set(before, a);
                    assert(kept@.to_set() =~= self.bound@.take(i as int + 1).to_set().remove(peer));
                }
            } else {
                assert(kept@.to_set() =~= self.bound@.take(i as int + 1).to_set().remove(peer));
            }
            i += 1;
        }
        assert(self.bound@.take(self.bound@.len() as int) =~= self.bound@);
        self.bound = kept;
    }

    /// Whether a channel bind to `peer` is to be tried now: only the first
    /// time it is asked for; it then counts as tried.
    pub fn try_mark_channel_attempt(&mut self, peer: SocketAddress) -> (r: bool)
        ensures
            r == !old(self).attempted_spec().contains(peer),
            final(self).attempted_spec() == old(self).attempted_spec().insert(peer),
            final(self).bound_spec() == old(self).bound_spec(),
            final(self).server_spec() == old(self).server_spec(),
            final(self).relay_spec() == old(self).relay_spec(),
    {
        if contains_addr(&self.attempted, peer) {
            assert(old(self).attempted@.to_set().insert(peer) =~= old(self).attempted@.to_set());
            false
        } else {
            self.attempted.push(peer);
            proof {
                lemma_push_to_set(old(self).attempted@, peer);
            }
            true
        }
    }
}

fn contains_addr(v: &Vec<SocketAddress>, a: SocketAddress) -> (r: bool)
    ensures
        r == v@.to_set().contains(a),
{
    let mut i: usize = 0;
    while i < v.len()
        invariant
            i <= v@.len(),
            forall|j: int| 0 <= j < i ==> v@[j] != a,
        decreases v@.len() - i,
    {
        if v[i] == a {
            assert(v@.contains(a));
            return true;
        }
        i += 1;
    }
    assert(!v@.contains(a));
    false
}

/// The peer address a TURN permission and channel are asked for, for a remote
/// candidate: its own address (never its related address), an IPv4-mapped
/// IPv6 address given back as IPv4.
pub fn remote_candidate_permission_addr(candidate: &RemoteCandidate) -> (r: SocketAddress)
    ensures
        r == from_v6_mapped_spec(candidate.addr),
{
    from_v6_mapped(candidate.addr)
}

/// Whether a remote candidate waits before it is handed to the connection:
/// only relays are used, it is a relay candidate, and no channel is bound to
/// its address yet.
pub fn should_wait_for_turn_channel(relay_only: bool, kind: CandidateKind, channel_bound: bool) -> (r: bool)
    ensures
        r == (relay_only && kind == CandidateKind::Relayed && !channel_bound),
{
    relay_only && kind == CandidateKind::Relayed && !channel_bound
}

/// How much reliable data may wait in the channel before more is held back,
/// in bytes.
pub const RELIABLE_BUFFERED_AMOUNT_REFILL_TARGET: usize = 4194304;

/// The buffered amount under which the reliable channel asks for more data,
/// in bytes.
pub const RELIABLE_BUFFERED_AMOUNT_LOW_THRESHOLD: usize = 2097152;

/// Whether data for a channel is held back: it is the reliable channel and
/// that channel already buffers the refill target or more.
pub fn should_pause_transmit(is_reliable: bool, buffered: Option<usize>) -> (r: bool)
    ensures
        r == (is_reliable && (buffered matches Some(b) && b >= RELIABLE_BUFFERED_AMOUNT_REFILL_TARGET)),
{
    is_reliable && match buffered {
        Some(b) => b >= RELIABLE_BUFFERED_AMOUNT_REFILL_TARGET,
        None => false,
    }
}

/// Whether the selected candidate pair goes through our TURN relay: there is
/// a relay and the pair's local address is its relayed address.
pub fn pair_is_relayed(relay_addr: Option<SocketAddress>, local: SocketAddress) -> (r: bool)
    ensures
        r == (relay_addr == Some(local)),
{
    match relay_addr {
        Some(a) => a == local,
        None => false,
    }
}

/// How many times in a row more output is polled before the loop yields.
pub const MAX_PENDING_SPINS_PER_STEP: usize = 8;

/// What polling the connection gave.
#[derive(Clone, Copy, Debug, PartialEq, Eq)]
pub enum PollKind {
    /// An event.
    Event,
    /// More output is pending.
    MorePending,
    /// Nothing until the next timeout.
    Idle,
}

/// The events that matter while the connection is being set up.
#[derive(Clone, Copy, Debug, PartialEq, Eq)]
pub enum SetupEvent {
    /// DTLS is up.
    Connected,
    /// ICE reports a disconnect.
    IceDisconnected,
    /// Data arrived on a channel.
    ChannelData,
    /// Anything else.
    Other,
}

/// What the handshake does after an event.
#[derive(Clone, Copy, Debug, PartialEq, Eq)]
pub enum SetupAction {
    /// Poll again.
    Continue,
    /// Keep the data for after the handshake, then poll again.
    BufferEarly,
    /// Give up: the peer went away.
    PeerDisconnected,
}

/// What the handshake does once polling has nothing more for now.
#[derive(Clone, Copy, Debug, PartialEq, Eq)]
pub enum SetupCheck {
    /// The connection and its channels are ready.
    Ready,
    /// The connection closed.
    Closed,
    /// The deadline passed.
    TimedOut,
    /// Wait for input this many milliseconds.
    Wait(u64),
}

/// How long the handshake may take, in milliseconds.
pub const CONNECT_TIMEOUT_MS: u64 = 30_000;

/// The state of the handshake that waits for the connection.
pub struct ConnectGate {
    pub connected: bool,
    pub pending_spins: usize,
}

impl ConnectGate {
    /// Nothing seen yet.
    pub fn new() -> (r: Self)
        ensures
            !r.connected,
            r.pending_spins == 0,
    {
        ConnectGate { connected: false, pending_spins: 0 }
    }

    /// An event arrived during the handshake.
    pub fn on_event(&mut self, e: SetupEvent) -> (a: SetupAction)
        ensures
            final(self).pending_spins == 0,
            final(self).connected == (old(self).connected || e == SetupEvent::Connected),
            a == (match e {
                SetupEvent::IceDisconnected => SetupAction::PeerDisconnected,
                SetupEvent::ChannelData => SetupAction::BufferEarly,
                _ => SetupAction::Continue,
            }),
    {
        self.pending_spins = 0;
        match e {
            SetupEvent::Connected => {
                self.connected = true;
                SetupAction::Continue
            },
            SetupEvent::IceDisconnected => SetupAction::PeerDisconnected,
            SetupEvent::ChannelData => SetupAction::BufferEarly,
            SetupEvent::Other => SetupAction::Continue,
        }
    }

    /// Polling gave no event. The answer says whether to go on to the checks
    /// (rather than poll again at once): always when idle, and after every
    /// eighth consecutive time that more output was pending.
    pub fn on_no_event(&mut self, idle: bool) -> (check: bool)
        requires
            old(self).pending_spins < MAX_PENDING_SPINS_PER_STEP,
        ensures
            final(self).connected == old(self).connected,
            final(self).pending_spins < MAX_PENDING_SPINS_PER_STEP,
            idle ==> check && final(self).pending_spins == 0,
            !idle ==> check == (old(self).pending_spins + 1 >= MAX_PENDING_SPINS_PER_STEP),
            !idle && !check ==> final(self).pending_spins == old(self).pending_spins + 1,
            !idle && check ==> final(self).pending_spins == 0,
    {
        if idle {
            self.pending_spins = 0;
            return true;
        }
        self.pending_spins = self.pending_spins + 1;
        if self.pending_spins >= MAX_PENDING_SPINS_PER_STEP {
            self.pending_spins = 0;
            true
        } else {
            false
        }
    }

    /// The checks after polling: ready once connected with every channel
    /// open; closed when the connection died; timed out at the deadline;
    /// otherwise wait for input until the next timeout, but not past the
    /// deadline.
    pub fn check(&self, channels_ready: bool, alive: bool, now_ms: u64, deadline_ms: u64, next_timeout_ms: u64) -> (r: SetupCheck)
        ensures
            r == (if self.connected && channels_ready {
                SetupCheck::Ready
            } else if !alive {
                SetupCheck::Closed
            } else if now_ms >= deadline_ms {
                SetupCheck::TimedOut
            } else if next_timeout_ms < deadline_ms - now_ms {
                SetupCheck::Wait(next_timeout_ms)
            } else {
                SetupCheck::Wait((deadline_ms - now_ms) as u64)
            }),
    {
        if self.connected && channels_ready {
            SetupCheck::Ready
        } else if !alive {
            SetupCheck::Closed
        } else if now_ms >= deadline_ms {
            SetupCheck::TimedOut
        } else if next_timeout_ms < deadline_ms - now_ms {
            SetupCheck::Wait(next_timeout_ms)
        } else {
            SetupCheck::Wait(deadline_ms - now_ms)
        }
    }
}

/// The handshake never waits past its deadline, and is ready exactly when the
/// connection is up and every channel has opened.
pub proof fn lemma_handshake_respects_deadline(connected: bool, channels_ready: bool, alive: bool, now_ms: u64, deadline_ms: u64, next_timeout_ms: u64, r: SetupCheck)
    requires
        r == (if connected && channels_ready {
            SetupCheck::Ready
        } else if !alive {
            SetupCheck::Closed
        } else if now_ms >= deadline_ms {
            SetupCheck::TimedOut
        } else if next_timeout_ms < deadline_ms - now_ms {
            SetupCheck::Wait(next_timeout_ms)
        } else {
            SetupCheck::Wait((deadline_ms - now_ms) as u64)
        }),
    ensures
        r matches SetupCheck::Wait(w) ==> now_ms + w <= deadline_ms,
        (r == SetupCheck::Ready) == (connected && channels_ready),
{
}

/// Whether a client's run loop goes on: a connection is alive, or another may
/// still join.
pub fn keep_running(p2p_alive: bool, relay_alive: bool, more_may_join: bool) -> (r: bool)
    ensures
        r == (p2p_alive || relay_alive || more_may_join),
{
    p2p_alive || relay_alive || more_may_join
}

/// The path data is sent on: the direct connection when it is alive and
/// takes it, else the relay when it is alive and takes it.
#[derive(Clone, Copy, Debug, PartialEq, Eq)]
pub enum SendPath {
    Direct,
    Relay,
    Neither,
}

/// The path chosen given whether each connection is alive and would take the
/// data: the direct one is preferred.
pub fn choose_path(direct_ok: bool, relay_ok: bool) -> (r: SendPath)
    ensures
        r == (if direct_ok {
            SendPath::Direct
        } else if relay_ok {
            SendPath::Relay
        } else {
            SendPath::Neither
        }),
{
    if direct_ok {
        SendPath::Direct
    } else if relay_ok {
        SendPath::Relay
    } else {
        SendPath::Neither
    }
}

/// `x + y`, wrapping around past `usize::MAX`.
pub open spec fn add_wrapping(x: usize, y: usize) -> usize {
    if x + y > usize::MAX {
        (x + y - (usize::MAX + 1)) as usize
    } else {
        (x + y) as usize
    }
}

/// The bytes of the items of `items` that go on the channel `reliable`,
/// counted with wrap-around.
pub open spec fn reliable_total(items: Seq<(Vec<u8>, u16)>, reliable: u16) -> usize
    decreases items.len(),
{
    if items.len() == 0 {
        0
    } else {
        add_wrapping(
            reliable_total(items.drop_last(), reliable),
            if items.last().1 == reliable {
                items.last().0.len()
            } else {
                0
            },
        )
    }
}

/// Whether `send` can have taken `item`: on the direct path, or, the direct
/// path refusing it, on the relay.
pub open spec fn delivered<F: Fn(SendPath, &Vec<u8>, u16) -> bool>(send: F, item: (Vec<u8>, u16)) -> bool {
    ||| call_ensures(send, (SendPath::Direct, &item.0, item.1), true)
    ||| call_ensures(send, (SendPath::Direct, &item.0, item.1), false) && call_ensures(
        send,
        (SendPath::Relay, &item.0, item.1),
        true,
    )
}

/// Whether `send` can have refused `item` on both paths.
pub open spec fn refused<F: Fn(SendPath, &Vec<u8>, u16) -> bool>(send: F, item: (Vec<u8>, u16)) -> bool {
    &&& call_ensures(send, (SendPath::Direct, &item.0, item.1), false)
    &&& call_ensures(send, (SendPath::Relay, &item.0, item.1), false)
}

/// Sends the waiting items of `queue` in order, each on the direct path or,
/// where that refuses it, on the relay (`send` tells whether a path is alive
/// and took the data). It stops at the first item both paths refuse, which
/// stays at the front. Returns how many items went out and how many bytes of
/// them went on the channel `reliable`.
pub fn flush_queue<F: Fn(SendPath, &Vec<u8>, u16) -> bool>(
    queue: &mut VecDeque<(Vec<u8>, u16)>,
    send: F,
    reliable: u16,
) -> (r: (usize, usize))
    requires
        forall|p: SendPath, d: &Vec<u8>, c: u16| #[trigger] call_requires(send, (p, d, c)),
    ensures
        r.0 <= old(queue)@.len(),
        final(queue)@ == old(queue)@.skip(r.0 as int),
        forall|i: int| 0 <= i < r.0 ==> delivered(send, #[trigger] old(queue)@[i]),
        r.0 < old(queue)@.len() ==> refused(send, old(queue)@[r.0 as int]),
        r.1 == reliable_total(old(queue)@.take(r.0 as int), reliable),
{
    let ghost q0 = queue@;
    let n: usize = queue.len();
    let mut sent: usize = 0;
    let mut bytes: usize = 0;
    loop
        invariant
            q0.len() == n,
            forall|p: SendPath, d: &Vec<u8>, c: u16| #[trigger] call_requires(send, (p, d, c)),
            sent <= q0.len(),
            queue@ == q0.skip(sent as int),
            forall|i: int| 0 <= i < sent ==> delivered(send, #[trigger] q0[i]),
            bytes == reliable_total(q0.take(sent as int), reliable),
        ensures
            sent <= q0.len(),
            queue@ == q0.skip(sent as int),
            forall|i: int| 0 <= i < sent ==> delivered(send, #[trigger] q0[i]),
            sent < q0.len() ==> refused(send, q0[sent as int]),
            bytes == reliable_total(q0.take(sent as int), reliable),
        decreases q0.len() - sent,
    {
        let item = match queue.pop_front() {
            Some(item) => item,
            None => {
                assert(q0.skip(sent as int).len() == 0);
                break;
            },
        };
        assert(sent < q0.len());
        assert(item == q0[sent as int]);
        let direct = send(SendPath::Direct, &item.0, item.1);
        let ok = if direct {
            true
        } else {
            send(SendPath::Relay, &item.0, item.1)
        };
        if ok {
            proof {
                assert(q0.take(sent as int + 1).drop_last() =~= q0.take(sent as int));
                assert(q0.take(sent as int + 1).last() == item);
            }
            if item.1 == reliable {
                bytes = bytes.wrapping_add(item.0.len());
            } else {
                bytes = bytes.wrapping_add(0);
            }
            sent = sent + 1;
            assert(queue@ =~= q0.skip(sent as int));
        } else {
            queue.push_front(item);
            assert(queue@ =~= q0.skip(sent as int));
            break;
        }
    }
    (sent, bytes)
}

} // verus!
