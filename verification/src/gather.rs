//! The bookkeeping of ICE candidate gathering. A STUN phase sends one binding
//! request per STUN server and collects server-reflexive candidates; a TURN
//! phase races one allocation per TURN server and keeps the first that
//! succeeds. The gathering loop sends what the phases queue, waits for packets
//! and hands them back; the STUN agents and TURN clients that do the protocol
//! work report to these state machines in plain values.

use vstd::prelude::*;

use crate::netaddr::{to_v6_mapped, to_v6_mapped_spec, IpAddress, SocketAddress};

verus! {

/// How long the STUN phase waits for binding responses, in milliseconds.
pub const STUN_TIMEOUT_MS: u64 = 3000;

/// How long the TURN phase waits for an allocation, in milliseconds.
pub const TURN_TIMEOUT_MS: u64 = 5000;

/// The shortest wait for a packet, in milliseconds.
pub const TURN_MIN_RECV_TIMEOUT_MS: u64 = 1;

/// The largest packet read while gathering, in bytes.
pub const STUN_MAX_PACKET: usize = 512;

/// The smaller of two optional waits; either one where the other is absent.
pub open spec fn min_wait_spec(a: Option<u64>, b: Option<u64>) -> Option<u64> {
    match (a, b) {
        (Some(x), Some(y)) => Some(if x <= y {
            x
        } else {
            y
        }),
        (Some(x), None) => Some(x),
        (None, Some(y)) => Some(y),
        (None, None) => None,
    }
}

/// The smaller of two optional waits; either one where the other is absent.
pub fn min_wait(a: Option<u64>, b: Option<u64>) -> (r: Option<u64>)
    ensures
        r == min_wait_spec(a, b),
{
    match (a, b) {
        (Some(x), Some(y)) => Some(if x <= y {
            x
        } else {
            y
        }),
        (Some(x), None) => Some(x),
        (None, Some(y)) => Some(y),
        (None, None) => None,
    }
}

/// `w`, but never less than the shortest wait.
pub open spec fn at_least_min(w: u64) -> u64 {
    if w < TURN_MIN_RECV_TIMEOUT_MS {
        TURN_MIN_RECV_TIMEOUT_MS
    } else {
        w
    }
}

/// How long the gathering loop waits for a packet when the phases asked for
/// `wait`: that long, the shortest wait when they asked for nothing, and
/// never less than the shortest wait.
pub fn recv_wait(wait: Option<u64>) -> (r: u64)
    ensures
        r == match wait {
            Some(w) => at_least_min(w),
            None => TURN_MIN_RECV_TIMEOUT_MS,
        },
        r >= TURN_MIN_RECV_TIMEOUT_MS,
{
    match wait {
        Some(w) => if w < TURN_MIN_RECV_TIMEOUT_MS {
            TURN_MIN_RECV_TIMEOUT_MS
        } else {
            w
        },
        None => TURN_MIN_RECV_TIMEOUT_MS,
    }
}

/// The address a STUN server is reached at from the gathering socket, which
/// is a dual-stack IPv6 socket.
pub open spec fn stun_send_key(addr: SocketAddress) -> SocketAddress {
    to_v6_mapped_spec(addr)
}

/// The STUN servers asked among the first `n` resolved addresses, each as
/// `(address sent to, server address)`: one request per address sent to, the
/// first server that maps to it.
pub open spec fn stun_targets_spec(resolved: Seq<SocketAddress>, n: int) -> Seq<(SocketAddress, SocketAddress)>
    decreases n,
{
    if n <= 0 {
        Seq::empty()
    } else {
        let prev = stun_targets_spec(resolved, n - 1);
        if exists|j: int| 0 <= j < n - 1 && #[trigger] stun_send_key(resolved[j]) == stun_send_key(resolved[n - 1]) {
            prev
        } else {
            prev.push((stun_send_key(resolved[n - 1]), resolved[n - 1]))
        }
    }
}

/// The TURN servers tried among the first `n` resolved addresses: each
/// address once, where it first appears.
pub open spec fn turn_targets_spec(resolved: Seq<SocketAddress>, n: int) -> Seq<SocketAddress>
    decreases n,
{
    if n <= 0 {
        Seq::empty()
    } else {
        let prev = turn_targets_spec(resolved, n - 1);
        if exists|j: int| 0 <= j < n - 1 && #[trigger] resolved[j] == resolved[n - 1] {
            prev
        } else {
            prev.push(resolved[n - 1])
        }
    }
}

fn seen_before(keys: &Vec<SocketAddress>, key: SocketAddress) -> (r: bool)
    ensures
        r == exists|j: int| 0 <= j < keys@.len() && keys@[j] == key,
{
    let mut i: usize = 0;
    while i < keys.len()
        invariant
            i <= keys@.len(),
            forall|j: int| 0 <= j < i ==> keys@[j] != key,
        decreases keys@.len() - i,
    {
        if keys[i] == key {
            return true;
        }
        i += 1;
    }
    false
}

/// The STUN binding requests to send for the addresses the STUN URLs resolved
/// to, in order: `(address sent to, server address)`, one per address sent to.
pub fn stun_send_targets(resolved: &Vec<SocketAddress>) -> (r: Vec<(SocketAddress, SocketAddress)>)
    ensures
        r@ == stun_targets_spec(resolved@, resolved@.len() as int),
{
    let mut r: Vec<(SocketAddress, SocketAddress)> = Vec::new();
    let mut keys: Vec<SocketAddress> = Vec::new();
    let mut i: usize = 0;
    while i < resolved.len()
        invariant
            i <= resolved@.len(),
            keys@.len() == i,
            forall|j: int| 0 <= j < i ==> #[trigger] keys@[j] == stun_send_key(resolved@[j]),
            r@ == stun_targets_spec(resolved@, i as int),
        decreases resolved@.len() - i,
    {
        let addr = resolved[i];
        let key = to_v6_mapped(addr);
        let seen = seen_before(&keys, key);
        proof {
            if seen {
                let j = choose|j: int| 0 <= j < keys@.len() && keys@[j] == key;
                assert(stun_send_key(resolved@[j]) == stun_send_key(resolved@[i as int]));
            } else {
                assert forall|j: int| 0 <= j < i implies #[trigger] stun_send_key(resolved@[j])
                    != stun_send_key(resolved@[i as int]) by {
                    assert(keys@[j] == stun_send_key(resolved@[j]));
                }
            }
        }
        if !seen {
            r.push((key, addr));
        }
        keys.push(key);
        i += 1;
    }
    r
}

/// The TURN servers to try for the addresses the TURN URLs resolved to, in
/// order, each once.
pub fn turn_attempt_targets(resolved: &Vec<SocketAddress>) -> (r: Vec<SocketAddress>)
    ensures
        r@ == turn_targets_spec(resolved@, resolved@.len() as int),
{
    let mut r: Vec<SocketAddress> = Vec::new();
    let mut i: usize = 0;
    while i < resolved.len()
        invariant
            i <= resolved@.len(),
            r@ == turn_targets_spec(resolved@, i as int),
        decreases resolved@.len() - i,
    {
        let addr = resolved[i];
        let mut seen = false;
        let mut j: usize = 0;
        while j < i
            invariant
                j <= i,
                i < resolved@.len(),
                addr == resolved@[i as int],
                seen == exists|k: int| 0 <= k < j && resolved@[k] == addr,
            decreases i - j,
        {
            if resolved[j] == addr {
                seen = true;
            }
            j += 1;
        }
        if !seen {
            r.push(addr);
        }
        i += 1;
    }
    r
}

/// The base of a server-reflexive candidate: the local address, or the
/// unspecified address of the mapped address's family on the local port where
/// the two families differ.
pub open spec fn srflx_base_spec(mapped: SocketAddress, local: SocketAddress) -> SocketAddress {
    match (mapped, local) {
        (SocketAddress::V4 { .. }, SocketAddress::V6 { port, .. }) => SocketAddress::V4 {
            ip: IpAddress::V4(0, 0, 0, 0),
            port,
        },
        (SocketAddress::V6 { .. }, SocketAddress::V4 { port, .. }) => SocketAddress::V6 {
            ip: IpAddress::V6(0, 0, 0, 0, 0, 0, 0, 0),
            port,
            flowinfo: 0,
            scope_id: 0,
        },
        _ => local,
    }
}

/// The base of the server-reflexive candidate for the address a STUN server
/// saw (see `srflx_base_spec`).
pub fn srflx_base(mapped: SocketAddress, local: SocketAddress) -> (r: SocketAddress)
    ensures
        r == srflx_base_spec(mapped, local),
{
    match (mapped, local) {
        (SocketAddress::V4 { .. }, SocketAddress::V6 { port, .. }) => SocketAddress::V4 {
            ip: IpAddress::V4(0, 0, 0, 0),
            port,
        },
        (SocketAddress::V6 { .. }, SocketAddress::V4 { port, .. }) => SocketAddress::V6 {
            ip: IpAddress::V6(0, 0, 0, 0, 0, 0, 0, 0),
            port,
            flowinfo: 0,
            scope_id: 0,
        },
        _ => local,
    }
}

/// Why gathering failed.
#[derive(Clone, Copy, Debug, PartialEq, Eq, Structural)]
pub enum GatherFailure {
    /// The configuration names no STUN server.
    NoStunUrls,
    /// No STUN binding request could be sent.
    NoStunRequests,
    /// No STUN server answered in time.
    NoStunBindings,
    /// The configuration names no TURN server.
    NoTurnUrls,
    /// No TURN allocation could be started.
    NoTurnAttempts,
    /// No TURN allocation succeeded in time.
    TurnTimedOut,
    /// Every TURN allocation failed.
    AllTurnAttemptsFailed,
    /// The configuration has no TURN credentials.
    MissingTurnCredentials,
}

/// The reason given for a gathering failure.
pub open spec fn gather_reason(f: GatherFailure) -> Seq<char> {
    match f {
        GatherFailure::NoStunUrls => "no STUN server URLs configured"@,
        GatherFailure::NoStunRequests => "no STUN requests could be started"@,
        GatherFailure::NoStunBindings => "no STUN bindings succeeded"@,
        GatherFailure::NoTurnUrls => "no TURN server URLs configured"@,
        GatherFailure::NoTurnAttempts => "no TURN allocation attempts could be started"@,
        GatherFailure::TurnTimedOut => "TURN gathering timed out after 5s"@,
        GatherFailure::AllTurnAttemptsFailed => "all TURN allocation attempts failed"@,
        GatherFailure::MissingTurnCredentials => "missing TURN credentials"@,
    }
}

/// Whether a failure is one of the STUN phase (else it is one of TURN).
pub open spec fn is_stun_failure(f: GatherFailure) -> bool {
    f == GatherFailure::NoStunUrls || f == GatherFailure::NoStunRequests || f == GatherFailure::NoStunBindings
}

impl GatherFailure {
    /// Whether this is a failure of the STUN phase; the others are failures
    /// of TURN.
    pub fn is_stun(&self) -> (r: bool)
        ensures
            r == is_stun_failure(*self),
    {
        match self {
            GatherFailure::NoStunUrls | GatherFailure::NoStunRequests | GatherFailure::NoStunBindings => true,
            _ => false,
        }
    }

    /// The reason given for the failure.
    pub fn reason(&self) -> (r: &'static str)
        ensures
            r@ == gather_reason(*self),
    {
        match self {
            GatherFailure::NoStunUrls => "no STUN server URLs configured",
            GatherFailure::NoStunRequests => "no STUN requests could be started",
            GatherFailure::NoStunBindings => "no STUN bindings succeeded",
            GatherFailure::NoTurnUrls => "no TURN server URLs configured",
            GatherFailure::NoTurnAttempts => "no TURN allocation attempts could be started",
            GatherFailure::TurnTimedOut => "TURN gathering timed out after 5s",
            GatherFailure::AllTurnAttemptsFailed => "all TURN allocation attempts failed",
            GatherFailure::MissingTurnCredentials => "missing TURN credentials",
        }
    }
}

/// What the gathering loop does after driving the phases.
#[derive(Clone, Copy, Debug, PartialEq, Eq, Structural)]
pub enum GatherStep {
    /// Gathering failed.
    Fail(GatherFailure),
    /// Both phases are done: collect the relayed candidate and finish.
    Finish,
    /// Wait this many milliseconds for a packet.
    Wait(u64),
}

/// The step after driving both phases: a STUN failure first, then a TURN
/// failure, then done once both phases completed, else wait as long as the
/// phase that needs it soonest asked (see `recv_wait`).
pub open spec fn gather_step_spec(
    stun_failure: Option<GatherFailure>,
    turn_failure: Option<GatherFailure>,
    stun_complete: bool,
    turn_complete: bool,
    stun_wait: Option<u64>,
    turn_wait: Option<u64>,
) -> GatherStep {
    match (stun_failure, turn_failure) {
        (Some(f), _) => GatherStep::Fail(f),
        (None, Some(f)) => GatherStep::Fail(f),
        (None, None) => if stun_complete && turn_complete {
            GatherStep::Finish
        } else {
            GatherStep::Wait(
                match min_wait_spec(stun_wait, turn_wait) {
                    Some(w) => at_least_min(w),
                    None => TURN_MIN_RECV_TIMEOUT_MS,
                },
            )
        },
    }
}

/// The step after driving both phases (see `gather_step_spec`).
pub fn gather_step(
    stun_failure: Option<GatherFailure>,
    turn_failure: Option<GatherFailure>,
    stun_complete: bool,
    turn_complete: bool,
    stun_wait: Option<u64>,
    turn_wait: Option<u64>,
) -> (r: GatherStep)
    ensures
        r == gather_step_spec(stun_failure, turn_failure, stun_complete, turn_complete, stun_wait, turn_wait),
{
    if let Some(f) = stun_failure {
        return GatherStep::Fail(f);
    }
    if let Some(f) = turn_failure {
        return GatherStep::Fail(f);
    }
    if stun_complete && turn_complete {
        return GatherStep::Finish;
    }
    GatherStep::Wait(recv_wait(min_wait(stun_wait, turn_wait)))
}

/// The step of relay-only gathering, which runs the TURN phase alone.
pub fn relay_only_step(turn_failure: Option<GatherFailure>, turn_complete: bool, turn_wait: Option<u64>) -> (r: GatherStep)
    ensures
        r == gather_step_spec(None, turn_failure, true, turn_complete, None, turn_wait),
{
    gather_step(None, turn_failure, true, turn_complete, None, turn_wait)
}

/// What polling a STUN transaction, or a TURN client, gave.
#[derive(Clone, Copy, Debug, PartialEq, Eq, Structural)]
pub enum AgentPoll {
    /// The STUN transaction timed out or was cancelled.
    Finished,
    /// It waits; its next deadline is this many milliseconds away.
    WaitUntil(u64),
}

/// How driving a phase begins.
#[derive(Clone, Copy, Debug, PartialEq, Eq, Structural)]
pub enum DriveStart {
    /// The phase is over: nothing to poll and nothing to send.
    Inactive,
    /// The phase ran out of time now; send what it queued.
    Expired,
    /// Poll the phase's agents; this many milliseconds of the phase are left.
    Poll(u64),
}

/// The STUN transactions among the first `n` whose poll says they still wait,
/// in order.
pub open spec fn kept_after_polls(ids: Seq<u64>, polls: Seq<AgentPoll>, n: int) -> Seq<u64>
    decreases n,
{
    if n <= 0 {
        Seq::empty()
    } else {
        let prev = kept_after_polls(ids, polls, n - 1);
        match polls[n - 1] {
            AgentPoll::WaitUntil(_) => prev.push(ids[n - 1]),
            AgentPoll::Finished => prev,
        }
    }
}

/// The phase's wait after the first `n` polls: what is left of the phase, or
/// the earliest deadline of a waiting transaction (never below the shortest
/// wait) when that is sooner.
pub open spec fn poll_wait(polls: Seq<AgentPoll>, n: int, remaining: u64) -> u64
    decreases n,
{
    if n <= 0 {
        remaining
    } else {
        let prev = poll_wait(polls, n - 1, remaining);
        match polls[n - 1] {
            AgentPoll::WaitUntil(d) => if at_least_min(d) < prev {
                at_least_min(d)
            } else {
                prev
            },
            AgentPoll::Finished => prev,
        }
    }
}

/// Whether the STUN phase, once its transactions are all settled after
/// `successes` bindings, completed.
pub open spec fn stun_settled_complete(successes: int) -> bool {
    successes > 0
}

/// The failure of the STUN phase once its transactions are all settled after
/// `successes` bindings.
pub open spec fn stun_settled_failure(successes: int) -> Option<GatherFailure> {
    if successes > 0 {
        None
    } else {
        Some(GatherFailure::NoStunBindings)
    }
}

/// The STUN phase: the transactions that still wait for a response (by id),
/// how many bindings succeeded, and whether the phase completed or failed.
pub struct StunPhase {
    pending: Vec<u64>,
    successes: usize,
    completed: bool,
    failure: Option<GatherFailure>,
}

impl StunPhase {
    /// The transactions that still wait, in order.
    pub closed spec fn pending_spec(&self) -> Seq<u64> {
        self.pending@
    }

    /// How many bindings succeeded.
    pub closed spec fn successes_spec(&self) -> nat {
        self.successes as nat
    }

    /// Whether the phase completed.
    pub closed spec fn completed_spec(&self) -> bool {
        self.completed
    }

    /// Why the phase failed, if it did.
    pub closed spec fn failure_spec(&self) -> Option<GatherFailure> {
        self.failure
    }

    /// The phase still runs: it neither completed nor failed.
    pub open spec fn active(&self) -> bool {
        !self.completed_spec() && self.failure_spec() is None
    }

    /// The phase's invariant: it does not both complete and fail, completes
    /// only after a binding, and has nothing pending once it failed.
    pub closed spec fn wf(&self) -> bool {
        &&& !(self.completed && self.failure is Some)
        &&& self.completed ==> self.successes > 0
        &&& self.failure is Some ==> self.pending@.len() == 0
        &&& self.successes + self.pending@.len() <= usize::MAX
    }

    /// Starts the phase with the transactions whose binding requests were
    /// sent: it fails at once when the configuration names no STUN server or
    /// no request could be sent.
    pub fn start(url_count: usize, started: Vec<u64>) -> (r: Result<StunPhase, GatherFailure>)
        ensures
            url_count == 0 ==> r == Err::<StunPhase, GatherFailure>(GatherFailure::NoStunUrls),
            url_count > 0 && started@.len() == 0 ==> r == Err::<StunPhase, GatherFailure>(
                GatherFailure::NoStunRequests,
            ),
            url_count > 0 && started@.len() > 0 ==> (r matches Ok(p) && p.wf() && p.pending_spec()
                == started@ && p.successes_spec() == 0 && p.active()),
    {
        if url_count == 0 {
            return Err(GatherFailure::NoStunUrls);
        }
        if started.len() == 0 {
            return Err(GatherFailure::NoStunRequests);
        }
        Ok(StunPhase { pending: started, successes: 0, completed: false, failure: None })
    }

    /// Whether the phase completed.
    pub fn is_complete(&self) -> (r: bool)
        ensures
            r == self.completed_spec(),
    {
        self.completed
    }

    /// Why the phase failed, if it did.
    pub fn failure(&self) -> (r: Option<GatherFailure>)
        ensures
            r == self.failure_spec(),
    {
        self.failure
    }

    /// The transactions that still wait, in order.
    pub fn pending_ids(&self) -> (r: Vec<u64>)
        ensures
            r@ == self.pending_spec(),
    {
        self.pending.clone()
    }

    fn settle(&mut self)
        requires
            old(self).wf(),
            old(self).active(),
        ensures
            final(self).wf(),
            final(self).successes == old(self).successes,
            final(self).completed == stun_settled_complete(old(self).successes as int),
            final(self).failure == stun_settled_failure(old(self).successes as int),
            final(self).pending@ == (if old(self).successes > 0 {
                old(self).pending@
            } else {
                Seq::<u64>::empty()
            }),
    {
        if self.successes > 0 {
            self.completed = true;
        } else {
            self.failure = Some(GatherFailure::NoStunBindings);
            self.pending.clear();
        }
    }

    /// Begins a round of driving the phase `elapsed_ms` milliseconds after it
    /// started. Once the phase is over nothing happens. When its time is up it
    /// settles: completed if a binding succeeded, failed otherwise. Else the
    /// transactions are to be polled.
    pub fn begin_drive(&mut self, elapsed_ms: u64) -> (r: DriveStart)
        requires
            old(self).wf(),
        ensures
            final(self).wf(),
            final(self).successes_spec() == old(self).successes_spec(),
            !old(self).active() ==> r == DriveStart::Inactive && final(self).pending_spec() == old(self).pending_spec()
                && final(self).completed_spec() == old(self).completed_spec()
                && final(self).failure_spec() == old(self).failure_spec(),
            old(self).active() && elapsed_ms >= STUN_TIMEOUT_MS ==> r == DriveStart::Expired
                && final(self).completed_spec() == stun_settled_complete(old(self).successes_spec() as int)
                && final(self).failure_spec() == stun_settled_failure(old(self).successes_spec() as int)
                && final(self).pending_spec() == (if old(self).successes_spec() > 0 {
                old(self).pending_spec()
            } else {
                Seq::<u64>::empty()
            }),
            old(self).active() && elapsed_ms < STUN_TIMEOUT_MS ==> r == DriveStart::Poll(
                (STUN_TIMEOUT_MS - elapsed_ms) as u64,
            ) && final(self).pending_spec() == old(self).pending_spec() && final(self).active(),
    {
        if self.completed || self.failure.is_some() {
            return DriveStart::Inactive;
        }
        if elapsed_ms >= STUN_TIMEOUT_MS {
            self.settle();
            return DriveStart::Expired;
        }
        DriveStart::Poll(STUN_TIMEOUT_MS - elapsed_ms)
    }

    /// Ends a round of driving with what polling each pending transaction
    /// gave: those that timed out are dropped. When none is left the phase
    /// settles and asks for no wait; otherwise it asks to wait until the
    /// earliest deadline, or the end of the phase if that is sooner.
    pub fn after_polls(&mut self, remaining: u64, polls: &Vec<AgentPoll>) -> (wait: Option<u64>)
        requires
            old(self).wf(),
            old(self).active(),
            polls@.len() == old(self).pending_spec().len(),
        ensures
            final(self).wf(),
            final(self).successes_spec() == old(self).successes_spec(),
            kept_after_polls(old(self).pending_spec(), polls@, polls@.len() as int).len() > 0 ==> {
                &&& final(self).pending_spec() == kept_after_polls(old(self).pending_spec(), polls@, polls@.len() as int)
                &&& final(self).active()
                &&& wait == Some(poll_wait(polls@, polls@.len() as int, remaining))
            },
            kept_after_polls(old(self).pending_spec(), polls@, polls@.len() as int).len() == 0 ==> {
                &&& wait is None
                &&& final(self).pending_spec().len() == 0
                &&& final(self).completed_spec() == stun_settled_complete(old(self).successes_spec() as int)
                &&& final(self).failure_spec() == stun_settled_failure(old(self).successes_spec() as int)
            },
    {
        let ghost ids = self.pending@;
        let mut kept: Vec<u64> = Vec::new();
        let mut next_wait = remaining;
        let mut i: usize = 0;
        while i < polls.len()
            invariant
                i <= polls@.len(),
                polls@.len() == ids.len(),
                self.pending@ == ids,
                kept@ == kept_after_polls(ids, polls@, i as int),
                next_wait == poll_wait(polls@, i as int, remaining),
                kept@.len() <= i,
            decreases polls@.len() - i,
        {
            match polls[i] {
                AgentPoll::WaitUntil(d) => {
                    let w = if d < TURN_MIN_RECV_TIMEOUT_MS {
                        TURN_MIN_RECV_TIMEOUT_MS
                    } else {
                        d
                    };
                    if w < next_wait {
                        next_wait = w;
                    }
                    kept.push(self.pending[i]);
                },
                AgentPoll::Finished => {},
            }
            i += 1;
        }
        self.pending = kept;
        if self.pending.len() == 0 {
            self.settle();
            return None;
        }
        Some(next_wait)
    }

    /// Whether the phase still takes packets.
    pub fn takes_packets(&self) -> (r: bool)
        ensures
            r == self.active(),
    {
        !self.completed && self.failure.is_none()
    }

    /// The transaction at position `pos` among the pending ones matched a
    /// response; `made_candidate` says whether it gave a server-reflexive
    /// candidate. The transaction is done (the last pending one takes its
    /// place), a candidate counts as a binding, and the phase settles when no
    /// transaction is left.
    pub fn on_response(&mut self, pos: usize, made_candidate: bool)
        requires
            old(self).wf(),
            old(self).active(),
            pos < old(self).pending_spec().len(),
        ensures
            final(self).wf(),
            final(self).successes_spec() == old(self).successes_spec() + (if made_candidate {
                1nat
            } else {
                0nat
            }),
            old(self).pending_spec().len() > 1 ==> final(self).pending_spec() == old(self).pending_spec().update(
                pos as int,
                old(self).pending_spec().last(),
            ).drop_last() && final(self).active(),
            old(self).pending_spec().len() == 1 ==> {
                &&& final(self).pending_spec().len() == 0
                &&& final(self).completed_spec() == stun_settled_complete(final(self).successes_spec() as int)
                &&& final(self).failure_spec() == stun_settled_failure(final(self).successes_spec() as int)
            },
    {
        self.pending.swap_remove(pos);
        if made_candidate {
            self.successes = self.successes + 1;
        }
        if self.pending.len() == 0 {
            self.settle();
        }
    }
}

/// What polling a TURN client gave.
#[derive(Clone, Copy, Debug, PartialEq, Eq, Structural)]
pub enum TurnPoll {
    /// It waits; its next deadline is this many milliseconds away.
    WaitUntil(u64),
    /// The client closed.
    Closed,
    /// A TCP request, which a UDP client does not make.
    Other,
}

/// An event a TURN client reports.
#[derive(Clone, Copy, Debug, PartialEq, Eq, Structural)]
pub enum TurnEventKind {
    /// The allocation was created, relaying at this address.
    AllocationCreated(SocketAddress),
    /// Anything else.
    Other,
}

/// What a TURN client made of a received packet.
#[derive(Clone, Copy, Debug, PartialEq, Eq, Structural)]
pub enum TurnRecv {
    /// Not for this client.
    Ignored,
    /// A TURN message it handled.
    Handled,
    /// Data from a peer.
    PeerData,
    /// An ICMP error for a peer.
    PeerIcmp,
}

/// Whether a TURN client took a packet.
pub open spec fn recv_taken(recv: TurnRecv) -> bool {
    recv != TurnRecv::Ignored
}

/// Whether a TURN client took a packet: all but ignored ones count.
pub fn recv_handled(recv: TurnRecv) -> (r: bool)
    ensures
        r == recv_taken(recv),
{
    match recv {
        TurnRecv::Ignored => false,
        _ => true,
    }
}

/// Where a TURN allocation stands.
#[derive(Clone, Copy, Debug, PartialEq, Eq, Structural)]
pub enum AttemptState {
    Pending,
    Succeeded,
    /// The client closed before the allocation was created.
    Failed,
}

/// One TURN allocation attempt, identified by `id`, and the relayed address
/// once it has one.
#[derive(Clone, Copy, Debug, PartialEq, Eq, Structural)]
pub struct TurnAttempt {
    pub id: u64,
    pub state: AttemptState,
    pub relay_addr: Option<SocketAddress>,
}

/// An attempt after the first `n` of `events`: each allocation created makes
/// it succeed with that relayed address.
pub open spec fn apply_events_spec(a: TurnAttempt, events: Seq<TurnEventKind>, n: int) -> TurnAttempt
    decreases n,
{
    if n <= 0 {
        a
    } else {
        let prev = apply_events_spec(a, events, n - 1);
        match events[n - 1] {
            TurnEventKind::AllocationCreated(relayed) => TurnAttempt {
                id: prev.id,
                state: AttemptState::Succeeded,
                relay_addr: Some(relayed),
            },
            TurnEventKind::Other => prev,
        }
    }
}

/// A pending attempt after its client was polled with result `poll` and then
/// reported `events`; an attempt that is no longer pending is left alone.
pub open spec fn attempt_drive_spec(a: TurnAttempt, poll: TurnPoll, events: Seq<TurnEventKind>) -> TurnAttempt {
    if a.state != AttemptState::Pending {
        a
    } else {
        let polled = match poll {
            TurnPoll::Closed => TurnAttempt { id: a.id, state: AttemptState::Failed, relay_addr: a.relay_addr },
            _ => a,
        };
        apply_events_spec(polled, events, events.len() as int)
    }
}

/// The wait an attempt asks for after being driven with `remaining`
/// milliseconds of the phase left: none unless it is still pending; then its
/// client's deadline (never below the shortest wait) when that is sooner than
/// the end of the phase, else the end of the phase.
pub open spec fn attempt_wait_spec(after: TurnAttempt, poll: TurnPoll, remaining: u64) -> Option<u64> {
    if after.state != AttemptState::Pending {
        None
    } else {
        match poll {
            TurnPoll::WaitUntil(d) => Some(if at_least_min(d) < remaining {
                at_least_min(d)
            } else {
                remaining
            }),
            _ => Some(at_least_min(remaining)),
        }
    }
}

/// An attempt that succeeded has its relayed address.
pub open spec fn attempt_wf(a: TurnAttempt) -> bool {
    a.state == AttemptState::Succeeded ==> a.relay_addr is Some
}

pub(crate) proof fn lemma_apply_events_keeps(a: TurnAttempt, events: Seq<TurnEventKind>, n: int)
    requires
        attempt_wf(a),
    ensures
        attempt_wf(apply_events_spec(a, events, n)),
        apply_events_spec(a, events, n).id == a.id,
        a.state == AttemptState::Succeeded ==> apply_events_spec(a, events, n).state == AttemptState::Succeeded,
        a.state == AttemptState::Failed && apply_events_spec(a, events, n).state != AttemptState::Failed
            ==> apply_events_spec(a, events, n).state == AttemptState::Succeeded,
        a.state == AttemptState::Pending ==> apply_events_spec(a, events, n).state != AttemptState::Failed,
    decreases n,
{
    if n > 0 {
        lemma_apply_events_keeps(a, events, n - 1);
    }
}

impl TurnAttempt {
    /// A fresh attempt.
    pub fn new(id: u64) -> (r: Self)
        ensures
            r.id == id,
            r.state == AttemptState::Pending,
            r.relay_addr is None,
    {
        TurnAttempt { id, state: AttemptState::Pending, relay_addr: None }
    }

    /// Whether the allocation is still pending.
    pub fn is_pending(&self) -> (r: bool)
        ensures
            r == (self.state == AttemptState::Pending),
    {
        match self.state {
            AttemptState::Pending => true,
            _ => false,
        }
    }

    /// Whether the allocation succeeded.
    pub fn is_succeeded(&self) -> (r: bool)
        ensures
            r == (self.state == AttemptState::Succeeded),
    {
        match self.state {
            AttemptState::Succeeded => true,
            _ => false,
        }
    }

    /// The reason the attempt failed, if it did.
    pub fn failure_reason(&self) -> (r: Option<&'static str>)
        ensures
            self.state == AttemptState::Failed ==> (r matches Some(t) && t@ == "TURN client closed during allocation"@),
            self.state != AttemptState::Failed ==> r is None,
    {
        match self.state {
            AttemptState::Failed => Some("TURN client closed during allocation"),
            _ => None,
        }
    }

    /// The relayed address of a successful attempt.
    pub fn into_relay_info(&self) -> (r: Option<SocketAddress>)
        ensures
            r == (if self.state == AttemptState::Succeeded {
                self.relay_addr
            } else {
                None
            }),
    {
        match self.state {
            AttemptState::Succeeded => self.relay_addr,
            _ => None,
        }
    }

    /// Takes in the events the client reported: each allocation created
    /// makes the attempt succeed with that relayed address.
    pub fn apply_events(&mut self, events: &Vec<TurnEventKind>)
        ensures
            *final(self) == apply_events_spec(*old(self), events@, events@.len() as int),
    {
        let mut i: usize = 0;
        while i < events.len()
            invariant
                i <= events@.len(),
                *self == apply_events_spec(*old(self), events@, i as int),
            decreases events@.len() - i,
        {
            match events[i] {
                TurnEventKind::AllocationCreated(relayed) => {
                    self.relay_addr = Some(relayed);
                    self.state = AttemptState::Succeeded;
                },
                TurnEventKind::Other => {},
            }
            i += 1;
        }
    }

    /// Drives a pending attempt with `remaining` milliseconds of the phase
    /// left: its client was polled with result `poll` and then reported
    /// `events`. A closed client fails the attempt (unless an event then
    /// reports the allocation). The answer is the wait it asks for.
    pub fn drive(&mut self, remaining: u64, poll: TurnPoll, events: &Vec<TurnEventKind>) -> (wait: Option<u64>)
        ensures
            *final(self) == attempt_drive_spec(*old(self), poll, events@),
            wait == (if old(self).state == AttemptState::Pending {
                attempt_wait_spec(*final(self), poll, remaining)
            } else {
                None
            }),
    {
        if !self.is_pending() {
            return None;
        }
        let mut next_wait = remaining;
        let mut saw_wait = false;
        match poll {
            TurnPoll::WaitUntil(d) => {
                let w = if d < TURN_MIN_RECV_TIMEOUT_MS {
                    TURN_MIN_RECV_TIMEOUT_MS
                } else {
                    d
                };
                next_wait = if w < remaining {
                    w
                } else {
                    remaining
                };
                saw_wait = true;
            },
            TurnPoll::Closed => {
                self.state = AttemptState::Failed;
            },
            TurnPoll::Other => {},
        }
        self.apply_events(events);
        if self.is_pending() {
            Some(
                if saw_wait {
                    next_wait
                } else if remaining < TURN_MIN_RECV_TIMEOUT_MS {
                    TURN_MIN_RECV_TIMEOUT_MS
                } else {
                    remaining
                },
            )
        } else {
            None
        }
    }

    /// A packet was offered to a pending attempt's client, which answered
    /// `recv`; when it took the packet, the events it then reported are
    /// `events`. The answer says whether it took the packet.
    pub fn on_packet(&mut self, recv: TurnRecv, events: &Vec<TurnEventKind>) -> (handled: bool)
        ensures
            handled == (old(self).state == AttemptState::Pending && recv_taken(recv)),
            handled ==> *final(self) == apply_events_spec(*old(self), events@, events@.len() as int),
            !handled ==> *final(self) == *old(self),
    {
        if !self.is_pending() {
            return false;
        }
        let handled = recv_handled(recv);
        if handled {
            self.apply_events(events);
        }
        handled
    }
}

} // verus!
