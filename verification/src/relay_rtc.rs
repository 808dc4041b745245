//! The bookkeeping of one relay leg: a sliding-window byte meter, the events a
//! leg waits for before it counts as connected, the grace period of an ICE
//! disconnect, and which upload limit applies to a given queue depth.

use vstd::prelude::*;

use std::collections::VecDeque;

verus! {

#[verifier::external_type_specification]
#[verifier::external_body]
pub struct ExInstant(std::time::Instant);

/// `Instant::now()`: the current instant of the monotonic clock.
#[verifier::external_body]
fn instant_now() -> std::time::Instant {
    std::time::Instant::now()
}

/// Whole milliseconds from `origin` to now (`Instant::elapsed`, then
/// `Duration::as_millis`). Nothing is stated of the value: it comes from the
/// clock.
#[verifier::external_body]
fn millis_since(origin: &std::time::Instant) -> u64 {
    origin.elapsed().as_millis() as u64
}

/// The sum of the byte counts of `samples`.
pub open spec fn sum_bytes(samples: Seq<(u64, u64)>) -> int
    decreases samples.len(),
{
    if samples.len() == 0 {
        0
    } else {
        sum_bytes(samples.drop_last()) + samples.last().1
    }
}

/// How many samples at the front of `samples` are older than `cutoff`.
pub open spec fn expired_prefix(samples: Seq<(u64, u64)>, cutoff: u64) -> int
    decreases samples.len(),
{
    if samples.len() == 0 || samples[0].0 >= cutoff {
        0
    } else {
        1 + expired_prefix(samples.drop_first(), cutoff)
    }
}

/// The start of the window that ends at `now`; nothing lies before time 0.
pub open spec fn window_start(now: u64, window: u64) -> u64 {
    if now >= window {
        (now - window) as u64
    } else {
        0
    }
}

/// `samples` without the run of samples at its front that are older than the
/// window ending at `now`.
pub open spec fn pruned(samples: Seq<(u64, u64)>, now: u64, window: u64) -> Seq<(u64, u64)> {
    samples.skip(expired_prefix(samples, window_start(now, window)))
}

proof fn lemma_sum_bytes_push(s: Seq<(u64, u64)>, x: (u64, u64))
    ensures
        sum_bytes(s.push(x)) == sum_bytes(s) + x.1,
{
    assert(s.push(x).drop_last() =~= s);
}

proof fn lemma_sum_bytes_drop_first(s: Seq<(u64, u64)>)
    requires
        s.len() > 0,
    ensures
        sum_bytes(s) == s[0].1 + sum_bytes(s.drop_first()),
    decreases s.len(),
{
    if s.len() == 1 {
        assert(sum_bytes(s.drop_last()) == 0);
        assert(sum_bytes(s.drop_first()) == 0);
        assert(s.last() == s[0]);
    } else {
        let t = s.drop_last();
        lemma_sum_bytes_drop_first(t);
        assert(t.drop_first() =~= s.drop_first().drop_last());
        assert(s.drop_first().last() == s.last());
        assert(t[0] == s[0]);
        assert(sum_bytes(s) == sum_bytes(t) + s.last().1);
        assert(sum_bytes(s.drop_first()) == sum_bytes(s.drop_first().drop_last()) + s.drop_first().last().1);
    }
}

proof fn lemma_sum_bytes_nonneg(s: Seq<(u64, u64)>)
    ensures
        sum_bytes(s) >= 0,
    decreases s.len(),
{
    if s.len() > 0 {
        lemma_sum_bytes_nonneg(s.drop_last());
    }
}

/// Whether the samples of `s` are in the order of their times.
pub open spec fn time_ordered(s: Seq<(u64, u64)>) -> bool {
    forall|i: int, j: int| 0 <= i <= j < s.len() ==> #[trigger] s[i].0 <= #[trigger] s[j].0
}

proof fn lemma_expired_prefix_stops(s: Seq<(u64, u64)>, cutoff: u64)
    ensures
        0 <= expired_prefix(s, cutoff) <= s.len(),
        expired_prefix(s, cutoff) < s.len() ==> s[expired_prefix(s, cutoff)].0 >= cutoff,
    decreases s.len(),
{
    if s.len() > 0 && s[0].0 < cutoff {
        lemma_expired_prefix_stops(s.drop_first(), cutoff);
        let k = expired_prefix(s.drop_first(), cutoff);
        if k < s.drop_first().len() {
            assert(s[k + 1] == s.drop_first()[k]);
        }
    }
}

/// Recording a sample taken no earlier than the last one keeps the samples in
/// the order of their times, makes it the newest, and leaves no sample older
/// than the window ending at its time.
pub proof fn lemma_record_keeps_order(s: Seq<(u64, u64)>, now: u64, window: u64, bytes: u64)
    requires
        time_ordered(s),
        s.len() > 0 ==> s.last().0 <= now,
    ensures
        time_ordered(pruned(s, now, window).push((now, bytes))),
        pruned(s, now, window).push((now, bytes)).last() == (now, bytes),
        forall|i: int|
            0 <= i < pruned(s, now, window).push((now, bytes)).len() ==> #[trigger] pruned(
                s,
                now,
                window,
            ).push((now, bytes))[i].0 >= window_start(now, window),
{
    let cutoff = window_start(now, window);
    lemma_expired_prefix_stops(s, cutoff);
    let k = expired_prefix(s, cutoff);
    let p = pruned(s, now, window);
    let r = p.push((now, bytes));
    assert(p =~= s.skip(k));
    assert forall|i: int| 0 <= i < p.len() implies #[trigger] p[i].0 >= cutoff && p[i].0 <= now by {
        assert(p[i] == s[k + i]);
        assert(s[k].0 <= s[k + i].0);
        assert(s[k + i].0 <= s[s.len() - 1].0);
    }
    assert forall|i: int, j: int| 0 <= i <= j < r.len() implies #[trigger] r[i].0 <= #[trigger] r[j].0 by {
        if j < p.len() {
            assert(p[i] == s[k + i] && p[j] == s[k + j]);
        } else if i < p.len() {
            assert(p[i].0 <= now);
        }
    }
    assert forall|i: int| 0 <= i < r.len() implies #[trigger] r[i].0 >= cutoff by {
        if i < p.len() {
            assert(p[i].0 >= cutoff);
        }
    }
}

/// The bytes that passed in a sliding window: each sample is the time it was
/// taken (milliseconds on the meter's clock) and a byte count.
pub struct SpeedMeter {
    origin: std::time::Instant,
    window_ms: u64,
    samples: VecDeque<(u64, u64)>,
    total: u64,
}

impl SpeedMeter {
    /// The meter's invariant: `total` is the sum of the samples.
    pub closed spec fn wf(&self) -> bool {
        self.total == sum_bytes(self.samples@)
    }

    /// The samples in the window, oldest first.
    pub closed spec fn samples_spec(&self) -> Seq<(u64, u64)> {
        self.samples@
    }

    /// The width of the window, in milliseconds.
    pub closed spec fn window_spec(&self) -> u64 {
        self.window_ms
    }

    /// A meter over a window of `window_ms` milliseconds, with nothing
    /// recorded.
    pub fn new(window_ms: u64) -> (r: Self)
        ensures
            r.wf(),
            r.samples_spec() == Seq::<(u64, u64)>::empty(),
            r.window_spec() == window_ms,
    {
        SpeedMeter { origin: instant_now(), window_ms, samples: VecDeque::new(), total: 0 }
    }

    /// The bytes recorded in the window.
    pub fn total(&self) -> (r: u64)
        requires
            self.wf(),
        ensures
            r == sum_bytes(self.samples_spec()),
    {
        self.total
    }

    /// Drops the samples at the front that are older than the window ending
    /// at `now`.
    pub fn prune_at(&mut self, now: u64)
        requires
            old(self).wf(),
        ensures
            final(self).wf(),
            final(self).window_spec() == old(self).window_spec(),
            final(self).samples_spec() == pruned(old(self).samples_spec(), now, old(self).window_spec()),
    {
        let cutoff = if now >= self.window_ms {
            now - self.window_ms
        } else {
            0
        };
        let ghost start = self.samples@;
        let ghost k = expired_prefix(start, cutoff);
        let ghost mut dropped: int = 0;
        while self.samples.len() > 0 && self.samples[0].0 < cutoff
            invariant
                self.total == sum_bytes(self.samples@),
                self.window_ms == old(self).window_ms,
                start == old(self).samples@,
                cutoff == window_start(now, old(self).window_ms),
                0 <= dropped <= start.len(),
                self.samples@ == start.skip(dropped),
                expired_prefix(start, cutoff) == dropped + expired_prefix(self.samples@, cutoff),
            decreases self.samples@.len(),
        {
            let ghost before = self.samples@;
            proof {
                lemma_sum_bytes_drop_first(before);
                lemma_sum_bytes_nonneg(before.drop_first());
            }
            let front = self.samples.pop_front();
            match front {
                Some((_, b)) => {
                    self.total = if self.total >= b {
                        self.total - b
                    } else {
                        0
                    };
                },
                None => {},
            }
            assert(self.samples@ =~= before.drop_first());
            assert(start.skip(dropped + 1) =~= before.drop_first());
            proof {
                dropped = dropped + 1;
            }
        }
        assert(expired_prefix(self.samples@, cutoff) == 0);
    }

    /// Records `bytes` at time `now`, after dropping the samples that fell out
    /// of the window ending at `now`.
    pub fn record_at(&mut self, now: u64, bytes: u64)
        requires
            old(self).wf(),
            sum_bytes(pruned(old(self).samples_spec(), now, old(self).window_spec())) + bytes
                <= u64::MAX,
        ensures
            final(self).wf(),
            final(self).window_spec() == old(self).window_spec(),
            final(self).samples_spec() == pruned(old(self).samples_spec(), now, old(self).window_spec()).push(
                (now, bytes),
            ),
    {
        self.prune_at(now);
        proof {
            lemma_sum_bytes_push(self.samples@, (now, bytes));
        }
        self.samples.push_back((now, bytes));
        self.total = self.total + bytes;
    }

    /// Records `bytes` now: at the time the meter's clock reads, or at the
    /// time of the newest sample where that is later (the clock is
    /// monotonic, so it never is; this keeps the samples in time order).
    pub fn record(&mut self, bytes: u64)
        requires
            old(self).wf(),
            sum_bytes(old(self).samples_spec()) + bytes <= u64::MAX,
        ensures
            final(self).wf(),
            final(self).window_spec() == old(self).window_spec(),
            exists|now: u64|
                {
                    &&& final(self).samples_spec() == #[trigger] pruned(
                        old(self).samples_spec(),
                        now,
                        old(self).window_spec(),
                    ).push((now, bytes))
                    &&& old(self).samples_spec().len() > 0 ==> old(self).samples_spec().last().0 <= now
                    &&& time_ordered(old(self).samples_spec()) ==> time_ordered(final(self).samples_spec())
                        && forall|i: int|
                        0 <= i < final(self).samples_spec().len() ==> #[trigger] final(self).samples_spec()[i].0
                            >= window_start(now, old(self).window_spec())
                },
    {
        let clock = millis_since(&self.origin);
        let n = self.samples.len();
        let now = if n > 0 && self.samples[n - 1].0 > clock {
            self.samples[n - 1].0
        } else {
            clock
        };
        let ghost before = self.samples@;
        proof {
            lemma_pruned_sum_le(self.samples@, now, self.window_ms);
            if time_ordered(before) {
                lemma_record_keeps_order(before, now, self.window_ms, bytes);
            }
        }
        self.record_at(now, bytes);
    }

    /// The bytes recorded in the window that ends now.
    pub fn total_now(&mut self) -> (r: u64)
        requires
            old(self).wf(),
        ensures
            final(self).wf(),
            final(self).window_spec() == old(self).window_spec(),
            r == sum_bytes(final(self).samples_spec()),
            exists|now: u64|
                final(self).samples_spec() == #[trigger] pruned(
                    old(self).samples_spec(),
                    now,
                    old(self).window_spec(),
                ),
    {
        let now = millis_since(&self.origin);
        self.prune_at(now);
        self.total
    }
}

proof fn lemma_expired_prefix_bounds(s: Seq<(u64, u64)>, cutoff: u64)
    ensures
        0 <= expired_prefix(s, cutoff) <= s.len(),
    decreases s.len(),
{
    if s.len() > 0 && s[0].0 < cutoff {
        lemma_expired_prefix_bounds(s.drop_first(), cutoff);
    }
}

proof fn lemma_skip_sum_le(s: Seq<(u64, u64)>, k: int)
    requires
        0 <= k <= s.len(),
    ensures
        sum_bytes(s.skip(k)) <= sum_bytes(s),
    decreases k,
{
    if k > 0 {
        lemma_sum_bytes_drop_first(s);
        lemma_skip_sum_le(s.drop_first(), k - 1);
        assert(s.drop_first().skip(k - 1) =~= s.skip(k));
        assert(s[0].1 >= 0);
    } else {
        assert(s.skip(0) =~= s);
    }
}

/// Dropping old samples never raises the total.
pub proof fn lemma_pruned_sum_le(s: Seq<(u64, u64)>, now: u64, window: u64)
    ensures
        sum_bytes(pruned(s, now, window)) <= sum_bytes(s),
{
    lemma_expired_prefix_bounds(s, window_start(now, window));
    lemma_skip_sum_le(s, expired_prefix(s, window_start(now, window)));
}

/// An event that a leg waits for before it counts as connected.
#[derive(Clone, Copy, Debug, PartialEq, Eq, Structural)]
pub enum PendingEvent {
    /// The peer connection came up.
    Connected,
    /// The data channel with this id opened.
    ChannelOpen(u64),
}

/// An event a leg reports.
#[derive(Clone, Copy, Debug, PartialEq, Eq)]
pub enum LegEvent {
    Connected,
    ChannelOpen(u64),
    Other,
}

/// What a leg waits for before it counts as connected: that the connection
/// comes up, and that each of its data channels opens.
pub struct ConnectTracker {
    pending: Vec<PendingEvent>,
    connected: bool,
}

/// The pending event an event settles, if any.
pub open spec fn settles(e: LegEvent) -> Option<PendingEvent> {
    match e {
        LegEvent::Connected => Some(PendingEvent::Connected),
        LegEvent::ChannelOpen(id) => Some(PendingEvent::ChannelOpen(id)),
        LegEvent::Other => None,
    }
}

/// `pending` without the event that `e` settles.
pub open spec fn after_event(pending: Seq<PendingEvent>, e: LegEvent) -> Seq<PendingEvent> {
    match settles(e) {
        Some(p) => pending.filter(|q: PendingEvent| q != p),
        None => pending,
    }
}

/// What a leg with data channels `ids` waits for at first.
pub open spec fn initial_pending(ids: Seq<u64>) -> Seq<PendingEvent> {
    seq![PendingEvent::Connected] + ids.map_values(|id: u64| PendingEvent::ChannelOpen(id))
}

impl ConnectTracker {
    /// The events still awaited.
    pub closed spec fn pending_spec(&self) -> Seq<PendingEvent> {
        self.pending@
    }

    /// Whether the leg counts as connected.
    pub closed spec fn connected_spec(&self) -> bool {
        self.connected
    }

    /// A leg with the data channels `ids` that has seen nothing yet.
    pub fn new(ids: &Vec<u64>) -> (r: Self)
        ensures
            r.pending_spec() == initial_pending(ids@),
            !r.connected_spec(),
    {
        let mut pending: Vec<PendingEvent> = Vec::new();
        pending.push(PendingEvent::Connected);
        let mut i: usize = 0;
        while i < ids.len()
            invariant
                i <= ids@.len(),
                pending@ == initial_pending(ids@.take(i as int)),
            decreases ids@.len() - i,
        {
            pending.push(PendingEvent::ChannelOpen(ids[i]));
            proof {
                assert(ids@.take(i as int + 1) =~= ids@.take(i as int).push(ids@[i as int]));
                assert(ids@.take(i as int + 1).map_values(|id: u64| PendingEvent::ChannelOpen(id))
                    =~= ids@.take(i as int).map_values(|id: u64| PendingEvent::ChannelOpen(id)).push(
                    PendingEvent::ChannelOpen(ids@[i as int]),
                ));
            }
            i += 1;
        }
        assert(ids@.take(ids@.len() as int) =~= ids@);
        ConnectTracker { pending, connected: false }
    }

    /// Whether the leg counts as connected.
    pub fn is_connected(&self) -> (r: bool)
        ensures
            r == self.connected_spec(),
    {
        self.connected
    }

    /// The leg reported `e`: the event it settles is no longer awaited, and
    /// the leg counts as connected from the moment nothing is.
    pub fn on_event(&mut self, e: LegEvent)
        ensures
            final(self).pending_spec() == after_event(old(self).pending_spec(), e),
            final(self).connected_spec() == (old(self).connected_spec()
                || final(self).pending_spec().len() == 0),
    {
        let target = match e {
            LegEvent::Connected => Some(PendingEvent::Connected),
            LegEvent::ChannelOpen(id) => Some(PendingEvent::ChannelOpen(id)),
            LegEvent::Other => None,
        };
        if let Some(t) = target {
            let mut kept: Vec<PendingEvent> = Vec::new();
            let mut i: usize = 0;
            while i < self.pending.len()
                invariant
                    i <= self.pending@.len(),
                    kept@ == self.pending@.take(i as int).filter(|q: PendingEvent| q != t),
                decreases self.pending@.len() - i,
            {
                let p = self.pending[i];
                proof {
                    reveal_with_fuel(Seq::<_>::filter, 1);
                    assert(self.pending@.take(i as int + 1).drop_last() =~= self.pending@.take(
                        i as int,
                    ));
                }
                if p != t {
                    kept.push(p);
                }
                i += 1;
            }
            assert(self.pending@.take(self.pending@.len() as int) =~= self.pending@);
            self.pending = kept;
        }
        if !self.connected && self.pending.len() == 0 {
            self.connected = true;
        }
    }
}

/// How long ICE may stay disconnected before the leg is torn down, in
/// milliseconds.
pub const ICE_DISCONNECT_TIMEOUT_MS: u64 = 10_000;

/// The longest a leg waits for input while ICE is disconnected, in
/// milliseconds.
pub const DISCONNECTED_POLL_CAP_MS: u64 = 1_000;

/// The ICE connection states a leg reacts to.
#[derive(Clone, Copy, Debug, PartialEq, Eq)]
pub enum IceState {
    Disconnected,
    Connected,
    Completed,
    Other,
}

/// When ICE last went from connected to disconnected, as long as it has not
/// recovered.
pub struct IceDisconnectTimer {
    pub since: Option<u64>,
}

impl IceDisconnectTimer {
    /// ICE has not disconnected.
    pub fn new() -> (r: Self)
        ensures
            r.since is None,
    {
        IceDisconnectTimer { since: None }
    }

    /// ICE entered `state` at `now`. A disconnect starts the timer unless it
    /// runs already; a recovery stops it.
    pub fn on_state(&mut self, state: IceState, now: u64)
        ensures
            final(self).since == (match state {
                IceState::Disconnected => if old(self).since is None {
                    Some(now)
                } else {
                    old(self).since
                },
                IceState::Connected | IceState::Completed => None,
                IceState::Other => old(self).since,
            }),
    {
        match state {
            IceState::Disconnected => {
                if self.since.is_none() {
                    self.since = Some(now);
                }
            },
            IceState::Connected | IceState::Completed => {
                self.since = None;
            },
            IceState::Other => {},
        }
    }

    /// Whether the leg is to be torn down at `now`: ICE has been disconnected
    /// for the whole grace period. The timer stops when it says so.
    pub fn expire(&mut self, now: u64) -> (r: bool)
        ensures
            r == (match old(self).since {
                Some(s) => now >= s && now - s >= ICE_DISCONNECT_TIMEOUT_MS,
                None => false,
            }),
            r ==> final(self).since is None,
            !r ==> final(self).since == old(self).since,
    {
        match self.since {
            Some(s) => {
                if now >= s && now - s >= ICE_DISCONNECT_TIMEOUT_MS {
                    self.since = None;
                    true
                } else {
                    false
                }
            },
            None => false,
        }
    }

    /// How long the leg may wait for input when its next timeout is
    /// `timeout_ms` away: no more than a second while ICE is disconnected.
    pub fn cap_wait(&self, timeout_ms: u64) -> (r: u64)
        ensures
            r == (if self.since is Some && timeout_ms > DISCONNECTED_POLL_CAP_MS {
                DISCONNECTED_POLL_CAP_MS
            } else {
                timeout_ms
            }),
    {
        if self.since.is_some() && timeout_ms > DISCONNECTED_POLL_CAP_MS {
            DISCONNECTED_POLL_CAP_MS
        } else {
            timeout_ms
        }
    }
}

/// The queue depth at which uploads start to be limited, in bytes.
pub const QUEUE_SOFT_LIMIT_BYTES: usize = 5242880;

/// The queue depth from which the upload rate is measured, in bytes.
pub const QUEUE_MEASURE_START_BYTES: usize = 2621440;

/// The queue depth at which the upload rate matches the peer's download
/// rate, in bytes.
pub const QUEUE_MATCH_TARGET_BYTES: usize = 6553600;

/// The queue depth at which the upload rate is held at its minimum, in bytes.
pub const QUEUE_HARD_LIMIT_BYTES: usize = 10485760;

/// Which upload limit applies to a queue depth.
#[derive(Clone, Copy, Debug, PartialEq, Eq)]
pub enum UploadBranch {
    /// No limit, and the measured upload rate is forgotten.
    Released,
    /// No limit; the upload rate is measured.
    Measuring,
    /// Move from the measured rate towards the peer's download rate; the
    /// position is `done / span` of the way.
    MatchPeer { done: usize, span: usize },
    /// Move from the peer's download rate towards the minimum rate; the
    /// position is `done / span` of the way.
    RampToMin { done: usize, span: usize },
    /// The minimum rate.
    MinCap,
}

/// The upload limit for a queue of `queued` bytes.
pub open spec fn upload_branch_spec(queued: usize) -> UploadBranch {
    if queued < QUEUE_MEASURE_START_BYTES {
        UploadBranch::Released
    } else if queued < QUEUE_SOFT_LIMIT_BYTES {
        UploadBranch::Measuring
    } else if queued < QUEUE_MATCH_TARGET_BYTES {
        UploadBranch::MatchPeer {
            done: (queued - QUEUE_SOFT_LIMIT_BYTES) as usize,
            span: (QUEUE_MATCH_TARGET_BYTES - QUEUE_SOFT_LIMIT_BYTES) as usize,
        }
    } else if queued < QUEUE_HARD_LIMIT_BYTES {
        UploadBranch::RampToMin {
            done: (queued - QUEUE_MATCH_TARGET_BYTES) as usize,
            span: (QUEUE_HARD_LIMIT_BYTES - QUEUE_MATCH_TARGET_BYTES) as usize,
        }
    } else {
        UploadBranch::MinCap
    }
}

/// The upload limit for a queue of `queued` bytes; the two ramps report how
/// far into them the queue is, which is always less than their span.
pub fn upload_branch(queued: usize) -> (r: UploadBranch)
    ensures
        r == upload_branch_spec(queued),
        r matches UploadBranch::MatchPeer { done, span } ==> done < span,
        r matches UploadBranch::RampToMin { done, span } ==> done < span,
{
    if queued < QUEUE_MEASURE_START_BYTES {
        UploadBranch::Released
    } else if queued < QUEUE_SOFT_LIMIT_BYTES {
        UploadBranch::Measuring
    } else if queued < QUEUE_MATCH_TARGET_BYTES {
        UploadBranch::MatchPeer {
            done: queued - QUEUE_SOFT_LIMIT_BYTES,
            span: QUEUE_MATCH_TARGET_BYTES - QUEUE_SOFT_LIMIT_BYTES,
        }
    } else if queued < QUEUE_HARD_LIMIT_BYTES {
        UploadBranch::RampToMin {
            done: queued - QUEUE_MATCH_TARGET_BYTES,
            span: QUEUE_HARD_LIMIT_BYTES - QUEUE_MATCH_TARGET_BYTES,
        }
    } else {
        UploadBranch::MinCap
    }
}

/// What is reported when a limit is applied.
#[derive(Clone, Copy, Debug, PartialEq, Eq)]
pub enum LimitReport {
    /// Nothing.
    Quiet,
    /// That limiting began.
    Active,
    /// That the minimum rate is now applied.
    HardCap,
}

/// Which changes of the upload limit have been reported, so that each is
/// reported once.
pub struct UploadLimitLog {
    pub limit_active_logged: bool,
    pub hard_cap_logged: bool,
}

impl UploadLimitLog {
    /// Nothing reported.
    pub fn new() -> (r: Self)
        ensures
            !r.limit_active_logged,
            !r.hard_cap_logged,
    {
        UploadLimitLog { limit_active_logged: false, hard_cap_logged: false }
    }

    /// The limit was lifted; the answer says whether to report it, which is
    /// so only where limiting was reported.
    pub fn on_released(&mut self) -> (report: bool)
        ensures
            report == old(self).limit_active_logged,
            report ==> !final(self).limit_active_logged && !final(self).hard_cap_logged,
            !report ==> *final(self) == *old(self),
    {
        if !self.limit_active_logged {
            return false;
        }
        self.limit_active_logged = false;
        self.hard_cap_logged = false;
        true
    }

    /// A limit was applied; `min_cap` says whether it is the minimum rate.
    pub fn on_applied(&mut self, min_cap: bool) -> (report: LimitReport)
        ensures
            final(self).limit_active_logged,
            !old(self).limit_active_logged ==> report == LimitReport::Active
                && final(self).hard_cap_logged == min_cap,
            old(self).limit_active_logged && min_cap && !old(self).hard_cap_logged ==> report
                == LimitReport::HardCap && final(self).hard_cap_logged,
            old(self).limit_active_logged && !(min_cap && !old(self).hard_cap_logged) ==> report
                == LimitReport::Quiet && *final(self) == *old(self),
    {
        if !self.limit_active_logged {
            self.limit_active_logged = true;
            self.hard_cap_logged = min_cap;
            return LimitReport::Active;
        }
        if min_cap && !self.hard_cap_logged {
            self.hard_cap_logged = true;
            return LimitReport::HardCap;
        }
        LimitReport::Quiet
    }
}

} // verus!
