//! The decisions of a relay proxy session, which joins two WebRTC legs and
//! forwards the data of each to the other. The event loop that polls the legs,
//! waits on timers and sends packets drives this state machine: it reports
//! what it saw and performs the action it is given.

use vstd::prelude::*;

verus! {

/// One of the two legs of a proxied session.
#[derive(Clone, Copy, Debug, PartialEq, Eq)]
pub enum Leg {
    /// The leg of the peer that opened the session.
    First,
    /// The leg of the peer that joined it.
    Second,
}

/// The leg that is not `leg`.
pub open spec fn other_leg(leg: Leg) -> Leg {
    match leg {
        Leg::First => Leg::Second,
        Leg::Second => Leg::First,
    }
}

/// What the loop does after checking that both legs are alive.
#[derive(Clone, Copy, Debug, PartialEq, Eq)]
pub enum Liveness {
    /// Both legs are finished: the session ends.
    Stop,
    /// The first leg is gone: disconnect the second.
    DisconnectSecond,
    /// The second leg is gone: disconnect the first.
    DisconnectFirst,
    /// Nothing to do.
    Continue,
}

/// What a leg becoming fully connected means for the session.
#[derive(Clone, Copy, Debug, PartialEq, Eq)]
pub enum ConnectNews {
    /// Nothing changed.
    Unchanged,
    /// This leg is now connected; the other one is not yet.
    LegConnected,
    /// This leg is now connected, and so is the other one.
    BothConnected,
}

/// What happens to the retry timer of a direction after a send.
#[derive(Clone, Copy, Debug, PartialEq, Eq)]
pub enum RetryTimer {
    /// Leave it as it is.
    Unchanged,
    /// Fire again in three milliseconds.
    Soon,
    /// Park it: nothing waits to be retried.
    Park,
}

/// The delay of a retry after a send found the leg's buffer full, in
/// milliseconds.
pub const RETRY_DELAY_MS: u64 = 3;

/// How long the two legs have to connect, in seconds.
pub const CONNECT_TIMEOUT_SECS: u64 = 45;

/// What the loop does once it has checked which legs are alive.
/// `second_alive` is `None` while the second leg has not joined.
pub open spec fn liveness_spec(first_alive: bool, second_alive: Option<bool>) -> Liveness {
    match second_alive {
        None => if first_alive {
            Liveness::Continue
        } else {
            Liveness::Stop
        },
        Some(second) => if !first_alive && !second {
            Liveness::Stop
        } else if !first_alive {
            Liveness::DisconnectSecond
        } else if !second {
            Liveness::DisconnectFirst
        } else {
            Liveness::Continue
        },
    }
}

/// The session ends once the first leg is finished and the second has not
/// joined or is finished too; while one leg lives the other is torn down.
pub fn liveness(first_alive: bool, second_alive: Option<bool>) -> (r: Liveness)
    ensures
        r == liveness_spec(first_alive, second_alive),
{
    match second_alive {
        None => if first_alive {
            Liveness::Continue
        } else {
            Liveness::Stop
        },
        Some(second) => if !first_alive && !second {
            Liveness::Stop
        } else if !first_alive {
            Liveness::DisconnectSecond
        } else if !second {
            Liveness::DisconnectFirst
        } else {
            Liveness::Continue
        },
    }
}

/// The state of a proxied session: whether the second leg has joined, which
/// legs have connected, how many data messages are queued towards each leg,
/// and the one message per direction that waits to be sent again.
pub struct ProxyLoop<M> {
    pub second_attached: bool,
    pub first_connected: bool,
    pub second_connected: bool,
    pub both_connected: bool,
    pub depth_to_first: usize,
    pub depth_to_second: usize,
    pub pending_to_first: Option<M>,
    pub pending_to_second: Option<M>,
}

impl<M> ProxyLoop<M> {
    /// The session's invariant: it counts as connected exactly when both legs
    /// are, and a message can only wait for a leg that has connected.
    pub open spec fn wf(&self) -> bool {
        &&& self.both_connected == (self.first_connected && self.second_connected)
        &&& self.pending_to_first is Some ==> self.first_connected
        &&& self.pending_to_second is Some ==> self.second_connected
    }

    /// Whether leg `leg` has connected.
    pub open spec fn connected_spec(&self, leg: Leg) -> bool {
        match leg {
            Leg::First => self.first_connected,
            Leg::Second => self.second_connected,
        }
    }

    /// The message waiting to be sent to leg `leg`.
    pub open spec fn pending_spec(&self, leg: Leg) -> Option<M> {
        match leg {
            Leg::First => self.pending_to_first,
            Leg::Second => self.pending_to_second,
        }
    }

    /// How many data messages are queued towards leg `leg`.
    pub open spec fn depth_spec(&self, leg: Leg) -> usize {
        match leg {
            Leg::First => self.depth_to_first,
            Leg::Second => self.depth_to_second,
        }
    }

    /// Whether this session agrees with the model `st` of the direction
    /// towards leg `to` (see `direction_step`): the same message waits, and
    /// the queued count is the model's queued and waiting messages.
    pub open spec fn tracks(&self, to: Leg, st: (Seq<M>, Option<M>, Seq<M>)) -> bool {
        &&& self.pending_spec(to) == st.1
        &&& self.depth_spec(to) == st.0.len() + opt_seq(st.1).len()
    }

    /// `self` and `other` agree on everything but what concerns leg `leg`'s
    /// incoming direction.
    pub open spec fn same_but_direction(&self, other: &Self, leg: Leg) -> bool {
        &&& self.second_attached == other.second_attached
        &&& self.first_connected == other.first_connected
        &&& self.second_connected == other.second_connected
        &&& self.both_connected == other.both_connected
        &&& leg != Leg::First ==> self.depth_to_first == other.depth_to_first
            && self.pending_to_first == other.pending_to_first
        &&& leg != Leg::Second ==> self.depth_to_second == other.depth_to_second
            && self.pending_to_second == other.pending_to_second
    }

    /// A session whose second leg has not joined yet.
    pub fn new() -> (r: Self)
        ensures
            r.wf(),
            !r.second_attached,
            !r.first_connected,
            !r.second_connected,
            !r.both_connected,
            r.depth_to_first == 0,
            r.depth_to_second == 0,
            r.pending_to_first is None,
            r.pending_to_second is None,
    {
        ProxyLoop {
            second_attached: false,
            first_connected: false,
            second_connected: false,
            both_connected: false,
            depth_to_first: 0,
            depth_to_second: 0,
            pending_to_first: None,
            pending_to_second: None,
        }
    }

    /// Whether leg `leg` has connected.
    pub fn connected(&self, leg: Leg) -> (r: bool)
        ensures
            r == self.connected_spec(leg),
    {
        match leg {
            Leg::First => self.first_connected,
            Leg::Second => self.second_connected,
        }
    }

    /// The message waiting to be sent again to leg `leg`.
    pub fn pending(&self, leg: Leg) -> (r: &Option<M>)
        ensures
            *r == self.pending_spec(leg),
    {
        match leg {
            Leg::First => &self.pending_to_first,
            Leg::Second => &self.pending_to_second,
        }
    }

    /// The second leg joins the session.
    pub fn attach_second(&mut self)
        requires
            old(self).wf(),
            !old(self).second_attached,
        ensures
            final(self).wf(),
            final(self).second_attached,
            final(self).first_connected == old(self).first_connected,
            final(self).second_connected == old(self).second_connected,
            final(self).both_connected == old(self).both_connected,
            final(self).depth_to_first == old(self).depth_to_first,
            final(self).depth_to_second == old(self).depth_to_second,
            final(self).pending_to_first == old(self).pending_to_first,
            final(self).pending_to_second == old(self).pending_to_second,
    {
        self.second_attached = true;
    }

    /// Leg `leg` was polled and reports whether it is fully connected. A leg
    /// counts as connected from the first time it says so; the session counts
    /// as connected once both legs do.
    pub fn note_connected(&mut self, leg: Leg, fully_connected: bool) -> (news: ConnectNews)
        requires
            old(self).wf(),
        ensures
            final(self).wf(),
            final(self).connected_spec(leg) == (old(self).connected_spec(leg) || fully_connected),
            final(self).second_attached == old(self).second_attached,
            final(self).depth_to_first == old(self).depth_to_first,
            final(self).depth_to_second == old(self).depth_to_second,
            final(self).pending_to_first == old(self).pending_to_first,
            final(self).pending_to_second == old(self).pending_to_second,
            leg == Leg::First ==> final(self).second_connected == old(self).second_connected,
            leg == Leg::Second ==> final(self).first_connected == old(self).first_connected,
            news == (if old(self).connected_spec(leg) || !fully_connected {
                ConnectNews::Unchanged
            } else if final(self).both_connected {
                ConnectNews::BothConnected
            } else {
                ConnectNews::LegConnected
            }),
    {
        if self.connected(leg) || !fully_connected {
            return ConnectNews::Unchanged;
        }
        match leg {
            Leg::First => self.first_connected = true,
            Leg::Second => self.second_connected = true,
        }
        if self.first_connected && self.second_connected {
            self.both_connected = true;
            ConnectNews::BothConnected
        } else {
            ConnectNews::LegConnected
        }
    }

    /// A data message arrived on leg `from` and was queued towards the other
    /// leg.
    pub fn note_data(&mut self, from: Leg)
        requires
            old(self).wf(),
            from == Leg::First ==> old(self).depth_to_second < usize::MAX,
            from == Leg::Second ==> old(self).depth_to_first < usize::MAX,
        ensures
            final(self).wf(),
            from == Leg::First ==> final(self).depth_to_second == old(self).depth_to_second + 1
                && final(self).depth_to_first == old(self).depth_to_first,
            from == Leg::Second ==> final(self).depth_to_first == old(self).depth_to_first + 1
                && final(self).depth_to_second == old(self).depth_to_second,
            final(self).second_attached == old(self).second_attached,
            final(self).first_connected == old(self).first_connected,
            final(self).second_connected == old(self).second_connected,
            final(self).both_connected == old(self).both_connected,
            final(self).pending_to_first == old(self).pending_to_first,
            final(self).pending_to_second == old(self).pending_to_second,
            forall|st: (Seq<M>, Option<M>, Seq<M>), m: M, c: bool|
                old(self).tracks(other_leg(from), st) ==> #[trigger] final(self).tracks(
                    other_leg(from),
                    direction_step(st, c, DirectionEvent::Arrive(m)),
                ),
    {
        match from {
            Leg::First => self.depth_to_second = self.depth_to_second + 1,
            Leg::Second => self.depth_to_first = self.depth_to_first + 1,
        }
    }

    /// Whether the loop takes the next queued message for leg `to`: the leg
    /// has connected, is alive, and no earlier message waits for it.
    pub fn can_take(&self, to: Leg, alive: bool) -> (r: bool)
        ensures
            r == (self.connected_spec(to) && self.pending_spec(to) is None && alive),
    {
        match to {
            Leg::First => self.first_connected && self.pending_to_first.is_none() && alive,
            Leg::Second => self.second_connected && self.pending_to_second.is_none() && alive,
        }
    }

    /// Whether the retry timer of leg `to` is listened to: a message waits,
    /// and the leg has connected and is alive.
    pub fn can_retry(&self, to: Leg, alive: bool) -> (r: bool)
        ensures
            r == (self.pending_spec(to) is Some && self.connected_spec(to) && alive),
    {
        match to {
            Leg::First => self.pending_to_first.is_some() && self.first_connected && alive,
            Leg::Second => self.pending_to_second.is_some() && self.second_connected && alive,
        }
    }

    /// Whether the connect deadline still applies.
    pub fn deadline_armed(&self) -> (r: bool)
        ensures
            r == !self.both_connected,
    {
        !self.both_connected
    }

    /// A message taken from the queue of leg `to` was handed to the leg;
    /// `sent` says whether it took it. A message that was sent leaves the
    /// queue; one that was not waits to be sent again soon.
    pub fn after_send(&mut self, to: Leg, msg: M, sent: bool) -> (timer: RetryTimer)
        requires
            old(self).wf(),
            old(self).connected_spec(to),
            old(self).pending_spec(to) is None,
        ensures
            final(self).wf(),
            final(self).same_but_direction(&*old(self), to),
            sent ==> final(self).pending_spec(to) is None && final(self).depth_spec(to) == (if old(self).depth_spec(to) > 0 {
                old(self).depth_spec(to) - 1
            } else {
                0
            }) && timer == RetryTimer::Unchanged,
            !sent ==> final(self).pending_spec(to) == Some(msg) && final(self).depth_spec(to)
                == old(self).depth_spec(to) && timer == RetryTimer::Soon,
            forall|st: (Seq<M>, Option<M>, Seq<M>)|
                old(self).tracks(to, st) && st.0.len() > 0 && st.0[0] == msg ==> #[trigger] final(self).tracks(
                    to,
                    direction_step(st, true, DirectionEvent::Send { alive: true, sent }),
                ),
    {
        match to {
            Leg::First => {
                if sent {
                    if self.depth_to_first > 0 {
                        self.depth_to_first = self.depth_to_first - 1;
                    }
                    RetryTimer::Unchanged
                } else {
                    self.pending_to_first = Some(msg);
                    RetryTimer::Soon
                }
            },
            Leg::Second => {
                if sent {
                    if self.depth_to_second > 0 {
                        self.depth_to_second = self.depth_to_second - 1;
                    }
                    RetryTimer::Unchanged
                } else {
                    self.pending_to_second = Some(msg);
                    RetryTimer::Soon
                }
            },
        }
    }

    /// The waiting message of leg `to` was handed to the leg again; `sent`
    /// says whether it took it this time. Until it does, it keeps waiting.
    pub fn after_retry(&mut self, to: Leg, sent: bool) -> (timer: RetryTimer)
        requires
            old(self).wf(),
            old(self).pending_spec(to) is Some,
        ensures
            final(self).wf(),
            final(self).same_but_direction(&*old(self), to),
            sent ==> final(self).pending_spec(to) is None && final(self).depth_spec(to) == (if old(self).depth_spec(to) > 0 {
                old(self).depth_spec(to) - 1
            } else {
                0
            }) && timer == RetryTimer::Park,
            !sent ==> final(self).pending_spec(to) == old(self).pending_spec(to) && final(self).depth_spec(to) == old(self).depth_spec(to) && timer == RetryTimer::Soon,
            forall|st: (Seq<M>, Option<M>, Seq<M>)|
                old(self).tracks(to, st) ==> #[trigger] final(self).tracks(
                    to,
                    direction_step(st, old(self).connected_spec(to), DirectionEvent::Retry { alive: true, sent }),
                ),
    {
        if !sent {
            return RetryTimer::Soon;
        }
        match to {
            Leg::First => {
                self.pending_to_first = None;
                if self.depth_to_first > 0 {
                    self.depth_to_first = self.depth_to_first - 1;
                }
            },
            Leg::Second => {
                self.pending_to_second = None;
                if self.depth_to_second > 0 {
                    self.depth_to_second = self.depth_to_second - 1;
                }
            },
        }
        RetryTimer::Park
    }
}

/// A message that a leg did not take is never dropped: it waits, and the
/// next message for that leg is not taken from the queue until it has gone.
pub proof fn lemma_refused_message_waits<M>(s: ProxyLoop<M>, after: ProxyLoop<M>, to: Leg, msg: M, alive: bool)
    requires
        s.wf(),
        s.connected_spec(to),
        s.pending_spec(to) is None,
        after.wf(),
        after.same_but_direction(&s, to),
        after.pending_spec(to) == Some(msg),
    ensures
        !(after.connected_spec(to) && after.pending_spec(to) is None && alive),
        after.pending_spec(to) is Some && after.connected_spec(to) && alive ==> after.pending_spec(to) == Some(msg),
{
}

/// A leg that has connected stays connected, and the session counts as
/// connected exactly when both legs have.
pub proof fn lemma_connection_is_monotone<M>(s: ProxyLoop<M>, after: ProxyLoop<M>, leg: Leg, fully_connected: bool)
    requires
        s.wf(),
        after.wf(),
        after.connected_spec(leg) == (s.connected_spec(leg) || fully_connected),
        leg == Leg::First ==> after.second_connected == s.second_connected,
        leg == Leg::Second ==> after.first_connected == s.first_connected,
    ensures
        s.first_connected ==> after.first_connected,
        s.second_connected ==> after.second_connected,
        s.both_connected ==> after.both_connected,
        after.both_connected == (after.first_connected && after.second_connected),
{
}

/// What happens in one direction of a session, the one towards some leg.
pub enum DirectionEvent<M> {
    /// A message for the leg arrived from the other leg and was queued.
    Arrive(M),
    /// The loop may take the next queued message: it does when the leg has
    /// connected, is alive and no message waits (see `can_take`); the leg
    /// takes it or not (see `after_send`).
    Send { alive: bool, sent: bool },
    /// The retry timer fired: the waiting message is handed to the leg again
    /// when the leg has connected and is alive (see `can_retry`), and the leg
    /// takes it or not (see `after_retry`).
    Retry { alive: bool, sent: bool },
}

/// One direction of a session: the messages still queued, the one waiting
/// to be sent again, and those the leg has taken, in order.
pub open spec fn direction_step<M>(
    st: (Seq<M>, Option<M>, Seq<M>),
    connected: bool,
    e: DirectionEvent<M>,
) -> (Seq<M>, Option<M>, Seq<M>) {
    let (queued, waiting, taken) = st;
    match e {
        DirectionEvent::Arrive(m) => (queued.push(m), waiting, taken),
        DirectionEvent::Send { alive, sent } => if connected && waiting is None && alive && queued.len() > 0 {
            if sent {
                (queued.drop_first(), None, taken.push(queued[0]))
            } else {
                (queued.drop_first(), Some(queued[0]), taken)
            }
        } else {
            st
        },
        DirectionEvent::Retry { alive, sent } => if waiting is Some && connected && alive && sent {
            (queued, None, taken.push(waiting.unwrap()))
        } else {
            st
        },
    }
}

/// The state of a direction after the run `trace` from the empty state; each
/// event comes with whether the leg had connected by then.
pub open spec fn direction_run<M>(trace: Seq<(DirectionEvent<M>, bool)>) -> (Seq<M>, Option<M>, Seq<M>)
    decreases trace.len(),
{
    if trace.len() == 0 {
        (Seq::empty(), None, Seq::empty())
    } else {
        direction_step(direction_run(trace.drop_last()), trace.last().1, trace.last().0)
    }
}

/// The messages that arrived during `trace`, in order.
pub open spec fn arrivals<M>(trace: Seq<(DirectionEvent<M>, bool)>) -> Seq<M>
    decreases trace.len(),
{
    if trace.len() == 0 {
        Seq::empty()
    } else {
        match trace.last().0 {
            DirectionEvent::Arrive(m) => arrivals(trace.drop_last()).push(m),
            _ => arrivals(trace.drop_last()),
        }
    }
}

/// An optional message as a sequence of at most one.
pub open spec fn opt_seq<M>(o: Option<M>) -> Seq<M> {
    match o {
        Some(m) => seq![m],
        None => Seq::empty(),
    }
}

/// Over a whole run, the proxy loses, duplicates and reorders nothing in a
/// direction: the messages the leg took, then the one waiting, then those
/// still queued, are exactly the messages that arrived, in the order they
/// arrived. While the leg has not connected it is handed nothing. The
/// session's own steps follow this model: `note_data`, `after_send` and
/// `after_retry` keep a session that `tracks` a model state tracking the
/// state the model's step gives.
pub proof fn lemma_direction_forwards_in_order<M>(trace: Seq<(DirectionEvent<M>, bool)>)
    ensures
        direction_run(trace).2 + opt_seq(direction_run(trace).1) + direction_run(trace).0 == arrivals(trace),
        (forall|i: int| 0 <= i < trace.len() ==> !(#[trigger] trace[i]).1) ==> direction_run(trace).2.len() == 0
            && direction_run(trace).1 is None,
    decreases trace.len(),
{
    if trace.len() > 0 {
        let prev = trace.drop_last();
        lemma_direction_forwards_in_order(prev);
        let st = direction_run(prev);
        let (queued, waiting, taken) = st;
        let connected = trace.last().1;
        let e = trace.last().0;
        let a = arrivals(prev);
        assert(taken + opt_seq(waiting) + queued == a);
        match e {
            DirectionEvent::Arrive(m) => {
                assert(taken + opt_seq(waiting) + queued.push(m) =~= a.push(m));
            },
            DirectionEvent::Send { alive, sent } => {
                if connected && waiting is None && alive && queued.len() > 0 {
                    if sent {
                        assert(taken.push(queued[0]) + opt_seq::<M>(None) + queued.drop_first() =~= taken
                            + opt_seq(waiting) + queued);
                    } else {
                        assert(taken + opt_seq(Some(queued[0])) + queued.drop_first() =~= taken + opt_seq(waiting)
                            + queued);
                    }
                }
            },
            DirectionEvent::Retry { alive, sent } => {
                if waiting is Some && connected && alive && sent {
                    assert(taken.push(waiting.unwrap()) + opt_seq::<M>(None) + queued =~= taken + opt_seq(waiting)
                        + queued);
                }
            },
        }
        if forall|i: int| 0 <= i < trace.len() ==> !(#[trigger] trace[i]).1 {
            assert forall|i: int| 0 <= i < prev.len() implies !(#[trigger] prev[i]).1 by {
                assert(prev[i] == trace[i]);
            }
            assert(!trace[trace.len() - 1].1);
        }
    }
}

} // verus!
