//! The race of TURN allocations: one attempt per TURN server, driven in
//! rounds; the first that succeeds is kept, those that fail drop out, and the
//! phase fails when none is left or its time is up.

use vstd::prelude::*;

use crate::gather::{
    apply_events_spec, at_least_min, attempt_drive_spec, attempt_wait_spec, lemma_apply_events_keeps, recv_taken, AttemptState,
    DriveStart, GatherFailure, TurnAttempt, TurnEventKind, TurnPoll, TurnRecv, TURN_MIN_RECV_TIMEOUT_MS,
    TURN_TIMEOUT_MS,
};
use crate::netaddr::SocketAddress;

verus! {

proof fn lemma_stepped_id(att: Seq<TurnAttempt>, outs: Seq<(TurnPoll, Vec<TurnEventKind>)>, p: int)
    requires
        0 <= p < att.len(),
        p < outs.len(),
        att[p].state == AttemptState::Pending,
    ensures
        stepped_at(att, outs, p).id == att[p].id,
        stepped_at(att, outs, p).state == AttemptState::Succeeded ==> stepped_at(att, outs, p).relay_addr is Some,
{
    reveal(stepped_at);
    let polled = match outs[p].0 {
        TurnPoll::Closed => TurnAttempt { id: att[p].id, state: AttemptState::Failed, relay_addr: att[p].relay_addr },
        _ => att[p],
    };
    lemma_apply_events_keeps(polled, outs[p].1@, outs[p].1@.len() as int);
}

/// Attempt `p` of `att` after being driven with outcome `outs[p]`.
#[verifier::opaque]
pub open spec fn stepped_at(att: Seq<TurnAttempt>, outs: Seq<(TurnPoll, Vec<TurnEventKind>)>, p: int) -> TurnAttempt {
    attempt_drive_spec(att[p], outs[p].0, outs[p].1@)
}

/// The wait attempt `p` of `att` asks for after being driven with outcome
/// `outs[p]`.
#[verifier::opaque]
pub open spec fn stepped_wait_at(
    att: Seq<TurnAttempt>,
    outs: Seq<(TurnPoll, Vec<TurnEventKind>)>,
    p: int,
    remaining: u64,
) -> Option<u64> {
    attempt_wait_spec(stepped_at(att, outs, p), outs[p].0, remaining)
}

/// Attempt `p` of `att` after a packet was offered to it with outcome
/// `outs[p]`.
pub open spec fn offered_at(att: Seq<TurnAttempt>, outs: Seq<(TurnRecv, Vec<TurnEventKind>)>, p: int) -> TurnAttempt {
    if att[p].state == AttemptState::Pending && recv_taken(outs[p].0) {
        apply_events_spec(att[p], outs[p].1@, outs[p].1@.len() as int)
    } else {
        att[p]
    }
}

/// `st` and `ws` are the attempts of `att` and the waits they ask for after
/// each was driven with its outcome in `outs`.
#[verifier::opaque]
pub open spec fn drive_all_post(
    att: Seq<TurnAttempt>,
    outs: Seq<(TurnPoll, Vec<TurnEventKind>)>,
    remaining: u64,
    st: Seq<TurnAttempt>,
    ws: Seq<Option<u64>>,
) -> bool {
    &&& st.len() == att.len()
    &&& ws.len() == att.len()
    &&& forall|q: int|
        0 <= q < att.len() ==> {
            &&& #[trigger] st[q] == stepped_at(att, outs, q)
            &&& ws[q] == stepped_wait_at(att, outs, q, remaining)
            &&& st[q].id == att[q].id
            &&& st[q].state == AttemptState::Succeeded ==> st[q].relay_addr is Some
            &&& (ws[q] is Some <==> st[q].state == AttemptState::Pending)
        }
}

fn drive_all(attempts: &Vec<TurnAttempt>, remaining: u64, outcomes: &Vec<(TurnPoll, Vec<TurnEventKind>)>) -> (r: (
    Vec<TurnAttempt>,
    Vec<Option<u64>>,
))
    requires
        outcomes@.len() == attempts@.len(),
        forall|q: int| 0 <= q < attempts@.len() ==> #[trigger] attempts@[q].state == AttemptState::Pending,
    ensures
        drive_all_post(attempts@, outcomes@, remaining, r.0@, r.1@),
{
    let ghost att = attempts@;
    let mut stepped: Vec<TurnAttempt> = Vec::new();
    let mut waits: Vec<Option<u64>> = Vec::new();
    let mut k: usize = 0;
    while k < attempts.len()
        invariant
            attempts@ == att,
            outcomes@.len() == att.len(),
            k <= att.len(),
            stepped@.len() == k,
            waits@.len() == k,
            forall|q: int| 0 <= q < att.len() ==> #[trigger] att[q].state == AttemptState::Pending,
            forall|q: int|
                0 <= q < k ==> {
                    &&& #[trigger] stepped@[q] == stepped_at(att, outcomes@, q)
                    &&& waits@[q] == stepped_wait_at(att, outcomes@, q, remaining)
                    &&& stepped@[q].id == att[q].id
                    &&& stepped@[q].state == AttemptState::Succeeded ==> stepped@[q].relay_addr is Some
                    &&& (waits@[q] is Some <==> stepped@[q].state == AttemptState::Pending)
                },
        decreases att.len() - k,
    {
        let mut a = attempts[k];
        let w = a.drive(remaining, outcomes[k].0, &outcomes[k].1);
        proof {
            reveal(stepped_at);
            reveal(stepped_wait_at);
            lemma_stepped_id(att, outcomes@, k as int);
        }
        stepped.push(a);
        waits.push(w);
        k += 1;
    }
    proof {
        reveal(drive_all_post);
    }
    (stepped, waits)
}

/// `x` is the id of one of `st`.
pub open spec fn id_known(st: Seq<TurnAttempt>, x: u64) -> bool {
    exists|q: int| 0 <= q < st.len() && #[trigger] st[q].id == x
}

/// Every id in `d` is the id of one of `st`.
pub open spec fn ids_known(st: Seq<TurnAttempt>, d: Seq<u64>) -> bool {
    forall|i: int| #![trigger d[i]] 0 <= i < d.len() ==> id_known(st, d[i])
}

proof fn lemma_ids_known_same(st: Seq<TurnAttempt>, att: Seq<TurnAttempt>, d: Seq<u64>)
    requires
        st.len() == att.len(),
        forall|q: int| 0 <= q < st.len() ==> #[trigger] st[q].id == att[q].id,
        ids_known(st, d),
    ensures
        ids_known(att, d),
{
    assert forall|i: int| #![trigger d[i]] 0 <= i < d.len() implies id_known(att, d[i]) by {
        assert(id_known(st, d[i]));
        let q = choose|q: int| 0 <= q < st.len() && #[trigger] st[q].id == d[i];
        assert(att[q].id == st[q].id);
    }
}

/// How a round of the TURN race went, over the attempts' positions.
struct RaceOutcome {
    driven: Vec<u64>,
    captured: Option<usize>,
    kept: Vec<usize>,
    wait: u64,
    saw: bool,
}

/// How a round of the race over the driven attempts `st` (asking for waits
/// `ws`) went: the position captured, if one succeeded; the ids driven; and,
/// when none succeeded, the positions still racing and the wait.
#[verifier::opaque]
pub open spec fn race_post(
    st: Seq<TurnAttempt>,
    ws: Seq<Option<u64>>,
    remaining: u64,
    captured: Option<usize>,
    driven: Seq<u64>,
    kept: Seq<usize>,
    wait: u64,
    saw: bool,
) -> bool {
    &&& captured matches Some(p) ==> p < st.len() && st[p as int].state == AttemptState::Succeeded
    &&& ids_known(st, driven)
    &&& captured is None ==> {
        &&& forall|q: int| 0 <= q < st.len() ==> #[trigger] st[q].state != AttemptState::Succeeded
        &&& forall|q: int| 0 <= q < st.len() ==> driven.contains(#[trigger] st[q].id)
        &&& forall|m: int|
            0 <= m < kept.len() ==> 0 <= #[trigger] kept[m] < st.len() && st[kept[m] as int].state
                == AttemptState::Pending
        &&& forall|m1: int, m2: int| 0 <= m1 < m2 < kept.len() ==> #[trigger] kept[m1] != #[trigger] kept[m2]
        &&& forall|q: int|
            0 <= q < st.len() && #[trigger] st[q].state == AttemptState::Pending ==> exists|m: int|
                0 <= m < kept.len() && #[trigger] kept[m] == q
        &&& kept.len() > 0 ==> saw
        &&& wait <= remaining
        &&& forall|q: int| 0 <= q < st.len() && st[q].state == AttemptState::Pending ==> (#[trigger] ws[q] matches Some(
            x,
        ) && wait <= x)
        &&& wait == remaining || exists|q: int| 0 <= q < st.len() && #[trigger] ws[q] == Some(wait)
    }
}

fn race_round(st: &Vec<TurnAttempt>, ws: &Vec<Option<u64>>, remaining: u64) -> (r: RaceOutcome)
    requires
        ws@.len() == st@.len(),
        forall|q: int| 0 <= q < st@.len() ==> (#[trigger] ws@[q] is Some <==> st@[q].state == AttemptState::Pending),
    ensures
        race_post(st@, ws@, remaining, r.captured, r.driven@, r.kept@, r.wait, r.saw),
{
    let ghost n = st@.len() as int;
    let mut pos: Vec<usize> = Vec::new();
    let mut j: usize = 0;
    while j < st.len()
        invariant
            j <= st@.len(),
            pos@.len() == j,
            forall|i: int| 0 <= i < j ==> #[trigger] pos@[i] == i,
        decreases st@.len() - j,
    {
        pos.push(j);
        j += 1;
    }
    let ghost mut place: Seq<int> = Seq::new(n as nat, |q: int| q);
    let mut driven: Vec<u64> = Vec::new();
    let mut next_wait = remaining;
    let mut saw = false;
    let mut idx: usize = 0;
    while idx < pos.len()
        invariant
            st@.len() == n,
            ws@.len() == n,
            idx <= pos@.len(),
            place.len() == n,
            forall|q: int| 0 <= q < n ==> (#[trigger] ws@[q] is Some <==> st@[q].state == AttemptState::Pending),
            forall|i: int| 0 <= i < pos@.len() ==> 0 <= #[trigger] pos@[i] < n && place[pos@[i] as int] == i,
            forall|q: int|
                0 <= q < n ==> #[trigger] place[q] == -1 || (0 <= place[q] < pos@.len() && pos@[place[q]] == q),
            forall|q: int| 0 <= q < n && #[trigger] place[q] == -1 ==> st@[q].state == AttemptState::Failed,
            forall|i: int| 0 <= i < idx ==> #[trigger] st@[pos@[i] as int].state == AttemptState::Pending,
            forall|q: int|
                0 <= q < n && (#[trigger] place[q] == -1 || place[q] < idx) ==> driven@.contains(st@[q].id)
                    && st@[q].state != AttemptState::Succeeded,
            ids_known(st@, driven@),
            next_wait <= remaining,
            forall|q: int| 0 <= q < n && 0 <= #[trigger] place[q] < idx ==> (ws@[q] matches Some(x) && next_wait <= x),
            next_wait == remaining || exists|q: int| 0 <= q < n && #[trigger] ws@[q] == Some(next_wait),
            saw == exists|q: int| 0 <= q < n && 0 <= #[trigger] place[q] < idx,
        decreases pos@.len() - idx,
    {
        let p = pos[idx];
        let ghost pi = p as int;
        let a = st[p];
        let ghost before_driven = driven@;
        driven.push(a.id);
        proof {
            assert forall|q: int| 0 <= q < n && (#[trigger] place[q] == -1 || place[q] < idx) implies driven@.contains(
                st@[q].id,
            ) by {
                let i = choose|i: int| 0 <= i < before_driven.len() && before_driven[i] == st@[q].id;
                assert(driven@[i] == st@[q].id);
            }
            assert(driven@[driven@.len() - 1] == st@[pi].id);
            assert forall|i: int| #![trigger driven@[i]] 0 <= i < driven@.len() implies id_known(st@, driven@[i]) by {
                if i < before_driven.len() {
                    assert(driven@[i] == before_driven[i]);
                    assert(id_known(st@, before_driven[i]));
                } else {
                    assert(st@[pi].id == driven@[i]);
                }
            }
        }
        match ws[p] {
            Some(x) => {
                if x < next_wait {
                    next_wait = x;
                }
                saw = true;
            },
            None => {},
        }
        if a.is_succeeded() {
            proof {
                reveal(race_post);
            }
            return RaceOutcome { driven, captured: Some(p), kept: pos, wait: next_wait, saw };
        }
        if !a.is_pending() {
            let ghost place_before = place;
            let ghost pos_before = pos@;
            let last = pos.len() - 1;
            let ghost qlast = pos_before[last as int] as int;
            pos.swap_remove(idx);
            proof {
                if idx == last {
                    place = place.update(pi, -1);
                } else {
                    place = place.update(qlast, idx as int).update(pi, -1);
                }
                assert forall|q: int| 0 <= q < n implies (0 <= #[trigger] place[q] < idx) == (0 <= place_before[q]
                    < idx) by {
                    if q == pi {
                        assert(place_before[q] == idx);
                    } else if q == qlast && idx != last {
                        assert(place_before[q] == last);
                    }
                }
                if saw {
                    let q = choose|q: int| 0 <= q < n && 0 <= #[trigger] place_before[q] < idx;
                    assert(0 <= place[q] < idx);
                }
            }
            continue;
        }
        proof {
            assert(0 <= place[pi] < idx + 1);
            assert forall|q: int| 0 <= q < n && 0 <= #[trigger] place[q] < idx + 1 implies (ws@[q] matches Some(x)
                && next_wait <= x) by {
                if place[q] == idx {
                    assert(pos@[idx as int] == q);
                }
            }
        }
        idx += 1;
    }
    proof {
        assert forall|q: int| #![trigger st@[q]] 0 <= q < n implies st@[q].state != AttemptState::Succeeded && driven@.contains(
            st@[q].id,
        ) by {
            assert(place[q] == -1 || place[q] < idx);
        }
        assert forall|q: int| 0 <= q < n && #[trigger] st@[q].state == AttemptState::Pending implies exists|m: int|
            0 <= m < pos@.len() && #[trigger] pos@[m] == q by {
            assert(place[q] != -1);
            assert(pos@[place[q]] == q);
        }
        assert forall|m1: int, m2: int| 0 <= m1 < m2 < pos@.len() implies #[trigger] pos@[m1] != #[trigger] pos@[m2] by {
            assert(place[pos@[m1] as int] == m1);
            assert(place[pos@[m2] as int] == m2);
        }
        assert forall|q: int| 0 <= q < n && st@[q].state == AttemptState::Pending implies (#[trigger] ws@[q] matches Some(
            x,
        ) && next_wait <= x) by {
            assert(place[q] != -1);
            assert(0 <= place[q] < idx);
        }
        if pos@.len() > 0 {
            let q0 = pos@[0] as int;
            assert(0 <= place[q0] < idx);
        }
    }
    let ghost d = driven@;
    let ghost kp = pos@;
    let r = RaceOutcome { driven, captured: None, kept: pos, wait: next_wait, saw };
    assert(r.driven@ == d);
    assert(r.kept@ == kp);
    assert forall|q: int| 0 <= q < n implies r.driven@.contains(#[trigger] st@[q].id) by {
        assert(st@[q].state != AttemptState::Succeeded);
    }
    proof {
        reveal(race_post);
    }
    r
}

/// The result of a round of driving the attempts `att`, with what polling
/// each gave in `outs` and `remaining` milliseconds of the phase left: the
/// attempts left racing (`kept`), the phase's success and failure, the ids of
/// the attempts driven and the wait asked for. The phase succeeds exactly
/// when an attempt succeeded, and then with one of those; otherwise every
/// attempt was driven, exactly those still pending race on, the phase fails
/// when none does, and else it waits the least any of them asks for, or what
/// is left of the phase if that is sooner.
#[verifier::opaque]
pub open spec fn round_result(
    att: Seq<TurnAttempt>,
    outs: Seq<(TurnPoll, Vec<TurnEventKind>)>,
    remaining: u64,
    kept: Seq<TurnAttempt>,
    success: Option<(u64, SocketAddress)>,
    failure: Option<GatherFailure>,
    driven: Seq<u64>,
    wait: Option<u64>,
) -> bool {
    let n = att.len() as int;
    &&& success is Some <==> exists|p: int| 0 <= p < n && #[trigger] stepped_at(att, outs, p).state == AttemptState::Succeeded
    &&& success matches Some((id, relay)) ==> {
        &&& exists|p: int|
            0 <= p < n && #[trigger] stepped_at(att, outs, p).state == AttemptState::Succeeded && att[p].id == id
                && stepped_at(att, outs, p).relay_addr == Some(relay)
        &&& kept.len() == 0
        &&& failure is None
        &&& wait is None
    }
    &&& success is None ==> {
        &&& forall|k: int|
            0 <= k < kept.len() ==> exists|p: int|
                0 <= p < n && stepped_at(att, outs, p).state == AttemptState::Pending && #[trigger] kept[k]
                    == stepped_at(att, outs, p)
        &&& forall|p: int|
            0 <= p < n && #[trigger] stepped_at(att, outs, p).state == AttemptState::Pending ==> exists|k: int|
                0 <= k < kept.len() && kept[k] == stepped_at(att, outs, p)
        &&& forall|p: int| 0 <= p < n ==> driven.contains(#[trigger] att[p].id)
        &&& kept.len() == 0 ==> failure == Some(GatherFailure::AllTurnAttemptsFailed) && wait is None
        &&& kept.len() > 0 ==> failure is None && (wait matches Some(w) && w <= remaining && (forall|p: int|
            0 <= p < n && stepped_at(att, outs, p).state == AttemptState::Pending ==> (
            #[trigger] stepped_wait_at(att, outs, p, remaining) matches Some(x) && w <= x)) && (w == remaining
            || exists|p: int| 0 <= p < n && #[trigger] stepped_wait_at(att, outs, p, remaining) == Some(w)))
    }
    &&& ids_known(att, driven)
}

proof fn lemma_round_captured(
    att: Seq<TurnAttempt>,
    outs: Seq<(TurnPoll, Vec<TurnEventKind>)>,
    remaining: u64,
    st: Seq<TurnAttempt>,
    ws: Seq<Option<u64>>,
    p: usize,
    driven: Seq<u64>,
    kpos: Seq<usize>,
    wait: u64,
    saw: bool,
    relay: SocketAddress,
)
    requires
        drive_all_post(att, outs, remaining, st, ws),
        race_post(st, ws, remaining, Some(p), driven, kpos, wait, saw),
        st[p as int].relay_addr == Some(relay),
    ensures
        round_result(att, outs, remaining, Seq::empty(), Some((st[p as int].id, relay)), None, driven, None),
{
    reveal(drive_all_post);
    reveal(race_post);
    reveal(round_result);
    let pi = p as int;
    assert(st[pi] == stepped_at(att, outs, pi));
    assert(stepped_at(att, outs, pi).state == AttemptState::Succeeded);
    lemma_ids_known_same(st, att, driven);
}

/// What a round in which no attempt succeeded leaves, as its caller sees it.
pub open spec fn kept_of(st: Seq<TurnAttempt>, kpos: Seq<usize>, kept: Seq<TurnAttempt>) -> bool {
    &&& kept.len() == kpos.len()
    &&& forall|m: int| 0 <= m < kpos.len() ==> 0 <= #[trigger] kpos[m] < st.len()
    &&& forall|m: int| 0 <= m < kept.len() ==> #[trigger] kept[m] == st[kpos[m] as int]
}

proof fn lemma_kept_attempts(
    att: Seq<TurnAttempt>,
    outs: Seq<(TurnPoll, Vec<TurnEventKind>)>,
    remaining: u64,
    st: Seq<TurnAttempt>,
    ws: Seq<Option<u64>>,
    driven: Seq<u64>,
    kpos: Seq<usize>,
    kept: Seq<TurnAttempt>,
    wait: u64,
    saw: bool,
)
    requires
        drive_all_post(att, outs, remaining, st, ws),
        race_post(st, ws, remaining, None, driven, kpos, wait, saw),
        kept_of(st, kpos, kept),
    ensures
        forall|q: int| 0 <= q < att.len() ==> #[trigger] stepped_at(att, outs, q).state != AttemptState::Succeeded,
        forall|k: int|
            0 <= k < kept.len() ==> exists|p: int|
                0 <= p < att.len() && stepped_at(att, outs, p).state == AttemptState::Pending && #[trigger] kept[k]
                    == stepped_at(att, outs, p),
        forall|p: int|
            0 <= p < att.len() && #[trigger] stepped_at(att, outs, p).state == AttemptState::Pending ==> exists|k: int|
                0 <= k < kept.len() && kept[k] == stepped_at(att, outs, p),
        forall|k: int| 0 <= k < kept.len() ==> #[trigger] kept[k].state == AttemptState::Pending,
{
    reveal(drive_all_post);
    reveal(race_post);
    let n = att.len() as int;
    assert forall|q: int| 0 <= q < n implies #[trigger] stepped_at(att, outs, q).state != AttemptState::Succeeded by {
        assert(st[q] == stepped_at(att, outs, q));
        assert(st[q].state != AttemptState::Succeeded);
    }
    assert forall|m: int| 0 <= m < kept.len() implies exists|q: int|
        0 <= q < n && stepped_at(att, outs, q).state == AttemptState::Pending && #[trigger] kept[m]
            == stepped_at(att, outs, q) by {
        let q = kpos[m] as int;
        assert(st[q] == stepped_at(att, outs, q));
        assert(st[kpos[m] as int].state == AttemptState::Pending);
    }
    assert forall|q: int|
        0 <= q < n && #[trigger] stepped_at(att, outs, q).state == AttemptState::Pending implies exists|m: int|
        0 <= m < kept.len() && kept[m] == stepped_at(att, outs, q) by {
        assert(st[q] == stepped_at(att, outs, q));
        assert(st[q].state == AttemptState::Pending);
        let m = choose|m: int| 0 <= m < kpos.len() && #[trigger] kpos[m] == q;
        assert(kept[m] == st[q]);
    }
    assert forall|k: int| 0 <= k < kept.len() implies #[trigger] kept[k].state == AttemptState::Pending by {
        assert(st[kpos[k] as int].state == AttemptState::Pending);
    }
}

proof fn lemma_kept_ids(
    att: Seq<TurnAttempt>,
    outs: Seq<(TurnPoll, Vec<TurnEventKind>)>,
    remaining: u64,
    st: Seq<TurnAttempt>,
    ws: Seq<Option<u64>>,
    driven: Seq<u64>,
    kpos: Seq<usize>,
    kept: Seq<TurnAttempt>,
    wait: u64,
    saw: bool,
)
    requires
        drive_all_post(att, outs, remaining, st, ws),
        race_post(st, ws, remaining, None, driven, kpos, wait, saw),
        kept_of(st, kpos, kept),
        forall|q1: int, q2: int| 0 <= q1 < q2 < att.len() ==> #[trigger] att[q1].id != #[trigger] att[q2].id,
    ensures
        forall|k1: int, k2: int| 0 <= k1 < k2 < kept.len() ==> #[trigger] kept[k1].id != #[trigger] kept[k2].id,
        forall|p: int| 0 <= p < att.len() ==> driven.contains(#[trigger] att[p].id),
        ids_known(att, driven),
{
    reveal(drive_all_post);
    reveal(race_post);
    let n = att.len() as int;
    assert forall|q: int| 0 <= q < n implies driven.contains(#[trigger] att[q].id) by {
        assert(st[q].id == att[q].id);
        assert(driven.contains(st[q].id));
    }
    assert forall|k1: int, k2: int| 0 <= k1 < k2 < kept.len() implies #[trigger] kept[k1].id != #[trigger] kept[k2].id by {
        let q1 = kpos[k1] as int;
        let q2 = kpos[k2] as int;
        assert(q1 != q2);
        assert(kept[k1].id == att[q1].id);
        assert(kept[k2].id == att[q2].id);
        if q1 < q2 {
            assert(att[q1].id != att[q2].id);
        } else {
            assert(att[q2].id != att[q1].id);
        }
    }
    lemma_ids_known_same(st, att, driven);
}

proof fn lemma_kept_wait(
    att: Seq<TurnAttempt>,
    outs: Seq<(TurnPoll, Vec<TurnEventKind>)>,
    remaining: u64,
    st: Seq<TurnAttempt>,
    ws: Seq<Option<u64>>,
    driven: Seq<u64>,
    kpos: Seq<usize>,
    wait: u64,
    saw: bool,
)
    requires
        drive_all_post(att, outs, remaining, st, ws),
        race_post(st, ws, remaining, None, driven, kpos, wait, saw),
        kpos.len() > 0,
    ensures
        saw,
        wait <= remaining,
        forall|p: int|
            0 <= p < att.len() && stepped_at(att, outs, p).state == AttemptState::Pending ==> (
            #[trigger] stepped_wait_at(att, outs, p, remaining) matches Some(x) && wait <= x),
        wait == remaining || exists|p: int|
            0 <= p < att.len() && #[trigger] stepped_wait_at(att, outs, p, remaining) == Some(wait),
{
    reveal(drive_all_post);
    reveal(race_post);
    let n = att.len() as int;
    assert forall|q: int|
        0 <= q < n && stepped_at(att, outs, q).state == AttemptState::Pending implies (
        #[trigger] stepped_wait_at(att, outs, q, remaining) matches Some(x) && wait <= x) by {
        assert(st[q] == stepped_at(att, outs, q));
        assert(st[q].state == AttemptState::Pending);
        assert(ws[q] == stepped_wait_at(att, outs, q, remaining));
    }
    if wait != remaining {
        let q = choose|q: int| 0 <= q < st.len() && #[trigger] ws[q] == Some(wait);
        assert(stepped_wait_at(att, outs, q, remaining) == Some(wait));
    }
}

proof fn lemma_round_kept(
    att: Seq<TurnAttempt>,
    outs: Seq<(TurnPoll, Vec<TurnEventKind>)>,
    remaining: u64,
    st: Seq<TurnAttempt>,
    ws: Seq<Option<u64>>,
    driven: Seq<u64>,
    kpos: Seq<usize>,
    kept: Seq<TurnAttempt>,
    wait: u64,
    saw: bool,
)
    requires
        drive_all_post(att, outs, remaining, st, ws),
        race_post(st, ws, remaining, None, driven, kpos, wait, saw),
        kept_of(st, kpos, kept),
        forall|q1: int, q2: int| 0 <= q1 < q2 < att.len() ==> #[trigger] att[q1].id != #[trigger] att[q2].id,
    ensures
        forall|k: int| 0 <= k < kept.len() ==> #[trigger] kept[k].state == AttemptState::Pending,
        forall|k1: int, k2: int| 0 <= k1 < k2 < kept.len() ==> #[trigger] kept[k1].id != #[trigger] kept[k2].id,
        round_result(
            att,
            outs,
            remaining,
            kept,
            None,
            if kept.len() == 0 {
                Some(GatherFailure::AllTurnAttemptsFailed)
            } else {
                None
            },
            driven,
            if kept.len() == 0 {
                None
            } else {
                Some(
                    if saw {
                        wait
                    } else {
                        at_least_min(remaining)
                    },
                )
            },
        ),
{
    lemma_kept_attempts(att, outs, remaining, st, ws, driven, kpos, kept, wait, saw);
    lemma_kept_ids(att, outs, remaining, st, ws, driven, kpos, kept, wait, saw);
    if kept.len() > 0 {
        lemma_kept_wait(att, outs, remaining, st, ws, driven, kpos, wait, saw);
    }
    reveal(round_result);
}

/// The TURN phase: the attempts still racing, the attempt that succeeded (its
/// id and relayed address) until it is taken, and why the phase failed, if it
/// did.
pub struct TurnPhase {
    attempts: Vec<TurnAttempt>,
    success: Option<(u64, SocketAddress)>,
    failure: Option<GatherFailure>,
}

impl TurnPhase {
    /// The attempts still racing.
    pub closed spec fn attempts_spec(&self) -> Seq<TurnAttempt> {
        self.attempts@
    }

    /// The attempt that succeeded, until it is taken.
    pub closed spec fn success_spec(&self) -> Option<(u64, SocketAddress)> {
        self.success
    }

    /// Why the phase failed, if it did.
    pub closed spec fn failure_spec(&self) -> Option<GatherFailure> {
        self.failure
    }

    /// The phase still runs: no attempt succeeded and it did not fail.
    pub open spec fn active(&self) -> bool {
        self.success_spec() is None && self.failure_spec() is None
    }

    /// The phase's invariant: the racing attempts are pending and have
    /// distinct ids, and none is left once the phase succeeded or failed,
    /// which it does not both do.
    pub closed spec fn wf(&self) -> bool {
        &&& forall|k: int| 0 <= k < self.attempts@.len() ==> #[trigger] self.attempts@[k].state == AttemptState::Pending
        &&& forall|k1: int, k2: int|
            0 <= k1 < k2 < self.attempts@.len() ==> #[trigger] self.attempts@[k1].id != #[trigger] self.attempts@[k2].id
        &&& !(self.success is Some && self.failure is Some)
        &&& (self.success is Some || self.failure is Some) ==> self.attempts@.len() == 0
    }

    /// Starts the phase with one attempt per TURN server to try, the attempts
    /// numbered from 0: it fails at once when the configuration names no TURN
    /// server or there is no server to try.
    pub fn start(url_count: usize, attempt_count: usize) -> (r: Result<TurnPhase, GatherFailure>)
        ensures
            url_count == 0 ==> r == Err::<TurnPhase, GatherFailure>(GatherFailure::NoTurnUrls),
            url_count > 0 && attempt_count == 0 ==> r == Err::<TurnPhase, GatherFailure>(
                GatherFailure::NoTurnAttempts,
            ),
            url_count > 0 && attempt_count > 0 ==> (r matches Ok(p) && p.wf() && p.active()
                && p.attempts_spec().len() == attempt_count && forall|k: int|
                0 <= k < attempt_count ==> #[trigger] p.attempts_spec()[k] == (TurnAttempt {
                id: k as u64,
                state: AttemptState::Pending,
                relay_addr: None,
            })),
    {
        if url_count == 0 {
            return Err(GatherFailure::NoTurnUrls);
        }
        if attempt_count == 0 {
            return Err(GatherFailure::NoTurnAttempts);
        }
        let mut attempts: Vec<TurnAttempt> = Vec::new();
        let mut k: usize = 0;
        while k < attempt_count
            invariant
                k <= attempt_count,
                attempts@.len() == k,
                forall|j: int| 0 <= j < k ==> #[trigger] attempts@[j] == (TurnAttempt {
                    id: j as u64,
                    state: AttemptState::Pending,
                    relay_addr: None,
                }),
            decreases attempt_count - k,
        {
            attempts.push(TurnAttempt::new(k as u64));
            k += 1;
        }
        let r = TurnPhase { attempts, success: None, failure: None };
        assert forall|k1: int, k2: int| 0 <= k1 < k2 < r.attempts@.len() implies #[trigger] r.attempts@[k1].id
            != #[trigger] r.attempts@[k2].id by {
            assert(r.attempts@[k1].id == k1 as u64);
            assert(r.attempts@[k2].id == k2 as u64);
        }
        Ok(r)
    }

    /// Whether an attempt succeeded and was not taken yet.
    pub fn is_complete(&self) -> (r: bool)
        ensures
            r == self.success_spec() is Some,
    {
        self.success.is_some()
    }

    /// Why the phase failed, if it did.
    pub fn failure(&self) -> (r: Option<GatherFailure>)
        ensures
            r == self.failure_spec(),
    {
        self.failure
    }

    /// Takes the attempt that succeeded: its id and relayed address.
    pub fn take_success(&mut self) -> (r: Option<(u64, SocketAddress)>)
        requires
            old(self).wf(),
        ensures
            final(self).wf(),
            r == old(self).success_spec(),
            final(self).success_spec() is None,
            final(self).failure_spec() == old(self).failure_spec(),
            final(self).attempts_spec() == old(self).attempts_spec(),
    {
        let r = self.success;
        self.success = None;
        r
    }

    /// The ids of the attempts still racing, in order.
    pub fn attempt_ids(&self) -> (r: Vec<u64>)
        ensures
            r@.len() == self.attempts_spec().len(),
            forall|k: int| 0 <= k < r@.len() ==> #[trigger] r@[k] == self.attempts_spec()[k].id,
    {
        let mut r: Vec<u64> = Vec::new();
        let mut k: usize = 0;
        while k < self.attempts.len()
            invariant
                k <= self.attempts@.len(),
                r@.len() == k,
                forall|j: int| 0 <= j < k ==> #[trigger] r@[j] == self.attempts@[j].id,
            decreases self.attempts@.len() - k,
        {
            r.push(self.attempts[k].id);
            k += 1;
        }
        r
    }

    fn fail(&mut self, reason: GatherFailure)
        requires
            old(self).success is None,
        ensures
            final(self).failure == (if old(self).failure is None {
                Some(reason)
            } else {
                old(self).failure
            }),
            final(self).success is None,
            final(self).attempts@.len() == 0,
    {
        if self.failure.is_none() {
            self.failure = Some(reason);
        }
        self.attempts.clear();
    }

    /// Begins a round of driving the phase `elapsed_ms` milliseconds after it
    /// started. Once an attempt succeeded or the phase failed nothing happens.
    /// When its time is up the phase fails, with nothing to send. Else the
    /// attempts are to be polled.
    pub fn begin_drive(&mut self, elapsed_ms: u64) -> (r: DriveStart)
        requires
            old(self).wf(),
        ensures
            final(self).wf(),
            final(self).success_spec() == old(self).success_spec(),
            !old(self).active() ==> r == DriveStart::Inactive && final(self).failure_spec() == old(self).failure_spec()
                && final(self).attempts_spec() == old(self).attempts_spec(),
            old(self).active() && elapsed_ms >= TURN_TIMEOUT_MS ==> r == DriveStart::Expired
                && final(self).failure_spec() == Some(GatherFailure::TurnTimedOut)
                && final(self).attempts_spec().len() == 0,
            old(self).active() && elapsed_ms < TURN_TIMEOUT_MS ==> r == DriveStart::Poll(
                (TURN_TIMEOUT_MS - elapsed_ms) as u64,
            ) && final(self).attempts_spec() == old(self).attempts_spec() && final(self).active(),
    {
        if self.success.is_some() || self.failure.is_some() {
            return DriveStart::Inactive;
        }
        if elapsed_ms >= TURN_TIMEOUT_MS {
            self.fail(GatherFailure::TurnTimedOut);
            return DriveStart::Expired;
        }
        DriveStart::Poll(TURN_TIMEOUT_MS - elapsed_ms)
    }

    /// A packet was offered to every racing attempt; `outcomes[k]` is what
    /// the `k`-th of `attempt_ids` made of it (and the events it then
    /// reported, where it took the packet). The attempts take it in turn; the
    /// first that thereby succeeded is kept as the phase's success and ends
    /// the race. The answer says whether an attempt took the packet (always
    /// so when one succeeded). Once the phase is over nothing happens.
    pub fn after_packet(&mut self, outcomes: &Vec<(TurnRecv, Vec<TurnEventKind>)>) -> (handled: bool)
        requires
            old(self).wf(),
            outcomes@.len() == old(self).attempts_spec().len(),
        ensures
            final(self).wf(),
            !old(self).active() ==> !handled && final(self).attempts_spec() == old(self).attempts_spec()
                && final(self).success_spec() == old(self).success_spec() && final(self).failure_spec()
                == old(self).failure_spec(),
            old(self).active() ==> ({
                let att = old(self).attempts_spec();
                let n = att.len() as int;
                &&& final(self).success_spec() is Some <==> exists|p: int|
                    0 <= p < n && #[trigger] offered_at(att, outcomes@, p).state == AttemptState::Succeeded
                &&& final(self).success_spec() matches Some((id, relay)) ==> {
                    &&& exists|p: int|
                        0 <= p < n && #[trigger] offered_at(att, outcomes@, p).state == AttemptState::Succeeded
                            && (forall|q: int| 0 <= q < p ==> offered_at(att, outcomes@, q).state != AttemptState::Succeeded)
                            && att[p].id == id && offered_at(att, outcomes@, p).relay_addr == Some(relay)
                    &&& handled
                    &&& final(self).attempts_spec().len() == 0
                    &&& final(self).failure_spec() is None
                }
                &&& final(self).success_spec() is None ==> {
                    &&& final(self).attempts_spec().len() == n
                    &&& forall|k: int| 0 <= k < n ==> #[trigger] final(self).attempts_spec()[k] == offered_at(att, outcomes@, k)
                    &&& handled == exists|k: int| 0 <= k < n && #[trigger] recv_taken(outcomes@[k].0)
                    &&& final(self).failure_spec() == (if n == 0 {
                        Some(GatherFailure::AllTurnAttemptsFailed)
                    } else {
                        None
                    })
                }
            }),
    {
        if self.success.is_some() || self.failure.is_some() {
            return false;
        }
        let ghost att = self.attempts@;
        let ghost n = att.len() as int;
        let mut handled = false;
        let mut idx: usize = 0;
        while idx < self.attempts.len()
            invariant
                self.attempts@.len() == n,
                n == att.len(),
                att == old(self).attempts@,
                old(self).success is None,
                old(self).failure is None,
                outcomes@.len() == n,
                idx <= n,
                self.success is None,
                self.failure is None,
                forall|q: int| 0 <= q < n ==> #[trigger] att[q].state == AttemptState::Pending,
                forall|q1: int, q2: int| 0 <= q1 < q2 < n ==> #[trigger] att[q1].id != #[trigger] att[q2].id,
                forall|k: int|
                    0 <= k < idx ==> #[trigger] self.attempts@[k] == offered_at(att, outcomes@, k) && offered_at(
                        att,
                        outcomes@,
                        k,
                    ).state == AttemptState::Pending,
                forall|k: int| idx <= k < n ==> #[trigger] self.attempts@[k] == att[k],
                handled == exists|k: int| 0 <= k < idx && #[trigger] recv_taken(outcomes@[k].0),
            decreases n - idx,
        {
            let mut a = self.attempts[idx];
            let h = a.on_packet(outcomes[idx].0, &outcomes[idx].1);
            proof {
                lemma_apply_events_keeps(att[idx as int], outcomes@[idx as int].1@, outcomes@[idx as int].1@.len() as int);
                assert(a == offered_at(att, outcomes@, idx as int));
                if h {
                    assert(recv_taken(outcomes@[idx as int].0));
                }
                if exists|k: int| 0 <= k < idx + 1 && #[trigger] recv_taken(outcomes@[k].0) {
                    let k = choose|k: int| 0 <= k < idx + 1 && #[trigger] recv_taken(outcomes@[k].0);
                    if k < idx {
                        assert(handled);
                    } else {
                        assert(h);
                    }
                }
            }
            handled = handled || h;
            if a.is_succeeded() {
                proof {
                    assert forall|q: int| 0 <= q < idx implies offered_at(att, outcomes@, q).state
                        != AttemptState::Succeeded by {
                        assert(self.attempts@[q] == offered_at(att, outcomes@, q));
                    }
                }
                let relay = a.relay_addr.unwrap();
                self.success = Some((a.id, relay));
                self.attempts = Vec::new();
                return true;
            }
            self.attempts.set(idx, a);
            idx += 1;
        }
        if self.attempts.len() == 0 {
            self.failure = Some(GatherFailure::AllTurnAttemptsFailed);
        }
        proof {
            assert forall|k1: int, k2: int| 0 <= k1 < k2 < self.attempts@.len() implies #[trigger] self.attempts@[k1].id
                != #[trigger] self.attempts@[k2].id by {
                lemma_apply_events_keeps(att[k1], outcomes@[k1].1@, outcomes@[k1].1@.len() as int);
                lemma_apply_events_keeps(att[k2], outcomes@[k2].1@, outcomes@[k2].1@.len() as int);
            }
            assert forall|k: int| 0 <= k < self.attempts@.len() implies #[trigger] self.attempts@[k].state
                == AttemptState::Pending by {}
            assert forall|p: int| 0 <= p < n implies #[trigger] offered_at(att, outcomes@, p).state
                != AttemptState::Succeeded by {
                assert(self.attempts@[p] == offered_at(att, outcomes@, p));
            }
        }
        handled
    }

    /// Ends a round of driving with what polling each racing attempt gave
    /// (`outcomes[k]` for the `k`-th of `attempt_ids`): each attempt is driven
    /// with `remaining` milliseconds of the phase left. As soon as one
    /// succeeds it is kept as the phase's success and the race ends; those
    /// that failed drop out, and when none is left the phase fails. The
    /// answer is the ids of the attempts driven, whose queued packets are to
    /// be sent, and the wait the phase asks for while attempts still race
    /// (see `round_result`).
    pub fn after_polls(&mut self, remaining: u64, outcomes: &Vec<(TurnPoll, Vec<TurnEventKind>)>) -> (r: (
        Vec<u64>,
        Option<u64>,
    ))
        requires
            old(self).wf(),
            old(self).active(),
            outcomes@.len() == old(self).attempts_spec().len(),
        ensures
            final(self).wf(),
            round_result(
                old(self).attempts_spec(),
                outcomes@,
                remaining,
                final(self).attempts_spec(),
                final(self).success_spec(),
                final(self).failure_spec(),
                r.0@,
                r.1,
            ),
    {
        let ghost att = self.attempts@;
        let (stepped, waits) = drive_all(&self.attempts, remaining, outcomes);
        proof {
            reveal(drive_all_post);
        }
        let race = race_round(&stepped, &waits, remaining);
        let ghost st = stepped@;
        let ghost ws = waits@;
        if let Some(p) = race.captured {
            proof {
                reveal(race_post);
            }
            let a = stepped[p];
            let relay = a.relay_addr.unwrap();
            self.success = Some((a.id, relay));
            self.attempts = Vec::new();
            proof {
                lemma_round_captured(att, outcomes@, remaining, st, ws, p, race.driven@, race.kept@, race.wait, race.saw, relay);
            }
            return (race.driven, None);
        }
        proof {
            reveal(race_post);
        }
        let mut kept: Vec<TurnAttempt> = Vec::new();
        let mut i: usize = 0;
        while i < race.kept.len()
            invariant
                stepped@ == st,
                i <= race.kept@.len(),
                kept@.len() == i,
                forall|m: int| 0 <= m < race.kept@.len() ==> 0 <= #[trigger] race.kept@[m] < st.len(),
                forall|m: int| 0 <= m < i ==> #[trigger] kept@[m] == st[race.kept@[m] as int],
            decreases race.kept@.len() - i,
        {
            kept.push(stepped[race.kept[i]]);
            i += 1;
        }
        proof {
            assert(kept_of(st, race.kept@, kept@));
            lemma_round_kept(att, outcomes@, remaining, st, ws, race.driven@, race.kept@, kept@, race.wait, race.saw);
        }
        self.attempts = kept;
        if self.attempts.len() == 0 {
            self.failure = Some(GatherFailure::AllTurnAttemptsFailed);
            return (race.driven, None);
        }
        (race.driven, Some(if race.saw {
            race.wait
        } else if remaining < TURN_MIN_RECV_TIMEOUT_MS {
            TURN_MIN_RECV_TIMEOUT_MS
        } else {
            remaining
        }))
    }
}

} // verus!
