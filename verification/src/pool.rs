//! A pool of parallel connections to one peer: which slots hold a
//! connection, and which of them carries the next packet. Slot 0 holds the
//! primary connection; the others are filled in as their connections come up.

use vstd::prelude::*;

verus! {

/// Whether `idx` is the position in `cands` that `pick_least_buffered` chooses:
/// the first candidate whose buffered amount is minimal.
pub open spec fn is_first_least(cands: Seq<(usize, usize)>, pos: int) -> bool {
    &&& 0 <= pos < cands.len()
    &&& forall|j: int| 0 <= j < cands.len() ==> cands[pos].1 <= #[trigger] cands[j].1
    &&& forall|j: int| 0 <= j < pos ==> cands[pos].1 < #[trigger] cands[j].1
}

/// Picks the slot index whose buffered amount is smallest; ties go to the
/// candidate seen first. `None` when there is no candidate.
pub fn pick_least_buffered(candidates: &Vec<(usize, usize)>) -> (chosen: Option<usize>)
    ensures
        candidates@.len() == 0 <==> chosen is None,
        chosen matches Some(idx) ==> exists|pos: int|
            is_first_least(candidates@, pos) && #[trigger] candidates@[pos].0 == idx,
{
    let mut best: Option<usize> = None;
    let mut i: usize = 0;
    while i < candidates.len()
        invariant
            i <= candidates@.len(),
            i == 0 <==> best is None,
            best matches Some(p) ==> is_first_least(candidates@.take(i as int), p as int),
        decreases candidates@.len() - i,
    {
        let (_, buffered) = candidates[i];
        match best {
            None => {
                best = Some(i);
            },
            Some(p) => {
                if buffered < candidates[p].1 {
                    best = Some(i);
                }
            },
        }
        assert(candidates@.take(i as int + 1) =~= candidates@.take(i as int).push(candidates@[i as int]));
        i += 1;
    }
    assert(candidates@.take(i as int) =~= candidates@);
    match best {
        None => None,
        Some(p) => Some(candidates[p].0),
    }
}

/// What is known of the connection in a slot at the moment of a query.
#[derive(Clone, Copy, Debug, PartialEq, Eq, Structural)]
pub struct SlotStatus {
    /// The connection is alive.
    pub alive: bool,
    /// The bytes buffered on its reliable channel.
    pub buffered: usize,
    /// It goes through a TURN relay.
    pub relay: bool,
}

/// The slots among the first `n` that hold a live connection, each as
/// `(slot index, bytes buffered)`, in slot order.
pub open spec fn live_slots(installed: Seq<bool>, live: Seq<SlotStatus>, n: int) -> Seq<(usize, usize)>
    decreases n,
{
    if n <= 0 {
        Seq::empty()
    } else {
        let prev = live_slots(installed, live, n - 1);
        if installed[n - 1] && live[n - 1].alive {
            prev.push(((n - 1) as usize, live[n - 1].buffered))
        } else {
            prev
        }
    }
}

/// Whether one of the first `n` slots holds a live connection through a relay.
pub open spec fn some_live_relay(installed: Seq<bool>, live: Seq<SlotStatus>, n: int) -> bool {
    exists|i: int| 0 <= i < n && #[trigger] installed[i] && live[i].alive && live[i].relay
}

/// The slots of a pool: which hold a connection, and whether the pool was
/// shut down. A slot is filled at most once and is never emptied.
pub struct ConnectionPool {
    installed: Vec<bool>,
    closed: bool,
}

impl ConnectionPool {
    /// Which slots hold a connection.
    pub closed spec fn installed_spec(&self) -> Seq<bool> {
        self.installed@
    }

    /// Whether the pool was shut down.
    pub closed spec fn closed_spec(&self) -> bool {
        self.closed
    }

    /// A pool of `total_slots` slots (at least one), the primary connection
    /// in slot 0 and the others empty.
    pub fn new_with_primary(total_slots: usize) -> (r: Self)
        ensures
            r.installed_spec().len() == (if total_slots == 0 {
                1
            } else {
                total_slots as int
            }),
            r.installed_spec()[0],
            forall|i: int| 1 <= i < r.installed_spec().len() ==> !#[trigger] r.installed_spec()[i],
            !r.closed_spec(),
    {
        let n = if total_slots == 0 {
            1
        } else {
            total_slots
        };
        let mut installed: Vec<bool> = Vec::new();
        installed.push(true);
        let mut i: usize = 1;
        while i < n
            invariant
                1 <= i <= n,
                installed@.len() == i,
                installed@[0],
                forall|j: int| 1 <= j < i ==> !#[trigger] installed@[j],
            decreases n - i,
        {
            installed.push(false);
            i += 1;
        }
        ConnectionPool { installed, closed: false }
    }

    /// The number of slots.
    pub fn slot_count(&self) -> (r: usize)
        ensures
            r == self.installed_spec().len(),
    {
        self.installed.len()
    }

    /// Whether slot `idx` holds a connection.
    pub fn is_installed(&self, idx: usize) -> (r: bool)
        ensures
            r == (idx < self.installed_spec().len() && self.installed_spec()[idx as int]),
    {
        idx < self.installed.len() && self.installed[idx]
    }

    /// The connection for slot `idx` came up: it is installed when the slot
    /// exists and is still empty, and the answer says whether it was.
    pub fn install(&mut self, idx: usize) -> (installed: bool)
        ensures
            installed == (idx < old(self).installed_spec().len() && !old(self).installed_spec()[idx as int]),
            final(self).installed_spec().len() == old(self).installed_spec().len(),
            installed ==> final(self).installed_spec() == old(self).installed_spec().update(idx as int, true),
            !installed ==> final(self).installed_spec() == old(self).installed_spec(),
            final(self).closed_spec() == old(self).closed_spec(),
    {
        if idx < self.installed.len() && !self.installed[idx] {
            self.installed.set(idx, true);
            true
        } else {
            false
        }
    }

    /// Shuts the pool down: from now on nothing is sent through it.
    pub fn shutdown_all(&mut self)
        ensures
            final(self).closed_spec(),
            final(self).installed_spec() == old(self).installed_spec(),
    {
        self.closed = true;
    }

    fn live_candidates(&self, live: &Vec<SlotStatus>) -> (r: Vec<(usize, usize)>)
        requires
            live@.len() == self.installed_spec().len(),
        ensures
            r@ == live_slots(self.installed_spec(), live@, live@.len() as int),
    {
        let mut r: Vec<(usize, usize)> = Vec::new();
        let mut i: usize = 0;
        while i < live.len()
            invariant
                i <= live@.len(),
                live@.len() == self.installed@.len(),
                r@ == live_slots(self.installed@, live@, i as int),
            decreases live@.len() - i,
        {
            if self.installed[i] && live[i].alive {
                r.push((i, live[i].buffered));
            }
            i += 1;
        }
        r
    }

    /// The slot that carries the next reliable packet, given the status of
    /// each slot's connection: none once the pool is shut down; otherwise,
    /// of the slots with a live connection, the one with the least buffered,
    /// the lowest index on a tie.
    pub fn reliable_target(&self, live: &Vec<SlotStatus>) -> (r: Option<usize>)
        requires
            self.closed_spec() || live@.len() == self.installed_spec().len(),
        ensures
            self.closed_spec() ==> r is None,
            !self.closed_spec() ==> (r is None <==> live_slots(
                self.installed_spec(),
                live@,
                live@.len() as int,
            ).len() == 0),
            r matches Some(idx) ==> exists|pos: int|
                is_first_least(live_slots(self.installed_spec(), live@, live@.len() as int), pos)
                    && #[trigger] live_slots(self.installed_spec(), live@, live@.len() as int)[pos].0
                    == idx,
    {
        if self.closed {
            return None;
        }
        let cands = self.live_candidates(live);
        pick_least_buffered(&cands)
    }

    /// Whether control messages can be sent: the pool is open and slot 0
    /// holds a live connection.
    pub fn slot0_alive(&self, live: &Vec<SlotStatus>) -> (r: bool)
        requires
            self.closed_spec() || live@.len() == self.installed_spec().len(),
        ensures
            r == (!self.closed_spec() && self.installed_spec().len() > 0 && self.installed_spec()[0]
                && live@[0].alive),
    {
        !self.closed && self.installed.len() > 0 && self.installed[0] && live[0].alive
    }

    /// How many slots hold a live connection; none once the pool is shut down.
    pub fn alive_count(&self, live: &Vec<SlotStatus>) -> (r: usize)
        requires
            self.closed_spec() || live@.len() == self.installed_spec().len(),
        ensures
            r == (if self.closed_spec() {
                0
            } else {
                live_slots(self.installed_spec(), live@, live@.len() as int).len()
            }),
    {
        if self.closed {
            return 0;
        }
        let cands = self.live_candidates(live);
        cands.len()
    }

    /// Whether a live connection of the pool goes through a relay; never once
    /// the pool is shut down.
    pub fn any_slot_is_relay(&self, live: &Vec<SlotStatus>) -> (r: bool)
        requires
            self.closed_spec() || live@.len() == self.installed_spec().len(),
        ensures
            r == (!self.closed_spec() && some_live_relay(self.installed_spec(), live@, live@.len() as int)),
    {
        if self.closed {
            return false;
        }
        let mut i: usize = 0;
        while i < live.len()
            invariant
                i <= live@.len(),
                live@.len() == self.installed@.len(),
                !self.closed,
                !some_live_relay(self.installed@, live@, i as int),
            decreases live@.len() - i,
        {
            if self.installed[i] && live[i].alive && live[i].relay {
                assert(self.installed@[i as int] && live@[i as int].alive && live@[i as int].relay);
                assert(some_live_relay(self.installed@, live@, live@.len() as int));
                return true;
            }
            i += 1;
        }
        false
    }
}

} // verus!
