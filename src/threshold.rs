use vstd::prelude::*;

verus! {

/// The time from `from` to `to`, or zero when `to` is not later.
pub open spec fn elapsed(from: u64, to: u64) -> u64 {
    if to >= from {
        (to - from) as u64
    } else {
        0
    }
}

/// The instants recorded after `now` joins `recorded`: the last `capacity`
/// of them, oldest first.
pub open spec fn record_spec(recorded: Seq<u64>, capacity: nat, now: u64) -> Seq<u64> {
    if capacity == 0 {
        Seq::<u64>::empty()
    } else if recorded.push(now).len() > capacity {
        recorded.push(now).drop_first()
    } else {
        recorded.push(now)
    }
}

/// Whether the threshold is met at `now`, given what is recorded after `now`
/// joined: `capacity` events, the oldest of them no more than `window`
/// before `now`.
pub open spec fn fires_spec(recorded: Seq<u64>, capacity: nat, window: u64, now: u64) -> bool {
    capacity == 0 || (recorded.len() == capacity && elapsed(recorded[0], now) <= window)
}

/// The instants of the last `capacity` qualifying events, kept in a ring.
#[derive(Debug)]
pub struct ThresholdRing {
    /// How many events must fall in the window.
    pub capacity: usize,
    /// The window, in nanoseconds.
    pub window: u64,
    /// The ring's slots.
    pub history: Vec<u64>,
    /// The slot of the oldest instant once the ring is full.
    pub next: usize,
}

impl ThresholdRing {
    pub open spec fn wf(&self) -> bool {
        &&& self.history@.len() <= self.capacity
        &&& (self.history@.len() < self.capacity ==> self.next == 0)
        &&& (self.history@.len() == self.capacity && self.capacity > 0 ==> self.next
            < self.capacity)
        &&& (self.capacity == 0 ==> self.next == 0)
    }

    /// The recorded instants, oldest first.
    pub open spec fn recorded(&self) -> Seq<u64> {
        self.history@.subrange(self.next as int, self.history@.len() as int)
            + self.history@.subrange(0, self.next as int)
    }

    /// An empty ring that asks for `capacity` events within `window`
    /// nanoseconds.
    pub fn new(capacity: usize, window: u64) -> (r: ThresholdRing)
        ensures
            r.wf(),
            r.capacity == capacity,
            r.window == window,
            r.recorded() == Seq::<u64>::empty(),
    {
        let r = ThresholdRing { capacity, window, history: Vec::new(), next: 0 };
        assert(r.recorded() =~= Seq::<u64>::empty());
        r
    }

    /// Records a qualifying event at `now` and says whether the threshold is met.
    pub fn record(&mut self, now: u64) -> (fired: bool)
        requires
            old(self).wf(),
        ensures
            final(self).wf(),
            final(self).capacity == old(self).capacity,
            final(self).window == old(self).window,
            final(self).recorded() == record_spec(
                old(self).recorded(),
                old(self).capacity as nat,
                now,
            ),
            fired == fires_spec(
                final(self).recorded(),
                old(self).capacity as nat,
                old(self).window,
                now,
            ),
    {
        let ghost before = self.recorded();
        if self.capacity == 0 {
            assert(self.history@.len() == 0);
            assert(self.recorded() =~= Seq::<u64>::empty());
            return true;
        }
        if self.history.len() < self.capacity {
            assert(before =~= self.history@);
            self.history.push(now);
            assert(self.recorded() =~= before.push(now));
            if self.history.len() < self.capacity {
                return false;
            }
        } else {
            let n = self.next;
            self.history.set(n, now);
            self.next = if n + 1 == self.capacity { 0 } else { n + 1 };
            assert(self.recorded() =~= before.push(now).drop_first());
        }
        let oldest = self.history[self.next];
        assert(self.recorded()[0] == oldest);
        if now >= oldest {
            now - oldest <= self.window
        } else {
            true
        }
    }
}

/// When the threshold is met, the `capacity` events that met it were all
/// recorded within `window` before `now`, the last of them at `now`,
/// provided the instants arrive in order.
pub proof fn lemma_fired_window_holds_enough(
    recorded: Seq<u64>,
    capacity: nat,
    window: u64,
    now: u64,
)
    requires
        recorded.len() <= capacity,
        forall|i: int, j: int| 0 <= i <= j < recorded.len() ==> recorded[i] <= recorded[j],
        forall|i: int| 0 <= i < recorded.len() ==> recorded[i] <= now,
        fires_spec(record_spec(recorded, capacity, now), capacity, window, now),
        capacity > 0,
    ensures
        record_spec(recorded, capacity, now).len() == capacity,
        record_spec(recorded, capacity, now).last() == now,
        forall|i: int|
            0 <= i < capacity ==> now - window <= #[trigger] record_spec(recorded, capacity, now)[i]
                <= now,
{
    let r = record_spec(recorded, capacity, now);
    let p = recorded.push(now);
    assert forall|i: int, j: int| 0 <= i <= j < p.len() implies p[i] <= p[j] by {
        if j < recorded.len() {
            assert(p[i] == recorded[i] && p[j] == recorded[j]);
        } else {
            assert(p[j] == now);
            if i < recorded.len() {
                assert(p[i] == recorded[i]);
            }
        }
    }
    assert forall|i: int| 0 <= i < capacity implies now - window <= #[trigger] r[i] <= now by {
        if p.len() > capacity {
            assert(r[i] == p[i + 1]);
            assert(r[0] == p[1]);
        } else {
            assert(r[i] == p[i]);
            assert(r[0] == p[0]);
        }
        assert(r[0] <= r[i]);
    }
}

} // verus!
