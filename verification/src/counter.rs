//! Observability state: the live-particle counter and the last known
//! mouse position. The counter is incremented on every spawn and
//! decremented on every removal; a removal that would drive it negative
//! is an invariant violation, so it clamps at zero and raises a flag
//! instead of wrapping.

use vstd::prelude::*;

verus! {

/// Process-wide state holding the last computed world-space cursor
/// position, in `SCALE` subcell units.
#[derive(Clone, Copy, Debug, PartialEq, Eq, Structural)]
pub struct MousePointer {
    pub x: i64,
    pub y: i64,
}

/// Live-particle count plus the last mouse position, with a flag that
/// records whether a removal ever found the counter already at zero.
#[derive(Clone, Copy, Debug, PartialEq, Eq, Structural)]
pub struct DebugInfo {
    pub entity_count: usize,
    pub mouse_x: i64,
    pub mouse_y: i64,
    pub underflow_flagged: bool,
}

/// The counter value after recording one removal: one less, clamped at
/// zero.
pub open spec fn count_after_removal(c: int) -> int {
    if c > 0 {
        c - 1
    } else {
        0
    }
}

impl DebugInfo {
    pub fn new() -> (d: DebugInfo)
        ensures
            d.entity_count == 0,
            d.mouse_x == 0,
            d.mouse_y == 0,
            !d.underflow_flagged,
    {
        DebugInfo { entity_count: 0, mouse_x: 0, mouse_y: 0, underflow_flagged: false }
    }

    /// Records `n` freshly spawned particles.
    pub fn record_spawned(&mut self, n: usize)
        requires
            old(self).entity_count + n <= usize::MAX,
        ensures
            final(self).entity_count == old(self).entity_count + n,
            final(self).mouse_x == old(self).mouse_x,
            final(self).mouse_y == old(self).mouse_y,
            final(self).underflow_flagged == old(self).underflow_flagged,
    {
        self.entity_count = self.entity_count + n;
    }

    /// Records one removed particle, clamping at zero and flagging the
    /// underflow rather than wrapping.
    pub fn record_removal(&mut self)
        ensures
            final(self).entity_count == count_after_removal(old(self).entity_count as int),
            final(self).underflow_flagged == (old(self).underflow_flagged || old(
                self,
            ).entity_count == 0),
            final(self).mouse_x == old(self).mouse_x,
            final(self).mouse_y == old(self).mouse_y,
    {
        if self.entity_count > 0 {
            self.entity_count = self.entity_count - 1;
        } else {
            self.underflow_flagged = true;
        }
    }

    /// Stores the cursor position sampled this frame.
    pub fn note_mouse(&mut self, x: i64, y: i64)
        ensures
            final(self).mouse_x == x,
            final(self).mouse_y == y,
            final(self).entity_count == old(self).entity_count,
            final(self).underflow_flagged == old(self).underflow_flagged,
    {
        self.mouse_x = x;
        self.mouse_y = y;
    }
}

impl MousePointer {
    pub fn new() -> (m: MousePointer)
        ensures
            m.x == 0,
            m.y == 0,
    {
        MousePointer { x: 0, y: 0 }
    }

    /// Stores the cursor position sampled this frame.
    pub fn set(&mut self, x: i64, y: i64)
        ensures
            final(self).x == x,
            final(self).y == y,
    {
        self.x = x;
        self.y = y;
    }
}

/// One bookkeeping event for the live-particle counter.
pub enum CounterEvent {
    Spawned(int),
    Removed,
}

/// The net sum of a sequence of counter events: spawns add their batch
/// size, each removal subtracts one.
pub open spec fn net_sum(events: Seq<CounterEvent>) -> int
    decreases events.len(),
{
    if events.len() == 0 {
        0
    } else {
        net_sum(events.drop_last()) + match events.last() {
            CounterEvent::Spawned(n) => n,
            CounterEvent::Removed => -1,
        }
    }
}

/// The counter value after applying a sequence of events to a counter
/// that starts at zero, with removals clamping at zero.
pub open spec fn run_counter(events: Seq<CounterEvent>) -> int
    decreases events.len(),
{
    if events.len() == 0 {
        0
    } else {
        match events.last() {
            CounterEvent::Spawned(n) => run_counter(events.drop_last()) + n,
            CounterEvent::Removed => count_after_removal(run_counter(events.drop_last())),
        }
    }
}

/// Law (whole sequence): the live-particle counter never goes negative,
/// and as long as no prefix of the event sequence has more removals than
/// spawned particles (every spawn count being nonnegative), the counter
/// equals the net sum of the sequence.
pub proof fn lemma_counter_equals_net(events: Seq<CounterEvent>)
    requires
        forall|k: int|
            0 <= k <= events.len() ==> net_sum(#[trigger] events.take(k)) >= 0,
        forall|k: int|
            0 <= k < events.len() ==> (#[trigger] events[k] matches CounterEvent::Spawned(n)
                ==> n >= 0),
    ensures
        run_counter(events) >= 0,
        run_counter(events) == net_sum(events),
    decreases events.len(),
{
    if events.len() == 0 {
    } else {
        let head = events.drop_last();
        assert(events.take(events.len() as int) == events);
        assert(events.take(events.len() - 1) == head);
        assert(forall|k: int|
            0 <= k <= head.len() ==> #[trigger] head.take(k) == events.take(k));
        lemma_counter_equals_net(head);
        match events.last() {
            CounterEvent::Spawned(n) => {
                assert(events[events.len() - 1] matches CounterEvent::Spawned(m) ==> m >= 0);
            },
            CounterEvent::Removed => {
                assert(net_sum(events) >= 0);
            },
        }
    }
}

/// Law: for any sequence of spawns (adding their batch size) and
/// removals (subtracting one each) in which no prefix dips below zero,
/// the counter equals the net sum at every point along the sequence, and
/// it never goes negative.
pub proof fn lemma_counter_equals_net_at_every_point(events: Seq<CounterEvent>)
    requires
        forall|k: int|
            0 <= k <= events.len() ==> net_sum(#[trigger] events.take(k)) >= 0,
        forall|k: int|
            0 <= k < events.len() ==> (#[trigger] events[k] matches CounterEvent::Spawned(n)
                ==> n >= 0),
    ensures
        forall|k: int|
            0 <= k <= events.len() ==> run_counter(#[trigger] events.take(k)) == net_sum(
                events.take(k),
            ) && run_counter(events.take(k)) >= 0,
{
    assert forall|k: int| 0 <= k <= events.len() implies run_counter(
        #[trigger] events.take(k),
    ) == net_sum(events.take(k)) && run_counter(events.take(k)) >= 0 by {
        let prefix = events.take(k);
        assert(forall|j: int| 0 <= j <= prefix.len() ==> #[trigger] prefix.take(j) =~= events.take(
            j,
        ));
        lemma_counter_equals_net(prefix);
    }
}

} // verus!
