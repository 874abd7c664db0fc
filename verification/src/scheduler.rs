use crate::entity::{Entity, EntityData, EntityStore};
use crate::grid::{GridMap, Position};
use vstd::arithmetic::div_mod::lemma_mod_multiples_vanish;
use vstd::prelude::*;

verus! {

/// The movement period in milliseconds: robots advance once per elapsed second,
/// however often the host calls in between.
pub const TICK_PERIOD_MS: u64 = 1000;

/// Every entity position lies on the grid.
pub open spec fn entities_in_bounds(s: Seq<Entity>, grid: GridMap) -> bool {
    forall|i: int| 0 <= i < s.len() ==> grid.spec_in_bounds(#[trigger] s[i].pos)
}

/// Where entity `e` stands after one movement tick on `grid`: a robot advances
/// one diagonal step with wraparound, unless it is parked at the grid's
/// geometric center; everything else never moves. Movement is unconditional:
/// robots avoid no obstacles and target no resources.
///
/// Parking is keyed to the geometric center on purpose, not to the base
/// entity's actual position: the base is placed at random and generally lies
/// elsewhere.
pub open spec fn spec_move_entity(e: Entity, grid: GridMap) -> Entity {
    if e.is_robot() && e.pos != grid.spec_center() {
        Entity { pos: grid.spec_step(e.pos), ..e }
    } else {
        e
    }
}

/// All entities after one movement tick.
pub open spec fn spec_move_all(s: Seq<Entity>, grid: GridMap) -> Seq<Entity> {
    s.map(|i: int, e: Entity| spec_move_entity(e, grid))
}

/// Whether a timer that had accumulated `acc` fires when `elapsed` more time
/// arrives: the accumulated total reaches the period.
pub open spec fn spec_timer_fires(acc: u64, elapsed: u64) -> bool {
    acc + elapsed >= TICK_PERIOD_MS
}

/// The accumulated time left on the timer after the call: the total, reduced
/// modulo the period once it fires.
pub open spec fn spec_timer_after(acc: u64, elapsed: u64) -> u64 {
    if acc + elapsed >= TICK_PERIOD_MS {
        ((acc + elapsed) % (TICK_PERIOD_MS as int)) as u64
    } else {
        (acc + elapsed) as u64
    }
}

/// Advances each robot once per fixed tick interval: calls accumulate elapsed
/// time, and movement takes effect only when the repeating period elapses.
#[derive(Clone, Copy, Debug)]
pub struct RobotScheduler {
    acc_ms: u64,
}

impl RobotScheduler {
    /// The time accumulated toward the next movement tick, below the period.
    pub closed spec fn spec_acc(self) -> u64 {
        self.acc_ms
    }

    #[verifier::type_invariant]
    closed spec fn wf(self) -> bool {
        self.acc_ms < TICK_PERIOD_MS
    }

    /// A scheduler with nothing accumulated yet.
    pub fn new() -> (s: RobotScheduler)
        ensures
            s.spec_acc() == 0,
    {
        RobotScheduler { acc_ms: 0 }
    }

    /// Accumulates `elapsed_ms` and, once the period has elapsed, moves every
    /// robot one diagonal step with wraparound — except robots parked at the
    /// grid's geometric center, which stay put. Calls within the same period
    /// only accumulate time. Returns whether movement took effect.
    pub fn tick(&mut self, elapsed_ms: u64, store: &mut EntityStore, grid: &GridMap) -> (moved:
        bool)
        requires
            entities_in_bounds(old(store)@, *grid),
        ensures
            moved == spec_timer_fires(old(self).spec_acc(), elapsed_ms),
            final(self).spec_acc() == spec_timer_after(old(self).spec_acc(), elapsed_ms),
            moved ==> final(store)@ == spec_move_all(old(store)@, *grid),
            !moved ==> final(store)@ == old(store)@,
            final(store).spec_next_id() == old(store).spec_next_id(),
            entities_in_bounds(final(store)@, *grid),
    {
        proof {
            use_type_invariant(&*self);
        }
        let remaining = TICK_PERIOD_MS - self.acc_ms;
        if elapsed_ms < remaining {
            self.acc_ms = self.acc_ms + elapsed_ms;
            return false;
        }
        let overshoot = (elapsed_ms - remaining) % TICK_PERIOD_MS;
        proof {
            lemma_mod_multiples_vanish(
                1,
                elapsed_ms - remaining,
                TICK_PERIOD_MS as int,
            );
        }
        self.acc_ms = overshoot;

        let n = store.len();
        let center = grid.center();
        let mut i: usize = 0;
        while i < n
            invariant
                entities_in_bounds(old(store)@, *grid),
                n == old(store)@.len(),
                store@.len() == n,
                i <= n,
                center == grid.spec_center(),
                forall|j: int|
                    0 <= j < i ==> store@[j] == spec_move_entity(old(store)@[j], *grid),
                forall|j: int| i <= j < n ==> store@[j] == old(store)@[j],
                store.spec_next_id() == old(store).spec_next_id(),
            decreases n - i,
        {
            let e = *store.get(i);
            if matches!(e.data, EntityData::Robot(_)) && !(e.pos.x == center.x && e.pos.y
                == center.y) {
                let p2 = grid.step(e.pos);
                store.set_pos(i, p2);
            }
            i += 1;
        }
        proof {
            assert(store@ =~= spec_move_all(old(store)@, *grid));
            assert forall|j: int| 0 <= j < store@.len() implies grid.spec_in_bounds(
                #[trigger] store@[j].pos,
            ) by {
                assert(grid.spec_in_bounds(old(store)@[j].pos));
            }
        }
        true
    }
}

/// Movement wraparound: a robot standing at the far corner of the grid — as
/// long as that corner is not the parking center — advances to the origin.
pub proof fn lemma_corner_wraps(e: Entity, grid: GridMap)
    requires
        e.is_robot(),
        grid.spec_width() > 0,
        grid.spec_height() > 0,
        e.pos.x == grid.spec_width() - 1,
        e.pos.y == grid.spec_height() - 1,
        e.pos != grid.spec_center(),
    ensures
        spec_move_entity(e, grid).pos == (Position { x: 0, y: 0 }),
        spec_move_entity(e, grid).data == e.data,
        spec_move_entity(e, grid).id == e.id,
{
    let w = grid.spec_width() as int;
    let h = grid.spec_height() as int;
    assert(w % w == 0 && h % h == 0) by (nonlinear_arith)
        requires
            w > 0 && h > 0,
    ;
}

/// Parked-robot invariant: an entity standing exactly at the grid's geometric
/// center is left alone by every movement tick, so once a robot reaches the
/// center it never moves again.
pub proof fn lemma_parked_at_center(e: Entity, grid: GridMap)
    requires
        e.pos == grid.spec_center(),
    ensures
        spec_move_entity(e, grid) == e,
{
}

} // verus!
