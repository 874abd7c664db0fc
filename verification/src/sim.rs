use crate::entity::{Entity, EntityStore};
use crate::grid::GridMap;
use crate::resolver::{
    resolve, spec_collectors, spec_events, spec_surviving, CollectionEvent, CollectorRef,
};
use crate::scheduler::{
    entities_in_bounds, spec_move_all, spec_timer_after, spec_timer_fires, RobotScheduler,
};
use vstd::prelude::*;

verus! {

/// Resolution only removes entities, so every survivor was already on the grid.
proof fn lemma_surviving_in_bounds(c: Seq<CollectorRef>, s: Seq<Entity>, grid: GridMap)
    requires
        entities_in_bounds(s, grid),
    ensures
        entities_in_bounds(spec_surviving(c, s), grid),
    decreases s.len(),
{
    if s.len() > 0 {
        assert(entities_in_bounds(s.drop_last(), grid)) by {
            assert forall|i: int| 0 <= i < s.drop_last().len() implies grid.spec_in_bounds(
                #[trigger] s.drop_last()[i].pos,
            ) by {
                assert(s.drop_last()[i] == s[i]);
            }
        }
        lemma_surviving_in_bounds(c, s.drop_last(), grid);
        let pre = spec_surviving(c, s.drop_last());
        if !crate::resolver::spec_collected(c, s.last()) {
            assert forall|i: int| 0 <= i < spec_surviving(c, s).len() implies grid.spec_in_bounds(
                #[trigger] spec_surviving(c, s)[i].pos,
            ) by {
                if i < pre.len() {
                    assert(spec_surviving(c, s)[i] == pre[i]);
                } else {
                    assert(spec_surviving(c, s)[i] == s.last());
                    assert(grid.spec_in_bounds(s[s.len() - 1].pos));
                }
            }
        }
    }
}

/// The whole simulation core: the grid, the live entities, and the movement
/// scheduler. The host reads entities for presentation and calls [`advance`]
/// once per rendered frame; nothing else ever mutates the state.
///
/// [`advance`]: Simulation::advance
pub struct Simulation {
    grid: GridMap,
    store: EntityStore,
    scheduler: RobotScheduler,
}

impl View for Simulation {
    type V = Seq<Entity>;

    /// The live entities, in store order.
    closed spec fn view(&self) -> Seq<Entity> {
        self.store@
    }
}

impl Simulation {
    pub closed spec fn spec_grid(self) -> GridMap {
        self.grid
    }

    /// The time accumulated toward the next movement tick.
    pub closed spec fn spec_acc(self) -> u64 {
        self.scheduler.spec_acc()
    }

    #[verifier::type_invariant]
    closed spec fn wf(self) -> bool {
        entities_in_bounds(self.store@, self.grid)
    }

    /// Assembles a simulation from a generated grid and a populated store,
    /// accepting them exactly when every entity lies on the grid; the movement
    /// timer starts empty.
    pub fn new(grid: GridMap, store: EntityStore) -> (r: Option<Simulation>)
        ensures
            r is Some <==> entities_in_bounds(store@, grid),
            r is Some ==> r->0@ == store@ && r->0.spec_grid() == grid && r->0.spec_acc() == 0,
    {
        let n = store.len();
        let mut i: usize = 0;
        while i < n
            invariant
                n == store@.len(),
                i <= n,
                forall|j: int| 0 <= j < i ==> grid.spec_in_bounds(#[trigger] store@[j].pos),
            decreases n - i,
        {
            let e = store.get(i);
            if !grid.in_bounds(e.pos) {
                return None;
            }
            i += 1;
        }
        Some(Simulation { grid, store, scheduler: RobotScheduler::new() })
    }

    pub fn grid(&self) -> (g: GridMap)
        ensures
            g == self.spec_grid(),
    {
        self.grid
    }

    pub fn entity_count(&self) -> (n: usize)
        ensures
            n == self@.len(),
    {
        self.store.len()
    }

    pub fn entity_at(&self, i: usize) -> (e: Entity)
        requires
            i < self@.len(),
        ensures
            e == self@[i as int],
    {
        *self.store.get(i)
    }

    /// The per-frame entry point: accumulates `elapsed_ms` into the movement
    /// timer — robots move once when the period elapses — and then resolves
    /// resource collection once, returning this step's collection events.
    pub fn advance(&mut self, elapsed_ms: u64) -> (events: Vec<CollectionEvent>)
        ensures
            final(self).spec_grid() == old(self).spec_grid(),
            final(self).spec_acc() == spec_timer_after(old(self).spec_acc(), elapsed_ms),
            ({
                let mid = if spec_timer_fires(old(self).spec_acc(), elapsed_ms) {
                    spec_move_all(old(self)@, old(self).spec_grid())
                } else {
                    old(self)@
                };
                &&& final(self)@ == spec_surviving(spec_collectors(mid), mid)
                &&& events@ == spec_events(spec_collectors(mid), mid)
            }),
    {
        proof {
            use_type_invariant(&*self);
        }
        let mut store = EntityStore::new();
        core::mem::swap(&mut store, &mut self.store);
        let mut sch = self.scheduler;
        let moved = sch.tick(elapsed_ms, &mut store, &self.grid);
        let events = resolve(&mut store);
        proof {
            let mid = if moved {
                spec_move_all(old(self)@, old(self).spec_grid())
            } else {
                old(self)@
            };
            lemma_surviving_in_bounds(spec_collectors(mid), mid, self.grid);
        }
        core::mem::swap(&mut store, &mut self.store);
        self.scheduler = sch;
        events
    }
}

} // verus!
