use crate::entity::{Entity, EntityData, EntityStore, ResourceKind, RobotKind};
use crate::grid::Position;
use vstd::prelude::*;

verus! {

/// One collection: which robot collected which kind of resource, and where.
#[derive(Clone, Copy, PartialEq, Eq, Structural, Debug)]
pub struct CollectionEvent {
    pub robot_id: i32,
    pub kind: ResourceKind,
    pub pos: Position,
}

/// A collector robot's number and position, as read from the store.
#[derive(Clone, Copy, PartialEq, Eq, Structural, Debug)]
pub struct CollectorRef {
    pub robot_id: i32,
    pub pos: Position,
}

/// The robot number of a robot entity.
pub open spec fn robot_number_of(e: Entity) -> i32 {
    match e.data {
        EntityData::Robot(info) => info.id,
        _ => arbitrary(),
    }
}

/// The resource kind of a resource entity.
pub open spec fn resource_kind_of(e: Entity) -> ResourceKind {
    match e.data {
        EntityData::Resource(k) => k,
        _ => arbitrary(),
    }
}

/// The collector robots of `s`, in store order.
pub open spec fn spec_collectors(s: Seq<Entity>) -> Seq<CollectorRef>
    decreases s.len(),
{
    if s.len() == 0 {
        Seq::empty()
    } else {
        let pre = spec_collectors(s.drop_last());
        if s.last().is_collector() {
            pre.push(CollectorRef { robot_id: robot_number_of(s.last()), pos: s.last().pos })
        } else {
            pre
        }
    }
}

/// Whether some collector of `c` stands at `pos`.
pub open spec fn spec_collector_at(c: Seq<CollectorRef>, pos: Position) -> bool {
    exists|j: int| 0 <= j < c.len() && c[j].pos == pos
}

/// Whether entity `e` is collected, given where the collectors `c` stand: it
/// is a resource sharing its exact position with some collector. Non-collector
/// robots never trigger collection, whatever they stand on.
pub open spec fn spec_collected(c: Seq<CollectorRef>, e: Entity) -> bool {
    e.is_resource() && spec_collector_at(c, e.pos)
}

/// The number of the first collector of `c` standing at `pos`: the
/// deterministic tie-break when several collectors share a resource's cell.
pub open spec fn spec_first_collector_id(c: Seq<CollectorRef>, pos: Position) -> i32
    decreases c.len(),
{
    if c.len() == 0 {
        arbitrary()
    } else if c[0].pos == pos {
        c[0].robot_id
    } else {
        spec_first_collector_id(c.drop_first(), pos)
    }
}

/// The entities that survive one resolution: everything except the collected
/// resources, in their original order.
pub open spec fn spec_surviving(c: Seq<CollectorRef>, s: Seq<Entity>) -> Seq<Entity>
    decreases s.len(),
{
    if s.len() == 0 {
        Seq::empty()
    } else {
        let pre = spec_surviving(c, s.drop_last());
        if spec_collected(c, s.last()) {
            pre
        } else {
            pre.push(s.last())
        }
    }
}

/// The events of one resolution: one per collected resource, in store order,
/// each crediting the first collector standing on that resource.
pub open spec fn spec_events(c: Seq<CollectorRef>, s: Seq<Entity>) -> Seq<CollectionEvent>
    decreases s.len(),
{
    if s.len() == 0 {
        Seq::empty()
    } else {
        let pre = spec_events(c, s.drop_last());
        if spec_collected(c, s.last()) {
            pre.push(
                CollectionEvent {
                    robot_id: spec_first_collector_id(c, s.last().pos),
                    kind: resource_kind_of(s.last()),
                    pos: s.last().pos,
                },
            )
        } else {
            pre
        }
    }
}

/// The first match wins: if no collector before index `j` stands at `pos` and
/// collector `j` does, it is the one credited.
proof fn lemma_first_collector(c: Seq<CollectorRef>, pos: Position, j: int)
    requires
        0 <= j < c.len(),
        c[j].pos == pos,
        forall|l: int| 0 <= l < j ==> c[l].pos != pos,
    ensures
        spec_first_collector_id(c, pos) == c[j].robot_id,
    decreases j,
{
    if j > 0 {
        lemma_first_collector(c.drop_first(), pos, j - 1);
    }
}

/// Looks up the first collector standing at `pos`, if any.
fn find_collector_at(collectors: &Vec<CollectorRef>, pos: Position) -> (r: Option<i32>)
    ensures
        r is Some <==> spec_collector_at(collectors@, pos),
        r is Some ==> r->0 == spec_first_collector_id(collectors@, pos),
{
    let n = collectors.len();
    let mut j: usize = 0;
    while j < n
        invariant
            n == collectors@.len(),
            j <= n,
            forall|l: int| 0 <= l < j ==> collectors@[l].pos != pos,
        decreases n - j,
    {
        let cand = collectors[j];
        if cand.pos.x == pos.x && cand.pos.y == pos.y {
            proof {
                lemma_first_collector(collectors@, pos, j as int);
            }
            return Some(cand.robot_id);
        }
        j += 1;
    }
    None
}

/// Resolves collection once: every resource sharing a position with some
/// collector robot is removed from the store, and one event per removed
/// resource reports the collecting robot (ties between co-located collectors
/// go to the one earliest in the store), its kind, and the position. Everything
/// else — robots, obstacles, the base, and unshared resources — stays, in
/// order. Called every simulation step, independent of the movement timer.
pub fn resolve(store: &mut EntityStore) -> (events: Vec<CollectionEvent>)
    ensures
        final(store)@ == spec_surviving(spec_collectors(old(store)@), old(store)@),
        events@ == spec_events(spec_collectors(old(store)@), old(store)@),
        final(store).spec_next_id() == old(store).spec_next_id(),
{
    let n = store.len();
    let mut collectors: Vec<CollectorRef> = Vec::new();
    let mut i: usize = 0;
    while i < n
        invariant
            store@ == old(store)@,
            store.spec_next_id() == old(store).spec_next_id(),
            n == store@.len(),
            i <= n,
            collectors@ == spec_collectors(store@.take(i as int)),
        decreases n - i,
    {
        proof {
            assert(store@.take(i + 1).drop_last() =~= store@.take(i as int));
        }
        let e = *store.get(i);
        if let EntityData::Robot(info) = e.data {
            if matches!(info.kind, RobotKind::Collector) {
                collectors.push(CollectorRef { robot_id: info.id, pos: e.pos });
            }
        }
        i += 1;
    }
    proof {
        assert(store@.take(n as int) =~= store@);
    }

    let ghost c = collectors@;
    let ghost orig = store@;
    let mut events: Vec<CollectionEvent> = Vec::new();
    let mut len = n;
    let mut i: usize = 0;
    let ghost mut k: int = 0;
    while i < len
        invariant
            c == collectors@,
            orig == old(store)@,
            0 <= k <= orig.len(),
            len == store@.len(),
            i == spec_surviving(c, orig.take(k)).len(),
            store@ == spec_surviving(c, orig.take(k)) + orig.skip(k),
            events@ == spec_events(c, orig.take(k)),
            store.spec_next_id() == old(store).spec_next_id(),
        decreases orig.len() - k,
    {
        proof {
            assert(orig.take(k + 1).drop_last() =~= orig.take(k));
            assert(store@[i as int] == orig[k]);
        }
        let e = *store.get(i);
        let mut collected = false;
        if let EntityData::Resource(kind) = e.data {
            match find_collector_at(&collectors, e.pos) {
                Some(robot_id) => {
                    collected = true;
                    events.push(CollectionEvent { robot_id, kind, pos: e.pos });
                    store.remove_at(i);
                    len = len - 1;
                    proof {
                        assert(spec_collected(c, orig[k]));
                        assert(spec_surviving(c, orig.take(k + 1)) == spec_surviving(
                            c,
                            orig.take(k),
                        ));
                        assert(store@ =~= spec_surviving(c, orig.take(k + 1)) + orig.skip(
                            k + 1,
                        ));
                    }
                },
                None => {},
            }
        }
        if !collected {
            i += 1;
            proof {
                assert(!spec_collected(c, orig[k]));
                assert(spec_surviving(c, orig.take(k + 1)) =~= spec_surviving(
                    c,
                    orig.take(k),
                ).push(orig[k]));
                assert(store@ =~= spec_surviving(c, orig.take(k + 1)) + orig.skip(k + 1));
            }
        }
        proof {
            k = k + 1;
        }
    }
    proof {
        assert(orig.skip(k) =~= Seq::<Entity>::empty());
        assert(k == orig.len());
        assert(orig.take(k) =~= orig);
        assert(store@ =~= spec_surviving(c, orig));
    }
    events
}

/// Resolution keeps every robot where it was: only resources are removed, so
/// the collectors after a resolution are exactly those before it.
proof fn lemma_surviving_collectors(c: Seq<CollectorRef>, s: Seq<Entity>)
    ensures
        spec_collectors(spec_surviving(c, s)) == spec_collectors(s),
    decreases s.len(),
{
    if s.len() > 0 {
        lemma_surviving_collectors(c, s.drop_last());
        let pre = spec_surviving(c, s.drop_last());
        if spec_collected(c, s.last()) {
            assert(!s.last().is_collector());
        } else {
            assert(pre.push(s.last()).drop_last() =~= pre);
        }
    }
}

/// Nothing that survives a resolution is still collected by the same
/// collectors: every co-located resource was removed.
proof fn lemma_surviving_uncollected(c: Seq<CollectorRef>, s: Seq<Entity>)
    ensures
        forall|i: int|
            0 <= i < spec_surviving(c, s).len() ==> !spec_collected(
                c,
                #[trigger] spec_surviving(c, s)[i],
            ),
    decreases s.len(),
{
    if s.len() > 0 {
        lemma_surviving_uncollected(c, s.drop_last());
        let pre = spec_surviving(c, s.drop_last());
        if !spec_collected(c, s.last()) {
            assert forall|i: int| 0 <= i < spec_surviving(c, s).len() implies !spec_collected(
                c,
                #[trigger] spec_surviving(c, s)[i],
            ) by {
                if i < pre.len() {
                    assert(spec_surviving(c, s)[i] == pre[i]);
                } else {
                    assert(spec_surviving(c, s)[i] == s.last());
                }
            }
        }
    }
}

/// When nothing of `s` is collected, resolution emits no event and removes
/// nothing.
proof fn lemma_resolve_noop(c: Seq<CollectorRef>, s: Seq<Entity>)
    requires
        forall|i: int| 0 <= i < s.len() ==> !spec_collected(c, #[trigger] s[i]),
    ensures
        spec_events(c, s) == Seq::<CollectionEvent>::empty(),
        spec_surviving(c, s) == s,
    decreases s.len(),
{
    if s.len() > 0 {
        assert(forall|i: int|
            0 <= i < s.drop_last().len() ==> !spec_collected(c, #[trigger] s.drop_last()[i]));
        lemma_resolve_noop(c, s.drop_last());
        assert(spec_surviving(c, s) =~= s);
    }
}

/// Resolution is idempotent: once a resolution has run, running it again with
/// no intervening movement collects nothing and changes nothing — the first
/// pass already removed every resource that shared a cell with a collector.
pub proof fn lemma_resolve_idempotent(s: Seq<Entity>)
    ensures
        ({
            let once = spec_surviving(spec_collectors(s), s);
            &&& spec_events(spec_collectors(once), once) == Seq::<CollectionEvent>::empty()
            &&& spec_surviving(spec_collectors(once), once) == once
        }),
{
    let c = spec_collectors(s);
    let once = spec_surviving(c, s);
    lemma_surviving_collectors(c, s);
    lemma_surviving_uncollected(c, s);
    lemma_resolve_noop(c, once);
}

} // verus!
