use crate::grid::Position;
use vstd::prelude::*;

verus! {

/// The kind of a collectable resource.
#[derive(Clone, Copy, PartialEq, Eq, Structural, Debug)]
pub enum ResourceKind {
    Energy,
    Mineral,
    ScientificSite,
}

/// The kind of a robot; only collectors remove resources they stand on.
#[derive(Clone, Copy, PartialEq, Eq, Structural, Debug)]
pub enum RobotKind {
    Explorer,
    Collector,
    Visitor,
}

/// The robot-specific attributes carried by a robot entity. The display name
/// is not stored: it is a pure function of `kind` and `id`, built on demand by
/// [`crate::mapgen::robot_name`].
#[derive(Clone, Copy, PartialEq, Eq, Structural, Debug)]
pub struct RobotInfo {
    /// The robot number, distinct from the entity identity.
    pub id: i32,
    pub kind: RobotKind,
    pub max_health: i32,
    pub speed: i32,
}

/// What an entity is: one closed set of variants.
#[derive(Clone, Copy, PartialEq, Eq, Structural, Debug)]
pub enum EntityData {
    Obstacle,
    Resource(ResourceKind),
    Base,
    Robot(RobotInfo),
}

/// One simulated object: a store-unique identity, its variant data, and a grid
/// position. Cross-entity relationships exist only through equal positions.
#[derive(Clone, Copy, PartialEq, Eq, Structural, Debug)]
pub struct Entity {
    pub id: u64,
    pub data: EntityData,
    pub pos: Position,
}

impl Entity {
    /// Whether this entity is a robot of collector kind.
    pub open spec fn is_collector(self) -> bool {
        match self.data {
            EntityData::Robot(info) => info.kind == RobotKind::Collector,
            _ => false,
        }
    }

    pub open spec fn is_robot(self) -> bool {
        self.data is Robot
    }

    pub open spec fn is_resource(self) -> bool {
        self.data is Resource
    }
}

/// The live set of simulated objects. The store owns every entity record,
/// assigns identities from a monotonic counter (so identities are unique for
/// the whole run), and supports positional lookup and removal by identity.
pub struct EntityStore {
    entities: Vec<Entity>,
    next_id: u64,
}

impl View for EntityStore {
    type V = Seq<Entity>;

    /// The entities in insertion order.
    closed spec fn view(&self) -> Seq<Entity> {
        self.entities@
    }
}

/// The first index in `s` holding an entity with identity `id`, or `-1`.
pub open spec fn spec_find_id(s: Seq<Entity>, id: u64) -> int
    decreases s.len(),
{
    if s.len() == 0 {
        -1
    } else if s[0].id == id {
        0
    } else {
        let rest = spec_find_id(s.drop_first(), id);
        if rest == -1 {
            -1
        } else {
            rest + 1
        }
    }
}

/// The indexes (in increasing order) of the entities of `s` placed at `pos`.
pub open spec fn spec_indexes_at(s: Seq<Entity>, pos: Position) -> Seq<usize>
    decreases s.len(),
{
    if s.len() == 0 {
        Seq::empty()
    } else if s.last().pos == pos {
        spec_indexes_at(s.drop_last(), pos).push((s.len() - 1) as usize)
    } else {
        spec_indexes_at(s.drop_last(), pos)
    }
}

impl EntityStore {
    /// The next identity the store will assign.
    pub closed spec fn spec_next_id(self) -> u64 {
        self.next_id
    }

    #[verifier::type_invariant]
    closed spec fn wf(self) -> bool {
        &&& forall|i: int| 0 <= i < self.entities@.len() ==> self.entities@[i].id < self.next_id
        &&& forall|i: int, j: int|
            0 <= i < j < self.entities@.len() ==> self.entities@[i].id != self.entities@[j].id
    }

    /// An empty store.
    pub fn new() -> (s: EntityStore)
        ensures
            s@ == Seq::<Entity>::empty(),
            s.spec_next_id() == 0,
    {
        EntityStore { entities: Vec::new(), next_id: 0 }
    }

    pub fn len(&self) -> (n: usize)
        ensures
            n == self@.len(),
    {
        self.entities.len()
    }

    pub fn get(&self, i: usize) -> (e: &Entity)
        requires
            i < self@.len(),
        ensures
            *e == self@[i as int],
    {
        &self.entities[i]
    }

    /// Inserts a new entity and returns its store-assigned identity, which no
    /// entity of the store has carried before.
    pub fn spawn(&mut self, data: EntityData, pos: Position) -> (id: u64)
        requires
            old(self).spec_next_id() < u64::MAX,
        ensures
            id == old(self).spec_next_id(),
            final(self)@ == old(self)@.push(Entity { id, data, pos }),
            final(self).spec_next_id() == id + 1,
    {
        proof {
            use_type_invariant(&*self);
        }
        let id = self.next_id;
        self.next_id = id + 1;
        let mut entities: Vec<Entity> = Vec::new();
        core::mem::swap(&mut entities, &mut self.entities);
        entities.push(Entity { id, data, pos });
        core::mem::swap(&mut entities, &mut self.entities);
        id
    }

    /// Overwrites the position of the entity at index `i`, keeping everything
    /// else of it.
    pub fn set_pos(&mut self, i: usize, pos: Position)
        requires
            i < old(self)@.len(),
        ensures
            final(self)@ == old(self)@.update(
                i as int,
                Entity { pos, ..old(self)@[i as int] },
            ),
            final(self).spec_next_id() == old(self).spec_next_id(),
    {
        proof {
            use_type_invariant(&*self);
        }
        let e = self.entities[i];
        let mut entities: Vec<Entity> = Vec::new();
        core::mem::swap(&mut entities, &mut self.entities);
        entities.set(i, Entity { id: e.id, data: e.data, pos });
        core::mem::swap(&mut entities, &mut self.entities);
    }

    /// Removes the entity at index `i`; later entities shift down by one.
    pub fn remove_at(&mut self, i: usize) -> (e: Entity)
        requires
            i < old(self)@.len(),
        ensures
            e == old(self)@[i as int],
            final(self)@ == old(self)@.remove(i as int),
            final(self).spec_next_id() == old(self).spec_next_id(),
    {
        proof {
            use_type_invariant(&*self);
        }
        let mut entities: Vec<Entity> = Vec::new();
        core::mem::swap(&mut entities, &mut self.entities);
        let e = entities.remove(i);
        core::mem::swap(&mut entities, &mut self.entities);
        e
    }

    /// Removes the entity with identity `id`, if the store holds one, and
    /// reports whether it did. Identities are unique, so at most one entity
    /// can match; the first match is the only one.
    pub fn remove_by_id(&mut self, id: u64) -> (found: bool)
        ensures
            found <==> spec_find_id(old(self)@, id) >= 0,
            found ==> final(self)@ == old(self)@.remove(spec_find_id(old(self)@, id)),
            !found ==> final(self)@ == old(self)@,
            final(self).spec_next_id() == old(self).spec_next_id(),
    {
        let n = self.len();
        let mut i: usize = 0;
        while i < n
            invariant
                self@ == old(self)@,
                self.spec_next_id() == old(self).spec_next_id(),
                n == self@.len(),
                i <= n,
                spec_find_id(self@.take(i as int), id) == -1,
            decreases n - i,
        {
            if self.get(i).id == id {
                proof {
                    lemma_find_id_extend(self@, id, i as int);
                }
                self.remove_at(i);
                return true;
            }
            proof {
                lemma_find_id_extend(self@, id, i as int);
            }
            i += 1;
        }
        proof {
            assert(self@.take(n as int) =~= self@);
        }
        false
    }

    /// The indexes of all entities placed at `pos`, in increasing order: the
    /// positional lookup used to relate co-located entities.
    pub fn indexes_at(&self, pos: Position) -> (idxs: Vec<usize>)
        ensures
            idxs@ == spec_indexes_at(self@, pos),
    {
        let n = self.len();
        let mut idxs: Vec<usize> = Vec::new();
        let mut i: usize = 0;
        while i < n
            invariant
                n == self@.len(),
                i <= n,
                idxs@ == spec_indexes_at(self@.take(i as int), pos),
            decreases n - i,
        {
            proof {
                assert(self@.take(i + 1 as int).drop_last() =~= self@.take(i as int));
            }
            if self.get(i).pos == pos {
                idxs.push(i);
            }
            i += 1;
        }
        proof {
            assert(self@.take(n as int) =~= self@);
        }
        idxs
    }
}

/// `spec_find_id` yields `-1` or a valid index.
proof fn lemma_find_id_range(s: Seq<Entity>, id: u64)
    ensures
        -1 <= spec_find_id(s, id) < s.len(),
    decreases s.len(),
{
    if s.len() > 0 && s[0].id != id {
        lemma_find_id_range(s.drop_first(), id);
    }
}

/// Finding `id` in the first `i + 1` entities decomposes into finding it in the
/// first `i` and then looking at entity `i`.
proof fn lemma_find_id_extend(s: Seq<Entity>, id: u64, i: int)
    requires
        0 <= i < s.len(),
        spec_find_id(s.take(i), id) == -1,
    ensures
        s[i].id == id ==> spec_find_id(s, id) == i,
        s[i].id != id ==> spec_find_id(s.take(i + 1), id) == -1,
    decreases i,
{
    if i == 0 {
        assert(s.take(1).len() == 1);
        if s[0].id == id {
            assert(spec_find_id(s, id) == 0);
        } else {
            assert(s.take(1)[0].id != id);
            assert(s.take(1).drop_first() =~= Seq::<Entity>::empty());
            assert(spec_find_id(Seq::<Entity>::empty(), id) == -1);
            assert(spec_find_id(s.take(1), id) == -1);
        }
    } else {
        assert(s.take(i)[0] == s[0]);
        if s[0].id == id {
            assert(spec_find_id(s.take(i), id) == 0);
        } else {
            assert(s.take(i).drop_first() =~= s.drop_first().take(i - 1));
            lemma_find_id_range(s.drop_first().take(i - 1), id);
            assert(spec_find_id(s.drop_first().take(i - 1), id) == -1);
            lemma_find_id_extend(s.drop_first(), id, i - 1);
            assert(s.drop_first()[i - 1] == s[i]);
            if s[i].id == id {
                assert(spec_find_id(s.drop_first(), id) == i - 1);
                assert(spec_find_id(s, id) == i);
            } else {
                assert(s.take(i + 1).len() == i + 1);
                assert(s.take(i + 1)[0] == s[0]);
                assert(s.take(i + 1).drop_first() =~= s.drop_first().take(i));
                assert(spec_find_id(s.drop_first().take(i), id) == -1);
                assert(spec_find_id(s.take(i + 1), id) == -1);
            }
        }
    }
}

} // verus!
