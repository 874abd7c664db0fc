use crate::classify::{classify, spec_classify, CellKind};
use crate::entity::{Entity, EntityData, EntityStore, ResourceKind, RobotInfo, RobotKind};
use crate::grid::{GridError, GridMap, Position};
use crate::noise_field::NoiseField;
use crate::rng::random_below;
use vstd::prelude::*;
use vstd::string::StringExecFns;

verus! {

/// How many robots are spawned at startup.
pub const ROBOT_COUNT: usize = 5;

/// The entity data spawned for a cell of kind `k`; empty cells spawn nothing,
/// so `Empty` never reaches this.
pub open spec fn data_of_kind(k: CellKind) -> EntityData {
    match k {
        CellKind::Obstacle => EntityData::Obstacle,
        CellKind::Energy => EntityData::Resource(ResourceKind::Energy),
        CellKind::Mineral => EntityData::Resource(ResourceKind::Mineral),
        CellKind::ScientificSite => EntityData::Resource(ResourceKind::ScientificSite),
        CellKind::Empty => arbitrary(),
    }
}

/// The position of the cell with row-major index `i` on a grid `w` wide.
pub open spec fn cell_pos(i: int, w: int) -> Position {
    Position { x: (i % w) as usize, y: (i / w) as usize }
}

/// The entities that classification spawns for the first `i` cells in
/// row-major order, with identities assigned in spawn order starting at 0.
pub open spec fn spec_gen_entities(noise: Seq<u32>, w: int, i: int) -> Seq<Entity>
    decreases i,
{
    if i <= 0 {
        Seq::empty()
    } else {
        let pre = spec_gen_entities(noise, w, i - 1);
        if spec_classify(noise[i - 1]) == CellKind::Empty {
            pre
        } else {
            pre.push(
                Entity {
                    id: pre.len() as u64,
                    data: data_of_kind(spec_classify(noise[i - 1])),
                    pos: cell_pos(i - 1, w),
                },
            )
        }
    }
}

/// How many entities of `s` carry exactly the data `d`.
pub open spec fn spec_count_data(s: Seq<Entity>, d: EntityData) -> int
    decreases s.len(),
{
    if s.len() == 0 {
        0
    } else {
        spec_count_data(s.drop_last(), d) + if s.last().data == d {
            1int
        } else {
            0int
        }
    }
}

/// How many of the first `i` cells are classified as `k`.
pub open spec fn spec_count_cells(noise: Seq<u32>, i: int, k: CellKind) -> int
    decreases i,
{
    if i <= 0 {
        0
    } else {
        spec_count_cells(noise, i - 1, k) + if spec_classify(noise[i - 1]) == k {
            1int
        } else {
            0int
        }
    }
}

/// Classification never spawns more entities than cells.
proof fn lemma_gen_len(noise: Seq<u32>, w: int, i: int)
    requires
        i >= 0,
    ensures
        spec_gen_entities(noise, w, i).len() <= i,
    decreases i,
{
    if i > 0 {
        lemma_gen_len(noise, w, i - 1);
    }
}

/// For every non-empty kind, the generated entities of that kind are counted
/// exactly by the cells classified as that kind.
proof fn lemma_gen_count(noise: Seq<u32>, w: int, i: int, k: CellKind)
    requires
        i >= 0,
        k != CellKind::Empty,
    ensures
        spec_count_data(spec_gen_entities(noise, w, i), data_of_kind(k)) == spec_count_cells(
            noise,
            i,
            k,
        ),
    decreases i,
{
    if i > 0 {
        lemma_gen_count(noise, w, i - 1, k);
        let pre = spec_gen_entities(noise, w, i - 1);
        let ck = spec_classify(noise[i - 1]);
        if ck != CellKind::Empty {
            let e = Entity {
                id: pre.len() as u64,
                data: data_of_kind(ck),
                pos: cell_pos(i - 1, w),
            };
            assert(pre.push(e).drop_last() =~= pre);
            assert(data_of_kind(ck) == data_of_kind(k) <==> ck == k);
        }
    }
}

/// Classification spawns no base: bases are placed separately, exactly once.
proof fn lemma_gen_no_base(noise: Seq<u32>, w: int, i: int)
    requires
        i >= 0,
    ensures
        spec_count_data(spec_gen_entities(noise, w, i), EntityData::Base) == 0,
    decreases i,
{
    if i > 0 {
        lemma_gen_no_base(noise, w, i - 1);
        let pre = spec_gen_entities(noise, w, i - 1);
        let ck = spec_classify(noise[i - 1]);
        if ck != CellKind::Empty {
            let e = Entity {
                id: pre.len() as u64,
                data: data_of_kind(ck),
                pos: cell_pos(i - 1, w),
            };
            assert(pre.push(e).drop_last() =~= pre);
        }
    }
}

/// After generation the store holds, for each kind, exactly as many entities
/// as there are cells whose noise value fell in that kind's threshold band,
/// and exactly one base. The store shape required here is the one `generate`
/// ensures of its output.
pub proof fn lemma_generation_counts(noise: Seq<u32>, w: int, h: int, store: Seq<Entity>)
    requires
        w >= 0 && h >= 0,
        store.len() == spec_gen_entities(noise, w, w * h).len() + 1,
        store.drop_last() == spec_gen_entities(noise, w, w * h),
        store.last().data == EntityData::Base,
    ensures
        forall|k: CellKind|
            k != CellKind::Empty ==> #[trigger] spec_count_data(store, data_of_kind(k))
                == spec_count_cells(noise, w * h, k),
        spec_count_data(store, EntityData::Base) == 1,
{
    assert(w * h >= 0) by (nonlinear_arith)
        requires
            w >= 0 && h >= 0,
    ;
    assert forall|k: CellKind| k != CellKind::Empty implies #[trigger] spec_count_data(
        store,
        data_of_kind(k),
    ) == spec_count_cells(noise, w * h, k) by {
        lemma_gen_count(noise, w, w * h, k);
        assert(store.last().data != data_of_kind(k));
    }
    lemma_gen_no_base(noise, w, w * h);
}

/// An exec mirror of [`data_of_kind`] for the non-empty kinds.
fn entity_data_for(k: CellKind) -> (d: EntityData)
    requires
        k != CellKind::Empty,
    ensures
        d == data_of_kind(k),
{
    match k {
        CellKind::Obstacle => EntityData::Obstacle,
        CellKind::Energy => EntityData::Resource(ResourceKind::Energy),
        CellKind::Mineral => EntityData::Resource(ResourceKind::Mineral),
        CellKind::ScientificSite => EntityData::Resource(ResourceKind::ScientificSite),
        CellKind::Empty => unreached(),
    }
}

/// Builds the grid and populates a fresh entity store from the noise field:
/// every cell is classified by its noise value and spawns the corresponding
/// obstacle or resource entity (empty cells spawn nothing); afterwards exactly
/// one base is placed uniformly at random on the grid, independent of the
/// cell's classification. Fails exactly on non-positive dimensions.
///
/// The bound on `width * height` keeps the identity counter within `u64`.
pub fn generate(width: usize, height: usize, field: &NoiseField) -> (r: Result<
    (GridMap, EntityStore),
    GridError,
>)
    requires
        field.spec_width() == width,
        field.spec_height() == height,
        width * height < u64::MAX,
    ensures
        (width > 0 && height > 0) <==> r is Ok,
        r is Err ==> r->Err_0 == GridError::InvalidDimensions,
        r is Ok ==> ({
            let grid = r->Ok_0.0;
            let store = r->Ok_0.1;
            let gen = spec_gen_entities(field@, width as int, width * height);
            &&& grid.spec_width() == width
            &&& grid.spec_height() == height
            &&& store@.len() == gen.len() + 1
            &&& store@.drop_last() == gen
            &&& store@.last().data == EntityData::Base
            &&& store@.last().pos.x < width
            &&& store@.last().pos.y < height
            &&& store@.last().id == gen.len()
            &&& store.spec_next_id() == gen.len() + 1
        }),
{
    let grid = match GridMap::new(width, height) {
        Ok(g) => g,
        Err(e) => {
            return Err(e);
        },
    };
    let mut store = EntityStore::new();
    let cells = field.num_cells();
    let ghost noise = field@;
    let mut i: usize = 0;
    while i < cells
        invariant
            field.spec_width() == width,
            field.spec_height() == height,
            width > 0,
            noise == field@,
            cells == width * height,
            cells < u64::MAX,
            i <= cells,
            store@ == spec_gen_entities(noise, width as int, i as int),
            store.spec_next_id() == store@.len(),
        decreases cells - i,
    {
        let x = i % width;
        let y = i / width;
        proof {
            assert(x < width && y < height && y * width + x == i) by (nonlinear_arith)
                requires
                    width > 0,
                    i < width * height,
                    x == i % width,
                    y == i / width,
            ;
            lemma_gen_len(noise, width as int, i as int);
        }
        let n = field.value_at(x, y);
        let k = classify(n);
        if !matches!(k, CellKind::Empty) {
            store.spawn(entity_data_for(k), Position { x, y });
        }
        i += 1;
    }
    proof {
        lemma_gen_len(noise, width as int, cells as int);
    }
    let bx = random_below(width);
    let by = random_below(height);
    store.spawn(EntityData::Base, Position { x: bx, y: by });
    proof {
        let gen = spec_gen_entities(noise, width as int, width * height);
        assert(store@.drop_last() =~= gen);
    }
    Ok((grid, store))
}

/// The robot kind assigned to robot number `id`: round-robin over the kinds.
pub open spec fn spec_robot_kind(id: int) -> RobotKind {
    if id % 3 == 0 {
        RobotKind::Explorer
    } else if id % 3 == 1 {
        RobotKind::Collector
    } else {
        RobotKind::Visitor
    }
}

/// The kind for robot number `id`.
pub fn robot_kind(id: i32) -> (k: RobotKind)
    requires
        id >= 0,
    ensures
        k == spec_robot_kind(id as int),
{
    match id % 3 {
        0 => RobotKind::Explorer,
        1 => RobotKind::Collector,
        _ => RobotKind::Visitor,
    }
}

/// The display prefix of a robot kind.
pub open spec fn spec_kind_prefix(kind: RobotKind) -> Seq<char> {
    match kind {
        RobotKind::Explorer => "Explorer"@,
        RobotKind::Collector => "Collector"@,
        RobotKind::Visitor => "Visitor"@,
    }
}

/// The decimal digit of a robot number.
pub open spec fn spec_digit(id: int) -> Seq<char> {
    if id == 1 {
        "1"@
    } else if id == 2 {
        "2"@
    } else if id == 3 {
        "3"@
    } else if id == 4 {
        "4"@
    } else {
        "5"@
    }
}

/// The kind-prefixed display name of a robot, derived from its kind and
/// number, as in `Collector3`.
pub fn robot_name(kind: RobotKind, id: i32) -> (name: String)
    requires
        1 <= id <= 5,
    ensures
        name@ == spec_kind_prefix(kind) + spec_digit(id as int),
{
    let prefix = match kind {
        RobotKind::Explorer => "Explorer",
        RobotKind::Collector => "Collector",
        RobotKind::Visitor => "Visitor",
    };
    let digit = match id {
        1 => "1",
        2 => "2",
        3 => "3",
        4 => "4",
        _ => "5",
    };
    String::from_str(prefix).concat(digit)
}

/// Spawns the fixed set of robots: numbers 1 through `ROBOT_COUNT`, each with
/// its round-robin kind, full health, unit speed, and a position drawn
/// uniformly at random on the grid.
///
/// The bound on the identity counter keeps it within `u64`.
pub fn spawn_robots(store: &mut EntityStore, grid: &GridMap)
    requires
        old(store).spec_next_id() + ROBOT_COUNT <= u64::MAX,
    ensures
        final(store)@.len() == old(store)@.len() + ROBOT_COUNT,
        final(store)@.take(old(store)@.len() as int) == old(store)@,
        forall|j: int|
            0 <= j < ROBOT_COUNT ==> {
                let e = #[trigger] final(store)@[old(store)@.len() + j];
                &&& e.id == old(store).spec_next_id() + j
                &&& e.pos.x < grid.spec_width()
                &&& e.pos.y < grid.spec_height()
                &&& e.data == EntityData::Robot(
                    RobotInfo {
                        id: (j + 1) as i32,
                        kind: spec_robot_kind(j + 1),
                        max_health: 100,
                        speed: 1,
                    },
                )
            },
        final(store).spec_next_id() == old(store).spec_next_id() + ROBOT_COUNT,
{
    let w = grid.width();
    let h = grid.height();
    let mut rid: usize = 1;
    while rid <= ROBOT_COUNT
        invariant
            w == grid.spec_width() && w > 0,
            h == grid.spec_height() && h > 0,
            1 <= rid <= ROBOT_COUNT + 1,
            old(store).spec_next_id() + ROBOT_COUNT <= u64::MAX,
            store.spec_next_id() == old(store).spec_next_id() + rid - 1,
            store@.len() == old(store)@.len() + rid - 1,
            store@.take(old(store)@.len() as int) == old(store)@,
            forall|j: int|
                0 <= j < rid - 1 ==> {
                    let e = #[trigger] store@[old(store)@.len() + j];
                    &&& e.id == old(store).spec_next_id() + j
                    &&& e.pos.x < grid.spec_width()
                    &&& e.pos.y < grid.spec_height()
                    &&& e.data == EntityData::Robot(
                        RobotInfo {
                            id: (j + 1) as i32,
                            kind: spec_robot_kind(j + 1),
                            max_health: 100,
                            speed: 1,
                        },
                    )
                },
        decreases ROBOT_COUNT + 1 - rid,
    {
        let rx = random_below(w);
        let ry = random_below(h);
        let kind = robot_kind(rid as i32);
        let info = RobotInfo { id: rid as i32, kind, max_health: 100, speed: 1 };
        store.spawn(EntityData::Robot(info), Position { x: rx, y: ry });
        rid += 1;
        proof {
            assert(store@.take(old(store)@.len() as int) =~= old(store)@);
        }
    }
}

} // verus!
