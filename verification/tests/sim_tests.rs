use robot_swarm::entity::{EntityData, EntityStore, ResourceKind, RobotInfo, RobotKind};
use robot_swarm::grid::{GridError, GridMap, Position};
use robot_swarm::mapgen::{generate, robot_name, spawn_robots, ROBOT_COUNT};
use robot_swarm::noise_field::NoiseField;
use robot_swarm::resolver::{resolve, CollectionEvent};
use robot_swarm::scheduler::RobotScheduler;
use robot_swarm::sim::Simulation;

fn flat_field(width: usize, height: usize, value: u32) -> NoiseField {
    NoiseField::from_samples(width, height, vec![value; width * height]).unwrap()
}

fn robot(id: i32, kind: RobotKind) -> EntityData {
    EntityData::Robot(RobotInfo { id, kind, max_health: 100, speed: 1 })
}

#[test]
fn generate_rejects_zero_dimensions() {
    let field = NoiseField::from_samples(0, 4, Vec::new()).unwrap();
    assert!(matches!(generate(0, 4, &field), Err(GridError::InvalidDimensions)));
}

#[test]
fn generate_single_obstacle_leaves_other_cells_empty() {
    // Noise 0.9 at (1,1) and 0.0 elsewhere on a 4x4 grid: one obstacle at
    // (1,1), fifteen empty cells, and the one base.
    let mut samples = vec![0u32; 16];
    samples[1 * 4 + 1] = 90_000;
    let field = NoiseField::from_samples(4, 4, samples).unwrap();
    let (grid, store) = generate(4, 4, &field).unwrap();
    assert_eq!(grid.width(), 4);
    assert_eq!(grid.height(), 4);
    assert_eq!(store.len(), 2);
    let obstacle = store.get(0);
    assert_eq!(obstacle.data, EntityData::Obstacle);
    assert_eq!(obstacle.pos, Position { x: 1, y: 1 });
    let base = store.get(1);
    assert_eq!(base.data, EntityData::Base);
    assert!(base.pos.x < 4 && base.pos.y < 4);
}

#[test]
fn generate_spawns_one_entity_per_classified_cell() {
    // One cell per band on a 3x2 grid, plus an extra obstacle and an empty cell.
    let samples = vec![90_000, 76_000, 73_000, 71_000, 0, 81_000];
    let field = NoiseField::from_samples(3, 2, samples).unwrap();
    let (_, store) = generate(3, 2, &field).unwrap();

    let mut obstacles = 0;
    let mut energy = 0;
    let mut mineral = 0;
    let mut scientific = 0;
    let mut bases = 0;
    for i in 0..store.len() {
        match store.get(i).data {
            EntityData::Obstacle => obstacles += 1,
            EntityData::Resource(ResourceKind::Energy) => energy += 1,
            EntityData::Resource(ResourceKind::Mineral) => mineral += 1,
            EntityData::Resource(ResourceKind::ScientificSite) => scientific += 1,
            EntityData::Base => bases += 1,
            EntityData::Robot(_) => panic!("generation spawns no robots"),
        }
    }
    assert_eq!(
        (obstacles, energy, mineral, scientific, bases),
        (2, 1, 1, 1, 1)
    );
    // Entities appear in cell order, at their cell's position.
    assert_eq!(store.get(0).pos, Position { x: 0, y: 0 });
    assert_eq!(store.get(1).pos, Position { x: 1, y: 0 });
    assert_eq!(store.get(2).pos, Position { x: 2, y: 0 });
    assert_eq!(store.get(3).pos, Position { x: 0, y: 1 });
    assert_eq!(store.get(4).pos, Position { x: 2, y: 1 });
}

#[test]
fn generate_on_unit_grid_pins_the_base() {
    // On a 1x1 grid the only possible base position is the origin, whatever
    // the random draw did.
    let field = flat_field(1, 1, 0);
    let (_, store) = generate(1, 1, &field).unwrap();
    assert_eq!(store.len(), 1);
    assert_eq!(store.get(0).data, EntityData::Base);
    assert_eq!(store.get(0).pos, Position { x: 0, y: 0 });
}

#[test]
fn spawned_robots_follow_the_fixed_roster() {
    let field = flat_field(4, 4, 0);
    let (grid, mut store) = generate(4, 4, &field).unwrap();
    let before = store.len();
    spawn_robots(&mut store, &grid);
    assert_eq!(store.len(), before + ROBOT_COUNT);
    let expected_kinds = [
        RobotKind::Collector,
        RobotKind::Visitor,
        RobotKind::Explorer,
        RobotKind::Collector,
        RobotKind::Visitor,
    ];
    for j in 0..ROBOT_COUNT {
        let e = store.get(before + j);
        assert!(e.pos.x < 4 && e.pos.y < 4);
        match e.data {
            EntityData::Robot(info) => {
                assert_eq!(info.id, (j + 1) as i32);
                assert_eq!(info.kind, expected_kinds[j]);
                assert_eq!(info.max_health, 100);
                assert_eq!(info.speed, 1);
            }
            _ => panic!("expected a robot"),
        }
    }
}

#[test]
fn robot_names_are_kind_prefixed() {
    assert_eq!(robot_name(RobotKind::Collector, 3).as_str(), "Collector3");
    assert_eq!(robot_name(RobotKind::Explorer, 1).as_str(), "Explorer1");
    assert_eq!(robot_name(RobotKind::Visitor, 5).as_str(), "Visitor5");
}

#[test]
fn robot_wraps_from_far_corner_to_origin() {
    let grid = GridMap::new(4, 4).unwrap();
    let mut store = EntityStore::new();
    store.spawn(robot(1, RobotKind::Explorer), Position { x: 3, y: 3 });
    let mut scheduler = RobotScheduler::new();
    let moved = scheduler.tick(1000, &mut store, &grid);
    assert!(moved);
    assert_eq!(store.get(0).pos, Position { x: 0, y: 0 });
}

#[test]
fn robot_parked_at_center_never_moves() {
    let grid = GridMap::new(4, 4).unwrap();
    let mut store = EntityStore::new();
    store.spawn(robot(1, RobotKind::Visitor), Position { x: 2, y: 2 });
    let mut scheduler = RobotScheduler::new();
    for _ in 0..5 {
        assert!(scheduler.tick(1000, &mut store, &grid));
        assert_eq!(store.get(0).pos, Position { x: 2, y: 2 });
    }
}

#[test]
fn movement_waits_for_the_full_period() {
    let grid = GridMap::new(8, 8).unwrap();
    let mut store = EntityStore::new();
    store.spawn(robot(1, RobotKind::Explorer), Position { x: 0, y: 0 });
    let mut scheduler = RobotScheduler::new();
    assert!(!scheduler.tick(400, &mut store, &grid));
    assert!(!scheduler.tick(599, &mut store, &grid));
    assert_eq!(store.get(0).pos, Position { x: 0, y: 0 });
    assert!(scheduler.tick(1, &mut store, &grid));
    assert_eq!(store.get(0).pos, Position { x: 1, y: 1 });
}

#[test]
fn one_call_moves_robots_at_most_once() {
    let grid = GridMap::new(8, 8).unwrap();
    let mut store = EntityStore::new();
    store.spawn(robot(1, RobotKind::Explorer), Position { x: 0, y: 0 });
    let mut scheduler = RobotScheduler::new();
    // Two and a half periods at once still move the robot one step.
    assert!(scheduler.tick(2500, &mut store, &grid));
    assert_eq!(store.get(0).pos, Position { x: 1, y: 1 });
    // The leftover half period counts toward the next tick.
    assert!(scheduler.tick(500, &mut store, &grid));
    assert_eq!(store.get(0).pos, Position { x: 2, y: 2 });
}

#[test]
fn obstacles_resources_and_base_never_move() {
    let grid = GridMap::new(4, 4).unwrap();
    let mut store = EntityStore::new();
    store.spawn(EntityData::Obstacle, Position { x: 1, y: 2 });
    store.spawn(EntityData::Resource(ResourceKind::Energy), Position { x: 3, y: 3 });
    store.spawn(EntityData::Base, Position { x: 0, y: 1 });
    let mut scheduler = RobotScheduler::new();
    assert!(scheduler.tick(1000, &mut store, &grid));
    assert_eq!(store.get(0).pos, Position { x: 1, y: 2 });
    assert_eq!(store.get(1).pos, Position { x: 3, y: 3 });
    assert_eq!(store.get(2).pos, Position { x: 0, y: 1 });
}

#[test]
fn collector_collects_co_located_energy_once() {
    let mut store = EntityStore::new();
    store.spawn(robot(1, RobotKind::Collector), Position { x: 3, y: 3 });
    store.spawn(EntityData::Resource(ResourceKind::Energy), Position { x: 3, y: 3 });
    let events = resolve(&mut store);
    assert_eq!(
        events,
        vec![CollectionEvent {
            robot_id: 1,
            kind: ResourceKind::Energy,
            pos: Position { x: 3, y: 3 },
        }]
    );
    assert_eq!(store.len(), 1);
    assert_eq!(store.get(0).data, robot(1, RobotKind::Collector));
    // Resolving again with no movement collects nothing.
    assert_eq!(resolve(&mut store), Vec::new());
    assert_eq!(store.len(), 1);
}

#[test]
fn explorer_never_collects() {
    let mut store = EntityStore::new();
    store.spawn(robot(1, RobotKind::Explorer), Position { x: 2, y: 2 });
    store.spawn(EntityData::Resource(ResourceKind::Mineral), Position { x: 2, y: 2 });
    for _ in 0..3 {
        assert_eq!(resolve(&mut store), Vec::new());
        assert_eq!(store.len(), 2);
    }
}

#[test]
fn first_collector_in_store_order_wins_ties() {
    let mut store = EntityStore::new();
    let cell = Position { x: 1, y: 1 };
    store.spawn(robot(2, RobotKind::Collector), cell);
    store.spawn(robot(1, RobotKind::Collector), cell);
    store.spawn(EntityData::Resource(ResourceKind::ScientificSite), cell);
    let events = resolve(&mut store);
    assert_eq!(events.len(), 1);
    assert_eq!(events[0].robot_id, 2);
    assert_eq!(store.len(), 2);
}

#[test]
fn one_collector_collects_every_co_located_resource() {
    let mut store = EntityStore::new();
    let cell = Position { x: 0, y: 2 };
    store.spawn(EntityData::Resource(ResourceKind::Energy), cell);
    store.spawn(robot(4, RobotKind::Collector), cell);
    store.spawn(EntityData::Resource(ResourceKind::Mineral), cell);
    store.spawn(EntityData::Resource(ResourceKind::Energy), Position { x: 1, y: 2 });
    let events = resolve(&mut store);
    assert_eq!(events.len(), 2);
    assert_eq!(events[0].kind, ResourceKind::Energy);
    assert_eq!(events[1].kind, ResourceKind::Mineral);
    // The robot and the unshared resource remain.
    assert_eq!(store.len(), 2);
    assert_eq!(store.get(1).pos, Position { x: 1, y: 2 });
}

#[test]
fn simulation_rejects_entities_off_the_grid() {
    let grid = GridMap::new(2, 2).unwrap();
    let mut store = EntityStore::new();
    store.spawn(EntityData::Obstacle, Position { x: 9, y: 9 });
    assert!(Simulation::new(grid, store).is_none());
}

#[test]
fn advance_moves_then_collects() {
    let grid = GridMap::new(4, 4).unwrap();
    let mut store = EntityStore::new();
    store.spawn(robot(1, RobotKind::Collector), Position { x: 2, y: 3 });
    store.spawn(EntityData::Resource(ResourceKind::Energy), Position { x: 3, y: 0 });
    let mut sim = Simulation::new(grid, store).unwrap();

    // Within the period nothing moves and nothing is co-located yet.
    assert_eq!(sim.advance(999), Vec::new());
    assert_eq!(sim.entity_count(), 2);

    // The period elapses: the robot wraps from (2,3) to (3,0) and collects.
    let events = sim.advance(1);
    assert_eq!(
        events,
        vec![CollectionEvent {
            robot_id: 1,
            kind: ResourceKind::Energy,
            pos: Position { x: 3, y: 0 },
        }]
    );
    assert_eq!(sim.entity_count(), 1);
    assert_eq!(sim.entity_at(0).pos, Position { x: 3, y: 0 });
}

#[test]
fn advance_collects_without_waiting_for_movement() {
    let grid = GridMap::new(4, 4).unwrap();
    let mut store = EntityStore::new();
    store.spawn(robot(1, RobotKind::Collector), Position { x: 1, y: 1 });
    store.spawn(EntityData::Resource(ResourceKind::Mineral), Position { x: 1, y: 1 });
    let mut sim = Simulation::new(grid, store).unwrap();
    // Resolution runs every frame, gated by no timer.
    let events = sim.advance(1);
    assert_eq!(events.len(), 1);
    assert_eq!(events[0].kind, ResourceKind::Mineral);
    assert_eq!(sim.entity_count(), 1);
}

#[test]
fn full_world_stays_on_the_grid() {
    let field = flat_field(50, 50, 0);
    let (grid, mut store) = generate(50, 50, &field).unwrap();
    spawn_robots(&mut store, &grid);
    let mut sim = Simulation::new(grid, store).unwrap();
    for frame in 0..30 {
        sim.advance(if frame % 2 == 0 { 700 } else { 300 });
        for i in 0..sim.entity_count() {
            let e = sim.entity_at(i);
            assert!(e.pos.x < 50 && e.pos.y < 50);
        }
    }
}
