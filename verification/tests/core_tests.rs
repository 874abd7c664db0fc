use robot_swarm::classify::{classify, CellKind, NOISE_SCALE};
use robot_swarm::entity::{EntityData, EntityStore, ResourceKind};
use robot_swarm::grid::{GridError, GridMap, Position};
use robot_swarm::noise_field::NoiseField;

#[test]
fn grid_rejects_zero_dimensions() {
    assert!(matches!(GridMap::new(0, 5), Err(GridError::InvalidDimensions)));
    assert!(matches!(GridMap::new(5, 0), Err(GridError::InvalidDimensions)));
    assert!(matches!(GridMap::new(0, 0), Err(GridError::InvalidDimensions)));
}

#[test]
fn grid_reports_dimensions_and_center() {
    let grid = GridMap::new(50, 50).unwrap();
    assert_eq!(grid.width(), 50);
    assert_eq!(grid.height(), 50);
    assert_eq!(grid.center(), Position { x: 25, y: 25 });
    let odd = GridMap::new(5, 3).unwrap();
    assert_eq!(odd.center(), Position { x: 2, y: 1 });
}

#[test]
fn grid_step_wraps_both_coordinates() {
    let grid = GridMap::new(4, 6).unwrap();
    assert_eq!(grid.step(Position { x: 0, y: 0 }), Position { x: 1, y: 1 });
    assert_eq!(grid.step(Position { x: 3, y: 2 }), Position { x: 0, y: 3 });
    assert_eq!(grid.step(Position { x: 2, y: 5 }), Position { x: 3, y: 0 });
    assert_eq!(grid.step(Position { x: 3, y: 5 }), Position { x: 0, y: 0 });
}

#[test]
fn noise_field_values_stay_in_range_and_repeat() {
    let samples = vec![0, 50_000, 100_000, 70_000, 12, 99_999];
    let field = NoiseField::from_samples(3, 2, samples).unwrap();
    assert_eq!(field.width(), 3);
    assert_eq!(field.height(), 2);
    assert_eq!(field.num_cells(), 6);
    for y in 0..2 {
        for x in 0..3 {
            let v = field.value_at(x, y);
            assert!(v <= NOISE_SCALE);
            // Reading the same coordinate twice yields the same value.
            assert_eq!(field.value_at(x, y), v);
        }
    }
    assert_eq!(field.value_at(1, 0), 50_000);
    assert_eq!(field.value_at(0, 1), 70_000);
}

#[test]
fn noise_field_rejects_bad_sample_vectors() {
    // One sample missing.
    assert!(NoiseField::from_samples(2, 2, vec![0, 1, 2]).is_none());
    // One sample above the fixed-point scale.
    assert!(NoiseField::from_samples(2, 2, vec![0, 1, 2, NOISE_SCALE + 1]).is_none());
    // Exactly at the scale is fine.
    assert!(NoiseField::from_samples(2, 2, vec![0, 1, 2, NOISE_SCALE]).is_some());
}

#[test]
fn classification_follows_the_threshold_bands() {
    assert_eq!(classify(100_000), CellKind::Obstacle);
    assert_eq!(classify(80_001), CellKind::Obstacle);
    assert_eq!(classify(80_000), CellKind::Energy);
    assert_eq!(classify(75_001), CellKind::Energy);
    assert_eq!(classify(75_000), CellKind::Mineral);
    assert_eq!(classify(72_001), CellKind::Mineral);
    assert_eq!(classify(72_000), CellKind::ScientificSite);
    assert_eq!(classify(70_001), CellKind::ScientificSite);
    assert_eq!(classify(70_000), CellKind::Empty);
    assert_eq!(classify(0), CellKind::Empty);
}

#[test]
fn classification_assigns_exactly_one_kind_per_cell() {
    // Walk the whole scale: each value gets exactly one kind, and the kind
    // changes only at the documented thresholds.
    for n in 0..=NOISE_SCALE {
        let k = classify(n);
        let expected = if n > 80_000 {
            CellKind::Obstacle
        } else if n > 75_000 {
            CellKind::Energy
        } else if n > 72_000 {
            CellKind::Mineral
        } else if n > 70_000 {
            CellKind::ScientificSite
        } else {
            CellKind::Empty
        };
        assert_eq!(k, expected);
    }
}

#[test]
fn store_spawns_with_fresh_sequential_identities() {
    let mut store = EntityStore::new();
    let a = store.spawn(EntityData::Obstacle, Position { x: 0, y: 0 });
    let b = store.spawn(
        EntityData::Resource(ResourceKind::Energy),
        Position { x: 1, y: 2 },
    );
    let c = store.spawn(EntityData::Base, Position { x: 1, y: 2 });
    assert_eq!((a, b, c), (0, 1, 2));
    assert_eq!(store.len(), 3);
    assert_eq!(store.get(1).data, EntityData::Resource(ResourceKind::Energy));
    assert_eq!(store.get(1).pos, Position { x: 1, y: 2 });
}

#[test]
fn store_removes_by_identity_and_keeps_order() {
    let mut store = EntityStore::new();
    store.spawn(EntityData::Obstacle, Position { x: 0, y: 0 });
    store.spawn(EntityData::Obstacle, Position { x: 1, y: 0 });
    store.spawn(EntityData::Obstacle, Position { x: 2, y: 0 });
    assert!(store.remove_by_id(1));
    assert_eq!(store.len(), 2);
    assert_eq!(store.get(0).id, 0);
    assert_eq!(store.get(1).id, 2);
    // The removed identity is gone, and unknown identities report false.
    assert!(!store.remove_by_id(1));
    assert!(!store.remove_by_id(77));
    // Identities are never reused after a removal.
    let d = store.spawn(EntityData::Base, Position { x: 0, y: 0 });
    assert_eq!(d, 3);
}

#[test]
fn store_positional_lookup_finds_all_co_located_entities() {
    let mut store = EntityStore::new();
    let here = Position { x: 2, y: 3 };
    let there = Position { x: 0, y: 0 };
    store.spawn(EntityData::Obstacle, here);
    store.spawn(EntityData::Base, there);
    store.spawn(EntityData::Resource(ResourceKind::Mineral), here);
    assert_eq!(store.indexes_at(here), vec![0, 2]);
    assert_eq!(store.indexes_at(there), vec![1]);
    assert_eq!(store.indexes_at(Position { x: 9, y: 9 }), Vec::<usize>::new());
}

#[test]
fn store_set_pos_changes_only_the_position() {
    let mut store = EntityStore::new();
    store.spawn(EntityData::Obstacle, Position { x: 0, y: 0 });
    store.set_pos(0, Position { x: 4, y: 7 });
    assert_eq!(store.get(0).pos, Position { x: 4, y: 7 });
    assert_eq!(store.get(0).data, EntityData::Obstacle);
    assert_eq!(store.get(0).id, 0);
}
