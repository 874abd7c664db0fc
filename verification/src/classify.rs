use vstd::prelude::*;

verus! {

/// Noise values are fixed-point fractions of [`NOISE_SCALE`]: a sample `n`
/// stands for the real value `n / NOISE_SCALE`, which lies in `[0, 1]`.
pub const NOISE_SCALE: u32 = 100_000;

/// A normalized noise value strictly above 0.8 marks an obstacle.
pub const OBSTACLE_THRESHOLD: u32 = 80_000;

/// A normalized noise value in (0.75, 0.8] marks an energy resource.
pub const ENERGY_THRESHOLD: u32 = 75_000;

/// A normalized noise value in (0.72, 0.75] marks a mineral resource.
pub const MINERAL_THRESHOLD: u32 = 72_000;

/// A normalized noise value in (0.70, 0.72] marks a scientific site.
pub const SCIENTIFIC_THRESHOLD: u32 = 70_000;

/// The classification of one grid cell, derived from its noise value.
#[derive(Clone, Copy, PartialEq, Eq, Structural, Debug)]
pub enum CellKind {
    Obstacle,
    Energy,
    Mineral,
    ScientificSite,
    Empty,
}

/// The threshold bands, evaluated top to bottom; the first match wins, so an
/// obstacle pre-empts every resource band.
pub open spec fn spec_classify(n: u32) -> CellKind {
    if n > OBSTACLE_THRESHOLD {
        CellKind::Obstacle
    } else if n > ENERGY_THRESHOLD {
        CellKind::Energy
    } else if n > MINERAL_THRESHOLD {
        CellKind::Mineral
    } else if n > SCIENTIFIC_THRESHOLD {
        CellKind::ScientificSite
    } else {
        CellKind::Empty
    }
}

/// Classifies one cell from its fixed-point noise value.
pub fn classify(n: u32) -> (k: CellKind)
    ensures
        k == spec_classify(n),
{
    if n > OBSTACLE_THRESHOLD {
        CellKind::Obstacle
    } else if n > ENERGY_THRESHOLD {
        CellKind::Energy
    } else if n > MINERAL_THRESHOLD {
        CellKind::Mineral
    } else if n > SCIENTIFIC_THRESHOLD {
        CellKind::ScientificSite
    } else {
        CellKind::Empty
    }
}

/// The closed-open band of noise values classified as obstacles.
pub open spec fn obstacle_band(n: u32) -> bool {
    n > OBSTACLE_THRESHOLD
}

/// The band of noise values classified as energy.
pub open spec fn energy_band(n: u32) -> bool {
    ENERGY_THRESHOLD < n && n <= OBSTACLE_THRESHOLD
}

/// The band of noise values classified as mineral.
pub open spec fn mineral_band(n: u32) -> bool {
    MINERAL_THRESHOLD < n && n <= ENERGY_THRESHOLD
}

/// The band of noise values classified as scientific sites.
pub open spec fn scientific_band(n: u32) -> bool {
    SCIENTIFIC_THRESHOLD < n && n <= MINERAL_THRESHOLD
}

/// The band of noise values that spawn nothing.
pub open spec fn empty_band(n: u32) -> bool {
    n <= SCIENTIFIC_THRESHOLD
}

/// Classification is exhaustive and mutually exclusive: every noise value falls
/// in exactly one threshold band, and `spec_classify` names exactly that band.
pub proof fn lemma_classification_exclusive(n: u32)
    ensures
        obstacle_band(n) <==> spec_classify(n) == CellKind::Obstacle,
        energy_band(n) <==> spec_classify(n) == CellKind::Energy,
        mineral_band(n) <==> spec_classify(n) == CellKind::Mineral,
        scientific_band(n) <==> spec_classify(n) == CellKind::ScientificSite,
        empty_band(n) <==> spec_classify(n) == CellKind::Empty,
        obstacle_band(n) || energy_band(n) || mineral_band(n) || scientific_band(n) || empty_band(
            n,
        ),
        !(obstacle_band(n) && energy_band(n)),
        !(obstacle_band(n) && mineral_band(n)),
        !(obstacle_band(n) && scientific_band(n)),
        !(obstacle_band(n) && empty_band(n)),
        !(energy_band(n) && mineral_band(n)),
        !(energy_band(n) && scientific_band(n)),
        !(energy_band(n) && empty_band(n)),
        !(mineral_band(n) && scientific_band(n)),
        !(mineral_band(n) && empty_band(n)),
        !(scientific_band(n) && empty_band(n)),
{
}

} // verus!
