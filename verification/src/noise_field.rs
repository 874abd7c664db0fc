use crate::classify::NOISE_SCALE;
use vstd::prelude::*;

verus! {

/// A seeded coherent-noise generator, sampled once per grid cell and held here
/// as fixed-point values: sample `n` stands for the normalized noise value
/// `n / NOISE_SCALE` in `[0, 1]`. The samples are stored row-major (`y` major,
/// `x` minor), one per cell of a `width` by `height` grid, and never change, so
/// reading the same coordinate always yields the same value.
pub struct NoiseField {
    width: usize,
    height: usize,
    samples: Vec<u32>,
}

impl View for NoiseField {
    type V = Seq<u32>;

    /// The row-major sequence of fixed-point samples; the cell `(x, y)` is at
    /// index `y * width + x`.
    closed spec fn view(&self) -> Seq<u32> {
        self.samples@
    }
}

impl NoiseField {
    pub closed spec fn spec_width(self) -> usize {
        self.width
    }

    pub closed spec fn spec_height(self) -> usize {
        self.height
    }

    #[verifier::type_invariant]
    closed spec fn wf(self) -> bool {
        &&& self.samples@.len() == self.width * self.height
        &&& forall|i: int| 0 <= i < self.samples@.len() ==> self.samples@[i] <= NOISE_SCALE
    }

    /// Builds a field from one sample per cell, row-major. Returns the field
    /// exactly when there is one sample per cell and every sample is a valid
    /// fixed-point fraction (at most `NOISE_SCALE`).
    pub fn from_samples(width: usize, height: usize, samples: Vec<u32>) -> (r: Option<NoiseField>)
        ensures
            r is Some <==> samples@.len() == width * height && (forall|i: int|
                0 <= i < samples@.len() ==> samples@[i] <= NOISE_SCALE),
            r is Some ==> {
                &&& r->0.spec_width() == width
                &&& r->0.spec_height() == height
                &&& r->0@ == samples@
            },
    {
        let n_samples = samples.len();
        let cells = match width.checked_mul(height) {
            Some(c) => c,
            None => {
                proof {
                    assert(samples@.len() == n_samples <= usize::MAX < width * height);
                }
                return None;
            },
        };
        if n_samples != cells {
            return None;
        }
        let mut i: usize = 0;
        while i < n_samples
            invariant
                n_samples == samples@.len(),
                i <= samples@.len(),
                forall|j: int| 0 <= j < i ==> samples@[j] <= NOISE_SCALE,
            decreases samples@.len() - i,
        {
            if samples[i] > NOISE_SCALE {
                return None;
            }
            i += 1;
        }
        Some(NoiseField { width, height, samples })
    }

    pub fn width(&self) -> (w: usize)
        ensures
            w == self.spec_width(),
    {
        self.width
    }

    pub fn height(&self) -> (h: usize)
        ensures
            h == self.spec_height(),
    {
        self.height
    }

    /// One sample exists per cell, so the sample count is the cell count.
    pub fn num_cells(&self) -> (n: usize)
        ensures
            n == self.spec_width() * self.spec_height(),
            n == self@.len(),
    {
        proof {
            use_type_invariant(&*self);
        }
        self.samples.len()
    }

    /// Reads the noise value of the cell `(x, y)`: a total, deterministic read
    /// of the stored sample, always within `[0, NOISE_SCALE]`.
    pub fn value_at(&self, x: usize, y: usize) -> (n: u32)
        requires
            x < self.spec_width(),
            y < self.spec_height(),
        ensures
            n == self@[y * self.spec_width() + x],
            n <= NOISE_SCALE,
    {
        let total = self.samples.len();
        proof {
            use_type_invariant(&*self);
            assert(y * self.width + x < self.width * self.height) by (nonlinear_arith)
                requires
                    x < self.width,
                    y < self.height,
            ;
            assert(y * self.width + x < total);
        }
        let idx = y * self.width + x;
        self.samples[idx]
    }
}

} // verus!
