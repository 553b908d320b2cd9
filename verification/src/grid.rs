use crate::error::ConfigurationError;
use crate::fixed::ONE;
use vstd::arithmetic::div_mod::{
    lemma_div_denominator, lemma_fundamental_div_mod, lemma_fundamental_div_mod_converse,
};
use vstd::prelude::*;

verus! {

/// The largest supported number of cells along one axis: the largest `n`
/// whose cube still fits in a `u32`, so that every cell of a chunk can own a
/// vertex index.
pub const MAX_CHUNK_SIZE: usize = 1625;

/// The position of `(x, y, z)` in a cube of side `m` laid out with `x`
/// running fastest, then `z`, then `y`.
pub open spec fn linear_index(m: int, x: int, y: int, z: int) -> int {
    x + z * m + y * (m * m)
}

/// The `x` coordinate of position `i` in a cube of side `m`.
pub open spec fn coord_x(m: int, i: int) -> int {
    i % m
}

/// The `y` coordinate of position `i` in a cube of side `m`.
pub open spec fn coord_y(m: int, i: int) -> int {
    i / (m * m)
}

/// The `z` coordinate of position `i` in a cube of side `m`.
pub open spec fn coord_z(m: int, i: int) -> int {
    (i / m) % m
}

/// Every position below `m^3` has coordinates below `m`, and they lead back
/// to the position.
pub proof fn lemma_coords_of_index(m: int, i: int)
    requires
        m >= 1,
        0 <= i < m * m * m,
    ensures
        0 <= coord_x(m, i) < m,
        0 <= coord_y(m, i) < m,
        0 <= coord_z(m, i) < m,
        linear_index(m, coord_x(m, i), coord_y(m, i), coord_z(m, i)) == i,
{
    let q = i / m;
    lemma_fundamental_div_mod(i, m);
    lemma_fundamental_div_mod(q, m);
    lemma_div_denominator(i, m, m);
    let y = q / m;
    assert(0 <= q) by (nonlinear_arith)
        requires
            q == i / m,
            i >= 0,
            m >= 1,
    ;
    assert(0 <= y) by (nonlinear_arith)
        requires
            y == q / m,
            q >= 0,
            m >= 1,
    ;
    assert(y < m) by (nonlinear_arith)
        requires
            i == m * q + i % m,
            q == m * y + q % m,
            0 <= i % m < m,
            0 <= q % m < m,
            i < m * m * m,
            m >= 1,
    ;
    assert(i % m + (q % m) * m + y * (m * m) == i) by (nonlinear_arith)
        requires
            i == m * q + i % m,
            q == m * y + q % m,
    ;
}

/// Coordinates below `m` give a position below `m^3`, and the position
/// leads back to them.
pub proof fn lemma_index_of_coords(m: int, x: int, y: int, z: int)
    requires
        0 <= x < m,
        0 <= y < m,
        0 <= z < m,
    ensures
        0 <= linear_index(m, x, y, z) < m * m * m,
        coord_x(m, linear_index(m, x, y, z)) == x,
        coord_y(m, linear_index(m, x, y, z)) == y,
        coord_z(m, linear_index(m, x, y, z)) == z,
{
    let i = linear_index(m, x, y, z);
    let q = z + y * m;
    assert(i == q * m + x) by (nonlinear_arith)
        requires
            i == x + z * m + y * (m * m),
            q == z + y * m,
    ;
    assert(0 <= q) by (nonlinear_arith)
        requires
            q == z + y * m,
            0 <= y,
            0 <= z,
            m >= 1,
    ;
    assert(0 <= i < m * m * m) by (nonlinear_arith)
        requires
            i == x + z * m + y * (m * m),
            0 <= x < m,
            0 <= y < m,
            0 <= z < m,
    ;
    lemma_fundamental_div_mod_converse(i, m, q, x);
    lemma_fundamental_div_mod_converse(q, m, y, z);
    lemma_div_denominator(i, m, m);
}

/// The coordinates `(x, y, z)` of position `i` in a cube of side `m`.
pub fn coords(m: usize, i: usize) -> (r: (usize, usize, usize))
    requires
        1 <= m <= MAX_CHUNK_SIZE + 1,
        i < m * m * m,
    ensures
        r.0 == coord_x(m as int, i as int),
        r.1 == coord_y(m as int, i as int),
        r.2 == coord_z(m as int, i as int),
        r.0 < m,
        r.1 < m,
        r.2 < m,
{
    proof {
        lemma_coords_of_index(m as int, i as int);
        assert(m * m <= 1626 * 1626) by (nonlinear_arith)
            requires
                1 <= m <= 1626,
        ;
        assert(m * m >= 1) by (nonlinear_arith)
            requires
                1 <= m,
        ;
    }
    (i % m, i / (m * m), (i / m) % m)
}

/// The number of samples of a chunk with `n` cells along each axis.
pub open spec fn lattice_len(n: int) -> int {
    (n + 1) * (n + 1) * (n + 1)
}

/// A sampled field: `(n + 1)^3` samples at the corners of `n^3` cells.
pub struct Lattice {
    pub samples: Seq<i32>,
    pub n: int,
}

impl Lattice {
    /// The chunk size is supported and the samples fill the lattice.
    pub open spec fn wf(self) -> bool {
        &&& 1 <= self.n <= MAX_CHUNK_SIZE
        &&& self.samples.len() == lattice_len(self.n)
    }

    /// `(x, y, z)` is a lattice point.
    pub open spec fn contains(self, x: int, y: int, z: int) -> bool {
        &&& 0 <= x <= self.n
        &&& 0 <= y <= self.n
        &&& 0 <= z <= self.n
    }

    /// The sample at lattice point `(x, y, z)`.
    pub open spec fn sample(self, x: int, y: int, z: int) -> i32 {
        self.samples[linear_index(self.n + 1, x, y, z)]
    }

    /// The fixed-point position `(x, y, z)`, in cell units, lies in the
    /// sampled volume.
    pub open spec fn covers(self, x: int, y: int, z: int) -> bool {
        &&& 0 <= x <= self.n * ONE
        &&& 0 <= y <= self.n * ONE
        &&& 0 <= z <= self.n * ONE
    }

    /// The cell coordinate that owns the fixed-point coordinate `p`: the
    /// far face of the volume belongs to the last cell.
    pub open spec fn base_cell(self, p: int) -> int {
        if p / (ONE as int) >= self.n {
            self.n - 1
        } else {
            p / (ONE as int)
        }
    }

    /// Trilinear interpolation at `(x, y, z)`, scaled by the cube of one:
    /// along `x` first, then `y`, then `z`.
    pub open spec fn trilinear_scaled(self, x: int, y: int, z: int) -> int {
        let cx = self.base_cell(x);
        let cy = self.base_cell(y);
        let cz = self.base_cell(z);
        let fx = x - cx * ONE;
        let fy = y - cy * ONE;
        let fz = z - cz * ONE;
        let x00 = lerp(self.sample(cx, cy, cz) as int, self.sample(cx + 1, cy, cz) as int, fx);
        let x10 = lerp(
            self.sample(cx, cy + 1, cz) as int,
            self.sample(cx + 1, cy + 1, cz) as int,
            fx,
        );
        let x01 = lerp(
            self.sample(cx, cy, cz + 1) as int,
            self.sample(cx + 1, cy, cz + 1) as int,
            fx,
        );
        let x11 = lerp(
            self.sample(cx, cy + 1, cz + 1) as int,
            self.sample(cx + 1, cy + 1, cz + 1) as int,
            fx,
        );
        lerp(lerp(x00, x10, fy), lerp(x01, x11, fy), fz)
    }

    /// Trilinear interpolation at `(x, y, z)`, rounded down to sixteen
    /// fractional bits more than the samples have.
    pub open spec fn trilinear(self, x: int, y: int, z: int) -> int {
        self.trilinear_scaled(x, y, z) / 0x1_0000_0000
    }
}

/// Linear interpolation between `a` and `b` with weight `f` out of one,
/// scaled by one.
pub open spec fn lerp(a: int, b: int, f: int) -> int {
    a * (ONE - f) + b * f
}

/// An interpolated value is no larger in magnitude than its ends.
pub proof fn lemma_lerp_bound(a: int, b: int, f: int, m: int)
    requires
        -m <= a <= m,
        -m <= b <= m,
        0 <= f <= ONE,
    ensures
        -m * ONE <= lerp(a, b, f) <= m * ONE,
{
    let g = ONE - f;
    assert(-m * g <= a * g <= m * g) by (nonlinear_arith)
        requires
            -m <= a <= m,
            0 <= g,
    ;
    assert(-m * f <= b * f <= m * f) by (nonlinear_arith)
        requires
            -m <= b <= m,
            0 <= f,
    ;
    assert(m * g + m * f == m * ONE) by (nonlinear_arith)
        requires
            g == ONE - f,
    ;
    assert(-m * g + -m * f == -m * ONE) by (nonlinear_arith)
        requires
            g == ONE - f,
    ;
}

/// At a lattice point the interpolated field is the sample there.
pub proof fn lemma_trilinear_at_lattice_point(lat: Lattice, x: int, y: int, z: int)
    requires
        lat.wf(),
        lat.contains(x, y, z),
    ensures
        lat.covers(x * ONE, y * ONE, z * ONE),
        lat.trilinear(x * ONE, y * ONE, z * ONE) == lat.sample(x, y, z) * ONE,
{
    let cx = lat.base_cell(x * ONE);
    let cy = lat.base_cell(y * ONE);
    let cz = lat.base_cell(z * ONE);
    let fx = x * ONE - cx * ONE;
    let fy = y * ONE - cy * ONE;
    let fz = z * ONE - cz * ONE;
    assert(fx == 0 && cx == x || fx == ONE && cx + 1 == x);
    assert(fy == 0 && cy == y || fy == ONE && cy + 1 == y);
    assert(fz == 0 && cz == z || fz == ONE && cz + 1 == z);
    let s = lat.sample(x, y, z) as int;
    let x00 = lerp(lat.sample(cx, cy, cz) as int, lat.sample(cx + 1, cy, cz) as int, fx);
    let x10 = lerp(lat.sample(cx, cy + 1, cz) as int, lat.sample(cx + 1, cy + 1, cz) as int, fx);
    let x01 = lerp(lat.sample(cx, cy, cz + 1) as int, lat.sample(cx + 1, cy, cz + 1) as int, fx);
    let x11 = lerp(
        lat.sample(cx, cy + 1, cz + 1) as int,
        lat.sample(cx + 1, cy + 1, cz + 1) as int,
        fx,
    );
    lemma_lerp_ends(lat.sample(cx, cy, cz) as int, lat.sample(cx + 1, cy, cz) as int);
    lemma_lerp_ends(lat.sample(cx, cy + 1, cz) as int, lat.sample(cx + 1, cy + 1, cz) as int);
    lemma_lerp_ends(lat.sample(cx, cy, cz + 1) as int, lat.sample(cx + 1, cy, cz + 1) as int);
    lemma_lerp_ends(
        lat.sample(cx, cy + 1, cz + 1) as int,
        lat.sample(cx + 1, cy + 1, cz + 1) as int,
    );
    lemma_lerp_ends(x00, x10);
    lemma_lerp_ends(x01, x11);
    let y0 = lerp(x00, x10, fy);
    let y1 = lerp(x01, x11, fy);
    lemma_lerp_ends(y0, y1);
    assert(lerp(y0, y1, fz) == s * ONE * ONE * ONE);
    assert(lat.trilinear_scaled(x * ONE, y * ONE, z * ONE) == s * ONE * ONE * ONE);
}

/// With weight zero the interpolation is its first end, with weight one its
/// second.
pub proof fn lemma_lerp_ends(a: int, b: int)
    ensures
        lerp(a, b, 0) == a * ONE,
        lerp(a, b, ONE as int) == b * ONE,
{
}

/// Which refusal, if any, a sample buffer of `len` samples earns for a chunk
/// of `n` cells along each axis.
pub open spec fn lattice_error(len: int, n: int) -> Option<ConfigurationError> {
    if n <= 0 {
        Some(ConfigurationError::NonPositiveChunkDimension)
    } else if n > MAX_CHUNK_SIZE {
        Some(ConfigurationError::ChunkTooLarge)
    } else if len != lattice_len(n) {
        Some(ConfigurationError::SampleCountMismatch)
    } else {
        None
    }
}

/// Bounds-checked access to a borrowed buffer of samples.
pub struct SdfGrid<'a> {
    samples: &'a [i32],
    size: usize,
}

impl<'a> View for SdfGrid<'a> {
    type V = Lattice;

    closed spec fn view(&self) -> Lattice {
        Lattice { samples: self.samples@, n: self.size as int }
    }
}

impl<'a> SdfGrid<'a> {
    /// The grid describes a complete lattice of a supported size.
    pub open spec fn wf(&self) -> bool {
        self@.wf()
    }

    /// Wraps `samples` as the lattice of a chunk with `size` cells along
    /// each axis, or says why they are not one.
    pub fn new(samples: &'a [i32], size: usize) -> (r: Result<SdfGrid<'a>, ConfigurationError>)
        ensures
            match r {
                Ok(g) => lattice_error(samples@.len() as int, size as int).is_none() && g.wf()
                    && g@ == (Lattice { samples: samples@, n: size as int }),
                Err(e) => lattice_error(samples@.len() as int, size as int) == Some(e),
            },
    {
        if size == 0 {
            return Err(ConfigurationError::NonPositiveChunkDimension);
        }
        if size > MAX_CHUNK_SIZE {
            return Err(ConfigurationError::ChunkTooLarge);
        }
        let m: u64 = size as u64 + 1;
        assert(m * m <= 1626 * 1626 && m * m * m <= 1626 * 1626 * 1626) by (nonlinear_arith)
            requires
                0 <= m <= 1626,
        ;
        if samples.len() as u64 != m * m * m {
            return Err(ConfigurationError::SampleCountMismatch);
        }
        Ok(SdfGrid { samples, size })
    }

    /// The number of cells along each axis.
    pub fn size(&self) -> (n: usize)
        requires
            self.wf(),
        ensures
            n == self@.n,
            1 <= n <= MAX_CHUNK_SIZE,
    {
        self.size
    }

    /// The number of samples.
    pub fn len(&self) -> (len: usize)
        requires
            self.wf(),
        ensures
            len == lattice_len(self@.n),
    {
        self.samples.len()
    }

    /// The sample at a lattice point known to exist.
    pub fn at(&self, x: usize, y: usize, z: usize) -> (v: i32)
        requires
            self.wf(),
            self@.contains(x as int, y as int, z as int),
        ensures
            v == self@.sample(x as int, y as int, z as int),
    {
        let m: u64 = self.size as u64 + 1;
        proof {
            lemma_index_of_coords(m as int, x as int, y as int, z as int);
            assert(m * m <= 1626 * 1626) by (nonlinear_arith)
                requires
                    0 <= m <= 1626,
            ;
            assert(z * m <= 1626 * 1626 && y * (m * m) <= 1626 * (1626 * 1626))
                by (nonlinear_arith)
                requires
                    0 <= m <= 1626,
                    0 <= z <= 1626,
                    0 <= y <= 1626,
            ;
        }
        let i: u64 = x as u64 + (z as u64) * m + (y as u64) * (m * m);
        self.samples[i as usize]
    }

    /// The sample at `(x, y, z)`, if that is a lattice point.
    pub fn sample(&self, x: usize, y: usize, z: usize) -> (r: Option<i32>)
        requires
            self.wf(),
        ensures
            r == (if self@.contains(x as int, y as int, z as int) {
                Some(self@.sample(x as int, y as int, z as int))
            } else {
                None
            }),
    {
        if x > self.size || y > self.size || z > self.size {
            None
        } else {
            Some(self.at(x, y, z))
        }
    }

    /// Splits a fixed-point coordinate into its cell and the offset in it.
    fn split(&self, p: i64) -> (r: (usize, i64))
        requires
            self.wf(),
            0 <= p <= self@.n * ONE,
        ensures
            r.0 == self@.base_cell(p as int),
            r.1 == p - r.0 * ONE,
            0 <= r.1 <= ONE,
            r.0 + 1 <= self@.n,
    {
        let c: i64 = p / ONE;
        if c >= self.size as i64 {
            let last: i64 = self.size as i64 - 1;
            (self.size - 1, p - last * ONE)
        } else {
            (c as usize, p - c * ONE)
        }
    }

    /// Trilinear interpolation of the eight samples around the fixed-point
    /// position `(x, y, z)`, given in cell units and known to lie in the
    /// sampled volume. The result has sixteen fractional bits more than the
    /// samples have.
    pub fn interpolate(&self, x: i64, y: i64, z: i64) -> (v: i64)
        requires
            self.wf(),
            self@.covers(x as int, y as int, z as int),
        ensures
            v == self@.trilinear(x as int, y as int, z as int),
            -0x8000_0000 * ONE <= v <= 0x8000_0000 * ONE,
    {
        let (cx, fx) = self.split(x);
        let (cy, fy) = self.split(y);
        let (cz, fz) = self.split(z);
        let x00 = lerp_samples(self.at(cx, cy, cz), self.at(cx + 1, cy, cz), fx);
        let x10 = lerp_samples(self.at(cx, cy + 1, cz), self.at(cx + 1, cy + 1, cz), fx);
        let x01 = lerp_samples(self.at(cx, cy, cz + 1), self.at(cx + 1, cy, cz + 1), fx);
        let x11 = lerp_samples(self.at(cx, cy + 1, cz + 1), self.at(cx + 1, cy + 1, cz + 1), fx);
        let y0 = lerp_wide(x00 as i128, x10 as i128, fy, Ghost(0x8000_0000 * ONE));
        let y1 = lerp_wide(x01 as i128, x11 as i128, fy, Ghost(0x8000_0000 * ONE));
        let t = lerp_wide(y0, y1, fz, Ghost(0x8000_0000 * ONE * ONE));
        floor_to_extra_bits(t)
    }

    /// Trilinear interpolation at the fixed-point position `(x, y, z)`, if
    /// it lies in the sampled volume.
    pub fn trilinear(&self, x: i64, y: i64, z: i64) -> (r: Option<i64>)
        requires
            self.wf(),
        ensures
            r == (if self@.covers(x as int, y as int, z as int) {
                Some(self@.trilinear(x as int, y as int, z as int) as i64)
            } else {
                None
            }),
    {
        let limit: i64 = self.size as i64 * ONE;
        if x < 0 || x > limit || y < 0 || y > limit || z < 0 || z > limit {
            None
        } else {
            Some(self.interpolate(x, y, z))
        }
    }
}

/// Interpolates between two samples.
fn lerp_samples(a: i32, b: i32, f: i64) -> (r: i64)
    requires
        0 <= f <= ONE,
    ensures
        r == lerp(a as int, b as int, f as int),
        -0x8000_0000 * ONE <= r <= 0x8000_0000 * ONE,
{
    proof {
        lemma_lerp_bound(a as int, b as int, f as int, 0x8000_0000);
        lemma_lerp_bound(a as int, 0, f as int, 0x8000_0000);
        lemma_lerp_bound(0, b as int, f as int, 0x8000_0000);
    }
    (a as i64) * (ONE - f) + (b as i64) * f
}

/// Interpolates between two values of magnitude at most `m`.
fn lerp_wide(a: i128, b: i128, f: i64, Ghost(m): Ghost<int>) -> (r: i128)
    requires
        0 <= f <= ONE,
        -m <= a <= m,
        -m <= b <= m,
        m <= 0x8000_0000 * ONE * ONE,
    ensures
        r == lerp(a as int, b as int, f as int),
        -m * ONE <= r <= m * ONE,
{
    proof {
        lemma_lerp_bound(a as int, b as int, f as int, m);
        lemma_lerp_bound(a as int, 0, f as int, m);
        lemma_lerp_bound(0, b as int, f as int, m);
    }
    a * ((ONE - f) as i128) + b * (f as i128)
}

/// Drops thirty-two of the forty-eight fractional bits that three
/// interpolations add, rounding down.
fn floor_to_extra_bits(t: i128) -> (r: i64)
    requires
        -0x8000_0000 * ONE * ONE * ONE <= t <= 0x8000_0000 * ONE * ONE * ONE,
    ensures
        r == t / 0x1_0000_0000,
        -0x8000_0000 * ONE <= r <= 0x8000_0000 * ONE,
{
    if t >= 0 {
        (t / 0x1_0000_0000) as i64
    } else {
        let m: i128 = -t;
        let q: i128 = (m + 0xffff_ffff) / 0x1_0000_0000;
        (-q) as i64
    }
}

} // verus!
