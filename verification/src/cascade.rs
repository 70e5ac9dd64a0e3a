use vstd::prelude::*;
use vstd::arithmetic::power2::{
    lemma2_to64, lemma2_to64_rest, lemma_pow2_pos, lemma_pow2_strictly_increases,
    lemma_pow2_unfold, pow2,
};
use crate::arith::{ceil_log2, ceil_log2_u32, power_of_two};
use crate::config::ConfigError;

verus! {

/// Length of the ray interval that cascade `level` is the authority for:
/// the base length, doubled once per level.
pub open spec fn interval_length_at(base: nat, level: nat) -> nat {
    base * pow2(level)
}

/// Distance from the probe at which the interval of cascade `level` begins.
pub open spec fn interval_start_at(base: nat, level: nat) -> nat {
    (base * (pow2(level) - 1)) as nat
}

/// Distance from the probe at which the interval of cascade `level` ends.
pub open spec fn interval_end_at(base: nat, level: nat) -> nat {
    interval_start_at(base, level) + interval_length_at(base, level)
}

/// Distance between neighbouring probes of cascade `level`.
pub open spec fn probe_spacing_at(base: nat, level: nat) -> nat {
    base * pow2(level)
}

/// The interval of each cascade ends exactly where the interval of the next
/// coarser cascade begins: the intervals tile the ray without gap or overlap.
pub proof fn lemma_intervals_tile(base: nat, level: nat)
    ensures
        interval_end_at(base, level) == interval_start_at(base, level + 1),
{
    lemma_pow2_unfold(level + 1);
    lemma_pow2_pos(level);
    let p = pow2(level) as int;
    let b = base as int;
    assert(b * (p - 1) + b * p == b * (2 * p - 1)) by (nonlinear_arith);
    assert(b * (p - 1) >= 0) by (nonlinear_arith)
        requires
            b >= 0,
            p >= 1,
    ;
}

/// The first cascade starts at the probe itself.
pub proof fn lemma_first_interval_starts_at_probe(base: nat)
    ensures
        interval_start_at(base, 0) == 0,
{
    lemma2_to64();
}

/// Intervals grow with the level: a coarser cascade begins no earlier.
pub proof fn lemma_interval_starts_ordered(base: nat, a: nat, b: nat)
    requires
        a <= b,
    ensures
        interval_start_at(base, a) <= interval_start_at(base, b),
    decreases b - a,
{
    if a < b {
        lemma_interval_starts_ordered(base, a, (b - 1) as nat);
        lemma_intervals_tile(base, (b - 1) as nat);
    }
}

/// `e` is the base interval length for probe spacing `s`: the least even
/// length that is no shorter than half the diagonal of a square of side `s`.
/// (Half the diagonal is `s / sqrt 2`, so `e` reaches it when `2 e^2 >= s^2`.)
pub open spec fn is_base_interval(s: nat, e: nat) -> bool {
    &&& e % 2 == 0
    &&& 2 * e * e >= s * s
    &&& e >= 2 ==> 2 * (e - 2) * (e - 2) < s * s
}

/// The base interval length for probe spacing `s`.
pub fn base_interval_length(s: u32) -> (e: u32)
    ensures
        is_base_interval(s as nat, e as nat),
{
    assert((s as int) * (s as int) <= 0xffff_fffe_0000_0001) by (nonlinear_arith)
        requires
            0 <= s <= 0xffff_ffff,
    ;
    let sq: u64 = (s as u64) * (s as u64);
    // The least `h` with `8 h^2 >= s^2`, searched in `[0, s / 2 + 1]`.
    let mut lo: u64 = 0;
    let mut hi: u64 = (s as u64) / 2 + 1;
    assert(8 * hi * hi >= sq) by (nonlinear_arith)
        requires
            sq == (s as int) * (s as int),
            2 * hi >= s,
            s >= 0,
    ;
    while lo < hi
        invariant
            lo <= hi <= (s as int) / 2 + 1,
            sq == (s as int) * (s as int),
            8 * hi * hi >= sq,
            lo > 0 ==> 8 * (lo - 1) * (lo - 1) < sq,
        decreases hi - lo,
    {
        let mid: u64 = lo + (hi - lo) / 2;
        assert(mid * mid <= 0x4000_0000_0000_0000) by (nonlinear_arith)
            requires
                0 <= mid <= 0x8000_0000,
        ;
        let m2: u64 = mid * mid;
        let need: u64 = sq / 8 + (if sq % 8 == 0 { 0 } else { 1 });
        if m2 >= need {
            assert(8 * mid * mid >= sq) by (nonlinear_arith)
                requires
                    m2 == mid * mid,
                    m2 >= need,
                    8 * need >= sq,
            ;
            hi = mid;
        } else {
            assert(8 * mid * mid < sq) by (nonlinear_arith)
                requires
                    m2 == mid * mid,
                    m2 < need,
                    8 * (need - 1) < sq,
            ;
            lo = mid + 1;
        }
    }
    let h: u64 = lo;
    proof {
        let e = 2 * h;
        assert(2 * e * e == 8 * h * h) by (nonlinear_arith)
            requires
                e == 2 * h,
        ;
        if e >= 2 {
            assert(2 * (e - 2) * (e - 2) == 8 * (h - 1) * (h - 1)) by (nonlinear_arith)
                requires
                    e == 2 * h,
            ;
        }
        if 2 * h > u32::MAX {
            // Only `s / 2 + 1 == 2^31` could reach here, and one less suffices.
            let g = h - 1;
            assert(8 * g * g >= (s as int) * (s as int)) by (nonlinear_arith)
                requires
                    0 <= s <= 0xffff_ffff,
                    g == 0x7fff_ffff,
            ;
        }
    }
    (2 * h) as u32
}

/// The probe spacing that is used for spacing `s`: the next power of two.
pub open spec fn adjusted_spacing(s: nat) -> nat {
    pow2(ceil_log2(s))
}

/// Texels along one side of the finest cascade, for a screen side of
/// `screen` pixels, `texels` texels per probe and requested spacing `s`.
pub open spec fn atlas_side(screen: nat, texels: nat, s: nat) -> nat {
    (texels * screen) / adjusted_spacing(s)
}

/// Rows of cascade `level` when the finest cascade has `rows` rows: the
/// directional resolution is traded for range, one halving per level.
pub open spec fn level_rows(rows: nat, level: nat) -> nat {
    rows / pow2(level)
}

/// How the atlas of a coarser cascade relates to that of the finest one.
#[derive(Debug, Clone, Copy, PartialEq, Eq, Structural)]
pub enum AtlasLayout {
    /// Every cascade has half the rows of the next finer one.
    Halving,
    /// Every cascade has the rows of the finest one.
    Uniform,
}

/// The greatest number of cascades of a hierarchy whose atlases are all of
/// one size: beyond it the interval of the coarsest cascade would not fit
/// the integers that carry it. Where the rows halve, they run out no later.
pub const MAX_CASCADES: u32 = 32;

/// Rows of cascade `level` when the finest cascade has `rows` rows.
pub open spec fn rows_at(layout: AtlasLayout, rows: nat, level: nat) -> nat {
    match layout {
        AtlasLayout::Halving => level_rows(rows, level),
        AtlasLayout::Uniform => rows,
    }
}

/// The fault, if any, of a cascade configuration. Every cascade has to
/// keep a row: where the rows halve from level to level, that bounds the
/// number of cascades by the height of the screen.
pub open spec fn geometry_fault(
    layout: AtlasLayout,
    count: nat,
    width: nat,
    height: nat,
    s: nat,
    texels: nat,
) -> Option<ConfigError> {
    if count == 0 {
        Some(ConfigError::NoCascades)
    } else if s == 0 || texels == 0 {
        Some(ConfigError::ZeroProbeSpacing)
    } else if width == 0 || height == 0 {
        Some(ConfigError::EmptyGrid)
    } else if adjusted_spacing(s) > u32::MAX || atlas_side(width, texels, s) > u32::MAX
        || atlas_side(height, texels, s) > u32::MAX || (layout == AtlasLayout::Uniform && count
        > MAX_CASCADES) {
        Some(ConfigError::TooLarge)
    } else if atlas_side(width, texels, s) == 0 || rows_at(
        layout,
        atlas_side(height, texels, s),
        (count - 1) as nat,
    ) == 0 {
        Some(ConfigError::EmptyGrid)
    } else {
        None
    }
}

/// The geometry of a cascade hierarchy: how many cascades there are, how far
/// apart the probes of the finest one stand, how long its ray interval is,
/// and how large its atlas is.
#[derive(Debug, Clone, Copy)]
pub struct CascadeGeometry {
    layout: AtlasLayout,
    cascade_count: u32,
    probe_spacing: u32,
    interval_length: u32,
    atlas_width: u32,
    atlas_height: u32,
}

impl CascadeGeometry {
    #[verifier::type_invariant]
    spec fn inv(self) -> bool {
        &&& 1 <= self.cascade_count <= MAX_CASCADES
        &&& self.probe_spacing >= 1
        &&& self.atlas_width >= 1
        &&& rows_at(self.layout, self.atlas_height as nat, (self.cascade_count - 1) as nat) >= 1
    }

    /// How the rows of a coarser cascade relate to those of the finest.
    pub closed spec fn layout(&self) -> AtlasLayout {
        self.layout
    }

    /// Number of cascades.
    pub closed spec fn count(&self) -> nat {
        self.cascade_count as nat
    }

    /// Probe spacing of the finest cascade.
    pub closed spec fn base_spacing(&self) -> nat {
        self.probe_spacing as nat
    }

    /// Interval length of the finest cascade.
    pub closed spec fn base_interval(&self) -> nat {
        self.interval_length as nat
    }

    /// Columns of every cascade.
    pub closed spec fn columns(&self) -> nat {
        self.atlas_width as nat
    }

    /// Rows of the finest cascade.
    pub closed spec fn rows(&self) -> nat {
        self.atlas_height as nat
    }

    /// Validates a configuration and derives from it the geometry of a
    /// hierarchy in which every cascade has half the rows of the next finer
    /// one.
    ///
    /// `probe_spacing` is rounded up to a power of two; the base interval
    /// length is the least even length reaching half the diagonal of the
    /// requested spacing; the atlas holds `probe_texels` texels per probe
    /// along each axis.
    pub fn new(
        cascade_count: u32,
        screen_width: u32,
        screen_height: u32,
        probe_spacing: u32,
        probe_texels: u32,
    ) -> (r: Result<CascadeGeometry, ConfigError>)
        ensures
            match r {
                Ok(g) => {
                    &&& geometry_fault(
                        AtlasLayout::Halving,
                        cascade_count as nat,
                        screen_width as nat,
                        screen_height as nat,
                        probe_spacing as nat,
                        probe_texels as nat,
                    ) is None
                    &&& g.layout() == AtlasLayout::Halving
                    &&& g.count() == cascade_count
                    &&& g.base_spacing() == adjusted_spacing(probe_spacing as nat)
                    &&& is_base_interval(probe_spacing as nat, g.base_interval())
                    &&& g.columns() == atlas_side(
                        screen_width as nat,
                        probe_texels as nat,
                        probe_spacing as nat,
                    )
                    &&& g.rows() == atlas_side(
                        screen_height as nat,
                        probe_texels as nat,
                        probe_spacing as nat,
                    )
                },
                Err(e) => geometry_fault(
                    AtlasLayout::Halving,
                    cascade_count as nat,
                    screen_width as nat,
                    screen_height as nat,
                    probe_spacing as nat,
                    probe_texels as nat,
                ) == Some(e),
            },
    {
        Self::build(
            AtlasLayout::Halving,
            cascade_count,
            screen_width,
            screen_height,
            probe_spacing,
            probe_texels,
        )
    }

    /// Validates a configuration and derives from it the geometry of a
    /// hierarchy in which every cascade has the size of the finest one. The
    /// spacing, the interval and the atlas are derived as `new` derives
    /// them; the number of cascades is bounded by `MAX_CASCADES` alone.
    pub fn uniform(
        cascade_count: u32,
        screen_width: u32,
        screen_height: u32,
        probe_spacing: u32,
        probe_texels: u32,
    ) -> (r: Result<CascadeGeometry, ConfigError>)
        ensures
            match r {
                Ok(g) => {
                    &&& geometry_fault(
                        AtlasLayout::Uniform,
                        cascade_count as nat,
                        screen_width as nat,
                        screen_height as nat,
                        probe_spacing as nat,
                        probe_texels as nat,
                    ) is None
                    &&& g.layout() == AtlasLayout::Uniform
                    &&& g.count() == cascade_count
                    &&& g.base_spacing() == adjusted_spacing(probe_spacing as nat)
                    &&& is_base_interval(probe_spacing as nat, g.base_interval())
                    &&& g.columns() == atlas_side(
                        screen_width as nat,
                        probe_texels as nat,
                        probe_spacing as nat,
                    )
                    &&& g.rows() == atlas_side(
                        screen_height as nat,
                        probe_texels as nat,
                        probe_spacing as nat,
                    )
                },
                Err(e) => geometry_fault(
                    AtlasLayout::Uniform,
                    cascade_count as nat,
                    screen_width as nat,
                    screen_height as nat,
                    probe_spacing as nat,
                    probe_texels as nat,
                ) == Some(e),
            },
    {
        Self::build(
            AtlasLayout::Uniform,
            cascade_count,
            screen_width,
            screen_height,
            probe_spacing,
            probe_texels,
        )
    }

    /// Validates a configuration and derives the geometry from it.
    fn build(
        layout: AtlasLayout,
        cascade_count: u32,
        screen_width: u32,
        screen_height: u32,
        probe_spacing: u32,
        probe_texels: u32,
    ) -> (r: Result<CascadeGeometry, ConfigError>)
        ensures
            match r {
                Ok(g) => {
                    &&& geometry_fault(
                        layout,
                        cascade_count as nat,
                        screen_width as nat,
                        screen_height as nat,
                        probe_spacing as nat,
                        probe_texels as nat,
                    ) is None
                    &&& g.layout() == layout
                    &&& g.count() == cascade_count
                    &&& g.base_spacing() == adjusted_spacing(probe_spacing as nat)
                    &&& is_base_interval(probe_spacing as nat, g.base_interval())
                    &&& g.columns() == atlas_side(
                        screen_width as nat,
                        probe_texels as nat,
                        probe_spacing as nat,
                    )
                    &&& g.rows() == atlas_side(
                        screen_height as nat,
                        probe_texels as nat,
                        probe_spacing as nat,
                    )
                },
                Err(e) => geometry_fault(
                    layout,
                    cascade_count as nat,
                    screen_width as nat,
                    screen_height as nat,
                    probe_spacing as nat,
                    probe_texels as nat,
                ) == Some(e),
            },
    {
        if cascade_count == 0 {
            return Err(ConfigError::NoCascades);
        }
        if probe_spacing == 0 || probe_texels == 0 {
            return Err(ConfigError::ZeroProbeSpacing);
        }
        if screen_width == 0 || screen_height == 0 {
            return Err(ConfigError::EmptyGrid);
        }
        let exponent = ceil_log2_u32(probe_spacing);
        let spacing: u64 = power_of_two(exponent);
        proof {
            lemma_pow2_pos(exponent as nat);
        }
        assert((probe_texels as int) * (screen_width as int) <= 0xffff_fffe_0000_0001) by (nonlinear_arith)
            requires
                0 <= probe_texels <= 0xffff_ffff,
                0 <= screen_width <= 0xffff_ffff,
        ;
        assert((probe_texels as int) * (screen_height as int) <= 0xffff_fffe_0000_0001) by (nonlinear_arith)
            requires
                0 <= probe_texels <= 0xffff_ffff,
                0 <= screen_height <= 0xffff_ffff,
        ;
        let width: u64 = (probe_texels as u64) * (screen_width as u64) / spacing;
        let height: u64 = (probe_texels as u64) * (screen_height as u64) / spacing;
        let uniform: bool = match layout {
            AtlasLayout::Uniform => true,
            AtlasLayout::Halving => false,
        };
        if spacing > u32::MAX as u64 || width > u32::MAX as u64 || height > u32::MAX as u64 || (uniform
            && cascade_count > MAX_CASCADES) {
            return Err(ConfigError::TooLarge);
        }
        if width == 0 {
            return Err(ConfigError::EmptyGrid);
        }
        if cascade_count > MAX_CASCADES {
            proof {
                lemma2_to64();
                lemma2_to64_rest();
                if cascade_count > 33 {
                    lemma_pow2_strictly_increases(32, (cascade_count - 1) as nat);
                }
                vstd::arithmetic::div_mod::lemma_basic_div(
                    height as int,
                    pow2((cascade_count - 1) as nat) as int,
                );
            }
            return Err(ConfigError::EmptyGrid);
        }
        let top_rows: u64 = match layout {
            AtlasLayout::Halving => {
                let top: u64 = power_of_two(cascade_count - 1);
                proof {
                    lemma_pow2_pos((cascade_count - 1) as nat);
                }
                height / top
            },
            AtlasLayout::Uniform => height,
        };
        if top_rows == 0 {
            return Err(ConfigError::EmptyGrid);
        }
        Ok(
            CascadeGeometry {
                layout,
                cascade_count,
                probe_spacing: spacing as u32,
                interval_length: base_interval_length(probe_spacing),
                atlas_width: width as u32,
                atlas_height: height as u32,
            },
        )
    }

    /// How the rows of a coarser cascade relate to those of the finest.
    pub fn atlas_layout(&self) -> (layout: AtlasLayout)
        ensures
            layout == self.layout(),
    {
        self.layout
    }

    /// Whether `level` is the index of a cascade.
    pub fn has_level(&self, level: usize) -> (b: bool)
        ensures
            b == (level < self.count()),
    {
        level < self.cascade_count as usize
    }

    /// Number of cascades, at least one.
    pub fn cascade_count(&self) -> (n: u32)
        ensures
            n == self.count(),
            n >= 1,
    {
        proof {
            use_type_invariant(self);
        }
        self.cascade_count
    }

    /// Probe spacing of the finest cascade, a power of two.
    pub fn c0_probe_spacing(&self) -> (s: u32)
        ensures
            s == self.base_spacing(),
    {
        self.probe_spacing
    }

    /// Interval length of the finest cascade.
    pub fn c0_interval_length(&self) -> (e: u32)
        ensures
            e == self.base_interval(),
    {
        self.interval_length
    }

    /// Columns and rows of the finest cascade.
    pub fn c0_resolution(&self) -> (r: (u32, u32))
        ensures
            r.0 == self.columns(),
            r.1 == self.rows(),
            r.0 >= 1,
            r.1 >= 1,
    {
        proof {
            use_type_invariant(self);
            lemma_pow2_pos((self.cascade_count - 1) as nat);
            if self.atlas_height == 0 && self.layout == AtlasLayout::Halving {
                vstd::arithmetic::div_mod::lemma_basic_div(
                    0,
                    pow2((self.cascade_count - 1) as nat) as int,
                );
            }
        }
        (self.atlas_width, self.atlas_height)
    }

    /// Columns and rows of cascade `level`; neither is zero.
    pub fn level_resolution(&self, level: u32) -> (r: (u32, u32))
        requires
            level < self.count(),
        ensures
            r.0 == self.columns(),
            r.1 == rows_at(self.layout(), self.rows(), level as nat),
            r.0 >= 1,
            r.1 >= 1,
    {
        proof {
            use_type_invariant(self);
        }
        match self.layout {
            AtlasLayout::Uniform => (self.atlas_width, self.atlas_height),
            AtlasLayout::Halving => {
                let p: u64 = power_of_two(level);
                proof {
                    lemma_pow2_pos(level as nat);
                    let top = pow2((self.cascade_count - 1) as nat);
                    lemma_pow2_pos((self.cascade_count - 1) as nat);
                    if level < self.cascade_count - 1 {
                        lemma_pow2_strictly_increases(level as nat, (self.cascade_count - 1) as nat);
                    }
                    vstd::arithmetic::div_mod::lemma_div_is_ordered_by_denominator(
                        self.atlas_height as int,
                        p as int,
                        top as int,
                    );
                }
                (self.atlas_width, (self.atlas_height as u64 / p) as u32)
            },
        }
    }

    /// Distance between neighbouring probes of cascade `level`.
    pub fn probe_spacing(&self, level: u32) -> (d: u64)
        requires
            level < self.count(),
        ensures
            d == probe_spacing_at(self.base_spacing(), level as nat),
    {
        proof {
            use_type_invariant(self);
        }
        let p: u64 = power_of_two(level);
        proof {
            lemma2_to64();
            lemma_pow2_strictly_increases(level as nat, 32);
            assert((self.probe_spacing as int) * (p as int) <= 0xffff_ffff * 0x1_0000_0000) by (nonlinear_arith)
                requires
                    0 <= self.probe_spacing <= 0xffff_ffff,
                    0 <= p <= 0x1_0000_0000,
            ;
        }
        (self.probe_spacing as u64) * p
    }

    /// Where the ray interval of cascade `level` begins.
    pub fn interval_start(&self, level: u32) -> (d: u64)
        requires
            level < self.count(),
        ensures
            d == interval_start_at(self.base_interval(), level as nat),
    {
        proof {
            use_type_invariant(self);
        }
        let p: u64 = power_of_two(level);
        proof {
            lemma2_to64();
            lemma_pow2_pos(level as nat);
            lemma_pow2_strictly_increases(level as nat, 32);
            assert(0 <= (self.interval_length as int) * (p - 1) <= 0xffff_ffff * 0x1_0000_0000) by (nonlinear_arith)
                requires
                    0 <= self.interval_length <= 0xffff_ffff,
                    1 <= p <= 0x1_0000_0000,
            ;
        }
        (self.interval_length as u64) * (p - 1)
    }

    /// Where the ray interval of cascade `level` ends.
    pub fn interval_end(&self, level: u32) -> (d: u64)
        requires
            level < self.count(),
        ensures
            d == interval_end_at(self.base_interval(), level as nat),
            d == interval_start_at(self.base_interval(), level as nat + 1),
    {
        proof {
            use_type_invariant(self);
            lemma_intervals_tile(self.base_interval(), level as nat);
        }
        let p: u64 = power_of_two(level + 1);
        proof {
            lemma2_to64();
            lemma_pow2_pos((level + 1) as nat);
            if level + 1 < 32 {
                lemma_pow2_strictly_increases((level + 1) as nat, 32);
            }
            assert(0 <= (self.interval_length as int) * (p - 1) <= 0xffff_ffff * 0x1_0000_0000) by (nonlinear_arith)
                requires
                    0 <= self.interval_length <= 0xffff_ffff,
                    1 <= p <= 0x1_0000_0000,
            ;
        }
        (self.interval_length as u64) * (p - 1)
    }
}

/// The cascade that the integration pass samples. It is the finest one,
/// cascade 0, in every normal frame; in debug mode it is the cascade that
/// the debug interface asks for, where there is such a cascade.
pub fn integrated_level(debug: bool, requested: usize, g: &CascadeGeometry) -> (level: usize)
    ensures
        level == if debug && requested < g.count() {
            requested
        } else {
            0
        },
        level < g.count(),
{
    if debug && g.has_level(requested) {
        requested
    } else {
        let count: u32 = g.cascade_count();
        assert(count >= 1);
        0
    }
}

} // verus!
