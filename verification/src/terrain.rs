//! Layered 2D terrain generation.
//!
//! A generator owns an ordered sequence of layers. Layer `i` samples a seeded
//! 2D noise function at coordinates divided by its horizontal scale and
//! contributes the sample times its vertical scale; the height at a point is
//! the sum over all layers. The noise sampling itself is floating-point work
//! done by the caller; the library fixes the layer seeds and scales, and
//! combines the integer (milli-unit) samples into a height.
//!
//! Scales are fixed-point milli values: layer `i + 1`'s horizontal scale is
//! layer `i`'s times `lacunarity / 1000`, its vertical scale layer `i`'s times
//! `persistence / 1000`, both rounded toward zero.

use vstd::prelude::*;
use vstd::arithmetic::power2::pow2;
use vstd::arithmetic::div_mod::lemma_div_denominator;
use vstd::arithmetic::div_mod::lemma_div_multiples_vanish;

verus! {

/// Most layers a generator may own; construction cost is linear in this.
pub const MAX_OCTAVES: usize = 256;

/// Largest admissible horizontal scale, in milli units.
pub const SCALE_WIDTH_MAX: i64 = 1_000_000_000_000;

/// Largest admissible vertical scale, in milli units.
pub const SCALE_HEIGHT_MAX: i64 = 1_000_000_000;

/// Largest magnitude a caller-supplied noise sample may have, in milli units.
/// A noise function with range [-1, 1] yields samples in [-1000, 1000].
pub const SAMPLE_ABS_MAX: i64 = 1_000_000;

/// Configuration faults that terrain generator construction rejects.
#[derive(Copy, Clone, PartialEq, Eq, Debug, Structural)]
pub enum TerrainConfigError {
    ZeroOctaves,
    TooManyOctaves,
    NonPositiveScaleWidth,
    NonPositiveScaleHeight,
    NonPositivePersistence,
    NonPositiveLacunarity,
    ScaleOutOfRange,
}

/// Terrain configuration: octave count and fixed-point milli scales.
pub struct TerrainConfig2d {
    pub octaves: usize,
    pub scale_width: i64,
    pub scale_height: i64,
    pub persistence: i64,
    pub lacunarity: i64,
}

impl TerrainConfig2d {
    pub fn new(
        octaves: usize,
        scale_width: i64,
        scale_height: i64,
        persistence: i64,
        lacunarity: i64,
    ) -> (r: Self)
        ensures
            r.octaves == octaves,
            r.scale_width == scale_width,
            r.scale_height == scale_height,
            r.persistence == persistence,
            r.lacunarity == lacunarity,
    {
        Self { octaves, scale_width, scale_height, persistence, lacunarity }
    }
}

impl Default for TerrainConfig2d {
    /// One layer at horizontal scale 20, vertical scale 10, with persistence
    /// and lacunarity both one half.
    fn default() -> (r: Self)
        ensures
            r.octaves == 1,
            r.scale_width == 20_000,
            r.scale_height == 10_000,
            r.persistence == 500,
            r.lacunarity == 500,
    {
        Self { octaves: 1, scale_width: 20_000, scale_height: 10_000, persistence: 500, lacunarity: 500 }
    }
}

/// The seed of layer `index`, derived from the base seed alone: the layer
/// index is spread by a fixed odd multiplier and the sum is bit-mixed, so
/// regeneration with the same base seed is reproducible and distinct layers
/// get uncorrelated seeds.
#[verifier::opaque]
pub open spec fn spec_layer_seed(base: u64, index: u64) -> u64 {
    let z0 = base.wrapping_add(index.wrapping_mul(0x9E37_79B9_7F4A_7C15u64));
    let z1 = (z0 ^ (z0 >> 30u64)).wrapping_mul(0xBF58_476D_1CE4_E5B9u64);
    let z2 = (z1 ^ (z1 >> 27u64)).wrapping_mul(0x94D0_49BB_1331_11EBu64);
    z2 ^ (z2 >> 31u64)
}

/// Pure derivation of a layer's noise seed from the base seed and the layer
/// index; no hidden state, so generators can be rebuilt at any time.
pub fn layer_seed(base_seed: u64, layer_index: u64) -> (r: u64)
    ensures
        r == spec_layer_seed(base_seed, layer_index),
{
    proof {
        reveal(spec_layer_seed);
    }
    let z0 = base_seed.wrapping_add(layer_index.wrapping_mul(0x9E37_79B9_7F4A_7C15u64));
    let z1 = (z0 ^ (z0 >> 30u64)).wrapping_mul(0xBF58_476D_1CE4_E5B9u64);
    let z2 = (z1 ^ (z1 >> 27u64)).wrapping_mul(0x94D0_49BB_1331_11EBu64);
    z2 ^ (z2 >> 31u64)
}

/// Horizontal scale of layer `i`: the base scale multiplied `i` times by
/// `lacunarity / 1000`, each step rounded down.
pub open spec fn spec_scale_w(base: i64, lacunarity: i64, i: nat) -> int
    decreases i,
{
    if i == 0 {
        base as int
    } else {
        spec_scale_w(base, lacunarity, (i - 1) as nat) * lacunarity / 1000
    }
}

/// Vertical scale of layer `i`: the base scale multiplied `i` times by
/// `persistence / 1000`, each step rounded down.
pub open spec fn spec_scale_h(base: i64, persistence: i64, i: nat) -> int
    decreases i,
{
    if i == 0 {
        base as int
    } else {
        spec_scale_h(base, persistence, (i - 1) as nat) * persistence / 1000
    }
}

/// Basic admissibility of a configuration record.
pub open spec fn spec_config_valid(c: TerrainConfig2d) -> bool {
    &&& 1 <= c.octaves <= MAX_OCTAVES
    &&& 0 < c.scale_width
    &&& 0 < c.scale_height
    &&& 0 < c.persistence
    &&& 0 < c.lacunarity
}

/// The first basic configuration fault, if any, in a fixed checking order.
pub open spec fn spec_config_check(c: TerrainConfig2d) -> Option<TerrainConfigError> {
    if c.octaves == 0 {
        Some(TerrainConfigError::ZeroOctaves)
    } else if c.octaves > MAX_OCTAVES {
        Some(TerrainConfigError::TooManyOctaves)
    } else if c.scale_width <= 0 {
        Some(TerrainConfigError::NonPositiveScaleWidth)
    } else if c.scale_height <= 0 {
        Some(TerrainConfigError::NonPositiveScaleHeight)
    } else if c.persistence <= 0 {
        Some(TerrainConfigError::NonPositivePersistence)
    } else if c.lacunarity <= 0 {
        Some(TerrainConfigError::NonPositiveLacunarity)
    } else {
        None
    }
}

/// Layer `i`'s scales stay in the admissible fixed-point range: neither
/// degenerates to zero nor exceeds its cap.
pub open spec fn spec_scales_in_range(c: TerrainConfig2d, i: nat) -> bool {
    &&& 1 <= spec_scale_w(c.scale_width, c.lacunarity, i) <= SCALE_WIDTH_MAX
    &&& 1 <= spec_scale_h(c.scale_height, c.persistence, i) <= SCALE_HEIGHT_MAX
}

/// One noise layer: the seed for its noise function and its two fixed-point
/// scales. The noise function itself lives with the caller; the seed alone
/// determines it.
pub struct TerrainLayer2d {
    pub seed: u64,
    pub scale_width: i64,
    pub scale_height: i64,
}

impl TerrainLayer2d {
    pub fn new(seed: u64, scale_width: i64, scale_height: i64) -> (r: Self)
        ensures
            r.seed == seed,
            r.scale_width == scale_width,
            r.scale_height == scale_height,
    {
        Self { seed, scale_width, scale_height }
    }
}

/// Layer `i`'s height contribution: its sample times its vertical scale,
/// scaled back to milli units, rounded toward zero.
pub open spec fn spec_term(sample: i64, scale_height: i64) -> int {
    let p = sample * scale_height;
    if p >= 0 {
        p / 1000
    } else {
        -((-p) / 1000)
    }
}

/// Height contributed by the first `n` layers given their samples.
pub open spec fn spec_combine(layers: Seq<TerrainLayer2d>, samples: Seq<i64>, n: nat) -> int
    decreases n,
{
    if n == 0 {
        0
    } else {
        spec_combine(layers, samples, (n - 1) as nat)
            + spec_term(samples[n - 1], layers[n - 1].scale_height)
    }
}

/// A deterministic layered terrain generator: an ordered sequence of layers
/// built once from a configuration and a base seed.
pub struct TerrainGenerator2d {
    pub layers: Vec<TerrainLayer2d>,
}

impl TerrainGenerator2d {
    /// Every layer's scales sit in the admissible range and there are not too
    /// many layers; established by construction and never changed.
    pub open spec fn wf(self) -> bool {
        &&& self.layers@.len() <= MAX_OCTAVES
        &&& forall|i: int|
            0 <= i < self.layers@.len() ==> {
                &&& 1 <= (#[trigger] self.layers@[i]).scale_width <= SCALE_WIDTH_MAX
                &&& 1 <= self.layers@[i].scale_height <= SCALE_HEIGHT_MAX
            }
    }

    /// Builds the layer sequence from a configuration and a base seed.
    ///
    /// Fails fast on a degenerate configuration: zero or excessive octaves,
    /// a non-positive scale, persistence or lacunarity, or a layer scale
    /// leaving the admissible range along the recurrence. On success, layer
    /// `i` carries seed `spec_layer_seed(seed, i)` and the fixed-point scales
    /// of the recurrence, so regeneration with the same inputs is exact.
    #[verifier::rlimit(60)]
    pub fn new(seed: u32, properties: &TerrainConfig2d) -> (r: Result<
        TerrainGenerator2d,
        TerrainConfigError,
    >)
        ensures
            match r {
                Ok(g) => {
                    &&& spec_config_valid(*properties)
                    &&& forall|i: nat| i < properties.octaves ==> spec_scales_in_range(*properties, i)
                    &&& g.wf()
                    &&& g.layers@.len() == properties.octaves
                    &&& forall|i: int|
                        0 <= i < properties.octaves ==> {
                            &&& (#[trigger] g.layers@[i]).seed == spec_layer_seed(
                                seed as u64,
                                i as u64,
                            )
                            &&& g.layers@[i].scale_width == spec_scale_w(
                                properties.scale_width,
                                properties.lacunarity,
                                i as nat,
                            )
                            &&& g.layers@[i].scale_height == spec_scale_h(
                                properties.scale_height,
                                properties.persistence,
                                i as nat,
                            )
                        }
                },
                Err(e) => {
                    ||| spec_config_check(*properties) == Some(e)
                    ||| {
                        &&& spec_config_check(*properties) is None
                        &&& e == TerrainConfigError::ScaleOutOfRange
                        &&& exists|i: nat|
                            i < properties.octaves && !spec_scales_in_range(*properties, i)
                    }
                },
            },
    {
        if properties.octaves == 0 {
            return Err(TerrainConfigError::ZeroOctaves);
        }
        if properties.octaves > MAX_OCTAVES {
            return Err(TerrainConfigError::TooManyOctaves);
        }
        if properties.scale_width <= 0 {
            return Err(TerrainConfigError::NonPositiveScaleWidth);
        }
        if properties.scale_height <= 0 {
            return Err(TerrainConfigError::NonPositiveScaleHeight);
        }
        if properties.persistence <= 0 {
            return Err(TerrainConfigError::NonPositivePersistence);
        }
        if properties.lacunarity <= 0 {
            return Err(TerrainConfigError::NonPositiveLacunarity);
        }
        if properties.scale_width > SCALE_WIDTH_MAX || properties.scale_height > SCALE_HEIGHT_MAX {
            assert(!spec_scales_in_range(*properties, 0));
            return Err(TerrainConfigError::ScaleOutOfRange);
        }

        let mut layers: Vec<TerrainLayer2d> = Vec::new();
        let mut scale_width: i64 = properties.scale_width;
        let mut scale_height: i64 = properties.scale_height;
        let mut i: usize = 0;

        while i < properties.octaves
            invariant
                spec_config_valid(*properties),
                i <= properties.octaves,
                layers@.len() == i,
                1 <= scale_width <= SCALE_WIDTH_MAX,
                1 <= scale_height <= SCALE_HEIGHT_MAX,
                i < properties.octaves ==> scale_width == spec_scale_w(
                    properties.scale_width,
                    properties.lacunarity,
                    i as nat,
                ),
                i < properties.octaves ==> scale_height == spec_scale_h(
                    properties.scale_height,
                    properties.persistence,
                    i as nat,
                ),
                forall|j: nat| j < i ==> spec_scales_in_range(*properties, j),
                i == 0 ==> spec_scales_in_range(*properties, 0),
                forall|j: int|
                    0 <= j < i ==> {
                        &&& (#[trigger] layers@[j]).seed == spec_layer_seed(seed as u64, j as u64)
                        &&& layers@[j].scale_width == spec_scale_w(
                            properties.scale_width,
                            properties.lacunarity,
                            j as nat,
                        )
                        &&& layers@[j].scale_height == spec_scale_h(
                            properties.scale_height,
                            properties.persistence,
                            j as nat,
                        )
                    },
            decreases properties.octaves - i,
        {
            layers.push(TerrainLayer2d::new(layer_seed(seed as u64, i as u64), scale_width, scale_height));
            i = i + 1;
            if i < properties.octaves {
                proof {
                    assert(0 <= (scale_width as int) * (properties.lacunarity as int)
                        < 0x1_0000_0000_0000_0000_0000_0000_0000_0000) by (nonlinear_arith)
                        requires
                            1 <= scale_width <= 1_000_000_000_000,
                            1 <= properties.lacunarity < 0x8000_0000_0000_0000,
                    ;
                    assert(0 <= (scale_height as int) * (properties.persistence as int)
                        < 0x1_0000_0000_0000_0000_0000_0000_0000_0000) by (nonlinear_arith)
                        requires
                            1 <= scale_height <= 1_000_000_000,
                            1 <= properties.persistence < 0x8000_0000_0000_0000,
                    ;
                }
                let pw: u128 = (scale_width as u128) * (properties.lacunarity as u128);
                let ph: u128 = (scale_height as u128) * (properties.persistence as u128);
                let nw: u128 = pw / 1000;
                let nh: u128 = ph / 1000;
                assert(nw == spec_scale_w(properties.scale_width, properties.lacunarity, i as nat));
                assert(nh == spec_scale_h(
                    properties.scale_height,
                    properties.persistence,
                    i as nat,
                ));
                if nw < 1 || nw > SCALE_WIDTH_MAX as u128 || nh < 1 || nh > SCALE_HEIGHT_MAX as u128 {
                    assert(!spec_scales_in_range(*properties, i as nat));
                    return Err(TerrainConfigError::ScaleOutOfRange);
                }
                scale_width = nw as i64;
                scale_height = nh as i64;
            }
        }
        proof {
            assert forall|k: int|
                0 <= k < layers@.len() implies {
                &&& 1 <= (#[trigger] layers@[k]).scale_width <= SCALE_WIDTH_MAX
                &&& 1 <= layers@[k].scale_height <= SCALE_HEIGHT_MAX
            } by {
                assert(spec_scales_in_range(*properties, k as nat));
            }
        }
        Ok(TerrainGenerator2d { layers })
    }

    /// Combines one noise sample per layer into the height at a point: the
    /// sum over layers of `sample * scale_height / 1000`, rounded toward
    /// zero per term. The caller draws `samples[i]` from the layer-`i` noise
    /// function at the point scaled by that layer's horizontal scale; the
    /// result then depends on the samples and the configuration alone.
    pub fn generate(&self, samples: &Vec<i64>) -> (h: i64)
        requires
            self.wf(),
            samples@.len() == self.layers@.len(),
            forall|i: int|
                0 <= i < samples@.len() ==> -SAMPLE_ABS_MAX <= #[trigger] samples@[i]
                    <= SAMPLE_ABS_MAX,
        ensures
            h == spec_combine(self.layers@, samples@, self.layers@.len() as nat),
    {
        let mut acc: i64 = 0;
        let mut i: usize = 0;
        let n = self.layers.len();
        while i < n
            invariant
                self.wf(),
                n == self.layers@.len(),
                samples@.len() == n,
                forall|k: int|
                    0 <= k < n ==> -SAMPLE_ABS_MAX <= #[trigger] samples@[k] <= SAMPLE_ABS_MAX,
                i <= n,
                acc == spec_combine(self.layers@, samples@, i as nat),
                -(i as int) * 1_000_000_000_000 <= acc <= (i as int) * 1_000_000_000_000,
            decreases n - i,
        {
            let sample = samples[i];
            let sh = self.layers[i].scale_height;
            proof {
                assert(-1_000_000_000_000_000 <= (sample as int) * (sh as int)
                    <= 1_000_000_000_000_000) by (nonlinear_arith)
                    requires
                        -1_000_000 <= sample <= 1_000_000,
                        1 <= sh <= 1_000_000_000,
                ;
            }
            let p: i64 = sample * sh;
            let term: i64 = if p >= 0 {
                ((p as u64) / 1000) as i64
            } else {
                -((((-p) as u64) / 1000) as i64)
            };
            assert(term == spec_term(sample, sh));
            assert(-1_000_000_000_000 <= term <= 1_000_000_000_000);
            acc = acc + term;
            i = i + 1;
        }
        acc
    }
}

impl Default for TerrainGenerator2d {
    /// A single-layer generator built from the default configuration with
    /// base seed 1.
    fn default() -> (r: Self)
        ensures
            r.wf(),
            r.layers@.len() == 1,
            r.layers@[0].seed == spec_layer_seed(1, 0),
            r.layers@[0].scale_width == 20_000,
            r.layers@[0].scale_height == 10_000,
    {
        let cfg = TerrainConfig2d::default();
        match TerrainGenerator2d::new(1, &cfg) {
            Ok(g) => g,
            Err(_) => {
                proof {
                    assert(spec_config_check(cfg) is None);
                    assert(spec_scales_in_range(cfg, 0));
                    assert(forall|i: nat| i < 1 && !spec_scales_in_range(cfg, i) ==> false);
                    assert(false);
                }
                vstd::pervasive::unreached()
            },
        }
    }
}

/// Layer scaling law: with lacunarity 2000 (a factor of two) the horizontal
/// scale of layer `i` is the base scale times `2^i` exactly, and with
/// persistence 500 (a factor of one half) the vertical scale of layer `i` is
/// the base scale divided by `2^i`, rounded down.
pub proof fn lemma_layer_scaling(base_w: i64, base_h: i64, i: nat)
    requires
        0 < base_w,
        0 <= base_h,
    ensures
        spec_scale_w(base_w, 2000, i) == base_w * pow2(i),
        spec_scale_h(base_h, 500, i) == (base_h as int) / (pow2(i) as int),
    decreases i,
{
    vstd::arithmetic::power2::lemma_pow2_pos(i);
    if i == 0 {
        vstd::arithmetic::power2::lemma2_to64();
        assert(pow2(0) == 1);
        assert(base_w * 1 == base_w);
        assert(base_h as int / 1 == base_h);
    } else {
        let k = (i - 1) as nat;
        lemma_layer_scaling(base_w, base_h, k);
        vstd::arithmetic::power2::lemma_pow2_pos(k);
        vstd::arithmetic::power2::lemma_pow2_unfold(i);
        // Horizontal: one recurrence step multiplies by exactly two.
        let w = spec_scale_w(base_w, 2000, k);
        assert(w * 2000 == (w * 2) * 1000) by (nonlinear_arith);
        lemma_div_multiples_vanish(w * 2, 1000);
        assert(spec_scale_w(base_w, 2000, i) == w * 2);
        assert(base_w * pow2(k) * 2 == base_w * (pow2(k) * 2)) by (nonlinear_arith);
        // Vertical: one recurrence step halves, rounding down, and nested
        // floor divisions collapse into one.
        let h = spec_scale_h(base_h, 500, k);
        assert(h * 500 == (h * 500 / 500) * 500 + (h * 500) % 500) by {
            vstd::arithmetic::div_mod::lemma_fundamental_div_mod(h * 500, 500);
        }
        assert(h * 500 / 1000 == h / 2) by {
            lemma_div_denominator(h * 500, 500, 2);
            lemma_div_multiples_vanish(h, 500);
        }
        assert(h / 2 == (base_h as int) / (pow2(k) as int) / 2);
        lemma_div_denominator(base_h as int, pow2(k) as int, 2);
    }
}

} // verus!
