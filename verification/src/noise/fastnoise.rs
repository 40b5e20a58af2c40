use vstd::prelude::*;
use fastnoise_lite::FastNoiseLite;

verus! {

/// Type of noise to generate.
#[derive(Debug, PartialEq, Eq, Copy, Clone, Structural)]
pub enum NoiseType {
    Value,
    ValueFractal,
    Perlin,
    PerlinFractal,
    Simplex,
    SimplexFractal,
    Cellular,
    WhiteNoise,
    Cubic,
    CubicFractal,
}

/// Interpolation function to use.
#[derive(Debug, PartialEq, Eq, Copy, Clone, Structural)]
pub enum Interp {
    Linear,
    Hermite,
    Quintic,
}

/// Fractal function to use.
#[derive(Debug, PartialEq, Eq, Copy, Clone, Structural)]
pub enum FractalType {
    FBM,
    Billow,
    RigidMulti,
}

/// Cellular noise distance function to use.
#[derive(Debug, PartialEq, Eq, Copy, Clone, Structural)]
pub enum CellularDistanceFunction {
    Euclidean,
    Manhattan,
    Natural,
}

/// What type of cellular noise result is wanted.
#[derive(Debug, PartialEq, Eq, Copy, Clone, Structural)]
pub enum CellularReturnType {
    CellValue,
    Distance,
    Distance2,
    Distance2Add,
    Distance2Sub,
    Distance2Mul,
    Distance2Div,
}

/// The FastNoise Lite noise algorithms.
#[derive(Debug, PartialEq, Eq, Copy, Clone, Structural)]
pub enum FnlNoiseType {
    OpenSimplex2,
    OpenSimplex2S,
    Cellular,
    Perlin,
    ValueCubic,
    Value,
}

/// The FastNoise Lite fractal modes (`Disabled` is FastNoise Lite's `None`).
#[derive(Debug, PartialEq, Eq, Copy, Clone, Structural)]
pub enum FnlFractalType {
    Disabled,
    FBm,
    Ridged,
    PingPong,
    DomainWarpProgressive,
    DomainWarpIndependent,
}

/// The FastNoise Lite cellular distance functions.
#[derive(Debug, PartialEq, Eq, Copy, Clone, Structural)]
pub enum FnlCellularDistanceFunction {
    Euclidean,
    EuclideanSq,
    Manhattan,
    Hybrid,
}

/// The FastNoise Lite cellular return types.
#[derive(Debug, PartialEq, Eq, Copy, Clone, Structural)]
pub enum FnlCellularReturnType {
    CellValue,
    Distance,
    Distance2,
    Distance2Add,
    Distance2Sub,
    Distance2Mul,
    Distance2Div,
}

/// The largest cellular distance index.
pub const FN_CELLULAR_INDEX_MAX: i32 = 3;

pub const X_PRIME: i32 = 1619;
pub const Y_PRIME: i32 = 31337;
pub const Z_PRIME: i32 = 6971;
pub const W_PRIME: i32 = 1013;

/// The seed handed to FastNoise Lite: the low 32 bits of the seed.
pub fn to_fnl_seed(seed: u64) -> (r: i32)
    ensures
        r == seed as i32,
{
    seed as i32
}

/// Whether the noise type is one of the fractal variants.
pub open spec fn is_fractal_spec(t: NoiseType) -> bool {
    t is ValueFractal || t is PerlinFractal || t is SimplexFractal || t is CubicFractal
}

/// Returns true for the fractal variants of noise.
pub fn is_fractal_noise_type(noise_type: NoiseType) -> (b: bool)
    ensures
        b == is_fractal_spec(noise_type),
{
    match noise_type {
        NoiseType::ValueFractal | NoiseType::PerlinFractal | NoiseType::SimplexFractal
        | NoiseType::CubicFractal => true,
        _ => false,
    }
}

/// The FastNoise Lite algorithm for a noise type. Simplex maps to
/// OpenSimplex2, the closest equivalent; white noise keeps Value, as it is
/// computed outside FastNoise Lite.
pub open spec fn map_noise_type_spec(t: NoiseType) -> FnlNoiseType {
    match t {
        NoiseType::Value | NoiseType::ValueFractal | NoiseType::WhiteNoise => FnlNoiseType::Value,
        NoiseType::Perlin | NoiseType::PerlinFractal => FnlNoiseType::Perlin,
        NoiseType::Simplex | NoiseType::SimplexFractal => FnlNoiseType::OpenSimplex2,
        NoiseType::Cellular => FnlNoiseType::Cellular,
        NoiseType::Cubic | NoiseType::CubicFractal => FnlNoiseType::ValueCubic,
    }
}

/// Maps a noise type onto its FastNoise Lite algorithm.
pub fn map_noise_type(noise_type: NoiseType) -> (r: FnlNoiseType)
    ensures
        r == map_noise_type_spec(noise_type),
{
    match noise_type {
        NoiseType::Value | NoiseType::ValueFractal => FnlNoiseType::Value,
        NoiseType::Perlin | NoiseType::PerlinFractal => FnlNoiseType::Perlin,
        NoiseType::Simplex | NoiseType::SimplexFractal => FnlNoiseType::OpenSimplex2,
        NoiseType::Cellular => FnlNoiseType::Cellular,
        NoiseType::Cubic | NoiseType::CubicFractal => FnlNoiseType::ValueCubic,
        NoiseType::WhiteNoise => FnlNoiseType::Value,
    }
}

/// The FastNoise Lite fractal mode for a fractal type.
pub open spec fn map_fractal_type_spec(t: FractalType) -> FnlFractalType {
    match t {
        FractalType::FBM => FnlFractalType::FBm,
        FractalType::Billow => FnlFractalType::PingPong,
        FractalType::RigidMulti => FnlFractalType::Ridged,
    }
}

/// Maps a fractal type onto its FastNoise Lite fractal mode.
pub fn map_fractal_type(fractal_type: FractalType) -> (r: FnlFractalType)
    ensures
        r == map_fractal_type_spec(fractal_type),
{
    match fractal_type {
        FractalType::FBM => FnlFractalType::FBm,
        FractalType::Billow => FnlFractalType::PingPong,
        FractalType::RigidMulti => FnlFractalType::Ridged,
    }
}

/// The FastNoise Lite distance function for a cellular distance function;
/// Euclidean keeps the squared-distance behaviour.
pub open spec fn map_cellular_distance_function_spec(f: CellularDistanceFunction) -> FnlCellularDistanceFunction {
    match f {
        CellularDistanceFunction::Euclidean => FnlCellularDistanceFunction::EuclideanSq,
        CellularDistanceFunction::Manhattan => FnlCellularDistanceFunction::Manhattan,
        CellularDistanceFunction::Natural => FnlCellularDistanceFunction::Hybrid,
    }
}

/// Maps a cellular distance function onto FastNoise Lite's.
pub fn map_cellular_distance_function(function: CellularDistanceFunction) -> (r: FnlCellularDistanceFunction)
    ensures
        r == map_cellular_distance_function_spec(function),
{
    match function {
        CellularDistanceFunction::Euclidean => FnlCellularDistanceFunction::EuclideanSq,
        CellularDistanceFunction::Manhattan => FnlCellularDistanceFunction::Manhattan,
        CellularDistanceFunction::Natural => FnlCellularDistanceFunction::Hybrid,
    }
}

/// The FastNoise Lite return type for a cellular return type: the same
/// variant.
pub open spec fn map_cellular_return_type_spec(t: CellularReturnType) -> FnlCellularReturnType {
    match t {
        CellularReturnType::CellValue => FnlCellularReturnType::CellValue,
        CellularReturnType::Distance => FnlCellularReturnType::Distance,
        CellularReturnType::Distance2 => FnlCellularReturnType::Distance2,
        CellularReturnType::Distance2Add => FnlCellularReturnType::Distance2Add,
        CellularReturnType::Distance2Sub => FnlCellularReturnType::Distance2Sub,
        CellularReturnType::Distance2Mul => FnlCellularReturnType::Distance2Mul,
        CellularReturnType::Distance2Div => FnlCellularReturnType::Distance2Div,
    }
}

/// Maps a cellular return type onto FastNoise Lite's.
pub fn map_cellular_return_type(return_type: CellularReturnType) -> (r: FnlCellularReturnType)
    ensures
        r == map_cellular_return_type_spec(return_type),
{
    match return_type {
        CellularReturnType::CellValue => FnlCellularReturnType::CellValue,
        CellularReturnType::Distance => FnlCellularReturnType::Distance,
        CellularReturnType::Distance2 => FnlCellularReturnType::Distance2,
        CellularReturnType::Distance2Add => FnlCellularReturnType::Distance2Add,
        CellularReturnType::Distance2Sub => FnlCellularReturnType::Distance2Sub,
        CellularReturnType::Distance2Mul => FnlCellularReturnType::Distance2Mul,
        CellularReturnType::Distance2Div => FnlCellularReturnType::Distance2Div,
    }
}

/// Two's-complement multiplication of 32-bit values.
pub open spec fn wmul(a: i32, b: i32) -> i32 {
    vstd::wrapping::i32_specs::wrapping_mul(a, b)
}

/// The final mixing step of the coordinate hash: `n * n * n * 60493` with
/// wrapping.
pub open spec fn mix_spec(n: i32) -> i32 {
    wmul(wmul(wmul(n, n), n), 60493)
}

/// The 2D coordinate hash: the seed xored with each coordinate times its
/// prime, then mixed.
pub open spec fn val_coord_2d_spec(seed: i32, x: i32, y: i32) -> i32 {
    mix_spec(seed ^ wmul(X_PRIME, x) ^ wmul(Y_PRIME, y))
}

/// The 3D coordinate hash.
pub open spec fn val_coord_3d_spec(seed: i32, x: i32, y: i32, z: i32) -> i32 {
    mix_spec(seed ^ wmul(X_PRIME, x) ^ wmul(Y_PRIME, y) ^ wmul(Z_PRIME, z))
}

/// The 4D coordinate hash.
pub open spec fn val_coord_4d_spec(seed: i32, x: i32, y: i32, z: i32, w: i32) -> i32 {
    mix_spec(seed ^ wmul(X_PRIME, x) ^ wmul(Y_PRIME, y) ^ wmul(Z_PRIME, z) ^ wmul(W_PRIME, w))
}

fn mix(n: i32) -> (r: i32)
    ensures
        r == mix_spec(n),
{
    n.wrapping_mul(n).wrapping_mul(n).wrapping_mul(60493)
}

/// The integer hash of a 2D coordinate; the noise value is this hash
/// divided by 2^31.
pub fn val_coord_2d_hash(seed: i32, x: i32, y: i32) -> (r: i32)
    ensures
        r == val_coord_2d_spec(seed, x, y),
{
    let n = seed ^ X_PRIME.wrapping_mul(x) ^ Y_PRIME.wrapping_mul(y);
    mix(n)
}

/// The integer hash of a 3D coordinate.
pub fn val_coord_3d_hash(seed: i32, x: i32, y: i32, z: i32) -> (r: i32)
    ensures
        r == val_coord_3d_spec(seed, x, y, z),
{
    let n = seed ^ X_PRIME.wrapping_mul(x) ^ Y_PRIME.wrapping_mul(y) ^ Z_PRIME.wrapping_mul(z);
    mix(n)
}

/// The integer hash of a 4D coordinate.
pub fn val_coord_4d_hash(seed: i32, x: i32, y: i32, z: i32, w: i32) -> (r: i32)
    ensures
        r == val_coord_4d_spec(seed, x, y, z, w),
{
    let n = seed ^ X_PRIME.wrapping_mul(x) ^ Y_PRIME.wrapping_mul(y) ^ Z_PRIME.wrapping_mul(z)
        ^ W_PRIME.wrapping_mul(w);
    mix(n)
}

/// The seed of the index hashes: the FastNoise Lite seed plus the offset,
/// wrapping.
pub fn offset_seed(seed: u64, offset: u8) -> (r: i32)
    ensures
        r == vstd::wrapping::i32_specs::wrapping_add(seed as i32, offset as i32),
{
    to_fnl_seed(seed).wrapping_add(offset as i32)
}

/// Bits of a float coordinate folded for the white-noise hash:
/// `c ^ (c >> 16)`.
pub fn fold_bits(c: i32) -> (r: i32)
    ensures
        r == c ^ (c >> 16u32),
{
    c ^ (c >> 16u32)
}

/// The ordered pair of cellular distance indices: the smaller and the larger
/// of the two, each clamped to `0..=FN_CELLULAR_INDEX_MAX`.
pub open spec fn clamp_index(i: i32) -> i32 {
    if i < 0 {
        0
    } else if i > FN_CELLULAR_INDEX_MAX {
        FN_CELLULAR_INDEX_MAX
    } else {
        i
    }
}

/// The families of noise algorithm: value, cubic value, Perlin gradient,
/// simplex gradient and cellular noise.
#[derive(Debug, PartialEq, Eq, Copy, Clone, Structural)]
pub enum NoiseFamily {
    Value,
    Cubic,
    Perlin,
    Simplex,
    Cellular,
}

/// The family a noise type belongs to, fractal or not; white noise is a
/// hash of the coordinates and belongs to none.
pub open spec fn noise_family(t: NoiseType) -> Option<NoiseFamily> {
    match t {
        NoiseType::Value | NoiseType::ValueFractal => Some(NoiseFamily::Value),
        NoiseType::Cubic | NoiseType::CubicFractal => Some(NoiseFamily::Cubic),
        NoiseType::Perlin | NoiseType::PerlinFractal => Some(NoiseFamily::Perlin),
        NoiseType::Simplex | NoiseType::SimplexFractal => Some(NoiseFamily::Simplex),
        NoiseType::Cellular => Some(NoiseFamily::Cellular),
        NoiseType::WhiteNoise => None,
    }
}

/// The family of a FastNoise Lite algorithm.
pub open spec fn fnl_family(t: FnlNoiseType) -> NoiseFamily {
    match t {
        FnlNoiseType::Value => NoiseFamily::Value,
        FnlNoiseType::ValueCubic => NoiseFamily::Cubic,
        FnlNoiseType::Perlin => NoiseFamily::Perlin,
        FnlNoiseType::OpenSimplex2 | FnlNoiseType::OpenSimplex2S => NoiseFamily::Simplex,
        FnlNoiseType::Cellular => NoiseFamily::Cellular,
    }
}

/// Each noise type is generated by a FastNoise Lite algorithm of its own
/// family (cellular noise by the cellular algorithm, Perlin noise by
/// Perlin, and so on), and two noise types share an algorithm exactly when
/// they are of the same family, the fractal and plain variants of one.
pub proof fn lemma_noise_family_kept(t: NoiseType, u: NoiseType)
    ensures
        noise_family(t) matches Some(f) ==> fnl_family(map_noise_type_spec(t)) == f,
        noise_family(t) is Some && noise_family(u) is Some ==> (map_noise_type_spec(t) == map_noise_type_spec(u)
            <==> noise_family(t) == noise_family(u)),
{
}

/// Whatever two indices are given, the stored pair is ordered and both
/// lie in `0..=FN_CELLULAR_INDEX_MAX`.
pub proof fn lemma_distance_indices_ordered(i1: i32, i2: i32)
    ensures
        0 <= clamp_index(if i1 <= i2 { i1 } else { i2 }) <= clamp_index(if i1 >= i2 { i1 } else { i2 })
            <= FN_CELLULAR_INDEX_MAX,
{
}

/// The settings of a noise generator that are not floating point.
pub struct NoiseModel {
    pub seed: u64,
    pub interp: Interp,
    pub noise_type: NoiseType,
    pub octaves: i32,
    pub fractal_type: FractalType,
    pub cellular_distance_function: CellularDistanceFunction,
    pub cellular_return_type: CellularReturnType,
    pub cellular_distance_index: (i32, i32),
}

/// The settings of a FastNoise Lite generator that are not floating point;
/// also what this library hands to FastNoise Lite when it synchronises.
#[derive(Debug, PartialEq, Eq, Copy, Clone, Structural)]
pub struct FnlSettings {
    pub seed: i32,
    pub noise_type: FnlNoiseType,
    pub fractal_type: FnlFractalType,
    pub octaves: i32,
    pub cellular_distance_function: FnlCellularDistanceFunction,
    pub cellular_return_type: FnlCellularReturnType,
}

/// The settings handed to FastNoise Lite for a model: the low 32 bits of
/// the seed, the mapped noise type, the mapped fractal type for fractal
/// noise and no fractal otherwise, at least one octave, and the mapped
/// cellular settings.
pub open spec fn fnl_settings_spec(m: NoiseModel) -> FnlSettings {
    FnlSettings {
        seed: m.seed as i32,
        noise_type: map_noise_type_spec(m.noise_type),
        fractal_type: if is_fractal_spec(m.noise_type) {
            map_fractal_type_spec(m.fractal_type)
        } else {
            FnlFractalType::Disabled
        },
        octaves: if m.octaves < 1 { 1 } else { m.octaves },
        cellular_distance_function: map_cellular_distance_function_spec(m.cellular_distance_function),
        cellular_return_type: map_cellular_return_type_spec(m.cellular_return_type),
    }
}

/// FastNoise Lite's generator, held as an opaque value.
#[verifier::external_type_specification]
#[verifier::external_body]
pub struct ExFastNoiseLite(FastNoiseLite);

/// The seed, noise type, fractal type, octave count, cellular distance
/// function and cellular return type that a FastNoise Lite generator holds:
/// its public fields `seed`, `noise_type`, `fractal_type`, `octaves`,
/// `cellular_distance_function` and `cellular_return_type`.
pub uninterp spec fn fnl_config(n: FastNoiseLite) -> FnlSettings;

/// Calls `FastNoiseLite::with_seed`, which takes FastNoise Lite's defaults
/// (OpenSimplex2 noise, no fractal, 3 octaves, squared-Euclidean distance,
/// distance return type) and stores the given seed. The floating-point
/// settings are not stated.
#[verifier::external_body]
fn fnl_with_seed(seed: i32) -> (n: FastNoiseLite)
    ensures
        fnl_config(n) == (FnlSettings {
            seed,
            noise_type: FnlNoiseType::OpenSimplex2,
            fractal_type: FnlFractalType::Disabled,
            octaves: 3,
            cellular_distance_function: FnlCellularDistanceFunction::EuclideanSq,
            cellular_return_type: FnlCellularReturnType::Distance,
        }),
{
    FastNoiseLite::with_seed(seed)
}

/// Calls `FastNoiseLite::set_seed` with `Some(seed)`, which stores the seed
/// and touches no other field.
#[verifier::external_body]
fn fnl_set_seed(inner: &mut FastNoiseLite, seed: i32)
    ensures
        fnl_config(*final(inner)) == (FnlSettings { seed, ..fnl_config(*old(inner)) }),
{
    inner.set_seed(Some(seed))
}

/// Calls `FastNoiseLite::set_noise_type` with the matching FastNoise Lite
/// variant, which stores the noise type; besides it only the private 3D
/// transform changes.
#[verifier::external_body]
fn fnl_set_noise_type(inner: &mut FastNoiseLite, t: FnlNoiseType)
    ensures
        fnl_config(*final(inner)) == (FnlSettings { noise_type: t, ..fnl_config(*old(inner)) }),
{
    inner.set_noise_type(
        Some(
            match t {
                FnlNoiseType::OpenSimplex2 => fastnoise_lite::NoiseType::OpenSimplex2,
                FnlNoiseType::OpenSimplex2S => fastnoise_lite::NoiseType::OpenSimplex2S,
                FnlNoiseType::Cellular => fastnoise_lite::NoiseType::Cellular,
                FnlNoiseType::Perlin => fastnoise_lite::NoiseType::Perlin,
                FnlNoiseType::ValueCubic => fastnoise_lite::NoiseType::ValueCubic,
                FnlNoiseType::Value => fastnoise_lite::NoiseType::Value,
            },
        ),
    )
}

/// Calls `FastNoiseLite::set_fractal_type` with the matching FastNoise Lite
/// variant (`Disabled` is FastNoise Lite's `None`), which stores it and
/// touches no other field.
#[verifier::external_body]
fn fnl_set_fractal_type(inner: &mut FastNoiseLite, t: FnlFractalType)
    ensures
        fnl_config(*final(inner)) == (FnlSettings { fractal_type: t, ..fnl_config(*old(inner)) }),
{
    inner.set_fractal_type(
        Some(
            match t {
                FnlFractalType::Disabled => fastnoise_lite::FractalType::None,
                FnlFractalType::FBm => fastnoise_lite::FractalType::FBm,
                FnlFractalType::Ridged => fastnoise_lite::FractalType::Ridged,
                FnlFractalType::PingPong => fastnoise_lite::FractalType::PingPong,
                FnlFractalType::DomainWarpProgressive => fastnoise_lite::FractalType::DomainWarpProgressive,
                FnlFractalType::DomainWarpIndependent => fastnoise_lite::FractalType::DomainWarpIndependent,
            },
        ),
    )
}

/// Calls `FastNoiseLite::set_fractal_octaves` with `Some(octaves)`, which
/// stores the count; besides it only the private fractal bounding changes.
#[verifier::external_body]
fn fnl_set_fractal_octaves(inner: &mut FastNoiseLite, octaves: i32)
    ensures
        fnl_config(*final(inner)) == (FnlSettings { octaves, ..fnl_config(*old(inner)) }),
{
    inner.set_fractal_octaves(Some(octaves))
}

/// Calls `FastNoiseLite::set_cellular_distance_function` with the matching
/// FastNoise Lite variant, which stores it and touches no other field.
#[verifier::external_body]
fn fnl_set_cellular_distance_function(inner: &mut FastNoiseLite, f: FnlCellularDistanceFunction)
    ensures
        fnl_config(*final(inner)) == (FnlSettings {
            cellular_distance_function: f,
            ..fnl_config(*old(inner))
        }),
{
    inner.set_cellular_distance_function(
        Some(
            match f {
                FnlCellularDistanceFunction::Euclidean => fastnoise_lite::CellularDistanceFunction::Euclidean,
                FnlCellularDistanceFunction::EuclideanSq => fastnoise_lite::CellularDistanceFunction::EuclideanSq,
                FnlCellularDistanceFunction::Manhattan => fastnoise_lite::CellularDistanceFunction::Manhattan,
                FnlCellularDistanceFunction::Hybrid => fastnoise_lite::CellularDistanceFunction::Hybrid,
            },
        ),
    )
}

/// Calls `FastNoiseLite::set_cellular_return_type` with the matching
/// FastNoise Lite variant, which stores it and touches no other field.
#[verifier::external_body]
fn fnl_set_cellular_return_type(inner: &mut FastNoiseLite, t: FnlCellularReturnType)
    ensures
        fnl_config(*final(inner)) == (FnlSettings { cellular_return_type: t, ..fnl_config(*old(inner)) }),
{
    inner.set_cellular_return_type(
        Some(
            match t {
                FnlCellularReturnType::CellValue => fastnoise_lite::CellularReturnType::CellValue,
                FnlCellularReturnType::Distance => fastnoise_lite::CellularReturnType::Distance,
                FnlCellularReturnType::Distance2 => fastnoise_lite::CellularReturnType::Distance2,
                FnlCellularReturnType::Distance2Add => fastnoise_lite::CellularReturnType::Distance2Add,
                FnlCellularReturnType::Distance2Sub => fastnoise_lite::CellularReturnType::Distance2Sub,
                FnlCellularReturnType::Distance2Mul => fastnoise_lite::CellularReturnType::Distance2Mul,
                FnlCellularReturnType::Distance2Div => fastnoise_lite::CellularReturnType::Distance2Div,
            },
        ),
    )
}

/// The settings a freshly seeded generator starts with: simplex noise,
/// quintic interpolation, three FBM octaves, Euclidean cell-value cellular
/// noise and distance indices `(0, 1)`.
pub open spec fn seeded_model(seed: u64) -> NoiseModel {
    NoiseModel {
        seed,
        interp: Interp::Quintic,
        noise_type: NoiseType::Simplex,
        octaves: 3,
        fractal_type: FractalType::FBM,
        cellular_distance_function: CellularDistanceFunction::Euclidean,
        cellular_return_type: CellularReturnType::CellValue,
        cellular_distance_index: (0, 1),
    }
}

/// A noise generator: its integer and enumerated settings, and the
/// FastNoise Lite generator they are kept in step with. Settings that are
/// floating point are kept by the caller, who hands them in on a generator
/// of its own (see [`FastNoise::replace_generator`]).
pub struct FastNoise {
    inner: FastNoiseLite,
    seed: u64,
    interp: Interp,
    noise_type: NoiseType,
    octaves: i32,
    fractal_type: FractalType,
    cellular_distance_function: CellularDistanceFunction,
    cellular_return_type: CellularReturnType,
    cellular_distance_index: (i32, i32),
}

impl View for FastNoise {
    type V = NoiseModel;

    closed spec fn view(&self) -> NoiseModel {
        NoiseModel {
            seed: self.seed,
            interp: self.interp,
            noise_type: self.noise_type,
            octaves: self.octaves,
            fractal_type: self.fractal_type,
            cellular_distance_function: self.cellular_distance_function,
            cellular_return_type: self.cellular_return_type,
            cellular_distance_index: self.cellular_distance_index,
        }
    }
}

/// The settings handed to FastNoise Lite for a model (see
/// [`fnl_settings_spec`]).
fn settings_for(m: &NoiseModel) -> (s: FnlSettings)
    ensures
        s == fnl_settings_spec(*m),
{
    let fractal_type = if is_fractal_noise_type(m.noise_type) {
        map_fractal_type(m.fractal_type)
    } else {
        FnlFractalType::Disabled
    };
    FnlSettings {
        seed: to_fnl_seed(m.seed),
        noise_type: map_noise_type(m.noise_type),
        fractal_type,
        octaves: if m.octaves < 1 { 1 } else { m.octaves },
        cellular_distance_function: map_cellular_distance_function(m.cellular_distance_function),
        cellular_return_type: map_cellular_return_type(m.cellular_return_type),
    }
}

/// Hands the settings to a FastNoise Lite generator, which then holds them;
/// its floating-point settings are left as they were.
fn synced(g: FastNoiseLite, s: FnlSettings) -> (r: FastNoiseLite)
    ensures
        fnl_config(r) == s,
{
    let mut g = g;
    fnl_set_seed(&mut g, s.seed);
    fnl_set_noise_type(&mut g, s.noise_type);
    fnl_set_fractal_type(&mut g, s.fractal_type);
    fnl_set_fractal_octaves(&mut g, s.octaves);
    fnl_set_cellular_distance_function(&mut g, s.cellular_distance_function);
    fnl_set_cellular_return_type(&mut g, s.cellular_return_type);
    g
}

impl FastNoise {
    /// The generator always holds the settings of the model.
    #[verifier::type_invariant]
    closed spec fn in_step(self) -> bool {
        fnl_config(self.inner) == fnl_settings_spec(self@)
    }

    /// The non-floating-point settings that the FastNoise Lite generator
    /// inside holds.
    pub closed spec fn generator_config(&self) -> FnlSettings {
        fnl_config(self.inner)
    }

    /// Builds a noise generator for a model, on the FastNoise Lite generator
    /// `g`, which is brought in step with it.
    fn with_model(g: FastNoiseLite, m: NoiseModel) -> (n: FastNoise)
        ensures
            n@ == m,
            n.generator_config() == fnl_settings_spec(m),
    {
        let s = settings_for(&m);
        FastNoise {
            inner: synced(g, s),
            seed: m.seed,
            interp: m.interp,
            noise_type: m.noise_type,
            octaves: m.octaves,
            fractal_type: m.fractal_type,
            cellular_distance_function: m.cellular_distance_function,
            cellular_return_type: m.cellular_return_type,
            cellular_distance_index: m.cellular_distance_index,
        }
    }

    /// The model: the settings that are not floating point.
    fn model(&self) -> (m: NoiseModel)
        ensures
            m == self@,
    {
        NoiseModel {
            seed: self.seed,
            interp: self.interp,
            noise_type: self.noise_type,
            octaves: self.octaves,
            fractal_type: self.fractal_type,
            cellular_distance_function: self.cellular_distance_function,
            cellular_return_type: self.cellular_return_type,
            cellular_distance_index: self.cellular_distance_index,
        }
    }

    /// Moves to the model `m`, keeping the generator (and so its
    /// floating-point settings) and handing it the new settings.
    fn reconfigure(&mut self, m: NoiseModel)
        ensures
            final(self)@ == m,
            final(self).generator_config() == fnl_settings_spec(m),
    {
        let mut g = synced(fnl_with_seed(0), settings_for(&self.model()));
        std::mem::swap(&mut self.inner, &mut g);
        *self = Self::with_model(g, m);
    }

    /// Creates a new noise instance with simplex defaults and seed 1337.
    pub fn new() -> (n: FastNoise)
        ensures
            n@ == seeded_model(1337),
            n.generator_config() == fnl_settings_spec(n@),
    {
        Self::seeded(1337)
    }

    /// Creates a new noise instance with simplex defaults and the given seed;
    /// its generator holds the matching FastNoise Lite settings.
    pub fn seeded(seed: u64) -> (n: FastNoise)
        ensures
            n@ == seeded_model(seed),
            n.generator_config() == fnl_settings_spec(n@),
    {
        let m = NoiseModel {
            seed,
            interp: Interp::Quintic,
            noise_type: NoiseType::Simplex,
            octaves: 3,
            fractal_type: FractalType::FBM,
            cellular_distance_function: CellularDistanceFunction::Euclidean,
            cellular_return_type: CellularReturnType::CellValue,
            cellular_distance_index: (0, 1),
        };
        Self::with_model(fnl_with_seed(to_fnl_seed(seed)), m)
    }

    /// The FastNoise Lite generator, which holds the settings of the model.
    pub fn generator(&self) -> (g: &FastNoiseLite)
        ensures
            fnl_config(*g) == fnl_settings_spec(self@),
    {
        proof {
            use_type_invariant(self);
        }
        &self.inner
    }

    /// Takes `g` as the generator, so that its floating-point settings are
    /// the ones used, and hands it the settings of the model.
    pub fn replace_generator(&mut self, g: FastNoiseLite)
        ensures
            final(self)@ == old(self)@,
            final(self).generator_config() == fnl_settings_spec(old(self)@),
    {
        self.inner = synced(g, self.fnl_settings());
    }

    /// The settings handed to FastNoise Lite.
    pub fn fnl_settings(&self) -> (s: FnlSettings)
        ensures
            s == fnl_settings_spec(self@),
    {
        settings_for(&self.model())
    }

    /// Hands the integer and enumerated settings to FastNoise Lite (see
    /// [`FastNoise::fnl_settings`]): afterwards the generator holds them. The
    /// settings themselves do not change.
    pub fn sync_inner_settings(&mut self)
        ensures
            final(self)@ == old(self)@,
            final(self).generator_config() == fnl_settings_spec(old(self)@),
    {
        let m = self.model();
        self.reconfigure(m);
    }

    /// Re-seeds the noise system with a new seed.
    pub fn set_seed(&mut self, seed: u64)
        ensures
            final(self)@ == (NoiseModel { seed, ..old(self)@ }),
            final(self).generator_config() == fnl_settings_spec(final(self)@),
    {
        let m = NoiseModel { seed, ..self.model() };
        self.reconfigure(m);
    }

    /// The seed.
    pub fn get_seed(&self) -> (s: u64)
        ensures
            s == self@.seed,
    {
        self.seed
    }

    /// Sets the interpolation function; FastNoise Lite does not use it.
    pub fn set_interp(&mut self, interp: Interp)
        ensures
            final(self)@ == (NoiseModel { interp, ..old(self)@ }),
    {
        proof {
            use_type_invariant(&*self);
        }
        self.interp = interp;
    }

    /// The interpolation function.
    pub fn get_interp(&self) -> (i: Interp)
        ensures
            i == self@.interp,
    {
        self.interp
    }

    /// Sets the type of noise to generate.
    pub fn set_noise_type(&mut self, nt: NoiseType)
        ensures
            final(self)@ == (NoiseModel { noise_type: nt, ..old(self)@ }),
            final(self).generator_config() == fnl_settings_spec(final(self)@),
    {
        let m = NoiseModel { noise_type: nt, ..self.model() };
        self.reconfigure(m);
    }

    /// The type of noise to generate.
    pub fn get_noise_type(&self) -> (t: NoiseType)
        ensures
            t == self@.noise_type,
    {
        self.noise_type
    }

    /// Sets the number of fractal octaves, as given (FastNoise Lite is
    /// handed at least one).
    pub fn set_fractal_octaves(&mut self, octaves: i32)
        ensures
            final(self)@ == (NoiseModel { octaves, ..old(self)@ }),
            final(self).generator_config() == fnl_settings_spec(final(self)@),
    {
        let m = NoiseModel { octaves, ..self.model() };
        self.reconfigure(m);
    }

    /// The number of fractal octaves, as last set.
    pub fn get_fractal_octaves(&self) -> (o: i32)
        ensures
            o == self@.octaves,
    {
        self.octaves
    }

    /// Sets the fractal type.
    pub fn set_fractal_type(&mut self, fractal_type: FractalType)
        ensures
            final(self)@ == (NoiseModel { fractal_type, ..old(self)@ }),
            final(self).generator_config() == fnl_settings_spec(final(self)@),
    {
        let m = NoiseModel { fractal_type, ..self.model() };
        self.reconfigure(m);
    }

    /// The fractal type.
    pub fn get_fractal_type(&self) -> (t: FractalType)
        ensures
            t == self@.fractal_type,
    {
        self.fractal_type
    }

    /// Sets the cellular distance function.
    pub fn set_cellular_distance_function(&mut self, cellular_distance_function: CellularDistanceFunction)
        ensures
            final(self)@ == (NoiseModel { cellular_distance_function, ..old(self)@ }),
            final(self).generator_config() == fnl_settings_spec(final(self)@),
    {
        let m = NoiseModel { cellular_distance_function, ..self.model() };
        self.reconfigure(m);
    }

    /// The cellular distance function.
    pub fn get_cellular_distance_function(&self) -> (f: CellularDistanceFunction)
        ensures
            f == self@.cellular_distance_function,
    {
        self.cellular_distance_function
    }

    /// Sets the cellular return type.
    pub fn set_cellular_return_type(&mut self, cellular_return_type: CellularReturnType)
        ensures
            final(self)@ == (NoiseModel { cellular_return_type, ..old(self)@ }),
            final(self).generator_config() == fnl_settings_spec(final(self)@),
    {
        let m = NoiseModel { cellular_return_type, ..self.model() };
        self.reconfigure(m);
    }

    /// The cellular return type.
    pub fn get_cellular_return_type(&self) -> (t: CellularReturnType)
        ensures
            t == self@.cellular_return_type,
    {
        self.cellular_return_type
    }

    /// The cellular distance indices.
    pub fn get_cellular_distance_indices(&self) -> (p: (i32, i32))
        ensures
            p == self@.cellular_distance_index,
    {
        self.cellular_distance_index
    }

    /// Sets the cellular distance indices: the smaller and then the larger of
    /// the two, each clamped to `0..=FN_CELLULAR_INDEX_MAX`.
    pub fn set_cellular_distance_indices(&mut self, i1: i32, i2: i32)
        ensures
            final(self)@ == (NoiseModel {
                cellular_distance_index: (
                    clamp_index(if i1 <= i2 { i1 } else { i2 }),
                    clamp_index(if i1 >= i2 { i1 } else { i2 }),
                ),
                ..old(self)@
            }),
    {
        proof {
            use_type_invariant(&*self);
        }
        let lo = if i1 <= i2 { i1 } else { i2 };
        let hi = if i1 >= i2 { i1 } else { i2 };
        let min = if lo < 0 { 0 } else if lo > FN_CELLULAR_INDEX_MAX { FN_CELLULAR_INDEX_MAX } else { lo };
        let max = if hi < 0 { 0 } else if hi > FN_CELLULAR_INDEX_MAX { FN_CELLULAR_INDEX_MAX } else { hi };
        self.cellular_distance_index = (min, max);
    }

    /// Whether noise queries are answered by the white-noise hash rather than
    /// by FastNoise Lite.
    pub fn uses_white_noise(&self) -> (b: bool)
        ensures
            b == (self@.noise_type == NoiseType::WhiteNoise),
    {
        match self.noise_type {
            NoiseType::WhiteNoise => true,
            _ => false,
        }
    }
}

} // verus!
