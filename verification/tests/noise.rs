use bracket::noise::fastnoise::{
    fold_bits, is_fractal_noise_type, map_cellular_distance_function, map_cellular_return_type,
    map_fractal_type, map_noise_type, offset_seed, to_fnl_seed, val_coord_2d_hash, val_coord_3d_hash,
    val_coord_4d_hash, CellularDistanceFunction, CellularReturnType, FastNoise, FnlCellularDistanceFunction,
    FnlCellularReturnType, FnlFractalType, FnlNoiseType, FractalType, Interp, NoiseType,
};

fn reference_hash(seed: i32, coords: &[(i32, i32)]) -> i32 {
    let mut n = seed;
    for (prime, c) in coords {
        n ^= prime.wrapping_mul(*c);
    }
    n.wrapping_mul(n).wrapping_mul(n).wrapping_mul(60493)
}

#[test]
fn new_noise_has_simplex_defaults() {
    let noise = FastNoise::new();
    assert_eq!(noise.get_seed(), 1337);
    assert_eq!(noise.get_noise_type(), NoiseType::Simplex);
    assert_eq!(noise.get_interp(), Interp::Quintic);
    assert_eq!(noise.get_fractal_octaves(), 3);
    assert_eq!(noise.get_fractal_type(), FractalType::FBM);
    assert_eq!(noise.get_cellular_distance_function(), CellularDistanceFunction::Euclidean);
    assert_eq!(noise.get_cellular_return_type(), CellularReturnType::CellValue);
    assert_eq!(noise.get_cellular_distance_indices(), (0, 1));
    assert!(!noise.uses_white_noise());
}

#[test]
fn setters_round_trip() {
    let mut noise = FastNoise::seeded(42);
    assert_eq!(noise.get_seed(), 42);
    noise.set_seed(7);
    noise.set_noise_type(NoiseType::PerlinFractal);
    noise.set_interp(Interp::Linear);
    noise.set_fractal_octaves(0);
    noise.set_fractal_type(FractalType::Billow);
    noise.set_cellular_distance_function(CellularDistanceFunction::Manhattan);
    noise.set_cellular_return_type(CellularReturnType::Distance2Div);
    assert_eq!(noise.get_seed(), 7);
    assert_eq!(noise.get_noise_type(), NoiseType::PerlinFractal);
    assert_eq!(noise.get_interp(), Interp::Linear);
    assert_eq!(noise.get_fractal_octaves(), 0);
    assert_eq!(noise.get_fractal_type(), FractalType::Billow);
    assert_eq!(noise.get_cellular_distance_function(), CellularDistanceFunction::Manhattan);
    assert_eq!(noise.get_cellular_return_type(), CellularReturnType::Distance2Div);
}

#[test]
fn settings_handed_to_fastnoise_lite() {
    let mut noise = FastNoise::seeded(0x1_0000_0005);
    noise.set_noise_type(NoiseType::PerlinFractal);
    noise.set_fractal_octaves(-4);
    noise.set_fractal_type(FractalType::RigidMulti);
    noise.set_cellular_distance_function(CellularDistanceFunction::Natural);
    let s = noise.fnl_settings();
    assert_eq!(s.seed, 5);
    assert_eq!(s.noise_type, FnlNoiseType::Perlin);
    assert_eq!(s.fractal_type, FnlFractalType::Ridged);
    assert_eq!(s.octaves, 1);
    assert_eq!(s.cellular_distance_function, FnlCellularDistanceFunction::Hybrid);
    assert_eq!(s.cellular_return_type, FnlCellularReturnType::CellValue);
    noise.set_noise_type(NoiseType::Perlin);
    assert_eq!(noise.fnl_settings().fractal_type, FnlFractalType::Disabled);
}

#[test]
fn generator_holds_the_synchronised_settings() {
    let mut noise = FastNoise::seeded(0x1_0000_0005);
    assert_eq!(noise.generator().seed, 5);
    assert_eq!(noise.generator().noise_type, fastnoise_lite::NoiseType::OpenSimplex2);
    assert_eq!(noise.generator().fractal_type, fastnoise_lite::FractalType::None);
    noise.set_noise_type(NoiseType::PerlinFractal);
    noise.set_fractal_octaves(-4);
    noise.set_fractal_type(FractalType::RigidMulti);
    noise.set_cellular_distance_function(CellularDistanceFunction::Natural);
    noise.set_cellular_return_type(CellularReturnType::Distance2Sub);
    let mut own = fastnoise_lite::FastNoiseLite::new();
    own.seed = 99;
    own.octaves = 7;
    own.frequency = 0.25;
    noise.replace_generator(own);
    noise.sync_inner_settings();
    assert_eq!(noise.generator().seed, 5);
    assert_eq!(noise.generator().noise_type, fastnoise_lite::NoiseType::Perlin);
    assert_eq!(noise.generator().fractal_type, fastnoise_lite::FractalType::Ridged);
    assert_eq!(noise.generator().octaves, 1);
    assert_eq!(noise.generator().cellular_distance_function, fastnoise_lite::CellularDistanceFunction::Hybrid);
    assert_eq!(noise.generator().cellular_return_type, fastnoise_lite::CellularReturnType::Distance2Sub);
    noise.set_seed(7);
    assert_eq!(noise.generator().seed, 7);
    assert_eq!(noise.generator().frequency, 0.25);
}

#[test]
fn white_noise_is_answered_by_the_hash() {
    let mut noise = FastNoise::new();
    noise.set_noise_type(NoiseType::WhiteNoise);
    assert!(noise.uses_white_noise());
    assert_eq!(noise.fnl_settings().noise_type, FnlNoiseType::Value);
}

#[test]
fn distance_indices_are_ordered_and_clamped() {
    let mut noise = FastNoise::new();
    noise.set_cellular_distance_indices(5, -2);
    assert_eq!(noise.get_cellular_distance_indices(), (0, 3));
    noise.set_cellular_distance_indices(2, 1);
    assert_eq!(noise.get_cellular_distance_indices(), (1, 2));
}

#[test]
fn noise_type_mappings() {
    assert!(is_fractal_noise_type(NoiseType::ValueFractal));
    assert!(is_fractal_noise_type(NoiseType::CubicFractal));
    assert!(!is_fractal_noise_type(NoiseType::Cellular));
    assert_eq!(map_noise_type(NoiseType::Simplex), FnlNoiseType::OpenSimplex2);
    assert_eq!(map_noise_type(NoiseType::Cubic), FnlNoiseType::ValueCubic);
    assert_eq!(map_fractal_type(FractalType::Billow), FnlFractalType::PingPong);
    assert_eq!(map_fractal_type(FractalType::FBM), FnlFractalType::FBm);
    assert_eq!(map_cellular_distance_function(CellularDistanceFunction::Euclidean), FnlCellularDistanceFunction::EuclideanSq);
    assert_eq!(map_cellular_return_type(CellularReturnType::Distance2Sub), FnlCellularReturnType::Distance2Sub);
}

#[test]
fn seeds_and_hashes() {
    assert_eq!(to_fnl_seed(0xffff_ffff_0000_0001), 1);
    assert_eq!(to_fnl_seed(0xffff_ffff), -1);
    assert_eq!(offset_seed(i32::MAX as u64, 1), i32::MIN);
    assert_eq!(fold_bits(0x1234_5678), 0x1234_5678 ^ 0x1234);
    assert_eq!(fold_bits(-1), 0);
    assert_eq!(val_coord_2d_hash(1337, 3, -4), reference_hash(1337, &[(1619, 3), (31337, -4)]));
    assert_eq!(
        val_coord_3d_hash(-9, 100, 200, 300),
        reference_hash(-9, &[(1619, 100), (31337, 200), (6971, 300)])
    );
    assert_eq!(
        val_coord_4d_hash(5, i32::MAX, i32::MIN, 7, -7),
        reference_hash(5, &[(1619, i32::MAX), (31337, i32::MIN), (6971, 7), (1013, -7)])
    );
    assert_eq!(val_coord_2d_hash(0, 0, 0), 0);
}
