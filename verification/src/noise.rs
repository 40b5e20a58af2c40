//! Noise configuration: the settings of a noise generator, how they map onto
//! FastNoise Lite, and the integer hashing behind white noise.
pub mod fastnoise;
