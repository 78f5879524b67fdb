//! A greedy, stochastic local-search image synthesizer.
//!
//! The library repeatedly proposes randomized geometric mutations
//! ("candidates") to a working canvas and keeps only mutations that reduce a
//! perceptual distance to a target image. The random stream, the candidate
//! generators, the compositor, the fitness evaluator and the search engine are
//! all verified; file encoding and terminal output live outside the library.
//!
//! Fractional quantities (opacities, color seeding, fractions of a
//! dimension) are held in fixed-point millionths throughout, so that every
//! computation is exact integer arithmetic.

pub mod benchmark;
pub mod canvas;
pub mod color;
pub mod diff;
pub mod engine;
pub mod error;
pub mod files;
pub mod geom;
pub mod paint;
pub mod painter;
pub mod pixel;
pub mod random;
pub mod rng;
pub mod units;
pub mod workgroups;
