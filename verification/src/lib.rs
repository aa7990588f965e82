//! A random-number generation and statistical-sampling core: two
//! permuted-congruential engines, a composable distribution abstraction, a
//! generic uniform-sampling framework, a fixed-point Bernoulli distribution,
//! and a dynamically updatable weighted index distribution.

pub mod bernoulli;
pub mod bytes;
pub mod distribution;
pub mod other;
pub mod slice;
pub mod uniform;
pub mod utils;
pub mod weight_index;
