//! Client-side protocol engine for a verifiable binomial-noise
//! differential-privacy mechanism.
//!
//! A participant holds a private bit vector and publishes a noised count
//! together with Pedersen commitments and proof material that let a verifier
//! check, through a single group-element equality, that the noise that was
//! committed is the noise that was aggregated.

pub mod numeric;
pub mod group;
pub mod algebra;
pub mod sigma;
pub mod pedersen;
pub mod runner;
pub mod messages;
