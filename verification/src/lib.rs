//! A structured-reference-string (SRS) manager and polynomial-commitment
//! engine for an inner-product-argument-style vector commitment scheme over
//! the Pasta curves.
//!
//! The library owns the SRS data structure (a fixed sequence of group
//! generators plus one blinding generator), a memoized per-domain-size
//! Lagrange-basis cache, commitment operations over polynomials given by
//! coefficients or by evaluations, a b-polynomial commitment routine driven
//! by verifier challenges, a byte-level persistence codec for the SRS, and a
//! batched discrete-log accumulator check/generate pair.
//!
//! Elliptic-curve and field arithmetic, FFT interpolation, hashing and the
//! wire-level byte codec are external primitives supplied by outside crates;
//! they stand behind trusted declarations whose contracts name what they
//! return. Everything that combines them is verified.

pub mod domain;
pub mod error;
pub mod fp;
pub mod fq;
pub mod handle;
pub mod seeding;
pub mod srs;
