//! A domain/range inference engine for single-variable real functions.
//!
//! Given the text of a formula and an opaque callable for it, the engine
//! estimates the set of inputs on which the function is defined and the set
//! of outputs it can produce, purely by numerical probing: adaptive
//! sampling, singularity bisection, derivative sign-change search, a
//! bounded golden-section/parabolic optimizer, limit extrapolation, and a
//! final synthesis step refined by a table of known exact facts.
//!
//! All arithmetic is fixed-point over `i128` (see [`nums`]), which keeps
//! every step exact and lets the whole pipeline be verified end to end.

pub mod cases;
pub mod deriv;
pub mod detect;
pub mod frac;
pub mod grid;
pub mod keys;
pub mod limits;
pub mod model;
pub mod nums;
pub mod optimize;
pub mod oracle;
pub mod render;
pub mod seqs;
pub mod solve;
pub mod synth;
