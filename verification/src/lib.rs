//! Synthesis of continuous-time stochastic sample paths with controllable
//! marginal distributions.
//!
//! The core is a mean-reverting Gaussian walk generator that can run free or
//! be bridged through a pinned future value, plus a chain of distribution
//! translators (folded-uniform, exponential, log-normal) built on top of it.
//! All state and arithmetic is exact fixed-point; the standard-normal draws
//! that drive the walk are supplied by the caller as plain values.

pub mod fixed;
pub mod normal;
pub mod transcend;
pub mod exponential;
pub mod lognormal;
pub mod uniform;

pub use exponential::ExponentialTranslator;
pub use fixed::Fixed;
pub use lognormal::LogNormalTranslator;
pub use normal::NormalGenerator;
pub use uniform::UniformTranslator;
