//! Workspace evaluation and layout search for a six-legged parallel motion
//! platform.
//!
//! Every real number in this crate is carried as the bit pattern of an IEEE 754
//! binary64 value (see [`scalar::Scalar`]). The crate compares such values,
//! tests them for NaN and takes their whole part; it never adds, multiplies or
//! divides them. Whoever feeds the crate (a platform model, a driver program)
//! computes distances, angles and torques with the machine's floating point
//! unit and hands over the resulting bits.

pub mod scalar;
pub mod checks;
pub mod grid;
pub mod workspace;
pub mod optimizer;

pub use workspace::{compute_workspace, Platform, WorkspaceResult};
pub use checks::WorkspaceOptions;
pub use grid::{Range, Ranges};
pub use optimizer::Optimizer;
