//! Utility modules: errors, metrics, clocks and text helpers.

pub mod buf;
pub mod clock;
pub mod error;
pub mod keyed;
pub mod metrics;
pub mod sets;
pub mod text;

pub use error::{ObsFuseError, Result, ToIoError};
pub use metrics::Metrics;
