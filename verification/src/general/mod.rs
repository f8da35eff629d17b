pub mod capture;

pub use crate::expr::captures::{IndexedCapture, IndexedCaptures};
pub use capture::{CaptureFromRanges, FromCaptures};
