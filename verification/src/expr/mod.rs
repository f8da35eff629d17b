pub mod captures;
pub mod delta;

pub use captures::{CaptureFromRanges, IndexedCapture, IndexedCaptures};
pub use delta::Delta;
