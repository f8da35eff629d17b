use vstd::prelude::*;

verus! {

/// A marker that keeps the crate's item and anchor traits closed to outside implementations.
pub trait Sealed {}

} // verus!
