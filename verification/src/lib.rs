pub mod anchor;
pub mod codegen;
pub mod expr;
pub mod general;
pub mod haystack;
pub mod hir;
pub mod sealed;
