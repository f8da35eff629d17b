pub mod bstr_stack;
pub mod arcstr_stack;
pub mod ecow_owned;
pub mod hipstr_stack;
