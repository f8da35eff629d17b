pub mod args;
pub mod capture;
pub mod classes;
pub mod config;
pub mod expr;
pub mod items;
pub mod metadata;
pub mod parse;
pub mod regex;
pub mod width;

pub use args::{FlagError, Flags};
pub use classes::{replace_in_class, replace_in_class_set_item, replace_perl_class, simplify_classes};
pub use config::ConfigExt;
pub use capture::{impl_capture_getters, impl_captures, impl_numeric_getters};
pub use expr::{check_convertible, expr_matcher};
pub use items::{impl_class, impl_literal};
pub use metadata::{create_class_id, create_literal_id, sort_entries, ClassEntry, ExprMetadata};
pub use parse::TypeExpressions;
pub use regex::{impl_classes, impl_literals, make_anon_regex, make_regex};
pub use width::numeric_width_exec;
