pub mod groups;
pub mod node;
pub mod spec;
pub mod text;
pub mod util;
pub mod write_matcher;

pub use groups::{name_view, whole_match_group, Group, GroupView, Groups};
pub use node::{parse, parse_with, ClassNode, HirNode, LookKind, ParsedRegex, SyntaxConfig};
pub use util::{check_writable, short_type_name, HirExtension};
pub use write_matcher::{CastClass, WriteMatcher};
