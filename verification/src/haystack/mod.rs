pub mod bytes;
pub mod ext;
pub mod interface;
pub mod item;
pub mod simple;
pub mod string;
pub mod utf8;

pub use bytes::{ByteIter, ByteStack};
pub use interface::{HaystackIter, HaystackOf, HaystackSlice, IntoHaystack, MutIntoHaystack, OwnedHaystackable};
pub use item::{first_char, first_char_and_width, get_first_char, get_item, HaystackItem};
pub use simple::{haystack_of_bytes, haystack_of_str, Haystack};
pub use string::{StrIter, StrStack};
pub use ext::arcstr_stack::ArcStrStack;
pub use ext::bstr_stack::BStrStack;
pub use ext::hipstr_stack::{HipBytStack, HipBytes, HipStrStack, HipText};
