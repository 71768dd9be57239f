//! Values of a string-centric scripting language: every value is a string
//! that may also carry a cached typed form (an integer, a list, or a value of
//! a host-defined type).

pub mod chars;
pub mod decimal;
pub mod external;
pub mod list_text;
pub mod value;
pub mod rgb;
pub mod judgment;
pub mod flavor;
pub mod pair;
pub mod laws;
