//! Extraction of a markdown document's outline: its level-one and level-two
//! headings, with their titles cleaned of markup, in document order.
use vstd::prelude::*;

pub mod outline;
pub mod parse;
pub mod render;
pub mod title;

pub use outline::{Heading, Outline};
pub use parse::{parse_line, parse_lines};
pub use title::clean_title;

verus! {

} // verus!
