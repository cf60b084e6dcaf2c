//! Text clean-up helpers re-exported at the module root.
use vstd::prelude::*;

pub mod text;

pub use text::normalize;
