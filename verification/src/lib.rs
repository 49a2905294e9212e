//! A retained-mode UI tree with a CSS-box-model layout engine.
//!
//! Each node of the tree carries a declarative style (width, height, margin,
//! padding, border) whose lengths are either absolute values or percentages
//! of the parent's resolved size.  A layout pass walks the tree once,
//! resolves every child's geometry against its parent's resolved size, and
//! emits one paint command per node, parents before children.
//!
//! All lengths are fixed-point numbers carried in `i64`: one unit is a
//! thousandth of a pixel (see `num`).

pub mod app;
pub mod dom;
pub mod element;
pub mod error;
pub mod event;
pub mod geom;
pub mod id;
pub mod memory;
pub mod node;
pub mod num;
pub mod parse;
pub mod size;
pub mod style;
pub mod tree;

use vstd::prelude::*;

verus! {

} // verus!
