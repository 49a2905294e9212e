//! Layout kinds and per-node style.

use vstd::prelude::*;

use crate::geom::Color;
use crate::size::{size_zero_spec, Quat, Size};

verus! {

/// How a node lays out its children.  Only `Block` is implemented: the
/// other kinds are declared but perform no layout.
#[derive(Debug, Clone, Copy, PartialEq, Eq, Structural)]
pub enum Layout {
    /// Flowing content; width and height cannot be set.  Not implemented.
    Inline,
    /// Flowing content with settable width and height.  Not implemented.
    InlineBlock,
    /// Vertical stacking: each child spans the parent's width minus its
    /// own edges, and children are stacked top to bottom.
    Block,
    /// Row arrangement sharing the parent's width.  Not implemented.
    RowFlex,
    /// Column arrangement sharing the parent's height.  Not implemented.
    ColFlex,
}

impl Default for Layout {
    fn default() -> (r: Self)
        ensures
            r == Layout::Block,
    {
        Layout::Block
    }
}

/// The declarative style of a node, following the CSS box model: the
/// total width of a node is `margin.left + border.left + padding.left +
/// width + padding.right + border.right + margin.right`, and its total
/// height is the same sum over the vertical sides.
#[derive(Debug, Clone, Copy)]
pub struct Style {
    /// The declared content width.
    pub width: Size,
    /// The declared content height.
    pub height: Size,
    /// The padding on each side.
    pub padding: Quat,
    /// The margin on each side.
    pub margin: Quat,
    /// The border width on each side.
    pub border: Quat,
    /// The corner radius at each corner.
    pub border_radius: Quat,
    /// The border color.
    pub border_color: Color,
    /// The background color.
    pub background_color: Color,
}

/// The default style: every length zero, both colors default.
pub open spec fn style_default_spec() -> Style {
    Style {
        width: size_zero_spec(),
        height: size_zero_spec(),
        padding: quat_zero_spec(),
        margin: quat_zero_spec(),
        border: quat_zero_spec(),
        border_radius: quat_zero_spec(),
        border_color: Color { red: 255, green: 255, blue: 255, alpha: 255 },
        background_color: Color { red: 255, green: 255, blue: 255, alpha: 255 },
    }
}

/// The four-sided value of zero on every side.
pub open spec fn quat_zero_spec() -> Quat {
    Quat {
        top: size_zero_spec(),
        right: size_zero_spec(),
        bottom: size_zero_spec(),
        left: size_zero_spec(),
    }
}

impl Style {
    /// Whether every length in the style is within bounds.
    pub open spec fn wf(self) -> bool {
        &&& self.width.wf()
        &&& self.height.wf()
        &&& self.padding.wf()
        &&& self.margin.wf()
        &&& self.border.wf()
        &&& self.border_radius.wf()
    }
}

impl Default for Style {
    fn default() -> (r: Self)
        ensures
            r == style_default_spec(),
            r.wf(),
    {
        Style {
            width: Size::zero(),
            height: Size::zero(),
            padding: Quat::default(),
            margin: Quat::default(),
            border: Quat::default(),
            border_radius: Quat::default(),
            border_color: Color::default(),
            background_color: Color::default(),
        }
    }
}

} // verus!
