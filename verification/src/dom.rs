//! The per-node element descriptor: tag, identity, layout kind, style,
//! dirty flag and resolved geometry.
//!
//! Every mutator marks the element dirty; the layout driver clears the
//! flag after it has applied layout to the node.

use vstd::prelude::*;

use crate::geom::{Box2, Color, Vec2};
use crate::id::{Counter, Id};
use crate::num::{cadd, cadd_spec, in_coord};
use crate::size::{size_updated_spec, Quat, Size};
use crate::style::{style_default_spec, Layout, Style};

verus! {

/// A node's descriptor: what was declared for it and where the last
/// layout pass put it.
#[derive(Debug)]
pub struct DomElement {
    /// The node's identity in the tree.
    pub node_id: Id,
    /// The node's tag name.
    pub tag: String,
    /// The node's declared textual id.
    pub id: String,
    /// The node's declared classes.
    pub class: Vec<String>,
    /// How the node lays out its children.
    pub layout: Layout,
    /// The node's declared style.
    pub style: Style,
    /// Whether style or geometry changed since the last layout pass
    /// touched this node.
    pub dirty: bool,
    /// The node's resolved screen rectangle, excluding its own edges.
    pub ava_box: Box2,
    /// The parent size most recently observed for this node.
    pub parent_size: Vec2,
}

/// The layout-relevant part of an element: everything except its
/// identity and naming strings.
#[derive(Debug, Clone, Copy)]
pub struct DomLayout {
    /// How the node lays out its children.
    pub layout: Layout,
    /// The node's declared style.
    pub style: Style,
    /// The dirty flag.
    pub dirty: bool,
    /// The resolved screen rectangle.
    pub ava_box: Box2,
    /// The most recently observed parent size.
    pub parent_size: Vec2,
}

impl DomLayout {
    /// Whether every length is within bounds.
    pub open spec fn wf(self) -> bool {
        self.style.wf() && self.ava_box.wf() && self.parent_size.wf()
    }
}

/// The total of the horizontal edges of a style: left and right margins,
/// borders and paddings, in the order the box model sums them.
pub open spec fn edge_width_spec(s: Style) -> int {
    cadd_spec(
        cadd_spec(
            cadd_spec(
                cadd_spec(
                    cadd_spec(s.margin.left.value as int, s.margin.right.value as int),
                    s.border.left.value as int,
                ),
                s.border.right.value as int,
            ),
            s.padding.left.value as int,
        ),
        s.padding.right.value as int,
    )
}

/// The total of the vertical edges of a style: top and bottom margins,
/// borders and paddings.
pub open spec fn edge_height_spec(s: Style) -> int {
    cadd_spec(
        cadd_spec(
            cadd_spec(
                cadd_spec(
                    cadd_spec(s.margin.top.value as int, s.margin.bottom.value as int),
                    s.border.top.value as int,
                ),
                s.border.bottom.value as int,
            ),
            s.padding.top.value as int,
        ),
        s.padding.bottom.value as int,
    )
}

/// The offset from a node's outer corner to its available box: the left
/// (respectively top) margin, border and padding.
pub open spec fn left_top_spec(s: Style) -> Vec2 {
    Vec2 {
        x: cadd_spec(
            cadd_spec(s.margin.left.value as int, s.border.left.value as int),
            s.padding.left.value as int,
        ) as i64,
        y: cadd_spec(
            cadd_spec(s.margin.top.value as int, s.border.top.value as int),
            s.padding.top.value as int,
        ) as i64,
    }
}

/// The width of the whole box: content width plus horizontal edges.
pub open spec fn box_width_spec(s: Style) -> int {
    cadd_spec(s.width.value as int, edge_width_spec(s))
}

/// The height of the whole box: content height plus vertical edges.
pub open spec fn box_height_spec(s: Style) -> int {
    cadd_spec(s.height.value as int, edge_height_spec(s))
}

impl DomElement {
    /// Whether every length in the element is within bounds.
    pub open spec fn wf(self) -> bool {
        &&& self.style.wf()
        &&& self.ava_box.wf()
        &&& self.parent_size.wf()
        &&& self.node_id.wf()
    }

    /// The layout-relevant part of the element.
    pub open spec fn layout_view(self) -> DomLayout {
        DomLayout {
            layout: self.layout,
            style: self.style,
            dirty: self.dirty,
            ava_box: self.ava_box,
            parent_size: self.parent_size,
        }
    }

    /// A fresh element with the given tag: default style, Block layout,
    /// zero geometry, marked dirty, with an identity drawn from the
    /// counter.
    pub fn new(tag: &str, counter: &mut Counter) -> (r: Self)
        requires
            old(counter).wf(),
            old(counter).value < u64::MAX,
        ensures
            r.node_id.0 == old(counter).value,
            final(counter).value == old(counter).value + 1,
            final(counter).wf(),
            r.tag@ == tag@,
            r.id@ == Seq::<char>::empty(),
            r.class@ == Seq::<String>::empty(),
            r.layout == Layout::Block,
            r.style == style_default_spec(),
            r.dirty == true,
            r.ava_box == (Box2 { min: Vec2 { x: 0, y: 0 }, max: Vec2 { x: 0, y: 0 } }),
            r.parent_size == (Vec2 { x: 0, y: 0 }),
            r.wf(),
    {
        DomElement {
            node_id: Id::next(counter),
            tag: tag.to_owned(),
            id: String::new(),
            class: Vec::new(),
            layout: Layout::Block,
            style: Style::default(),
            dirty: true,
            ava_box: Box2::default(),
            parent_size: Vec2::default(),
        }
    }

    /// The node's identity.
    pub fn node_id(&self) -> (r: Id)
        ensures
            r == self.node_id,
    {
        self.node_id
    }

    /// The node's tag name.
    pub fn tag(&self) -> (r: &String)
        ensures
            r == &self.tag,
    {
        &self.tag
    }

    /// Set how the node lays out its children; marks the node dirty.
    pub fn set_layout(&mut self, layout: Layout)
        ensures
            *final(self) == (DomElement { layout, dirty: true, ..*old(self) }),
    {
        self.layout = layout;
        self.dirty = true;
    }

    /// Replace the node's whole style; marks the node dirty.
    pub fn set_style(&mut self, style: Style)
        ensures
            *final(self) == (DomElement { style, dirty: true, ..*old(self) }),
    {
        self.style = style;
        self.dirty = true;
    }

    /// Record the parent size the node was last laid out against; marks
    /// the node dirty.
    pub fn set_parent_size(&mut self, parent_size: Vec2)
        ensures
            *final(self) == (DomElement { parent_size, dirty: true, ..*old(self) }),
    {
        self.parent_size = parent_size;
        self.dirty = true;
    }

    /// Set the node's resolved screen rectangle; marks the node dirty.
    pub fn set_ava_box(&mut self, ava_box: Box2)
        ensures
            *final(self) == (DomElement { ava_box, dirty: true, ..*old(self) }),
    {
        self.ava_box = ava_box;
        self.dirty = true;
    }

    /// Set the declared width; marks the node dirty.
    pub fn set_width(&mut self, width: Size)
        ensures
            *final(self) == (DomElement {
                style: Style { width, ..old(self).style },
                dirty: true,
                ..*old(self)
            }),
    {
        self.style.width = width;
        self.dirty = true;
    }

    /// Set the declared height; marks the node dirty.
    pub fn set_height(&mut self, height: Size)
        ensures
            *final(self) == (DomElement {
                style: Style { height, ..old(self).style },
                dirty: true,
                ..*old(self)
            }),
    {
        self.style.height = height;
        self.dirty = true;
    }

    /// Set the padding; marks the node dirty.
    pub fn set_padding(&mut self, padding: Quat)
        ensures
            *final(self) == (DomElement {
                style: Style { padding, ..old(self).style },
                dirty: true,
                ..*old(self)
            }),
    {
        self.style.padding = padding;
        self.dirty = true;
    }

    /// Set the margin; marks the node dirty.
    pub fn set_margin(&mut self, margin: Quat)
        ensures
            *final(self) == (DomElement {
                style: Style { margin, ..old(self).style },
                dirty: true,
                ..*old(self)
            }),
    {
        self.style.margin = margin;
        self.dirty = true;
    }

    /// Set the border widths; marks the node dirty.
    pub fn set_border(&mut self, border: Quat)
        ensures
            *final(self) == (DomElement {
                style: Style { border, ..old(self).style },
                dirty: true,
                ..*old(self)
            }),
    {
        self.style.border = border;
        self.dirty = true;
    }

    /// Set the corner radii; marks the node dirty.
    pub fn set_border_radius(&mut self, border_radius: Quat)
        ensures
            *final(self) == (DomElement {
                style: Style { border_radius, ..old(self).style },
                dirty: true,
                ..*old(self)
            }),
    {
        self.style.border_radius = border_radius;
        self.dirty = true;
    }

    /// Set the border color; marks the node dirty.
    pub fn set_border_color(&mut self, border_color: Color)
        ensures
            *final(self) == (DomElement {
                style: Style { border_color, ..old(self).style },
                dirty: true,
                ..*old(self)
            }),
    {
        self.style.border_color = border_color;
        self.dirty = true;
    }

    /// Set the background color; marks the node dirty.
    pub fn set_background_color(&mut self, background_color: Color)
        ensures
            *final(self) == (DomElement {
                style: Style { background_color, ..old(self).style },
                dirty: true,
                ..*old(self)
            }),
    {
        self.style.background_color = background_color;
        self.dirty = true;
    }

    /// How the node lays out its children.
    pub fn layout(&self) -> (r: Layout)
        ensures
            r == self.layout,
    {
        self.layout
    }

    /// The parent size the node was last laid out against.
    pub fn parent_size(&self) -> (r: Vec2)
        ensures
            r == self.parent_size,
    {
        self.parent_size
    }

    /// The node's resolved screen rectangle.
    pub fn ava_box(&self) -> (r: Box2)
        ensures
            r == self.ava_box,
    {
        self.ava_box
    }

    /// The resolved content width.
    pub fn width(&self) -> (r: i64)
        ensures
            r == self.style.width.value,
    {
        self.style.width.value()
    }

    /// Re-resolve the declared width against a parent width; leaves the
    /// dirty flag as it is.
    pub fn update_width(&mut self, parent_width: i64)
        requires
            old(self).style.width.wf(),
            in_coord(parent_width as int),
        ensures
            *final(self) == (DomElement {
                style: Style {
                    width: size_updated_spec(old(self).style.width, parent_width as int),
                    ..old(self).style
                },
                ..*old(self)
            }),
    {
        let width = self.style.width;
        self.style.width = width.update(parent_width);
    }

    /// The resolved content height.
    pub fn height(&self) -> (r: i64)
        ensures
            r == self.style.height.value,
    {
        self.style.height.value()
    }

    /// Re-resolve the declared height against a parent height; leaves the
    /// dirty flag as it is.
    pub fn update_height(&mut self, parent_height: i64)
        requires
            old(self).style.height.wf(),
            in_coord(parent_height as int),
        ensures
            *final(self) == (DomElement {
                style: Style {
                    height: size_updated_spec(old(self).style.height, parent_height as int),
                    ..old(self).style
                },
                ..*old(self)
            }),
    {
        let height = self.style.height;
        self.style.height = height.update(parent_height);
    }

    /// The resolved content size.
    pub fn size(&self) -> (r: Vec2)
        ensures
            r == (Vec2 { x: self.style.width.value, y: self.style.height.value }),
    {
        Vec2 { x: self.style.width.value(), y: self.style.height.value() }
    }

    /// The total of the horizontal edges: left and right margins, borders
    /// and paddings.
    pub fn edge_width(&self) -> (r: i64)
        requires
            self.style.wf(),
        ensures
            r == edge_width_spec(self.style),
            in_coord(r as int),
    {
        let margin = self.style.margin;
        let border = self.style.border;
        let padding = self.style.padding;
        cadd(
            cadd(
                cadd(
                    cadd(
                        cadd(margin.left.value(), margin.right.value()),
                        border.left.value(),
                    ),
                    border.right.value(),
                ),
                padding.left.value(),
            ),
            padding.right.value(),
        )
    }

    /// The total of the vertical edges: top and bottom margins, borders
    /// and paddings.
    pub fn edge_height(&self) -> (r: i64)
        requires
            self.style.wf(),
        ensures
            r == edge_height_spec(self.style),
            in_coord(r as int),
    {
        let margin = self.style.margin;
        let border = self.style.border;
        let padding = self.style.padding;
        cadd(
            cadd(
                cadd(
                    cadd(
                        cadd(margin.top.value(), margin.bottom.value()),
                        border.top.value(),
                    ),
                    border.bottom.value(),
                ),
                padding.top.value(),
            ),
            padding.bottom.value(),
        )
    }

    /// The offset from the node's outer corner to its available box.
    pub fn left_top(&self) -> (r: Vec2)
        requires
            self.style.wf(),
        ensures
            r == left_top_spec(self.style),
            r.wf(),
    {
        let margin = self.style.margin;
        let border = self.style.border;
        let padding = self.style.padding;
        Vec2 {
            x: cadd(cadd(margin.left.value(), border.left.value()), padding.left.value()),
            y: cadd(cadd(margin.top.value(), border.top.value()), padding.top.value()),
        }
    }

    /// The offset from the node's outer corner to the far corner of its
    /// available box.
    pub fn right_bottom(&self) -> (r: Vec2)
        requires
            self.style.wf(),
        ensures
            r == (Vec2 {
                x: cadd_spec(left_top_spec(self.style).x as int, self.style.width.value as int)
                    as i64,
                y: cadd_spec(left_top_spec(self.style).y as int, self.style.height.value as int)
                    as i64,
            }),
            r.wf(),
    {
        let lt = self.left_top();
        Vec2 { x: cadd(lt.x, self.width()), y: cadd(lt.y, self.height()) }
    }

    /// The node's whole box: the available box grown back by the node's
    /// own edges.
    pub fn box_rect(&self) -> (r: Box2)
        requires
            self.style.wf(),
            self.ava_box.wf(),
        ensures
            r.min == (Vec2 {
                x: crate::num::csub_spec(
                    self.ava_box.min.x as int,
                    left_top_spec(self.style).x as int,
                ) as i64,
                y: crate::num::csub_spec(
                    self.ava_box.min.y as int,
                    left_top_spec(self.style).y as int,
                ) as i64,
            }),
            r.max == (Vec2 {
                x: cadd_spec(r.min.x as int, box_width_spec(self.style)) as i64,
                y: cadd_spec(r.min.y as int, box_height_spec(self.style)) as i64,
            }),
            r.wf(),
    {
        let lt = self.left_top();
        let start = Vec2 {
            x: crate::num::csub(self.ava_box.min.x, lt.x),
            y: crate::num::csub(self.ava_box.min.y, lt.y),
        };
        let end = Vec2 { x: cadd(start.x, self.box_width()), y: cadd(start.y, self.box_height()) };
        Box2 { min: start, max: end }
    }

    /// The width of the whole box: content plus horizontal edges.
    pub fn box_width(&self) -> (r: i64)
        requires
            self.style.wf(),
        ensures
            r == box_width_spec(self.style),
            in_coord(r as int),
    {
        cadd(self.width(), self.edge_width())
    }

    /// The height of the whole box: content plus vertical edges.
    pub fn box_height(&self) -> (r: i64)
        requires
            self.style.wf(),
        ensures
            r == box_height_spec(self.style),
            in_coord(r as int),
    {
        cadd(self.height(), self.edge_height())
    }

    /// The padding on each side.
    pub fn padding(&self) -> (r: Quat)
        ensures
            r == self.style.padding,
    {
        self.style.padding
    }

    /// The margin on each side.
    pub fn margin(&self) -> (r: Quat)
        ensures
            r == self.style.margin,
    {
        self.style.margin
    }

    /// The border width on each side.
    pub fn border(&self) -> (r: Quat)
        ensures
            r == self.style.border,
    {
        self.style.border
    }

    /// The corner radius at each corner.
    pub fn border_radius(&self) -> (r: Quat)
        ensures
            r == self.style.border_radius,
    {
        self.style.border_radius
    }

    /// The border color.
    pub fn border_color(&self) -> (r: Color)
        ensures
            r == self.style.border_color,
    {
        self.style.border_color
    }

    /// The background color.
    pub fn background_color(&self) -> (r: Color)
        ensures
            r == self.style.background_color,
    {
        self.style.background_color
    }

    /// Whether style or geometry changed since the last layout pass
    /// touched this node.
    pub fn is_dirty(&self) -> (r: bool)
        ensures
            r == self.dirty,
    {
        self.dirty
    }

    /// Set the dirty flag itself.
    pub fn set_dirty(&mut self, dirty: bool)
        ensures
            *final(self) == (DomElement { dirty, ..*old(self) }),
    {
        self.dirty = dirty;
    }

    /// Read the layout-relevant part of the element.
    pub fn layout_state(&self) -> (r: DomLayout)
        ensures
            r == self.layout_view(),
    {
        DomLayout {
            layout: self.layout,
            style: self.style,
            dirty: self.dirty,
            ava_box: self.ava_box,
            parent_size: self.parent_size,
        }
    }

    /// Replace the layout-relevant part of the element, keeping its
    /// identity and naming strings.
    pub fn apply_layout_state(&mut self, s: DomLayout)
        ensures
            *final(self) == (DomElement {
                layout: s.layout,
                style: s.style,
                dirty: s.dirty,
                ava_box: s.ava_box,
                parent_size: s.parent_size,
                ..*old(self)
            }),
    {
        self.layout = s.layout;
        self.style = s.style;
        self.dirty = s.dirty;
        self.ava_box = s.ava_box;
        self.parent_size = s.parent_size;
    }
}

} // verus!
