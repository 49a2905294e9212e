//! Geometry primitives: points, boxes, rectangles, colors and paint
//! commands, all over fixed-point coordinates.

use vstd::prelude::*;

use crate::num::{cadd, cadd_spec, csub, csub_spec, in_coord, max_i64, max_spec, min_i64, min_spec};

verus! {

/// A two-dimensional point or extent in fixed-point units.
#[derive(Debug, Clone, Copy, PartialEq, Eq, Structural)]
pub struct Vec2 {
    pub x: i64,
    pub y: i64,
}

impl Vec2 {
    /// Whether both coordinates are representable.
    pub open spec fn wf(self) -> bool {
        in_coord(self.x as int) && in_coord(self.y as int)
    }

    /// The origin.
    pub fn zero() -> (r: Vec2)
        ensures
            r == (Vec2 { x: 0, y: 0 }),
    {
        Vec2 { x: 0, y: 0 }
    }
}

impl Default for Vec2 {
    fn default() -> (r: Self)
        ensures
            r == (Vec2 { x: 0, y: 0 }),
    {
        Vec2 { x: 0, y: 0 }
    }
}

/// Build a point.
pub fn vec2(x: i64, y: i64) -> (r: Vec2)
    ensures
        r == (Vec2 { x, y }),
{
    Vec2 { x, y }
}

/// Build a point; an alias kept for call sites that speak of positions.
pub fn point2(x: i64, y: i64) -> (r: Vec2)
    ensures
        r == (Vec2 { x, y }),
{
    Vec2 { x, y }
}

/// Componentwise saturating addition.
pub open spec fn vadd_spec(a: Vec2, b: Vec2) -> Vec2 {
    Vec2 { x: cadd_spec(a.x as int, b.x as int) as i64, y: cadd_spec(a.y as int, b.y as int) as i64 }
}

/// Componentwise saturating subtraction.
pub open spec fn vsub_spec(a: Vec2, b: Vec2) -> Vec2 {
    Vec2 { x: csub_spec(a.x as int, b.x as int) as i64, y: csub_spec(a.y as int, b.y as int) as i64 }
}

/// Componentwise saturating addition.
pub fn vadd(a: Vec2, b: Vec2) -> (r: Vec2)
    requires
        a.wf(),
        b.wf(),
    ensures
        r == vadd_spec(a, b),
        r.wf(),
{
    Vec2 { x: cadd(a.x, b.x), y: cadd(a.y, b.y) }
}

/// Componentwise saturating subtraction.
pub fn vsub(a: Vec2, b: Vec2) -> (r: Vec2)
    requires
        a.wf(),
        b.wf(),
    ensures
        r == vsub_spec(a, b),
        r.wf(),
{
    Vec2 { x: csub(a.x, b.x), y: csub(a.y, b.y) }
}

/// An axis-aligned box given by two corners.
#[derive(Debug, Clone, Copy, PartialEq, Eq, Structural)]
pub struct Box2 {
    pub min: Vec2,
    pub max: Vec2,
}

/// Build a box from its corners.
pub fn box2(min: Vec2, max: Vec2) -> (r: Box2)
    ensures
        r == (Box2 { min, max }),
{
    Box2 { min, max }
}

impl Default for Box2 {
    fn default() -> (r: Self)
        ensures
            r == (Box2 { min: Vec2 { x: 0, y: 0 }, max: Vec2 { x: 0, y: 0 } }),
    {
        Box2 { min: Vec2 { x: 0, y: 0 }, max: Vec2 { x: 0, y: 0 } }
    }
}

impl Box2 {
    /// Whether all four coordinates are representable.
    pub open spec fn wf(self) -> bool {
        self.min.wf() && self.max.wf()
    }

    /// Build a box from its corners.
    pub fn new(min: Vec2, max: Vec2) -> (r: Self)
        ensures
            r == (Box2 { min, max }),
    {
        Box2 { min, max }
    }

    /// The box with both corners at the origin.
    pub fn zero() -> (r: Self)
        ensures
            r == (Box2 { min: Vec2 { x: 0, y: 0 }, max: Vec2 { x: 0, y: 0 } }),
    {
        Box2 { min: Vec2 { x: 0, y: 0 }, max: Vec2 { x: 0, y: 0 } }
    }

    /// The box of the given size whose smallest corner is `origin`.
    pub fn from_origin_and_size(origin: Vec2, size: Vec2) -> (r: Self)
        requires
            origin.wf(),
            size.wf(),
        ensures
            r.min == origin,
            r.max == vadd_spec(origin, size),
            r.wf(),
    {
        let max = vadd(origin, size);
        Box2 { min: origin, max }
    }

    /// The box of the given size whose smallest corner is the origin.
    pub fn from_size(size: Vec2) -> (r: Self)
        requires
            size.wf(),
        ensures
            r == (Box2 { min: Vec2 { x: 0, y: 0 }, max: size }),
    {
        Box2 { min: Vec2 { x: 0, y: 0 }, max: size }
    }

    /// The extent of the box.
    pub fn size(&self) -> (r: Vec2)
        requires
            self.wf(),
        ensures
            r == vsub_spec(self.max, self.min),
            r.wf(),
    {
        vsub(self.max, self.min)
    }

    /// The width of the box.
    pub fn width(&self) -> (r: i64)
        requires
            self.wf(),
        ensures
            r == csub_spec(self.max.x as int, self.min.x as int),
    {
        csub(self.max.x, self.min.x)
    }

    /// The height of the box.
    pub fn height(&self) -> (r: i64)
        requires
            self.wf(),
        ensures
            r == csub_spec(self.max.y as int, self.min.y as int),
    {
        csub(self.max.y, self.min.y)
    }

    /// The same region as an origin-and-size rectangle.
    pub fn to_rect(&self) -> (r: Rect)
        requires
            self.wf(),
        ensures
            r.origin == self.min,
            r.size == vsub_spec(self.max, self.min),
    {
        Rect { origin: self.min, size: self.size() }
    }

    /// The box moved by `by`.
    pub fn translate(&self, by: Vec2) -> (r: Self)
        requires
            self.wf(),
            by.wf(),
        ensures
            r.min == vadd_spec(self.min, by),
            r.max == vadd_spec(self.max, by),
            r.wf(),
    {
        Box2 { min: vadd(self.min, by), max: vadd(self.max, by) }
    }

    /// Whether the box has a negative extent on some axis.
    pub fn is_negative(&self) -> (r: bool)
        ensures
            r == (self.max.x < self.min.x || self.max.y < self.min.y),
    {
        self.max.x < self.min.x || self.max.y < self.min.y
    }

    /// Whether the box covers no area.
    pub fn is_empty(&self) -> (r: bool)
        ensures
            r == !(self.max.x > self.min.x && self.max.y > self.min.y),
    {
        !(self.max.x > self.min.x && self.max.y > self.min.y)
    }

    /// Whether the interiors of the two boxes overlap.
    pub fn intersects(&self, other: &Self) -> (r: bool)
        ensures
            r == (self.min.x < other.max.x && self.max.x > other.min.x && self.min.y < other.max.y
                && self.max.y > other.min.y),
    {
        self.min.x < other.max.x && self.max.x > other.min.x && self.min.y < other.max.y
            && self.max.y > other.min.y
    }

    /// Whether the point lies in the box; the smallest faces count as
    /// inside, the largest as outside.
    pub fn contains(&self, p: Vec2) -> (r: bool)
        ensures
            r == (self.min.x <= p.x < self.max.x && self.min.y <= p.y < self.max.y),
    {
        self.min.x <= p.x && p.x < self.max.x && self.min.y <= p.y && p.y < self.max.y
    }

    /// Whether this box contains the interior of the other box.
    pub fn contains_box(&self, other: &Self) -> (r: bool)
        ensures
            r == (!(other.max.x > other.min.x && other.max.y > other.min.y) || (self.min.x
                <= other.min.x && other.max.x <= self.max.x && self.min.y <= other.min.y
                && other.max.y <= self.max.y)),
    {
        other.is_empty() || (self.min.x <= other.min.x && other.max.x <= self.max.x && self.min.y
            <= other.min.y && other.max.y <= self.max.y)
    }

    /// The box itself, unless it covers no area.
    pub fn to_non_empty(&self) -> (r: Option<Box2>)
        ensures
            r == if !(self.max.x > self.min.x && self.max.y > self.min.y) {
                Option::<Box2>::None
            } else {
                Option::<Box2>::Some(*self)
            },
    {
        if self.is_empty() {
            None
        } else {
            Some(*self)
        }
    }

    /// The overlap of two boxes, as a possibly negative box.
    pub fn intersection_unchecked(&self, other: &Self) -> (r: Self)
        ensures
            r.min.x == max_spec(self.min.x as int, other.min.x as int),
            r.min.y == max_spec(self.min.y as int, other.min.y as int),
            r.max.x == min_spec(self.max.x as int, other.max.x as int),
            r.max.y == min_spec(self.max.y as int, other.max.y as int),
    {
        Box2 {
            min: Vec2 { x: max_i64(self.min.x, other.min.x), y: max_i64(self.min.y, other.min.y) },
            max: Vec2 { x: min_i64(self.max.x, other.max.x), y: min_i64(self.max.y, other.max.y) },
        }
    }

    /// The overlap of two boxes, or `None` where they do not overlap.
    pub fn intersection(&self, other: &Self) -> (r: Option<Box2>)
        ensures
            r matches Some(b) ==> b == self.intersection_unchecked_spec(*other) && (b.max.x
                > b.min.x && b.max.y > b.min.y),
            r is None ==> !(self.intersection_unchecked_spec(*other).max.x
                > self.intersection_unchecked_spec(*other).min.x
                && self.intersection_unchecked_spec(*other).max.y
                > self.intersection_unchecked_spec(*other).min.y),
    {
        let b = self.intersection_unchecked(other);
        if b.is_empty() {
            None
        } else {
            Some(b)
        }
    }

    /// The overlap of two boxes as a value.
    pub open spec fn intersection_unchecked_spec(self, other: Box2) -> Box2 {
        Box2 {
            min: Vec2 {
                x: max_spec(self.min.x as int, other.min.x as int) as i64,
                y: max_spec(self.min.y as int, other.min.y as int) as i64,
            },
            max: Vec2 {
                x: min_spec(self.max.x as int, other.max.x as int) as i64,
                y: min_spec(self.max.y as int, other.max.y as int) as i64,
            },
        }
    }

    /// The smallest box containing both boxes; an empty box yields the
    /// other one.
    pub fn union(&self, other: &Self) -> (r: Self)
        ensures
            !(other.max.x > other.min.x && other.max.y > other.min.y) ==> r == *self,
            (other.max.x > other.min.x && other.max.y > other.min.y) && !(self.max.x > self.min.x
                && self.max.y > self.min.y) ==> r == *other,
            (other.max.x > other.min.x && other.max.y > other.min.y) && (self.max.x > self.min.x
                && self.max.y > self.min.y) ==> r == (Box2 {
                min: Vec2 {
                    x: min_spec(self.min.x as int, other.min.x as int) as i64,
                    y: min_spec(self.min.y as int, other.min.y as int) as i64,
                },
                max: Vec2 {
                    x: max_spec(self.max.x as int, other.max.x as int) as i64,
                    y: max_spec(self.max.y as int, other.max.y as int) as i64,
                },
            }),
    {
        if other.is_empty() {
            return *self;
        }
        if self.is_empty() {
            return *other;
        }
        Box2 {
            min: Vec2 { x: min_i64(self.min.x, other.min.x), y: min_i64(self.min.y, other.min.y) },
            max: Vec2 { x: max_i64(self.max.x, other.max.x), y: max_i64(self.max.y, other.max.y) },
        }
    }

    /// The box grown by `width` on the left and right and by `height` on
    /// the top and bottom.
    pub fn inflate(&self, width: i64, height: i64) -> (r: Self)
        requires
            self.wf(),
            in_coord(width as int),
            in_coord(height as int),
        ensures
            r.min.x == csub_spec(self.min.x as int, width as int),
            r.min.y == csub_spec(self.min.y as int, height as int),
            r.max.x == cadd_spec(self.max.x as int, width as int),
            r.max.y == cadd_spec(self.max.y as int, height as int),
            r.wf(),
    {
        Box2 {
            min: Vec2 { x: csub(self.min.x, width), y: csub(self.min.y, height) },
            max: Vec2 { x: cadd(self.max.x, width), y: cadd(self.max.y, height) },
        }
    }
}

/// An origin-and-size rectangle.
#[derive(Debug, Clone, Copy, PartialEq, Eq, Structural)]
pub struct Rect {
    pub origin: Vec2,
    pub size: Vec2,
}

/// Build a rectangle.
pub fn rect(p: Vec2, s: Vec2) -> (r: Rect)
    ensures
        r == (Rect { origin: p, size: s }),
{
    Rect { origin: p, size: s }
}

impl Default for Rect {
    fn default() -> (r: Self)
        ensures
            r == (Rect {
                origin: Vec2 { x: 0, y: 0 },
                size: Vec2 { x: 0, y: 0 },
            }),
    {
        Rect { origin: Vec2 { x: 0, y: 0 }, size: Vec2 { x: 0, y: 0 } }
    }
}

impl Rect {
    /// Whether all four coordinates are representable.
    pub open spec fn wf(self) -> bool {
        self.origin.wf() && self.size.wf()
    }

    /// Build a rectangle.
    pub fn new(origin: Vec2, size: Vec2) -> (r: Self)
        ensures
            r == (Rect { origin, size }),
    {
        Rect { origin, size }
    }

    /// The rectangle of the given size at the origin.
    pub fn from_size(size: Vec2) -> (r: Self)
        ensures
            r == (Rect { origin: Vec2 { x: 0, y: 0 }, size }),
    {
        Rect { origin: Vec2 { x: 0, y: 0 }, size }
    }

    /// The same region as a two-corner box.
    pub fn to_box2d(&self) -> (r: Box2)
        requires
            self.wf(),
        ensures
            r.min == self.origin,
            r.max == vadd_spec(self.origin, self.size),
            r.wf(),
    {
        Box2 { min: self.origin, max: vadd(self.origin, self.size) }
    }
}

/// A color as red, green, blue and alpha channels.
#[derive(Debug, Clone, Copy, PartialEq, Eq, Structural)]
pub struct Color {
    pub red: u8,
    pub green: u8,
    pub blue: u8,
    pub alpha: u8,
}

impl Default for Color {
    fn default() -> (r: Self)
        ensures
            r == (Color { red: 255, green: 255, blue: 255, alpha: 255 }),
    {
        Color { red: 255, green: 255, blue: 255, alpha: 255 }
    }
}

impl Color {
    /// Build a color from its four channels.
    pub fn new(red: u8, green: u8, blue: u8, alpha: u8) -> (c: Self)
        ensures
            c == (Color { red, green, blue, alpha }),
    {
        Color { red, green, blue, alpha }
    }

    /// The red channel.
    pub fn r(&self) -> (v: u8)
        ensures
            v == self.red,
    {
        self.red
    }

    /// The green channel.
    pub fn g(&self) -> (v: u8)
        ensures
            v == self.green,
    {
        self.green
    }

    /// The blue channel.
    pub fn b(&self) -> (v: u8)
        ensures
            v == self.blue,
    {
        self.blue
    }

    /// The alpha channel.
    pub fn a(&self) -> (v: u8)
        ensures
            v == self.alpha,
    {
        self.alpha
    }
}

/// Whether `c` is a hexadecimal digit.
pub open spec fn is_hex_digit(c: char) -> bool {
    (48 <= c as u32 <= 57) || (97 <= c as u32 <= 102) || (65 <= c as u32 <= 70)
}

/// The value of a hexadecimal digit.
pub open spec fn hex_val(c: char) -> int {
    if 48 <= c as u32 <= 57 {
        c as u32 - 48
    } else if 97 <= c as u32 <= 102 {
        c as u32 - 87
    } else {
        c as u32 - 55
    }
}

/// The channel value of the two hexadecimal digits at `i`; a malformed
/// pair yields 255.
pub open spec fn hex_pair_spec(s: Seq<char>, i: int) -> u8 {
    if is_hex_digit(s[i]) && is_hex_digit(s[i + 1]) {
        (hex_val(s[i]) * 16 + hex_val(s[i + 1])) as u8
    } else {
        255u8
    }
}

/// The color written `#RRGGBBAA`; any other string yields the default
/// color, and each malformed channel pair yields 255.
pub open spec fn color_from_str_spec(s: Seq<char>) -> Color {
    if s.len() == 9 && s[0] == '#' {
        Color {
            red: hex_pair_spec(s, 1),
            green: hex_pair_spec(s, 3),
            blue: hex_pair_spec(s, 5),
            alpha: hex_pair_spec(s, 7),
        }
    } else {
        Color { red: 255, green: 255, blue: 255, alpha: 255 }
    }
}

/// The channel value of the two hexadecimal digits at `i`.
fn hex_pair(s: &str, i: usize) -> (v: u8)
    requires
        i <= 8,
        i + 1 < s@.len(),
    ensures
        v == hex_pair_spec(s@, i as int),
{
    let c1 = s.get_char(i);
    let c2 = s.get_char(i + 1);
    let u1 = c1 as u32;
    let u2 = c2 as u32;
    let d1: u32 = if 48 <= u1 && u1 <= 57 {
        u1 - 48
    } else if 97 <= u1 && u1 <= 102 {
        u1 - 87
    } else if 65 <= u1 && u1 <= 70 {
        u1 - 55
    } else {
        return 255;
    };
    let d2: u32 = if 48 <= u2 && u2 <= 57 {
        u2 - 48
    } else if 97 <= u2 && u2 <= 102 {
        u2 - 87
    } else if 65 <= u2 && u2 <= 70 {
        u2 - 55
    } else {
        return 255;
    };
    (d1 * 16 + d2) as u8
}

impl From<u32> for Color {
    /// The color packed as `0xRRGGBBAA`.
    fn from(n: u32) -> (c: Self) {
        Color {
            red: ((n >> 24) & 0xff) as u8,
            green: ((n >> 16) & 0xff) as u8,
            blue: ((n >> 8) & 0xff) as u8,
            alpha: (n & 0xff) as u8,
        }
    }
}

impl vstd::std_specs::convert::FromSpecImpl<u32> for Color {
    open spec fn obeys_from_spec() -> bool {
        true
    }

    open spec fn from_spec(n: u32) -> Self {
        Color {
            red: ((n >> 24) & 0xff) as u8,
            green: ((n >> 16) & 0xff) as u8,
            blue: ((n >> 8) & 0xff) as u8,
            alpha: (n & 0xff) as u8,
        }
    }
}

impl From<&str> for Color {
    /// The color written `#RRGGBBAA`; anything else yields the default.
    fn from(s: &str) -> (c: Self) {
        let n = s.unicode_len();
        if n == 9 && s.get_char(0) == '#' {
            Color {
                red: hex_pair(s, 1),
                green: hex_pair(s, 3),
                blue: hex_pair(s, 5),
                alpha: hex_pair(s, 7),
            }
        } else {
            Color { red: 255, green: 255, blue: 255, alpha: 255 }
        }
    }
}

impl vstd::std_specs::convert::FromSpecImpl<&str> for Color {
    open spec fn obeys_from_spec() -> bool {
        true
    }

    open spec fn from_spec(s: &str) -> Self {
        color_from_str_spec(s@)
    }
}

/// A colored rectangle with a border: one paint command.
#[derive(Debug, Clone, Copy, PartialEq, Eq, Structural)]
pub struct Quad {
    pub rect: Rect,
    pub color: Color,
    pub border_color: Color,
    pub border_radius: i64,
    pub border_width: i64,
}

impl Quad {
    /// The quad filling `rect` with `color` as a value.
    pub open spec fn new_spec(rect: Rect, color: Color) -> Quad {
        Quad {
            rect,
            color,
            border_color: Color { red: 255, green: 255, blue: 255, alpha: 255 },
            border_radius: 0,
            border_width: 0,
        }
    }

    /// A quad filling `rect` with `color`, without a border.
    pub fn new(rect: Rect, color: Color) -> (q: Self)
        ensures
            q == Quad::new_spec(rect, color),
    {
        Quad {
            rect,
            color,
            border_color: Color::default(),
            border_radius: 0,
            border_width: 0,
        }
    }
}

} // verus!
