//! The dimension model: declared sizes, their resolution against a
//! reference measurement, and the four-sided shorthand.
//!
//! A `Size` carries a declared parameter — an absolute length or a
//! percentage — together with the value it last resolved to.  Resolution
//! is a pure function of the parameter and a reference length: an absolute
//! value passes through where the reference is zero and is otherwise
//! capped at the reference; a percentage yields that fraction of the
//! reference, likewise capped.

use vstd::prelude::*;

use crate::num::{
    cadd_spec, clamp_i64, clamp_spec, in_coord, in_pct, min_i64, min_spec, mul_frac, mul_frac_spec,
    COORD_LIMIT, NUM_LIMIT, PCT_LIMIT,
};
use crate::parse::{
    dec_milli, is_space, parse_len, parse_len_spec, tokens, toks, valid_decimal,
};
use crate::geom::Vec2;

verus! {

/// The declared parameter of a size: a percentage of the reference, or an
/// absolute length.
#[derive(Debug, Clone, Copy, PartialEq, Eq, Structural)]
pub enum InnerSize {
    /// A fraction of the reference, in thousandths of a percent.
    Percent(i64),
    /// An absolute length, in thousandths of a pixel.
    Number(i64),
}

/// A declared size together with its most recently resolved value.
#[derive(Debug, Clone, Copy)]
pub struct Size {
    /// The declared parameter.
    pub param: InnerSize,
    /// The value the parameter last resolved to.
    pub value: i64,
}

/// What resolving `p` against the reference `max` yields: an absolute
/// value passes through where the reference is zero and is otherwise
/// capped at the reference; a percentage yields that fraction of the
/// reference, capped at the reference and saturated at the coordinate
/// bound.
pub open spec fn update_spec(p: InnerSize, max: int) -> int {
    match p {
        InnerSize::Number(n) => if max == 0 {
            n as int
        } else {
            min_spec(max, n as int)
        },
        InnerSize::Percent(q) => clamp_spec(
            min_spec(max, mul_frac_spec(max, q as int)),
            COORD_LIMIT as int,
        ),
    }
}

/// The parameter a size token denotes: a trailing `%` makes it a
/// percentage, anything else an absolute length.
pub open spec fn size_param_spec(s: Seq<char>) -> InnerSize {
    if s.len() > 0 && s.last() == '%' {
        InnerSize::Percent(parse_len_spec(s.drop_last(), PCT_LIMIT as int) as i64)
    } else {
        InnerSize::Number(parse_len_spec(s, NUM_LIMIT as int) as i64)
    }
}

/// The resolved value a parameter starts out with: the value itself for
/// an absolute length, zero for a percentage.
pub open spec fn initial_value_spec(p: InnerSize) -> i64 {
    match p {
        InnerSize::Number(n) => n,
        InnerSize::Percent(_) => 0,
    }
}

/// The size a token denotes.
pub open spec fn size_from_spec(s: Seq<char>) -> Size {
    Size { param: size_param_spec(s), value: initial_value_spec(size_param_spec(s)) }
}

/// The size of value zero.
pub open spec fn size_zero_spec() -> Size {
    Size { param: InnerSize::Number(0), value: 0 }
}

impl Size {
    /// Whether the parameter and the resolved value are within bounds.
    pub open spec fn wf(self) -> bool {
        &&& match self.param {
            InnerSize::Number(n) => in_coord(n as int),
            InnerSize::Percent(q) => in_pct(q as int),
        }
        &&& in_coord(self.value as int)
    }

    /// The size of value zero.
    pub fn zero() -> (r: Self)
        ensures
            r == size_zero_spec(),
            r.wf(),
    {
        Size { param: InnerSize::Number(0), value: 0 }
    }

    /// An absolute size, saturated at the coordinate bound.
    pub fn new_value(value: i64) -> (r: Self)
        ensures
            r.param == InnerSize::Number(clamp_spec(value as int, COORD_LIMIT as int) as i64),
            r.value == clamp_spec(value as int, COORD_LIMIT as int),
            r.wf(),
    {
        let v = clamp_i64(value, COORD_LIMIT);
        Size { param: InnerSize::Number(v), value: v }
    }

    /// A percentage size, saturated at the percentage bound; its value
    /// starts at zero until it is resolved.
    pub fn new_percent(percent: i64) -> (r: Self)
        ensures
            r.param == InnerSize::Percent(clamp_spec(percent as int, PCT_LIMIT as int) as i64),
            r.value == 0,
            r.wf(),
    {
        let p = clamp_i64(percent, PCT_LIMIT);
        Size { param: InnerSize::Percent(p), value: 0 }
    }

    /// The size a token denotes: `50%` is a percentage, `10.5` an
    /// absolute length, and a malformed token the absolute length zero.
    pub fn from(s: &str) -> (r: Self)
        ensures
            r == size_from_spec(s@),
            r.wf(),
    {
        let n = s.unicode_len();
        if n > 0 && s.get_char(n - 1) == '%' {
            let p = parse_len(s, n - 1, PCT_LIMIT);
            proof {
                assert(s@.take(n - 1) =~= s@.drop_last());
            }
            Size::new_percent(p)
        } else {
            let v = parse_len(s, n, NUM_LIMIT);
            proof {
                assert(s@.take(n as int) =~= s@);
            }
            Size::new_value(v)
        }
    }

    /// Resolve the declared parameter against the reference `max_value`,
    /// keeping the parameter and recording the resolved value.
    pub fn update(self, max_value: i64) -> (r: Self)
        requires
            self.wf(),
            in_coord(max_value as int),
        ensures
            r.param == self.param,
            r.value == update_spec(self.param, max_value as int),
            r.wf(),
    {
        let value = match self.param {
            InnerSize::Number(n) => if max_value == 0 {
                n
            } else {
                min_i64(max_value, n)
            },
            InnerSize::Percent(p) => {
                let f = mul_frac(max_value, p);
                clamp_i64(min_i64(max_value, f), COORD_LIMIT)
            },
        };
        Size { param: self.param, value }
    }

    /// The most recently resolved value.
    pub fn value(&self) -> (v: i64)
        ensures
            v == self.value,
    {
        self.value
    }
}

impl Default for Size {
    fn default() -> (r: Self)
        ensures
            r == size_zero_spec(),
    {
        Size { param: InnerSize::Number(0), value: 0 }
    }
}

impl PartialEq for Size {
    /// Two sizes are compared by their resolved values alone.
    fn eq(&self, other: &Self) -> (r: bool) {
        self.value == other.value
    }
}

impl vstd::std_specs::cmp::PartialEqSpecImpl for Size {
    open spec fn obeys_eq_spec() -> bool {
        true
    }

    open spec fn eq_spec(&self, other: &Self) -> bool {
        self.value == other.value
    }
}

impl PartialOrd for Size {
    /// Two sizes are ordered by their resolved values alone.
    fn partial_cmp(&self, other: &Self) -> (r: Option<core::cmp::Ordering>) {
        if self.value < other.value {
            Some(core::cmp::Ordering::Less)
        } else if self.value == other.value {
            Some(core::cmp::Ordering::Equal)
        } else {
            Some(core::cmp::Ordering::Greater)
        }
    }
}

impl vstd::std_specs::cmp::PartialOrdSpecImpl for Size {
    open spec fn obeys_partial_cmp_spec() -> bool {
        true
    }

    open spec fn partial_cmp_spec(&self, other: &Self) -> Option<core::cmp::Ordering> {
        if self.value < other.value {
            Some(core::cmp::Ordering::Less)
        } else if self.value == other.value {
            Some(core::cmp::Ordering::Equal)
        } else {
            Some(core::cmp::Ordering::Greater)
        }
    }
}

/// Resolution is idempotent under a constant reference: resolving an
/// already resolved size against the same reference yields the same
/// value, since the declared parameter is kept.
pub proof fn lemma_update_idempotent(s: Size, max: int)
    ensures
        update_spec(s.param, max) == update_spec(
            (Size { param: s.param, value: update_spec(s.param, max) as i64 }).param,
            max,
        ),
{
}

/// For every well-formed, non-negative percentage token `p%` and positive
/// reference `r`, the token resolves to the smaller of `r` and `p` per
/// cent of `r`; no saturation is involved.
pub proof fn lemma_percent_resolution(s: Seq<char>, r: int)
    requires
        s.len() > 0,
        s.last() == '%',
        valid_decimal(s.drop_last()),
        0 <= dec_milli(s.drop_last()) <= PCT_LIMIT,
        0 < r <= COORD_LIMIT,
    ensures
        update_spec(size_param_spec(s), r) == min_spec(
            r,
            mul_frac_spec(r, dec_milli(s.drop_last())),
        ),
{
    let p = dec_milli(s.drop_last());
    assert(size_param_spec(s) == InnerSize::Percent(p as i64));
    assert(r * p >= 0) by (nonlinear_arith)
        requires
            r > 0,
            p >= 0,
    ;
    assert(mul_frac_spec(r, p) >= 0) by {
        assert((r * p) / 100_000 >= 0) by (nonlinear_arith)
            requires
                r * p >= 0,
        ;
    }
    assert(min_spec(r, mul_frac_spec(r, p)) <= r <= COORD_LIMIT);
    assert(min_spec(r, mul_frac_spec(r, p)) >= 0 >= -COORD_LIMIT);
}

/// An absolute token resolved against a zero reference passes its
/// declared value through unclamped.
pub proof fn lemma_absolute_passthrough(s: Seq<char>)
    requires
        !(s.len() > 0 && s.last() == '%'),
        valid_decimal(s),
        -NUM_LIMIT <= dec_milli(s) <= NUM_LIMIT,
    ensures
        update_spec(size_param_spec(s), 0) == dec_milli(s),
{
    assert(size_param_spec(s) == InnerSize::Number(dec_milli(s) as i64));
}

/// A four-sided set of edge values (top, right, bottom, left), as used for
/// margins, paddings, borders and corner radii.
#[derive(Debug, Clone, Copy)]
pub struct Quat {
    /// The top side.
    pub top: Size,
    /// The right side.
    pub right: Size,
    /// The bottom side.
    pub bottom: Size,
    /// The left side.
    pub left: Size,
}

/// The sizes a whitespace-separated string of tokens denotes.
pub open spec fn sizes_spec(s: Seq<char>) -> Seq<Size> {
    tokens(s).map_values(|t: Seq<char>| size_from_spec(t))
}

/// The four sides a list of sizes denotes, by the shorthand rules: one
/// value serves for all four sides; two give top-and-bottom and
/// right-and-left; three give top, right-and-left, bottom; four are taken
/// as top, right, bottom, left in that order, and further values are
/// dropped.  No value at all leaves every side zero.
pub open spec fn quat_of_sizes_spec(v: Seq<Size>) -> Quat {
    if v.len() == 0 {
        Quat {
            top: size_zero_spec(),
            right: size_zero_spec(),
            bottom: size_zero_spec(),
            left: size_zero_spec(),
        }
    } else if v.len() == 1 {
        Quat { top: v[0], right: v[0], bottom: v[0], left: v[0] }
    } else if v.len() == 2 {
        Quat { top: v[0], right: v[1], bottom: v[0], left: v[1] }
    } else if v.len() == 3 {
        Quat { top: v[0], right: v[1], bottom: v[2], left: v[1] }
    } else {
        Quat { top: v[0], right: v[1], bottom: v[2], left: v[3] }
    }
}

/// The four sides a shorthand string denotes.
pub open spec fn quat_from_spec(s: Seq<char>) -> Quat {
    quat_of_sizes_spec(sizes_spec(s))
}

/// A size with its value resolved against `max`, keeping the parameter.
pub open spec fn size_updated_spec(s: Size, max: int) -> Size {
    Size { param: s.param, value: update_spec(s.param, max) as i64 }
}

/// The four sides resolved against a reference extent: the horizontal
/// sides (left and right) against its width, the vertical sides (top and
/// bottom) against its height.
pub open spec fn quat_update_spec(q: Quat, max_size: Vec2) -> Quat {
    Quat {
        top: size_updated_spec(q.top, max_size.y as int),
        right: size_updated_spec(q.right, max_size.x as int),
        bottom: size_updated_spec(q.bottom, max_size.y as int),
        left: size_updated_spec(q.left, max_size.x as int),
    }
}

/// Parse a whitespace-separated list of size tokens.
fn parse_sizes(s: &str) -> (sizes: Vec<Size>)
    ensures
        sizes@ == sizes_spec(s@),
        forall|i: int| 0 <= i < sizes@.len() ==> #[trigger] sizes@[i].wf(),
{
    let n = s.unicode_len();
    let mut sizes: Vec<Size> = Vec::new();
    let mut i: usize = 0;
    let mut start: usize = 0;
    let mut in_tok: bool = false;
    let ghost mut done: Seq<Seq<char>> = Seq::empty();
    proof {
        assert(sizes@ =~= done.map_values(|t: Seq<char>| size_from_spec(t)));
    }
    loop
        invariant
            i <= n,
            n == s@.len(),
            in_tok ==> start < i,
            tokens(s@) == done + toks(
                s@,
                i as int,
                if in_tok {
                    s@.subrange(start as int, i as int)
                } else {
                    Seq::<char>::empty()
                },
            ),
            sizes@ == done.map_values(|t: Seq<char>| size_from_spec(t)),
            forall|k: int| 0 <= k < sizes@.len() ==> #[trigger] sizes@[k].wf(),
        ensures
            i == n,
            tokens(s@) == done + toks(
                s@,
                n as int,
                if in_tok {
                    s@.subrange(start as int, n as int)
                } else {
                    Seq::<char>::empty()
                },
            ),
            in_tok ==> start < n,
            n == s@.len(),
            sizes@ == done.map_values(|t: Seq<char>| size_from_spec(t)),
            forall|k: int| 0 <= k < sizes@.len() ==> #[trigger] sizes@[k].wf(),
        decreases n - i,
    {
        if i >= n {
            break;
        }
        let c = s.get_char(i);
        let space = c == ' ' || c == '\t' || c == '\n' || c == '\r';
        if space {
            if in_tok {
                let tok = s.substring_char(start, i);
                let sz = Size::from(tok);
                let ghost cur = s@.subrange(start as int, i as int);
                proof {
                    assert(toks(s@, i as int, cur) == seq![cur] + toks(
                        s@,
                        i + 1,
                        Seq::<char>::empty(),
                    ));
                    assert((done + seq![cur]).map_values(|t: Seq<char>| size_from_spec(t)) =~= done
                        .map_values(|t: Seq<char>| size_from_spec(t)).push(size_from_spec(cur)));
                    assert(done + seq![cur] + toks(s@, i + 1, Seq::<char>::empty()) =~~= done + (
                    seq![cur] + toks(s@, i + 1, Seq::<char>::empty())));
                }
                sizes.push(sz);
                proof {
                    done = done + seq![cur];
                }
                in_tok = false;
            }
        } else {
            if !in_tok {
                start = i;
                in_tok = true;
                proof {
                    assert(s@.subrange(start as int, i as int) =~= Seq::<char>::empty());
                }
            }
            let ghost cur = s@.subrange(start as int, i as int);
            proof {
                assert(toks(s@, i as int, cur) == toks(s@, i + 1, cur.push(s@[i as int])));
                assert(s@.subrange(start as int, i + 1) =~= cur.push(s@[i as int]));
            }
        }
        i += 1;
    }
    if in_tok {
        let tok = s.substring_char(start, n);
        let sz = Size::from(tok);
        let ghost cur = s@.subrange(start as int, n as int);
        proof {
            assert(toks(s@, n as int, cur) == if cur.len() == 0 {
                Seq::<Seq<char>>::empty()
            } else {
                seq![cur]
            });
            if cur.len() == 0 {
                assert(tokens(s@) =~= done);
            }
            assert((done + seq![cur]).map_values(|t: Seq<char>| size_from_spec(t)) =~= done
                .map_values(|t: Seq<char>| size_from_spec(t)).push(size_from_spec(cur)));
        }
        if tok.unicode_len() > 0 {
            sizes.push(sz);
            proof {
                done = done + seq![cur];
                assert(tokens(s@) =~= done);
            }
        }
    } else {
        proof {
            assert(tokens(s@) =~= done);
        }
    }
    proof {
        assert(sizes@ =~= sizes_spec(s@));
    }
    sizes
}

impl Quat {
    /// Whether all four sides are within bounds.
    pub open spec fn wf(self) -> bool {
        self.top.wf() && self.right.wf() && self.bottom.wf() && self.left.wf()
    }

    /// The four sides a shorthand string denotes: one to four
    /// whitespace-separated size tokens, in CSS shorthand order.
    pub fn from(s: &str) -> (q: Self)
        ensures
            q == quat_from_spec(s@),
            q.wf(),
    {
        let sizes = parse_sizes(s);
        if sizes.len() == 0 {
            Quat { top: Size::zero(), right: Size::zero(), bottom: Size::zero(), left: Size::zero() }
        } else if sizes.len() == 1 {
            Quat { top: sizes[0], right: sizes[0], bottom: sizes[0], left: sizes[0] }
        } else if sizes.len() == 2 {
            Quat { top: sizes[0], right: sizes[1], bottom: sizes[0], left: sizes[1] }
        } else if sizes.len() == 3 {
            Quat { top: sizes[0], right: sizes[1], bottom: sizes[2], left: sizes[1] }
        } else {
            Quat { top: sizes[0], right: sizes[1], bottom: sizes[2], left: sizes[3] }
        }
    }

    /// All four sides set to the same absolute value.
    pub fn from_value(v: i64) -> (q: Self)
        ensures
            q.right == q.top && q.bottom == q.top && q.left == q.top,
            q.top.param == InnerSize::Number(clamp_spec(v as int, COORD_LIMIT as int) as i64),
            q.top.value == clamp_spec(v as int, COORD_LIMIT as int),
            q.wf(),
    {
        let sz = Size::new_value(v);
        Quat { top: sz, right: sz, bottom: sz, left: sz }
    }

    /// Resolve every side against the reference extent: left and right
    /// against its width, top and bottom against its height.
    pub fn update(self, max_size: Vec2) -> (r: Self)
        requires
            self.wf(),
            max_size.wf(),
        ensures
            r == quat_update_spec(self, max_size),
            r.wf(),
    {
        Quat {
            top: self.top.update(max_size.y),
            right: self.right.update(max_size.x),
            bottom: self.bottom.update(max_size.y),
            left: self.left.update(max_size.x),
        }
    }

    /// The four sides as an array in top, right, bottom, left order.
    pub fn value(&self) -> (r: [Size; 4])
        ensures
            r[0] == self.top,
            r[1] == self.right,
            r[2] == self.bottom,
            r[3] == self.left,
    {
        [self.top, self.right, self.bottom, self.left]
    }

    /// The top side.
    pub fn top(&self) -> (r: Size)
        ensures
            r == self.top,
    {
        self.top
    }

    /// The right side.
    pub fn right(&self) -> (r: Size)
        ensures
            r == self.right,
    {
        self.right
    }

    /// The bottom side.
    pub fn bottom(&self) -> (r: Size)
        ensures
            r == self.bottom,
    {
        self.bottom
    }

    /// The left side.
    pub fn left(&self) -> (r: Size)
        ensures
            r == self.left,
    {
        self.left
    }
}

impl Default for Quat {
    fn default() -> (r: Self)
        ensures
            r == (Quat {
                top: size_zero_spec(),
                right: size_zero_spec(),
                bottom: size_zero_spec(),
                left: size_zero_spec(),
            }),
    {
        Quat { top: Size::zero(), right: Size::zero(), bottom: Size::zero(), left: Size::zero() }
    }
}

/// A one-token shorthand sets all four sides alike.
pub proof fn lemma_one_token_all_sides(s: Seq<char>)
    requires
        tokens(s).len() == 1,
    ensures
        quat_from_spec(s).top == size_from_spec(tokens(s)[0]),
        quat_from_spec(s).right == quat_from_spec(s).top,
        quat_from_spec(s).bottom == quat_from_spec(s).top,
        quat_from_spec(s).left == quat_from_spec(s).top,
{
}

/// A one-token absolute shorthand resolves to the declared value on every
/// side, for every reference extent that is zero or at least that value
/// on each axis.
pub proof fn lemma_uniform_edges_resolve(s: Seq<char>, max: Vec2, n: i64)
    requires
        tokens(s).len() == 1,
        size_from_spec(tokens(s)[0]).param == InnerSize::Number(n),
        0 <= n,
        max.x == 0 || max.x >= n,
        max.y == 0 || max.y >= n,
    ensures
        quat_update_spec(quat_from_spec(s), max).top.value == n,
        quat_update_spec(quat_from_spec(s), max).right.value == n,
        quat_update_spec(quat_from_spec(s), max).bottom.value == n,
        quat_update_spec(quat_from_spec(s), max).left.value == n,
{
}

/// A two-token shorthand sets top and bottom to the first token and right
/// and left to the second.
pub proof fn lemma_two_token_sides(s: Seq<char>)
    requires
        tokens(s).len() == 2,
    ensures
        quat_from_spec(s).top == size_from_spec(tokens(s)[0]),
        quat_from_spec(s).bottom == size_from_spec(tokens(s)[0]),
        quat_from_spec(s).right == size_from_spec(tokens(s)[1]),
        quat_from_spec(s).left == size_from_spec(tokens(s)[1]),
{
}

/// An enumeration of one, two or four explicit edge values.
#[derive(Debug, Clone, Copy, PartialEq, Eq, Structural)]
pub enum Value {
    /// Four explicit values: top, right, bottom, left.
    Quat(i64, i64, i64, i64),
    /// Two values: top-and-bottom, right-and-left.
    Binary(i64, i64),
    /// One value for all four sides.
    Single(i64),
}

impl Default for Value {
    fn default() -> (r: Self)
        ensures
            r == Value::Single(0),
    {
        Value::Single(0)
    }
}

impl Value {
    /// The four sides in top, right, bottom, left order.
    pub fn value(&self) -> (r: (i64, i64, i64, i64))
        ensures
            r == match *self {
                Value::Quat(top, right, bottom, left) => (top, right, bottom, left),
                Value::Binary(tb, rl) => (tb, rl, tb, rl),
                Value::Single(v) => (v, v, v, v),
            },
    {
        match *self {
            Value::Quat(top, right, bottom, left) => (top, right, bottom, left),
            Value::Binary(tb, rl) => (tb, rl, tb, rl),
            Value::Single(v) => (v, v, v, v),
        }
    }
}

} // verus!
