//! Declarative elements and the builder that turns one element tree into
//! three structurally parallel trees.
//!
//! The render tree is complete: one node per declared element.  The event
//! tree and the data tree are sparse overlays: an element has an event
//! (respectively data) node exactly when its subtree declares a listener
//! (respectively a payload), so each overlay is the minimal subtree
//! connecting all declaring nodes to the root.  Every overlay node names
//! the arena index of its render-tree counterpart.

use vstd::prelude::*;

use crate::dom::{DomElement, DomLayout};
use crate::event::EventListener;
use crate::geom::{vsub_spec, Color, Quad, Rect};
use crate::id::{Counter, Id};
use crate::size::Size;
use crate::tree::Tree;

verus! {

/// The payload of a render-tree node: the element descriptor, together
/// with the block-layout and background-paint behavior the driver
/// invokes.
#[derive(Debug)]
pub struct Node {
    /// The node's element descriptor.
    pub dom: DomElement,
}

/// The paint command a node emits: its available box filled with its
/// background color.
pub open spec fn paint_quad_spec(s: DomLayout) -> Quad {
    Quad::new_spec(
        Rect {
            origin: s.ava_box.min,
            size: vsub_spec(s.ava_box.max, s.ava_box.min),
        },
        s.style.background_color,
    )
}

impl Node {
    /// The element descriptor.
    pub fn dom(&self) -> (r: &DomElement)
        ensures
            r == &self.dom,
    {
        &self.dom
    }

    /// The element descriptor, for mutation.
    pub fn dom_mut(&mut self) -> (r: &mut DomElement)
        ensures
            *r == old(self).dom,
            *final(self) == (Node { dom: *final(r) }),
    {
        &mut self.dom
    }

    /// The node's identity.
    pub fn node_id(&self) -> (r: Id)
        ensures
            r == self.dom.node_id,
    {
        self.dom.node_id()
    }

    /// The per-node layout hook: the geometry was already computed by the
    /// parent's step, so for every layout kind of the parent this makes
    /// no further adjustment and clears the dirty flag.
    pub fn layout(&mut self, parent: &DomElement)
        ensures
            *final(self) == (Node { dom: DomElement { dirty: false, ..old(self).dom } }),
    {
        let d = self.dom_mut();
        if d.is_dirty() {
            d.set_dirty(false);
        } else {
            proof {
                assert(*final(d) == (DomElement { dirty: false, ..old(self).dom }));
            }
        }
    }

    /// The per-node paint hook: one filled rectangle at the node's
    /// available box, in its background color.
    pub fn paint(&self) -> (q: Quad)
        requires
            self.dom.wf(),
        ensures
            q == paint_quad_spec(self.dom.layout_view()),
    {
        Quad::new(self.dom.ava_box().to_rect(), self.dom.background_color())
    }
}

/// An event-tree node: the arena index of its render-tree counterpart and
/// the listeners declared there (none, for a purely connecting node).
#[derive(Debug)]
pub struct EventObject {
    /// The render-tree index of the node this entry describes.
    pub node: usize,
    /// The listeners declared on that node.
    pub event: EventListener,
}

/// A data-tree node: the arena index of its render-tree counterpart and
/// the payload declared there (`None`, for a purely connecting node).
#[derive(Debug)]
pub struct DataObject<D> {
    /// The render-tree index of the node this entry describes.
    pub node: usize,
    /// The payload declared on that node.
    pub data: Option<D>,
}

/// A declarative element: a descriptor, optional listeners, an optional
/// payload, and child elements in order.
#[derive(Debug)]
pub struct Element<D> {
    /// The element's descriptor.
    pub dom: DomElement,
    /// The listeners the element declares.
    pub event: Option<EventListener>,
    /// The payload the element declares.
    pub data: Option<D>,
    /// The element's children, in order.
    pub children: Vec<Element<D>>,
}

/// The listener bundle of an element: what it declares, or the empty
/// bundle.
pub open spec fn listener_of<D>(e: Element<D>) -> EventListener {
    match e.event {
        Some(l) => l,
        None => EventListener::empty_spec(),
    }
}

/// Whether the element or some descendant declares a listener.
pub open spec fn has_listener_deep<D>(e: Element<D>) -> bool
    decreases e,
{
    e.event is Some || exists|i: int|
        0 <= i < e.children@.len() && has_listener_deep(#[trigger] e.children@[i])
}

/// Whether the element or some descendant declares a payload.
pub open spec fn has_data_deep<D>(e: Element<D>) -> bool
    decreases e,
{
    e.data is Some || exists|i: int|
        0 <= i < e.children@.len() && has_data_deep(#[trigger] e.children@[i])
}

/// The number of elements in the subtree rooted at `e`.
pub open spec fn elem_count<D>(e: Element<D>) -> int
    decreases e,
{
    1 + elem_count_kids(e.children@, 0)
}

/// The number of elements in the subtrees of `cs[j..]`.
pub open spec fn elem_count_kids<D>(cs: Seq<Element<D>>, j: int) -> int
    decreases cs, cs.len() - j,
{
    if j < 0 || j >= cs.len() {
        0
    } else {
        elem_count(cs[j]) + elem_count_kids(cs, j + 1)
    }
}

/// The number of event nodes the subtree rooted at `e` produces.
pub open spec fn event_count<D>(e: Element<D>) -> int
    decreases e,
{
    if has_listener_deep(e) {
        1 + event_count_kids(e.children@, 0)
    } else {
        0
    }
}

/// The number of event nodes the subtrees of `cs[j..]` produce.
pub open spec fn event_count_kids<D>(cs: Seq<Element<D>>, j: int) -> int
    decreases cs, cs.len() - j,
{
    if j < 0 || j >= cs.len() {
        0
    } else {
        event_count(cs[j]) + event_count_kids(cs, j + 1)
    }
}

/// The number of data nodes the subtree rooted at `e` produces.
pub open spec fn data_count<D>(e: Element<D>) -> int
    decreases e,
{
    if has_data_deep(e) {
        1 + data_count_kids(e.children@, 0)
    } else {
        0
    }
}

/// The number of data nodes the subtrees of `cs[j..]` produce.
pub open spec fn data_count_kids<D>(cs: Seq<Element<D>>, j: int) -> int
    decreases cs, cs.len() - j,
{
    if j < 0 || j >= cs.len() {
        0
    } else {
        data_count(cs[j]) + data_count_kids(cs, j + 1)
    }
}

/// The indices in `cs[j..]` of the children whose subtrees declare a
/// listener.
pub open spec fn listener_kids<D>(cs: Seq<Element<D>>, j: int) -> Seq<int>
    decreases cs.len() - j,
{
    if j < 0 || j >= cs.len() {
        Seq::empty()
    } else if has_listener_deep(cs[j]) {
        seq![j] + listener_kids(cs, j + 1)
    } else {
        listener_kids(cs, j + 1)
    }
}

/// The indices in `cs[j..]` of the children whose subtrees declare a
/// payload.
pub open spec fn data_kids<D>(cs: Seq<Element<D>>, j: int) -> Seq<int>
    decreases cs.len() - j,
{
    if j < 0 || j >= cs.len() {
        Seq::empty()
    } else if has_data_deep(cs[j]) {
        seq![j] + data_kids(cs, j + 1)
    } else {
        data_kids(cs, j + 1)
    }
}

/// Every subtree holds at least one element, and every count is
/// non-negative.
pub proof fn lemma_counts_nonneg<D>(cs: Seq<Element<D>>, j: int)
    ensures
        elem_count_kids(cs, j) >= 0,
        event_count_kids(cs, j) >= 0,
        data_count_kids(cs, j) >= 0,
    decreases cs, cs.len() - j,
{
    if 0 <= j < cs.len() {
        lemma_counts_nonneg(cs, j + 1);
        lemma_count_pos(cs[j]);
    }
}

/// One element's counts: at least one render node, and non-negative
/// overlay counts.
pub proof fn lemma_count_pos<D>(e: Element<D>)
    ensures
        elem_count(e) >= 1,
        event_count(e) >= 0,
        data_count(e) >= 0,
    decreases e,
{
    lemma_counts_nonneg(e.children@, 0);
}

/// The listener-kid indices of `cs[j..]` are at least `j`, below the
/// length, strictly increasing, and exactly the indices whose subtrees
/// declare a listener.
pub proof fn lemma_listener_kids_props<D>(cs: Seq<Element<D>>, j: int)
    ensures
        forall|k: int|
            0 <= k < listener_kids(cs, j).len() ==> j <= #[trigger] listener_kids(cs, j)[k]
                < cs.len() && has_listener_deep(cs[listener_kids(cs, j)[k]]),
        forall|k1: int, k2: int|
            0 <= k1 < k2 < listener_kids(cs, j).len() ==> #[trigger] listener_kids(cs, j)[k1]
                < #[trigger] listener_kids(cs, j)[k2],
    decreases cs.len() - j,
{
    if 0 <= j < cs.len() {
        lemma_listener_kids_props(cs, j + 1);
        let l = listener_kids(cs, j);
        let rest = listener_kids(cs, j + 1);
        if has_listener_deep(cs[j]) {
            assert(l == seq![j] + rest);
            assert forall|k: int|
                0 <= k < l.len() implies j <= #[trigger] l[k] < cs.len() && has_listener_deep(
                cs[l[k]],
            ) by {
                if k == 0 {
                    assert(l[0] == j);
                } else {
                    assert(l[k] == rest[k - 1]);
                }
            }
            assert forall|k1: int, k2: int|
                0 <= k1 < k2 < l.len() implies #[trigger] l[k1] < #[trigger] l[k2] by {
                assert(l[k2] == rest[k2 - 1]);
                if k1 == 0 {
                    assert(l[0] == j);
                    assert(j + 1 <= rest[k2 - 1]);
                } else {
                    assert(l[k1] == rest[k1 - 1]);
                }
            }
        }
    }
}

/// The data-kid indices of `cs[j..]` are at least `j`, below the length,
/// strictly increasing, and exactly the indices whose subtrees declare a
/// payload.
pub proof fn lemma_data_kids_props<D>(cs: Seq<Element<D>>, j: int)
    ensures
        forall|k: int|
            0 <= k < data_kids(cs, j).len() ==> j <= #[trigger] data_kids(cs, j)[k] < cs.len()
                && has_data_deep(cs[data_kids(cs, j)[k]]),
        forall|k1: int, k2: int|
            0 <= k1 < k2 < data_kids(cs, j).len() ==> #[trigger] data_kids(cs, j)[k1]
                < #[trigger] data_kids(cs, j)[k2],
    decreases cs.len() - j,
{
    if 0 <= j < cs.len() {
        lemma_data_kids_props(cs, j + 1);
        let l = data_kids(cs, j);
        let rest = data_kids(cs, j + 1);
        if has_data_deep(cs[j]) {
            assert(l == seq![j] + rest);
            assert forall|k: int|
                0 <= k < l.len() implies j <= #[trigger] l[k] < cs.len() && has_data_deep(
                cs[l[k]],
            ) by {
                if k == 0 {
                    assert(l[0] == j);
                } else {
                    assert(l[k] == rest[k - 1]);
                }
            }
            assert forall|k1: int, k2: int|
                0 <= k1 < k2 < l.len() implies #[trigger] l[k1] < #[trigger] l[k2] by {
                assert(l[k2] == rest[k2 - 1]);
                if k1 == 0 {
                    assert(l[0] == j);
                    assert(j + 1 <= rest[k2 - 1]);
                } else {
                    assert(l[k1] == rest[k1 - 1]);
                }
            }
        }
    }
}

/// That the subtree of render-tree node `n` mirrors the element `e`: the
/// node carries `e`'s descriptor, has exactly one child per child of `e`,
/// in order and at larger indices, and each child subtree mirrors the
/// corresponding child element.  With the node count this makes the
/// render tree complete: one node per declared element.
pub open spec fn render_matches<D>(t: Tree<Node>, n: int, e: Element<D>) -> bool
    decreases e,
{
    &&& 0 <= n < t.nodes.len()
    &&& t.nodes[n].data.dom == e.dom
    &&& t.nodes[n].children@.len() == e.children@.len()
    &&& forall|i: int|
        0 <= i < e.children@.len() ==> n < (#[trigger] t.nodes[n].children@[i]) as int
            && (t.nodes[n].children@[i] as int) < t.nodes.len() && render_matches(
            t,
            t.nodes[n].children@[i] as int,
            e.children@[i],
        )
}

/// That the subtree of event-tree node `en` is the overlay of the element
/// `e`, whose render node is `rn`: the entry names `rn` and carries `e`'s
/// declared listeners, and has one child per listener-declaring child
/// subtree of `e`, in order.
pub open spec fn event_matches<D>(
    et: Tree<EventObject>,
    en: int,
    e: Element<D>,
    rt: Tree<Node>,
    rn: int,
) -> bool
    decreases e,
{
    let lcs = listener_kids(e.children@, 0);
    &&& 0 <= en < et.nodes.len()
    &&& et.nodes[en].data.node as int == rn
    &&& et.nodes[en].data.event == listener_of(e)
    &&& et.nodes[en].children@.len() == lcs.len()
    &&& forall|i: int|
        0 <= i < lcs.len() ==> en < (#[trigger] et.nodes[en].children@[i]) as int
            && (et.nodes[en].children@[i] as int) < et.nodes.len() && 0 <= lcs[i]
            < e.children@.len() && event_matches(
            et,
            et.nodes[en].children@[i] as int,
            e.children@[lcs[i]],
            rt,
            rt.nodes[rn].children@[lcs[i]] as int,
        )
}

/// That the subtree of data-tree node `dn` is the overlay of the element
/// `e`, whose render node is `rn`: the entry names `rn` and carries `e`'s
/// declared payload, and has one child per payload-declaring child
/// subtree of `e`, in order.
pub open spec fn data_matches<D>(
    dt: Tree<DataObject<D>>,
    dn: int,
    e: Element<D>,
    rt: Tree<Node>,
    rn: int,
) -> bool
    decreases e,
{
    let dcs = data_kids(e.children@, 0);
    &&& 0 <= dn < dt.nodes.len()
    &&& dt.nodes[dn].data.node as int == rn
    &&& dt.nodes[dn].data.data == e.data
    &&& dt.nodes[dn].children@.len() == dcs.len()
    &&& forall|i: int|
        0 <= i < dcs.len() ==> dn < (#[trigger] dt.nodes[dn].children@[i]) as int
            && (dt.nodes[dn].children@[i] as int) < dt.nodes.len() && 0 <= dcs[i]
            < e.children@.len() && data_matches(
            dt,
            dt.nodes[dn].children@[i] as int,
            e.children@[dcs[i]],
            rt,
            rt.nodes[rn].children@[dcs[i]] as int,
        )
}

impl<D> Element<D> {
    /// A fresh element with the given tag and no listeners, payload or
    /// children, its identity drawn from the counter.
    pub fn new(tag: &str, counter: &mut Counter) -> (r: Self)
        requires
            old(counter).wf(),
            old(counter).value < u64::MAX,
        ensures
            r.dom.node_id.0 == old(counter).value,
            final(counter).value == old(counter).value + 1,
            final(counter).wf(),
            r.dom.tag@ == tag@,
            r.dom.wf(),
            r.dom.dirty,
            r.event is None,
            r.data is None,
            r.children@ == Seq::<Element<D>>::empty(),
    {
        Element { dom: DomElement::new(tag, counter), event: None, data: None, children: Vec::new() }
    }

    /// Declare a click listener on this element.
    pub fn onclick(self) -> (r: Self)
        ensures
            r.dom == self.dom,
            r.data == self.data,
            r.children == self.children,
            r.event matches Some(l) && l.onclick,
            listener_of(r) == (EventListener { onclick: true, ..listener_of(self) }),
    {
        let Element { dom, event, data, children } = self;
        let mut l = match event {
            Some(l) => l,
            None => EventListener::default(),
        };
        l.onclick = true;
        Element { dom, event: Some(l), data, children }
    }

    /// Declare the element's width.
    pub fn width(self, width: Size) -> (r: Self)
        ensures
            r.dom == (DomElement {
                style: crate::style::Style { width, ..self.dom.style },
                dirty: true,
                ..self.dom
            }),
            r.event == self.event,
            r.data == self.data,
            r.children == self.children,
    {
        let Element { mut dom, event, data, children } = self;
        dom.set_width(width);
        Element { dom, event, data, children }
    }

    /// Declare the element's height.
    pub fn height(self, height: Size) -> (r: Self)
        ensures
            r.dom == (DomElement {
                style: crate::style::Style { height, ..self.dom.style },
                dirty: true,
                ..self.dom
            }),
            r.event == self.event,
            r.data == self.data,
            r.children == self.children,
    {
        let Element { mut dom, event, data, children } = self;
        dom.set_height(height);
        Element { dom, event, data, children }
    }

    /// Declare the element's background color.
    pub fn background_color(self, background_color: Color) -> (r: Self)
        ensures
            r.dom == (DomElement {
                style: crate::style::Style { background_color, ..self.dom.style },
                dirty: true,
                ..self.dom
            }),
            r.event == self.event,
            r.data == self.data,
            r.children == self.children,
    {
        let Element { mut dom, event, data, children } = self;
        dom.set_background_color(background_color);
        Element { dom, event, data, children }
    }

    /// Attach a typed payload to this element.
    pub fn data(self, data: D) -> (r: Self)
        ensures
            r.dom == self.dom,
            r.event == self.event,
            r.children == self.children,
            r.data == Some(data),
    {
        let Element { dom, event, data: _, children } = self;
        Element { dom, event, data: Some(data), children }
    }

    /// Attach one child element.
    pub fn child(self, child: Self) -> (r: Self)
        ensures
            r.dom == self.dom,
            r.event == self.event,
            r.data == self.data,
            r.children@ == self.children@.push(child),
    {
        let Element { dom, event, data, mut children } = self;
        children.push(child);
        Element { dom, event, data, children }
    }

    /// Attach a list of child elements, in order.
    pub fn children(self, mut children: Vec<Self>) -> (r: Self)
        ensures
            r.dom == self.dom,
            r.event == self.event,
            r.data == self.data,
            r.children@ == self.children@ + children@,
    {
        let Element { dom, event, data, children: mut cs } = self;
        cs.append(&mut children);
        Element { dom, event, data, children: cs }
    }

    /// Whether the element or some descendant declares a listener.
    pub fn has_listener_deep(&self) -> (r: bool)
        ensures
            r == has_listener_deep(*self),
        decreases *self,
    {
        if self.event.is_some() {
            return true;
        }
        let n = self.children.len();
        let mut i: usize = 0;
        while i < n
            invariant
                i <= n,
                n == self.children@.len(),
                self.event is None,
                forall|j: int| 0 <= j < i ==> !has_listener_deep(#[trigger] self.children@[j]),
            decreases n - i,
        {
            let c = &self.children[i];
            if c.has_listener_deep() {
                return true;
            }
            i += 1;
        }
        false
    }

    /// Whether the element or some descendant declares a payload.
    pub fn has_data_deep(&self) -> (r: bool)
        ensures
            r == has_data_deep(*self),
        decreases *self,
    {
        if self.data.is_some() {
            return true;
        }
        let n = self.children.len();
        let mut i: usize = 0;
        while i < n
            invariant
                i <= n,
                n == self.children@.len(),
                self.data is None,
                forall|j: int| 0 <= j < i ==> !has_data_deep(#[trigger] self.children@[j]),
            decreases n - i,
        {
            let c = &self.children[i];
            if c.has_data_deep() {
                return true;
            }
            i += 1;
        }
        false
    }
}

/// A mirror claim about a render subtree survives growing the arena, as
/// long as the slots from `n` on are unchanged.
pub proof fn lemma_render_matches_frame<D>(t1: Tree<Node>, t2: Tree<Node>, n: int, e: Element<D>)
    requires
        render_matches(t1, n, e),
        t1.nodes.len() <= t2.nodes.len(),
        forall|m: int| n <= m < t1.nodes.len() ==> t2.nodes[m] == t1.nodes[m],
    ensures
        render_matches(t2, n, e),
    decreases e,
{
    assert forall|i: int|
        0 <= i < e.children@.len() implies n < (#[trigger] t2.nodes[n].children@[i]) as int && (
    t2.nodes[n].children@[i] as int) < t2.nodes.len() && render_matches(
        t2,
        t2.nodes[n].children@[i] as int,
        e.children@[i],
    ) by {
        let cn = t1.nodes[n].children@[i] as int;
        lemma_render_matches_frame(t1, t2, cn, e.children@[i]);
    }
}

/// An overlay claim about an event subtree survives growing either arena,
/// as long as the event slots from `en` on and the render slots from `rn`
/// on are unchanged.
pub proof fn lemma_event_matches_frame<D>(
    e1: Tree<EventObject>,
    e2: Tree<EventObject>,
    en: int,
    e: Element<D>,
    r1: Tree<Node>,
    r2: Tree<Node>,
    rn: int,
)
    requires
        event_matches(e1, en, e, r1, rn),
        render_matches(r1, rn, e),
        e1.nodes.len() <= e2.nodes.len(),
        forall|m: int| en <= m < e1.nodes.len() ==> e2.nodes[m] == e1.nodes[m],
        r1.nodes.len() <= r2.nodes.len(),
        forall|m: int| rn <= m < r1.nodes.len() ==> r2.nodes[m] == r1.nodes[m],
    ensures
        event_matches(e2, en, e, r2, rn),
    decreases e,
{
    let lcs = listener_kids(e.children@, 0);
    assert forall|i: int|
        0 <= i < lcs.len() implies en < (#[trigger] e2.nodes[en].children@[i]) as int && (e2.nodes[
        en].children@[i] as int) < e2.nodes.len() && 0 <= lcs[i] < e.children@.len()
        && event_matches(
        e2,
        e2.nodes[en].children@[i] as int,
        e.children@[lcs[i]],
        r2,
        r2.nodes[rn].children@[lcs[i]] as int,
    ) by {
        let cn = e1.nodes[en].children@[i] as int;
        let rcn = r1.nodes[rn].children@[lcs[i]] as int;
        lemma_event_matches_frame(e1, e2, cn, e.children@[lcs[i]], r1, r2, rcn);
    }
}

/// An overlay claim about a data subtree survives growing either arena,
/// as long as the data slots from `dn` on and the render slots from `rn`
/// on are unchanged.
pub proof fn lemma_data_matches_frame<D>(
    d1: Tree<DataObject<D>>,
    d2: Tree<DataObject<D>>,
    dn: int,
    e: Element<D>,
    r1: Tree<Node>,
    r2: Tree<Node>,
    rn: int,
)
    requires
        data_matches(d1, dn, e, r1, rn),
        render_matches(r1, rn, e),
        d1.nodes.len() <= d2.nodes.len(),
        forall|m: int| dn <= m < d1.nodes.len() ==> d2.nodes[m] == d1.nodes[m],
        r1.nodes.len() <= r2.nodes.len(),
        forall|m: int| rn <= m < r1.nodes.len() ==> r2.nodes[m] == r1.nodes[m],
    ensures
        data_matches(d2, dn, e, r2, rn),
    decreases e,
{
    let dcs = data_kids(e.children@, 0);
    assert forall|i: int|
        0 <= i < dcs.len() implies dn < (#[trigger] d2.nodes[dn].children@[i]) as int && (d2.nodes[
        dn].children@[i] as int) < d2.nodes.len() && 0 <= dcs[i] < e.children@.len()
        && data_matches(
        d2,
        d2.nodes[dn].children@[i] as int,
        e.children@[dcs[i]],
        r2,
        r2.nodes[rn].children@[dcs[i]] as int,
    ) by {
        let cn = d1.nodes[dn].children@[i] as int;
        let rcn = r1.nodes[rn].children@[dcs[i]] as int;
        lemma_data_matches_frame(d1, d2, cn, e.children@[dcs[i]], r1, r2, rcn);
    }
}

/// Where no child subtree declares a listener, there are no listener kids
/// and no event nodes at all.
pub proof fn lemma_no_listener_kids<D>(cs: Seq<Element<D>>, j: int)
    requires
        forall|i: int| 0 <= i < cs.len() ==> !has_listener_deep(#[trigger] cs[i]),
    ensures
        listener_kids(cs, j).len() == 0,
        event_count_kids(cs, j) == 0,
    decreases cs.len() - j,
{
    if 0 <= j < cs.len() {
        lemma_no_listener_kids(cs, j + 1);
        assert(!has_listener_deep(cs[j]));
        assert(event_count(cs[j]) == 0);
    }
}

/// Where no child subtree declares a payload, there are no data kids and
/// no data nodes at all.
pub proof fn lemma_no_data_kids<D>(cs: Seq<Element<D>>, j: int)
    requires
        forall|i: int| 0 <= i < cs.len() ==> !has_data_deep(#[trigger] cs[i]),
    ensures
        data_kids(cs, j).len() == 0,
        data_count_kids(cs, j) == 0,
    decreases cs.len() - j,
{
    if 0 <= j < cs.len() {
        lemma_no_data_kids(cs, j + 1);
        assert(!has_data_deep(cs[j]));
        assert(data_count(cs[j]) == 0);
    }
}


/// Counts over a suffix only shrink as the suffix shortens.
pub proof fn lemma_counts_suffix_le<D>(cs: Seq<Element<D>>, a: int, b: int)
    requires
        0 <= a <= b,
    ensures
        elem_count_kids(cs, a) >= elem_count_kids(cs, b),
        event_count_kids(cs, a) >= event_count_kids(cs, b),
        data_count_kids(cs, a) >= data_count_kids(cs, b),
    decreases b - a,
{
    if a < b {
        lemma_counts_suffix_le(cs, a + 1, b);
        if a < cs.len() {
            lemma_count_pos(cs[a]);
        }
        if b >= cs.len() {
            lemma_counts_nonneg(cs, a);
            lemma_counts_nonneg(cs, b);
        }
    }
}

/// Build the subtrees for the children `cs`, appending under the render
/// node `rp`, the event node `ep` and the data node `dp`.  Each child gets
/// one render node; it gets an event (respectively data) node exactly
/// when its subtree declares a listener (respectively payload), attached
/// under `ep` (respectively `dp`).
#[verifier::rlimit(100)]
#[verifier::spinoff_prover]
fn build_children<D>(
    cs: Vec<Element<D>>,
    rt: &mut Tree<Node>,
    rp: usize,
    et: &mut Tree<EventObject>,
    ep: usize,
    dt: &mut Tree<DataObject<D>>,
    dp: usize,
)
    requires
        old(rt).wf(),
        old(et).wf(),
        old(dt).wf(),
        rp < old(rt).nodes.len(),
        ep < old(et).nodes.len(),
        dp < old(dt).nodes.len(),
        old(rt).nodes[rp as int].children@ == Seq::<usize>::empty(),
        listener_kids(cs@, 0).len() > 0 ==> old(et).nodes[ep as int].children@
            == Seq::<usize>::empty(),
        data_kids(cs@, 0).len() > 0 ==> old(dt).nodes[dp as int].children@
            == Seq::<usize>::empty(),
        old(rt).nodes.len() + elem_count_kids(cs@, 0) <= usize::MAX,
        old(et).nodes.len() + event_count_kids(cs@, 0) <= usize::MAX,
        old(dt).nodes.len() + data_count_kids(cs@, 0) <= usize::MAX,
    ensures
        final(rt).wf(),
        final(et).wf(),
        final(dt).wf(),
        final(rt).nodes.len() == old(rt).nodes.len() + elem_count_kids(cs@, 0),
        forall|m: int|
            0 <= m < old(rt).nodes.len() && m != rp ==> final(rt).nodes[m] == old(rt).nodes[m],
        final(rt).nodes[rp as int].data == old(rt).nodes[rp as int].data,
        final(rt).nodes[rp as int].parent == old(rt).nodes[rp as int].parent,
        final(rt).nodes[rp as int].children@.len() == cs@.len(),
        forall|i: int|
            0 <= i < cs@.len() ==> rp < (#[trigger] final(rt).nodes[rp as int].children@[i]) as int
                && (final(rt).nodes[rp as int].children@[i] as int) < final(rt).nodes.len()
                && render_matches(
                *final(rt),
                final(rt).nodes[rp as int].children@[i] as int,
                cs@[i],
            ),
        final(et).nodes.len() == old(et).nodes.len() + event_count_kids(cs@, 0),
        forall|m: int|
            0 <= m < old(et).nodes.len() && m != ep ==> final(et).nodes[m] == old(et).nodes[m],
        final(et).nodes[ep as int].data == old(et).nodes[ep as int].data,
        final(et).nodes[ep as int].parent == old(et).nodes[ep as int].parent,
        final(et).nodes[ep as int].children@.len() == old(et).nodes[ep as int].children@.len()
            + listener_kids(cs@, 0).len(),
        forall|i: int|
            0 <= i < old(et).nodes[ep as int].children@.len() ==> #[trigger] final(et).nodes[
                ep as int].children@[i] == old(et).nodes[ep as int].children@[i],
        forall|i: int|
            0 <= i < listener_kids(cs@, 0).len() ==> ep < (#[trigger] final(et).nodes[
                ep as int].children@[old(et).nodes[ep as int].children@.len() + i]) as int
                && (final(et).nodes[ep as int].children@[old(et).nodes[
                ep as int].children@.len() + i] as int) < final(et).nodes.len() && 0
                <= listener_kids(cs@, 0)[i] < cs@.len() && event_matches(
                *final(et),
                final(et).nodes[ep as int].children@[old(et).nodes[
                    ep as int].children@.len() + i] as int,
                cs@[listener_kids(cs@, 0)[i]],
                *final(rt),
                final(rt).nodes[rp as int].children@[listener_kids(cs@, 0)[i]] as int,
            ),
        final(dt).nodes.len() == old(dt).nodes.len() + data_count_kids(cs@, 0),
        forall|m: int|
            0 <= m < old(dt).nodes.len() && m != dp ==> final(dt).nodes[m] == old(dt).nodes[m],
        final(dt).nodes[dp as int].data == old(dt).nodes[dp as int].data,
        final(dt).nodes[dp as int].parent == old(dt).nodes[dp as int].parent,
        final(dt).nodes[dp as int].children@.len() == old(dt).nodes[dp as int].children@.len()
            + data_kids(cs@, 0).len(),
        forall|i: int|
            0 <= i < old(dt).nodes[dp as int].children@.len() ==> #[trigger] final(dt).nodes[
                dp as int].children@[i] == old(dt).nodes[dp as int].children@[i],
        forall|i: int|
            0 <= i < data_kids(cs@, 0).len() ==> dp < (#[trigger] final(dt).nodes[
                dp as int].children@[old(dt).nodes[dp as int].children@.len() + i]) as int
                && (final(dt).nodes[dp as int].children@[old(dt).nodes[
                dp as int].children@.len() + i] as int) < final(dt).nodes.len() && 0
                <= data_kids(cs@, 0)[i] < cs@.len() && data_matches(
                *final(dt),
                final(dt).nodes[dp as int].children@[old(dt).nodes[
                    dp as int].children@.len() + i] as int,
                cs@[data_kids(cs@, 0)[i]],
                *final(rt),
                final(rt).nodes[rp as int].children@[data_kids(cs@, 0)[i]] as int,
            ),
    decreases elem_count_kids(cs@, 0),
{
    let ghost cs0 = cs@;
    let ghost rt0 = *old(rt);
    let ghost et0 = *old(et);
    let ghost dt0 = *old(dt);
    let ghost lcs_full = listener_kids(cs0, 0);
    let ghost dcs_full = data_kids(cs0, 0);
    let ghost ep0_len = et0.nodes[ep as int].children@.len() as int;
    let ghost dp0_len = dt0.nodes[dp as int].children@.len() as int;
    proof {
        lemma_listener_kids_props(cs0, 0);
        lemma_data_kids_props(cs0, 0);
        lemma_counts_nonneg(cs0, 0);
    }
    let mut rest = cs;
    let n0 = rest.len();
    let mut i: usize = 0;
    let ghost mut k_e: int = 0;
    let ghost mut k_d: int = 0;
    while rest.len() > 0
        invariant
            n0 == cs0.len(),
            rt.wf(),
            et.wf(),
            dt.wf(),
            rp < rt0.nodes.len(),
            ep < et0.nodes.len(),
            dp < dt0.nodes.len(),
            rt0.nodes.len() <= rt.nodes.len(),
            et0.nodes.len() <= et.nodes.len(),
            dt0.nodes.len() <= dt.nodes.len(),
            rt0.nodes[rp as int].children@ == Seq::<usize>::empty(),
            lcs_full.len() > 0 ==> et0.nodes[ep as int].children@ == Seq::<usize>::empty(),
            dcs_full.len() > 0 ==> dt0.nodes[dp as int].children@ == Seq::<usize>::empty(),
            lcs_full == listener_kids(cs0, 0),
            dcs_full == data_kids(cs0, 0),
            ep0_len == et0.nodes[ep as int].children@.len(),
            dp0_len == dt0.nodes[dp as int].children@.len(),
            0 <= i <= n0,
            rest@ == cs0.skip(i as int),
            rt0.nodes.len() + elem_count_kids(cs0, 0) <= usize::MAX,
            et0.nodes.len() + event_count_kids(cs0, 0) <= usize::MAX,
            dt0.nodes.len() + data_count_kids(cs0, 0) <= usize::MAX,
            elem_count_kids(cs0, 0) == elem_count_kids(cs@, 0),
            rt.nodes.len() == rt0.nodes.len() + elem_count_kids(cs0, 0) - elem_count_kids(
                cs0,
                i as int,
            ),
            forall|m: int| 0 <= m < rt0.nodes.len() && m != rp ==> rt.nodes[m] == rt0.nodes[m],
            rt.nodes[rp as int].data == rt0.nodes[rp as int].data,
            rt.nodes[rp as int].parent == rt0.nodes[rp as int].parent,
            rt.nodes[rp as int].children@.len() == i,
            forall|j: int|
                0 <= j < i ==> rp < (#[trigger] rt.nodes[rp as int].children@[j]) as int && (
                rt.nodes[rp as int].children@[j] as int) < rt.nodes.len() && render_matches(
                    *rt,
                    rt.nodes[rp as int].children@[j] as int,
                    cs0[j],
                ),
            et.nodes.len() == et0.nodes.len() + event_count_kids(cs0, 0) - event_count_kids(
                cs0,
                i as int,
            ),
            forall|m: int| 0 <= m < et0.nodes.len() && m != ep ==> et.nodes[m] == et0.nodes[m],
            et.nodes[ep as int].data == et0.nodes[ep as int].data,
            et.nodes[ep as int].parent == et0.nodes[ep as int].parent,
            0 <= k_e <= lcs_full.len(),
            lcs_full.skip(k_e) == listener_kids(cs0, i as int),
            et.nodes[ep as int].children@.len() == ep0_len + k_e,
            forall|m: int|
                0 <= m < ep0_len ==> #[trigger] et.nodes[ep as int].children@[m] == et0.nodes[
                    ep as int].children@[m],
            forall|m: int|
                0 <= m < k_e ==> ep < (#[trigger] et.nodes[ep as int].children@[ep0_len + m]) as int
                    && (et.nodes[ep as int].children@[ep0_len + m] as int) < et.nodes.len() && 0
                    <= lcs_full[m] < i && event_matches(
                    *et,
                    et.nodes[ep as int].children@[ep0_len + m] as int,
                    cs0[lcs_full[m]],
                    *rt,
                    rt.nodes[rp as int].children@[lcs_full[m]] as int,
                ),
            dt.nodes.len() == dt0.nodes.len() + data_count_kids(cs0, 0) - data_count_kids(
                cs0,
                i as int,
            ),
            forall|m: int| 0 <= m < dt0.nodes.len() && m != dp ==> dt.nodes[m] == dt0.nodes[m],
            dt.nodes[dp as int].data == dt0.nodes[dp as int].data,
            dt.nodes[dp as int].parent == dt0.nodes[dp as int].parent,
            0 <= k_d <= dcs_full.len(),
            dcs_full.skip(k_d) == data_kids(cs0, i as int),
            dt.nodes[dp as int].children@.len() == dp0_len + k_d,
            forall|m: int|
                0 <= m < dp0_len ==> #[trigger] dt.nodes[dp as int].children@[m] == dt0.nodes[
                    dp as int].children@[m],
            forall|m: int|
                0 <= m < k_d ==> dp < (#[trigger] dt.nodes[dp as int].children@[dp0_len + m]) as int
                    && (dt.nodes[dp as int].children@[dp0_len + m] as int) < dt.nodes.len() && 0
                    <= dcs_full[m] < i && data_matches(
                    *dt,
                    dt.nodes[dp as int].children@[dp0_len + m] as int,
                    cs0[dcs_full[m]],
                    *rt,
                    rt.nodes[rp as int].children@[dcs_full[m]] as int,
                ),
        decreases cs0.len() - i,
    {
        let ghost rt_a = *rt;
        let ghost et_a = *et;
        let ghost dt_a = *dt;
        let c = rest.remove(0);
        let ghost c_g = c;
        proof {
            assert(rest@ =~= cs0.skip(i + 1));
            assert(c_g == cs0[i as int]);
            assert(elem_count_kids(cs0, i as int) == elem_count(cs0[i as int]) + elem_count_kids(
                cs0,
                i + 1,
            ));
            assert(event_count_kids(cs0, i as int) == event_count(cs0[i as int])
                + event_count_kids(cs0, i + 1));
            assert(data_count_kids(cs0, i as int) == data_count(cs0[i as int]) + data_count_kids(
                cs0,
                i + 1,
            ));
            lemma_counts_nonneg(cs0, i + 1);
            lemma_counts_nonneg(c_g.children@, 0);
            lemma_count_pos(c_g);
            lemma_counts_suffix_le(cs0, 0, i as int);
        }
        let c_has_e = c.has_listener_deep();
        let c_has_d = c.has_data_deep();
        let Element { dom, event, data, children } = c;
        let rc = rt.append(rp, Node { dom });
        let ec: usize = if c_has_e {
            let l = match event {
                Some(l) => l,
                None => EventListener::default(),
            };
            et.append(ep, EventObject { node: rc, event: l })
        } else {
            ep
        };
        let dc: usize = if c_has_d {
            dt.append(dp, DataObject { node: rc, data })
        } else {
            dp
        };
        let ghost rt_b = *rt;
        let ghost et_b = *et;
        let ghost dt_b = *dt;
        proof {
            if !c_has_e {
                assert forall|j: int|
                    0 <= j < c_g.children@.len() implies !has_listener_deep(
                    #[trigger] c_g.children@[j],
                ) by {}
                lemma_no_listener_kids(c_g.children@, 0);
            }
            if !c_has_d {
                assert forall|j: int|
                    0 <= j < c_g.children@.len() implies !has_data_deep(
                    #[trigger] c_g.children@[j],
                ) by {}
                lemma_no_data_kids(c_g.children@, 0);
            }
            assert(elem_count(c_g) == 1 + elem_count_kids(c_g.children@, 0));
            if c_has_e {
                assert(event_count(c_g) == 1 + event_count_kids(c_g.children@, 0));
            } else {
                assert(event_count(c_g) == 0);
            }
            if c_has_d {
                assert(data_count(c_g) == 1 + data_count_kids(c_g.children@, 0));
            } else {
                assert(data_count(c_g) == 0);
            }
            // the recursion's termination measure shrinks
            assert(elem_count_kids(children@, 0) < elem_count_kids(cs0, 0));
        }
        build_children(children, rt, rc, et, ec, dt, dc);
        proof {
            // the freshly built child subtree mirrors the element
            assert(rt.nodes[rc as int].data.dom == c_g.dom);
            assert(rt.nodes[rc as int].children@.len() == c_g.children@.len());
            assert(render_matches(*rt, rc as int, c_g));
            // earlier siblings survive: their slots are untouched
            assert forall|j: int|
                0 <= j < i implies rp < (#[trigger] rt.nodes[rp as int].children@[j]) as int && (
            rt.nodes[rp as int].children@[j] as int) < rt.nodes.len() && render_matches(
                *rt,
                rt.nodes[rp as int].children@[j] as int,
                cs0[j],
            ) by {
                let cj = rt_a.nodes[rp as int].children@[j] as int;
                assert(rt.nodes[rp as int].children@[j] == rt_a.nodes[rp as int].children@[j]);
                lemma_render_matches_frame(rt_a, *rt, cj, cs0[j]);
            }
            assert forall|m: int|
                0 <= m < k_e implies ep < (#[trigger] et.nodes[ep as int].children@[ep0_len
                + m]) as int && (et.nodes[ep as int].children@[ep0_len + m] as int)
                < et.nodes.len() && 0 <= lcs_full[m] < i + 1 && event_matches(
                *et,
                et.nodes[ep as int].children@[ep0_len + m] as int,
                cs0[lcs_full[m]],
                *rt,
                rt.nodes[rp as int].children@[lcs_full[m]] as int,
            ) by {
                let em = et_a.nodes[ep as int].children@[ep0_len + m] as int;
                let rm = rt_a.nodes[rp as int].children@[lcs_full[m]] as int;
                assert(et.nodes[ep as int].children@[ep0_len + m] == et_a.nodes[
                    ep as int].children@[ep0_len + m]);
                assert(rt.nodes[rp as int].children@[lcs_full[m]] == rt_a.nodes[
                    rp as int].children@[lcs_full[m]]);
                lemma_event_matches_frame(et_a, *et, em, cs0[lcs_full[m]], rt_a, *rt, rm);
                lemma_render_matches_frame(rt_a, *rt, rm, cs0[lcs_full[m]]);
            }
            assert forall|m: int|
                0 <= m < k_d implies dp < (#[trigger] dt.nodes[dp as int].children@[dp0_len
                + m]) as int && (dt.nodes[dp as int].children@[dp0_len + m] as int)
                < dt.nodes.len() && 0 <= dcs_full[m] < i + 1 && data_matches(
                *dt,
                dt.nodes[dp as int].children@[dp0_len + m] as int,
                cs0[dcs_full[m]],
                *rt,
                rt.nodes[rp as int].children@[dcs_full[m]] as int,
            ) by {
                let em = dt_a.nodes[dp as int].children@[dp0_len + m] as int;
                let rm = rt_a.nodes[rp as int].children@[dcs_full[m]] as int;
                assert(dt.nodes[dp as int].children@[dp0_len + m] == dt_a.nodes[
                    dp as int].children@[dp0_len + m]);
                assert(rt.nodes[rp as int].children@[dcs_full[m]] == rt_a.nodes[
                    rp as int].children@[dcs_full[m]]);
                lemma_data_matches_frame(dt_a, *dt, em, cs0[dcs_full[m]], rt_a, *rt, rm);
                lemma_render_matches_frame(rt_a, *rt, rm, cs0[dcs_full[m]]);
            }
            // the new event node, where one was made
            if c_has_e {
                assert(listener_kids(cs0, i as int) == seq![i as int] + listener_kids(
                    cs0,
                    i + 1,
                ));
                assert(lcs_full[k_e] == i as int) by {
                    assert(lcs_full.skip(k_e)[0] == (seq![i as int] + listener_kids(cs0, i + 1))[
                        0]);
                }
                assert(lcs_full.skip(k_e + 1) =~= listener_kids(cs0, i + 1)) by {
                    assert forall|x: int|
                        0 <= x < lcs_full.skip(k_e + 1).len() implies #[trigger] lcs_full.skip(
                        k_e + 1,
                    )[x] == listener_kids(cs0, i + 1)[x] by {
                        assert(lcs_full.skip(k_e)[x + 1] == (seq![i as int] + listener_kids(
                            cs0,
                            i + 1,
                        ))[x + 1]);
                    }
                }
                assert(et.nodes[ep as int].children@[ep0_len + k_e] == ec);
                assert(et.nodes[ec as int].data.node == rc);
                assert(et.nodes[ec as int].data.event == listener_of(c_g));
                assert(et_b.nodes[ec as int].children@.len() == 0);
                assert(et.nodes[ec as int].children@.len() == listener_kids(
                    c_g.children@,
                    0,
                ).len());
                let lcs_c = listener_kids(c_g.children@, 0);
                assert forall|x: int|
                    0 <= x < lcs_c.len() implies ec < (#[trigger] et.nodes[
                    ec as int].children@[x]) as int && (et.nodes[ec as int].children@[x] as int)
                    < et.nodes.len() && 0 <= lcs_c[x] < c_g.children@.len() && event_matches(
                    *et,
                    et.nodes[ec as int].children@[x] as int,
                    c_g.children@[lcs_c[x]],
                    *rt,
                    rt.nodes[rc as int].children@[lcs_c[x]] as int,
                ) by {
                    assert(et.nodes[ec as int].children@[et_b.nodes[ec as int].children@.len()
                        + x] == et.nodes[ec as int].children@[x]);
                }
                assert(event_matches(*et, ec as int, c_g, *rt, rc as int));
                k_e = k_e + 1;
            } else {
                assert(listener_kids(cs0, i as int) == listener_kids(cs0, i + 1));
            }
            if c_has_d {
                assert(data_kids(cs0, i as int) == seq![i as int] + data_kids(cs0, i + 1));
                assert(dcs_full[k_d] == i as int) by {
                    assert(dcs_full.skip(k_d)[0] == (seq![i as int] + data_kids(cs0, i + 1))[0]);
                }
                assert(dcs_full.skip(k_d + 1) =~= data_kids(cs0, i + 1)) by {
                    assert forall|x: int|
                        0 <= x < dcs_full.skip(k_d + 1).len() implies #[trigger] dcs_full.skip(
                        k_d + 1,
                    )[x] == data_kids(cs0, i + 1)[x] by {
                        assert(dcs_full.skip(k_d)[x + 1] == (seq![i as int] + data_kids(
                            cs0,
                            i + 1,
                        ))[x + 1]);
                    }
                }
                assert(dt.nodes[dp as int].children@[dp0_len + k_d] == dc);
                assert(dt.nodes[dc as int].data.node == rc);
                assert(dt.nodes[dc as int].data.data == c_g.data);
                assert(dt_b.nodes[dc as int].children@.len() == 0);
                assert(dt.nodes[dc as int].children@.len() == data_kids(c_g.children@, 0).len());
                let dcs_c = data_kids(c_g.children@, 0);
                assert forall|x: int|
                    0 <= x < dcs_c.len() implies dc < (#[trigger] dt.nodes[
                    dc as int].children@[x]) as int && (dt.nodes[dc as int].children@[x] as int)
                    < dt.nodes.len() && 0 <= dcs_c[x] < c_g.children@.len() && data_matches(
                    *dt,
                    dt.nodes[dc as int].children@[x] as int,
                    c_g.children@[dcs_c[x]],
                    *rt,
                    rt.nodes[rc as int].children@[dcs_c[x]] as int,
                ) by {
                    assert(dt.nodes[dc as int].children@[dt_b.nodes[dc as int].children@.len()
                        + x] == dt.nodes[dc as int].children@[x]);
                }
                assert(data_matches(*dt, dc as int, c_g, *rt, rc as int));
                k_d = k_d + 1;
            } else {
                assert(data_kids(cs0, i as int) == data_kids(cs0, i + 1));
            }
        }
        i += 1;
    }
    proof {
        assert(i == cs0.len());
        assert(elem_count_kids(cs0, i as int) == 0);
        assert(event_count_kids(cs0, i as int) == 0);
        assert(data_count_kids(cs0, i as int) == 0);
        assert(listener_kids(cs0, i as int) =~= Seq::<int>::empty());
        assert(data_kids(cs0, i as int) =~= Seq::<int>::empty());
        assert(k_e == lcs_full.len());
        assert(k_d == dcs_full.len());
    }
}

impl<D> Element<D> {
    /// Consume the element and build the three parallel trees: the
    /// complete render tree, and — where the element tree declares a
    /// listener (respectively payload) anywhere — the minimal event
    /// (respectively data) overlay tree connecting every declaring node
    /// to the root.
    #[verifier::spinoff_prover]
    pub fn build(self) -> (r: (Tree<Node>, Option<Tree<EventObject>>, Option<Tree<DataObject<D>>>))
        requires
            elem_count(self) <= usize::MAX,
            event_count(self) <= usize::MAX,
            data_count(self) <= usize::MAX,
        ensures
            r.0.wf(),
            r.0.nodes.len() == elem_count(self),
            render_matches(r.0, 0, self),
            r.1 is Some <==> has_listener_deep(self),
            r.1 matches Some(et) ==> et.wf() && et.nodes.len() == event_count(self)
                && event_matches(et, 0, self, r.0, 0),
            r.2 is Some <==> has_data_deep(self),
            r.2 matches Some(dt) ==> dt.wf() && dt.nodes.len() == data_count(self)
                && data_matches(dt, 0, self, r.0, 0),
    {
        let ghost self_g = self;
        proof {
            lemma_counts_nonneg(self.children@, 0);
        }
        let has_e = self.has_listener_deep();
        let has_d = self.has_data_deep();
        let Element { dom, event, data, children } = self;
        let l = match event {
            Some(l) => l,
            None => EventListener::default(),
        };
        let mut rt = Tree::new(Node { dom });
        let mut et = Tree::new(EventObject { node: 0, event: l });
        let mut dt = Tree::new(DataObject { node: 0, data });
        proof {
            if !has_e {
                assert forall|j: int|
                    0 <= j < self_g.children@.len() implies !has_listener_deep(
                    #[trigger] self_g.children@[j],
                ) by {}
                lemma_no_listener_kids(self_g.children@, 0);
            }
            if !has_d {
                assert forall|j: int|
                    0 <= j < self_g.children@.len() implies !has_data_deep(
                    #[trigger] self_g.children@[j],
                ) by {}
                lemma_no_data_kids(self_g.children@, 0);
            }
        }
        build_children(children, &mut rt, 0, &mut et, 0, &mut dt, 0);
        proof {
            assert(rt.nodes[0].data.dom == self_g.dom);
            assert(rt.nodes[0].children@.len() == self_g.children@.len());
            assert(render_matches(rt, 0, self_g));
            if has_e {
                assert(et.nodes[0].data.node == 0);
                assert(et.nodes[0].data.event == listener_of(self_g));
                assert(et.nodes[0].children@.len() == listener_kids(self_g.children@, 0).len());
                assert forall|x: int|
                    0 <= x < listener_kids(self_g.children@, 0).len() implies 0 < (
                #[trigger] et.nodes[0].children@[x]) as int && (et.nodes[0].children@[x] as int)
                    < et.nodes.len() && 0 <= listener_kids(self_g.children@, 0)[x]
                    < self_g.children@.len() && event_matches(
                    et,
                    et.nodes[0].children@[x] as int,
                    self_g.children@[listener_kids(self_g.children@, 0)[x]],
                    rt,
                    rt.nodes[0].children@[listener_kids(self_g.children@, 0)[x]] as int,
                ) by {
                    assert(et.nodes[0].children@[0 + x] == et.nodes[0].children@[x]);
                }
                assert(event_matches(et, 0, self_g, rt, 0));
            }
            if has_d {
                assert(dt.nodes[0].data.node == 0);
                assert(dt.nodes[0].data.data == self_g.data);
                assert(dt.nodes[0].children@.len() == data_kids(self_g.children@, 0).len());
                assert forall|x: int|
                    0 <= x < data_kids(self_g.children@, 0).len() implies 0 < (#[trigger] dt.nodes[
                    0].children@[x]) as int && (dt.nodes[0].children@[x] as int) < dt.nodes.len()
                    && 0 <= data_kids(self_g.children@, 0)[x] < self_g.children@.len()
                    && data_matches(
                    dt,
                    dt.nodes[0].children@[x] as int,
                    self_g.children@[data_kids(self_g.children@, 0)[x]],
                    rt,
                    rt.nodes[0].children@[data_kids(self_g.children@, 0)[x]] as int,
                ) by {
                    assert(dt.nodes[0].children@[0 + x] == dt.nodes[0].children@[x]);
                }
                assert(data_matches(dt, 0, self_g, rt, 0));
            }
        }
        (
            rt,
            if has_e {
                Some(et)
            } else {
                None
            },
            if has_d {
                Some(dt)
            } else {
                None
            },
        )
    }
}

} // verus!
