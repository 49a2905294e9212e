//! The layout and paint driver.
//!
//! One pass per frame: the root element is forced to Block layout at the
//! viewport, then a single traversal resolves every child's geometry
//! against its parent's resolved size — Block parents stack their
//! children top to bottom, each child spanning the parent's width minus
//! its own edges — and one paint command is emitted per node, parents
//! before children.

use vstd::prelude::*;

use crate::dom::{
    box_height_spec, edge_height_spec, edge_width_spec, left_top_spec, DomLayout,
};
use crate::element::{
    paint_quad_spec, DataObject, Element, EventObject, Node, elem_count, event_count, data_count,
    render_matches, event_matches, data_matches, has_listener_deep, has_data_deep,
};
use crate::geom::{vadd_spec, Box2, Quad, Vec2};
use crate::num::{cadd, cadd_spec, csub, csub_spec, in_coord};
use crate::size::{size_updated_spec, InnerSize, Quat, Size};
use crate::style::{style_default_spec, Layout, Style};
use crate::tree::{edge_index, NodeEdge, Tree};

verus! {

/// What the host reports about the graphics adapter it chose.
#[derive(Debug, Clone)]
pub struct GpuDeviceInfo {
    /// Adapter name.
    pub name: String,
    /// Vendor PCI id of the adapter.
    pub vendor: usize,
    /// PCI id of the adapter.
    pub device: usize,
    /// Type of device.
    pub device_type: String,
    /// Backend used for the device.
    pub backend: String,
}

/// What is known about the window at start-up.
pub struct BootContext {
    /// The adapter the host chose.
    pub gpu_device_info: GpuDeviceInfo,
}

/// The slot of node `m` before the pass.
pub open spec fn orig_slot(t: Tree<Node>, m: int) -> DomLayout {
    t.nodes[m].data.dom.layout_view()
}

/// The reference size a node offers its children: its resolved width and
/// height.
pub open spec fn parent_size_of(pd: DomLayout) -> Vec2 {
    Vec2 { x: pd.style.width.value, y: pd.style.height.value }
}

/// The root slot after initialization: Block layout, default style with
/// width and height forced to the viewport, and the available box set to
/// the whole viewport.  The root's declared style is ignored.
pub open spec fn root_prep_spec(orig: DomLayout, viewport: Vec2) -> DomLayout {
    DomLayout {
        layout: Layout::Block,
        style: Style {
            width: Size { param: InnerSize::Number(viewport.x), value: viewport.x },
            height: Size { param: InnerSize::Number(viewport.y), value: viewport.y },
            ..style_default_spec()
        },
        dirty: true,
        ava_box: Box2 { min: Vec2 { x: 0, y: 0 }, max: viewport },
        parent_size: orig.parent_size,
    }
}

/// A child's style under Block layout: margin, padding and border are
/// resolved against the parent size; the width is forced to the parent
/// width minus the child's horizontal edges; the declared height is
/// resolved against the parent height.
pub open spec fn block_child_style_spec(st0: Style, ps: Vec2) -> Style {
    let st1 = Style {
        margin: crate::size::quat_update_spec(st0.margin, ps),
        padding: crate::size::quat_update_spec(st0.padding, ps),
        border: crate::size::quat_update_spec(st0.border, ps),
        ..st0
    };
    let w = csub_spec(ps.x as int, edge_width_spec(st1)) as i64;
    let st2 = Style { width: Size { param: InnerSize::Number(w), value: w }, ..st1 };
    Style { height: size_updated_spec(st2.height, ps.y as int), ..st2 }
}

/// A child's whole slot under Block layout: the resolved style, and an
/// available box at the cursor plus the child's own top-left edges,
/// spanning the resolved width and height.
pub open spec fn block_child_slot_spec(c: DomLayout, ps: Vec2, cursor_min: Vec2) -> DomLayout {
    let st = block_child_style_spec(c.style, ps);
    let start = vadd_spec(cursor_min, left_top_spec(st));
    let end = Vec2 {
        x: cadd_spec(start.x as int, st.width.value as int) as i64,
        y: cadd_spec(start.y as int, st.height.value as int) as i64,
    };
    DomLayout {
        layout: c.layout,
        style: st,
        dirty: true,
        ava_box: Box2 { min: start, max: end },
        parent_size: c.parent_size,
    }
}

/// The vertical cursor position before the `j`-th child of `p`: the
/// parent's available-box top, advanced by the box heights of the earlier
/// siblings as Block layout resolves them.
pub open spec fn cursor_y_of(t: Tree<Node>, pd: DomLayout, p: int, j: int) -> int
    decreases j,
{
    if j <= 0 {
        pd.ava_box.min.y as int
    } else {
        cadd_spec(
            cursor_y_of(t, pd, p, j - 1),
            box_height_spec(
                block_child_style_spec(
                    orig_slot(t, t.nodes[p].children@[j - 1] as int).style,
                    parent_size_of(pd),
                ),
            ),
        )
    }
}

/// The slot of a child `m` of `p` after `p`'s step, given `p`'s final
/// slot: under Block layout the block formulas apply at the cursor; under
/// any other layout kind the child is left as declared.
pub open spec fn child_done_slot(t: Tree<Node>, pd: DomLayout, p: int, m: int) -> DomLayout {
    if pd.layout is Block {
        let j = t.nodes[p].children@.index_of(m as usize);
        let ps = parent_size_of(pd);
        let cursor_min = Vec2 { x: pd.ava_box.min.x, y: cursor_y_of(t, pd, p, j) as i64 };
        block_child_slot_spec(orig_slot(t, m), ps, cursor_min)
    } else {
        orig_slot(t, m)
    }
}

/// The slot of node `m` after the whole pass over the tree `t` (taken
/// before the pass): the root is forced to the viewport and stays dirty;
/// every other node gets what its parent's step computed, with its dirty
/// flag cleared by its own layout hook.
pub open spec fn done_slot(t: Tree<Node>, viewport: Vec2, m: int) -> DomLayout
    decreases m,
{
    if m <= 0 {
        root_prep_spec(orig_slot(t, 0), viewport)
    } else {
        match t.nodes[m].parent {
            Some(p) => if (p as int) < m && 0 <= (p as int) {
                let pd = done_slot(t, viewport, p as int);
                DomLayout { dirty: false, ..child_done_slot(t, pd, p as int, m) }
            } else {
                orig_slot(t, m)
            },
            None => orig_slot(t, m),
        }
    }
}

/// The paint commands of a pass, in edge order: one quad per entered
/// node, at its final geometry; exits emit nothing.
pub open spec fn start_quads(t: Tree<Node>, viewport: Vec2, edges: Seq<NodeEdge>) -> Seq<Quad>
    decreases edges.len(),
{
    if edges.len() == 0 {
        Seq::empty()
    } else {
        let rest = start_quads(t, viewport, edges.skip(1));
        match edges[0] {
            NodeEdge::Start(n) => seq![paint_quad_spec(done_slot(t, viewport, n as int))] + rest,
            NodeEdge::End(_) => rest,
        }
    }
}

/// The total of the horizontal edges of a style.
fn edge_width_st(st: &Style) -> (r: i64)
    requires
        st.wf(),
    ensures
        r == edge_width_spec(*st),
        in_coord(r as int),
{
    cadd(
        cadd(
            cadd(
                cadd(
                    cadd(st.margin.left.value(), st.margin.right.value()),
                    st.border.left.value(),
                ),
                st.border.right.value(),
            ),
            st.padding.left.value(),
        ),
        st.padding.right.value(),
    )
}

/// The total of the vertical edges of a style.
fn edge_height_st(st: &Style) -> (r: i64)
    requires
        st.wf(),
    ensures
        r == edge_height_spec(*st),
        in_coord(r as int),
{
    cadd(
        cadd(
            cadd(
                cadd(
                    cadd(st.margin.top.value(), st.margin.bottom.value()),
                    st.border.top.value(),
                ),
                st.border.bottom.value(),
            ),
            st.padding.top.value(),
        ),
        st.padding.bottom.value(),
    )
}

/// Resolve a child's style against the parent size under Block layout.
fn block_child_style(st0: Style, ps: Vec2) -> (st: Style)
    requires
        st0.wf(),
        ps.wf(),
    ensures
        st == block_child_style_spec(st0, ps),
        st.wf(),
{
    let st1 = Style {
        margin: st0.margin.update(ps),
        padding: st0.padding.update(ps),
        border: st0.border.update(ps),
        ..st0
    };
    let ew = edge_width_st(&st1);
    let w = csub(ps.x, ew);
    let st2 = Style { width: Size::new_value(w), ..st1 };
    let h = st2.height.update(ps.y);
    Style { height: h, ..st2 }
}

/// Compute a child's whole slot under Block layout.
fn block_child_slot(c: DomLayout, ps: Vec2, cursor_min: Vec2) -> (r: DomLayout)
    requires
        c.wf(),
        ps.wf(),
        cursor_min.wf(),
    ensures
        r == block_child_slot_spec(c, ps, cursor_min),
        r.wf(),
{
    let st = block_child_style(c.style, ps);
    let lt = Vec2 {
        x: cadd(cadd(st.margin.left.value(), st.border.left.value()), st.padding.left.value()),
        y: cadd(cadd(st.margin.top.value(), st.border.top.value()), st.padding.top.value()),
    };
    let start = Vec2 { x: cadd(cursor_min.x, lt.x), y: cadd(cursor_min.y, lt.y) };
    let end = Vec2 { x: cadd(start.x, st.width.value()), y: cadd(start.y, st.height.value()) };
    DomLayout {
        layout: c.layout,
        style: st,
        dirty: true,
        ava_box: Box2 { min: start, max: end },
        parent_size: c.parent_size,
    }
}

/// Find where `m` stands among the children of `p`.
fn child_position(t: &Tree<Node>, p: usize, m: usize) -> (j: usize)
    requires
        t.wf(),
        p < t.nodes.len(),
        t.nodes[p as int].children@.contains(m),
    ensures
        j < t.nodes[p as int].children@.len(),
        t.nodes[p as int].children@[j as int] == m,
{
    let cs = t.children(p);
    let k = cs.len();
    let ghost w = choose|w: int| 0 <= w < cs@.len() && cs@[w] == m;
    let mut j: usize = 0;
    loop
        invariant
            0 <= j <= w,
            0 <= w < k,
            k == cs@.len(),
            cs@ == t.nodes[p as int].children@,
            cs@[w] == m,
            forall|x: int| 0 <= x < j ==> cs@[x] != m,
        decreases w - j,
    {
        if cs[j] == m {
            return j;
        }
        proof {
            assert(j != w);
        }
        j += 1;
    }
}

/// The application: the three parallel trees of one declared element
/// tree.  One call of `render` lays the whole tree out against a viewport
/// and hands back the paint commands.
pub struct App<D> {
    /// The sparse tree of listener-declaring nodes, if any listener was
    /// declared.
    pub event_tree: Option<Tree<EventObject>>,
    /// The sparse tree of payload-carrying nodes, if any payload was
    /// declared.
    pub data_tree: Option<Tree<DataObject<D>>>,
    /// The complete render tree.
    pub render_tree: Tree<Node>,
}

impl<D> App<D> {
    /// Whether the render tree is a well-formed arena of well-formed
    /// elements.
    pub open spec fn wf(self) -> bool {
        &&& self.render_tree.wf()
        &&& forall|m: int|
            0 <= m < self.render_tree.nodes.len() ==> (
            #[trigger] self.render_tree.nodes[m].data.dom).wf()
    }

    /// One layout-and-paint pass: force the root to Block layout at the
    /// viewport, resolve every node's geometry from its parent's resolved
    /// size in one traversal, clear every non-root dirty flag, and emit
    /// one paint command per node in enter order — parents before
    /// children, the root first.
    pub fn render(&mut self, viewport: Vec2) -> (quads: Vec<Quad>)
        requires
            old(self).wf(),
            viewport.wf(),
        ensures
            final(self).wf(),
            final(self).event_tree == old(self).event_tree,
            final(self).data_tree == old(self).data_tree,
            final(self).render_tree.nodes.len() == old(self).render_tree.nodes.len(),
            forall|m: int|
                0 <= m < old(self).render_tree.nodes.len() ==> {
                    let slot = #[trigger] final(self).render_tree.nodes[m];
                    let was = old(self).render_tree.nodes[m];
                    &&& slot.parent == was.parent
                    &&& slot.children@ == was.children@
                    &&& slot.data.dom.node_id == was.data.dom.node_id
                    &&& slot.data.dom.tag == was.data.dom.tag
                    &&& slot.data.dom.id == was.data.dom.id
                    &&& slot.data.dom.class == was.data.dom.class
                    &&& slot.data.dom.layout_view() == done_slot(
                        old(self).render_tree,
                        viewport,
                        m,
                    )
                },
            quads@ == start_quads(
                old(self).render_tree,
                viewport,
                old(self).render_tree.edges_from(0),
            ),
    {
        let ghost t0 = self.render_tree;
        // the edge schedule of the traversal, fixed before any mutation
        let edges = self.render_tree.traverse();
        // resolve every node in arena order: each node's parent precedes
        // it, so the parent's final slot is already known
        let done = compute_done(&self.render_tree, viewport);
        // write the resolved slots back into the tree
        write_back(&mut self.render_tree, &done, Ghost(viewport));
        // emit one paint command per entered node, in the schedule's order
        emit_quads(&self.render_tree, &edges, Ghost(t0), Ghost(viewport))
    }
}

/// Resolve every node's final slot, in arena order.
#[verifier::rlimit(100)]
#[verifier::spinoff_prover]
fn compute_done(t: &Tree<Node>, viewport: Vec2) -> (done: Vec<DomLayout>)
    requires
        t.wf(),
        viewport.wf(),
        forall|m: int| 0 <= m < t.nodes.len() ==> (#[trigger] t.nodes[m].data.dom).wf(),
    ensures
        done@.len() == t.nodes.len(),
        forall|k: int| 0 <= k < done@.len() ==> #[trigger] done@[k] == done_slot(*t, viewport, k),
        forall|k: int| 0 <= k < done@.len() ==> (#[trigger] done@[k]).wf(),
{
    let ghost t0 = *t;
    let len = t.len();
    let mut done: Vec<DomLayout> = Vec::new();
    let root_slot = t.get(0).dom().layout_state();
    let prepped = DomLayout {
        layout: Layout::Block,
        style: Style {
            width: Size::new_value(viewport.x),
            height: Size::new_value(viewport.y),
            ..Style::default()
        },
        dirty: true,
        ava_box: Box2 { min: Vec2 { x: 0, y: 0 }, max: viewport },
        parent_size: root_slot.parent_size,
    };
    done.push(prepped);
    proof {
        assert(done@[0] == done_slot(t0, viewport, 0));
        assert(done@[0].wf());
    }
    let mut m: usize = 1;
    while m < len
        invariant
            t.wf(),
            t0 == *t,
            viewport.wf(),
            forall|x: int| 0 <= x < t.nodes.len() ==> (#[trigger] t.nodes[x].data.dom).wf(),
            len == t0.nodes.len(),
            1 <= m <= len,
            done@.len() == m,
            forall|k: int| 0 <= k < m ==> #[trigger] done@[k] == done_slot(t0, viewport, k),
            forall|k: int| 0 <= k < m ==> (#[trigger] done@[k]).wf(),
        decreases len - m,
    {
        let p = match t.parent(m) {
            Some(p) => p,
            None => {
                proof {
                    assert(false);
                }
                0
            },
        };
        let pd = done[p];
        let orig = t.get(m).dom().layout_state();
        let slot: DomLayout = match pd.layout {
            Layout::Block => {
                let j = child_position(t, p, m);
                let ps = Vec2 { x: pd.style.width.value(), y: pd.style.height.value() };
                // advance the cursor over the earlier siblings
                let mut cur_y: i64 = pd.ava_box.min.y;
                let mut x: usize = 0;
                while x < j
                    invariant
                        t0 == *t,
                        t.wf(),
                        viewport.wf(),
                        forall|y: int|
                            0 <= y < t.nodes.len() ==> (#[trigger] t.nodes[y].data.dom).wf(),
                        (p as int) < t0.nodes.len(),
                        x <= j,
                        (j as int) < t0.nodes[p as int].children@.len(),
                        pd == done_slot(t0, viewport, p as int),
                        pd.wf(),
                        ps == parent_size_of(pd),
                        cur_y == cursor_y_of(t0, pd, p as int, x as int),
                        in_coord(cur_y as int),
                    decreases j - x,
                {
                    let sib = t.children(p)[x];
                    let sib_orig = t.get(sib).dom().layout_state();
                    let sst = block_child_style(sib_orig.style, ps);
                    let bh = cadd(sst.height.value(), edge_height_st(&sst));
                    cur_y = cadd(cur_y, bh);
                    x += 1;
                }
                let cursor_min = Vec2 { x: pd.ava_box.min.x, y: cur_y };
                let s = block_child_slot(orig, ps, cursor_min);
                proof {
                    let cs = t0.nodes[p as int].children@;
                    assert(cs[j as int] == m as usize);
                    assert(exists|x: int| 0 <= x < cs.len() && cs[x] == m as usize);
                    let io = cs.index_of(m as usize);
                    assert(0 <= io < cs.len() && cs[io] == m as usize);
                    assert(io == j as int) by {
                        if io < j as int {
                            assert(cs[io] < cs[j as int]);
                        }
                        if io > j as int {
                            assert(cs[j as int] < cs[io]);
                        }
                    }
                    assert(s == child_done_slot(t0, pd, p as int, m as int));
                }
                s
            },
            _ => {
                proof {
                    assert(child_done_slot(t0, pd, p as int, m as int) == orig_slot(t0, m as int));
                }
                orig
            },
        };
        let slot = DomLayout { dirty: false, ..slot };
        done.push(slot);
        proof {
            assert(done@[m as int] == done_slot(t0, viewport, m as int));
        }
        m += 1;
    }
    done
}

/// Write the resolved slots back into the arena, keeping each node's
/// identity and naming strings.
#[verifier::rlimit(50)]
#[verifier::spinoff_prover]
fn write_back(t: &mut Tree<Node>, done: &Vec<DomLayout>, viewport: Ghost<Vec2>)
    requires
        old(t).wf(),
        forall|m: int| 0 <= m < old(t).nodes.len() ==> (#[trigger] old(t).nodes[m].data.dom).wf(),
        done@.len() == old(t).nodes.len(),
        forall|k: int|
            0 <= k < done@.len() ==> #[trigger] done@[k] == done_slot(*old(t), viewport@, k),
        forall|k: int| 0 <= k < done@.len() ==> (#[trigger] done@[k]).wf(),
    ensures
        final(t).wf(),
        final(t).nodes.len() == old(t).nodes.len(),
        forall|m: int|
            0 <= m < old(t).nodes.len() ==> {
                let slot = #[trigger] final(t).nodes[m];
                let was = old(t).nodes[m];
                &&& slot.parent == was.parent
                &&& slot.children@ == was.children@
                &&& slot.data.dom.node_id == was.data.dom.node_id
                &&& slot.data.dom.tag == was.data.dom.tag
                &&& slot.data.dom.id == was.data.dom.id
                &&& slot.data.dom.class == was.data.dom.class
                &&& slot.data.dom.layout_view() == done@[m]
                &&& slot.data.dom.wf()
            },
{
    let ghost t0 = *old(t);
    let len = t.len();
    let mut w: usize = 0;
    while w < len
        invariant
            len == t0.nodes.len(),
            t.nodes.len() == t0.nodes.len(),
            forall|m: int| 0 <= m < t0.nodes.len() ==> (#[trigger] t0.nodes[m].data.dom).wf(),
            w <= len,
            done@.len() == len,
            forall|k: int| 0 <= k < len ==> (#[trigger] done@[k]).wf(),
            forall|k: int|
                0 <= k < len ==> (#[trigger] t.nodes[k]).parent == t0.nodes[k].parent && t.nodes[k].children@ == t0.nodes[k].children@,
            forall|k: int| w <= k < len ==> #[trigger] t.nodes[k] == t0.nodes[k],
            forall|k: int|
                0 <= k < w ==> {
                    let nd = (#[trigger] t.nodes[k]).data.dom;
                    let was = t0.nodes[k].data.dom;
                    &&& nd.node_id == was.node_id
                    &&& nd.tag == was.tag
                    &&& nd.id == was.id
                    &&& nd.class == was.class
                    &&& nd.layout_view() == done@[k]
                    &&& nd.wf()
                },
        decreases len - w,
    {
        let slot = done[w];
        let node = t.get_mut(w);
        node.dom.apply_layout_state(slot);
        w += 1;
    }
    proof {
        assert(t.wf()) by {
            assert(t.nodes[0].parent is None);
        }
    }
}

/// Emit one paint command per entered node, following the edge schedule.
#[verifier::rlimit(50)]
#[verifier::spinoff_prover]
fn emit_quads(
    t: &Tree<Node>,
    edges: &Vec<NodeEdge>,
    t0: Ghost<Tree<Node>>,
    viewport: Ghost<Vec2>,
) -> (quads: Vec<Quad>)
    requires
        t0@.wf(),
        edges@ == t0@.edges_from(0),
        t0@.nodes.len() >= 1,
        t.nodes.len() == t0@.nodes.len(),
        forall|x: int|
            0 <= x < t.nodes.len() ==> (#[trigger] t.nodes[x]).data.dom.layout_view() == done_slot(
                t0@,
                viewport@,
                x,
            ) && t.nodes[x].data.dom.wf(),
    ensures
        quads@ == start_quads(t0@, viewport@, t0@.edges_from(0)),
{
    let ghost all = t0@.edges_from(0);
    let mut quads: Vec<Quad> = Vec::new();
    proof {
        t0@.lemma_edges_in_range(0);
        assert(all.skip(0) =~= all);
        assert(quads@ + start_quads(t0@, viewport@, all.skip(0)) =~= start_quads(
            t0@,
            viewport@,
            all,
        ));
    }
    let mut k: usize = 0;
    let elen = edges.len();
    while k < elen
        invariant
            t0@.wf(),
            t.nodes.len() == t0@.nodes.len(),
            forall|x: int|
                0 <= x < t.nodes.len() ==> (#[trigger] t.nodes[x]).data.dom.layout_view()
                    == done_slot(t0@, viewport@, x) && t.nodes[x].data.dom.wf(),
            edges@ == all,
            all == t0@.edges_from(0),
            elen == all.len(),
            k <= elen,
            forall|x: int|
                0 <= x < all.len() ==> 0 <= edge_index(#[trigger] all[x]) < t0@.nodes.len(),
            quads@ + start_quads(t0@, viewport@, all.skip(k as int)) == start_quads(
                t0@,
                viewport@,
                all,
            ),
        decreases elen - k,
    {
        let e = edges[k];
        proof {
            assert(all.skip(k as int)[0] == all[k as int]);
            assert(all.skip(k as int).skip(1) =~= all.skip(k as int + 1));
        }
        match e {
            NodeEdge::Start(n) => {
                let q = t.get(n).paint();
                quads.push(q);
                proof {
                    assert(q == paint_quad_spec(done_slot(t0@, viewport@, n as int)));
                    assert(quads@ + start_quads(t0@, viewport@, all.skip(k as int + 1))
                        =~= start_quads(t0@, viewport@, all));
                }
            },
            NodeEdge::End(_) => {
                proof {
                    assert(quads@ + start_quads(t0@, viewport@, all.skip(k as int + 1))
                        =~= start_quads(t0@, viewport@, all));
                }
            },
        }
        k += 1;
    }
    proof {
        assert(all.skip(elen as int) =~= Seq::<NodeEdge>::empty());
        assert(quads@ =~= start_quads(t0@, viewport@, all));
    }
    quads
}

/// Assembles an application from a declared element tree.
pub struct AppBuilder<D> {
    /// The declared root element.
    pub element: Element<D>,
}

impl<D> AppBuilder<D> {
    /// Start from a declared root element.
    pub fn new(b: Element<D>) -> (r: Self)
        ensures
            r.element == b,
    {
        AppBuilder { element: b }
    }

    /// Build the three parallel trees.
    pub fn build(self) -> (app: App<D>)
        requires
            elem_count(self.element) <= usize::MAX,
            event_count(self.element) <= usize::MAX,
            data_count(self.element) <= usize::MAX,
        ensures
            app.render_tree.wf(),
            app.render_tree.nodes.len() == elem_count(self.element),
            render_matches(app.render_tree, 0, self.element),
            app.event_tree is Some <==> has_listener_deep(self.element),
            app.event_tree matches Some(et) ==> et.wf() && event_matches(
                et,
                0,
                self.element,
                app.render_tree,
                0,
            ),
            app.data_tree is Some <==> has_data_deep(self.element),
            app.data_tree matches Some(dt) ==> dt.wf() && data_matches(
                dt,
                0,
                self.element,
                app.render_tree,
                0,
            ),
    {
        let AppBuilder { element } = self;
        let (render_tree, event_tree, data_tree) = element.build();
        App { render_tree, event_tree, data_tree }
    }
}

} // verus!
