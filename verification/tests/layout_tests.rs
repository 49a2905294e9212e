use xinghuo_core::app::AppBuilder;
use xinghuo_core::element::Element;
use xinghuo_core::geom::{Color, Vec2};
use xinghuo_core::id::Counter;
use xinghuo_core::size::Size;

fn px(n: i64) -> i64 {
    n * 1000
}

#[test]
fn block_child_spans_parent_width_and_keeps_declared_height() {
    // a root sized 100 by 100 with one child declared width=100%, height=20
    let mut counter = Counter::new();
    let child = Element::<u64>::new("div", &mut counter)
        .width(Size::from("100%"))
        .height(Size::from("20"));
    let root = Element::<u64>::new("div", &mut counter).child(child);
    let mut app = AppBuilder::new(root).build();
    let quads = app.render(Vec2 { x: px(100), y: px(100) });

    let child_dom = app.render_tree.get(1).dom();
    let b = child_dom.ava_box();
    // width = parent width minus the child's edges (none declared)
    assert_eq!(b.max.x - b.min.x, px(100) - child_dom.edge_width());
    assert_eq!(child_dom.edge_width(), 0);
    assert_eq!(b.max.y - b.min.y, px(20));
    // one paint command per node, the root's first
    assert_eq!(quads.len(), 2);
    assert_eq!(quads[0].rect.origin, Vec2 { x: 0, y: 0 });
    assert_eq!(quads[0].rect.size, Vec2 { x: px(100), y: px(100) });
}

#[test]
fn block_siblings_stack_without_overlap() {
    // two siblings with heights 20 and 30 and no margins: the second
    // starts where the first one's box ends
    let mut counter = Counter::new();
    let a = Element::<u64>::new("div", &mut counter).height(Size::from("20"));
    let b = Element::<u64>::new("div", &mut counter).height(Size::from("30"));
    let root = Element::<u64>::new("div", &mut counter).child(a).child(b);
    let mut app = AppBuilder::new(root).build();
    let _ = app.render(Vec2 { x: px(100), y: px(100) });

    let first = app.render_tree.get(1).dom().ava_box();
    let second = app.render_tree.get(2).dom().ava_box();
    assert_eq!(first.min.y, 0);
    assert_eq!(first.max.y, px(20));
    assert_eq!(second.min.y, px(20));
    assert_eq!(second.max.y, px(50));
    // siblings do not overlap
    assert!(first.max.y <= second.min.y);
}

#[test]
fn margins_offset_the_available_box_and_advance_the_cursor() {
    let mut counter = Counter::new();
    let a = Element::<u64>::new("div", &mut counter).height(Size::from("20"));
    let mut a = a;
    a.dom.set_margin(xinghuo_core::size::Quat::from("5"));
    let b = Element::<u64>::new("div", &mut counter).height(Size::from("30"));
    let root = Element::<u64>::new("div", &mut counter).child(a).child(b);
    let mut app = AppBuilder::new(root).build();
    let _ = app.render(Vec2 { x: px(100), y: px(100) });

    let first = app.render_tree.get(1).dom();
    let fb = first.ava_box();
    // offset by the top and left margin
    assert_eq!(fb.min, Vec2 { x: px(5), y: px(5) });
    // width is the parent width minus both horizontal margins
    assert_eq!(fb.max.x - fb.min.x, px(90));
    // the second sibling starts after the first box including margins
    let second = app.render_tree.get(2).dom().ava_box();
    assert_eq!(second.min.y, px(30));
}

#[test]
fn root_is_forced_to_the_viewport_and_stays_dirty() {
    let mut counter = Counter::new();
    let root = Element::<u64>::new("div", &mut counter)
        .width(Size::from("5"))
        .height(Size::from("5"))
        .background_color(Color::new(1, 2, 3, 4));
    let mut app = AppBuilder::new(root).build();
    let quads = app.render(Vec2 { x: px(640), y: px(480) });
    let dom = app.render_tree.get(0).dom();
    assert_eq!(dom.width(), px(640));
    assert_eq!(dom.height(), px(480));
    assert!(dom.is_dirty());
    // the root's declared style was replaced by the default, so the
    // background color reverts to the default
    assert_eq!(quads.len(), 1);
    assert_eq!(quads[0].color, Color::default());
}

#[test]
fn non_root_nodes_are_clean_after_a_pass() {
    let mut counter = Counter::new();
    let child = Element::<u64>::new("div", &mut counter).height(Size::from("10"));
    let root = Element::<u64>::new("div", &mut counter).child(child);
    let mut app = AppBuilder::new(root).build();
    assert!(app.render_tree.get(1).dom().is_dirty());
    let _ = app.render(Vec2 { x: px(10), y: px(10) });
    assert!(!app.render_tree.get(1).dom().is_dirty());
}

#[test]
fn paint_commands_come_parents_before_children() {
    let mut counter = Counter::new();
    let grandchild = Element::<u64>::new("div", &mut counter).height(Size::from("5"));
    let child = Element::<u64>::new("div", &mut counter)
        .height(Size::from("20"))
        .child(grandchild);
    let sibling = Element::<u64>::new("div", &mut counter).height(Size::from("30"));
    let root = Element::<u64>::new("div", &mut counter).child(child).child(sibling);
    let mut app = AppBuilder::new(root).build();
    let quads = app.render(Vec2 { x: px(100), y: px(100) });
    assert_eq!(quads.len(), 4);
    // the root covers the viewport and is painted first
    assert_eq!(quads[0].rect.size, Vec2 { x: px(100), y: px(100) });
    // the first child's subtree comes before the second child
    assert_eq!(quads[1].rect.size.y, px(20));
    assert_eq!(quads[2].rect.size.y, px(5));
    assert_eq!(quads[3].rect.size.y, px(30));
}
