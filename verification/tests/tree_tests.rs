use std::sync::{Arc, Mutex};

use xinghuo_core::element::Element;
use xinghuo_core::event::EventListener;
use xinghuo_core::id::{Counter, Id};
use xinghuo_core::memory::{hash, Id as MemId, IdTypeMap, TypeId};
use xinghuo_core::node::NodeData;
use xinghuo_core::tree::{NodeEdge, Tree};

#[test]
fn ids_strictly_increase_and_never_repeat() {
    let mut counter = Counter::new();
    let a = Id::next(&mut counter);
    let b = Id::next(&mut counter);
    let c = Id::next(&mut counter);
    assert!(a.value() < b.value());
    assert!(b.value() < c.value());
    assert_ne!(a, b);
    assert_ne!(b, c);
    assert_ne!(a, c);
    assert!(a.value() >= 1);
}

#[test]
fn traversal_enters_before_descendants_and_exits_after() {
    let mut t: Tree<u32> = Tree::new(0);
    let a = t.append(0, 1);
    let b = t.append(0, 2);
    let aa = t.append(a, 3);
    let edges = t.traverse();
    assert_eq!(
        edges,
        vec![
            NodeEdge::Start(0),
            NodeEdge::Start(a),
            NodeEdge::Start(aa),
            NodeEdge::End(aa),
            NodeEdge::End(a),
            NodeEdge::Start(b),
            NodeEdge::End(b),
            NodeEdge::End(0),
        ]
    );
    assert_eq!(t.parent(aa), Some(a));
    assert_eq!(t.parent(0), None);
    assert_eq!(t.children(0), &vec![a, b]);
    assert_eq!(*t.get(aa), 3);
}

#[test]
fn listener_three_levels_deep_yields_exactly_the_path() {
    // root -> mid -> leaf(onclick), with a listener-free sibling
    let mut counter = Counter::new();
    let leaf = Element::<u64>::new("leaf", &mut counter).onclick();
    let mid = Element::<u64>::new("mid", &mut counter).child(leaf);
    let sibling = Element::<u64>::new("aside", &mut counter);
    let root = Element::<u64>::new("root", &mut counter).child(mid).child(sibling);
    let (render, event, data) = root.build();

    assert_eq!(render.len(), 4);
    let et = event.expect("a listener three levels deep must produce an event tree");
    // exactly the path from the root to the listener-bearing node
    assert_eq!(et.len(), 3);
    assert_eq!(et.get(0).node, 0);
    let mid_event = et.children(0)[0];
    assert_eq!(et.get(mid_event).node, 1);
    let leaf_event = et.children(mid_event)[0];
    assert_eq!(et.get(leaf_event).node, 2);
    // only the leaf declares anything
    assert!(et.get(0).event.is_empty());
    assert!(et.get(mid_event).event.is_empty());
    assert!(!et.get(leaf_event).event.is_empty());
    assert!(et.get(leaf_event).event.onclick);
    // no payload was declared anywhere
    assert!(data.is_none());
}

#[test]
fn data_tree_mirrors_declaring_nodes_only() {
    let mut counter = Counter::new();
    let with_data = Element::<&'static str>::new("div", &mut counter).data("payload");
    let plain = Element::<&'static str>::new("div", &mut counter);
    let root = Element::<&'static str>::new("root", &mut counter).child(with_data).child(plain);
    let (_render, event, data) = root.build();
    assert!(event.is_none());
    let dt = data.expect("a declared payload must produce a data tree");
    assert_eq!(dt.len(), 2);
    assert_eq!(dt.get(0).node, 0);
    assert_eq!(dt.get(0).data, None);
    let child = dt.children(0)[0];
    assert_eq!(dt.get(child).node, 1);
    assert_eq!(dt.get(child).data, Some("payload"));
}

#[test]
fn empty_listener_bundle_knows_it_is_empty() {
    let l = EventListener::default();
    assert!(l.is_empty());
    let mut l2 = EventListener::default();
    l2.onmouseup = true;
    assert!(!l2.is_empty());
}

#[test]
fn test_cache() {
    let mut data: IdTypeMap<&str> = IdTypeMap::new();
    let str_tag = TypeId::new(1);
    data.insert_memory(str_tag, MemId(0), "hello");
    let s = data.get_memory(str_tag, MemId(0));
    println!("s: {:?}", &s);
    assert_eq!(s, Some(&"hello"));

    let mut arcs: IdTypeMap<Arc<Mutex<i32>>> = IdTypeMap::new();
    let arc_tag = TypeId::new(2);
    arcs.insert_memory(arc_tag, MemId(1), Arc::new(Mutex::new(5)));
    let s = arcs.get_memory(arc_tag, MemId(1));
    println!("s: {:?}", &s);
    assert_eq!(*s.expect("inserted").lock().unwrap(), 5);
}

#[test]
fn store_keys_combine_type_and_identity() {
    assert_eq!(hash(TypeId::new(0b1100), MemId(0b1010)), 0b0110);
    // the same identity under two tags holds two entries
    let mut m: IdTypeMap<u32> = IdTypeMap::new();
    m.insert_memory(TypeId::new(1), MemId(7), 10);
    m.insert_memory(TypeId::new(2), MemId(7), 20);
    assert_eq!(m.get_memory(TypeId::new(1), MemId(7)), Some(&10));
    assert_eq!(m.get_memory(TypeId::new(2), MemId(7)), Some(&20));
    assert_eq!(m.get_memory(TypeId::new(3), MemId(7)), None);
}

#[test]
fn short_debug_format_prints_four_hex_digits() {
    assert_eq!(MemId(0).short_debug_format(), "0000");
    assert_eq!(MemId(0xabcd).short_debug_format(), "ABCD");
    assert_eq!(MemId(0x1_00ff).short_debug_format(), "00FF");
}

#[test]
fn node_attributes_update_in_place() {
    let mut n = NodeData::new("div");
    n.set_attribute("class", "a");
    n.set_attribute("id", "x");
    n.set_attribute("class", "b");
    assert_eq!(n.get_attribute("class"), Some(&"b".to_string()));
    assert_eq!(n.get_attribute("id"), Some(&"x".to_string()));
    assert_eq!(n.get_attribute("style"), None);
}
