use xinghuo_core::error::Error;
use xinghuo_core::geom::{box2, vec2, Box2, Color, Quad, Rect, Vec2};

#[test]
fn colors_parse_from_hex_and_packed_forms() {
    let c = Color::from("#12345678");
    assert_eq!((c.r(), c.g(), c.b(), c.a()), (0x12, 0x34, 0x56, 0x78));
    // a malformed channel pair falls back to 255
    let c2 = Color::from("#zz345678");
    assert_eq!(c2.r(), 255);
    assert_eq!(c2.g(), 0x34);
    // anything else yields the default
    assert_eq!(Color::from("red"), Color::default());
    let packed = Color::from(0xff0000ffu32);
    assert_eq!((packed.r(), packed.g(), packed.b(), packed.a()), (255, 0, 0, 255));
}

#[test]
fn boxes_measure_and_convert() {
    let b = box2(vec2(1_000, 2_000), vec2(5_000, 9_000));
    assert_eq!(b.width(), 4_000);
    assert_eq!(b.height(), 7_000);
    assert_eq!(b.size(), Vec2 { x: 4_000, y: 7_000 });
    let r = b.to_rect();
    assert_eq!(r.origin, Vec2 { x: 1_000, y: 2_000 });
    assert_eq!(r.size, Vec2 { x: 4_000, y: 7_000 });
    assert_eq!(r.to_box2d(), b);
    assert!(!b.is_empty());
    assert!(Box2::zero().is_empty());
    let moved = b.translate(vec2(10, 20));
    assert_eq!(moved.min, Vec2 { x: 1_010, y: 2_020 });
}

#[test]
fn box_set_operations() {
    let a = box2(vec2(0, 0), vec2(10, 10));
    let b = box2(vec2(5, 5), vec2(15, 15));
    assert!(a.intersects(&b));
    let i = a.intersection(&b).unwrap();
    assert_eq!(i, box2(vec2(5, 5), vec2(10, 10)));
    let u = a.union(&b);
    assert_eq!(u, box2(vec2(0, 0), vec2(15, 15)));
    assert!(a.contains(vec2(0, 0)));
    assert!(!a.contains(vec2(10, 10)));
    assert!(u.contains_box(&a));
    let far = box2(vec2(20, 20), vec2(30, 30));
    assert!(a.intersection(&far).is_none());
    assert_eq!(a.inflate(1, 2), box2(vec2(-1, -2), vec2(11, 12)));
}

#[test]
fn quads_carry_their_fill() {
    let r = Rect::new(vec2(0, 0), vec2(5, 5));
    let q = Quad::new(r, Color::from(0x11223344u32));
    assert_eq!(q.rect, r);
    assert_eq!(q.color.r(), 0x11);
    assert_eq!(q.border_width, 0);
}

#[test]
fn errors_describe_themselves() {
    assert_eq!(Error::SizeFormatError.message(), "malformed size parameter");
    assert_eq!(Error::Any("boom".to_string()).message(), "boom");
    assert_ne!(Error::Unknown.message(), "");
    assert_eq!(Error::Unknown, Error::Unknown);
}
