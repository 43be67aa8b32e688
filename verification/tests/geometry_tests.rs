use gooey_window::{Point, Size, Rect};

fn rect(x: i32, y: i32, width: u32, height: u32) -> Rect {
    Rect { origin: Point { x, y }, size: Size { width, height } }
}

#[test]
fn rect_contains_is_half_open() {
    let r = rect(10, 20, 30, 40);
    assert!(r.contains(Point { x: 10, y: 20 }));
    assert!(r.contains(Point { x: 39, y: 59 }));
    assert!(!r.contains(Point { x: 40, y: 20 }));
    assert!(!r.contains(Point { x: 10, y: 60 }));
    assert!(!r.contains(Point { x: 9, y: 20 }));
    assert!(!r.contains(Point { x: 10, y: 19 }));
}

#[test]
fn empty_rect_contains_nothing() {
    let r = rect(5, 5, 0, 10);
    assert!(!r.contains(Point { x: 5, y: 5 }));
}

#[test]
fn rect_with_negative_origin() {
    let r = rect(-20, -20, 40, 40);
    assert!(r.contains(Point { x: 0, y: 0 }));
    assert!(r.contains(Point { x: -20, y: -20 }));
    assert!(!r.contains(Point { x: 20, y: 0 }));
}

#[test]
fn relative_to_subtracts_origin() {
    let r = rect(10, 20, 30, 40);
    assert_eq!(r.relative_to(Point { x: 15, y: 27 }), Point { x: 5, y: 7 });
    assert_eq!(r.relative_to(Point { x: 0, y: 0 }), Point { x: -10, y: -20 });
}

#[test]
fn size_min_max_are_componentwise() {
    let a = Size { width: 10, height: 40 };
    let b = Size { width: 30, height: 20 };
    assert_eq!(a.min(b), Size { width: 10, height: 20 });
    assert_eq!(a.max(b), Size { width: 30, height: 40 });
}
