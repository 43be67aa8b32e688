use gooey_window::{Tree, WidgetBehavior, Point, Size, Rect};

fn rect(x: i32, y: i32, width: u32, height: u32) -> Rect {
    Rect { origin: Point { x, y }, size: Size { width, height } }
}

fn focusable() -> WidgetBehavior {
    let mut behavior = WidgetBehavior::passive();
    behavior.accepts_focus = true;
    behavior
}

#[test]
fn widget_lookup_fails_silently() {
    let mut tree = Tree::new();
    let root = tree.push(WidgetBehavior::passive(), None);
    assert_eq!(tree.widget(root), Some(root));
    assert_eq!(tree.widget(5), None);
}

#[test]
fn slots_start_empty() {
    let mut tree = Tree::new();
    let root = tree.push(WidgetBehavior::passive(), None);
    assert_eq!(tree.focused_widget(), None);
    assert_eq!(tree.hovered_widget(), None);
    assert_eq!(tree.default_widget(), None);
    assert_eq!(tree.escape_widget(), None);
    tree.set_default_widget(root);
    tree.set_escape_widget(root);
    assert_eq!(tree.default_widget(), Some(root));
    assert_eq!(tree.escape_widget(), Some(root));
}

#[test]
fn record_visit_ignores_duplicates_and_unknown_ids() {
    let mut tree = Tree::new();
    let root = tree.push(WidgetBehavior::passive(), None);
    let child = tree.push(WidgetBehavior::passive(), Some(root));
    tree.record_visit(root);
    tree.record_visit(child);
    tree.record_visit(root);
    tree.record_visit(17);
    assert!(tree.visited(root));
    assert!(tree.visited(child));
    assert!(!tree.visited(17));
    assert_eq!(tree.render_order, vec![root, child]);
    tree.reset_render_order();
    assert!(!tree.visited(root));
    assert_eq!(tree.render_order.len(), 0);
}

#[test]
fn widgets_at_point_topmost_first() {
    let mut tree = Tree::new();
    let root = tree.push(WidgetBehavior::passive(), None);
    let a = tree.push(WidgetBehavior::passive(), Some(root));
    let b = tree.push(WidgetBehavior::passive(), Some(root));
    tree.set_layout(root, rect(0, 0, 100, 100));
    tree.set_layout(a, rect(10, 10, 30, 30));
    tree.set_layout(b, rect(20, 20, 30, 30));
    tree.record_visit(root);
    tree.record_visit(a);
    tree.record_visit(b);
    // (25, 25) is inside all three; most recently rendered comes first.
    assert_eq!(tree.widgets_at_point(Point { x: 25, y: 25 }), vec![b, a, root]);
    // (12, 12) misses b.
    assert_eq!(tree.widgets_at_point(Point { x: 12, y: 12 }), vec![a, root]);
    // (95, 95) hits only the root.
    assert_eq!(tree.widgets_at_point(Point { x: 95, y: 95 }), vec![root]);
    // Outside everything.
    assert_eq!(tree.widgets_at_point(Point { x: 200, y: 200 }), vec![]);
}

#[test]
fn widgets_at_point_skips_nodes_without_layout() {
    let mut tree = Tree::new();
    let root = tree.push(WidgetBehavior::passive(), None);
    let a = tree.push(WidgetBehavior::passive(), Some(root));
    tree.set_layout(root, rect(0, 0, 100, 100));
    tree.record_visit(root);
    tree.record_visit(a);
    assert_eq!(tree.widgets_at_point(Point { x: 5, y: 5 }), vec![root]);
}

#[test]
fn hover_picks_topmost_of_overlapping() {
    // A is rendered first, B after; both contain the probe point and both
    // pass their precise hit test: B, the topmost, must win.
    let mut tree = Tree::new();
    let root = tree.push(WidgetBehavior::passive(), None);
    let a = tree.push(WidgetBehavior::passive(), Some(root));
    let b = tree.push(WidgetBehavior::passive(), Some(root));
    tree.set_layout(root, rect(0, 0, 100, 100));
    tree.set_layout(a, rect(0, 0, 50, 50));
    tree.set_layout(b, rect(25, 25, 50, 50));
    tree.record_visit(root);
    tree.record_visit(a);
    tree.record_visit(b);
    let hit = vec![false, true, true];
    assert_eq!(tree.hover_target(Point { x: 30, y: 30 }, &hit), Some(b));
}

#[test]
fn hover_falls_through_failed_hit_tests() {
    let mut tree = Tree::new();
    let root = tree.push(WidgetBehavior::passive(), None);
    let a = tree.push(WidgetBehavior::passive(), Some(root));
    let b = tree.push(WidgetBehavior::passive(), Some(root));
    tree.set_layout(root, rect(0, 0, 100, 100));
    tree.set_layout(a, rect(0, 0, 50, 50));
    tree.set_layout(b, rect(25, 25, 50, 50));
    tree.record_visit(root);
    tree.record_visit(a);
    tree.record_visit(b);
    // B contains the point but its own hit test rejects it; A is next.
    let hit = vec![false, true, false];
    assert_eq!(tree.hover_target(Point { x: 30, y: 30 }, &hit), Some(a));
    // Nobody passes: no hover target.
    let none = vec![false, false, false];
    assert_eq!(tree.hover_target(Point { x: 30, y: 30 }, &none), None);
}

#[test]
fn focus_traversal_cycles_forward() {
    let mut tree = Tree::new();
    let root = tree.push(WidgetBehavior::passive(), None);
    let f1 = tree.push(focusable(), Some(root));
    let _plain = tree.push(WidgetBehavior::passive(), Some(root));
    let f2 = tree.push(focusable(), Some(root));
    assert_eq!(tree.next_focus(f1, false), Some(f2));
    assert_eq!(tree.next_focus(f2, false), Some(f1));
    assert_eq!(tree.next_focus(root, false), Some(f1));
}

#[test]
fn focus_traversal_cycles_backward() {
    let mut tree = Tree::new();
    let root = tree.push(WidgetBehavior::passive(), None);
    let f1 = tree.push(focusable(), Some(root));
    let _plain = tree.push(WidgetBehavior::passive(), Some(root));
    let f2 = tree.push(focusable(), Some(root));
    assert_eq!(tree.next_focus(f2, true), Some(f1));
    assert_eq!(tree.next_focus(f1, true), Some(f2));
}

#[test]
fn focus_traversal_round_trip() {
    // Forward from a focused widget, then backward from the result,
    // returns to the original widget.
    let mut tree = Tree::new();
    let root = tree.push(WidgetBehavior::passive(), None);
    let f1 = tree.push(focusable(), Some(root));
    let f2 = tree.push(focusable(), Some(root));
    let f3 = tree.push(focusable(), Some(root));
    for &start in &[f1, f2, f3] {
        let next = tree.next_focus(start, false).unwrap();
        assert_eq!(tree.next_focus(next, true), Some(start));
    }
}

#[test]
fn focus_traversal_single_widget_wraps_to_itself() {
    let mut tree = Tree::new();
    let root = tree.push(WidgetBehavior::passive(), None);
    let only = tree.push(focusable(), Some(root));
    assert_eq!(tree.next_focus(only, false), Some(only));
    assert_eq!(tree.next_focus(only, true), Some(only));
}

#[test]
fn focus_traversal_without_focusable_widgets() {
    let mut tree = Tree::new();
    let root = tree.push(WidgetBehavior::passive(), None);
    let _plain = tree.push(WidgetBehavior::passive(), Some(root));
    assert_eq!(tree.next_focus(root, false), None);
    assert_eq!(tree.next_focus(root, true), None);
}
