use gooey_window::{
    Tree, WidgetBehavior, WindowRuntime, WindowCommand, Key, Modifiers, MouseButton, Point, Size,
    Rect,
};

fn rect(x: i32, y: i32, width: u32, height: u32) -> Rect {
    Rect { origin: Point { x, y }, size: Size { width, height } }
}

fn focusable() -> WidgetBehavior {
    let mut behavior = WidgetBehavior::passive();
    behavior.accepts_focus = true;
    behavior
}

fn no_mods() -> Modifiers {
    Modifiers { primary: false, shift: false, possible_shortcut: false }
}

/// root(0) with child widget(1) laid out at (0,0) 100x100 inside the
/// root's (0,0) 400x400, both recorded in render order.
fn simple_runtime() -> WindowRuntime {
    let mut tree = Tree::new();
    let root = tree.push(WidgetBehavior::passive(), None);
    let child = tree.push(WidgetBehavior::passive(), Some(root));
    tree.set_layout(root, rect(0, 0, 400, 400));
    tree.set_layout(child, rect(0, 0, 100, 100));
    tree.record_visit(root);
    tree.record_visit(child);
    WindowRuntime::new(tree)
}

#[test]
fn press_captures_and_release_delivers_to_captor() {
    // Press at (10,10) over widget 1; the capture map gains the entry.
    // A release at (500,500) still delivers the mouse-up to widget 1 with
    // the offset from its layout origin, not to whatever is there now.
    let mut rt = simple_runtime();
    let hit = vec![false, true];
    let moved = rt.cursor_moved(7, Point { x: 10, y: 10 }, &hit);
    assert!(!moved.dragging);
    assert_eq!(moved.hover_enter, Some(1));
    assert_eq!(rt.tree.hovered_widget(), Some(1));

    let verdicts = vec![false, true];
    let press = rt.mouse_input(7, MouseButton::Left, true, &verdicts);
    assert_eq!(press.captured, Some(1));
    assert_eq!(press.release, None);
    assert_eq!(rt.captures.get(7, MouseButton::Left), Some(1));

    // Move far away: the device is mid-drag, so the capture receives a
    // drag delivery and hover is not recomputed.
    let far = Point { x: 500, y: 500 };
    let drag = rt.cursor_moved(7, far, &vec![false, false]);
    assert!(drag.dragging);
    assert_eq!(drag.drags.len(), 1);
    assert_eq!(drag.drags[0].widget, 1);
    assert_eq!(drag.drags[0].button, MouseButton::Left);
    assert_eq!(drag.drags[0].offset, Point { x: 500, y: 500 });
    assert_eq!(rt.tree.hovered_widget(), Some(1));

    let release = rt.mouse_input(7, MouseButton::Left, false, &vec![false, false]);
    let delivery = release.release.unwrap();
    assert_eq!(delivery.widget, 1);
    assert_eq!(delivery.offset, Some(Point { x: 500, y: 500 }));
    // The capture is gone: never left dangling after release.
    assert_eq!(rt.captures.get(7, MouseButton::Left), None);
    assert!(!rt.captures.device_active(7));
}

#[test]
fn press_without_hover_captures_nothing_but_clears_focus() {
    let mut rt = simple_runtime();
    rt.tree.set_accepts_focus(1, true);
    rt.tree.set_focus(1);
    let press = rt.mouse_input(7, MouseButton::Left, true, &vec![false, false]);
    assert_eq!(press.captured, None);
    assert_eq!(rt.tree.focused_widget(), None);
    assert!(!rt.captures.device_active(7));
}

#[test]
fn press_ignored_by_every_widget_captures_nothing() {
    let mut rt = simple_runtime();
    rt.cursor_moved(7, Point { x: 10, y: 10 }, &vec![false, true]);
    let press = rt.mouse_input(7, MouseButton::Left, true, &vec![false, false]);
    assert_eq!(press.captured, None);
    assert!(!rt.captures.device_active(7));
}

#[test]
fn press_bubbles_to_ancestor_and_captures_it() {
    let mut rt = simple_runtime();
    rt.cursor_moved(7, Point { x: 10, y: 10 }, &vec![false, true]);
    // The child ignores the press; the root consumes it and is captured.
    let press = rt.mouse_input(7, MouseButton::Left, true, &vec![true, false]);
    assert_eq!(press.captured, Some(0));
    assert_eq!(rt.captures.get(7, MouseButton::Left), Some(0));
}

#[test]
fn release_without_capture_is_ignored() {
    let mut rt = simple_runtime();
    let release = rt.mouse_input(7, MouseButton::Left, false, &vec![false, false]);
    assert_eq!(release.release, None);
    assert_eq!(release.captured, None);
}

#[test]
fn drag_takes_priority_over_hover_per_device() {
    let mut rt = simple_runtime();
    rt.cursor_moved(7, Point { x: 10, y: 10 }, &vec![false, true]);
    rt.mouse_input(7, MouseButton::Left, true, &vec![false, true]);
    // Device 7 is mid-drag: no hover recomputation for its moves.
    let moved = rt.cursor_moved(7, Point { x: 300, y: 300 }, &vec![true, false]);
    assert!(moved.dragging);
    assert_eq!(moved.hover_enter, None);
    assert_eq!(rt.tree.hovered_widget(), Some(1));
    // Another device without captures still recomputes hover.
    let other = rt.cursor_moved(8, Point { x: 300, y: 300 }, &vec![true, false]);
    assert!(!other.dragging);
    assert_eq!(other.hover_enter, Some(0));
    assert_eq!(rt.tree.hovered_widget(), Some(0));
}

#[test]
fn hover_cleared_when_no_candidate_passes() {
    let mut rt = simple_runtime();
    rt.cursor_moved(7, Point { x: 10, y: 10 }, &vec![false, true]);
    assert_eq!(rt.tree.hovered_widget(), Some(1));
    let moved = rt.cursor_moved(7, Point { x: 10, y: 10 }, &vec![false, false]);
    assert_eq!(moved.hover_enter, None);
    assert_eq!(rt.tree.hovered_widget(), None);
}

#[test]
fn cursor_left_clears_hover() {
    let mut rt = simple_runtime();
    rt.cursor_moved(7, Point { x: 10, y: 10 }, &vec![false, true]);
    assert_eq!(rt.tree.hovered_widget(), Some(1));
    assert!(rt.cursor_left());
    assert_eq!(rt.tree.hovered_widget(), None);
    assert!(!rt.cursor_left());
}

#[test]
fn wheel_targets_hovered_widget_and_falls_back_to_root() {
    let mut rt = simple_runtime();
    // Nothing hovered: the wheel starts at the root.
    assert_eq!(rt.mouse_wheel(&vec![true, true]), Some(0));
    rt.cursor_moved(7, Point { x: 10, y: 10 }, &vec![false, true]);
    assert_eq!(rt.mouse_wheel(&vec![true, true]), Some(1));
    // Hovered widget ignores it: it bubbles to the root.
    assert_eq!(rt.mouse_wheel(&vec![true, false]), Some(0));
    assert_eq!(rt.mouse_wheel(&vec![false, false]), None);
}

#[test]
fn ime_targets_focused_widget_and_falls_back_to_root() {
    let mut rt = simple_runtime();
    assert_eq!(rt.ime(&vec![true, true]), Some(0));
    rt.tree.set_accepts_focus(1, true);
    rt.tree.set_focus(1);
    assert_eq!(rt.ime(&vec![true, true]), Some(1));
    assert_eq!(rt.ime(&vec![false, false]), None);
}

#[test]
fn enter_activates_then_deactivates_default_widget() {
    // A press-then-release pair on the confirm key activates, then
    // deactivates, the default widget exactly once each.
    let mut rt = simple_runtime();
    rt.tree.set_default_widget(1);
    let verdicts = vec![false, false];
    let press = rt.keyboard_input(Key::Enter, true, no_mods(), &verdicts, true);
    assert_eq!(press.handled_by, None);
    assert_eq!(press.change.activated, Some(1));
    assert_eq!(press.change.deactivated, None);
    assert_eq!(rt.keyboard_activated, Some(1));
    let release = rt.keyboard_input(Key::Enter, false, no_mods(), &verdicts, true);
    assert_eq!(release.change.activated, None);
    assert_eq!(release.change.deactivated, Some(1));
    assert_eq!(rt.keyboard_activated, None);
}

#[test]
fn enter_without_default_widget_activates_nothing() {
    let mut rt = simple_runtime();
    let verdicts = vec![false, false];
    let press = rt.keyboard_input(Key::Enter, true, no_mods(), &verdicts, true);
    assert_eq!(press.change.activated, None);
    assert_eq!(press.change.deactivated, None);
    let release = rt.keyboard_input(Key::Enter, false, no_mods(), &verdicts, true);
    assert_eq!(release.change.activated, None);
    assert_eq!(release.change.deactivated, None);
    assert_eq!(rt.keyboard_activated, None);
}

#[test]
fn escape_activates_escape_widget() {
    let mut rt = simple_runtime();
    rt.tree.set_escape_widget(0);
    let verdicts = vec![false, false];
    let press = rt.keyboard_input(Key::Escape, true, no_mods(), &verdicts, true);
    assert_eq!(press.change.activated, Some(0));
    let release = rt.keyboard_input(Key::Escape, false, no_mods(), &verdicts, true);
    assert_eq!(release.change.deactivated, Some(0));
}

#[test]
fn activating_new_widget_deactivates_previous() {
    let mut rt = simple_runtime();
    rt.tree.set_default_widget(1);
    rt.tree.set_escape_widget(0);
    let verdicts = vec![false, false];
    rt.keyboard_input(Key::Enter, true, no_mods(), &verdicts, true);
    let second = rt.keyboard_input(Key::Escape, true, no_mods(), &verdicts, true);
    assert_eq!(second.change.deactivated, Some(1));
    assert_eq!(second.change.activated, Some(0));
    assert_eq!(rt.keyboard_activated, Some(0));
}

#[test]
fn handled_key_event_reaches_no_machine() {
    // The focused widget consumes the Enter press: no activation occurs.
    let mut rt = simple_runtime();
    rt.tree.set_default_widget(1);
    let verdicts = vec![true, true];
    let press = rt.keyboard_input(Key::Enter, true, no_mods(), &verdicts, true);
    assert_eq!(press.handled_by, Some(0));
    assert_eq!(press.change.activated, None);
    assert_eq!(rt.keyboard_activated, None);
}

#[test]
fn tab_advances_focus_and_reverse_returns() {
    let mut rt = simple_runtime();
    rt.tree.set_accepts_focus(0, true);
    rt.tree.set_accepts_focus(1, true);
    rt.tree.set_focus(0);
    let verdicts = vec![false, false];
    rt.keyboard_input(Key::Tab, true, no_mods(), &verdicts, true);
    assert_eq!(rt.tree.focused_widget(), Some(1));
    let shift = Modifiers { primary: false, shift: true, possible_shortcut: false };
    rt.keyboard_input(Key::Tab, true, shift, &verdicts, true);
    assert_eq!(rt.tree.focused_widget(), Some(0));
}

#[test]
fn tab_in_shortcut_chord_is_ignored() {
    let mut rt = simple_runtime();
    rt.tree.set_accepts_focus(0, true);
    rt.tree.set_accepts_focus(1, true);
    rt.tree.set_focus(0);
    let mods = Modifiers { primary: true, shift: false, possible_shortcut: true };
    rt.keyboard_input(Key::Tab, true, mods, &vec![false, false], true);
    assert_eq!(rt.tree.focused_widget(), Some(0));
}

#[test]
fn tab_release_does_not_move_focus() {
    let mut rt = simple_runtime();
    rt.tree.set_accepts_focus(0, true);
    rt.tree.set_accepts_focus(1, true);
    rt.tree.set_focus(0);
    rt.keyboard_input(Key::Tab, false, no_mods(), &vec![false, false], true);
    assert_eq!(rt.tree.focused_widget(), Some(0));
}

#[test]
fn close_chord_asks_behavior_and_requests_redraw() {
    let mut rt = simple_runtime();
    let mods = Modifiers { primary: true, shift: false, possible_shortcut: true };
    let verdicts = vec![false, false];
    // The behavior refuses: the window stays open.
    let refused = rt.keyboard_input(Key::Character('w'), true, mods, &verdicts, false);
    assert!(!refused.needs_redraw);
    assert!(!rt.should_close);
    // The behavior allows: should-close is set and a redraw is due.
    let allowed = rt.keyboard_input(Key::Character('w'), true, mods, &verdicts, true);
    assert!(allowed.needs_redraw);
    assert!(rt.should_close);
}

#[test]
fn close_chord_needs_primary_modifier() {
    let mut rt = simple_runtime();
    let outcome = rt.keyboard_input(Key::Character('w'), true, no_mods(), &vec![false, false], true);
    assert!(!outcome.needs_redraw);
    assert!(!rt.should_close);
}

#[test]
fn other_keys_only_bubble() {
    let mut rt = simple_runtime();
    rt.tree.set_default_widget(1);
    let outcome = rt.keyboard_input(Key::Other, true, no_mods(), &vec![false, false], true);
    assert_eq!(outcome.handled_by, None);
    assert_eq!(outcome.change.activated, None);
    assert!(!rt.should_close);
}

#[test]
fn request_close_is_sticky() {
    let mut rt = simple_runtime();
    assert!(!rt.request_close(false));
    assert!(rt.request_close(true));
    assert!(rt.request_close(false));
    assert!(rt.should_close);
}

#[test]
fn redraw_command_requests_redraw() {
    let rt = simple_runtime();
    assert!(rt.handle_command(WindowCommand::Redraw));
}

#[test]
fn drag_and_release_offsets_use_layout_origin() {
    let mut tree = Tree::new();
    let root = tree.push(WidgetBehavior::passive(), None);
    let child = tree.push(WidgetBehavior::passive(), Some(root));
    tree.set_layout(root, rect(0, 0, 400, 400));
    tree.set_layout(child, rect(50, 60, 100, 100));
    tree.record_visit(root);
    tree.record_visit(child);
    let mut rt = WindowRuntime::new(tree);
    rt.cursor_moved(3, Point { x: 55, y: 70 }, &vec![false, true]);
    rt.mouse_input(3, MouseButton::Right, true, &vec![false, true]);
    let drag = rt.cursor_moved(3, Point { x: 200, y: 100 }, &vec![false, false]);
    assert_eq!(drag.drags[0].offset, Point { x: 150, y: 40 });
    let release = rt.mouse_input(3, MouseButton::Right, false, &vec![false, false]);
    assert_eq!(release.release.unwrap().offset, Some(Point { x: 150, y: 40 }));
}

#[test]
fn release_without_cursor_location_has_no_offset() {
    let mut rt = simple_runtime();
    rt.cursor_moved(3, Point { x: 10, y: 10 }, &vec![false, true]);
    rt.mouse_input(3, MouseButton::Left, true, &vec![false, true]);
    rt.cursor = None;
    let release = rt.mouse_input(3, MouseButton::Left, false, &vec![false, false]);
    let delivery = release.release.unwrap();
    assert_eq!(delivery.widget, 1);
    assert_eq!(delivery.offset, None);
}
