//! The per-window runtime: the widget tree plus the mutable input state
//! (cursor location, press captures, keyboard activation, cached window
//! size limits), with one entry point per normalized host event and per
//! frame phase.
//!
//! Widget handlers, rendering and the OS window are external: handler
//! answers come in as verdict vectors, layout answers as plain sizes, and
//! every host-facing effect (size limits to apply, resize requests,
//! widgets to notify) goes back as a plain result value.

use vstd::prelude::*;
use crate::geometry::{Point, Size, Rect, ConstraintLimit, dimension_to_px, spec_dimension_to_px,
    COORD_LIMIT};
use crate::tree::{Tree, Node};
use crate::capture::{CaptureMap, MouseButton, device_entries_upto, pair_from_device,
    lemma_device_entries_member};
use crate::router::{recursively_handle_event, bubble_spec};

verus! {

/// A command the host loop forwards to a running window.
#[derive(Clone, Copy, Debug, PartialEq, Eq, Structural)]
pub enum WindowCommand {
    /// Schedule a redraw of the window contents.
    Redraw,
}

/// The keys the focus and activation machine reacts to; anything else is
/// only forwarded through the event router.
#[derive(Clone, Copy, Debug, PartialEq, Eq, Structural)]
pub enum Key {
    /// A character key, by the character it produces.
    Character(char),
    Tab,
    Enter,
    Escape,
    /// Any key the machine has no special handling for.
    Other,
}

/// The modifier state the host reports with a key event.
#[derive(Clone, Copy, Debug, PartialEq, Eq, Structural)]
pub struct Modifiers {
    /// The platform's primary command modifier is held.
    pub primary: bool,
    /// Shift is held.
    pub shift: bool,
    /// The held modifiers could form a reserved shortcut chord.
    pub possible_shortcut: bool,
}

/// Which widgets changed keyboard-activation state in response to an
/// activation key: the previously active widget to deactivate first, and
/// the newly activated one.
#[derive(Clone, Copy, Debug, PartialEq, Eq, Structural)]
pub struct ActivationChange {
    /// Widget the host must deliver a deactivate notification to.
    pub deactivated: Option<usize>,
    /// Widget the host must deliver an activate notification to.
    pub activated: Option<usize>,
}

impl ActivationChange {
    /// No activation state changed.
    pub open spec fn none() -> ActivationChange {
        ActivationChange { deactivated: None, activated: None }
    }
}

/// The keyboard-activation transition: on press of an activation key with
/// a live target, the previously active widget is deactivated and the
/// target activated; on release, whatever is active is deactivated. A
/// press with no live target changes nothing.
pub open spec fn spec_keyboard_activate(
    tree: Tree,
    activated: Option<usize>,
    is_pressed: bool,
    widget: Option<usize>,
) -> (Option<usize>, ActivationChange) {
    if is_pressed {
        match widget {
            Some(id) => if tree.live(id) {
                (Some(id), ActivationChange { deactivated: activated, activated: Some(id) })
            } else {
                (activated, ActivationChange::none())
            },
            None => (activated, ActivationChange::none()),
        }
    } else {
        (None, ActivationChange { deactivated: activated, activated: None })
    }
}

/// The node keyboard events start at: the focused widget, or the root.
pub open spec fn focused_or_root(tree: Tree) -> int {
    match tree.focused {
        Some(f) => f as int,
        None => 0,
    }
}

/// The node wheel events start at: the hovered widget, or the root.
pub open spec fn hovered_or_root(tree: Tree) -> int {
    match tree.hovered {
        Some(h) => h as int,
        None => 0,
    }
}

/// One drag delivery the host must perform: this widget receives a drag
/// event for this button, at this offset from its layout origin.
#[derive(Clone, Copy, Debug, PartialEq, Eq, Structural)]
pub struct DragDelivery {
    pub button: MouseButton,
    pub widget: usize,
    /// Cursor position relative to the widget's last layout origin.
    pub offset: Point,
}

/// The mouse-up delivery a release produces: the widget that captured
/// the press, and the cursor offset from its layout origin when both a
/// layout and a cursor location are known.
#[derive(Clone, Copy, Debug, PartialEq, Eq, Structural)]
pub struct MouseUpDelivery {
    pub widget: usize,
    pub offset: Option<Point>,
}

/// The runtime state of one open window.
#[derive(Debug)]
pub struct WindowRuntime {
    /// The widget tree and its singleton slots.
    pub tree: Tree,
    /// The active press captures.
    pub captures: CaptureMap,
    /// Last known cursor position, if the cursor is over the window.
    pub cursor: Option<Point>,
    /// The widget currently activated by an activation key, if any.
    pub keyboard_activated: Option<usize>,
    /// The minimum inner size last pushed to the host, if any.
    pub min_inner_size: Option<Size>,
    /// The maximum inner size last computed, if any.
    pub max_inner_size: Option<Size>,
    /// No frame has been finished yet: the next finished frame mounts the
    /// root and establishes initial focus.
    pub initial_frame: bool,
    /// The window has decided to close.
    pub should_close: bool,
}

impl WindowRuntime {
    /// The runtime is consistent: the tree is well-formed and rooted, the
    /// capture table is well-formed, every captured widget is a mounted
    /// node with a layout rectangle, and any cursor position is in range.
    pub open spec fn wf(self) -> bool {
        &&& self.tree.wf()
        &&& self.tree.spec_len() >= 1
        &&& self.captures.wf()
        &&& forall|j: int| 0 <= j < self.captures.entries@.len()
            ==> {
                let w = (#[trigger] self.captures.entries@[j]).widget;
                &&& self.tree.live(w)
                &&& self.tree.nodes@[w as int].layout is Some
            }
        &&& match self.cursor {
            Some(p) => p.in_range(),
            None => true,
        }
        &&& match self.keyboard_activated {
            Some(k) => self.tree.live(k),
            None => true,
        }
    }

    /// A fresh runtime around a tree that already holds its root. The
    /// first finished frame will mount the root and set initial focus.
    pub fn new(tree: Tree) -> (r: WindowRuntime)
        requires
            tree.wf(),
            tree.spec_len() >= 1,
        ensures
            r.wf(),
            r.tree == tree,
            r.captures@ =~= Map::<(u64, MouseButton), usize>::empty(),
            r.cursor is None,
            r.keyboard_activated is None,
            r.min_inner_size is None,
            r.max_inner_size is None,
            r.initial_frame,
            !r.should_close,
    {
        WindowRuntime {
            tree,
            captures: CaptureMap::new(),
            cursor: None,
            keyboard_activated: None,
            min_inner_size: None,
            max_inner_size: None,
            initial_frame: true,
            should_close: false,
        }
    }

    /// Asks the behavior layer whether the window may close and records
    /// the decision: once the window has decided to close, it stays
    /// closing. Returns whether the window should now close.
    pub fn request_close(&mut self, close_allowed: bool) -> (r: bool)
        requires
            old(self).wf(),
        ensures
            final(self).wf(),
            final(self).should_close == (old(self).should_close || close_allowed),
            r == final(self).should_close,
            *final(self) == (WindowRuntime { should_close: final(self).should_close, ..*old(self) }),
    {
        self.should_close = self.should_close || close_allowed;
        self.should_close
    }

    /// Applies an activation key transition for `widget` (the tree's
    /// default or escape target): press activates it after deactivating
    /// whatever was active; release deactivates. Returns the widgets the
    /// host must notify.
    pub fn keyboard_activate_widget(&mut self, is_pressed: bool, widget: Option<usize>) -> (r:
        ActivationChange)
        requires
            old(self).wf(),
        ensures
            final(self).wf(),
            (final(self).keyboard_activated, r) == spec_keyboard_activate(
                old(self).tree,
                old(self).keyboard_activated,
                is_pressed,
                widget,
            ),
            *final(self) == (WindowRuntime {
                keyboard_activated: final(self).keyboard_activated,
                ..*old(self)
            }),
    {
        if is_pressed {
            match widget {
                Some(id) => {
                    if id < self.tree.len() {
                        let previously = self.keyboard_activated;
                        self.keyboard_activated = Some(id);
                        ActivationChange { deactivated: previously, activated: Some(id) }
                    } else {
                        ActivationChange { deactivated: None, activated: None }
                    }
                },
                None => ActivationChange { deactivated: None, activated: None },
            }
        } else {
            let previously = self.keyboard_activated;
            self.keyboard_activated = None;
            ActivationChange { deactivated: previously, activated: None }
        }
    }

    /// Routes a mouse wheel event: it starts at the hovered widget (or
    /// the root when nothing is hovered) and bubbles toward the root.
    /// Mutates nothing; returns the node that consumed it, if any.
    pub fn mouse_wheel(&self, verdicts: &Vec<bool>) -> (r: Option<usize>)
        requires
            self.wf(),
            verdicts@.len() == self.tree.spec_len(),
        ensures
            r == bubble_spec(self.tree.nodes@, hovered_or_root(self.tree), verdicts@),
    {
        let target = match self.tree.hovered_widget() {
            Some(h) => h,
            None => 0,
        };
        recursively_handle_event(&self.tree, target, verdicts)
    }

    /// Routes an IME event: it starts at the focused widget (or the root
    /// when nothing is focused) and bubbles toward the root. Mutates
    /// nothing; returns the node that consumed it, if any.
    pub fn ime(&self, verdicts: &Vec<bool>) -> (r: Option<usize>)
        requires
            self.wf(),
            verdicts@.len() == self.tree.spec_len(),
        ensures
            r == bubble_spec(self.tree.nodes@, focused_or_root(self.tree), verdicts@),
    {
        let target = match self.tree.focused_widget() {
            Some(f) => f,
            None => 0,
        };
        recursively_handle_event(&self.tree, target, verdicts)
    }

    /// Reacts to a host command: a redraw command asks for a redraw.
    pub fn handle_command(&self, command: WindowCommand) -> (needs_redraw: bool)
        ensures
            needs_redraw == (command == WindowCommand::Redraw),
    {
        match command {
            WindowCommand::Redraw => true,
        }
    }
}

/// Confirm and cancel activation are symmetric: pressing the key and then
/// releasing it activates and then deactivates the target widget exactly
/// once each, and with no target set no activation occurs at all.
pub proof fn lemma_activation_symmetric(tree: Tree, activation_target: Option<usize>)
    requires
        tree.wf(),
        match activation_target {
            Some(id) => tree.live(id),
            None => true,
        },
    ensures
        ({
            let (after_press, press_change) = spec_keyboard_activate(
                tree,
                None,
                true,
                activation_target,
            );
            let (after_release, release_change) = spec_keyboard_activate(
                tree,
                after_press,
                false,
                activation_target,
            );
            match activation_target {
                Some(id) => {
                    &&& press_change == (ActivationChange {
                        deactivated: None,
                        activated: Some(id),
                    })
                    &&& release_change == (ActivationChange {
                        deactivated: Some(id),
                        activated: None,
                    })
                    &&& after_release is None
                },
                None => {
                    &&& press_change == ActivationChange::none()
                    &&& release_change == (ActivationChange { deactivated: None, activated: None })
                    &&& after_press is None
                    &&& after_release is None
                },
            }
        }),
{
}

/// A press capture is created on press and dissolved by exactly the
/// matching release: inserting a (device, button) binding and then
/// removing it returns the capture table to its prior state, and the
/// release resolves to the widget bound at press time.
pub proof fn lemma_capture_press_release(
    captures: Map<(u64, MouseButton), usize>,
    device: u64,
    button: MouseButton,
    widget: usize,
)
    requires
        !captures.contains_key((device, button)),
    ensures
        captures.insert((device, button), widget).contains_key((device, button)),
        captures.insert((device, button), widget)[(device, button)] == widget,
        captures.insert((device, button), widget).remove((device, button)) =~= captures,
{
}


/// The outcome of one keyboard event: which node consumed it through the
/// router, which widgets changed activation state, and whether the host
/// must schedule a redraw.
#[derive(Clone, Copy, Debug, PartialEq, Eq, Structural)]
pub struct KeyboardResult {
    /// The node that consumed the event via bubbling, if any.
    pub handled_by: Option<usize>,
    /// Widgets to notify of activation changes.
    pub change: ActivationChange,
    /// The host must schedule a redraw.
    pub needs_redraw: bool,
}

/// The origin of the layout rectangle last computed for `w`.
pub open spec fn spec_layout_origin(tree: Tree, w: usize) -> Point {
    tree.nodes@[w as int].layout.unwrap().origin
}

/// The outcome of a cursor move: with an active capture for the moving
/// device, the drags to deliver (hover untouched); otherwise the
/// recomputed hover target to notify, if any.
#[derive(Debug)]
pub struct CursorMovedOutcome {
    /// The device is mid-drag: captures took priority over hover.
    pub dragging: bool,
    /// Drag deliveries, one per capture this device holds, in table order.
    pub drags: Vec<DragDelivery>,
    /// The widget that newly hovers under the cursor and must receive a
    /// hover-enter notification.
    pub hover_enter: Option<usize>,
}

/// The outcome of a button event: the widget that captured a press, or
/// the mouse-up delivery a release produced.
#[derive(Clone, Copy, Debug, PartialEq, Eq, Structural)]
pub struct MouseInputOutcome {
    /// On press: the node that consumed the press and now holds the
    /// capture for this (device, button).
    pub captured: Option<usize>,
    /// On release: the widget to deliver the mouse-up to, with its
    /// offset, even if the cursor has left its bounds.
    pub release: Option<MouseUpDelivery>,
}

impl WindowRuntime {
    /// Handles one keyboard event: the event starts at the focused widget
    /// (or the root) and bubbles; only when no widget consumes it does the
    /// focus and activation machine react — close on the primary-modifier
    /// "w" chord, tab traversal, confirm and cancel activation.
    /// `close_allowed` is the behavior layer's answer to a close request.
    pub fn keyboard_input(
        &mut self,
        key: Key,
        is_pressed: bool,
        mods: Modifiers,
        verdicts: &Vec<bool>,
        close_allowed: bool,
    ) -> (r: KeyboardResult)
        requires
            old(self).wf(),
            verdicts@.len() == old(self).tree.spec_len(),
        ensures
            final(self).wf(),
            r.handled_by == bubble_spec(
                old(self).tree.nodes@,
                focused_or_root(old(self).tree),
                verdicts@,
            ),
            r.handled_by is Some ==> *final(self) == *old(self) && r.change
                == ActivationChange::none() && !r.needs_redraw,
            r.handled_by is None ==> match key {
                Key::Character(c) => {
                    &&& if c == 'w' && mods.primary {
                        &&& final(self).should_close == (old(self).should_close || (is_pressed
                            && close_allowed))
                        &&& *final(self) == (WindowRuntime {
                            should_close: final(self).should_close,
                            ..*old(self)
                        })
                        &&& r.needs_redraw == (is_pressed && final(self).should_close)
                    } else {
                        &&& *final(self) == *old(self)
                        &&& !r.needs_redraw
                    }
                    &&& r.change == ActivationChange::none()
                },
                Key::Tab => {
                    &&& if is_pressed && !mods.possible_shortcut {
                        &&& match old(self).tree.spec_next_focus(
                            focused_or_root(old(self).tree) as usize,
                            mods.shift,
                        ) {
                            Some(n) => final(self).tree == (Tree {
                                focused: Some(n),
                                ..old(self).tree
                            }),
                            None => final(self).tree == old(self).tree,
                        }
                        &&& *final(self) == (WindowRuntime {
                            tree: final(self).tree,
                            ..*old(self)
                        })
                    } else {
                        *final(self) == *old(self)
                    }
                    &&& r.change == ActivationChange::none()
                    &&& !r.needs_redraw
                },
                Key::Enter => {
                    &&& (final(self).keyboard_activated, r.change) == spec_keyboard_activate(
                        old(self).tree,
                        old(self).keyboard_activated,
                        is_pressed,
                        old(self).tree.default_widget,
                    )
                    &&& *final(self) == (WindowRuntime {
                        keyboard_activated: final(self).keyboard_activated,
                        ..*old(self)
                    })
                    &&& !r.needs_redraw
                },
                Key::Escape => {
                    &&& (final(self).keyboard_activated, r.change) == spec_keyboard_activate(
                        old(self).tree,
                        old(self).keyboard_activated,
                        is_pressed,
                        old(self).tree.escape_widget,
                    )
                    &&& *final(self) == (WindowRuntime {
                        keyboard_activated: final(self).keyboard_activated,
                        ..*old(self)
                    })
                    &&& !r.needs_redraw
                },
                Key::Other => *final(self) == *old(self) && r.change == ActivationChange::none()
                    && !r.needs_redraw,
            },
    {
        let target = match self.tree.focused_widget() {
            Some(f) => f,
            None => 0,
        };
        let handled = recursively_handle_event(&self.tree, target, verdicts);
        if handled.is_some() {
            return KeyboardResult {
                handled_by: handled,
                change: ActivationChange { deactivated: None, activated: None },
                needs_redraw: false,
            };
        }
        match key {
            Key::Character(c) => {
                let mut needs_redraw = false;
                if c == 'w' && mods.primary && is_pressed {
                    let closing = self.request_close(close_allowed);
                    if closing {
                        needs_redraw = true;
                    }
                }
                KeyboardResult {
                    handled_by: None,
                    change: ActivationChange { deactivated: None, activated: None },
                    needs_redraw,
                }
            },
            Key::Tab => {
                if is_pressed && !mods.possible_shortcut {
                    let from = match self.tree.focused_widget() {
                        Some(f) => f,
                        None => 0,
                    };
                    match self.tree.next_focus(from, mods.shift) {
                        Some(n) => self.tree.set_focus(n),
                        None => {},
                    }
                }
                KeyboardResult {
                    handled_by: None,
                    change: ActivationChange { deactivated: None, activated: None },
                    needs_redraw: false,
                }
            },
            Key::Enter => {
                let target_widget = self.tree.default_widget();
                let change = self.keyboard_activate_widget(is_pressed, target_widget);
                KeyboardResult { handled_by: None, change, needs_redraw: false }
            },
            Key::Escape => {
                let target_widget = self.tree.escape_widget();
                let change = self.keyboard_activate_widget(is_pressed, target_widget);
                KeyboardResult { handled_by: None, change, needs_redraw: false }
            },
            Key::Other => KeyboardResult {
                handled_by: None,
                change: ActivationChange { deactivated: None, activated: None },
                needs_redraw: false,
            },
        }
    }

    /// Clears hover when the cursor leaves the window; reports whether a
    /// widget was hovered, so the host knows a notification is due.
    pub fn cursor_left(&mut self) -> (hover_cleared: bool)
        requires
            old(self).wf(),
        ensures
            final(self).wf(),
            hover_cleared == (old(self).tree.hovered is Some),
            final(self).tree == (Tree { hovered: None, ..old(self).tree }),
            *final(self) == (WindowRuntime { tree: final(self).tree, ..*old(self) }),
    {
        if self.tree.hovered_widget().is_some() {
            self.tree.clear_hover();
            true
        } else {
            false
        }
    }

    /// Handles a cursor move. The last known location is updated first.
    /// If the moving device holds captures (is mid-drag), a drag delivery
    /// is produced for every captured (button, widget) pair, each offset
    /// against that widget's layout origin, and hover is left untouched:
    /// drag takes priority over hover. Otherwise hover is recomputed by
    /// probing the hit candidates topmost first with the per-widget
    /// precise-hit verdicts in `hit`, and cleared when every probe fails.
    pub fn cursor_moved(&mut self, device: u64, location: Point, hit: &Vec<bool>) -> (r:
        CursorMovedOutcome)
        requires
            old(self).wf(),
            location.in_range(),
            hit@.len() == old(self).tree.spec_len(),
        ensures
            final(self).wf(),
            final(self).cursor == Some(location),
            r.dragging == exists|b: MouseButton| old(self).captures@.contains_key((device, b)),
            r.dragging ==> {
                let pairs = device_entries_upto(
                    old(self).captures.entries@,
                    device,
                    old(self).captures.entries@.len() as int,
                );
                &&& *final(self) == (WindowRuntime { cursor: Some(location), ..*old(self) })
                &&& r.hover_enter is None
                &&& r.drags@.len() == pairs.len()
                &&& forall|k: int| 0 <= k < pairs.len() ==> {
                    let d = #[trigger] r.drags@[k];
                    &&& d.button == pairs[k].0
                    &&& d.widget == pairs[k].1
                    &&& d.offset.x == location.x - spec_layout_origin(
                        old(self).tree,
                        pairs[k].1,
                    ).x
                    &&& d.offset.y == location.y - spec_layout_origin(
                        old(self).tree,
                        pairs[k].1,
                    ).y
                }
            },
            !r.dragging ==> {
                &&& final(self).tree.hovered == old(self).tree.spec_hover(location, hit@)
                &&& final(self).tree == (Tree {
                    hovered: final(self).tree.hovered,
                    ..old(self).tree
                })
                &&& *final(self) == (WindowRuntime {
                    cursor: Some(location),
                    tree: final(self).tree,
                    ..*old(self)
                })
                &&& r.drags@.len() == 0
                &&& r.hover_enter == final(self).tree.hovered
            },
    {
        self.cursor = Some(location);
        if self.captures.device_active(device) {
            let pairs = self.captures.device_captures(device);
            proof {
                lemma_device_entries_member(
                    self.captures.entries@,
                    device,
                    self.captures.entries@.len() as int,
                );
            }
            let mut drags: Vec<DragDelivery> = Vec::new();
            let mut k: usize = 0;
            while k < pairs.len()
                invariant
                    self.wf(),
                    *self == (WindowRuntime { cursor: Some(location), ..*old(self) }),
                    location.in_range(),
                    pairs@ == device_entries_upto(
                        self.captures.entries@,
                        device,
                        self.captures.entries@.len() as int,
                    ),
                    forall|m: int| 0 <= m < pairs@.len() ==> pair_from_device(
                        self.captures.entries@,
                        device,
                        #[trigger] pairs@[m],
                    ),
                    k <= pairs@.len(),
                    drags@.len() == k,
                    forall|m: int| 0 <= m < k ==> {
                        let d = #[trigger] drags@[m];
                        &&& d.button == pairs@[m].0
                        &&& d.widget == pairs@[m].1
                        &&& d.offset.x == location.x - spec_layout_origin(
                            self.tree,
                            pairs@[m].1,
                        ).x
                        &&& d.offset.y == location.y - spec_layout_origin(
                            self.tree,
                            pairs@[m].1,
                        ).y
                    },
                decreases pairs@.len() - k,
            {
                let pair = pairs[k];
                let widget = pair.1;
                proof {
                    assert(pair_from_device(self.captures.entries@, device, pairs@[k as int]));
                    let m = choose|m: int|
                        {
                            &&& 0 <= m < self.captures.entries@.len()
                            &&& (#[trigger] self.captures.entries@[m]).device == device
                            &&& self.captures.entries@[m].button == pairs@[k as int].0
                            &&& self.captures.entries@[m].widget == pairs@[k as int].1
                        };
                    assert(self.tree.live(widget));
                    assert(self.tree.nodes@[widget as int].layout is Some);
                    assert(self.tree.node_wf(widget as int));
                }
                let rect = match self.tree.nodes[widget].layout {
                    Some(rect) => rect,
                    None => vstd::pervasive::unreached(),
                };
                let offset = rect.relative_to(location);
                drags.push(DragDelivery { button: pair.0, widget, offset });
                k += 1;
            }
            CursorMovedOutcome { dragging: true, drags, hover_enter: None }
        } else {
            let hover = self.tree.hover_target(location, hit);
            match hover {
                Some(w) => self.tree.set_hover(w),
                None => self.tree.clear_hover(),
            }
            CursorMovedOutcome { dragging: false, drags: Vec::new(), hover_enter: hover }
        }
    }

    /// Handles a button event. A press clears keyboard focus tree-wide
    /// first; then, when a widget is hovered and a cursor location is
    /// known, the press bubbles from the hovered widget, and whichever
    /// node consumes it is recorded in the capture table for this
    /// (device, button). A release dissolves that capture and produces a
    /// mouse-up delivery to the captured widget — wherever the cursor now
    /// is — with an offset when a location is known.
    pub fn mouse_input(
        &mut self,
        device: u64,
        button: MouseButton,
        is_pressed: bool,
        verdicts: &Vec<bool>,
    ) -> (r: MouseInputOutcome)
        requires
            old(self).wf(),
            verdicts@.len() == old(self).tree.spec_len(),
            old(self).captures.entries@.len() < usize::MAX,
            (is_pressed && old(self).cursor is Some && old(self).tree.hovered is Some)
                ==> match bubble_spec(
                old(self).tree.nodes@,
                old(self).tree.hovered.unwrap() as int,
                verdicts@,
            ) {
                Some(h) => old(self).tree.nodes@[h as int].layout is Some,
                None => true,
            },
        ensures
            final(self).wf(),
            is_pressed ==> {
                &&& final(self).tree == (Tree { focused: None, ..old(self).tree })
                &&& r.release is None
                &&& if old(self).cursor is Some && old(self).tree.hovered is Some {
                    &&& r.captured == bubble_spec(
                        old(self).tree.nodes@,
                        old(self).tree.hovered.unwrap() as int,
                        verdicts@,
                    )
                    &&& match r.captured {
                        Some(h) => final(self).captures@ =~= old(self).captures@.insert(
                            (device, button),
                            h,
                        ),
                        None => final(self).captures == old(self).captures,
                    }
                } else {
                    r.captured is None && final(self).captures == old(self).captures
                }
                &&& final(self).cursor == old(self).cursor
                &&& final(self).keyboard_activated == old(self).keyboard_activated
                &&& final(self).min_inner_size == old(self).min_inner_size
                &&& final(self).max_inner_size == old(self).max_inner_size
                &&& final(self).initial_frame == old(self).initial_frame
                &&& final(self).should_close == old(self).should_close
            },
            !is_pressed ==> {
                &&& final(self).tree == old(self).tree
                &&& r.captured is None
                &&& final(self).captures@ =~= old(self).captures@.remove((device, button))
                &&& (old(self).captures@.contains_key((device, button)) <==> r.release is Some)
                &&& match r.release {
                    Some(del) => {
                        &&& del.widget == old(self).captures@[(device, button)]
                        &&& match old(self).cursor {
                            Some(loc) => {
                                &&& del.offset is Some
                                &&& del.offset.unwrap().x == loc.x - spec_layout_origin(
                                    old(self).tree,
                                    del.widget,
                                ).x
                                &&& del.offset.unwrap().y == loc.y - spec_layout_origin(
                                    old(self).tree,
                                    del.widget,
                                ).y
                            },
                            None => del.offset is None,
                        }
                    },
                    None => true,
                }
                &&& final(self).cursor == old(self).cursor
                &&& final(self).keyboard_activated == old(self).keyboard_activated
                &&& final(self).min_inner_size == old(self).min_inner_size
                &&& final(self).max_inner_size == old(self).max_inner_size
                &&& final(self).initial_frame == old(self).initial_frame
                &&& final(self).should_close == old(self).should_close
            },
    {
        if is_pressed {
            self.tree.clear_focus();
            let outcome = match (self.cursor, self.tree.hovered_widget()) {
                (Some(_loc), Some(h)) => {
                    let handler = recursively_handle_event(&self.tree, h, verdicts);
                    match handler {
                        Some(hd) => {
                            proof {
                                broadcast use vstd::std_specs::vec::axiom_spec_len;

                                assert(vstd::std_specs::vec::spec_vec_len(&self.tree.nodes)
                                    <= usize::MAX);
                                crate::router::lemma_bubble_live(
                                    self.tree.nodes@,
                                    h as int,
                                    verdicts@,
                                );
                            }
                            self.captures.insert(device, button, hd);
                            proof {
                                assert forall|j: int|
                                    0 <= j < self.captures.entries@.len() implies {
                                    let w = (#[trigger] self.captures.entries@[j]).widget;
                                    &&& self.tree.live(w)
                                    &&& self.tree.nodes@[w as int].layout is Some
                                } by {
                                    if self.captures.entries@[j].widget != hd {
                                        let m = choose|m: int|
                                            0 <= m < old(self).captures.entries@.len()
                                                && self.captures.entries@[j] == #[trigger] old(
                                                self,
                                            ).captures.entries@[m];
                                        assert(old(self).captures.entries@[m].widget
                                            == self.captures.entries@[j].widget);
                                    }
                                }
                            }
                            MouseInputOutcome { captured: Some(hd), release: None }
                        },
                        None => MouseInputOutcome { captured: None, release: None },
                    }
                },
                _ => MouseInputOutcome { captured: None, release: None },
            };
            outcome
        } else {
            let removed = self.captures.remove(device, button);
            match removed {
                Some(w) => {
                    proof {
                        let m = choose|m: int|
                            0 <= m < old(self).captures.entries@.len()
                                && (#[trigger] old(self).captures.entries@[m]).widget == w;
                        assert(self.tree.live(w));
                        assert(self.tree.nodes@[w as int].layout is Some);
                        assert(self.tree.node_wf(w as int));
                    }
                    let offset = match (self.tree.nodes[w].layout, self.cursor) {
                        (Some(rect), Some(loc)) => Some(rect.relative_to(loc)),
                        _ => None,
                    };
                    proof {
                        assert forall|j: int| 0 <= j < self.captures.entries@.len() implies {
                            let cw = (#[trigger] self.captures.entries@[j]).widget;
                            &&& self.tree.live(cw)
                            &&& self.tree.nodes@[cw as int].layout is Some
                        } by {
                            let m = choose|m: int|
                                0 <= m < old(self).captures.entries@.len()
                                    && #[trigger] self.captures.entries@[j] == old(
                                    self,
                                ).captures.entries@[m];
                            assert(old(self).captures.entries@[m].widget
                                == self.captures.entries@[j].widget);
                        }
                    }
                    MouseInputOutcome {
                        captured: None,
                        release: Some(MouseUpDelivery { widget: w, offset }),
                    }
                },
                None => {
                    proof {
                        assert forall|j: int| 0 <= j < self.captures.entries@.len() implies {
                            let cw = (#[trigger] self.captures.entries@[j]).widget;
                            &&& self.tree.live(cw)
                            &&& self.tree.nodes@[cw as int].layout is Some
                        } by {
                            let m = choose|m: int|
                                0 <= m < old(self).captures.entries@.len()
                                    && #[trigger] self.captures.entries@[j] == old(
                                    self,
                                ).captures.entries@[m];
                            assert(old(self).captures.entries@[m].widget
                                == self.captures.entries@[j].widget);
                        }
                    }
                    MouseInputOutcome { captured: None, release: None }
                },
            }
        }
    }
}



/// Accumulated limits over the wrap chain starting at `i`: the tightest
/// minimum and maximum seen at any resize node, and whether any node on
/// the chain asks the window to fill all available space.
pub open spec fn spec_wrap_chain(
    nodes: Seq<Node>,
    i: int,
    scale_milli: u32,
    min_acc: Size,
    max_acc: Size,
    expanded: bool,
) -> (Size, Size, bool)
    decreases nodes.len() - i,
{
    if 0 <= i < nodes.len() {
        let b = nodes[i].behavior;
        let is_resize = b.min_width is Some || b.max_width is Some || b.min_height is Some
            || b.max_height is Some;
        let min2 = if is_resize {
            let nw = match b.min_width {
                Some(d) => spec_dimension_to_px(d, scale_milli),
                None => 0u32,
            };
            let nh = match b.min_height {
                Some(d) => spec_dimension_to_px(d, scale_milli),
                None => 0u32,
            };
            Size {
                width: if min_acc.width >= nw { min_acc.width } else { nw },
                height: if min_acc.height >= nh { min_acc.height } else { nh },
            }
        } else {
            min_acc
        };
        let max2 = if is_resize {
            let nw = match b.max_width {
                Some(d) => spec_dimension_to_px(d, scale_milli),
                None => COORD_LIMIT as u32,
            };
            let nh = match b.max_height {
                Some(d) => spec_dimension_to_px(d, scale_milli),
                None => COORD_LIMIT as u32,
            };
            Size {
                width: if max_acc.width <= nw { max_acc.width } else { nw },
                height: if max_acc.height <= nh { max_acc.height } else { nh },
            }
        } else {
            max_acc
        };
        let exp2 = expanded || b.is_expand;
        match b.wraps {
            Some(w) => if i < w && (w as int) < nodes.len() {
                spec_wrap_chain(nodes, w as int, scale_milli, min2, max2, exp2)
            } else {
                (min2, max2, exp2)
            },
            None => (min2, max2, exp2),
        }
    } else {
        (min_acc, max_acc, expanded)
    }
}

/// The wrap-chain accumulation from the root, starting unconstrained.
pub open spec fn spec_chain_result(tree: Tree, scale_milli: u32) -> (Size, Size, bool) {
    spec_wrap_chain(
        tree.nodes@,
        0,
        scale_milli,
        Size { width: 0, height: 0 },
        Size { width: COORD_LIMIT as u32, height: COORD_LIMIT as u32 },
        false,
    )
}

/// The effective minimum window content size, or `None` when no node on
/// the wrap chain constrains it.
pub open spec fn spec_new_min(tree: Tree, scale_milli: u32) -> Option<Size> {
    let mn = spec_chain_result(tree, scale_milli).0;
    if mn.width > 0 || mn.height > 0 {
        Some(mn)
    } else {
        None
    }
}

/// The effective maximum window content size, or `None` when no node on
/// the wrap chain constrains it.
pub open spec fn spec_new_max(tree: Tree, scale_milli: u32) -> Option<Size> {
    let mx = spec_chain_result(tree, scale_milli).1;
    if mx.width < COORD_LIMIT as int || mx.height < COORD_LIMIT as int {
        Some(mx)
    } else {
        None
    }
}

/// Whether the wrap chain asks the window to fill all available space.
pub open spec fn spec_wants_fill(tree: Tree, scale_milli: u32) -> bool {
    spec_chain_result(tree, scale_milli).2
}

/// The size a non-resizable window is asked to take when content wants a
/// different size: the desired size, clamped into the effective window
/// size limits when those are known.
pub open spec fn spec_resize_request(
    desired: Size,
    min_limit: Option<Size>,
    max_limit: Option<Size>,
) -> Size {
    let after_min = match min_limit {
        Some(mn) => Size {
            width: if desired.width >= mn.width { desired.width } else { mn.width },
            height: if desired.height >= mn.height { desired.height } else { mn.height },
        },
        None => desired,
    };
    match max_limit {
        Some(mx) => Size {
            width: if after_min.width <= mx.width { after_min.width } else { mx.width },
            height: if after_min.height <= mx.height { after_min.height } else { mx.height },
        },
        None => after_min,
    }
}

/// The initial keyboard focus the first frame establishes: the root when
/// it accepts focus, else the next focusable widget in traversal order.
pub open spec fn spec_initial_focus(tree: Tree) -> Option<usize> {
    if tree.focusable(0) {
        Some(0usize)
    } else {
        tree.spec_next_focus(0, false)
    }
}

/// Trees with the same nodes have the same focus traversal order.
pub proof fn lemma_traversal_same_nodes(t1: Tree, t2: Tree, lo: int, hi: int)
    requires
        t1.nodes@ == t2.nodes@,
    ensures
        t1.first_focusable_in(lo, hi) == t2.first_focusable_in(lo, hi),
        t1.last_focusable_in(lo, hi) == t2.last_focusable_in(lo, hi),
    decreases hi - lo,
{
    if lo < hi {
        lemma_traversal_same_nodes(t1, t2, lo + 1, hi);
        lemma_traversal_same_nodes(t1, t2, lo, hi - 1);
    }
}

/// What the frame's first phase asks of the host: window size limits to
/// apply, and the constraints to lay the root widget out under.
#[derive(Clone, Copy, Debug, PartialEq, Eq)]
pub struct FrameStart {
    /// `Some(limit)`: apply this minimum inner size (possibly none).
    pub set_min_inner_size: Option<Option<Size>>,
    /// `Some(limit)`: apply this maximum inner size (possibly none).
    pub set_max_inner_size: Option<Option<Size>>,
    /// Constraint for the root widget's width.
    pub width_constraint: ConstraintLimit,
    /// Constraint for the root widget's height.
    pub height_constraint: ConstraintLimit,
}

/// What the frame's second phase decided: the size the tree renders at,
/// an OS resize request when a non-resizable window shrink-wraps, the
/// mount notification, and whether redraw is clipped.
#[derive(Clone, Copy, Debug, PartialEq, Eq)]
pub struct FrameEnd {
    /// The size the root actually renders at this frame.
    pub render_size: Size,
    /// Ask the host to resize the OS window to this inner size.
    pub resize_request: Option<Size>,
    /// This frame is the first: the host must invoke the root's mount
    /// hook.
    pub mounted: bool,
    /// Redraw is clipped to the render size rather than the full window.
    pub clipped: bool,
}

impl WindowRuntime {
    /// Starts a frame: resets the render order, walks the root's wrap
    /// chain accumulating the tightest size limits and the fill marker,
    /// pushes changed limits to the host (the maximum only for a
    /// user-resizable window), and picks the root's layout constraints —
    /// exactly the window size when the chain wants to fill, else
    /// clipped-after the window size.
    pub fn begin_frame(&mut self, window_size: Size, resizable: bool, scale_milli: u32) -> (r:
        FrameStart)
        requires
            old(self).wf(),
            window_size.in_range(),
            scale_milli <= 16000,
        ensures
            final(self).wf(),
            final(self).tree.render_order@.len() == 0,
            final(self).tree.nodes@ == old(self).tree.nodes@,
            final(self).tree.focused == old(self).tree.focused,
            final(self).tree.hovered == old(self).tree.hovered,
            final(self).tree.default_widget == old(self).tree.default_widget,
            final(self).tree.escape_widget == old(self).tree.escape_widget,
            final(self).min_inner_size == spec_new_min(old(self).tree, scale_milli),
            final(self).max_inner_size == spec_new_max(old(self).tree, scale_milli),
            r.set_min_inner_size == (if spec_new_min(old(self).tree, scale_milli)
                != old(self).min_inner_size {
                Some(spec_new_min(old(self).tree, scale_milli))
            } else {
                None
            }),
            r.set_max_inner_size == (if spec_new_max(old(self).tree, scale_milli)
                != old(self).max_inner_size && resizable {
                Some(spec_new_max(old(self).tree, scale_milli))
            } else {
                None
            }),
            r.width_constraint == (if spec_wants_fill(old(self).tree, scale_milli) {
                ConstraintLimit::Known(window_size.width)
            } else {
                ConstraintLimit::ClippedAfter(window_size.width)
            }),
            r.height_constraint == (if spec_wants_fill(old(self).tree, scale_milli) {
                ConstraintLimit::Known(window_size.height)
            } else {
                ConstraintLimit::ClippedAfter(window_size.height)
            }),
            *final(self) == (WindowRuntime {
                tree: final(self).tree,
                min_inner_size: final(self).min_inner_size,
                max_inner_size: final(self).max_inner_size,
                ..*old(self)
            }),
    {
        self.tree.reset_render_order();
        let mut cur: usize = 0;
        let mut min_acc = Size { width: 0, height: 0 };
        let mut max_acc = Size { width: COORD_LIMIT as u32, height: COORD_LIMIT as u32 };
        let mut expanded = false;
        let mut walking = true;
        while walking
            invariant
                self.wf(),
                self.tree.nodes@ == old(self).tree.nodes@,
                self.tree.render_order@.len() == 0,
                self.tree.focused == old(self).tree.focused,
                self.tree.hovered == old(self).tree.hovered,
                self.tree.default_widget == old(self).tree.default_widget,
                self.tree.escape_widget == old(self).tree.escape_widget,
                *self == (WindowRuntime { tree: self.tree, ..*old(self) }),
                cur < self.tree.spec_len(),
                scale_milli <= 16000,
                walking ==> spec_chain_result(old(self).tree, scale_milli) == spec_wrap_chain(
                    self.tree.nodes@,
                    cur as int,
                    scale_milli,
                    min_acc,
                    max_acc,
                    expanded,
                ),
                !walking ==> spec_chain_result(old(self).tree, scale_milli) == (
                    min_acc,
                    max_acc,
                    expanded,
                ),
            decreases (self.tree.spec_len() - cur) + (if walking { 1int } else { 0int }),
        {
            let b = self.tree.nodes[cur].behavior;
            let is_resize = b.min_width.is_some() || b.max_width.is_some()
                || b.min_height.is_some() || b.max_height.is_some();
            if is_resize {
                let nw = match b.min_width {
                    Some(d) => dimension_to_px(d, scale_milli),
                    None => 0,
                };
                let nh = match b.min_height {
                    Some(d) => dimension_to_px(d, scale_milli),
                    None => 0,
                };
                min_acc = Size {
                    width: if min_acc.width >= nw { min_acc.width } else { nw },
                    height: if min_acc.height >= nh { min_acc.height } else { nh },
                };
                let xw = match b.max_width {
                    Some(d) => dimension_to_px(d, scale_milli),
                    None => COORD_LIMIT as u32,
                };
                let xh = match b.max_height {
                    Some(d) => dimension_to_px(d, scale_milli),
                    None => COORD_LIMIT as u32,
                };
                max_acc = Size {
                    width: if max_acc.width <= xw { max_acc.width } else { xw },
                    height: if max_acc.height <= xh { max_acc.height } else { xh },
                };
            }
            if b.is_expand {
                expanded = true;
            }
            proof {
                assert(self.tree.node_wf(cur as int));
            }
            match b.wraps {
                Some(w) => {
                    cur = w;
                },
                None => {
                    walking = false;
                },
            }
        }
        let new_min = if min_acc.width > 0 || min_acc.height > 0 {
            Some(min_acc)
        } else {
            None
        };
        let new_max = if max_acc.width < COORD_LIMIT as u32 || max_acc.height < COORD_LIMIT as u32 {
            Some(max_acc)
        } else {
            None
        };
        let push_min = !options_equal(new_min, self.min_inner_size);
        let push_max = !options_equal(new_max, self.max_inner_size) && resizable;
        self.min_inner_size = new_min;
        self.max_inner_size = new_max;
        FrameStart {
            set_min_inner_size: if push_min { Some(new_min) } else { None },
            set_max_inner_size: if push_max { Some(new_max) } else { None },
            width_constraint: if expanded {
                ConstraintLimit::Known(window_size.width)
            } else {
                ConstraintLimit::ClippedAfter(window_size.width)
            },
            height_constraint: if expanded {
                ConstraintLimit::Known(window_size.height)
            } else {
                ConstraintLimit::ClippedAfter(window_size.height)
            },
        }
    }

    /// Finishes a frame once the root widget has answered layout with
    /// `desired`: clamps it to the window to get the render size, records
    /// the root's layout rectangle, on the very first frame reports the
    /// mount hook due and establishes initial keyboard focus, asks a
    /// non-resizable window to resize toward the desired size (clamped
    /// into the known limits), and decides whether redraw is clipped.
    pub fn finish_frame(&mut self, window_size: Size, resizable: bool, desired: Size) -> (r:
        FrameEnd)
        requires
            old(self).wf(),
            window_size.in_range(),
            desired.in_range(),
        ensures
            final(self).wf(),
            r.render_size.width == (if desired.width <= window_size.width {
                desired.width
            } else {
                window_size.width
            }),
            r.render_size.height == (if desired.height <= window_size.height {
                desired.height
            } else {
                window_size.height
            }),
            r.resize_request == (if desired != window_size && !resizable {
                Some(spec_resize_request(
                    desired,
                    old(self).min_inner_size,
                    old(self).max_inner_size,
                ))
            } else {
                None
            }),
            final(self).tree.nodes@ == old(self).tree.nodes@.update(
                0,
                Node {
                    layout: Some(Rect {
                        origin: Point { x: 0, y: 0 },
                        size: r.render_size,
                    }),
                    ..old(self).tree.nodes@[0]
                },
            ),
            r.mounted == old(self).initial_frame,
            !final(self).initial_frame,
            final(self).tree.focused == (if old(self).initial_frame {
                spec_initial_focus(final(self).tree)
            } else {
                old(self).tree.focused
            }),
            final(self).tree.hovered == old(self).tree.hovered,
            final(self).tree.default_widget == old(self).tree.default_widget,
            final(self).tree.escape_widget == old(self).tree.escape_widget,
            final(self).tree.render_order@ == old(self).tree.render_order@,
            r.clipped == (r.render_size.width < window_size.width || r.render_size.height
                < window_size.height),
            final(self).captures == old(self).captures,
            final(self).cursor == old(self).cursor,
            final(self).keyboard_activated == old(self).keyboard_activated,
            final(self).min_inner_size == old(self).min_inner_size,
            final(self).max_inner_size == old(self).max_inner_size,
            final(self).should_close == old(self).should_close,
    {
        let render_size = desired.min(window_size);
        let resize_request = if !(desired == window_size) && !resizable {
            let after_min = match self.min_inner_size {
                Some(mn) => desired.max(mn),
                None => desired,
            };
            let clamped = match self.max_inner_size {
                Some(mx) => after_min.min(mx),
                None => after_min,
            };
            Some(clamped)
        } else {
            None
        };
        self.tree.set_layout(
            0,
            Rect { origin: Point { x: 0, y: 0 }, size: render_size },
        );
        let mounted = self.initial_frame;
        let ghost mid_tree = self.tree;
        if self.initial_frame {
            self.initial_frame = false;
            if self.tree.nodes[0].behavior.accepts_focus {
                self.tree.set_focus(0);
            } else {
                match self.tree.next_focus(0, false) {
                    Some(n) => self.tree.set_focus(n),
                    None => self.tree.clear_focus(),
                }
            }
        }
        proof {
            let len = self.tree.spec_len();
            lemma_traversal_same_nodes(mid_tree, self.tree, 1, len);
            lemma_traversal_same_nodes(mid_tree, self.tree, 0, 1);
            lemma_traversal_same_nodes(mid_tree, self.tree, 0, 0);
            lemma_traversal_same_nodes(mid_tree, self.tree, 0, len);
            assert forall|j: int| 0 <= j < self.captures.entries@.len() implies {
                let w = (#[trigger] self.captures.entries@[j]).widget;
                &&& self.tree.live(w)
                &&& self.tree.nodes@[w as int].layout is Some
            } by {
                assert(old(self).captures.entries@[j] == self.captures.entries@[j]);
            }
        }
        let clipped = render_size.width < window_size.width
            || render_size.height < window_size.height;
        FrameEnd { render_size, resize_request, mounted, clipped }
    }
}

/// Whether two optional sizes are the same limit.
fn options_equal(a: Option<Size>, b: Option<Size>) -> (r: bool)
    ensures
        r == (a == b),
{
    match (a, b) {
        (None, None) => true,
        (Some(x), Some(y)) => x == y,
        _ => false,
    }
}


} // verus!
