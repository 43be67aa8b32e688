//! Runtime core of a desktop UI toolkit window.
//!
//! The crate owns the live widget hierarchy of one window, negotiates
//! per-frame layout constraints with the host, and routes normalized input
//! events (keyboard, mouse, wheel, IME) to widgets with bubbling semantics.
//! Widget behaviors, rendering, and OS integration are external
//! collaborators: they enter as plain data (per-node capability flags,
//! per-event handler verdicts, layout answers), and every decision the
//! runtime takes is returned to the host as a plain value.

mod geometry;
mod tree;
mod router;
mod capture;
mod runtime;

pub use geometry::{Point, Size, Rect, Dimension, ConstraintLimit, COORD_LIMIT};
pub use geometry::{lp_to_px, dimension_to_px};
pub use tree::{WidgetBehavior, Node, Tree};
pub use router::{recursively_handle_event, bubble_spec, chain_seq, first_handling, lemma_bubble_follows_chain, lemma_first_handling_char};
pub use capture::{CaptureMap, CaptureEntry, MouseButton, entries_map, entry_key, device_entries_upto, pair_from_device, lemma_device_entries_member};
pub use runtime::{
    WindowRuntime, WindowCommand, Key, Modifiers, ActivationChange, DragDelivery,
    MouseUpDelivery, KeyboardResult, CursorMovedOutcome, MouseInputOutcome,
    FrameStart, FrameEnd, spec_keyboard_activate, focused_or_root, hovered_or_root,
    spec_layout_origin, spec_wrap_chain, spec_chain_result, spec_new_min, spec_new_max,
    spec_wants_fill, spec_resize_request, spec_initial_focus, lemma_activation_symmetric,
    lemma_capture_press_release, lemma_traversal_same_nodes,
};
