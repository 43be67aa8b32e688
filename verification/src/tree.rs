//! The widget tree: an arena of mounted nodes with parent links, per-frame
//! render order, and the window's singleton slots (focused, hovered,
//! default-activation, escape-activation).
//!
//! Node identity is the arena index; nodes are mounted parent-first, so a
//! parent's id is always smaller than its child's, which makes every walk
//! toward the root terminate. The tree is structurally static after mount:
//! nothing is ever removed.

use vstd::prelude::*;
use crate::geometry::{Point, Rect, Dimension};

verus! {

/// The capability flags a widget declares at mount time. Everything a
/// widget decides dynamically (event verdicts, precise hit tests, layout
/// answers) is passed in per call instead.
#[derive(Clone, Copy, Debug)]
pub struct WidgetBehavior {
    /// The widget can take keyboard focus and participates in tab order.
    pub accepts_focus: bool,
    /// Lower bound this widget imposes on the window's content width.
    pub min_width: Option<Dimension>,
    /// Upper bound this widget imposes on the window's content width.
    pub max_width: Option<Dimension>,
    /// Lower bound this widget imposes on the window's content height.
    pub min_height: Option<Dimension>,
    /// Upper bound this widget imposes on the window's content height.
    pub max_height: Option<Dimension>,
    /// The widget asks the window to fill all available space.
    pub is_expand: bool,
    /// The widget transparently delegates layout to this inner widget.
    pub wraps: Option<usize>,
}

impl WidgetBehavior {
    /// A widget with no capability flags set.
    pub fn passive() -> (r: WidgetBehavior)
        ensures
            !r.accepts_focus,
            r.min_width is None,
            r.max_width is None,
            r.min_height is None,
            r.max_height is None,
            !r.is_expand,
            r.wraps is None,
    {
        WidgetBehavior {
            accepts_focus: false,
            min_width: None,
            max_width: None,
            min_height: None,
            max_height: None,
            is_expand: false,
            wraps: None,
        }
    }
}

/// One mounted widget instance: its parent link and its last computed
/// layout rectangle.
#[derive(Clone, Copy, Debug)]
pub struct Node {
    /// Arena index of the parent; `None` exactly for the root.
    pub parent: Option<usize>,
    /// The layout rectangle from the most recent frame that visited this
    /// node, in device-independent pixels.
    pub layout: Option<Rect>,
    /// The capability flags declared at mount.
    pub behavior: WidgetBehavior,
}

/// The arena of all mounted nodes plus the window's singleton slots and
/// the per-frame render order.
#[derive(Debug)]
pub struct Tree {
    /// All mounted nodes; a `WidgetId` is an index into this vector.
    pub nodes: Vec<Node>,
    /// Ids in the order their nodes were visited this frame; later means
    /// rendered on top.
    pub render_order: Vec<usize>,
    /// The widget holding keyboard focus, if any.
    pub focused: Option<usize>,
    /// The widget under the cursor, if any.
    pub hovered: Option<usize>,
    /// The widget activated by the confirm key, if any.
    pub default_widget: Option<usize>,
    /// The widget activated by the cancel key, if any.
    pub escape_widget: Option<usize>,
}

impl Tree {
    /// Number of mounted nodes.
    pub open spec fn spec_len(self) -> int {
        self.nodes@.len() as int
    }

    /// The id refers to a mounted node.
    pub open spec fn live(self, id: usize) -> bool {
        (id as int) < self.spec_len()
    }

    /// The node at `i` respects the arena's ordering discipline: parents
    /// and wrap targets exist, parents come before children, wrap targets
    /// after their wrapper, and any layout rectangle is in range.
    pub open spec fn node_wf(self, i: int) -> bool {
        let n = self.nodes@[i];
        &&& (i == 0 <==> n.parent is None)
        &&& match n.parent {
            Some(p) => (p as int) < i,
            None => true,
        }
        &&& match n.behavior.wraps {
            Some(w) => i < (w as int) && (w as int) < self.spec_len(),
            None => true,
        }
        &&& match n.layout {
            Some(r) => r.in_range(),
            None => true,
        }
    }

    /// The node at `i` can take keyboard focus.
    pub open spec fn focusable(self, i: int) -> bool {
        0 <= i < self.spec_len() && self.nodes@[i].behavior.accepts_focus
    }

    /// Every singleton slot resolves to a live node, the focus slot to a
    /// focusable one, every node respects the ordering discipline, and the
    /// render order lists live nodes without repetition.
    pub open spec fn wf(self) -> bool {
        &&& forall|i: int| 0 <= i < self.spec_len() ==> self.node_wf(i)
        &&& match self.focused {
            Some(f) => self.focusable(f as int),
            None => true,
        }
        &&& match self.hovered {
            Some(h) => self.live(h),
            None => true,
        }
        &&& match self.default_widget {
            Some(d) => self.live(d),
            None => true,
        }
        &&& match self.escape_widget {
            Some(e) => self.live(e),
            None => true,
        }
        &&& forall|k: int| 0 <= k < self.render_order@.len()
            ==> (#[trigger] self.render_order@[k] as int) < self.spec_len()
        &&& forall|k1: int, k2: int|
            0 <= k1 < k2 < self.render_order@.len()
                ==> self.render_order@[k1] != self.render_order@[k2]
    }

    /// A new, empty tree: no nodes, no order, every slot empty.
    pub fn new() -> (r: Tree)
        ensures
            r.wf(),
            r.spec_len() == 0,
            r.render_order@.len() == 0,
            r.focused is None,
            r.hovered is None,
            r.default_widget is None,
            r.escape_widget is None,
    {
        Tree {
            nodes: Vec::new(),
            render_order: Vec::new(),
            focused: None,
            hovered: None,
            default_widget: None,
            escape_widget: None,
        }
    }

    /// Number of mounted nodes.
    pub fn len(&self) -> (r: usize)
        ensures
            r == self.spec_len(),
    {
        self.nodes.len()
    }

    /// Mounts a new node and returns its id. The first node mounted (with
    /// no parent) is the root; every later node names an existing parent.
    pub fn push(&mut self, behavior: WidgetBehavior, parent: Option<usize>) -> (id: usize)
        requires
            old(self).wf(),
            old(self).spec_len() < usize::MAX,
            match parent {
                None => old(self).spec_len() == 0,
                Some(p) => old(self).live(p),
            },
            behavior.wraps is None,
        ensures
            final(self).wf(),
            id == old(self).spec_len(),
            final(self).spec_len() == old(self).spec_len() + 1,
            final(self).nodes@ == old(self).nodes@.push(
                Node { parent, layout: None, behavior },
            ),
            final(self).render_order@ == old(self).render_order@,
            final(self).focused == old(self).focused,
            final(self).hovered == old(self).hovered,
            final(self).default_widget == old(self).default_widget,
            final(self).escape_widget == old(self).escape_widget,
    {
        let id = self.nodes.len();
        self.nodes.push(Node { parent, layout: None, behavior });
        proof {
            assert forall|i: int| 0 <= i < self.spec_len() implies self.node_wf(i) by {
                if i < id {
                    assert(old(self).node_wf(i));
                }
            }
        }
        id
    }

    /// Declares that `id` transparently delegates layout to `target`, a
    /// node mounted after it.
    pub fn set_wraps(&mut self, id: usize, target: usize)
        requires
            old(self).wf(),
            old(self).live(id),
            old(self).live(target),
            id < target,
        ensures
            final(self).wf(),
            final(self).nodes@ == old(self).nodes@.update(
                id as int,
                Node {
                    behavior: WidgetBehavior {
                        wraps: Some(target),
                        ..old(self).nodes@[id as int].behavior
                    },
                    ..old(self).nodes@[id as int]
                },
            ),
            final(self).render_order@ == old(self).render_order@,
            final(self).focused == old(self).focused,
            final(self).hovered == old(self).hovered,
            final(self).default_widget == old(self).default_widget,
            final(self).escape_widget == old(self).escape_widget,
    {
        let old_node = self.nodes[id];
        let new_node = Node {
            behavior: WidgetBehavior { wraps: Some(target), ..old_node.behavior },
            ..old_node
        };
        self.nodes.set(id, new_node);
        proof {
            assert forall|i: int| 0 <= i < self.spec_len() implies self.node_wf(i) by {
                assert(old(self).node_wf(i));
            }
        }
    }

    /// O(1) lookup: returns the id back if it refers to a mounted node,
    /// and fails silently otherwise.
    pub fn widget(&self, id: usize) -> (r: Option<usize>)
        ensures
            r == if self.live(id) { Some(id) } else { None::<usize> },
    {
        if id < self.nodes.len() {
            Some(id)
        } else {
            None
        }
    }

    /// Records the layout rectangle computed for `id` this frame.
    pub fn set_layout(&mut self, id: usize, rect: Rect)
        requires
            old(self).wf(),
            old(self).live(id),
            rect.in_range(),
        ensures
            final(self).wf(),
            final(self).nodes@ == old(self).nodes@.update(
                id as int,
                Node { layout: Some(rect), ..old(self).nodes@[id as int] },
            ),
            final(self).render_order@ == old(self).render_order@,
            final(self).focused == old(self).focused,
            final(self).hovered == old(self).hovered,
            final(self).default_widget == old(self).default_widget,
            final(self).escape_widget == old(self).escape_widget,
    {
        let old_node = self.nodes[id];
        self.nodes.set(id, Node { layout: Some(rect), ..old_node });
        proof {
            assert forall|i: int| 0 <= i < self.spec_len() implies self.node_wf(i) by {
                assert(old(self).node_wf(i));
            }
        }
    }

    /// Forgets the previous frame's render order; called once per frame
    /// before layout.
    pub fn reset_render_order(&mut self)
        requires
            old(self).wf(),
        ensures
            final(self).wf(),
            final(self).render_order@.len() == 0,
            final(self).nodes@ == old(self).nodes@,
            final(self).focused == old(self).focused,
            final(self).hovered == old(self).hovered,
            final(self).default_widget == old(self).default_widget,
            final(self).escape_widget == old(self).escape_widget,
    {
        self.render_order.clear();
        proof {
            assert forall|i: int| 0 <= i < self.spec_len() implies self.node_wf(i) by {
                assert(old(self).node_wf(i));
            }
        }
    }

    /// Whether `id` was already visited this frame.
    pub fn visited(&self, id: usize) -> (r: bool)
        ensures
            r == self.render_order@.contains(id),
    {
        let mut k: usize = 0;
        while k < self.render_order.len()
            invariant
                k <= self.render_order@.len(),
                forall|m: int| 0 <= m < k ==> self.render_order@[m] != id,
            decreases self.render_order@.len() - k,
        {
            if self.render_order[k] == id {
                assert(self.render_order@[k as int] == id);
                return true;
            }
            k += 1;
        }
        false
    }

    /// Appends `id` to the render order as the node is visited; a node
    /// already visited this frame, or an unknown id, is ignored.
    pub fn record_visit(&mut self, id: usize)
        requires
            old(self).wf(),
        ensures
            final(self).wf(),
            final(self).render_order@ == if old(self).live(id)
                && !old(self).render_order@.contains(id) {
                old(self).render_order@.push(id)
            } else {
                old(self).render_order@
            },
            final(self).nodes@ == old(self).nodes@,
            final(self).focused == old(self).focused,
            final(self).hovered == old(self).hovered,
            final(self).default_widget == old(self).default_widget,
            final(self).escape_widget == old(self).escape_widget,
    {
        if id < self.nodes.len() && !self.visited(id) {
            self.render_order.push(id);
            proof {
                assert forall|i: int| 0 <= i < self.spec_len() implies self.node_wf(i) by {
                    assert(old(self).node_wf(i));
                }
                assert forall|k1: int, k2: int|
                    0 <= k1 < k2 < self.render_order@.len() implies
                    self.render_order@[k1] != self.render_order@[k2] by {
                    if k2 == self.render_order@.len() - 1 {
                        assert(old(self).render_order@.contains(old(self).render_order@[k1]));
                    }
                }
            }
        } else {
            proof {
                assert forall|i: int| 0 <= i < self.spec_len() implies self.node_wf(i) by {
                    assert(old(self).node_wf(i));
                }
            }
        }
    }

    /// The widget holding keyboard focus, if it is still mounted.
    pub fn focused_widget(&self) -> (r: Option<usize>)
        ensures
            r == self.focused,
    {
        self.focused
    }

    /// The widget under the cursor, if it is still mounted.
    pub fn hovered_widget(&self) -> (r: Option<usize>)
        ensures
            r == self.hovered,
    {
        self.hovered
    }

    /// The widget the confirm key activates, if any.
    pub fn default_widget(&self) -> (r: Option<usize>)
        ensures
            r == self.default_widget,
    {
        self.default_widget
    }

    /// The widget the cancel key activates, if any.
    pub fn escape_widget(&self) -> (r: Option<usize>)
        ensures
            r == self.escape_widget,
    {
        self.escape_widget
    }

    /// Declares `id` as the confirm-key activation target.
    pub fn set_default_widget(&mut self, id: usize)
        requires
            old(self).wf(),
            old(self).live(id),
        ensures
            final(self).wf(),
            *final(self) == (Tree { default_widget: Some(id), ..*old(self) }),
    {
        self.default_widget = Some(id);
        proof {
            assert forall|i: int| 0 <= i < self.spec_len() implies self.node_wf(i) by {
                assert(old(self).node_wf(i));
            }
        }
    }

    /// Declares `id` as the cancel-key activation target.
    pub fn set_escape_widget(&mut self, id: usize)
        requires
            old(self).wf(),
            old(self).live(id),
        ensures
            final(self).wf(),
            *final(self) == (Tree { escape_widget: Some(id), ..*old(self) }),
    {
        self.escape_widget = Some(id);
        proof {
            assert forall|i: int| 0 <= i < self.spec_len() implies self.node_wf(i) by {
                assert(old(self).node_wf(i));
            }
        }
    }

    /// Declares `id` focusable or not after mount.
    pub fn set_accepts_focus(&mut self, id: usize, accepts: bool)
        requires
            old(self).wf(),
            old(self).live(id),
            !accepts ==> old(self).focused != Some(id),
        ensures
            final(self).wf(),
            final(self).nodes@ == old(self).nodes@.update(
                id as int,
                Node {
                    behavior: WidgetBehavior {
                        accepts_focus: accepts,
                        ..old(self).nodes@[id as int].behavior
                    },
                    ..old(self).nodes@[id as int]
                },
            ),
            final(self).render_order@ == old(self).render_order@,
            final(self).focused == old(self).focused,
            final(self).hovered == old(self).hovered,
            final(self).default_widget == old(self).default_widget,
            final(self).escape_widget == old(self).escape_widget,
    {
        let old_node = self.nodes[id];
        let new_node = Node {
            behavior: WidgetBehavior { accepts_focus: accepts, ..old_node.behavior },
            ..old_node
        };
        self.nodes.set(id, new_node);
        proof {
            assert forall|i: int| 0 <= i < self.spec_len() implies self.node_wf(i) by {
                assert(old(self).node_wf(i));
            }
        }
    }

    /// Moves keyboard focus to `id`.
    pub fn set_focus(&mut self, id: usize)
        requires
            old(self).wf(),
            old(self).focusable(id as int),
        ensures
            final(self).wf(),
            *final(self) == (Tree { focused: Some(id), ..*old(self) }),
    {
        self.focused = Some(id);
        proof {
            assert forall|i: int| 0 <= i < self.spec_len() implies self.node_wf(i) by {
                assert(old(self).node_wf(i));
            }
        }
    }

    /// Clears keyboard focus tree-wide.
    pub fn clear_focus(&mut self)
        requires
            old(self).wf(),
        ensures
            final(self).wf(),
            *final(self) == (Tree { focused: None, ..*old(self) }),
    {
        self.focused = None;
        proof {
            assert forall|i: int| 0 <= i < self.spec_len() implies self.node_wf(i) by {
                assert(old(self).node_wf(i));
            }
        }
    }

    /// Declares `id` the hovered widget.
    pub fn set_hover(&mut self, id: usize)
        requires
            old(self).wf(),
            old(self).live(id),
        ensures
            final(self).wf(),
            *final(self) == (Tree { hovered: Some(id), ..*old(self) }),
    {
        self.hovered = Some(id);
        proof {
            assert forall|i: int| 0 <= i < self.spec_len() implies self.node_wf(i) by {
                assert(old(self).node_wf(i));
            }
        }
    }

    /// Clears hover tree-wide.
    pub fn clear_hover(&mut self)
        requires
            old(self).wf(),
        ensures
            final(self).wf(),
            *final(self) == (Tree { hovered: None, ..*old(self) }),
    {
        self.hovered = None;
        proof {
            assert forall|i: int| 0 <= i < self.spec_len() implies self.node_wf(i) by {
                assert(old(self).node_wf(i));
            }
        }
    }
}


impl Tree {
    /// Whether node `id`'s last computed layout rectangle contains `p`.
    pub open spec fn node_contains(self, id: usize, p: Point) -> bool {
        self.live(id) && match self.nodes@[id as int].layout {
            Some(r) => r.spec_contains(p),
            None => false,
        }
    }

    /// The hit candidates among render positions `[j, len)`: nodes whose
    /// rectangle contains `p`, most recently rendered (topmost) first.
    pub open spec fn hit_seq_from(self, p: Point, j: int) -> Seq<usize>
        decreases self.render_order@.len() - j,
    {
        if j < 0 || j >= self.render_order@.len() {
            Seq::empty()
        } else {
            let above = self.hit_seq_from(p, j + 1);
            let id = self.render_order@[j];
            if self.node_contains(id, p) {
                above + seq![id]
            } else {
                above
            }
        }
    }

    /// All hit candidates at `p`, topmost first.
    pub open spec fn hit_seq(self, p: Point) -> Seq<usize> {
        self.hit_seq_from(p, 0)
    }

    /// Produces the nodes whose last computed layout rectangle contains
    /// `p`, ordered most-recently-rendered-first, so that the first
    /// candidate whose precise hit test passes is the topmost hit.
    pub fn widgets_at_point(&self, p: Point) -> (r: Vec<usize>)
        requires
            self.wf(),
            p.in_range(),
        ensures
            r@ == self.hit_seq(p),
    {
        let mut result: Vec<usize> = Vec::new();
        let mut j: usize = self.render_order.len();
        while j > 0
            invariant
                self.wf(),
                p.in_range(),
                j <= self.render_order@.len(),
                result@ == self.hit_seq_from(p, j as int),
            decreases j,
        {
            j -= 1;
            let id = self.render_order[j];
            let node = self.nodes[id];
            let hit = match node.layout {
                Some(rect) => {
                    proof {
                        assert(self.node_wf(id as int));
                    }
                    rect.contains(p)
                },
                None => false,
            };
            if hit {
                result.push(id);
            }
        }
        result
    }

    /// The hover pick among render positions `[0, j)`: the topmost node
    /// whose rectangle contains `p` and whose own hit-test verdict in
    /// `hit` is positive.
    pub open spec fn spec_hover_upto(self, p: Point, hit: Seq<bool>, j: int) -> Option<usize>
        decreases j,
    {
        if j <= 0 {
            None
        } else {
            let id = self.render_order@[j - 1];
            if self.node_contains(id, p) && hit[id as int] {
                Some(id)
            } else {
                self.spec_hover_upto(p, hit, j - 1)
            }
        }
    }

    /// The hover pick at `p` for the per-widget hit verdicts `hit`.
    pub open spec fn spec_hover(self, p: Point, hit: Seq<bool>) -> Option<usize> {
        self.spec_hover_upto(p, hit, self.render_order@.len() as int)
    }

    /// Probes the hit candidates at `p` topmost first and returns the
    /// first whose precise hit test passed. `hit[i]` is widget `i`'s own
    /// hit-test verdict for the cursor position relative to it.
    pub fn hover_target(&self, p: Point, hit: &Vec<bool>) -> (r: Option<usize>)
        requires
            self.wf(),
            p.in_range(),
            hit@.len() == self.spec_len(),
        ensures
            r == self.spec_hover(p, hit@),
            match r {
                Some(w) => self.live(w),
                None => true,
            },
    {
        let mut j: usize = self.render_order.len();
        while j > 0
            invariant
                self.wf(),
                p.in_range(),
                hit@.len() == self.spec_len(),
                j <= self.render_order@.len(),
                self.spec_hover(p, hit@) == self.spec_hover_upto(p, hit@, j as int),
            decreases j,
        {
            let idx = j - 1;
            let id = self.render_order[idx];
            let node = self.nodes[id];
            let contains = match node.layout {
                Some(rect) => {
                    proof {
                        assert(self.node_wf(id as int));
                    }
                    rect.contains(p)
                },
                None => false,
            };
            if contains && hit[id] {
                proof {
                    assert((self.render_order@[idx as int] as int) < self.spec_len());
                }
                return Some(id);
            }
            j = idx;
        }
        None
    }

    /// What the hover pick over positions `[0, j)` guarantees: a pick
    /// contains the point, passed its hit test, and every candidate
    /// rendered above it failed; no pick means every candidate failed.
    pub proof fn lemma_hover_char(self, p: Point, hit: Seq<bool>, j: int)
        requires
            self.wf(),
            j <= self.render_order@.len(),
        ensures
            match self.spec_hover_upto(p, hit, j) {
                Some(w) => exists|pos: int|
                    {
                        &&& 0 <= pos < j
                        &&& #[trigger] self.render_order@[pos] == w
                        &&& self.node_contains(w, p)
                        &&& hit[w as int]
                        &&& forall|q: int| pos < q < j
                            ==> !(self.node_contains(#[trigger] self.render_order@[q], p)
                                && hit[self.render_order@[q] as int])
                    },
                None => forall|q: int| 0 <= q < j
                    ==> !(self.node_contains(#[trigger] self.render_order@[q], p)
                        && hit[self.render_order@[q] as int]),
            },
        decreases j,
    {
        if j > 0 {
            let id = self.render_order@[j - 1];
            if self.node_contains(id, p) && hit[id as int] {
                assert(self.render_order@[j - 1] == id);
            } else {
                self.lemma_hover_char(p, hit, j - 1);
                match self.spec_hover_upto(p, hit, j - 1) {
                    Some(w) => {
                        let pos = choose|pos: int|
                            {
                                &&& 0 <= pos < j - 1
                                &&& #[trigger] self.render_order@[pos] == w
                                &&& self.node_contains(w, p)
                                &&& hit[w as int]
                                &&& forall|q: int| pos < q < j - 1
                                    ==> !(self.node_contains(
                                        #[trigger] self.render_order@[q], p)
                                        && hit[self.render_order@[q] as int])
                            };
                        assert(self.render_order@[pos] == w);
                    },
                    None => {},
                }
            }
        }
    }

    /// Hover hit-testing picks the topmost of overlapping widgets: if the
    /// candidates at render positions `pa < pb` both contain `p` and the
    /// one rendered on top passes its precise hit test, the hover pick is
    /// never the one underneath.
    pub proof fn lemma_hover_topmost(self, p: Point, hit: Seq<bool>, pa: int, pb: int)
        requires
            self.wf(),
            0 <= pa < pb < self.render_order@.len(),
            self.node_contains(self.render_order@[pb], p),
            hit[self.render_order@[pb] as int],
        ensures
            self.spec_hover(p, hit) is Some,
            self.spec_hover(p, hit) != Some(self.render_order@[pa]),
    {
        let len = self.render_order@.len() as int;
        self.lemma_hover_char(p, hit, len);
        match self.spec_hover(p, hit) {
            Some(w) => {
                let pos = choose|pos: int|
                    {
                        &&& 0 <= pos < len
                        &&& #[trigger] self.render_order@[pos] == w
                        &&& self.node_contains(w, p)
                        &&& hit[w as int]
                        &&& forall|q: int| pos < q < len
                            ==> !(self.node_contains(#[trigger] self.render_order@[q], p)
                                && hit[self.render_order@[q] as int])
                    };
                if w == self.render_order@[pa] {
                    assert(pos == pa);
                    assert(!(self.node_contains(self.render_order@[pb], p)
                        && hit[self.render_order@[pb] as int]));
                }
            },
            None => {
                assert(!(self.node_contains(self.render_order@[pb], p)
                    && hit[self.render_order@[pb] as int]));
            },
        }
    }
}


impl Tree {
    /// The first focusable node in `[lo, hi)`, scanning upward.
    pub open spec fn first_focusable_in(self, lo: int, hi: int) -> Option<usize>
        decreases hi - lo,
    {
        if lo >= hi {
            None
        } else if self.focusable(lo) {
            Some(lo as usize)
        } else {
            self.first_focusable_in(lo + 1, hi)
        }
    }

    /// The last focusable node in `[lo, hi)`, scanning downward.
    pub open spec fn last_focusable_in(self, lo: int, hi: int) -> Option<usize>
        decreases hi - lo,
    {
        if lo >= hi {
            None
        } else if self.focusable(hi - 1) {
            Some((hi - 1) as usize)
        } else {
            self.last_focusable_in(lo, hi - 1)
        }
    }

    /// The next focus target after `from` in the tree's traversal order
    /// (mount order, treated as cyclic): forward, the first focusable
    /// node past `from`, wrapping around to the first focusable node
    /// overall; in reverse, symmetrically.
    pub open spec fn spec_next_focus(self, from: usize, reverse: bool) -> Option<usize> {
        if reverse {
            match self.last_focusable_in(0, from as int) {
                Some(n) => Some(n),
                None => self.last_focusable_in(from as int, self.spec_len()),
            }
        } else {
            match self.first_focusable_in(from as int + 1, self.spec_len()) {
                Some(n) => Some(n),
                None => self.first_focusable_in(0, from as int + 1),
            }
        }
    }

    fn scan_up(&self, lo: usize, hi: usize) -> (r: Option<usize>)
        requires
            hi <= self.spec_len(),
        ensures
            r == self.first_focusable_in(lo as int, hi as int),
    {
        let mut k: usize = lo;
        while k < hi
            invariant
                hi <= self.spec_len(),
                lo <= k,
                self.first_focusable_in(lo as int, hi as int)
                    == self.first_focusable_in(k as int, hi as int),
            decreases hi - k,
        {
            if self.nodes[k].behavior.accepts_focus {
                return Some(k);
            }
            k += 1;
        }
        None
    }

    fn scan_down(&self, lo: usize, hi: usize) -> (r: Option<usize>)
        requires
            hi <= self.spec_len(),
        ensures
            r == self.last_focusable_in(lo as int, hi as int),
    {
        let mut k: usize = hi;
        while k > lo
            invariant
                hi <= self.spec_len(),
                k <= hi,
                self.last_focusable_in(lo as int, hi as int)
                    == self.last_focusable_in(lo as int, k as int),
            decreases k,
        {
            k -= 1;
            if self.nodes[k].behavior.accepts_focus {
                return Some(k);
            }
        }
        None
    }

    /// Advances through the tree's cyclic traversal order of focusable
    /// nodes: the next focusable widget after `from` (or before it, in
    /// reverse), wrapping around; `None` when nothing is focusable.
    pub fn next_focus(&self, from: usize, reverse: bool) -> (r: Option<usize>)
        requires
            self.wf(),
            self.live(from),
        ensures
            r == self.spec_next_focus(from, reverse),
            match r {
                Some(n) => self.focusable(n as int),
                None => true,
            },
    {
        let n = self.nodes.len();
        proof {
            self.lemma_first_focusable_char(from as int + 1, n as int);
            self.lemma_first_focusable_char(0, from as int + 1);
            self.lemma_last_focusable_char(0, from as int);
            self.lemma_last_focusable_char(from as int, n as int);
        }
        if reverse {
            match self.scan_down(0, from) {
                Some(n) => Some(n),
                None => self.scan_down(from, n),
            }
        } else {
            match self.scan_up(from + 1, n) {
                Some(n) => Some(n),
                None => self.scan_up(0, from + 1),
            }
        }
    }

    /// What a forward scan guarantees: a find is the first focusable node
    /// in the range; no find means the range has none.
    pub proof fn lemma_first_focusable_char(self, lo: int, hi: int)
        requires
            hi <= usize::MAX,
        ensures
            match self.first_focusable_in(lo, hi) {
                Some(n) => {
                    &&& lo <= n as int
                    &&& (n as int) < hi
                    &&& self.focusable(n as int)
                    &&& forall|k: int| lo <= k < (n as int) ==> !self.focusable(k)
                },
                None => forall|k: int| lo <= k < hi ==> !self.focusable(k),
            },
        decreases hi - lo,
    {
        if lo >= hi {
        } else if self.focusable(lo) {
        } else {
            self.lemma_first_focusable_char(lo + 1, hi);
        }
    }

    /// What a backward scan guarantees: a find is the last focusable node
    /// in the range; no find means the range has none.
    pub proof fn lemma_last_focusable_char(self, lo: int, hi: int)
        requires
            hi <= usize::MAX,
        ensures
            match self.last_focusable_in(lo, hi) {
                Some(n) => {
                    &&& lo <= n as int
                    &&& (n as int) < hi
                    &&& self.focusable(n as int)
                    &&& forall|k: int| (n as int) < k < hi ==> !self.focusable(k)
                },
                None => forall|k: int| lo <= k < hi ==> !self.focusable(k),
            },
        decreases hi - lo,
    {
        if lo >= hi {
        } else if self.focusable(hi - 1) {
        } else {
            self.lemma_last_focusable_char(lo, hi - 1);
        }
    }

    /// Tab traversal round trip: advancing focus from a focusable widget
    /// in forward order, then in reverse order from the widget reached,
    /// returns focus to the original widget.
    pub proof fn lemma_focus_round_trip(self, w: usize)
        requires
            self.wf(),
            self.focusable(w as int),
        ensures
            self.spec_next_focus(w, false) is Some,
            self.spec_next_focus(self.spec_next_focus(w, false).unwrap(), true) == Some(w),
    {
        broadcast use vstd::std_specs::vec::axiom_spec_len;

        assert(vstd::std_specs::vec::spec_vec_len(&self.nodes) <= usize::MAX);
        let len = self.spec_len();
        self.lemma_first_focusable_char(w as int + 1, len);
        self.lemma_first_focusable_char(0, w as int + 1);
        match self.first_focusable_in(w as int + 1, len) {
            Some(n) => {
                let ni = n as int;
                self.lemma_last_focusable_char(0, ni);
                match self.last_focusable_in(0, ni) {
                    Some(m) => {
                        if (m as int) < w as int {
                            assert(self.focusable(w as int));
                        }
                        assert(m == w);
                    },
                    None => {
                        assert(!self.focusable(w as int));
                    },
                }
            },
            None => {
                match self.first_focusable_in(0, w as int + 1) {
                    Some(n) => {
                        let ni = n as int;
                        self.lemma_last_focusable_char(0, ni);
                        match self.last_focusable_in(0, ni) {
                            Some(m) => {
                                assert(!self.focusable(m as int));
                            },
                            None => {},
                        }
                        self.lemma_last_focusable_char(ni, len);
                        match self.last_focusable_in(ni, len) {
                            Some(m) => {
                                if (m as int) < w as int {
                                    assert(self.focusable(w as int));
                                }
                                assert(m == w);
                            },
                            None => {
                                assert(!self.focusable(w as int));
                            },
                        }
                    },
                    None => {
                        assert(!self.focusable(w as int));
                    },
                }
            },
        }
    }
}

} // verus!
