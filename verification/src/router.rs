//! The event router: a generic bubbling protocol shared by keyboard,
//! mouse, wheel, and IME delivery. An event is offered to a target node;
//! while the handler there reports it ignored, the router retries on the
//! parent, and an event that bubbles past the root is dropped.
//!
//! Widget handlers run outside this crate, so their answers enter as a
//! verdict vector: `verdicts[i]` is what widget `i` answers when offered
//! this event (`true` for handled). The router itself mutates nothing; it
//! only reports which node consumed the event.

use vstd::prelude::*;
use crate::tree::{Tree, Node};

verus! {

/// The chain a delivery to `i` bubbles through: the node itself, then
/// its ancestors in order up to the root.
pub open spec fn chain_seq(nodes: Seq<Node>, i: int) -> Seq<usize>
    decreases i,
{
    if 0 <= i < nodes.len() {
        let rest = match nodes[i].parent {
            Some(p) => if (p as int) < i {
                chain_seq(nodes, p as int)
            } else {
                Seq::empty()
            },
            None => Seq::empty(),
        };
        seq![i as usize] + rest
    } else {
        Seq::empty()
    }
}

/// The first id in `cands` whose verdict is positive.
pub open spec fn first_handling(cands: Seq<usize>, verdicts: Seq<bool>) -> Option<usize>
    decreases cands.len(),
{
    if cands.len() == 0 {
        None
    } else if (cands[0] as int) < verdicts.len() && verdicts[cands[0] as int] {
        Some(cands[0])
    } else {
        first_handling(cands.drop_first(), verdicts)
    }
}

/// Where a delivery to `i` ends up: `i` itself if it handles the event,
/// else wherever a delivery to its parent ends up; `None` past the root.
pub open spec fn bubble_spec(nodes: Seq<Node>, i: int, verdicts: Seq<bool>) -> Option<usize>
    decreases i,
{
    if 0 <= i < nodes.len() && i < verdicts.len() {
        if verdicts[i] {
            Some(i as usize)
        } else {
            match nodes[i].parent {
                Some(p) => if (p as int) < i {
                    bubble_spec(nodes, p as int, verdicts)
                } else {
                    None
                },
                None => None,
            }
        }
    } else {
        None
    }
}

/// Offers the event to `target` and bubbles it toward the root along the
/// parent chain, returning the node that consumed it, or `None` when it
/// reached the root unhandled. `verdicts[i]` is widget `i`'s answer to
/// this event.
pub fn recursively_handle_event(tree: &Tree, target: usize, verdicts: &Vec<bool>) -> (r: Option<
    usize,
>)
    requires
        tree.wf(),
        tree.live(target),
        verdicts@.len() == tree.spec_len(),
    ensures
        r == bubble_spec(tree.nodes@, target as int, verdicts@),
{
    let mut cur: usize = target;
    loop
        invariant
            tree.wf(),
            tree.live(cur),
            verdicts@.len() == tree.spec_len(),
            bubble_spec(tree.nodes@, target as int, verdicts@) == bubble_spec(
                tree.nodes@,
                cur as int,
                verdicts@,
            ),
        decreases cur,
    {
        if verdicts[cur] {
            return Some(cur);
        }
        proof {
            assert(tree.node_wf(cur as int));
        }
        match tree.nodes[cur].parent {
            Some(p) => {
                cur = p;
            },
            None => {
                return None;
            },
        }
    }
}

/// What the first positive verdict in a candidate list guarantees: a
/// find handles the event and everything offered before it ignored it;
/// no find means every candidate ignored it.
pub proof fn lemma_first_handling_char(cands: Seq<usize>, verdicts: Seq<bool>)
    requires
        forall|k: int| 0 <= k < cands.len() ==> (#[trigger] cands[k] as int) < verdicts.len(),
    ensures
        match first_handling(cands, verdicts) {
            Some(w) => exists|k: int|
                {
                    &&& 0 <= k < cands.len()
                    &&& #[trigger] cands[k] == w
                    &&& verdicts[w as int]
                    &&& forall|m: int| 0 <= m < k ==> !verdicts[#[trigger] cands[m] as int]
                },
            None => forall|k: int| 0 <= k < cands.len()
                ==> !verdicts[#[trigger] cands[k] as int],
        },
    decreases cands.len(),
{
    if cands.len() > 0 {
        if (cands[0] as int) < verdicts.len() && verdicts[cands[0] as int] {
            assert(cands[0] == cands[0]);
        } else {
            lemma_first_handling_char(cands.drop_first(), verdicts);
            let rest = cands.drop_first();
            match first_handling(rest, verdicts) {
                Some(w) => {
                    let k = choose|k: int|
                        {
                            &&& 0 <= k < rest.len()
                            &&& #[trigger] rest[k] == w
                            &&& verdicts[w as int]
                            &&& forall|m: int| 0 <= m < k
                                ==> !verdicts[#[trigger] rest[m] as int]
                        };
                    assert(cands[k + 1] == w);
                    assert forall|m: int| 0 <= m < k + 1 implies
                        !verdicts[#[trigger] cands[m] as int] by {
                        if m > 0 {
                            assert(rest[m - 1] == cands[m]);
                        }
                    }
                },
                None => {
                    assert forall|k: int| 0 <= k < cands.len() implies
                        !verdicts[#[trigger] cands[k] as int] by {
                        if k > 0 {
                            assert(rest[k - 1] == cands[k]);
                        }
                    }
                },
            }
        }
    }
}

/// Bubbling is monotonic toward the root: a delivery consults exactly
/// the target's ancestor chain, nearest first, and is consumed by the
/// first node on that chain that handles it — never a sibling or cousin.
pub proof fn lemma_bubble_follows_chain(tree: Tree, i: int, verdicts: Seq<bool>)
    requires
        tree.wf(),
        0 <= i < tree.spec_len(),
        verdicts.len() == tree.spec_len(),
    ensures
        bubble_spec(tree.nodes@, i, verdicts) == first_handling(
            chain_seq(tree.nodes@, i),
            verdicts,
        ),
    decreases i,
{
    broadcast use vstd::std_specs::vec::axiom_spec_len;

    assert(vstd::std_specs::vec::spec_vec_len(&tree.nodes) <= usize::MAX);
    assert(tree.node_wf(i));
    let chain = chain_seq(tree.nodes@, i);
    assert(chain[0] == i as usize);
    if verdicts[i] {
    } else {
        match tree.nodes@[i].parent {
            Some(p) => {
                lemma_bubble_follows_chain(tree, p as int, verdicts);
                assert(chain.drop_first() =~= chain_seq(tree.nodes@, p as int));
            },
            None => {
                assert(chain.drop_first() =~= Seq::<usize>::empty());
                assert(first_handling(Seq::<usize>::empty(), verdicts) is None);
            },
        }
    }
}


/// A consumed delivery always names a mounted node.
pub proof fn lemma_bubble_live(nodes: Seq<Node>, i: int, verdicts: Seq<bool>)
    requires
        nodes.len() <= usize::MAX,
    ensures
        match bubble_spec(nodes, i, verdicts) {
            Some(w) => (w as int) < nodes.len() && (w as int) < verdicts.len()
                && verdicts[w as int],
            None => true,
        },
    decreases i,
{
    if 0 <= i < nodes.len() && i < verdicts.len() {
        if verdicts[i] {
        } else {
            match nodes[i].parent {
                Some(p) => {
                    if (p as int) < i {
                        lemma_bubble_live(nodes, p as int, verdicts);
                    }
                },
                None => {},
            }
        }
    }
}

} // verus!
