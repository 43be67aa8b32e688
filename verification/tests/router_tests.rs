use gooey_window::{Tree, WidgetBehavior, recursively_handle_event};

fn chain_tree() -> Tree {
    // root(0) <- mid(1) <- leaf(2), plus sibling(3) of mid under root
    let mut tree = Tree::new();
    let root = tree.push(WidgetBehavior::passive(), None);
    let mid = tree.push(WidgetBehavior::passive(), Some(root));
    let _leaf = tree.push(WidgetBehavior::passive(), Some(mid));
    let _sibling = tree.push(WidgetBehavior::passive(), Some(root));
    tree
}

#[test]
fn bubbling_target_handles() {
    let tree = chain_tree();
    let verdicts = vec![false, false, true, false];
    assert_eq!(recursively_handle_event(&tree, 2, &verdicts), Some(2));
}

#[test]
fn bubbling_retries_parent() {
    let tree = chain_tree();
    let verdicts = vec![false, true, false, false];
    assert_eq!(recursively_handle_event(&tree, 2, &verdicts), Some(1));
}

#[test]
fn bubbling_reaches_root() {
    let tree = chain_tree();
    let verdicts = vec![true, false, false, false];
    assert_eq!(recursively_handle_event(&tree, 2, &verdicts), Some(0));
}

#[test]
fn bubbling_unhandled_is_dropped() {
    let tree = chain_tree();
    let verdicts = vec![false, false, false, false];
    assert_eq!(recursively_handle_event(&tree, 2, &verdicts), None);
}

#[test]
fn bubbling_never_tries_siblings() {
    // The sibling (3) would handle the event, but it is not on the leaf's
    // ancestor chain: the event must bubble past mid and root unhandled.
    let tree = chain_tree();
    let verdicts = vec![false, false, false, true];
    assert_eq!(recursively_handle_event(&tree, 2, &verdicts), None);
}

#[test]
fn bubbling_prefers_nearest_ancestor() {
    // Both mid and root would handle it; the nearer ancestor wins.
    let tree = chain_tree();
    let verdicts = vec![true, true, false, false];
    assert_eq!(recursively_handle_event(&tree, 2, &verdicts), Some(1));
}
