use sway_action::tree::{get_all_by_type, search_tree_for_mark, Node, NodeKind};

fn leaf(id: u64, name: Option<&str>, kind: NodeKind) -> Node {
    Node {
        id,
        name: name.map(|s| s.to_string()),
        kind,
        marks: Vec::new(),
        nodes: Vec::new(),
        floating_nodes: Vec::new(),
    }
}

fn with_children(mut n: Node, children: Vec<Node>) -> Node {
    n.nodes = children;
    n
}

fn with_floating(mut n: Node, floating: Vec<Node>) -> Node {
    n.floating_nodes = floating;
    n
}

fn with_marks(mut n: Node, marks: Vec<&str>) -> Node {
    n.marks = marks.into_iter().map(|s| s.to_string()).collect();
    n
}

/// Two windows under a workspace flatten in order with `"{id}: {name}"`
/// labels.
#[test]
fn flatten_two_windows() {
    let workspace = with_children(
        leaf(1, Some("ws"), NodeKind::Workspace),
        vec![
            leaf(3, Some("Firefox"), NodeKind::Con),
            leaf(7, Some("Terminal"), NodeKind::Con),
        ],
    );
    let root = with_children(leaf(0, None, NodeKind::Root), vec![workspace]);
    let cands = get_all_by_type(&root, NodeKind::Con);
    assert_eq!(cands.len(), 2);
    assert_eq!(cands[0].id, 3);
    assert_eq!(cands[0].label, "3: Firefox");
    assert_eq!(cands[1].id, 7);
    assert_eq!(cands[1].label, "7: Terminal");
}

/// Pre-order: a matching parent comes before its matching descendants, and
/// a deeper first sibling's subtree comes before the second sibling.
#[test]
fn flatten_preorder_nested() {
    let inner = with_children(
        leaf(4, Some("inner"), NodeKind::Con),
        vec![leaf(5, Some("deep"), NodeKind::Con)],
    );
    let second = leaf(6, Some("second"), NodeKind::Con);
    let root = with_children(leaf(0, None, NodeKind::Root), vec![inner, second]);
    let cands = get_all_by_type(&root, NodeKind::Con);
    let labels: Vec<&str> = cands.iter().map(|c| c.label.as_str()).collect();
    assert_eq!(labels, vec!["4: inner", "5: deep", "6: second"]);
}

/// Unnamed nodes and nodes of another kind are skipped, but their subtrees
/// are still visited; an empty name counts as unnamed.
#[test]
fn flatten_skips_unnamed_and_other_kinds() {
    let unnamed_parent = with_children(
        leaf(10, None, NodeKind::Con),
        vec![leaf(11, Some("child"), NodeKind::Con)],
    );
    let empty_name = leaf(12, Some(""), NodeKind::Con);
    let workspace = leaf(13, Some("ws"), NodeKind::Workspace);
    let root = with_children(
        leaf(0, None, NodeKind::Root),
        vec![unnamed_parent, empty_name, workspace],
    );
    let cands = get_all_by_type(&root, NodeKind::Con);
    assert_eq!(cands.len(), 1);
    assert_eq!(cands[0].label, "11: child");
}

/// The root node itself is never a candidate, and floating children are
/// excluded from flattening.
#[test]
fn flatten_excludes_root_and_floating() {
    let floating = leaf(21, Some("float"), NodeKind::Con);
    let root = with_floating(leaf(20, Some("root"), NodeKind::Con), vec![floating]);
    let cands = get_all_by_type(&root, NodeKind::Con);
    assert!(cands.is_empty());
}

/// A mark is found through tiled children.
#[test]
fn mark_found_in_children() {
    let marked = with_marks(leaf(2, Some("term"), NodeKind::Con), vec!["quick"]);
    let workspace = with_children(leaf(1, Some("ws"), NodeKind::Workspace), vec![marked]);
    let root = with_children(leaf(0, None, NodeKind::Root), vec![workspace]);
    assert!(search_tree_for_mark(&root, "quick"));
    assert!(!search_tree_for_mark(&root, "other"));
}

/// A mark is found through floating children too.
#[test]
fn mark_found_in_floating() {
    let marked = with_marks(leaf(5, Some("pad"), NodeKind::FloatingCon), vec!["scratch"]);
    let workspace = with_floating(leaf(1, Some("ws"), NodeKind::Workspace), vec![marked]);
    let root = with_children(leaf(0, None, NodeKind::Root), vec![workspace]);
    assert!(search_tree_for_mark(&root, "scratch"));
}

/// The root's own tags are not consulted: only its descendants'.
#[test]
fn mark_on_root_itself_is_ignored() {
    let root = with_marks(leaf(0, None, NodeKind::Root), vec!["quick"]);
    assert!(!search_tree_for_mark(&root, "quick"));
}

/// An empty tree has no marks.
#[test]
fn mark_empty_tree() {
    let root = leaf(0, None, NodeKind::Root);
    assert!(!search_tree_for_mark(&root, "quick"));
}
