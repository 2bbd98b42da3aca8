//! The window-tree model: node kinds, the recursive node type, flattening a
//! tree into selectable candidates, and searching a tree for a mark.

use vstd::prelude::*;
use crate::strings::{lemma_u64_digits_are_digits, spec_u64_digits, str_eq, u64_to_string};

verus! {

/// The kind tag of a tree node, mirroring the window manager's node types.
#[derive(Clone, Copy, Debug, PartialEq, Eq, Structural)]
pub enum NodeKind {
    Root,
    Output,
    Con,
    FloatingCon,
    Workspace,
    DockArea,
    Unknown,
}

/// One element of the window tree.  Each node exclusively owns its children
/// and floating children; the tree is acyclic by construction.
pub struct Node {
    /// Unique integer identifier.
    pub id: u64,
    /// Optional display name.
    pub name: Option<String>,
    /// The node-kind tag.
    pub kind: NodeKind,
    /// String tags ("marks") attached to this node.
    pub marks: Vec<String>,
    /// Ordered tiled children.
    pub nodes: Vec<Node>,
    /// Ordered floating (detached) children.
    pub floating_nodes: Vec<Node>,
}

/// A selectable entry derived from the tree: an identifier together with the
/// human-readable label shown by the selection prompt.
pub struct Candidate {
    pub id: u64,
    pub label: String,
}

/// The mathematical value of a `Candidate`.
pub ghost struct CandidateView {
    pub id: u64,
    pub label: Seq<char>,
}

impl View for Candidate {
    type V = CandidateView;

    open spec fn view(&self) -> CandidateView {
        CandidateView { id: self.id, label: self.label@ }
    }
}

/// The views of a sequence of candidates.
pub open spec fn cand_views(s: Seq<Candidate>) -> Seq<CandidateView> {
    s.map_values(|c: Candidate| c@)
}

/// The display label for a node: its identifier in decimal, a colon and a
/// space, then its name.
pub open spec fn spec_label(id: u64, name: Seq<char>) -> Seq<char> {
    spec_u64_digits(id as nat) + seq![':', ' '] + name
}

/// Whether flattening for `k` emits this node: it must carry a non-empty
/// display name and be of the wanted kind.
pub open spec fn node_matches(n: Node, k: NodeKind) -> bool {
    n.name is Some && n.name.unwrap()@.len() > 0 && n.kind == k
}

/// The candidate emitted for a matching node.
pub open spec fn spec_candidate(n: Node) -> CandidateView {
    CandidateView { id: n.id, label: spec_label(n.id, n.name.unwrap()@) }
}

/// Depth-first pre-order flattening of a sibling list: each node is emitted
/// (when it matches) before its own subtree, and siblings keep their order.
/// Floating children take no part in flattening.
pub open spec fn spec_flatten_nodes(s: Seq<Node>, k: NodeKind) -> Seq<CandidateView>
    decreases s,
{
    if s.len() == 0 {
        Seq::empty()
    } else {
        (if node_matches(s[0], k) {
            seq![spec_candidate(s[0])]
        } else {
            Seq::empty()
        }) + spec_flatten_nodes(s[0].nodes@, k) + spec_flatten_nodes(s.drop_first(), k)
    }
}

/// Flattening starts at the root's children; the root itself is never
/// emitted.
pub open spec fn spec_flatten(root: Node, k: NodeKind) -> Seq<CandidateView> {
    spec_flatten_nodes(root.nodes@, k)
}

/// All nodes of a sibling list in depth-first pre-order: parent before its
/// children, children before the following sibling.
pub open spec fn spec_preorder(s: Seq<Node>) -> Seq<Node>
    decreases s,
{
    if s.len() == 0 {
        Seq::empty()
    } else {
        seq![s[0]] + spec_preorder(s[0].nodes@) + spec_preorder(s.drop_first())
    }
}

/// Whether `m` occurs among a node's own marks.
pub open spec fn spec_marks_contain(marks: Seq<String>, m: Seq<char>) -> bool {
    exists|j: int| 0 <= j < marks.len() && marks[j]@ == m
}

/// Whether `m` is the mark of `n` itself or of any node below it, through
/// tiled and floating children alike.
pub open spec fn spec_subtree_has_mark(n: Node, m: Seq<char>) -> bool
    decreases n,
{
    spec_marks_contain(n.marks@, m) || (exists|i: int|
        0 <= i < n.nodes@.len() && spec_subtree_has_mark(#[trigger] n.nodes@[i], m)) || (exists|
        i: int,
    |
        0 <= i < n.floating_nodes@.len() && spec_subtree_has_mark(
            #[trigger] n.floating_nodes@[i],
            m,
        ))
}

/// Whether `m` appears in the tag set of some node reachable from the root's
/// immediate descendants (tiled or floating); the root's own tags are not
/// consulted.
pub open spec fn spec_has_mark(root: Node, m: Seq<char>) -> bool {
    (exists|i: int|
        0 <= i < root.nodes@.len() && spec_subtree_has_mark(#[trigger] root.nodes@[i], m)) || (
    exists|i: int|
        0 <= i < root.floating_nodes@.len() && spec_subtree_has_mark(
            #[trigger] root.floating_nodes@[i],
            m,
        ))
}

/// The candidate invariant: a display label never contains the newline
/// that delimits the prompt's candidate list, as long as the node's name
/// contains none.  (The identifier digits and the `": "` separator cannot
/// contribute one.)
pub proof fn lemma_label_has_no_newline(id: u64, name: Seq<char>)
    requires
        !name.contains('\n'),
    ensures
        !spec_label(id, name).contains('\n'),
{
    lemma_u64_digits_are_digits(id as nat);
    let label = spec_label(id, name);
    let digits = spec_u64_digits(id as nat);
    assert forall|i: int| 0 <= i < label.len() implies label[i] != '\n' by {
        if i < digits.len() {
            assert(label[i] == digits[i]);
        } else if i >= digits.len() + 2 {
            assert(label[i] == name[i - digits.len() - 2]);
            assert(!name.contains('\n'));
            if name[i - digits.len() - 2] == '\n' {
                assert(name.contains('\n'));
            }
        }
    }
    if label.contains('\n') {
        let w = choose|w: int| 0 <= w < label.len() && label[w] == '\n';
        assert(false);
    }
}

/// Builds the display label `"{id}: {name}"`.
pub fn make_label(id: u64, name: &str) -> (r: String)
    ensures
        r@ == spec_label(id, name@),
{
    let mut s = u64_to_string(id);
    s.append(": ");
    s.append(name);
    proof {
        reveal_strlit(": ");
        assert(": "@ =~= seq![':', ' ']);
        assert(s@ =~= spec_label(id, name@));
    }
    s
}

proof fn lemma_flatten_nodes_add(a: Seq<Node>, b: Seq<Node>, k: NodeKind)
    ensures
        spec_flatten_nodes(a + b, k) == spec_flatten_nodes(a, k) + spec_flatten_nodes(b, k),
    decreases a,
{
    if a.len() == 0 {
        assert(a + b =~= b);
        assert(spec_flatten_nodes(a, k) + spec_flatten_nodes(b, k) =~= spec_flatten_nodes(b, k));
    } else {
        assert((a + b).len() > 0);
        assert((a + b)[0] == a[0]);
        assert((a + b).drop_first() =~= a.drop_first() + b);
        lemma_flatten_nodes_add(a.drop_first(), b, k);
        assert(spec_flatten_nodes(a + b, k) =~= spec_flatten_nodes(a, k) + spec_flatten_nodes(
            b,
            k,
        ));
    }
}

proof fn lemma_flatten_nodes_one(x: Node, k: NodeKind)
    ensures
        spec_flatten_nodes(seq![x], k) == (if node_matches(x, k) {
            seq![spec_candidate(x)]
        } else {
            Seq::<CandidateView>::empty()
        }) + spec_flatten_nodes(x.nodes@, k),
{
    let s = seq![x];
    assert(s.drop_first() =~= Seq::<Node>::empty());
    assert(spec_flatten_nodes(s.drop_first(), k) =~= Seq::<CandidateView>::empty());
    assert(spec_flatten_nodes(s, k) =~= (if node_matches(x, k) {
        seq![spec_candidate(x)]
    } else {
        Seq::<CandidateView>::empty()
    }) + spec_flatten_nodes(x.nodes@, k));
}

proof fn lemma_map_values_add<A, B>(a: Seq<A>, b: Seq<A>, f: spec_fn(A) -> B)
    ensures
        (a + b).map_values(f) == a.map_values(f) + b.map_values(f),
{
    assert((a + b).map_values(f) =~= a.map_values(f) + b.map_values(f));
}

/// Law: flattening a sibling list for a kind yields exactly the depth-first
/// pre-order sequence of its nodes, restricted to the named nodes of that
/// kind, each mapped to its candidate.  So candidates come in strict
/// pre-order, every named node of the wanted kind appears exactly once (at
/// its pre-order position), and unnamed nodes never appear.
pub proof fn lemma_flatten_is_filtered_preorder(s: Seq<Node>, k: NodeKind)
    ensures
        spec_flatten_nodes(s, k) == spec_preorder(s).filter(|n: Node| node_matches(n, k)).map_values(
            |n: Node| spec_candidate(n),
        ),
    decreases s,
{
    reveal_with_fuel(Seq::<_>::filter, 3);
    let p = (|n: Node| node_matches(n, k));
    let f = (|n: Node| spec_candidate(n));
    if s.len() == 0 {
        assert(spec_preorder(s).filter(p) =~= Seq::<Node>::empty());
        assert(spec_preorder(s).filter(p).map_values(f) =~= Seq::<CandidateView>::empty());
    } else {
        let x = s[0];
        lemma_flatten_is_filtered_preorder(x.nodes@, k);
        lemma_flatten_is_filtered_preorder(s.drop_first(), k);
        let p1 = seq![x];
        let p2 = spec_preorder(x.nodes@);
        let p3 = spec_preorder(s.drop_first());
        assert(spec_preorder(s) == p1 + p2 + p3);
        Seq::<Node>::filter_distributes_over_add(p1 + p2, p3, p);
        Seq::<Node>::filter_distributes_over_add(p1, p2, p);
        assert(p1.drop_last() =~= Seq::<Node>::empty());
        assert(Seq::<Node>::empty().filter(p) =~= Seq::<Node>::empty());
        assert(p1.last() == x);
        assert(p1.filter(p) == (if p(x) {
            Seq::<Node>::empty().push(x)
        } else {
            Seq::<Node>::empty()
        }));
        assert(Seq::<Node>::empty().push(x) =~= seq![x]);
        assert(p1.filter(p) =~= (if p(x) {
            seq![x]
        } else {
            Seq::<Node>::empty()
        }));
        lemma_map_values_add(p1.filter(p) + p2.filter(p), p3.filter(p), f);
        lemma_map_values_add(p1.filter(p), p2.filter(p), f);
        assert(p1.filter(p).map_values(f) =~= (if node_matches(x, k) {
            seq![spec_candidate(x)]
        } else {
            Seq::<CandidateView>::empty()
        }));
        assert(spec_flatten_nodes(s, k) =~= spec_preorder(s).filter(p).map_values(f));
    }
}

/// The same law stated from a root node, as flattening is invoked.
pub proof fn lemma_flatten_root_is_filtered_preorder(root: Node, k: NodeKind)
    ensures
        spec_flatten(root, k) == spec_preorder(root.nodes@).filter(
            |n: Node| node_matches(n, k),
        ).map_values(|n: Node| spec_candidate(n)),
{
    lemma_flatten_is_filtered_preorder(root.nodes@, k);
}

/// Flattens the tree below `node` into the ordered candidate list for the
/// wanted kind: depth-first pre-order over the tiled children only, one
/// candidate per named node of kind `wanted`, nothing for unnamed nodes.
pub fn get_all_by_type(node: &Node, wanted: NodeKind) -> (r: Vec<Candidate>)
    ensures
        cand_views(r@) == spec_flatten(*node, wanted),
    decreases *node,
{
    let mut res: Vec<Candidate> = Vec::new();
    proof {
        assert(node.nodes@.subrange(0, 0) =~= Seq::<Node>::empty());
        assert(cand_views(res@) =~= spec_flatten_nodes(node.nodes@.subrange(0, 0), wanted));
    }
    for i in 0..node.nodes.len()
        invariant
            cand_views(res@) == spec_flatten_nodes(node.nodes@.subrange(0, i as int), wanted),
        decreases node.nodes.len() - i,
    {
        let ghost prefix = node.nodes@.subrange(0, i as int);
        let child = &node.nodes[i];
        if child.kind == wanted {
            if let Some(name) = &child.name {
                if name.as_str().unicode_len() > 0 {
                    let label = make_label(child.id, name.as_str());
                    res.push(Candidate { id: child.id, label });
                }
            }
        }
        let mut sub = get_all_by_type(child, wanted);
        res.append(&mut sub);
        proof {
            let s = node.nodes@;
            assert(s.subrange(0, i + 1) =~= prefix + seq![s[i as int]]);
            lemma_flatten_nodes_add(prefix, seq![s[i as int]], wanted);
            lemma_flatten_nodes_one(s[i as int], wanted);
            assert(cand_views(res@) =~= spec_flatten_nodes(s.subrange(0, i + 1), wanted));
        }
    }
    proof {
        assert(node.nodes@.subrange(0, node.nodes@.len() as int) =~= node.nodes@);
    }
    res
}

fn node_subtree_has_mark(node: &Node, mark: &str) -> (r: bool)
    ensures
        r == spec_subtree_has_mark(*node, mark@),
    decreases *node,
{
    for j in 0..node.marks.len()
        invariant
            forall|t: int| 0 <= t < j ==> node.marks@[t]@ != mark@,
        decreases node.marks.len() - j,
    {
        if str_eq(node.marks[j].as_str(), mark) {
            return true;
        }
    }
    for i in 0..node.nodes.len()
        invariant
            forall|t: int| 0 <= t < node.marks@.len() ==> node.marks@[t]@ != mark@,
            forall|t: int| 0 <= t < i ==> !spec_subtree_has_mark(node.nodes@[t], mark@),
        decreases node.nodes.len() - i,
    {
        if node_subtree_has_mark(&node.nodes[i], mark) {
            return true;
        }
    }
    for i in 0..node.floating_nodes.len()
        invariant
            forall|t: int| 0 <= t < node.marks@.len() ==> node.marks@[t]@ != mark@,
            forall|t: int| 0 <= t < node.nodes@.len() ==> !spec_subtree_has_mark(
                node.nodes@[t],
                mark@,
            ),
            forall|t: int| 0 <= t < i ==> !spec_subtree_has_mark(node.floating_nodes@[t], mark@),
        decreases node.floating_nodes.len() - i,
    {
        if node_subtree_has_mark(&node.floating_nodes[i], mark) {
            return true;
        }
    }
    false
}

/// Searches the tree below `node` for a mark: true exactly when `mark`
/// appears in the tag set of some node reachable through children or
/// floating children from the root's immediate descendants (the root's own
/// tags are not consulted).
pub fn search_tree_for_mark(node: &Node, mark: &str) -> (r: bool)
    ensures
        r == spec_has_mark(*node, mark@),
{
    for i in 0..node.nodes.len()
        invariant
            forall|t: int| 0 <= t < i ==> !spec_subtree_has_mark(node.nodes@[t], mark@),
        decreases node.nodes.len() - i,
    {
        if node_subtree_has_mark(&node.nodes[i], mark) {
            return true;
        }
    }
    for i in 0..node.floating_nodes.len()
        invariant
            forall|t: int| 0 <= t < node.nodes@.len() ==> !spec_subtree_has_mark(
                node.nodes@[t],
                mark@,
            ),
            forall|t: int| 0 <= t < i ==> !spec_subtree_has_mark(node.floating_nodes@[t], mark@),
        decreases node.floating_nodes.len() - i,
    {
        if node_subtree_has_mark(&node.floating_nodes[i], mark) {
            return true;
        }
    }
    false
}

} // verus!
