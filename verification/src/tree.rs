//! The file-tree model: an in-memory recursive mirror of a directory
//! subtree, with per-node expand/load state. Directory children are fetched
//! lazily; `children_nodes` of `None` means "not yet fetched", `Some` means
//! "fetched and cached" (possibly empty). Nodes are addressed by their path,
//! and a lookup miss is a silent no-op by design, so that results of stale
//! asynchronous fetches are dropped harmlessly.

use vstd::prelude::*;

verus! {

/// A node of the file tree: a terminal file, or a directory with lazily
/// fetched children. A file with `path == None` is the synthetic placeholder
/// for the unsaved "New File" document.
#[allow(inconsistent_fields)]
#[derive(Debug)]
pub enum FileNode {
    File { name: String, path: Option<String> },
    Directory { name: String, path: String, expanded: bool, children_nodes: Option<Vec<FileNode>> },
}

/// The mathematical model of a `FileNode`: the same shape over `Seq<char>`.
/// All tree contracts are stated over this model.
#[allow(inconsistent_fields)]
#[verifier::ext_equal]
pub enum NodeView {
    File { name: Seq<char>, path: Option<Seq<char>> },
    Dir { name: Seq<char>, path: Seq<char>, expanded: bool, children: Option<Seq<NodeView>> },
}

/// What a toggle of a directory node did.
#[derive(Debug, Clone, Copy, PartialEq, Eq, Structural)]
pub enum ToggleOutcome {
    /// The node was found and its `expanded` flag flipped; no fetch is needed
    /// (collapsing keeps cached children, expanding found them cached).
    Handled,
    /// The node was found collapsed with children not yet fetched; it is now
    /// expanded and the caller should dispatch an asynchronous listing.
    NeedsFetch,
    /// No directory node has the given path; the tree is unchanged.
    Missing,
}

/// The model of a node.
pub open spec fn node_view(n: FileNode) -> NodeView
    decreases n,
{
    match n {
        FileNode::File { name, path } => NodeView::File {
            name: name@,
            path: match path {
                Some(p) => Some(p@),
                None => None,
            },
        },
        FileNode::Directory { name, path, expanded, children_nodes } => NodeView::Dir {
            name: name@,
            path: path@,
            expanded,
            children: match children_nodes {
                Some(v) => Some(nodes_view(v@)),
                None => None,
            },
        },
    }
}

/// The model of a sequence of nodes, elementwise.
pub open spec fn nodes_view(s: Seq<FileNode>) -> Seq<NodeView>
    decreases s,
{
    if s.len() == 0 {
        Seq::empty()
    } else {
        seq![node_view(s[0])] + nodes_view(s.drop_first())
    }
}

/// Number of nodes in a subtree, counting the node itself; the termination
/// measure for walks of the tree.
pub open spec fn node_size(n: NodeView) -> nat
    decreases n,
{
    match n {
        NodeView::File { .. } => 1,
        NodeView::Dir { children, .. } => match children {
            Some(kids) => 1 + seq_size(kids),
            None => 1,
        },
    }
}

/// Number of nodes in a forest, plus one per tree so that a subforest is
/// always strictly smaller than the node above it.
pub open spec fn seq_size(s: Seq<NodeView>) -> nat
    decreases s,
{
    if s.len() == 0 {
        0
    } else {
        1 + node_size(s[0]) + seq_size(s.drop_first())
    }
}

/// Whether this subtree holds a directory node with the given path.
pub open spec fn node_has_dir(n: NodeView, target: Seq<char>) -> bool
    decreases n,
{
    match n {
        NodeView::File { .. } => false,
        NodeView::Dir { path, children, .. } => path == target || match children {
            Some(kids) => tree_has_dir(kids, target),
            None => false,
        },
    }
}

/// Whether some tree of the forest holds a directory node with the given path.
pub open spec fn tree_has_dir(s: Seq<NodeView>, target: Seq<char>) -> bool
    decreases s,
{
    if s.len() == 0 {
        false
    } else {
        node_has_dir(s[0], target) || tree_has_dir(s.drop_first(), target)
    }
}

/// Toggling within one subtree: the first directory reached depth-first whose
/// path equals `target` has its state flipped. Collapsing an expanded node
/// keeps its cached children; expanding a collapsed node reports whether its
/// children still have to be fetched. A miss leaves the node untouched.
pub open spec fn spec_toggle_node(n: NodeView, target: Seq<char>) -> (NodeView, ToggleOutcome)
    decreases n,
{
    match n {
        NodeView::File { .. } => (n, ToggleOutcome::Missing),
        NodeView::Dir { name, path, expanded, children } => {
            if path == target {
                if expanded {
                    (NodeView::Dir { name, path, expanded: false, children }, ToggleOutcome::Handled)
                } else if children is Some {
                    (NodeView::Dir { name, path, expanded: true, children }, ToggleOutcome::Handled)
                } else {
                    (NodeView::Dir { name, path, expanded: true, children }, ToggleOutcome::NeedsFetch)
                }
            } else {
                match children {
                    Some(kids) => {
                        let (kids2, out) = spec_toggle_seq(kids, target);
                        if out == ToggleOutcome::Missing {
                            (n, ToggleOutcome::Missing)
                        } else {
                            (NodeView::Dir { name, path, expanded, children: Some(kids2) }, out)
                        }
                    },
                    None => (n, ToggleOutcome::Missing),
                }
            }
        },
    }
}

/// Toggling over a forest, trying each tree in order; the first subtree that
/// holds the target is the only one changed, and a complete miss returns the
/// forest exactly as it was.
pub open spec fn spec_toggle_seq(s: Seq<NodeView>, target: Seq<char>) -> (Seq<NodeView>, ToggleOutcome)
    decreases s,
{
    if s.len() == 0 {
        (s, ToggleOutcome::Missing)
    } else {
        let (n0, out) = spec_toggle_node(s[0], target);
        if out != ToggleOutcome::Missing {
            (s.update(0, n0), out)
        } else {
            let (rest, out2) = spec_toggle_seq(s.drop_first(), target);
            if out2 == ToggleOutcome::Missing {
                (s, ToggleOutcome::Missing)
            } else {
                (seq![s[0]] + rest, out2)
            }
        }
    }
}

/// Installing children within one subtree: the first directory reached
/// depth-first whose path equals `target` has its `children` overwritten with
/// `ch`, whatever its `expanded` state. A miss leaves the node untouched.
pub open spec fn spec_install_node(n: NodeView, target: Seq<char>, ch: Option<Seq<NodeView>>) -> (NodeView, bool)
    decreases n,
{
    match n {
        NodeView::File { .. } => (n, false),
        NodeView::Dir { name, path, expanded, children } => {
            if path == target {
                (NodeView::Dir { name, path, expanded, children: ch }, true)
            } else {
                match children {
                    Some(kids) => {
                        let (kids2, found) = spec_install_seq(kids, target, ch);
                        if found {
                            (NodeView::Dir { name, path, expanded, children: Some(kids2) }, true)
                        } else {
                            (n, false)
                        }
                    },
                    None => (n, false),
                }
            }
        },
    }
}

/// Installing children over a forest; a complete miss returns the forest
/// exactly as it was (stale fetch results are dropped harmlessly).
pub open spec fn spec_install_seq(s: Seq<NodeView>, target: Seq<char>, ch: Option<Seq<NodeView>>) -> (Seq<NodeView>, bool)
    decreases s,
{
    if s.len() == 0 {
        (s, false)
    } else {
        let (n0, found) = spec_install_node(s[0], target, ch);
        if found {
            (s.update(0, n0), true)
        } else {
            let (rest, found2) = spec_install_seq(s.drop_first(), target, ch);
            if found2 {
                (seq![s[0]] + rest, true)
            } else {
                (s, false)
            }
        }
    }
}

/// The model of a forest has one entry per node.
pub broadcast proof fn lemma_nodes_view_len(s: Seq<FileNode>)
    ensures
        (#[trigger] nodes_view(s)).len() == s.len(),
    decreases s,
{
    if s.len() > 0 {
        lemma_nodes_view_len(s.drop_first());
    }
}

/// The model of a forest is the model of its nodes, elementwise.
pub broadcast proof fn lemma_nodes_view_index(s: Seq<FileNode>, i: int)
    requires
        0 <= i < s.len(),
    ensures
        #[trigger] nodes_view(s)[i] == node_view(s[i]),
    decreases s,
{
    lemma_nodes_view_len(s);
    if i > 0 {
        lemma_nodes_view_index(s.drop_first(), i - 1);
    }
}

/// The model of a single node.
pub proof fn lemma_nodes_view_one(n: FileNode)
    ensures
        nodes_view(seq![n]) == seq![node_view(n)],
{
    let one = seq![n];
    assert(one[0] == n);
    assert(one.drop_first() =~= Seq::<FileNode>::empty());
    assert(nodes_view(Seq::<FileNode>::empty()) =~= Seq::<NodeView>::empty());
    assert(nodes_view(one) =~= seq![node_view(n)]);
}

/// Dropping the first node commutes with taking the model.
proof fn lemma_nodes_view_drop_first(s: Seq<FileNode>)
    requires
        s.len() > 0,
    ensures
        nodes_view(s.drop_first()) == nodes_view(s).drop_first(),
{
    broadcast use lemma_nodes_view_len;

    assert(nodes_view(s).drop_first() =~= nodes_view(s.drop_first()));
}

/// Replacing one node commutes with taking the model.
proof fn lemma_nodes_view_update(s: Seq<FileNode>, i: int, x: FileNode)
    requires
        0 <= i < s.len(),
    ensures
        nodes_view(s.update(i, x)) == nodes_view(s).update(i, node_view(x)),
    decreases s,
{
    broadcast use lemma_nodes_view_len;

    if i == 0 {
        assert(s.update(0, x)[0] == x);
        assert(s.update(0, x).drop_first() =~= s.drop_first());
        assert(nodes_view(s.update(0, x)) =~= nodes_view(s).update(0, node_view(x)));
    } else {
        assert(s.update(i, x)[0] == s[0]);
        assert(s.update(i, x).drop_first() =~= s.drop_first().update(i - 1, x));
        lemma_nodes_view_update(s.drop_first(), i - 1, x);
        assert(nodes_view(s.update(i, x)) =~= nodes_view(s).update(i, node_view(x)));
    }
}

/// Every node of a forest is strictly smaller than the whole forest.
pub proof fn lemma_seq_size_index(s: Seq<NodeView>, i: int)
    requires
        0 <= i < s.len(),
    ensures
        node_size(s[i]) < seq_size(s),
    decreases s,
{
    if i > 0 {
        lemma_seq_size_index(s.drop_first(), i - 1);
    }
}

/// A toggle reports `Missing` exactly when no directory in the subtree has
/// the target path, and then leaves the subtree unchanged.
pub proof fn lemma_toggle_node_miss(n: NodeView, target: Seq<char>)
    ensures
        (spec_toggle_node(n, target).1 == ToggleOutcome::Missing) == !node_has_dir(n, target),
        !node_has_dir(n, target) ==> spec_toggle_node(n, target).0 == n,
    decreases n,
{
    if let NodeView::Dir { path, children, .. } = n {
        if path != target {
            if let Some(kids) = children {
                lemma_toggle_seq_miss(kids, target);
            }
        }
    }
}

/// Law: a toggle aimed at a path not present in the tree is a silent no-op —
/// it reports `Missing` and leaves the whole forest exactly as it was.
pub proof fn lemma_toggle_seq_miss(s: Seq<NodeView>, target: Seq<char>)
    ensures
        (spec_toggle_seq(s, target).1 == ToggleOutcome::Missing) == !tree_has_dir(s, target),
        !tree_has_dir(s, target) ==> spec_toggle_seq(s, target).0 == s,
    decreases s,
{
    if s.len() > 0 {
        lemma_toggle_node_miss(s[0], target);
        lemma_toggle_seq_miss(s.drop_first(), target);
    }
}

/// An install reports `false` exactly when no directory in the subtree has
/// the target path, and then leaves the subtree unchanged.
pub proof fn lemma_install_node_miss(n: NodeView, target: Seq<char>, ch: Option<Seq<NodeView>>)
    ensures
        spec_install_node(n, target, ch).1 == node_has_dir(n, target),
        !node_has_dir(n, target) ==> spec_install_node(n, target, ch).0 == n,
    decreases n,
{
    if let NodeView::Dir { path, children, .. } = n {
        if path != target {
            if let Some(kids) = children {
                lemma_install_seq_miss(kids, target, ch);
            }
        }
    }
}

/// Law: installing children at a path not present in the tree leaves the
/// tree unchanged — the identity on a miss, so a stale fetch result for a
/// since-replaced tree is dropped harmlessly.
pub proof fn lemma_install_seq_miss(s: Seq<NodeView>, target: Seq<char>, ch: Option<Seq<NodeView>>)
    ensures
        spec_install_seq(s, target, ch).1 == tree_has_dir(s, target),
        !tree_has_dir(s, target) ==> spec_install_seq(s, target, ch).0 == s,
    decreases s,
{
    if s.len() > 0 {
        lemma_install_node_miss(s[0], target, ch);
        lemma_install_seq_miss(s.drop_first(), target, ch);
    }
}

/// A toggle undoes a toggle within one subtree: flipping the same path twice
/// restores the subtree, and the second toggle finds the path exactly when
/// the first did.
pub proof fn lemma_toggle_node_twice(n: NodeView, p: Seq<char>)
    ensures
        spec_toggle_node(spec_toggle_node(n, p).0, p).0 == n,
        (spec_toggle_node(spec_toggle_node(n, p).0, p).1 == ToggleOutcome::Missing)
            == (spec_toggle_node(n, p).1 == ToggleOutcome::Missing),
    decreases n,
{
    if let NodeView::Dir { name, path, expanded, children } = n {
        if path != p {
            if let Some(kids) = children {
                let (kids2, out) = spec_toggle_seq(kids, p);
                lemma_toggle_seq_twice(kids, p);
                if out != ToggleOutcome::Missing {
                    let n1 = spec_toggle_node(n, p).0;
                    assert(n1 == NodeView::Dir { name, path, expanded, children: Some(kids2) });
                    assert(spec_toggle_node(n1, p).0 == n);
                }
            }
        }
    }
}

/// Law: `toggle` is its own inverse on the tree. Toggling the same path
/// twice restores the forest exactly — a collapse re-expands to the cached
/// children, an expand collapses back, an optimistic expand of an unfetched
/// directory is undone, and a miss changes nothing either time.
pub proof fn lemma_toggle_seq_twice(s: Seq<NodeView>, p: Seq<char>)
    ensures
        spec_toggle_seq(spec_toggle_seq(s, p).0, p).0 == s,
        (spec_toggle_seq(spec_toggle_seq(s, p).0, p).1 == ToggleOutcome::Missing)
            == (spec_toggle_seq(s, p).1 == ToggleOutcome::Missing),
    decreases s,
{
    if s.len() > 0 {
        let (n0, out) = spec_toggle_node(s[0], p);
        lemma_toggle_node_twice(s[0], p);
        if out != ToggleOutcome::Missing {
            let s1 = s.update(0, n0);
            assert(s1[0] == n0);
            assert(spec_toggle_seq(s1, p).0 =~= s);
        } else {
            let (rest, out2) = spec_toggle_seq(s.drop_first(), p);
            lemma_toggle_seq_twice(s.drop_first(), p);
            if out2 != ToggleOutcome::Missing {
                let s1 = seq![s[0]] + rest;
                assert(s1[0] == s[0]);
                assert(s1.drop_first() =~= rest);
                let (rest2, out3) = spec_toggle_seq(rest, p);
                assert(out3 != ToggleOutcome::Missing);
                assert(spec_toggle_seq(s1, p).0 == seq![s1[0]] + rest2);
                assert(seq![s1[0]] + rest2 =~= s);
            }
        }
    }
}

/// Toggling within one subtree, by value; mirrors `spec_toggle_node`.
fn toggle_node_x(node: FileNode, target: &String) -> (r: (FileNode, ToggleOutcome))
    ensures
        node_view(r.0) == spec_toggle_node(node_view(node), target@).0,
        r.1 == spec_toggle_node(node_view(node), target@).1,
    decreases node_size(node_view(node)),
{
    match node {
        FileNode::File { name, path } => (FileNode::File { name, path }, ToggleOutcome::Missing),
        FileNode::Directory { name, path, expanded, children_nodes } => {
            if path == *target {
                if expanded {
                    (FileNode::Directory { name, path, expanded: false, children_nodes }, ToggleOutcome::Handled)
                } else {
                    let out = if children_nodes.is_some() {
                        ToggleOutcome::Handled
                    } else {
                        ToggleOutcome::NeedsFetch
                    };
                    (FileNode::Directory { name, path, expanded: true, children_nodes }, out)
                }
            } else {
                match children_nodes {
                    Some(kids) => {
                        let (kids2, out) = toggle_seq_x(kids, target);
                        (FileNode::Directory { name, path, expanded, children_nodes: Some(kids2) }, out)
                    },
                    None => (FileNode::Directory { name, path, expanded, children_nodes: None }, ToggleOutcome::Missing),
                }
            }
        },
    }
}

/// Toggling over a forest, by value; mirrors `spec_toggle_seq`.
fn toggle_seq_x(nodes: Vec<FileNode>, target: &String) -> (r: (Vec<FileNode>, ToggleOutcome))
    ensures
        nodes_view(r.0@) == spec_toggle_seq(nodes_view(nodes@), target@).0,
        r.1 == spec_toggle_seq(nodes_view(nodes@), target@).1,
    decreases seq_size(nodes_view(nodes@)),
{
    broadcast use lemma_nodes_view_len, lemma_nodes_view_index;

    let ghost s = nodes_view(nodes@);
    let mut nodes = nodes;
    if nodes.len() == 0 {
        return (nodes, ToggleOutcome::Missing);
    }
    let ghost orig = nodes@;
    let first = nodes.remove(0);
    proof {
        assert(orig.remove(0) =~= orig.drop_first());
        lemma_nodes_view_drop_first(orig);
    }
    let (first2, out) = toggle_node_x(first, target);
    if !(out == ToggleOutcome::Missing) {
        nodes.insert(0, first2);
        proof {
            assert(orig.drop_first().insert(0, first2) =~= orig.update(0, first2));
            lemma_nodes_view_update(orig, 0, first2);
        }
        return (nodes, out);
    }
    let (rest, out2) = toggle_seq_x(nodes, target);
    let mut rest = rest;
    let ghost rest0 = rest@;
    rest.insert(0, first2);
    proof {
        let t = rest@;
        assert(t[0] == first2);
        assert(t.drop_first() =~= rest0);
        assert(nodes_view(t) == seq![node_view(first2)] + nodes_view(rest0));
        if out2 == ToggleOutcome::Missing {
            assert(nodes_view(t) =~= s);
        } else {
            assert(nodes_view(t) =~= seq![s[0]] + spec_toggle_seq(s.drop_first(), target@).0);
        }
    }
    (rest, out2)
}

/// Locates the directory node with the given path (depth-first) and flips its
/// expand/collapse state; see `spec_toggle_seq` for the exact effect. Reports
/// whether a fetch of children is now owed, and reports `Missing`, changing
/// nothing, exactly when no directory of the tree has that path.
pub fn toggle_nodes(nodes: &mut Vec<FileNode>, target: &String) -> (out: ToggleOutcome)
    ensures
        nodes_view(final(nodes)@) == spec_toggle_seq(nodes_view(old(nodes)@), target@).0,
        out == spec_toggle_seq(nodes_view(old(nodes)@), target@).1,
        (out == ToggleOutcome::Missing) == !tree_has_dir(nodes_view(old(nodes)@), target@),
{
    proof {
        lemma_toggle_seq_miss(nodes_view(nodes@), target@);
    }
    let mut owned: Vec<FileNode> = Vec::new();
    core::mem::swap(nodes, &mut owned);
    let (res, out) = toggle_seq_x(owned, target);
    *nodes = res;
    out
}

/// The toggle entry point as a plain "handled" flag: `true` means the toggle
/// was completed in place (no fetch needed); `false` means either that the
/// children of the now-expanded directory must be fetched, or that the path
/// was not found and nothing changed.
pub fn toggle_dir_expanded(nodes: &mut Vec<FileNode>, target: &String) -> (r: bool)
    ensures
        nodes_view(final(nodes)@) == spec_toggle_seq(nodes_view(old(nodes)@), target@).0,
        r == (spec_toggle_seq(nodes_view(old(nodes)@), target@).1 == ToggleOutcome::Handled),
{
    let out = toggle_nodes(nodes, target);
    out == ToggleOutcome::Handled
}

/// The model of an optional fetched-children vector.
pub open spec fn opt_children_view(o: Option<Vec<FileNode>>) -> Option<Seq<NodeView>> {
    match o {
        Some(v) => Some(nodes_view(v@)),
        None => None,
    }
}

/// Installing children within one subtree, by value; mirrors
/// `spec_install_node`. The children travel in an `Option` and are taken by
/// the first directory whose path matches.
fn install_node_x(node: FileNode, target: &String, ch: &mut Option<Vec<FileNode>>) -> (r: (FileNode, bool))
    ensures
        node_view(r.0) == spec_install_node(node_view(node), target@, opt_children_view(*old(ch))).0,
        r.1 == spec_install_node(node_view(node), target@, opt_children_view(*old(ch))).1,
        r.1 ==> *final(ch) is None,
        !r.1 ==> *final(ch) == *old(ch),
    decreases node_size(node_view(node)),
{
    match node {
        FileNode::File { name, path } => (FileNode::File { name, path }, false),
        FileNode::Directory { name, path, expanded, children_nodes } => {
            if path == *target {
                let newc = ch.take();
                (FileNode::Directory { name, path, expanded, children_nodes: newc }, true)
            } else {
                match children_nodes {
                    Some(kids) => {
                        let (kids2, found) = install_seq_x(kids, target, ch);
                        (FileNode::Directory { name, path, expanded, children_nodes: Some(kids2) }, found)
                    },
                    None => (FileNode::Directory { name, path, expanded, children_nodes: None }, false),
                }
            }
        },
    }
}

/// Installing children over a forest, by value; mirrors `spec_install_seq`.
fn install_seq_x(nodes: Vec<FileNode>, target: &String, ch: &mut Option<Vec<FileNode>>) -> (r: (Vec<FileNode>, bool))
    ensures
        nodes_view(r.0@) == spec_install_seq(nodes_view(nodes@), target@, opt_children_view(*old(ch))).0,
        r.1 == spec_install_seq(nodes_view(nodes@), target@, opt_children_view(*old(ch))).1,
        r.1 ==> *final(ch) is None,
        !r.1 ==> *final(ch) == *old(ch),
    decreases seq_size(nodes_view(nodes@)),
{
    broadcast use lemma_nodes_view_len, lemma_nodes_view_index;

    let ghost s = nodes_view(nodes@);
    let mut nodes = nodes;
    if nodes.len() == 0 {
        return (nodes, false);
    }
    let ghost orig = nodes@;
    let first = nodes.remove(0);
    proof {
        assert(orig.remove(0) =~= orig.drop_first());
        lemma_nodes_view_drop_first(orig);
    }
    let (first2, found) = install_node_x(first, target, ch);
    if found {
        nodes.insert(0, first2);
        proof {
            assert(orig.drop_first().insert(0, first2) =~= orig.update(0, first2));
            lemma_nodes_view_update(orig, 0, first2);
        }
        return (nodes, true);
    }
    let (rest, found2) = install_seq_x(nodes, target, ch);
    let mut rest = rest;
    let ghost rest0 = rest@;
    rest.insert(0, first2);
    proof {
        let t = rest@;
        assert(t[0] == first2);
        assert(t.drop_first() =~= rest0);
        assert(nodes_view(t) == seq![node_view(first2)] + nodes_view(rest0));
        if found2 {
            assert(nodes_view(t) =~= seq![s[0]] + spec_install_seq(s.drop_first(), target@, opt_children_view(*old(ch))).0);
        } else {
            assert(nodes_view(t) =~= s);
        }
    }
    (rest, found2)
}

/// Locates the directory node with the given path (depth-first) and
/// overwrites its cached children with the supplied optional vector, taken
/// out of `children`; see `spec_install_seq` for the exact effect. Reports
/// `false`, changing nothing, exactly when no directory of the tree has that
/// path — a stale result for a since-replaced tree is dropped silently.
pub fn set_dir_children_inner(nodes: &mut Vec<FileNode>, target: &String, children: &mut Option<Vec<FileNode>>) -> (found: bool)
    ensures
        nodes_view(final(nodes)@) == spec_install_seq(nodes_view(old(nodes)@), target@, opt_children_view(*old(children))).0,
        found == spec_install_seq(nodes_view(old(nodes)@), target@, opt_children_view(*old(children))).1,
        found == tree_has_dir(nodes_view(old(nodes)@), target@),
        found ==> *final(children) is None,
        !found ==> *final(children) == *old(children),
{
    proof {
        lemma_install_seq_miss(nodes_view(nodes@), target@, opt_children_view(*children));
    }
    let mut owned: Vec<FileNode> = Vec::new();
    core::mem::swap(nodes, &mut owned);
    let (res, found) = install_seq_x(owned, target, children);
    *nodes = res;
    found
}

/// Locates the directory node with the given path and caches the supplied
/// children there, whatever its `expanded` state. Reports `false`, changing
/// nothing, exactly when no directory of the tree has that path.
pub fn set_dir_children(nodes: &mut Vec<FileNode>, target: &String, children: Vec<FileNode>) -> (found: bool)
    ensures
        nodes_view(final(nodes)@) == spec_install_seq(nodes_view(old(nodes)@), target@, Some(nodes_view(children@))).0,
        found == spec_install_seq(nodes_view(old(nodes)@), target@, Some(nodes_view(children@))).1,
        found == tree_has_dir(nodes_view(old(nodes)@), target@),
{
    let mut ch = Some(children);
    set_dir_children_inner(nodes, target, &mut ch)
}

/// Discards the whole tree and installs a new set of root nodes, as when a
/// new file or directory is opened.
pub fn replace_root(nodes: &mut Vec<FileNode>, new_nodes: Vec<FileNode>)
    ensures
        final(nodes)@ == new_nodes@,
{
    *nodes = new_nodes;
}

/// Clones an optional path.
pub fn clone_opt_string(o: &Option<String>) -> (r: Option<String>)
    ensures
        r == *o,
{
    match o {
        Some(p) => Some(p.clone()),
        None => None,
    }
}

/// One entry of a directory listing, as the filesystem gateway reports it:
/// the entry's bare name, its full path, and whether it is a directory.
#[derive(Debug, Clone)]
pub struct ListingEntry {
    pub name: String,
    pub path: String,
    pub is_dir: bool,
}

/// The node a listing entry becomes: directories start collapsed with their
/// children not yet fetched; files carry their path.
pub open spec fn entry_node(e: ListingEntry) -> NodeView {
    if e.is_dir {
        NodeView::Dir { name: e.name@, path: e.path@, expanded: false, children: None }
    } else {
        NodeView::File { name: e.name@, path: Some(e.path@) }
    }
}

/// A node that has never been toggled: if it is a directory, it is collapsed
/// and its children have not been fetched.
pub open spec fn fresh_node(n: NodeView) -> bool {
    n matches NodeView::Dir { expanded, children, .. } ==> (!expanded && children is None)
}

/// A forest in its initial state: every root node is fresh.
pub open spec fn all_fresh(s: Seq<NodeView>) -> bool {
    forall|i: int| 0 <= i < s.len() ==> fresh_node(s[i])
}

/// Builds tree nodes from a directory listing, in the listing's order.
/// Every directory node starts collapsed with no cached children — the
/// initial invariant of a freshly fetched tree.
pub fn nodes_from_entries(entries: &Vec<ListingEntry>) -> (r: Vec<FileNode>)
    ensures
        r@.len() == entries@.len(),
        forall|i: int| 0 <= i < entries@.len() ==> node_view(r@[i]) == entry_node(entries@[i]),
        all_fresh(nodes_view(r@)),
{
    broadcast use lemma_nodes_view_len, lemma_nodes_view_index;

    let mut r: Vec<FileNode> = Vec::new();
    let mut i: usize = 0;
    while i < entries.len()
        invariant
            i <= entries.len(),
            r@.len() == i,
            forall|j: int| 0 <= j < i ==> node_view(r@[j]) == entry_node(entries@[j]),
        decreases entries.len() - i,
    {
        let e = &entries[i];
        if e.is_dir {
            r.push(FileNode::Directory {
                name: e.name.clone(),
                path: e.path.clone(),
                expanded: false,
                children_nodes: None,
            });
        } else {
            r.push(FileNode::File { name: e.name.clone(), path: Some(e.path.clone()) });
        }
        i += 1;
    }
    r
}

} // verus!
