//! Flattening the file tree into the rows the presentation layer draws:
//! depth-first tree order, each directory's children indented one level
//! deeper than their parent, and the children of a non-expanded directory
//! never emitted.

use vstd::prelude::*;
use crate::tree::FileNode;
use crate::tree::NodeView;
use crate::tree::node_view;
use crate::tree::nodes_view;
use crate::tree::node_size;
use crate::tree::seq_size;
use crate::tree::lemma_nodes_view_len;
use crate::tree::lemma_nodes_view_index;
use crate::tree::lemma_seq_size_index;
use crate::tree::clone_opt_string;

verus! {

/// One row of the rendered tree: what is shown, how deep it is indented,
/// and what a click on it should target.
#[allow(inconsistent_fields)]
#[derive(Debug)]
pub enum TreeRow {
    FileRow { name: String, path: Option<String>, depth: usize },
    DirRow { name: String, path: String, expanded: bool, depth: usize },
}

/// The mathematical model of a row.
#[allow(inconsistent_fields)]
#[verifier::ext_equal]
pub enum RowView {
    FileRow { name: Seq<char>, path: Option<Seq<char>>, depth: usize },
    DirRow { name: Seq<char>, path: Seq<char>, expanded: bool, depth: usize },
}

/// The model of a row.
pub open spec fn row_view(r: TreeRow) -> RowView {
    match r {
        TreeRow::FileRow { name, path, depth } => RowView::FileRow {
            name: name@,
            path: match path {
                Some(p) => Some(p@),
                None => None,
            },
            depth,
        },
        TreeRow::DirRow { name, path, expanded, depth } => RowView::DirRow {
            name: name@,
            path: path@,
            expanded,
            depth,
        },
    }
}

/// The model of a sequence of rows, elementwise.
pub open spec fn rows_view(s: Seq<TreeRow>) -> Seq<RowView>
    decreases s,
{
    if s.len() == 0 {
        Seq::empty()
    } else {
        seq![row_view(s[0])] + rows_view(s.drop_first())
    }
}

/// The indent of a child row, one deeper than its parent. Saturates at the
/// largest machine depth, which no realizable tree reaches.
pub open spec fn next_depth(d: usize) -> usize {
    if d == usize::MAX {
        d
    } else {
        (d + 1) as usize
    }
}

/// The rows one subtree contributes: the node's own row, then — only for an
/// expanded directory with fetched children — its children's rows, one
/// level deeper.
pub open spec fn spec_node_rows(n: NodeView, depth: usize) -> Seq<RowView>
    decreases n,
{
    match n {
        NodeView::File { name, path } => seq![RowView::FileRow { name, path, depth }],
        NodeView::Dir { name, path, expanded, children } => {
            let head = seq![RowView::DirRow { name, path, expanded, depth }];
            match children {
                Some(kids) => if expanded {
                    head + spec_rows(kids, next_depth(depth))
                } else {
                    head
                },
                None => head,
            }
        },
    }
}

/// The rows a forest contributes, tree by tree in order.
pub open spec fn spec_rows(s: Seq<NodeView>, depth: usize) -> Seq<RowView>
    decreases s,
{
    if s.len() == 0 {
        Seq::empty()
    } else {
        spec_node_rows(s[0], depth) + spec_rows(s.drop_first(), depth)
    }
}

/// The model of rows distributes over concatenation.
proof fn lemma_rows_view_app(a: Seq<TreeRow>, b: Seq<TreeRow>)
    ensures
        rows_view(a + b) == rows_view(a) + rows_view(b),
    decreases a,
{
    if a.len() == 0 {
        assert(a + b =~= b);
        assert(rows_view(a) + rows_view(b) =~= rows_view(b));
    } else {
        assert((a + b)[0] == a[0]);
        assert((a + b).drop_first() =~= a.drop_first() + b);
        lemma_rows_view_app(a.drop_first(), b);
        assert(rows_view(a + b) =~= rows_view(a) + rows_view(b));
    }
}

/// The rows of a forest extended by one tree are the rows of the forest
/// followed by the rows of that tree.
proof fn lemma_spec_rows_snoc(s: Seq<NodeView>, depth: usize, i: int)
    requires
        0 <= i < s.len(),
    ensures
        spec_rows(s.subrange(0, i + 1), depth)
            == spec_rows(s.subrange(0, i), depth) + spec_node_rows(s[i], depth),
    decreases i,
{
    if i == 0 {
        let one = s.subrange(0, 1);
        assert(one[0] == s[0]);
        assert(one.drop_first() =~= Seq::<NodeView>::empty());
        assert(s.subrange(0, 0) =~= Seq::<NodeView>::empty());
        assert(spec_rows(one, depth) =~= spec_rows(s.subrange(0, 0), depth) + spec_node_rows(s[0], depth));
    } else {
        let t = s.drop_first();
        assert(s.subrange(0, i + 1)[0] == s[0]);
        assert(s.subrange(0, i + 1).drop_first() =~= t.subrange(0, i));
        assert(s.subrange(0, i)[0] == s[0]);
        assert(s.subrange(0, i).drop_first() =~= t.subrange(0, i - 1));
        lemma_spec_rows_snoc(t, depth, i - 1);
        assert(t[i - 1] == s[i]);
        assert(spec_rows(s.subrange(0, i + 1), depth)
            =~= spec_rows(s.subrange(0, i), depth) + spec_node_rows(s[i], depth));
    }
}

/// The model of a single row.
proof fn lemma_rows_view_one(r: TreeRow)
    ensures
        rows_view(seq![r]) == seq![row_view(r)],
{
    let one = seq![r];
    assert(one[0] == r);
    assert(one.drop_first() =~= Seq::<TreeRow>::empty());
    assert(rows_view(Seq::<TreeRow>::empty()) =~= Seq::<RowView>::empty());
    assert(rows_view(one) =~= seq![row_view(r)]);
}

/// The rows of one forest at a given indent; mirrors `spec_rows`.
fn rows_of(nodes: &Vec<FileNode>, depth: usize) -> (r: Vec<TreeRow>)
    ensures
        rows_view(r@) == spec_rows(nodes_view(nodes@), depth),
    decreases seq_size(nodes_view(nodes@)),
{
    broadcast use lemma_nodes_view_len, lemma_nodes_view_index;

    let ghost s = nodes_view(nodes@);
    let mut out: Vec<TreeRow> = Vec::new();
    let mut i: usize = 0;
    while i < nodes.len()
        invariant
            i <= nodes.len(),
            s == nodes_view(nodes@),
            s.len() == nodes@.len(),
            rows_view(out@) == spec_rows(s.subrange(0, i as int), depth),
        decreases nodes.len() - i,
    {
        let ghost out0 = out@;
        proof {
            lemma_spec_rows_snoc(s, depth, i as int);
            lemma_nodes_view_index(nodes@, i as int);
            assert(s[i as int] == node_view(nodes@[i as int]));
        }
        match &nodes[i] {
            FileNode::File { name, path } => {
                let row = TreeRow::FileRow { name: name.clone(), path: clone_opt_string(path), depth };
                out.push(row);
                proof {
                    assert(out@ =~= out0 + seq![row]);
                    lemma_rows_view_app(out0, seq![row]);
                    lemma_rows_view_one(row);
                    assert(seq![row_view(row)] =~= spec_node_rows(s[i as int], depth));
                }
            },
            FileNode::Directory { name, path, expanded, children_nodes } => {
                let row = TreeRow::DirRow {
                    name: name.clone(),
                    path: path.clone(),
                    expanded: *expanded,
                    depth,
                };
                out.push(row);
                let ghost out1 = out@;
                proof {
                    assert(out1 =~= out0 + seq![row]);
                    lemma_rows_view_app(out0, seq![row]);
                    lemma_rows_view_one(row);
                }
                let mut fetched = false;
                if *expanded {
                    if let Some(kids) = children_nodes {
                        proof {
                            lemma_seq_size_index(s, i as int);
                        }
                        let d2 = if depth == usize::MAX {
                            depth
                        } else {
                            depth + 1
                        };
                        let mut sub = rows_of(kids, d2);
                        let ghost subv = sub@;
                        out.append(&mut sub);
                        fetched = true;
                        proof {
                            assert(out@ =~= out1 + subv);
                            lemma_rows_view_app(out1, subv);
                            assert(rows_view(out@) =~= rows_view(out0) + spec_node_rows(s[i as int], depth));
                        }
                    }
                }
                proof {
                    if !fetched {
                        assert(seq![row_view(row)] =~= spec_node_rows(s[i as int], depth));
                    }
                }
            },
        }
        i += 1;
    }
    proof {
        assert(s.subrange(0, s.len() as int) =~= s);
    }
    out
}

/// Flattens the tree into its visible rows, in rendering order: depth-first
/// over the forest, children of an expanded directory one level deeper, and
/// nothing emitted below a collapsed directory.
pub fn tree_rows(nodes: &Vec<FileNode>) -> (r: Vec<TreeRow>)
    ensures
        rows_view(r@) == spec_rows(nodes_view(nodes@), 0),
{
    rows_of(nodes, 0)
}

} // verus!
