use xeditor::tree::FileNode;
use xeditor::tree::ListingEntry;
use xeditor::tree::ToggleOutcome;
use xeditor::tree::nodes_from_entries;
use xeditor::tree::replace_root;
use xeditor::tree::set_dir_children;
use xeditor::tree::set_dir_children_inner;
use xeditor::tree::toggle_dir_expanded;
use xeditor::tree::toggle_nodes;
use xeditor::rows::TreeRow;
use xeditor::rows::tree_rows;

fn file(name: &str, path: &str) -> FileNode {
    FileNode::File { name: name.to_string(), path: Some(path.to_string()) }
}

fn dir(name: &str, path: &str) -> FileNode {
    FileNode::Directory {
        name: name.to_string(),
        path: path.to_string(),
        expanded: false,
        children_nodes: None,
    }
}

fn node_eq(a: &FileNode, b: &FileNode) -> bool {
    match (a, b) {
        (
            FileNode::File { name: n1, path: p1 },
            FileNode::File { name: n2, path: p2 },
        ) => n1 == n2 && p1 == p2,
        (
            FileNode::Directory { name: n1, path: p1, expanded: e1, children_nodes: c1 },
            FileNode::Directory { name: n2, path: p2, expanded: e2, children_nodes: c2 },
        ) => {
            n1 == n2 && p1 == p2 && e1 == e2 && match (c1, c2) {
                (None, None) => true,
                (Some(v1), Some(v2)) => trees_eq(v1, v2),
                _ => false,
            }
        },
        _ => false,
    }
}

fn trees_eq(a: &[FileNode], b: &[FileNode]) -> bool {
    a.len() == b.len() && a.iter().zip(b.iter()).all(|(x, y)| node_eq(x, y))
}

fn sample_tree() -> Vec<FileNode> {
    vec![
        file("a.txt", "/proj/a.txt"),
        FileNode::Directory {
            name: "sub".to_string(),
            path: "/proj/sub".to_string(),
            expanded: false,
            children_nodes: Some(vec![file("b.txt", "/proj/sub/b.txt"), dir("deep", "/proj/sub/deep")]),
        },
    ]
}

#[test]
fn listing_entries_become_fresh_nodes() {
    let entries = vec![
        ListingEntry { name: "a.txt".to_string(), path: "/proj/a.txt".to_string(), is_dir: false },
        ListingEntry { name: "sub".to_string(), path: "/proj/sub".to_string(), is_dir: true },
    ];
    let nodes = nodes_from_entries(&entries);
    assert_eq!(nodes.len(), 2);
    match &nodes[0] {
        FileNode::File { name, path } => {
            assert_eq!(name, "a.txt");
            assert_eq!(path.as_deref(), Some("/proj/a.txt"));
        },
        _ => panic!("expected a file node"),
    }
    match &nodes[1] {
        FileNode::Directory { name, path, expanded, children_nodes } => {
            assert_eq!(name, "sub");
            assert_eq!(path, "/proj/sub");
            assert!(!expanded, "a never-toggled directory starts collapsed");
            assert!(children_nodes.is_none(), "a never-toggled directory has no cached children");
        },
        _ => panic!("expected a directory node"),
    }
}

#[test]
fn toggle_expands_unfetched_directory_and_asks_for_children() {
    let mut tree = vec![dir("sub", "/proj/sub")];
    let target = "/proj/sub".to_string();
    let out = toggle_nodes(&mut tree, &target);
    assert_eq!(out, ToggleOutcome::NeedsFetch);
    match &tree[0] {
        FileNode::Directory { expanded, children_nodes, .. } => {
            assert!(*expanded, "optimistically expanded while the fetch is in flight");
            assert!(children_nodes.is_none());
        },
        _ => panic!("expected a directory node"),
    }
}

#[test]
fn toggle_collapses_and_keeps_cached_children() {
    let mut tree = sample_tree();
    let target = "/proj/sub".to_string();
    // Expand: children are already cached, so the toggle is handled in place.
    assert_eq!(toggle_nodes(&mut tree, &target), ToggleOutcome::Handled);
    // Collapse again: still handled, cache retained.
    assert_eq!(toggle_nodes(&mut tree, &target), ToggleOutcome::Handled);
    match &tree[1] {
        FileNode::Directory { expanded, children_nodes, .. } => {
            assert!(!expanded);
            let kids = children_nodes.as_ref().expect("children stay cached after a collapse");
            assert_eq!(kids.len(), 2);
        },
        _ => panic!("expected a directory node"),
    }
}

#[test]
fn toggle_twice_restores_the_tree() {
    let before = sample_tree();
    let mut tree = sample_tree();
    let target = "/proj/sub".to_string();
    toggle_nodes(&mut tree, &target);
    toggle_nodes(&mut tree, &target);
    assert!(trees_eq(&before, &tree), "toggle is its own inverse");
}

#[test]
fn toggle_twice_restores_even_when_children_are_unfetched() {
    let before = vec![dir("sub", "/proj/sub")];
    let mut tree = vec![dir("sub", "/proj/sub")];
    let target = "/proj/sub".to_string();
    assert_eq!(toggle_nodes(&mut tree, &target), ToggleOutcome::NeedsFetch);
    assert_eq!(toggle_nodes(&mut tree, &target), ToggleOutcome::Handled);
    assert!(trees_eq(&before, &tree));
}

#[test]
fn toggle_reaches_nested_directories() {
    let mut tree = sample_tree();
    // First expand /proj/sub is not needed for lookup: toggle searches the
    // loaded children whatever the expanded state.
    let target = "/proj/sub/deep".to_string();
    let out = toggle_nodes(&mut tree, &target);
    assert_eq!(out, ToggleOutcome::NeedsFetch);
    match &tree[1] {
        FileNode::Directory { children_nodes, .. } => {
            match &children_nodes.as_ref().unwrap()[1] {
                FileNode::Directory { expanded, .. } => assert!(*expanded),
                _ => panic!("expected the nested directory"),
            }
        },
        _ => panic!("expected a directory node"),
    }
}

#[test]
fn toggle_miss_changes_nothing() {
    let before = sample_tree();
    let mut tree = sample_tree();
    let target = "/gone/away".to_string();
    let out = toggle_nodes(&mut tree, &target);
    assert_eq!(out, ToggleOutcome::Missing);
    assert!(trees_eq(&before, &tree));
}

#[test]
fn toggle_dir_expanded_reports_handled_only() {
    let mut tree = sample_tree();
    // Cached children: handled.
    assert!(toggle_dir_expanded(&mut tree, &"/proj/sub".to_string()));
    let mut tree2 = vec![dir("sub", "/proj/sub")];
    // Unfetched children: the caller must fetch.
    assert!(!toggle_dir_expanded(&mut tree2, &"/proj/sub".to_string()));
    // A miss is not "handled" either.
    assert!(!toggle_dir_expanded(&mut tree, &"/gone".to_string()));
}

#[test]
fn install_children_fills_the_target_directory() {
    let mut tree = vec![dir("sub", "/proj/sub")];
    let target = "/proj/sub".to_string();
    let found = set_dir_children(&mut tree, &target, vec![file("b.txt", "/proj/sub/b.txt")]);
    assert!(found);
    match &tree[0] {
        FileNode::Directory { expanded, children_nodes, .. } => {
            assert!(!expanded, "installing children does not change the expanded flag");
            let kids = children_nodes.as_ref().unwrap();
            assert_eq!(kids.len(), 1);
            assert!(node_eq(&kids[0], &file("b.txt", "/proj/sub/b.txt")));
        },
        _ => panic!("expected a directory node"),
    }
}

#[test]
fn install_children_overwrites_a_previous_cache() {
    let mut tree = sample_tree();
    let target = "/proj/sub".to_string();
    let found = set_dir_children(&mut tree, &target, vec![file("c.txt", "/proj/sub/c.txt")]);
    assert!(found);
    match &tree[1] {
        FileNode::Directory { children_nodes, .. } => {
            let kids = children_nodes.as_ref().unwrap();
            assert_eq!(kids.len(), 1, "the later-arriving result wins");
        },
        _ => panic!("expected a directory node"),
    }
}

#[test]
fn install_children_on_missing_path_is_identity() {
    let before = sample_tree();
    let mut tree = sample_tree();
    let target = "/stale/path".to_string();
    let found = set_dir_children(&mut tree, &target, vec![file("x", "/stale/path/x")]);
    assert!(!found);
    assert!(trees_eq(&before, &tree));
}

#[test]
fn install_inner_takes_the_children_on_a_hit() {
    let mut tree = vec![dir("sub", "/proj/sub")];
    let target = "/proj/sub".to_string();
    let mut ch = Some(vec![file("b.txt", "/proj/sub/b.txt")]);
    let found = set_dir_children_inner(&mut tree, &target, &mut ch);
    assert!(found);
    assert!(ch.is_none(), "the children were moved into the tree");

    let mut miss = Some(vec![file("x", "/y/x")]);
    let found2 = set_dir_children_inner(&mut tree, &"/gone".to_string(), &mut miss);
    assert!(!found2);
    assert!(miss.is_some(), "a miss leaves the children with the caller");
}

#[test]
fn replace_root_discards_the_old_tree() {
    let mut tree = sample_tree();
    replace_root(&mut tree, vec![file("only", "/other/only")]);
    assert_eq!(tree.len(), 1);
    assert!(node_eq(&tree[0], &file("only", "/other/only")));
}

#[test]
fn rows_follow_tree_order_and_depth() {
    let mut tree = sample_tree();
    // Collapsed: only the two roots are visible.
    let rows = tree_rows(&tree);
    assert_eq!(rows.len(), 2);
    match &rows[0] {
        TreeRow::FileRow { name, path, depth } => {
            assert_eq!(name, "a.txt");
            assert_eq!(path.as_deref(), Some("/proj/a.txt"));
            assert_eq!(*depth, 0);
        },
        _ => panic!("expected a file row"),
    }
    match &rows[1] {
        TreeRow::DirRow { name, expanded, depth, .. } => {
            assert_eq!(name, "sub");
            assert!(!expanded);
            assert_eq!(*depth, 0);
        },
        _ => panic!("expected a directory row"),
    }

    // Expanded: the children follow their parent, one level deeper.
    toggle_nodes(&mut tree, &"/proj/sub".to_string());
    let rows = tree_rows(&tree);
    assert_eq!(rows.len(), 4);
    match &rows[2] {
        TreeRow::FileRow { name, depth, .. } => {
            assert_eq!(name, "b.txt");
            assert_eq!(*depth, 1);
        },
        _ => panic!("expected a file row"),
    }
    match &rows[3] {
        TreeRow::DirRow { name, depth, .. } => {
            assert_eq!(name, "deep");
            assert_eq!(*depth, 1);
        },
        _ => panic!("expected a directory row"),
    }
}

#[test]
fn rows_hide_children_of_collapsed_directories() {
    // An expanded flag below a collapsed parent stays invisible.
    let tree = vec![FileNode::Directory {
        name: "sub".to_string(),
        path: "/p/sub".to_string(),
        expanded: false,
        children_nodes: Some(vec![FileNode::Directory {
            name: "deep".to_string(),
            path: "/p/sub/deep".to_string(),
            expanded: true,
            children_nodes: Some(vec![file("x", "/p/sub/deep/x")]),
        }]),
    }];
    let rows = tree_rows(&tree);
    assert_eq!(rows.len(), 1);
}

#[test]
fn rows_of_expanded_but_unfetched_directory_show_only_the_directory() {
    let mut tree = vec![dir("sub", "/p/sub")];
    toggle_nodes(&mut tree, &"/p/sub".to_string());
    let rows = tree_rows(&tree);
    assert_eq!(rows.len(), 1);
    match &rows[0] {
        TreeRow::DirRow { expanded, .. } => assert!(*expanded),
        _ => panic!("expected a directory row"),
    }
}
