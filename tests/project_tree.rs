use repo_scan::project_tree::{
    count_nodes, insert_posix_path, render_children, scan_project_tree_blocking, Node, NodeKind,
    TreeEntry,
};

#[test]
fn renders_tree_with_full_relative_paths() {
    let mut root = Node::dir();
    insert_posix_path(&mut root, "src/main.tsx", NodeKind::File);
    insert_posix_path(&mut root, "src/components/ToolLayout.tsx", NodeKind::File);
    insert_posix_path(&mut root, "README.md", NodeKind::File);
    insert_posix_path(&mut root, "empty-dir", NodeKind::Dir);

    let mut lines = Vec::new();
    lines.push("[D] .".to_string());
    render_children(&root, "", &mut Vec::new(), &mut lines);
    let rendered = lines.join("\n");

    let expected = [
        "[D] .",
        "├── [D] empty-dir/",
        "├── [D] src/",
        "│   ├── [D] src/components/",
        "│   │   └── [F] src/components/ToolLayout.tsx",
        "│   └── [F] src/main.tsx",
        "└── [F] README.md",
    ]
    .join("\n");

    assert_eq!(rendered, expected);
}

#[test]
fn file_on_the_way_becomes_directory() {
    let mut root = Node::dir();
    insert_posix_path(&mut root, "a", NodeKind::File);
    insert_posix_path(&mut root, "a/b.txt", NodeKind::File);
    assert_eq!(count_nodes(&root), (1, 1));
    let mut lines = Vec::new();
    render_children(&root, "", &mut Vec::new(), &mut lines);
    assert_eq!(lines, vec!["└── [D] a/".to_string(), "    └── [F] a/b.txt".to_string()]);
}

#[test]
fn empty_pieces_are_skipped_and_counts_match() {
    let entries = vec![
        TreeEntry { path: "/x//y.rs".to_string(), kind: NodeKind::File },
        TreeEntry { path: "x/z".to_string(), kind: NodeKind::Dir },
        TreeEntry { path: "".to_string(), kind: NodeKind::File },
    ];
    let r = scan_project_tree_blocking(&entries, false);
    assert!(!r.used_git);
    assert_eq!(r.dir_count, 2);
    assert_eq!(r.file_count, 1);
    assert_eq!(
        r.tree,
        "[D] .\n└── [D] x/\n    ├── [D] x/z/\n    └── [F] x/y.rs"
    );
}
