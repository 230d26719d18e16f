use blend_scan::model::{BlendInfo, FileMeta, TreeNode};
use blend_scan::names::{name_rank, Rank};
use blend_scan::tree::{build_tree_nodes, insert_file, DirNode, FileEntry};
use std::path::Path;

fn meta(folder: &str, size: u64) -> FileMeta {
    FileMeta {
        size_bytes: size,
        created: Some("2024-01-02T03:04:05+00:00".to_string()),
        modified: None,
        folder: folder.to_string(),
        blender: BlendInfo::failed("Not a blend file".to_string()),
    }
}

fn parts(names: &[&str]) -> Vec<String> {
    names.iter().map(|s| s.to_string()).collect()
}

fn names(nodes: &[TreeNode]) -> Vec<String> {
    nodes.iter().map(|n| n.name.clone()).collect()
}

fn joined(base: &str, name: &str) -> String {
    Path::new(base).join(name).to_string_lossy().into_owned()
}

#[test]
fn names_are_ranked_by_their_bytes() {
    assert_eq!(name_rank("a", "b"), Rank::Before);
    assert_eq!(name_rank("b", "a"), Rank::After);
    assert_eq!(name_rank("abc", "abc"), Rank::Same);
    assert_eq!(name_rank("", ""), Rank::Same);
    assert_eq!(name_rank("", "a"), Rank::Before);
    assert_eq!(name_rank("a", ""), Rank::After);
    assert_eq!(name_rank("ab", "abc"), Rank::Before);
    assert_eq!(name_rank("abc", "ab"), Rank::After);
    // upper case before lower case, digits before letters
    assert_eq!(name_rank("Zebra", "apple"), Rank::Before);
    assert_eq!(name_rank("10", "9"), Rank::Before);
    assert_eq!(name_rank("a1", "a_"), Rank::Before);
    // as strings compare
    for (a, b) in [("\u{e9}", "z"), ("z", "\u{e9}"), ("\u{4e16}", "\u{e9}"), ("a\u{301}", "\u{e1}")] {
        let expected = if a < b {
            Rank::Before
        } else if a == b {
            Rank::Same
        } else {
            Rank::After
        };
        assert_eq!(name_rank(a, b), expected);
    }
}

#[test]
fn an_empty_builder_gives_a_directory_without_children() {
    let root = DirNode::new();
    assert!(root.dirs.is_empty());
    assert!(root.files.is_empty());
    let tree = build_tree_nodes(&root, "scans", "/home/me/scans");
    assert_eq!(tree.node_type, "dir");
    assert_eq!(tree.name, "scans");
    assert_eq!(tree.path, "/home/me/scans");
    assert_eq!(tree.meta, None);
    assert_eq!(tree.children, Some(Vec::new()));
}

#[test]
fn a_file_at_the_root() {
    let mut root = DirNode::new();
    insert_file(&mut root, &[], "a.blend", "/r/a.blend", meta("/r", 10));
    assert_eq!(root.dirs.len(), 0);
    assert_eq!(
        root.files,
        vec![FileEntry {
            name: "a.blend".to_string(),
            path: "/r/a.blend".to_string(),
            meta: meta("/r", 10)
        }]
    );
    let tree = build_tree_nodes(&root, "r", "/r");
    let children = tree.children.unwrap();
    assert_eq!(children.len(), 1);
    assert_eq!(children[0].node_type, "file");
    assert_eq!(children[0].name, "a.blend");
    assert_eq!(children[0].path, "/r/a.blend");
    assert_eq!(children[0].meta, Some(meta("/r", 10)));
    assert_eq!(children[0].children, None);
}

#[test]
fn directories_are_made_on_the_way() {
    let mut root = DirNode::new();
    insert_file(&mut root, &parts(&["a", "b", "c"]), "f.blend", "/r/a/b/c/f.blend", meta("/r/a/b/c", 1));
    assert_eq!(root.files.len(), 0);
    assert_eq!(root.dirs.len(), 1);
    assert_eq!(root.dirs[0].name, "a");
    assert_eq!(root.dirs[0].node.dirs[0].name, "b");
    assert_eq!(root.dirs[0].node.dirs[0].node.dirs[0].name, "c");
    assert_eq!(root.dirs[0].node.dirs[0].node.dirs[0].node.files[0].name, "f.blend");
    let tree = build_tree_nodes(&root, "r", "/r");
    let a = &tree.children.as_ref().unwrap()[0];
    assert_eq!((a.node_type.as_str(), a.name.as_str()), ("dir", "a"));
    assert_eq!(a.path, joined("/r", "a"));
    assert_eq!(a.meta, None);
    let b = &a.children.as_ref().unwrap()[0];
    assert_eq!(b.name, "b");
    assert_eq!(b.path, joined(&joined("/r", "a"), "b"));
    let c = &b.children.as_ref().unwrap()[0];
    assert_eq!(c.name, "c");
    assert_eq!(c.path, joined(&joined(&joined("/r", "a"), "b"), "c"));
    let f = &c.children.as_ref().unwrap()[0];
    assert_eq!((f.node_type.as_str(), f.name.as_str()), ("file", "f.blend"));
    assert_eq!(f.path, "/r/a/b/c/f.blend");
}

#[test]
fn directories_come_first_and_by_name_files_in_the_order_of_insertion() {
    let mut root = DirNode::new();
    insert_file(&mut root, &[], "z.blend", "/r/z.blend", meta("/r", 1));
    insert_file(&mut root, &parts(&["models"]), "m.blend", "/r/models/m.blend", meta("/r/models", 2));
    insert_file(&mut root, &[], "a.blend", "/r/a.blend", meta("/r", 3));
    insert_file(&mut root, &parts(&["Archive"]), "o.blend", "/r/Archive/o.blend", meta("/r/Archive", 4));
    insert_file(&mut root, &parts(&["anim"]), "w.blend", "/r/anim/w.blend", meta("/r/anim", 5));
    insert_file(&mut root, &[], "m.blend", "/r/m.blend", meta("/r", 6));
    insert_file(&mut root, &parts(&["models"]), "b.blend", "/r/models/b.blend", meta("/r/models", 7));
    insert_file(&mut root, &parts(&["an"]), "x.blend", "/r/an/x.blend", meta("/r/an", 8));
    let tree = build_tree_nodes(&root, "r", "/r");
    let children = tree.children.unwrap();
    assert_eq!(
        names(&children),
        vec!["Archive", "an", "anim", "models", "z.blend", "a.blend", "m.blend"]
    );
    let kinds: Vec<&str> = children.iter().map(|n| n.node_type.as_str()).collect();
    assert_eq!(kinds, vec!["dir", "dir", "dir", "dir", "file", "file", "file"]);
    let models = &children[3];
    assert_eq!(names(models.children.as_ref().unwrap()), vec!["m.blend", "b.blend"]);
    assert_eq!(models.children.as_ref().unwrap()[1].meta, Some(meta("/r/models", 7)));
    assert_eq!(children[5].meta, Some(meta("/r", 3)));
}

#[test]
fn a_directory_is_found_again() {
    let mut root = DirNode::new();
    for (i, dir) in ["b", "a", "c", "a", "b", "a"].iter().enumerate() {
        let name = format!("{}.blend", i);
        let path = format!("/r/{}/{}", dir, name);
        insert_file(&mut root, &parts(&[dir]), &name, &path, meta(dir, i as u64));
    }
    let dirs: Vec<&str> = root.dirs.iter().map(|d| d.name.as_str()).collect();
    assert_eq!(dirs, vec!["a", "b", "c"]);
    let in_a: Vec<&str> = root.dirs[0].node.files.iter().map(|f| f.name.as_str()).collect();
    assert_eq!(in_a, vec!["1.blend", "3.blend", "5.blend"]);
    let in_b: Vec<&str> = root.dirs[1].node.files.iter().map(|f| f.name.as_str()).collect();
    assert_eq!(in_b, vec!["0.blend", "4.blend"]);
}

#[test]
fn directories_below_directories_are_sorted_too() {
    let mut root = DirNode::new();
    insert_file(&mut root, &parts(&["x", "q"]), "1.blend", "/one", meta("f", 1));
    insert_file(&mut root, &parts(&["x", "b"]), "2.blend", "/two", meta("f", 2));
    insert_file(&mut root, &parts(&["x"]), "3.blend", "/three", meta("f", 3));
    insert_file(&mut root, &parts(&["x", "k", "z"]), "4.blend", "/four", meta("f", 4));
    insert_file(&mut root, &parts(&["x", "k", "a"]), "5.blend", "/five", meta("f", 5));
    let tree = build_tree_nodes(&root, "root", "root");
    let x = &tree.children.as_ref().unwrap()[0];
    assert_eq!(names(x.children.as_ref().unwrap()), vec!["b", "k", "q", "3.blend"]);
    let k = &x.children.as_ref().unwrap()[1];
    assert_eq!(names(k.children.as_ref().unwrap()), vec!["a", "z"]);
    assert_eq!(k.path, joined(&joined("root", "x"), "k"));
}

#[test]
fn files_of_one_name_are_all_kept() {
    let mut root = DirNode::new();
    insert_file(&mut root, &[], "same.blend", "first", meta("f", 1));
    insert_file(&mut root, &[], "same.blend", "second", meta("f", 2));
    let tree = build_tree_nodes(&root, "r", "r");
    let children = tree.children.unwrap();
    assert_eq!(children.len(), 2);
    assert_eq!(children[0].path, "first");
    assert_eq!(children[1].path, "second");
}

#[test]
fn nodes_of_the_tree() {
    let entry = FileEntry { name: "n".to_string(), path: "p".to_string(), meta: meta("f", 9) };
    let file = TreeNode::file(&entry);
    assert_eq!(
        file,
        TreeNode {
            node_type: "file".to_string(),
            name: "n".to_string(),
            path: "p".to_string(),
            meta: Some(meta("f", 9)),
            children: None,
        }
    );
    let dir = TreeNode::dir("d", "/d", vec![file.clone()]);
    assert_eq!(dir.node_type, "dir");
    assert_eq!(dir.name, "d");
    assert_eq!(dir.path, "/d");
    assert_eq!(dir.meta, None);
    assert_eq!(dir.children, Some(vec![file]));
    assert_eq!(dir.clone(), dir);
    assert_eq!(TreeNode::copy_all(dir.children.as_ref().unwrap()), dir.children.clone().unwrap());
}

#[test]
fn a_default_builder_is_empty() {
    let root = DirNode::default();
    assert_eq!(root, DirNode::new());
    assert!(root.dirs.is_empty() && root.files.is_empty());
}
