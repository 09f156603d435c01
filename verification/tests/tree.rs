use llm_review_sdk::zip_project::tree::{
    add_to_tree, find_entry_file, find_file_by_name, is_python_file_path, list_python_files,
    ProjectTree,
};

fn parts(p: &str) -> Vec<String> {
    p.split('/').map(|s| s.to_string()).collect()
}

fn add(tree: &mut ProjectTree, rel: &str, is_file: bool) {
    let full = format!("/tmp/project/{}", rel);
    add_to_tree(tree, &parts(rel), &full, is_file);
}

#[test]
fn test_list_python_files() {
    let mut tree = ProjectTree::new_dir("project");
    add(&mut tree, "main.py", true);
    add(&mut tree, "test.txt", true);
    add(&mut tree, "subdir", false);
    add(&mut tree, "subdir/utils.py", true);

    let py_files = list_python_files(&tree);

    assert_eq!(py_files.len(), 2);
    assert_eq!(py_files[0], "/tmp/project/main.py");
    assert_eq!(py_files[1], "/tmp/project/subdir/utils.py");
}

#[test]
fn test_find_entry_file() {
    let mut tree = ProjectTree::new_dir("project");
    add(&mut tree, "app.py", true);

    let entry = find_entry_file(&tree);

    assert!(entry.is_some());
    let entry = entry.unwrap();
    assert_eq!(std::path::Path::new(&entry).file_name().unwrap(), "app.py");
}

#[test]
fn tree_add_creates_directories() {
    let mut tree = ProjectTree::new_dir("root");
    add(&mut tree, "a/b/c.py", true);
    assert_eq!(tree.children.len(), 1);
    let a = &tree.children[0];
    assert_eq!(a.name, "a");
    assert!(!a.is_file);
    assert!(a.path.is_none());
    let b = &a.children[0];
    assert_eq!(b.name, "b");
    let c = &b.children[0];
    assert_eq!(c.name, "c.py");
    assert!(c.is_file);
    assert_eq!(c.path.as_deref(), Some("/tmp/project/a/b/c.py"));
}

#[test]
fn tree_add_existing_sets_path() {
    let mut tree = ProjectTree::new_dir("root");
    add(&mut tree, "a/x.py", true);
    add(&mut tree, "a", false);
    assert_eq!(tree.children.len(), 1);
    let a = &tree.children[0];
    assert!(!a.is_file);
    assert_eq!(a.path.as_deref(), Some("/tmp/project/a"));
    assert_eq!(a.children.len(), 1);
}

#[test]
fn tree_add_empty_parts_is_noop() {
    let mut tree = ProjectTree::new_dir("root");
    add_to_tree(&mut tree, &Vec::new(), "/x", true);
    assert!(tree.children.is_empty());
    assert!(tree.path.is_none());
}

#[test]
fn entry_file_preference_order() {
    let mut tree = ProjectTree::new_dir("project");
    add(&mut tree, "server.py", true);
    add(&mut tree, "pkg/main.py", true);
    add(&mut tree, "run.py", true);
    assert_eq!(find_entry_file(&tree).as_deref(), Some("/tmp/project/pkg/main.py"));

    let mut other = ProjectTree::new_dir("project");
    add(&mut other, "server.py", true);
    add(&mut other, "run.py", true);
    assert_eq!(find_entry_file(&other).as_deref(), Some("/tmp/project/run.py"));

    let empty = ProjectTree::new_dir("project");
    assert!(find_entry_file(&empty).is_none());
}

#[test]
fn find_by_name_depth_first() {
    let mut tree = ProjectTree::new_dir("project");
    add(&mut tree, "x/util.py", true);
    add(&mut tree, "util.py", true);
    assert_eq!(find_file_by_name(&tree, "util.py").as_deref(), Some("/tmp/project/x/util.py"));
    assert!(find_file_by_name(&tree, "x").is_none());
}

#[test]
fn python_path_extension_rules() {
    assert!(is_python_file_path("/a/b.py"));
    assert!(is_python_file_path("b.py"));
    assert!(is_python_file_path("/a/x.tar.py"));
    assert!(!is_python_file_path("/a/.py"));
    assert!(!is_python_file_path("/a.py/b"));
    assert!(!is_python_file_path("/a/b.pyc"));
    assert!(!is_python_file_path(""));
}

#[test]
fn python_path_trailing_separators() {
    assert!(is_python_file_path("/p/y.py/"));
    assert!(is_python_file_path("/p/y.py/."));
    assert!(is_python_file_path("/p/y.py//./"));
    assert!(is_python_file_path("..py"));
    assert!(!is_python_file_path("/p/y.py/.."));
    assert!(!is_python_file_path("/"));
    assert!(!is_python_file_path("./"));
    assert!(!is_python_file_path("/p/.py/"));
}

#[test]
fn new_file_and_add_child() {
    let mut d = ProjectTree::new_dir("d");
    d.add_child(ProjectTree::new_file("f.py", "/d/f.py".to_string()));
    assert_eq!(d.children.len(), 1);
    assert!(d.children[0].is_file);
    assert_eq!(list_python_files(&d), vec!["/d/f.py".to_string()]);
}

#[test]
fn tree_add_keeps_order_and_distinct_names() {
    let mut tree = ProjectTree::new_dir("root");
    add(&mut tree, "b.py", true);
    add(&mut tree, "pkg/mod.py", true);
    add(&mut tree, "a.py", true);
    add(&mut tree, "pkg/mod.py", true);
    add(&mut tree, "pkg/other.py", true);
    let names: Vec<&str> = tree.children.iter().map(|c| c.name.as_str()).collect();
    assert_eq!(names, vec!["b.py", "pkg", "a.py"]);
    let pkg = &tree.children[1];
    let inner: Vec<&str> = pkg.children.iter().map(|c| c.name.as_str()).collect();
    assert_eq!(inner, vec!["mod.py", "other.py"]);
}

#[test]
fn tree_clone_copies_every_node() {
    let mut tree = ProjectTree::new_dir("root");
    add(&mut tree, "pkg/mod.py", true);
    add(&mut tree, "b.txt", true);
    let copy = tree.clone();
    assert_eq!(copy.name, "root");
    assert_eq!(copy.children.len(), 2);
    assert_eq!(copy.children[0].name, "pkg");
    assert_eq!(copy.children[0].children[0].path.as_deref(), Some("/tmp/project/pkg/mod.py"));
    assert_eq!(copy.children[1].name, "b.txt");
    assert!(copy.children[1].is_file);
}
