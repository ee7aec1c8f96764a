use gz_claude::file_tree::{EntryInfo, FileNode, FileTree};

fn entry(name: &str, is_dir: bool) -> EntryInfo {
    EntryInfo { name: name.to_string(), is_dir }
}

fn setup_test_tree() -> FileTree {
    // root/
    //   src/
    //     main.rs
    //   README.md
    let listing = vec![entry("src", true), entry("README.md", false)];
    FileTree::new("/tmp/root".to_string(), "root".to_string(), true, &listing).unwrap()
}

#[test]
fn when_creating_file_tree_should_load_root_children() {
    let tree = setup_test_tree();

    assert!(tree.root.expanded);
    assert_eq!(tree.root.children.len(), 2);

    let child_names: Vec<&str> = tree.root.children.iter().map(|c| c.name.as_str()).collect();
    assert!(child_names.contains(&"src"));
    assert!(child_names.contains(&"README.md"));
}

#[test]
fn when_getting_visible_count_should_include_expanded_nodes() {
    let mut tree = setup_test_tree();

    assert_eq!(tree.visible_count(), 3);

    let src_listing = vec![entry("main.rs", false)];
    tree.toggle_at(1, &src_listing);

    assert_eq!(tree.visible_count(), 4);
}

#[test]
fn when_getting_visible_node_should_return_correct_node() {
    let tree = setup_test_tree();

    let root_node = tree.get_visible_node(0).unwrap();
    assert_eq!(root_node.path, "/tmp/root");

    let src_node = tree.get_visible_node(1).unwrap();
    assert_eq!(src_node.name, "src");
    assert!(src_node.is_dir);

    let readme_node = tree.get_visible_node(2).unwrap();
    assert_eq!(readme_node.name, "README.md");
    assert!(!readme_node.is_dir);

    assert!(tree.get_visible_node(3).is_none());
}

#[test]
fn when_sorting_children_should_put_directories_first() {
    let listing = vec![
        entry("zebra", true),
        entry("apple", true),
        entry("banana.txt", false),
        entry("aardvark.txt", false),
    ];
    let tree = FileTree::new("/tmp/root".to_string(), "root".to_string(), true, &listing).unwrap();

    let children = &tree.root.children;
    assert_eq!(children.len(), 4);

    assert_eq!(children[0].name, "apple");
    assert!(children[0].is_dir);
    assert_eq!(children[1].name, "zebra");
    assert!(children[1].is_dir);

    assert_eq!(children[2].name, "aardvark.txt");
    assert!(!children[2].is_dir);
    assert_eq!(children[3].name, "banana.txt");
    assert!(!children[3].is_dir);
}

#[test]
fn hidden_entries_are_left_out() {
    let listing = vec![entry(".git", true), entry("b", false), entry(".env", false), entry("A", false)];
    let tree = FileTree::new("/r".to_string(), "r".to_string(), true, &listing).unwrap();
    let names: Vec<&str> = tree.root.children.iter().map(|c| c.name.as_str()).collect();
    assert_eq!(names, vec!["A", "b"]);
    assert_eq!(tree.root.children[0].path, "/r/A");
    assert_eq!(tree.root.children[0].depth, 1);
}

#[test]
fn names_sort_without_regard_to_case() {
    let listing = vec![entry("Zed", false), entry("apple", false), entry("Banana", false)];
    let tree = FileTree::new("/r/".to_string(), "r".to_string(), true, &listing).unwrap();
    let names: Vec<&str> = tree.root.children.iter().map(|c| c.name.as_str()).collect();
    assert_eq!(names, vec!["apple", "Banana", "Zed"]);
    assert_eq!(tree.root.children[1].path, "/r/Banana");
}

#[test]
fn a_file_root_gives_no_tree() {
    assert!(FileTree::new("/r/f".to_string(), "f".to_string(), false, &vec![]).is_none());
}

#[test]
fn an_empty_directory_shows_only_its_root() {
    let tree = FileTree::new("/r".to_string(), "r".to_string(), true, &vec![]).unwrap();
    assert_eq!(tree.visible_count(), 1);
}

#[test]
fn collapsing_keeps_loaded_children() {
    let mut tree = setup_test_tree();
    tree.toggle_at(1, &vec![entry("main.rs", false)]);
    assert_eq!(tree.visible_count(), 4);
    assert_eq!(tree.get_visible_node(2).unwrap().name, "main.rs");
    assert_eq!(tree.get_visible_node(3).unwrap().name, "README.md");
    tree.toggle_at(1, &vec![]);
    assert_eq!(tree.visible_count(), 3);
    assert_eq!(tree.root.children[0].children.len(), 1);
    tree.toggle_at(1, &vec![entry("other.rs", false), entry("x.rs", false)]);
    assert_eq!(tree.visible_count(), 4);
    assert_eq!(tree.get_visible_node(2).unwrap().name, "main.rs");
}

#[test]
fn toggling_a_file_or_past_the_list_changes_nothing() {
    let mut tree = setup_test_tree();
    tree.toggle_at(2, &vec![entry("x", false)]);
    assert_eq!(tree.visible_count(), 3);
    tree.toggle_at(10, &vec![entry("x", false)]);
    assert_eq!(tree.visible_count(), 3);
}

#[test]
fn the_listing_is_read_only_for_a_closed_unloaded_directory() {
    let mut tree = setup_test_tree();
    assert_eq!(tree.path_to_list(1), Some("/tmp/root/src"));
    assert_eq!(tree.path_to_list(2), None);
    assert_eq!(tree.path_to_list(0), None);
    tree.toggle_at(1, &vec![entry("main.rs", false)]);
    assert_eq!(tree.path_to_list(1), None);
}

#[test]
fn toggling_a_node_directly_loads_once() {
    let mut node = FileNode {
        name: "d".to_string(),
        path: "/d".to_string(),
        is_dir: true,
        expanded: false,
        depth: 0,
        children: vec![],
    };
    node.toggle_expanded(&vec![entry("b", false), entry("a", true)]);
    assert!(node.expanded);
    assert_eq!(node.children.len(), 2);
    assert_eq!(node.children[0].name, "a");
    node.toggle_expanded(&vec![]);
    assert!(!node.expanded);
    assert_eq!(node.children.len(), 2);
}
