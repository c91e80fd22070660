use report::node::{Location, Node};

fn ids(n: &Node<String>) -> Vec<String> {
    n.children.iter().map(|c| c.identifier.clone()).collect()
}

#[test]
fn new_has_default_content_and_no_children() {
    let n = Node::<String>::new("root");
    assert_eq!(n.identifier, "root");
    assert_eq!(n.content, "");
    assert!(n.children.is_empty());
}

#[test]
fn new_value_converts_content() {
    let n = Node::<String>::new_value("x", "Hello!");
    assert_eq!(n.identifier, "x");
    assert_eq!(n.content, "Hello!");
    assert!(n.children.is_empty());
}

#[test]
fn append_and_prepend_return_the_new_child() {
    let mut n = Node::<String>::new("root");
    n.append("b", "B").content += " world";
    n.prepend("a", "A").content += "!";
    n.append("c", "C");
    assert_eq!(ids(&n), vec!["a", "b", "c"]);
    assert_eq!(n.children[0].content, "A!");
    assert_eq!(n.children[1].content, "B world");
}

#[test]
fn find_own_identifier_is_subject() {
    let mut n = Node::<String>::new("doc");
    n.append("doc2", "x");
    assert!(matches!(n.find("doc"), Some(Location::Subject)));
}

#[test]
fn find_child_reports_parent_path_and_index() {
    let mut n = Node::<String>::new("doc");
    n.append("a", "A");
    n.append("b", "B").append("c", "C");
    match n.find("b") {
        Some(Location::Child { path, index }) => {
            assert!(path.is_empty());
            assert_eq!(index, 1);
        }
        _ => panic!("b is a direct child"),
    }
    match n.find("c") {
        Some(Location::Child { path, index }) => {
            assert_eq!(path, vec![1]);
            assert_eq!(index, 0);
        }
        _ => panic!("c is a grandchild"),
    }
    assert!(n.find("zz").is_none());
}

#[test]
fn find_prefers_shallower_match() {
    let mut n = Node::<String>::new("doc");
    n.append("a", "A").append("x", "deep");
    n.append("x", "shallow");
    match n.find("x") {
        Some(Location::Child { path, index }) => {
            assert!(path.is_empty());
            assert_eq!(index, 1);
        }
        _ => panic!("x is a direct child"),
    }
    assert_eq!(n.get("x").unwrap().content, "deep");
}

#[test]
fn local_and_get_find_direct_child() {
    let mut n = Node::<String>::new("doc");
    n.append("a", "A");
    n.append("b", "B");
    assert_eq!(n.local("b").unwrap().content, "B");
    assert_eq!(n.get("b").unwrap().content, "B");
    n.local("b").unwrap().content += "!";
    assert_eq!(n.children[1].content, "B!");
}

#[test]
fn local_takes_first_of_equal_identifiers() {
    let mut n = Node::<String>::new("doc");
    n.append("a", "first");
    n.append("a", "second");
    assert_eq!(n.local("a").unwrap().content, "first");
}

#[test]
fn grandchild_found_only_by_get() {
    let mut r = Node::<String>::new("r");
    r.append("c", "C").append("g", "G");
    assert!(r.local("g").is_none());
    assert_eq!(r.get("g").unwrap().content, "G");
    r.get("g").unwrap().content += "!";
    assert_eq!(r.children[0].children[0].content, "G!");
}

#[test]
fn get_own_identifier_is_self() {
    let mut r = Node::<String>::new_value("r", "root");
    r.append("r", "child");
    assert_eq!(r.get("r").unwrap().content, "root");
}

#[test]
fn before_and_after_child_insert_at_index() {
    let mut n = Node::<String>::new("doc");
    n.append("a", "A");
    n.append("b", "B");
    n.append("c", "C");
    assert_eq!(n.before("b", "x", "X").unwrap().identifier, "x");
    assert_eq!(ids(&n), vec!["a", "x", "b", "c"]);
    assert_eq!(n.after("b", "y", "Y").unwrap().content, "Y");
    assert_eq!(ids(&n), vec!["a", "x", "b", "y", "c"]);
}

#[test]
fn before_and_after_deep_insert_among_siblings() {
    let mut n = Node::<String>::new("doc");
    n.append("a", "A").append("g", "G");
    n.after("g", "h", "H");
    n.before("g", "f", "F");
    assert_eq!(ids(&n), vec!["a"]);
    assert_eq!(ids(&n.children[0]), vec!["f", "g", "h"]);
}

#[test]
fn before_and_after_subject_prepend_and_append() {
    let mut n = Node::<String>::new("doc");
    n.append("a", "A");
    n.after("doc", "z", "Z");
    n.before("doc", "first", "F");
    assert_eq!(ids(&n), vec!["first", "a", "z"]);
}

#[test]
fn replace_overwrites_child_and_drops_subtree() {
    let mut n = Node::<String>::new("doc");
    n.append("a", "A");
    n.append("b", "B").append("deep", "D");
    n.append("c", "C");
    let fresh = n.replace("b", "bb", "BB").unwrap();
    assert_eq!(fresh.content, "BB");
    assert!(fresh.children.is_empty());
    assert_eq!(ids(&n), vec!["a", "bb", "c"]);
    assert!(n.get("deep").is_none());
}

#[test]
fn replace_subject_is_refused() {
    let mut n = Node::<String>::new("doc");
    n.append("a", "A");
    assert!(n.replace("doc", "x", "X").is_none());
    assert_eq!(n.identifier, "doc");
    assert_eq!(ids(&n), vec!["a"]);
}

#[test]
fn absent_identifier_changes_nothing() {
    let mut n = Node::<String>::new("doc");
    n.append("a", "A").append("b", "B");
    assert!(n.local("q").is_none());
    assert!(n.get("q").is_none());
    assert!(n.find("q").is_none());
    assert!(n.after("q", "x", "X").is_none());
    assert!(n.before("q", "x", "X").is_none());
    assert!(n.replace("q", "x", "X").is_none());
    assert_eq!(ids(&n), vec!["a"]);
    assert_eq!(ids(&n.children[0]), vec!["b"]);
    assert!(n.children[0].children[0].children.is_empty());
}

#[test]
fn splice_scenario() {
    let mut root = Node::<String>::new("doc");
    root.append("a", "A");
    assert_eq!(ids(&root), vec!["a"]);
    root.before("a", "b", "B");
    assert_eq!(ids(&root), vec!["b", "a"]);
    root.after("a", "c", "C");
    assert_eq!(ids(&root), vec!["b", "a", "c"]);
    root.replace("c", "cc", "CC");
    assert_eq!(ids(&root), vec!["b", "a", "cc"]);
    root.local("a").unwrap().append("d", "D");
    assert!(root.local("d").is_none());
    let d = root.get("d").unwrap();
    assert_eq!(d.identifier, "d");
    assert_eq!(d.content, "D");
}

#[test]
fn integer_payload() {
    let mut n = Node::<u64>::new("n");
    assert_eq!(n.content, 0);
    n.append("k", 7u32).content += 1;
    assert_eq!(n.children[0].content, 8);
}
