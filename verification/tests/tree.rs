use run::tree::{Config, Entry};

fn command(text: &str) -> Entry {
    Entry::Command(text.to_string())
}

fn command_of(entry: Option<&Entry>) -> Option<&str> {
    match entry {
        Some(Entry::Command(text)) => Some(text.as_str()),
        _ => None,
    }
}

#[test]
fn new_tree_is_empty() {
    let tree = Config::new();
    assert_eq!(tree.len(), 0);
    assert!(tree.names().is_empty());
    assert!(tree.get("index").is_none());
    assert!(tree.get("").is_none());
}

#[test]
fn insert_then_get() {
    let mut tree = Config::new();
    tree.insert("build".to_string(), command("cargo build"));
    tree.insert("test".to_string(), command("cargo test"));
    assert_eq!(tree.len(), 2);
    assert_eq!(command_of(tree.get("build")), Some("cargo build"));
    assert_eq!(command_of(tree.get("test")), Some("cargo test"));
    assert!(tree.get("run").is_none());
}

#[test]
fn insert_under_a_taken_name_replaces() {
    let mut tree = Config::new();
    tree.insert("build".to_string(), command("make"));
    tree.insert("test".to_string(), command("make test"));
    tree.insert("build".to_string(), command("cargo build"));
    assert_eq!(tree.len(), 2);
    assert_eq!(command_of(tree.get("build")), Some("cargo build"));
    assert_eq!(command_of(tree.get("test")), Some("make test"));
}

#[test]
fn names_are_listed_once_each() {
    let mut tree = Config::new();
    tree.insert("b".to_string(), command("2"));
    tree.insert("a".to_string(), command("1"));
    tree.insert("b".to_string(), command("3"));
    tree.insert("c".to_string(), Entry::Config(Config::new()));
    let mut names = tree.names();
    names.sort();
    assert_eq!(names, vec!["a".to_string(), "b".to_string(), "c".to_string()]);
}

#[test]
fn names_differ_by_case_and_by_length() {
    let mut tree = Config::new();
    tree.insert("a".to_string(), command("lower"));
    tree.insert("A".to_string(), command("upper"));
    tree.insert("aa".to_string(), command("double"));
    tree.insert("".to_string(), command("empty"));
    assert_eq!(tree.len(), 4);
    assert_eq!(command_of(tree.get("a")), Some("lower"));
    assert_eq!(command_of(tree.get("A")), Some("upper"));
    assert_eq!(command_of(tree.get("aa")), Some("double"));
    assert_eq!(command_of(tree.get("")), Some("empty"));
}

#[test]
fn branch_holds_its_own_level() {
    let mut inner = Config::new();
    inner.insert("b".to_string(), command("echo hi"));
    let mut tree = Config::new();
    tree.insert("a".to_string(), Entry::Config(inner));
    assert!(tree.get("b").is_none());
    match tree.get("a") {
        Some(Entry::Config(branch)) => {
            assert_eq!(branch.len(), 1);
            assert_eq!(command_of(branch.get("b")), Some("echo hi"));
        }
        _ => panic!("a branch was inserted under `a`"),
    }
}

#[test]
fn names_that_are_not_ascii() {
    let mut tree = Config::new();
    tree.insert("größe".to_string(), command("du -sh"));
    tree.insert("grosse".to_string(), command("ls"));
    assert_eq!(command_of(tree.get("größe")), Some("du -sh"));
    assert_eq!(command_of(tree.get("grosse")), Some("ls"));
    assert!(tree.get("große").is_none());
}
