use run::resolve::{cfg_search, resolve, ResolveError, DEFAULT_ENTRY};
use run::tree::{Config, Entry};

fn leaf(text: &str) -> Entry {
    Entry::Command(text.to_string())
}

fn tokens(names: &[&str]) -> Vec<String> {
    names.iter().map(|name| name.to_string()).collect()
}

/// `{a: {b: "echo hi"}}`
fn nested() -> Config {
    let mut inner = Config::new();
    inner.insert("b".to_string(), leaf("echo hi"));
    let mut tree = Config::new();
    tree.insert("a".to_string(), Entry::Config(inner));
    tree
}

/// `{index: "ls", default: "echo ok", build: "make", ci: {test: "make test", lint: {all: "make lint"}}}`
fn sample() -> Config {
    let mut lint = Config::new();
    lint.insert("all".to_string(), leaf("make lint"));
    let mut ci = Config::new();
    ci.insert("test".to_string(), leaf("make test"));
    ci.insert("lint".to_string(), Entry::Config(lint));
    let mut tree = Config::new();
    tree.insert("index".to_string(), leaf("ls"));
    tree.insert("default".to_string(), leaf("echo ok"));
    tree.insert("build".to_string(), leaf("make"));
    tree.insert("ci".to_string(), Entry::Config(ci));
    tree
}

#[test]
fn two_tokens_reach_the_nested_leaf() {
    let tree = nested();
    let resolved = resolve(&tree, &tokens(&["a", "b"]), "default").unwrap();
    assert_eq!(resolved.command, "echo hi");
    assert_eq!(resolved.leftover, 0);
}

#[test]
fn unknown_name_is_reported_with_the_level_it_was_looked_up_in() {
    let tree = nested();
    match resolve(&tree, &tokens(&["a", "z"]), "default") {
        Err(ResolveError::NameNotFound { name, available }) => {
            assert_eq!(name, "z");
            assert_eq!(available, vec!["b".to_string()]);
        }
        other => panic!("expected an unknown name, got {:?}", other),
    }
}

#[test]
fn unknown_name_at_the_top_lists_the_top() {
    let tree = sample();
    match resolve(&tree, &tokens(&["deploy", "now"]), "default") {
        Err(ResolveError::NameNotFound { name, mut available }) => {
            assert_eq!(name, "deploy");
            available.sort();
            assert_eq!(available, tokens(&["build", "ci", "default", "index"]));
        }
        other => panic!("expected an unknown name, got {:?}", other),
    }
}

#[test]
fn no_token_means_the_sentinel() {
    let mut tree = Config::new();
    tree.insert("default".to_string(), leaf("echo ok"));
    let resolved = resolve(&tree, &tokens(&[]), "default").unwrap();
    assert_eq!(resolved.command, "echo ok");
    assert_eq!(resolved.leftover, 0);
}

#[test]
fn no_token_and_no_sentinel_entry() {
    let tree = nested();
    match resolve(&tree, &tokens(&[]), "default") {
        Err(ResolveError::NameNotFound { name, available }) => {
            assert_eq!(name, "default");
            assert_eq!(available, vec!["a".to_string()]);
        }
        other => panic!("expected an unknown name, got {:?}", other),
    }
}

#[test]
fn sentinel_that_names_a_branch_selects_nothing() {
    let mut inner = Config::new();
    inner.insert("x".to_string(), leaf("true"));
    let mut tree = Config::new();
    tree.insert("default".to_string(), Entry::Config(inner));
    match resolve(&tree, &tokens(&[]), "default") {
        Err(ResolveError::MissingSelector { branch, available }) => {
            assert_eq!(branch, "default");
            assert_eq!(available, vec!["x".to_string()]);
        }
        other => panic!("expected a missing selector, got {:?}", other),
    }
}

#[test]
fn sentinel_is_not_used_below_the_top() {
    // The branch has an entry under the sentinel's name; it is not picked.
    let mut inner = Config::new();
    inner.insert("default".to_string(), leaf("echo inner"));
    let mut tree = Config::new();
    tree.insert("a".to_string(), Entry::Config(inner));
    match resolve(&tree, &tokens(&["a"]), "default") {
        Err(ResolveError::MissingSelector { branch, available }) => {
            assert_eq!(branch, "a");
            assert_eq!(available, vec!["default".to_string()]);
        }
        other => panic!("expected a missing selector, got {:?}", other),
    }
}

#[test]
fn sentinel_is_not_used_when_tokens_are_given() {
    let tree = sample();
    let resolved = resolve(&tree, &tokens(&["build"]), "default").unwrap();
    assert_eq!(resolved.command, "make");
}

#[test]
fn tokens_behind_a_leaf_are_left_over() {
    let tree = sample();
    let resolved = resolve(&tree, &tokens(&["build", "--release", "-v"]), "default").unwrap();
    assert_eq!(resolved.command, "make");
    assert_eq!(resolved.leftover, 2);
    let resolved = resolve(&tree, &tokens(&["ci", "test", "unit"]), "default").unwrap();
    assert_eq!(resolved.command, "make test");
    assert_eq!(resolved.leftover, 1);
}

#[test]
fn more_tokens_behind_a_leaf_change_nothing_but_the_count() {
    let tree = sample();
    let short = tokens(&["ci", "lint", "all"]);
    let long = tokens(&["ci", "lint", "all", "x", "y", "z"]);
    let first = resolve(&tree, &short, "default").unwrap();
    let second = resolve(&tree, &long, "default").unwrap();
    assert_eq!(first.command, "make lint");
    assert_eq!(second.command, first.command);
    assert_eq!(first.leftover, 0);
    assert_eq!(second.leftover, 3);
}

#[test]
fn branch_without_selector_fails() {
    let tree = sample();
    match resolve(&tree, &tokens(&["ci"]), "default") {
        Err(ResolveError::MissingSelector { branch, mut available }) => {
            assert_eq!(branch, "ci");
            available.sort();
            assert_eq!(available, tokens(&["lint", "test"]));
        }
        other => panic!("expected a missing selector, got {:?}", other),
    }
    match resolve(&tree, &tokens(&["ci", "lint"]), "default") {
        Err(ResolveError::MissingSelector { branch, available }) => {
            assert_eq!(branch, "lint");
            assert_eq!(available, tokens(&["all"]));
        }
        other => panic!("expected a missing selector, got {:?}", other),
    }
}

#[test]
fn empty_tree_has_nothing_to_offer() {
    let tree = Config::new();
    match resolve(&tree, &tokens(&["a"]), "default") {
        Err(ResolveError::NameNotFound { name, available }) => {
            assert_eq!(name, "a");
            assert!(available.is_empty());
        }
        other => panic!("expected an unknown name, got {:?}", other),
    }
}

#[test]
fn deep_nesting_is_followed() {
    let mut tree = Config::new();
    tree.insert("leaf".to_string(), leaf("echo bottom"));
    let mut path: Vec<String> = vec!["leaf".to_string()];
    for depth in 0..200 {
        let mut outer = Config::new();
        let name = format!("level{}", depth);
        outer.insert(name.clone(), Entry::Config(tree));
        tree = outer;
        path.insert(0, name);
    }
    let resolved = resolve(&tree, &path, "default").unwrap();
    assert_eq!(resolved.command, "echo bottom");
    assert_eq!(resolved.leftover, 0);
}

#[test]
fn resolving_twice_gives_the_same() {
    let tree = sample();
    let given = tokens(&["ci", "test"]);
    let first = resolve(&tree, &given, "default").unwrap();
    let second = resolve(&tree, &given, "default").unwrap();
    assert_eq!(first.command, second.command);
    assert_eq!(first.leftover, second.leftover);
    assert_eq!(first.command, "make test");

    let missing = tokens(&["ci", "nope"]);
    let first = resolve(&tree, &missing, "default");
    let second = resolve(&tree, &missing, "default");
    match (first, second) {
        (
            Err(ResolveError::NameNotFound { name: one, available: listed_one }),
            Err(ResolveError::NameNotFound { name: other, available: listed_other }),
        ) => {
            assert_eq!(one, "nope");
            assert_eq!(one, other);
            assert_eq!(listed_one, listed_other);
        }
        other => panic!("expected two unknown names, got {:?}", other),
    }
    // the tree is as it was
    assert_eq!(tree.len(), 4);
}

#[test]
fn cfg_search_uses_the_default_entry() {
    assert_eq!(DEFAULT_ENTRY, "index");
    let tree = sample();
    assert_eq!(cfg_search(&tree, &tokens(&[])).unwrap(), "ls");
    assert_eq!(cfg_search(&tree, &tokens(&["default"])).unwrap(), "echo ok");
    assert_eq!(cfg_search(&tree, &tokens(&["ci", "test"])).unwrap(), "make test");
    assert_eq!(cfg_search(&tree, &tokens(&["build", "extra"])).unwrap(), "make");
}

#[test]
fn cfg_search_reports_failures() {
    let tree = nested();
    match cfg_search(&tree, &tokens(&[])) {
        Err(ResolveError::NameNotFound { name, available }) => {
            assert_eq!(name, "index");
            assert_eq!(available, tokens(&["a"]));
        }
        other => panic!("expected an unknown name, got {:?}", other),
    }
    match cfg_search(&tree, &tokens(&["a"])) {
        Err(ResolveError::MissingSelector { branch, available }) => {
            assert_eq!(branch, "a");
            assert_eq!(available, tokens(&["b"]));
        }
        other => panic!("expected a missing selector, got {:?}", other),
    }
}
