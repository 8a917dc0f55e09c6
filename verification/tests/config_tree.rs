use sherion::config_tree::{apply_profile, merge_config_trees, ConfigTree};

fn table(entries: Vec<(&str, ConfigTree)>) -> ConfigTree {
    ConfigTree::Table(entries.into_iter().map(|(k, v)| (k.to_owned(), v)).collect())
}

fn keys(tree: &ConfigTree) -> Vec<String> {
    match tree {
        ConfigTree::Table(entries) => entries.iter().map(|(k, _)| k.clone()).collect(),
        ConfigTree::Leaf(_) => Vec::new(),
    }
}

fn get<'a>(tree: &'a ConfigTree, key: &str) -> Option<&'a ConfigTree> {
    match tree {
        ConfigTree::Table(entries) => entries.iter().find(|(k, _)| k == key).map(|(_, v)| v),
        ConfigTree::Leaf(_) => None,
    }
}

fn leaf(tree: Option<&ConfigTree>) -> Option<usize> {
    match tree {
        Some(ConfigTree::Leaf(i)) => Some(*i),
        _ => None,
    }
}

fn sample() -> ConfigTree {
    table(vec![
        ("font", table(vec![("size", ConfigTree::Leaf(0)), ("family", ConfigTree::Leaf(1))])),
        (
            "profiles",
            table(vec![
                ("home", table(vec![("shell", ConfigTree::Leaf(5))])),
                ("work", table(vec![("font", table(vec![("size", ConfigTree::Leaf(2))])), ("shell", ConfigTree::Leaf(3))])),
            ]),
        ),
    ])
}

#[test]
fn profile_table_is_laid_over_the_configuration() {
    let mut root = sample();
    let (names, found) = apply_profile(&mut root, Some(&"work".to_owned()));
    assert_eq!(names, vec!["home".to_owned(), "work".to_owned()]);
    assert!(found);
    assert_eq!(keys(&root), vec!["font".to_owned(), "shell".to_owned()]);
    let font = get(&root, "font").unwrap();
    assert_eq!(leaf(get(font, "size")), Some(2));
    assert_eq!(leaf(get(font, "family")), Some(1));
    assert_eq!(leaf(get(&root, "shell")), Some(3));
}

#[test]
fn unknown_profile_only_drops_the_profiles_table() {
    let mut root = sample();
    let (names, found) = apply_profile(&mut root, Some(&"travel".to_owned()));
    assert_eq!(names.len(), 2);
    assert!(!found);
    assert_eq!(keys(&root), vec!["font".to_owned()]);
    assert_eq!(leaf(get(get(&root, "font").unwrap(), "size")), Some(0));
}

#[test]
fn no_profile_lists_names_and_drops_profiles() {
    let mut root = sample();
    let (names, found) = apply_profile(&mut root, None);
    assert_eq!(names, vec!["home".to_owned(), "work".to_owned()]);
    assert!(!found);
    assert_eq!(keys(&root), vec!["font".to_owned()]);
}

#[test]
fn document_without_profiles_is_kept() {
    let mut root = table(vec![("shell", ConfigTree::Leaf(7))]);
    let (names, found) = apply_profile(&mut root, Some(&"work".to_owned()));
    assert!(names.is_empty());
    assert!(!found);
    assert_eq!(leaf(get(&root, "shell")), Some(7));
}

#[test]
fn merge_replaces_leaves_adds_keys_and_skips_profiles() {
    let mut base = table(vec![("a", ConfigTree::Leaf(0)), ("b", table(vec![("c", ConfigTree::Leaf(1))]))]);
    let overlay = table(vec![
        ("b", table(vec![("d", ConfigTree::Leaf(2))])),
        ("a", table(vec![("x", ConfigTree::Leaf(3))])),
        ("profiles", table(vec![("p", ConfigTree::Leaf(4))])),
        ("e", ConfigTree::Leaf(5)),
    ]);
    merge_config_trees(&mut base, &overlay);
    assert_eq!(keys(&base), vec!["a".to_owned(), "b".to_owned(), "e".to_owned()]);
    assert_eq!(leaf(get(get(&base, "a").unwrap(), "x")), Some(3));
    let b = get(&base, "b").unwrap();
    assert_eq!(keys(b), vec!["c".to_owned(), "d".to_owned()]);
    assert_eq!(leaf(get(&base, "e")), Some(5));
    assert!(get(&base, "profiles").is_none());
}

#[test]
fn merging_a_leaf_replaces_the_whole_value() {
    let mut base = table(vec![("a", ConfigTree::Leaf(0))]);
    let overlay = ConfigTree::Leaf(9);
    merge_config_trees(&mut base, &overlay);
    assert!(matches!(base, ConfigTree::Leaf(9)));
}
