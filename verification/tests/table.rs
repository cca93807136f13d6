use language_tags::LanguageTag;
use miel_lib::language::{LanguageTree, Translation};
use miel_lib::table::LanguageTable;

fn tag(text: &str) -> LanguageTag {
    LanguageTag::parse(text).unwrap()
}

fn tree_with(key: &str, text: &str) -> LanguageTree {
    let mut tree = LanguageTree::new();
    tree.set_traduction(key.to_string(), Translation::new(text.to_string()));
    tree
}

fn keys(tree: &LanguageTree) -> Vec<String> {
    tree.get_keys().into_iter().cloned().collect()
}

#[test]
fn new_table_holds_no_language() {
    let table = LanguageTable::new();
    assert!(!table.contains_key(&tag("fr")));
    assert!(table.get(&tag("fr")).is_none());
}

#[test]
fn table_insert_then_get() {
    let mut table = LanguageTable::new();
    assert!(table.insert(tag("fr"), tree_with("a", "un")).is_none());
    assert!(table.insert(tag("en"), tree_with("b", "two")).is_none());
    assert!(table.contains_key(&tag("fr")));
    assert!(table.contains_key(&tag("en")));
    assert!(!table.contains_key(&tag("de")));
    assert_eq!(keys(table.get(&tag("fr")).unwrap()), vec!["a"]);
    assert_eq!(keys(table.get(&tag("en")).unwrap()), vec!["b"]);
    assert!(table.get(&tag("de")).is_none());
}

#[test]
fn table_insert_replaces_and_returns_the_old_tree() {
    let mut table = LanguageTable::new();
    assert!(table.insert(tag("fr"), tree_with("old", "1")).is_none());
    assert!(table.insert(tag("en"), tree_with("other", "2")).is_none());
    let previous = table.insert(tag("fr"), tree_with("new", "3")).unwrap();
    assert_eq!(keys(&previous), vec!["old"]);
    assert_eq!(keys(table.get(&tag("fr")).unwrap()), vec!["new"]);
    assert_eq!(keys(table.get(&tag("en")).unwrap()), vec!["other"]);
}

#[test]
fn table_remove_returns_the_tree() {
    let mut table = LanguageTable::new();
    let _ = table.insert(tag("fr"), tree_with("a", "1"));
    let _ = table.insert(tag("en"), tree_with("b", "2"));
    let _ = table.insert(tag("de"), tree_with("c", "3"));
    let removed = table.remove(&tag("en")).unwrap();
    assert_eq!(keys(&removed), vec!["b"]);
    assert!(!table.contains_key(&tag("en")));
    assert!(table.remove(&tag("en")).is_none());
    assert_eq!(keys(table.get(&tag("fr")).unwrap()), vec!["a"]);
    assert_eq!(keys(table.get(&tag("de")).unwrap()), vec!["c"]);
    let removed = table.remove(&tag("fr")).unwrap();
    assert_eq!(keys(&removed), vec!["a"]);
    assert_eq!(keys(table.get(&tag("de")).unwrap()), vec!["c"]);
    let removed = table.remove(&tag("de")).unwrap();
    assert_eq!(keys(&removed), vec!["c"]);
    assert!(table.get(&tag("de")).is_none());
}

#[test]
fn table_get_mut_changes_the_tree_in_place() {
    let mut table = LanguageTable::new();
    let _ = table.insert(tag("fr"), tree_with("a", "1"));
    let _ = table.insert(tag("en"), tree_with("b", "2"));
    assert!(table.get_mut(&tag("de")).is_none());
    let tree = table.get_mut(&tag("fr")).unwrap();
    tree.set_traduction("z".to_string(), Translation::new("26".to_string()));
    assert_eq!(keys(table.get(&tag("fr")).unwrap()), vec!["a", "z"]);
    assert_eq!(keys(table.get(&tag("en")).unwrap()), vec!["b"]);
}

#[test]
fn a_copy_of_a_table_is_independent() {
    let mut table = LanguageTable::new();
    let _ = table.insert(tag("fr"), tree_with("a", "1"));
    let _ = table.insert(tag("en"), tree_with("b", "2"));
    let mut copy = table.clone();
    assert_eq!(keys(copy.get(&tag("fr")).unwrap()), vec!["a"]);
    assert_eq!(keys(copy.get(&tag("en")).unwrap()), vec!["b"]);
    assert!(copy.remove(&tag("fr")).is_some());
    assert!(table.contains_key(&tag("fr")));
    assert!(!copy.contains_key(&tag("fr")));
}
