use miel_lib::language::{LanguageTree, Translation};

fn filled(pairs: &[(&str, &str)]) -> LanguageTree {
    let mut tree = LanguageTree::new();
    for (key, text) in pairs {
        tree.set_traduction(key.to_string(), Translation::new(text.to_string()));
    }
    tree
}

fn keys(tree: &LanguageTree) -> Vec<String> {
    tree.get_keys().into_iter().cloned().collect()
}

fn text(tree: &LanguageTree, key: &str) -> Option<String> {
    tree.get_traduction(key.to_string())
        .map(|translation| translation.content.clone())
}

#[test]
fn translation_holds_its_content() {
    let translation = Translation::new("Bonjour".to_string());
    assert_eq!(translation.content, "Bonjour");
    assert_eq!(translation.clone().content, "Bonjour");
    assert_eq!(Translation::new(String::new()).content, "");
}

#[test]
fn new_tree_is_empty() {
    let tree = LanguageTree::new();
    assert!(tree.get_keys().is_empty());
    assert_eq!(text(&tree, "home.title"), None);
    assert_eq!(text(&tree, ""), None);
}

#[test]
fn tree_set_get_remove() {
    let mut tree = LanguageTree::new();
    tree.set_traduction("home.title".to_string(), Translation::new("Titre".to_string()));
    assert_eq!(text(&tree, "home.title"), Some("Titre".to_string()));
    assert_eq!(text(&tree, "home"), None);
    assert_eq!(text(&tree, "home.title.long"), None);
    tree.set_traduction("home.title".to_string(), Translation::new("Autre".to_string()));
    assert_eq!(text(&tree, "home.title"), Some("Autre".to_string()));
    assert_eq!(keys(&tree), vec!["home.title".to_string()]);
    tree.remove_traduction("home.title".to_string());
    assert_eq!(text(&tree, "home.title"), None);
    assert!(tree.get_keys().is_empty());
    tree.remove_traduction("home.title".to_string());
    assert!(tree.get_keys().is_empty());
}

#[test]
fn keys_that_share_a_prefix_are_kept_apart() {
    let mut tree = filled(&[("home", "1"), ("home.title", "2"), ("home.text", "3"), ("ho", "4")]);
    assert_eq!(text(&tree, "home"), Some("1".to_string()));
    assert_eq!(text(&tree, "home.title"), Some("2".to_string()));
    assert_eq!(text(&tree, "home.text"), Some("3".to_string()));
    assert_eq!(text(&tree, "ho"), Some("4".to_string()));
    assert_eq!(text(&tree, "home.t"), None);
    assert_eq!(text(&tree, "h"), None);
    tree.remove_traduction("home".to_string());
    assert_eq!(text(&tree, "home"), None);
    assert_eq!(text(&tree, "home.title"), Some("2".to_string()));
    assert_eq!(text(&tree, "home.text"), Some("3".to_string()));
    assert_eq!(text(&tree, "ho"), Some("4".to_string()));
    tree.remove_traduction("home.t".to_string());
    assert_eq!(keys(&tree), vec!["ho".to_string(), "home.text".to_string(), "home.title".to_string()]);
}

#[test]
fn the_empty_key_is_a_key() {
    let mut tree = filled(&[("a", "1"), ("", "0")]);
    assert_eq!(text(&tree, ""), Some("0".to_string()));
    assert_eq!(keys(&tree), vec!["".to_string(), "a".to_string()]);
    tree.remove_traduction("".to_string());
    assert_eq!(text(&tree, ""), None);
    assert_eq!(keys(&tree), vec!["a".to_string()]);
}

#[test]
fn keys_come_in_ascending_order_whatever_the_order_of_insertion() {
    let forward = filled(&[("", "0"), ("a", "1"), ("ab", "2"), ("b", "3"), ("ba", "4")]);
    let backward = filled(&[("ba", "4"), ("b", "3"), ("ab", "2"), ("a", "1"), ("", "0")]);
    let mixed = filled(&[("b", "3"), ("", "0"), ("ba", "4"), ("a", "1"), ("ab", "2")]);
    let expected: Vec<String> = ["", "a", "ab", "b", "ba"].iter().map(|key| key.to_string()).collect();
    assert_eq!(keys(&forward), expected);
    assert_eq!(keys(&backward), expected);
    assert_eq!(keys(&mixed), expected);
}

#[test]
fn keys_are_ordered_by_their_bytes() {
    let tree = filled(&[
        ("z", "1"),
        ("é", "2"),
        ("Z", "3"),
        ("a.b", "4"),
        ("a-b", "5"),
        ("a", "6"),
        ("日本", "7"),
        ("😀", "8"),
        ("0", "9"),
        ("p", "10"),
        ("q", "11"),
        ("ÿ", "12"),
        ("\u{800}", "13"),
    ]);
    let listed = keys(&tree);
    let mut sorted = listed.clone();
    sorted.sort_by(|left, right| left.as_bytes().cmp(right.as_bytes()));
    assert_eq!(listed, sorted);
    assert_eq!(
        listed,
        vec!["0", "Z", "a", "a-b", "a.b", "p", "q", "z", "é", "ÿ", "\u{800}", "日本", "😀"]
            .into_iter()
            .map(|key| key.to_string())
            .collect::<Vec<String>>()
    );
}

#[test]
fn keys_list_each_key_once() {
    let mut tree = LanguageTree::new();
    for round in 0..3 {
        for key in ["x", "y", "x.y", "y.x"] {
            tree.set_traduction(key.to_string(), Translation::new(format!("{}{}", key, round)));
        }
    }
    assert_eq!(keys(&tree), vec!["x", "x.y", "y", "y.x"]);
    assert_eq!(text(&tree, "x.y"), Some("x.y2".to_string()));
}

#[test]
fn a_copy_of_a_tree_is_independent() {
    let mut tree = filled(&[("a", "1"), ("b", "2")]);
    let mut copy = tree.clone();
    assert_eq!(keys(&copy), vec!["a", "b"]);
    assert_eq!(text(&copy, "a"), Some("1".to_string()));
    copy.set_traduction("c".to_string(), Translation::new("3".to_string()));
    copy.remove_traduction("a".to_string());
    tree.set_traduction("b".to_string(), Translation::new("two".to_string()));
    assert_eq!(keys(&tree), vec!["a", "b"]);
    assert_eq!(text(&tree, "b"), Some("two".to_string()));
    assert_eq!(keys(&copy), vec!["b", "c"]);
    assert_eq!(text(&copy, "b"), Some("2".to_string()));
}

#[test]
fn long_keys_are_stored() {
    let long = "segment.".repeat(40);
    let longer = format!("{}end", long);
    let mut tree = LanguageTree::new();
    tree.set_traduction(longer.clone(), Translation::new("deep".to_string()));
    tree.set_traduction(long.clone(), Translation::new("shallow".to_string()));
    assert_eq!(text(&tree, &long), Some("shallow".to_string()));
    assert_eq!(text(&tree, &longer), Some("deep".to_string()));
    assert_eq!(keys(&tree), vec![long.clone(), longer.clone()]);
    tree.remove_traduction(long.clone());
    assert_eq!(text(&tree, &long), None);
    assert_eq!(text(&tree, &longer), Some("deep".to_string()));
}

#[test]
fn keys_are_ordered_by_their_characters() {
    let texts = [
        "\u{10000}", "\u{ffff}", "\u{e000}", "\u{d7ff}", "\u{800}", "\u{7ff}", "\u{80}", "\u{7f}",
        "a\u{10ffff}", "a\u{7f}b", "a\u{80}", "a", "\u{0}", "", "\u{7ff}\u{0}", "\u{800}a",
    ];
    let mut tree = LanguageTree::new();
    for text in texts {
        tree.set_traduction(text.to_string(), Translation::new("x".to_string()));
    }
    let listed = keys(&tree);
    let mut sorted: Vec<String> = texts.iter().map(|text| text.to_string()).collect();
    sorted.sort_by(|left, right| left.chars().cmp(right.chars()));
    assert_eq!(listed, sorted);
    assert_eq!(listed.first().map(|key| key.as_str()), Some(""));
    assert_eq!(listed.last().map(|key| key.as_str()), Some("\u{10000}"));
}
