use maden::string_map::find_key;
use maden::text::{chars_of, decimal_text, same_text, split_text};
use maden::StringMap;

#[test]
fn split_keeps_empty_pieces() {
    assert_eq!(split_text("/users/42", '/'), vec!["", "users", "42"]);
    assert_eq!(split_text("", '/'), vec![""]);
    assert_eq!(split_text("/", '/'), vec!["", ""]);
    assert_eq!(split_text("a//b/", '/'), vec!["a", "", "b", ""]);
    assert_eq!(split_text("plain", '/'), vec!["plain"]);
}

#[test]
fn split_agrees_with_std() {
    for text in ["", "a", "&", "a&b", "&&a&", "x=1&y=2&z", "caf\u{e9}&\u{1f600}&"] {
        let expected: Vec<String> = text.split('&').map(|piece| piece.to_string()).collect();
        assert_eq!(split_text(text, '&'), expected);
    }
}

#[test]
fn chars_come_in_order() {
    assert_eq!(chars_of("a\u{e9}\u{1f600}"), vec!['a', '\u{e9}', '\u{1f600}']);
    assert_eq!(chars_of(""), Vec::<char>::new());
}

#[test]
fn decimal_text_writes_numbers_as_std_does() {
    for n in [0usize, 1, 9, 10, 11, 99, 100, 404, 1000, 65535, 4294967295, usize::MAX] {
        assert_eq!(decimal_text(n), n.to_string());
    }
}

#[test]
fn same_text_compares_characters() {
    assert!(same_text("", ""));
    assert!(same_text("abc", "abc"));
    assert!(!same_text("abc", "abd"));
    assert!(!same_text("abc", "ab"));
    assert!(!same_text("GET", "get"));
    assert!(same_text("caf\u{e9}", "caf\u{e9}"));
    assert!(!same_text("caf\u{e9}", "cafe\u{301}"));
    assert!(!same_text("caf\u{e9}", "caf\u{e8}"));
}

#[test]
fn find_key_gives_the_first_place() {
    let entries = vec![
        ("a".to_string(), "1".to_string()),
        ("b".to_string(), "2".to_string()),
        ("a".to_string(), "3".to_string()),
    ];
    assert_eq!(find_key(&entries, "a"), 0);
    assert_eq!(find_key(&entries, "b"), 1);
    assert_eq!(find_key(&entries, "c"), 3);
}

#[test]
fn a_new_map_is_empty() {
    let map = StringMap::new();
    assert!(map.is_empty());
    assert_eq!(map.len(), 0);
    assert!(map.get("a").is_none());
    assert!(!map.contains_key("a"));
    assert!(map.entries().is_empty());
}

#[test]
fn insert_replaces_and_keeps_the_place() {
    let mut map = StringMap::new();
    map.insert("Content-Type".to_string(), "text/plain".to_string());
    map.insert("X-Id".to_string(), "1".to_string());
    map.insert("Content-Type".to_string(), "text/html".to_string());
    assert_eq!(map.len(), 2);
    assert!(!map.is_empty());
    assert!(map.contains_key("X-Id"));
    assert_eq!(map.get("Content-Type").map(|v| v.as_str()), Some("text/html"));
    assert_eq!(
        map.entries(),
        &vec![
            ("Content-Type".to_string(), "text/html".to_string()),
            ("X-Id".to_string(), "1".to_string())
        ]
    );
}

#[test]
fn keys_are_case_preserving() {
    let mut map = StringMap::new();
    map.insert("Accept".to_string(), "a".to_string());
    map.insert("accept".to_string(), "b".to_string());
    assert_eq!(map.len(), 2);
    assert_eq!(map.get("Accept").map(|v| v.as_str()), Some("a"));
    assert_eq!(map.get("accept").map(|v| v.as_str()), Some("b"));
    assert!(map.get("ACCEPT").is_none());
}

#[test]
fn insert_new_keeps_the_first_value() {
    let mut map = StringMap::new();
    map.insert_new("a".to_string(), "1".to_string());
    map.insert_new("b".to_string(), "2".to_string());
    map.insert_new("a".to_string(), "3".to_string());
    assert_eq!(map.len(), 2);
    assert_eq!(map.get("a").map(|v| v.as_str()), Some("1"));
    assert_eq!(map.get("b").map(|v| v.as_str()), Some("2"));
}

#[test]
fn a_clone_holds_the_same_pairs() {
    let mut map = StringMap::new();
    map.insert("a".to_string(), "1".to_string());
    map.insert("b".to_string(), "2".to_string());
    let copy = map.clone();
    map.insert("a".to_string(), "changed".to_string());
    assert_eq!(
        copy.entries(),
        &vec![("a".to_string(), "1".to_string()), ("b".to_string(), "2".to_string())]
    );
}

#[test]
fn pairs_are_collected_with_the_last_value_of_each_key() {
    let map = StringMap::from_pairs(vec![
        ("accept".to_string(), "a".to_string()),
        ("host".to_string(), "h".to_string()),
        ("accept".to_string(), "b".to_string()),
    ]);
    assert_eq!(
        map.entries(),
        &vec![("accept".to_string(), "b".to_string()), ("host".to_string(), "h".to_string())]
    );
    assert!(StringMap::from_pairs(Vec::new()).is_empty());
}
