use iws::name_map::{text_less, NameMap};

#[test]
fn keeps_names_in_str_order() {
    let mut m: NameMap<String> = NameMap::new();
    assert!(m.is_empty());
    m.insert("frontend".to_string(), "f".to_string());
    m.insert("backend".to_string(), "b".to_string());
    m.insert("shared-lib".to_string(), "s".to_string());
    m.insert("Zeta".to_string(), "z".to_string());
    assert_eq!(m.keys(), vec!["Zeta", "backend", "frontend", "shared-lib"]);
    assert_eq!(m.len(), 4);
    assert_eq!(m.first_value().map(|s| s.as_str()), Some("z"));
}

#[test]
fn insert_then_get_reads_back() {
    let mut m: NameMap<String> = NameMap::new();
    assert_eq!(m.insert("a".to_string(), "1".to_string()), None);
    assert_eq!(m.get("a").map(|s| s.as_str()), Some("1"));
    assert_eq!(m.insert("a".to_string(), "2".to_string()), Some("1".to_string()));
    assert_eq!(m.get("a").map(|s| s.as_str()), Some("2"));
    assert_eq!(m.len(), 1);
    assert!(m.get("b").is_none());
}

#[test]
fn remove_takes_out() {
    let mut m: NameMap<String> = NameMap::new();
    m.insert("a".to_string(), "1".to_string());
    m.insert("b".to_string(), "2".to_string());
    assert_eq!(m.remove("a"), Some("1".to_string()));
    assert_eq!(m.remove("a"), None);
    assert!(!m.contains_key("a"));
    assert!(m.contains_key("b"));
    assert_eq!(m.keys(), vec!["b"]);
    let (k, v) = m.entry(0);
    assert_eq!((k.as_str(), v.as_str()), ("b", "2"));
}

#[test]
fn order_matches_str() {
    let words = ["", "a", "ab", "b", "B", "é", "e", "z", "aa", "a b"];
    for x in words {
        for y in words {
            assert_eq!(text_less(x, y), x < y, "{:?} {:?}", x, y);
        }
    }
}
