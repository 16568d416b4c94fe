use tinyview::strmap::StrMap;

#[test]
fn insert_get_replace_and_order() {
    let mut m: StrMap<String> = StrMap::new();
    assert_eq!(m.len(), 0);
    m.insert("theme".to_string(), "github".to_string());
    m.insert("lang".to_string(), "rust".to_string());
    m.insert("Z".to_string(), "upper".to_string());
    assert_eq!(m.get("lang").map(String::as_str), Some("rust"));
    m.insert("lang".to_string(), "python".to_string());
    assert_eq!(m.get("lang").map(String::as_str), Some("python"));
    assert_eq!(m.get("missing"), None);
    assert_eq!(m.len(), 3);
    let keys: Vec<&str> = m.entries().iter().map(|e| e.0.as_str()).collect();
    assert_eq!(keys, vec!["Z", "lang", "theme"]);
}

#[test]
fn keys_order_like_btreemap() {
    let words = ["b", "a", "ab", "", "é", "aa", "a b"];
    let mut m: StrMap<u32> = StrMap::new();
    let mut reference = std::collections::BTreeMap::new();
    for (i, w) in words.iter().enumerate() {
        m.insert(w.to_string(), i as u32);
        reference.insert(w.to_string(), i as u32);
    }
    let ours: Vec<(String, u32)> = m.entries().iter().map(|e| (e.0.clone(), e.1)).collect();
    let theirs: Vec<(String, u32)> = reference.into_iter().collect();
    assert_eq!(ours, theirs);
}
