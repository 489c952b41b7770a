use debilek_bot::extensions::HashSetExt;
use debilek_bot::name_map::NameMap;

fn sorted(mut v: Vec<String>) -> Vec<String> {
    v.sort();
    v
}

#[test]
fn insert_get_replace_remove() {
    let mut m: NameMap<String> = NameMap::new();
    assert_eq!(m.len(), 0);
    assert!(m.get("a").is_none());
    m.insert("a".to_string(), "1".to_string());
    m.insert("b".to_string(), "2".to_string());
    assert_eq!(m.get("a"), Some(&"1".to_string()));
    assert_eq!(m.get("b"), Some(&"2".to_string()));
    assert_eq!(m.len(), 2);
    m.insert("a".to_string(), "3".to_string());
    assert_eq!(m.get("a"), Some(&"3".to_string()));
    assert_eq!(m.len(), 2);
    assert!(m.contains_key("b"));
    assert_eq!(m.remove("b"), Some("2".to_string()));
    assert!(!m.contains_key("b"));
    assert_eq!(m.remove("b"), None);
    assert_eq!(m.len(), 1);
    assert_eq!(m.keys(), vec!["a".to_string()]);
}

#[test]
fn entries_in_order() {
    let mut m: NameMap<String> = NameMap::new();
    m.insert("x".to_string(), "1".to_string());
    m.insert("y".to_string(), "2".to_string());
    let (k, v) = m.entry(1);
    assert_eq!(k, "y");
    assert_eq!(v, "2");
}

#[test]
fn fitting_keys_by_key() {
    let mut m: NameMap<String> = NameMap::new();
    m.insert("dog".to_string(), "bark.mp3".to_string());
    m.insert("hotdog".to_string(), "sizzle.mp3".to_string());
    m.insert("cat".to_string(), "dog.mp3".to_string());
    assert_eq!(sorted(m.get_fitting_keys("dog")), vec!["dog".to_string(), "hotdog".to_string()]);
    assert_eq!(m.get_fitting_keys("kiwi"), Vec::<String>::new());
    assert_eq!(m.get_fitting_keys("").len(), 3);
}
