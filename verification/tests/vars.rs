use swaybind::Vars;

#[test]
fn vars_insert_and_get() {
    let mut v = Vars::new();
    assert_eq!(v.get("$mod"), None);
    v.insert("$mod".to_string(), "Mod4".to_string());
    assert_eq!(v.get("$mod").map(|s| s.as_str()), Some("Mod4"));
    assert!(v.contains_key("$mod"));
    assert!(!v.contains_key("$alt"));
}

#[test]
fn vars_insert_replaces() {
    let mut v = Vars::new();
    v.insert("$mod".to_string(), "Mod1".to_string());
    v.insert("$term".to_string(), "foot".to_string());
    v.insert("$mod".to_string(), "Mod4".to_string());
    assert_eq!(v.get("$mod").map(|s| s.as_str()), Some("Mod4"));
    assert_eq!(v.get("$term").map(|s| s.as_str()), Some("foot"));
}
