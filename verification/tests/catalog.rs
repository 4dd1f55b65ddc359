use mdbook_hints::{HintCatalog, HintEntry};

#[test]
fn a_new_catalog_is_empty() {
    let catalog = HintCatalog::new();
    assert_eq!(catalog.len(), 0);
    assert!(catalog.is_empty());
    assert!(!catalog.contains_key("tip1"));
    assert!(catalog.get("tip1").is_none());
}

#[test]
fn an_entry_is_found_under_its_key() {
    let mut catalog = HintCatalog::new();
    catalog.insert("tip1".to_string(), HintEntry::new("Use *care*.".to_string()));
    assert_eq!(catalog.len(), 1);
    assert!(!catalog.is_empty());
    assert!(catalog.contains_key("tip1"));
    assert!(!catalog.contains_key("tip"));
    assert!(!catalog.contains_key("tip11"));
    let entry = catalog.get("tip1").unwrap();
    assert_eq!(entry.hint, "Use *care*.");
    assert_eq!(entry.auto, None);
}

#[test]
fn a_later_entry_replaces_an_earlier_one() {
    let mut catalog = HintCatalog::new();
    catalog.insert("a".to_string(), HintEntry::new("first".to_string()));
    catalog.insert("b".to_string(), HintEntry::new("second".to_string()));
    catalog.insert(
        "a".to_string(),
        HintEntry { hint: "third".to_string(), auto: Some(vec!["word".to_string()]) },
    );
    assert_eq!(catalog.len(), 2);
    assert_eq!(catalog.get("a").unwrap().hint, "third");
    assert_eq!(catalog.get("a").unwrap().auto, Some(vec!["word".to_string()]));
    assert_eq!(catalog.get("b").unwrap().hint, "second");
}

#[test]
fn keys_keep_the_order_in_which_they_came() {
    let mut catalog = HintCatalog::new();
    for key in ["z", "a", "m", "a", "z", "b"] {
        catalog.insert(key.to_string(), HintEntry::new(key.to_uppercase()));
    }
    assert_eq!(catalog.len(), 4);
    let keys: Vec<&str> = (0..catalog.len()).map(|i| catalog.key(i)).collect();
    assert_eq!(keys, vec!["z", "a", "m", "b"]);
    let hints: Vec<&str> = (0..catalog.len()).map(|i| catalog.entry(i).hint.as_str()).collect();
    assert_eq!(hints, vec!["Z", "A", "M", "B"]);
}
