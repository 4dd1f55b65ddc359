use std::collections::BTreeMap;

use mdbook_hints::{output_json, HintCatalog, HintEntry, HintError, RenderedHintCache};

fn catalog_of(entries: &[(&str, &str)]) -> HintCatalog {
    let mut catalog = HintCatalog::new();
    for (key, hint) in entries {
        catalog.insert(key.to_string(), HintEntry::new(hint.to_string()));
    }
    catalog
}

fn members(json: &str) -> BTreeMap<String, String> {
    serde_json::from_str(json).expect("the cache is a JSON object of strings")
}

#[test]
fn the_cache_of_an_empty_catalog_is_empty() {
    let cache = RenderedHintCache::build(&HintCatalog::new()).unwrap();
    assert_eq!(cache.len(), 0);
    assert_eq!(cache.get("tip1"), None);
    assert_eq!(cache.to_json(), Ok("{}".to_string()));
}

#[test]
fn the_cache_holds_the_fragment_of_each_hint() {
    let catalog = catalog_of(&[("tip1", "Use *care*."), ("b", "**bold**"), ("raw", "<i>x</i>")]);
    let cache = RenderedHintCache::build(&catalog).unwrap();
    assert_eq!(cache.len(), 3);
    assert_eq!(cache.get("tip1"), Some("Use <em>care</em>."));
    assert_eq!(cache.get("b"), Some("<strong>bold</strong>"));
    assert_eq!(cache.get("raw"), Some("<i>x</i>"));
    assert_eq!(cache.get("tip"), None);
    assert_eq!(cache.get(""), None);
}

#[test]
fn the_cache_has_exactly_the_keys_of_the_catalog() {
    for count in [0usize, 1, 2, 7, 40] {
        let mut catalog = HintCatalog::new();
        for i in 0..count {
            catalog.insert(format!("key{}", i), HintEntry::new(format!("hint *{}*", i)));
        }
        let cache = RenderedHintCache::build(&catalog).unwrap();
        assert_eq!(cache.len(), count);
        let written = members(&cache.to_json().unwrap());
        assert_eq!(written.len(), count);
        for i in 0..count {
            let key = format!("key{}", i);
            assert_eq!(cache.get(&key), Some(format!("hint <em>{}</em>", i).as_str()));
            assert_eq!(written.get(&key), Some(&format!("hint <em>{}</em>", i)));
        }
        assert_eq!(cache.get(&format!("key{}", count)), None);
    }
}

#[test]
fn a_replaced_hint_is_cached_once_with_its_last_body() {
    let catalog = catalog_of(&[("a", "old"), ("b", "other"), ("a", "*new*")]);
    let cache = RenderedHintCache::build(&catalog).unwrap();
    assert_eq!(cache.len(), 2);
    assert_eq!(cache.get("a"), Some("<em>new</em>"));
    assert_eq!(cache.to_json(), Ok("{\"a\":\"<em>new</em>\",\"b\":\"other\"}".to_string()));
}

#[test]
fn the_json_is_one_object_ordered_by_key() {
    let catalog = catalog_of(&[("tip2", "**b**"), ("tip1", "Use *care*.")]);
    assert_eq!(
        output_json(&catalog),
        Ok("{\"tip1\":\"Use <em>care</em>.\",\"tip2\":\"<strong>b</strong>\"}".to_string())
    );
}

#[test]
fn the_json_escapes_what_json_must_escape() {
    let catalog = catalog_of(&[("q\"k", "say \"hi\" \\ <a href=\"x\">y</a>")]);
    let json = output_json(&catalog).unwrap();
    let written = members(&json);
    assert_eq!(written.len(), 1);
    assert_eq!(written.get("q\"k"), Some(&"say &quot;hi&quot; \\ <a href=\"x\">y</a>".to_string()));
    assert!(json.starts_with("{\"q\\\"k\":\""));
}

#[test]
fn output_json_of_the_one_hint_catalog() {
    let catalog = catalog_of(&[("tip1", "Use *care*.")]);
    assert_eq!(output_json(&catalog), Ok("{\"tip1\":\"Use <em>care</em>.\"}".to_string()));
}

#[test]
fn a_failed_serialization_is_an_io_error() {
    let failure = serde_json::from_str::<BTreeMap<String, String>>("{").unwrap_err();
    assert_eq!(RenderedHintCache::json_of(Err(failure)), Err(HintError::Io));
    assert_eq!(RenderedHintCache::json_of(Ok("{}".to_string())), Ok("{}".to_string()));
}
