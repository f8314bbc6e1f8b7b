use cargo_check_i18n::{build_prompt, failure_string, Lookup, TranslationCache};

fn prompt_of(l: Lookup) -> Option<String> {
    match l {
        Lookup::Miss(p) => Some(p),
        Lookup::Hit(_) => None,
    }
}

fn hit_of(l: Lookup) -> Option<String> {
    match l {
        Lookup::Hit(t) => Some(t),
        Lookup::Miss(_) => None,
    }
}

#[test]
fn success_is_served_from_the_cache() {
    let mut c = TranslationCache::new();
    let key = "error: mismatched types";
    let p = prompt_of(c.lookup(key, "es")).expect("first lookup misses");
    assert_eq!(
        p,
        "Translate the following English compiler diagnostic message into es as plain text: error: mismatched types"
    );
    let (text, stored) = c.record(key, Some("error: tipos no coinciden\n".to_string()));
    assert_eq!(text, "error: tipos no coinciden");
    assert!(stored);
    assert_eq!(hit_of(c.lookup(key, "es")), Some(text.clone()));
    assert_eq!(hit_of(c.lookup(key, "fr")), Some(text));
    assert_eq!(c.len(), 1);
}

#[test]
fn failure_is_retried() {
    let mut c = TranslationCache::new();
    let key = "warning: unused import";
    let (text, stored) = c.record(key, None);
    assert_eq!(text, "Translation failed.");
    assert!(!stored);
    assert!(prompt_of(c.lookup(key, "zh-CN")).is_some());
    assert_eq!(c.get(key), None);
    assert_eq!(c.len(), 0);
}

#[test]
fn sentinel_answer_is_not_stored() {
    let mut c = TranslationCache::new();
    let (text, stored) = c.record("k", Some("Translation failed.".to_string()));
    assert_eq!(text, failure_string());
    assert!(!stored);
    assert_eq!(c.get("k"), None);
}

#[test]
fn insert_replaces() {
    let mut c = TranslationCache::new();
    c.insert("a".to_string(), "1".to_string());
    c.insert("b".to_string(), "2".to_string());
    c.insert("a".to_string(), "3".to_string());
    assert_eq!(c.len(), 2);
    assert_eq!(c.get("a"), Some("3".to_string()));
    assert_eq!(c.get("b"), Some("2".to_string()));
}

#[test]
fn later_pair_wins_when_loading() {
    let c = TranslationCache::from_entries(vec![
        ("a".to_string(), "1".to_string()),
        ("a".to_string(), "2".to_string()),
    ]);
    assert_eq!(c.len(), 1);
    assert_eq!(c.get("a"), Some("2".to_string()));
}

#[test]
fn file_text_round_trip() {
    let mut c = TranslationCache::new();
    c.insert("error: a \"quoted\" thing".to_string(), "错误".to_string());
    c.insert("note: b\\c".to_string(), "nota".to_string());
    let text = c.to_json().expect("a map of strings is written");
    let back = TranslationCache::from_json(&text);
    assert_eq!(back.len(), c.len());
    for (k, v) in c.entries() {
        assert_eq!(back.get(&k), Some(v));
    }
}

#[test]
fn bad_file_text_gives_an_empty_cache() {
    assert_eq!(TranslationCache::from_json("not json").len(), 0);
    assert_eq!(TranslationCache::from_json("{\"a\": 1}").len(), 0);
    assert_eq!(TranslationCache::from_json("").len(), 0);
    let c = TranslationCache::from_json("{\"a\": \"b\"}");
    assert_eq!(c.get("a"), Some("b".to_string()));
}

#[test]
fn prompt_flattens_the_text() {
    assert_eq!(
        build_prompt("zh-CN", "error: a\nb ```x``` "),
        "Translate the following English compiler diagnostic message into zh-CN as plain text: error: a b x"
    );
}
