use sodium::cache::{CacheEntry, CacheError, Sodium};
use sodium::search::{SearchEngine, SearchType};

fn sorted(mut keys: Vec<String>) -> Vec<String> {
    keys.sort();
    keys
}

fn strings(items: &[&str]) -> Vec<String> {
    items.iter().map(|s| s.to_string()).collect()
}

#[test]
fn new_store_is_empty() {
    let mut store = Sodium::new();
    assert_eq!(store.total_operations(), 0);
    assert_eq!(store.hit_count(), 0);
    assert_eq!(store.miss_count(), 0);
    assert_eq!(store.keys(), Ok(vec![]));
    assert_eq!(store.total_operations(), 1);
}

#[test]
fn set_twice_then_get_gives_the_value() {
    let mut store = Sodium::new();
    assert_eq!(store.set("k".to_string(), "v".to_string()), Ok(()));
    assert_eq!(store.set("k".to_string(), "v".to_string()), Ok(()));
    assert_eq!(store.get("k"), Ok("v".to_string()));
    assert_eq!(store.keys(), Ok(strings(&["k"])));
}

#[test]
fn set_overwrites() {
    let mut store = Sodium::new();
    store.set("k".to_string(), "v1".to_string()).unwrap();
    store.set("k".to_string(), "v2".to_string()).unwrap();
    assert_eq!(store.get("k"), Ok("v2".to_string()));
}

#[test]
fn delete_says_whether_the_key_was_there() {
    let mut store = Sodium::new();
    store.set("k".to_string(), "v".to_string()).unwrap();
    assert_eq!(store.delete("k"), Ok(true));
    assert_eq!(store.delete("k"), Ok(false));
    assert_eq!(store.get("k"), Err(CacheError::KeyNotFound("k".to_string())));
    assert_eq!(
        CacheError::KeyNotFound("k".to_string()).message(),
        "Key not found: k".to_string()
    );
}

#[test]
fn keys_are_the_live_keys() {
    let mut store = Sodium::new();
    for key in ["a", "b", "c", "d"] {
        store.set(key.to_string(), "1".to_string()).unwrap();
    }
    store.delete("b").unwrap();
    store.set("a".to_string(), "2".to_string()).unwrap();
    store.delete("zz").unwrap();
    assert_eq!(sorted(store.keys().unwrap()), strings(&["a", "c", "d"]));
    store.set("b".to_string(), "3".to_string()).unwrap();
    assert_eq!(sorted(store.keys().unwrap()), strings(&["a", "b", "c", "d"]));
}

#[test]
fn counters_count_operations_hits_and_misses() {
    let mut store = Sodium::new();
    store.set("a".to_string(), "1".to_string()).unwrap();
    store.get("a").unwrap();
    store.get("a").unwrap();
    assert!(store.get("b").is_err());
    store.delete("a").unwrap();
    store.keys().unwrap();
    assert_eq!(store.total_operations(), 6);
    assert_eq!(store.hit_count(), 2);
    assert_eq!(store.miss_count(), 1);
}

#[test]
fn access_time_is_given_by_the_caller() {
    let mut store = Sodium::new();
    store.set_at("a".to_string(), "1".to_string(), 10).unwrap();
    assert_eq!(store.get_at("a", 20), Ok("1".to_string()));
    assert_eq!(store.get_at("b", 30), Err(CacheError::KeyNotFound("b".to_string())));
    let mut entry = CacheEntry::new("v".to_string(), 5);
    assert_eq!(entry.accessed_at, 5);
    entry.update_access_time(9);
    assert_eq!(entry.accessed_at, 9);
    assert_eq!(entry.value, "v");
}

#[test]
fn search_by_key() {
    let mut store = Sodium::new();
    store.set("fruit_apple".to_string(), "red".to_string()).unwrap();
    store.set("fruit_berry".to_string(), "blue".to_string()).unwrap();
    store.set("vegetable".to_string(), "green".to_string()).unwrap();
    let found =
        SearchEngine::search_multiple(&mut store, SearchType::Key, &strings(&["fruit"])).unwrap();
    assert_eq!(sorted(found), strings(&["fruit_apple", "fruit_berry"]));
    let found =
        SearchEngine::search_multiple(&mut store, SearchType::Key, &strings(&["FRUIT", "rr"]))
            .unwrap();
    assert_eq!(found, strings(&["fruit_berry"]));
    // Only keys were matched: the listing counts, no read does.
    assert_eq!(store.total_operations(), 5);
    assert_eq!(store.hit_count(), 0);
}

#[test]
fn search_by_value() {
    let mut store = Sodium::new();
    store.set("k1".to_string(), "the quick brown".to_string()).unwrap();
    store.set("k2".to_string(), "brown fox".to_string()).unwrap();
    let found = SearchEngine::search_multiple(
        &mut store,
        SearchType::Value,
        &strings(&["brown", "quick"]),
    )
    .unwrap();
    assert_eq!(found, strings(&["k1"]));
    // The listing and one read for each key.
    assert_eq!(store.total_operations(), 5);
    assert_eq!(store.hit_count(), 2);
    assert_eq!(store.miss_count(), 0);
}

#[test]
fn search_by_key_and_value_or_either() {
    let mut store = Sodium::new();
    store.set("x_key".to_string(), "has x".to_string()).unwrap();
    store.set("other".to_string(), "x present".to_string()).unwrap();
    store.set("xylo".to_string(), "none".to_string()).unwrap();
    let both =
        SearchEngine::search_multiple(&mut store, SearchType::KeyAndValue, &strings(&["x"]))
            .unwrap();
    assert_eq!(both, strings(&["x_key"]));
    let either =
        SearchEngine::search_multiple(&mut store, SearchType::KeyOrValue, &strings(&["x"]))
            .unwrap();
    assert_eq!(sorted(either), strings(&["other", "x_key", "xylo"]));
}

#[test]
fn search_folds_case_beyond_ascii() {
    let mut store = Sodium::new();
    store.set("k".to_string(), "CAF\u{c9} au lait".to_string()).unwrap();
    let found = SearchEngine::search_multiple(
        &mut store,
        SearchType::Value,
        &strings(&["caf\u{e9}", "LAIT"]),
    )
    .unwrap();
    assert_eq!(found, strings(&["k"]));
}

#[test]
fn substring_matching_is_exact() {
    assert!(SearchEngine::contains_all_in("hello world", &strings(&["hello", "o w", "", "d"])));
    assert!(!SearchEngine::contains_all_in("hello world", &strings(&["hello", "worlds"])));
    assert!(!SearchEngine::contains_all_in("", &strings(&["a"])));
    assert!(SearchEngine::contains_all_in("", &strings(&[""])));
    assert!(SearchEngine::contains_all_in("abc", &[]));
    assert!(SearchEngine::contains_all_in("aab", &strings(&["ab"])));
    // The queries are taken as they are, the text is folded.
    assert!(SearchEngine::key_contains_all("Hello", &strings(&["hell"])));
    assert!(!SearchEngine::key_contains_all("Hello", &strings(&["Hell"])));
    assert!(SearchEngine::value_contains_all("STRASSE", &strings(&["strasse"])));
}

#[test]
fn search_type_names() {
    assert_eq!(SearchType::parse("key"), Ok(SearchType::Key));
    assert_eq!(SearchType::parse("  VALUE "), Ok(SearchType::Value));
    assert_eq!(SearchType::parse("Key Or Value"), Ok(SearchType::KeyOrValue));
    assert_eq!(SearchType::parse("key and value"), Ok(SearchType::KeyAndValue));
    assert_eq!(
        SearchType::parse(" keys "),
        Err(
            "Invalid search type:  keys . Valid types are: key, value, key or value, key and value"
                .to_string()
        )
    );
    assert_eq!(SearchType::from_name("KEY"), None);
}

#[test]
fn entries_are_matched_on_the_cased_forms_they_are_given() {
    let q = strings(&["ab"]);
    let some = |v: &str| Some(v.to_string());
    assert!(SearchEngine::matches_cased(SearchType::Key, "xabx", &None, &q));
    assert!(!SearchEngine::matches_cased(SearchType::Key, "xAbx", &some("ab"), &q));
    assert!(SearchEngine::matches_cased(SearchType::Value, "zz", &some("cab"), &q));
    assert!(!SearchEngine::matches_cased(SearchType::Value, "ab", &None, &q));
    assert!(SearchEngine::matches_cased(SearchType::KeyOrValue, "ab", &None, &q));
    assert!(SearchEngine::matches_cased(SearchType::KeyOrValue, "zz", &some("ab"), &q));
    assert!(!SearchEngine::matches_cased(SearchType::KeyOrValue, "zz", &some("ba"), &q));
    assert!(SearchEngine::matches_cased(SearchType::KeyAndValue, "ab", &some("ab"), &q));
    assert!(!SearchEngine::matches_cased(SearchType::KeyAndValue, "ab", &some("ba"), &q));
    assert!(!SearchEngine::matches_cased(SearchType::KeyAndValue, "ab", &None, &q));
}

#[test]
fn a_search_finds_only_keys_of_the_store() {
    let mut store = Sodium::new();
    for (key, value) in [("alpha", "one"), ("beta", "two"), ("gamma", "alpha")] {
        store.set(key.to_string(), value.to_string()).unwrap();
    }
    let keys = sorted(store.keys().unwrap());
    for mode in [SearchType::Key, SearchType::Value, SearchType::KeyOrValue, SearchType::KeyAndValue] {
        for query in ["a", "alpha", "o", "zzz", ""] {
            let found =
                SearchEngine::search_multiple(&mut store, mode, &strings(&[query])).unwrap();
            assert!(found.iter().all(|k| keys.contains(k)), "{:?} {:?}", mode, query);
        }
    }
}
