use icp_hackathon_backend::string_map::StringMap;
use icp_hackathon_backend::text::{decimal_string, str_equal, str_precedes};

#[test]
fn decimal_string_matches_the_usual_rendering() {
    for n in [0u64, 1, 9, 10, 11, 99, 100, 101, 12345, 1_000_000, u64::MAX - 1, u64::MAX] {
        assert_eq!(decimal_string(n), n.to_string());
    }
    assert_eq!(decimal_string(0), "0");
    assert_eq!(decimal_string(1000), "1000");
    assert_eq!(decimal_string(u64::MAX), "18446744073709551615");
}

#[test]
fn str_precedes_orders_as_strings_are_ordered() {
    let words = ["", "a", "A", "ab", "abc", "b", "ba", "z", "é", "żółw", "日本", "\u{10FFFF}"];
    for a in words {
        for b in words {
            assert_eq!(str_precedes(a, b), a < b, "{a:?} {b:?}");
        }
    }
    assert!(str_precedes("a", "ab"));
    assert!(!str_precedes("ab", "a"));
    assert!(!str_precedes("a", "a"));
    assert!(str_precedes("Z", "a"));
}

#[test]
fn str_equal_tells_texts_apart() {
    assert!(str_equal("", ""));
    assert!(str_equal("alice", "alice"));
    assert!(!str_equal("alice", "alicf"));
    assert!(!str_equal("alice", "alic"));
    assert!(!str_equal("a", ""));
    assert!(str_equal("żółw", "żółw"));
}

#[test]
fn string_map_keeps_one_value_per_key() {
    let mut map: StringMap<u32> = StringMap::new();
    assert_eq!(map.len(), 0);
    assert_eq!(map.insert("a".to_string(), 1), None);
    assert_eq!(map.insert("b".to_string(), 2), None);
    assert_eq!(map.insert("a".to_string(), 3), Some(1));
    assert_eq!(map.len(), 2);
    assert_eq!(map.get("a"), Some(&3));
    assert_eq!(map.get("b"), Some(&2));
    assert_eq!(map.get("c"), None);
    assert!(map.contains_key("b"));
    assert_eq!(map.key_at(0), "a");
    assert_eq!(map.value_at(1), &2);
    assert_eq!(map.remove("a"), Some(3));
    assert_eq!(map.remove("a"), None);
    assert_eq!(map.len(), 1);
    assert!(!map.contains_key("a"));
    let copy = map.clone();
    assert_eq!(copy.get("b"), Some(&2));
    assert_eq!(copy.len(), 1);
}
