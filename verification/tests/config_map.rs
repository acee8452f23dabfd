use opendal_remote::map::{order_keys, ConfigMap, KeyOrder};

fn pairs(m: ConfigMap) -> Vec<(String, String)> {
    m.into_pairs()
}

#[test]
fn empty_map() {
    let m = ConfigMap::new();
    assert_eq!(m.len(), 0);
    assert!(m.get("root").is_none());
}

#[test]
fn insert_then_get() {
    let mut m = ConfigMap::new();
    m.insert("root".to_string(), "/data".to_string());
    assert_eq!(m.get("root").map(|s| s.as_str()), Some("/data"));
    assert!(m.get("bucket").is_none());
    assert_eq!(m.len(), 1);
}

#[test]
fn insert_replaces_value() {
    let mut m = ConfigMap::new();
    m.insert("k".to_string(), "one".to_string());
    m.insert("k".to_string(), "two".to_string());
    assert_eq!(m.len(), 1);
    assert_eq!(m.get("k").map(|s| s.as_str()), Some("two"));
}

#[test]
fn entries_come_out_in_key_order() {
    let mut m = ConfigMap::new();
    for k in ["root", "bucket", "application_key_id", "bucket_id", "application_key"] {
        m.insert(k.to_string(), k.to_uppercase());
    }
    let keys: Vec<String> = pairs(m).into_iter().map(|(k, _)| k).collect();
    assert_eq!(
        keys,
        vec!["application_key", "application_key_id", "bucket", "bucket_id", "root"]
    );
}

#[test]
fn key_order_matches_string_order() {
    let words = ["", "a", "ab", "b", "ba", "é", "Z", "z", "é1"];
    for x in words {
        for y in words {
            let expected = x.cmp(y);
            let got = order_keys(x, y);
            match expected {
                std::cmp::Ordering::Less => assert!(matches!(got, KeyOrder::Less)),
                std::cmp::Ordering::Equal => assert!(matches!(got, KeyOrder::Equal)),
                std::cmp::Ordering::Greater => assert!(matches!(got, KeyOrder::Greater)),
            }
        }
    }
}
