use httpie::cli::{Get, KvPair, Post};
use httpie::utils::http::{build_body, get, post, Body, Verb};

fn pairs(items: &[(&str, &str)]) -> Vec<KvPair> {
    items.iter().map(|(k, v)| KvPair { k: k.to_string(), v: v.to_string() }).collect()
}

fn entries(body: &Body) -> Vec<(String, String)> {
    body.entries().iter().map(|p| (p.k.clone(), p.v.clone())).collect()
}

#[test]
fn body_maps_each_key_to_its_value() {
    let body = build_body(&pairs(&[("a", "1"), ("b", "2")]));
    assert_eq!(body.len(), 2);
    assert_eq!(body.get("a"), Some(&"1".to_string()));
    assert_eq!(body.get("b"), Some(&"2".to_string()));
    assert_eq!(body.get("c"), None);
}

#[test]
fn later_pair_overwrites_earlier_pair_with_the_same_key() {
    let body = build_body(&pairs(&[("a", "1"), ("a", "2")]));
    assert_eq!(body.len(), 1);
    assert_eq!(body.get("a"), Some(&"2".to_string()));
    assert_eq!(entries(&body), vec![("a".to_string(), "2".to_string())]);
}

#[test]
fn last_of_many_writes_wins() {
    let body = build_body(&pairs(&[("a", "1"), ("b", "2"), ("a", "3"), ("c", "4"), ("b", "5"), ("a", "6")]));
    assert_eq!(body.len(), 3);
    assert_eq!(body.get("a"), Some(&"6".to_string()));
    assert_eq!(body.get("b"), Some(&"5".to_string()));
    assert_eq!(body.get("c"), Some(&"4".to_string()));
}

#[test]
fn body_of_no_pairs_is_empty() {
    let body = build_body(&Vec::new());
    assert_eq!(body.len(), 0);
    assert!(body.entries().is_empty());
    assert_eq!(body.get(""), None);
}

#[test]
fn keys_differ_by_case_and_may_be_empty() {
    let body = build_body(&pairs(&[("a", "1"), ("A", "2"), ("", "3")]));
    assert_eq!(body.len(), 3);
    assert_eq!(body.get("a"), Some(&"1".to_string()));
    assert_eq!(body.get("A"), Some(&"2".to_string()));
    assert_eq!(body.get(""), Some(&"3".to_string()));
}

#[test]
fn insert_adds_and_replaces() {
    let mut body = Body::new();
    assert_eq!(body.len(), 0);
    body.insert("k".to_string(), "v".to_string());
    assert_eq!(body.get("k"), Some(&"v".to_string()));
    body.insert("k".to_string(), "w".to_string());
    assert_eq!(body.len(), 1);
    assert_eq!(body.get("k"), Some(&"w".to_string()));
    body.insert("l".to_string(), "x".to_string());
    assert_eq!(entries(&body), vec![("k".to_string(), "w".to_string()), ("l".to_string(), "x".to_string())]);
}

#[test]
fn entries_serialise_to_the_expected_json_object() {
    let body = build_body(&pairs(&[("a", "1"), ("b", "2"), ("a", "2")]));
    let mut object = serde_json::Map::new();
    for entry in body.entries() {
        object.insert(entry.k.clone(), serde_json::Value::String(entry.v.clone()));
    }
    let expected: serde_json::Value = serde_json::from_str("{\"a\":\"2\",\"b\":\"2\"}").unwrap();
    assert_eq!(serde_json::Value::Object(object), expected);
}

#[test]
fn get_request_has_no_body() {
    let request = get(&Get { url: "http://example.com/x".to_string() });
    assert_eq!(request.verb, Verb::Get);
    assert_eq!(request.url, "http://example.com/x");
    assert!(request.body.is_none());
}

#[test]
fn post_request_carries_the_body_of_its_pairs() {
    let args = Post { url: "http://example.com/x".to_string(), body: pairs(&[("a", "1"), ("b", "2")]) };
    let request = post(&args);
    assert_eq!(request.verb, Verb::Post);
    assert_eq!(request.url, "http://example.com/x");
    let body = request.body.unwrap();
    assert_eq!(entries(&body), vec![("a".to_string(), "1".to_string()), ("b".to_string(), "2".to_string())]);
}

#[test]
fn post_request_with_duplicate_keys_keeps_the_last_value() {
    let args = Post::new("http://example.com/x", &vec!["a=1".to_string(), "a=2".to_string()]).unwrap();
    let body = post(&args).body.unwrap();
    assert_eq!(entries(&body), vec![("a".to_string(), "2".to_string())]);
}

#[test]
fn post_request_without_pairs_has_an_empty_body() {
    let args = Post::new("http://example.com/x", &Vec::new()).unwrap();
    let body = post(&args).body.unwrap();
    assert_eq!(body.len(), 0);
}
