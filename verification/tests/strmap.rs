use task_runner::strmap::StrMap;
use task_runner::value::Value;

#[test]
fn insert_keeps_insertion_order() {
    let mut map: StrMap<Value> = StrMap::new();
    map.insert("zeta".to_string(), Value::Integer(1));
    map.insert("alpha".to_string(), Value::Integer(2));

    assert_eq!(map.len(), 2);
    assert_eq!(map.key_at(0), "zeta");
    assert_eq!(map.key_at(1), "alpha");
}

#[test]
fn insert_replaces_in_place() {
    let mut map: StrMap<Value> = StrMap::new();
    map.insert("k".to_string(), Value::Integer(1));
    map.insert("other".to_string(), Value::Bool(true));
    map.insert("k".to_string(), Value::Integer(2));

    assert_eq!(map.len(), 2);
    assert_eq!(map.key_at(0), "k");
    assert_eq!(map.get("k"), Some(&Value::Integer(2)));
}

#[test]
fn get_and_contains_miss_absent_keys() {
    let mut map: StrMap<Value> = StrMap::new();
    map.insert("present".to_string(), Value::Bool(false));

    assert!(map.contains("present"));
    assert!(!map.contains("absent"));
    assert_eq!(map.get("absent"), None);
}
