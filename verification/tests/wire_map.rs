use amo::wire::{AttributeMap, AttributeValue};

fn s(text: &str) -> AttributeValue {
    AttributeValue::S(text.to_string())
}

fn n(text: &str) -> AttributeValue {
    AttributeValue::N(text.to_string())
}

#[test]
fn new_map_is_empty() {
    let map = AttributeMap::new();
    assert_eq!(map.len(), 0);
    assert!(map.is_empty());
    assert_eq!(map.get("a"), None);
    assert!(!map.contains_key("a"));
}

#[test]
fn insert_adds_a_new_field_at_the_end() {
    let mut map = AttributeMap::new();
    assert_eq!(map.insert("a".to_string(), s("x")), None);
    assert_eq!(map.insert("b".to_string(), n("1")), None);
    assert_eq!(map.len(), 2);
    assert!(!map.is_empty());
    assert_eq!(map.name_at(0), "a");
    assert_eq!(map.name_at(1), "b");
    assert_eq!(map.value_at(0), &s("x"));
    assert_eq!(map.value_at(1), &n("1"));
    assert_eq!(map.get("a"), Some(&s("x")));
    assert_eq!(map.get("b"), Some(&n("1")));
    assert_eq!(map.get("c"), None);
    assert!(map.contains_key("b"));
}

#[test]
fn insert_replaces_a_field_in_its_place() {
    let mut map = AttributeMap::new();
    map.insert("a".to_string(), s("x"));
    map.insert("b".to_string(), s("y"));
    assert_eq!(map.insert("a".to_string(), s("z")), Some(s("x")));
    assert_eq!(map.len(), 2);
    assert_eq!(map.name_at(0), "a");
    assert_eq!(map.value_at(0), &s("z"));
    assert_eq!(map.name_at(1), "b");
    assert_eq!(map.get("a"), Some(&s("z")));
}

#[test]
fn remove_takes_the_field_and_keeps_the_order() {
    let mut map = AttributeMap::new();
    map.insert("a".to_string(), s("x"));
    map.insert("b".to_string(), s("y"));
    map.insert("c".to_string(), s("z"));
    assert_eq!(map.remove("b"), Some(s("y")));
    assert_eq!(map.remove("b"), None);
    assert_eq!(map.len(), 2);
    assert_eq!(map.name_at(0), "a");
    assert_eq!(map.name_at(1), "c");
    assert_eq!(map.get("b"), None);
    assert_eq!(map.get("c"), Some(&s("z")));
}

#[test]
fn names_are_compared_as_whole_strings() {
    let mut map = AttributeMap::new();
    map.insert("key".to_string(), s("x"));
    assert_eq!(map.get("ke"), None);
    assert_eq!(map.get("keys"), None);
    assert_eq!(map.get("Key"), None);
    assert_eq!(map.get(""), None);
    assert_eq!(map.get("key"), Some(&s("x")));
}

#[test]
fn from_entries_keeps_the_later_of_two_equal_names() {
    let map = AttributeMap::from_entries(vec![
        ("a".to_string(), s("first")),
        ("b".to_string(), s("other")),
        ("a".to_string(), s("second")),
    ]);
    assert_eq!(map.len(), 2);
    assert_eq!(map.name_at(0), "a");
    assert_eq!(map.value_at(0), &s("second"));
    assert_eq!(map.name_at(1), "b");
    assert_eq!(map.value_at(1), &s("other"));
}

#[test]
fn from_entries_of_nothing_is_empty() {
    assert!(AttributeMap::from_entries(Vec::new()).is_empty());
}

#[test]
fn into_entries_gives_the_fields_in_order() {
    let mut map = AttributeMap::new();
    map.insert("b".to_string(), s("y"));
    map.insert("a".to_string(), s("x"));
    assert_eq!(
        map.into_entries(),
        vec![("b".to_string(), s("y")), ("a".to_string(), s("x"))]
    );
}

#[test]
fn clone_copies_every_kind_of_value() {
    let mut inner = AttributeMap::new();
    inner.insert("deep".to_string(), AttributeValue::Bool(true));
    let values = vec![
        AttributeValue::B(vec![0, 255, 7]),
        AttributeValue::Bool(false),
        AttributeValue::Bs(vec![vec![1], vec![], vec![2, 3]]),
        AttributeValue::L(vec![s("a"), AttributeValue::L(vec![n("1")]), AttributeValue::Unknown]),
        AttributeValue::M(inner),
        n("12.5"),
        AttributeValue::Ns(vec!["1".to_string(), "2".to_string()]),
        AttributeValue::Null(true),
        s("text"),
        AttributeValue::Ss(vec!["x".to_string(), "y".to_string()]),
        AttributeValue::Unknown,
    ];
    for value in &values {
        assert_eq!(&value.clone(), value);
    }
    let list = AttributeValue::L(values);
    assert_eq!(list.clone(), list);
}

#[test]
fn clone_of_a_map_is_independent() {
    let mut map = AttributeMap::new();
    map.insert("a".to_string(), s("x"));
    let mut copy = map.clone();
    assert_eq!(copy, map);
    copy.insert("a".to_string(), s("changed"));
    assert_eq!(map.get("a"), Some(&s("x")));
    assert_eq!(copy.get("a"), Some(&s("changed")));
}

#[test]
fn every_kind_of_value_has_its_discriminant() {
    assert_eq!(AttributeValue::B(vec![1]).discriminant(), "B");
    assert_eq!(AttributeValue::Bool(true).discriminant(), "BOOL");
    assert_eq!(AttributeValue::Bs(Vec::new()).discriminant(), "BS");
    assert_eq!(AttributeValue::L(Vec::new()).discriminant(), "L");
    assert_eq!(AttributeValue::M(AttributeMap::new()).discriminant(), "M");
    assert_eq!(n("1").discriminant(), "N");
    assert_eq!(AttributeValue::Ns(Vec::new()).discriminant(), "NS");
    assert_eq!(AttributeValue::Null(true).discriminant(), "NULL");
    assert_eq!(s("x").discriminant(), "S");
    assert_eq!(AttributeValue::Ss(Vec::new()).discriminant(), "SS");
    assert_eq!(AttributeValue::Unknown.discriminant(), "<unknown>");
}
