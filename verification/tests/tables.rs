use amo::error::{DeserializeError, SerializeError};
use amo::item;
use amo::operation::{GetItem, GetItemRequest};
use amo::table::{HashRangeTable, HashTable, Table};
use amo::tags::{Arn, Tag, TagTable};
use amo::value;
use amo::value::{B, N, S};
use amo::wire::{AttributeMap, AttributeValue};
use aws_sdk_dynamodb::config::{BehaviorVersion, Region};
use aws_sdk_dynamodb::{Client, Config};

fn client() -> Client {
    Client::from_conf(Config::builder().behavior_version(BehaviorVersion::latest()).build())
}

fn s(text: &str) -> AttributeValue {
    AttributeValue::S(text.to_string())
}

fn map_of(entries: &[(&str, AttributeValue)]) -> AttributeMap {
    let mut map = AttributeMap::new();
    for (name, value) in entries {
        map.insert(name.to_string(), value.clone());
    }
    map
}

fn request_of<T: Table>(get: GetItem<T>) -> GetItemRequest
where
    T::Item: item::Deserialize,
{
    match get.send() {
        Ok(in_flight) => in_flight.request().clone(),
        Err(error) => panic!("the operation holds an error: {error:?}"),
    }
}

/// A key that has no wire form.
struct NoKey;

impl value::Serialize for NoKey {
    type Type = S;

    fn serialize_raw(&self) -> Result<String, SerializeError> {
        Err(SerializeError::new("this key has no wire form"))
    }
}

/// A number that serializes as its decimal text.
struct Count(u32);

impl value::Serialize for Count {
    type Type = N;

    fn serialize_raw(&self) -> Result<String, SerializeError> {
        Ok(self.0.to_string())
    }
}

/// Bytes that serialize as they are.
struct Digest(Vec<u8>);

impl value::Serialize for Digest {
    type Type = B;

    fn serialize_raw(&self) -> Result<Vec<u8>, SerializeError> {
        Ok(self.0.clone())
    }
}

#[derive(Debug, PartialEq)]
struct User {
    id: String,
}

impl item::Deserialize for User {
    fn deserialize_owned_from_map(mut map: AttributeMap) -> Result<Self, DeserializeError> {
        Ok(User { id: item::required_field(&mut map, "User", "id")? })
    }
}

impl item::Serialize for User {
    fn serialize(&self) -> Vec<Result<(String, AttributeValue), SerializeError>> {
        if self.id.is_empty() {
            vec![Err(SerializeError::new("a user needs an id"))]
        } else {
            vec![Ok(("id".to_string(), AttributeValue::S(self.id.clone())))]
        }
    }
}

/// A table with a hash key only.
#[derive(Clone)]
struct Users {
    client: Client,
}

impl Table for Users {
    type Item = User;

    fn name(&self) -> &str {
        "users"
    }

    fn client(&self) -> Client {
        self.client.clone()
    }
}

impl HashTable for Users {
    type HashKeyType = S;

    const HASH_KEY_ATTRIBUTE: &'static str = "id";
}

/// A table whose keys are a number and bytes.
#[derive(Clone)]
struct Samples {
    client: Client,
}

impl Table for Samples {
    type Item = User;

    fn name(&self) -> &str {
        "samples"
    }

    fn client(&self) -> Client {
        self.client.clone()
    }
}

impl HashRangeTable for Samples {
    type HashKeyType = N;

    const HASH_KEY_ATTRIBUTE: &'static str = "count";

    type RangeKeyType = B;

    const RANGE_KEY_ATTRIBUTE: &'static str = "digest";
}

/// A table that declares one attribute for both keys.
#[derive(Clone)]
struct Odd {
    client: Client,
}

impl Table for Odd {
    type Item = User;

    fn name(&self) -> &str {
        "odd"
    }

    fn client(&self) -> Client {
        self.client.clone()
    }
}

impl HashRangeTable for Odd {
    type HashKeyType = S;

    const HASH_KEY_ATTRIBUTE: &'static str = "k";

    type RangeKeyType = S;

    const RANGE_KEY_ATTRIBUTE: &'static str = "k";
}

#[test]
fn tag_table_keeps_its_name() {
    let table = TagTable::new("tags".to_string(), client());
    assert_eq!(table.name(), "tags");
    assert_eq!(table.clone().name(), "tags");
    let _handle: Client = table.client();
}

#[test]
fn tag_table_declares_its_keys() {
    assert_eq!(<TagTable as HashRangeTable>::HASH_KEY_ATTRIBUTE, "resource");
    assert_eq!(<TagTable as HashRangeTable>::RANGE_KEY_ATTRIBUTE, "key");
}

#[test]
fn get_of_a_tag_asks_for_resource_and_key() {
    let table = TagTable::new("tags".to_string(), client());
    let get = table.get(Arn("arn:aws:iam::123:role/x".to_string()), "env");
    let request = request_of(get);
    assert_eq!(request.table_name, "tags");
    assert_eq!(request.consistent_read, None);
    assert_eq!(
        request.key,
        map_of(&[("resource", s("arn:aws:iam::123:role/x")), ("key", s("env"))])
    );
    assert_eq!(request.key.get("resource"), Some(&s("arn:aws:iam::123:role/x")));
    assert_eq!(request.key.get("key"), Some(&s("env")));
    assert_eq!(request.key.len(), 2);
}

#[test]
fn get_raw_of_a_tag_takes_any_string_keys() {
    let table = TagTable::new("tags".to_string(), client());
    let request = request_of(table.get_raw("arn:r", "env".to_string()));
    assert_eq!(request.key, map_of(&[("resource", s("arn:r")), ("key", s("env"))]));
}

#[test]
fn get_raw_with_a_hash_key_that_fails_holds_the_error() {
    let table = TagTable::new("tags".to_string(), client());
    let error = table.get_raw(NoKey, "env").send().unwrap_err();
    assert_eq!(
        format!("{error:?}"),
        format!(
            "{:?}",
            amo::error::ReadError::from(SerializeError::new("this key has no wire form"))
        )
    );
}

#[test]
fn get_raw_with_a_range_key_that_fails_holds_the_error() {
    let table = TagTable::new("tags".to_string(), client());
    match table.get_raw("arn:r", NoKey).send() {
        Err(error) => assert!(matches!(
            error.kind,
            amo::error::ReadErrorKind::Serialize(inner)
                if inner == SerializeError::new("this key has no wire form")
        )),
        Ok(_) => panic!("the operation should hold the error"),
    }
}

#[test]
fn hash_table_asks_for_its_one_key() {
    let table = Users { client: client() };
    let request = request_of(table.get_raw("u-1"));
    assert_eq!(request.table_name, "users");
    assert_eq!(request.key, map_of(&[("id", s("u-1"))]));
    assert_eq!(request.consistent_read, None);
}

#[test]
fn hash_table_with_a_key_that_fails_holds_the_error() {
    let table = Users { client: client() };
    assert!(matches!(
        table.get_raw(NoKey).send().map(|_| ()),
        Err(error) if matches!(&error.kind, amo::error::ReadErrorKind::Serialize(inner)
            if inner.message() == "this key has no wire form")
    ));
}

#[test]
fn keys_travel_under_the_tags_that_the_table_declares() {
    let table = Samples { client: client() };
    let request = request_of(table.get_raw(Count(5), Digest(vec![1, 2, 3])));
    assert_eq!(request.table_name, "samples");
    assert_eq!(
        request.key,
        map_of(&[
            ("count", AttributeValue::N("5".to_string())),
            ("digest", AttributeValue::B(vec![1, 2, 3])),
        ])
    );
}

#[test]
fn one_attribute_for_both_keys_holds_the_range_key() {
    let table = Odd { client: client() };
    let request = request_of(table.get_raw("hash", "range"));
    assert_eq!(request.key, map_of(&[("k", s("range"))]));
}

#[test]
fn put_holds_the_record_as_a_map() {
    let table = Users { client: client() };
    let put = table.put(User { id: "u-1".to_string() });
    assert_eq!(put.table.name(), "users");
    assert_eq!(put.item, Ok(map_of(&[("id", s("u-1"))])));
    let copy = put.clone();
    assert_eq!(copy.item, put.item);
}

#[test]
fn put_raw_takes_any_record_that_serializes() {
    let table = Users { client: client() };
    let tag = Tag {
        resource: Arn("arn:r".to_string()),
        key: "env".to_string(),
        value: "prod".to_string(),
    };
    let put = table.put_raw(tag);
    assert_eq!(
        put.item,
        Ok(map_of(&[("resource", s("arn:r")), ("key", s("env")), ("value", s("prod"))]))
    );
}

#[test]
fn put_of_a_record_that_fails_holds_the_error() {
    let table = Users { client: client() };
    let put = table.put(User { id: String::new() });
    assert_eq!(put.item, Err(SerializeError::new("a user needs an id")));
}

#[test]
fn all_reads_the_table_itself() {
    let table = Users { client: client() };
    assert_eq!(table.all().table.name(), "users");
    let tags = TagTable::new("tags".to_string(), client());
    assert_eq!(tags.all().table.name(), "tags");
}

#[test]
fn every_operation_goes_through_the_handle_of_its_table() {
    let config = Config::builder()
        .behavior_version(BehaviorVersion::latest())
        .region(Region::new("eu-central-1"))
        .build();
    let table = TagTable::new("tags".to_string(), Client::from_conf(config));
    assert_eq!(table.client().config().region(), Some(&Region::new("eu-central-1")));
    let request = request_of(table.get(Arn("arn:r".to_string()), "env"));
    assert_eq!(request.client.config().region(), Some(&Region::new("eu-central-1")));
    assert_eq!(request.clone().client.config().region(), Some(&Region::new("eu-central-1")));
    let users = Users { client: table.client() };
    let request = request_of(users.get_raw("u-1"));
    assert_eq!(request.client.config().region(), Some(&Region::new("eu-central-1")));
    assert_eq!(table.clone().client().config().region(), Some(&Region::new("eu-central-1")));
}

#[test]
fn a_tag_is_asked_for_by_its_keys_and_decoded_from_the_answer() {
    let table = TagTable::new("tags".to_string(), client());
    let in_flight = table
        .get(Arn("arn:aws:iam::123:role/x".to_string()), "env")
        .send()
        .unwrap();
    assert_eq!(in_flight.request().key.len(), 2);
    assert_eq!(in_flight.request().key.get("resource"), Some(&s("arn:aws:iam::123:role/x")));
    assert_eq!(in_flight.request().key.get("key"), Some(&s("env")));
    let answer = map_of(&[
        ("resource", s("arn:aws:iam::123:role/x")),
        ("key", s("env")),
        ("value", s("prod")),
    ]);
    let reply = amo::operation::GetItemReply {
        item: Some(answer),
        consumed_capacity: None,
        request_id: None,
    };
    let output = in_flight.finish(Ok(reply)).unwrap();
    assert_eq!(
        output.item,
        Some(Tag {
            resource: Arn("arn:aws:iam::123:role/x".to_string()),
            key: "env".to_string(),
            value: "prod".to_string(),
        })
    );
}
