use amo::error::{DeserializeError, ReadError, ReadErrorKind, SerializeError};
use amo::operation::{Consistency, GetItem, GetItemOutput, GetItemReply};
use amo::table::HashRangeTable;
use amo::tags::{Arn, Tag, TagTable};
use amo::value;
use amo::value::S;
use amo::wire::{AttributeMap, AttributeValue};
use aws_sdk_dynamodb::config::BehaviorVersion;
use aws_sdk_dynamodb::error::SdkError;
use aws_sdk_dynamodb::operation::get_item::GetItemError;
use aws_sdk_dynamodb::types::ConsumedCapacity;
use aws_sdk_dynamodb::{Client, Config};

fn table() -> TagTable {
    let config = Config::builder().behavior_version(BehaviorVersion::latest()).build();
    TagTable::new("tags".to_string(), Client::from_conf(config))
}

fn s(text: &str) -> AttributeValue {
    AttributeValue::S(text.to_string())
}

fn map_of(entries: &[(&str, AttributeValue)]) -> AttributeMap {
    let mut map = AttributeMap::new();
    for (name, value) in entries {
        map.insert(name.to_string(), value.clone());
    }
    map
}

fn reply_with(item: Option<AttributeMap>) -> GetItemReply {
    GetItemReply { item, consumed_capacity: None, request_id: Some("req-1".to_string()) }
}

/// A store that answers every call with what it was given, and counts.
struct Store {
    calls: u32,
    answer: Option<Result<GetItemReply, SdkError<GetItemError>>>,
}

impl Store {
    fn answering(answer: Result<GetItemReply, SdkError<GetItemError>>) -> Self {
        Store { calls: 0, answer: Some(answer) }
    }

    fn run(&mut self, get: GetItem<TagTable>) -> Result<GetItemOutput<Tag>, ReadError> {
        let in_flight = get.send()?;
        self.calls += 1;
        let answer = self.answer.take().expect("the store is called once");
        in_flight.finish(answer)
    }
}

/// A key that has no wire form.
struct NoKey;

impl value::Serialize for NoKey {
    type Type = S;

    fn serialize_raw(&self) -> Result<String, SerializeError> {
        Err(SerializeError::new("this key has no wire form"))
    }
}

#[test]
fn send_of_an_operation_that_holds_an_error_calls_nothing() {
    let mut store = Store::answering(Ok(reply_with(None)));
    let result = store.run(table().get_raw(NoKey, "env"));
    assert_eq!(store.calls, 0);
    match result {
        Err(ReadError { kind: ReadErrorKind::Serialize(error) }) => {
            assert_eq!(error, SerializeError::new("this key has no wire form"));
        }
        other => panic!("expected the error of the key, got {other:?}"),
    }
}

#[test]
fn send_of_a_ready_operation_calls_once() {
    let mut store = Store::answering(Ok(reply_with(None)));
    let result = store.run(table().get(Arn("arn:r".to_string()), "env"));
    assert_eq!(store.calls, 1);
    assert!(result.is_ok());
}

#[test]
fn an_item_that_is_not_there_is_no_error() {
    let mut store = Store::answering(Ok(reply_with(None)));
    let output = store.run(table().get(Arn("arn:r".to_string()), "env")).unwrap();
    assert_eq!(output.item, None);
    assert_eq!(output.request_id, "req-1");
    assert_eq!(output.consumed_capacity, None);
}

#[test]
fn an_item_that_is_there_is_decoded() {
    let item = map_of(&[
        ("resource", s("arn:aws:iam::123:role/x")),
        ("key", s("env")),
        ("value", s("prod")),
    ]);
    let mut store = Store::answering(Ok(reply_with(Some(item))));
    let get = table().get(Arn("arn:aws:iam::123:role/x".to_string()), "env");
    let output = store.run(get).unwrap();
    assert_eq!(
        output.item,
        Some(Tag {
            resource: Arn("arn:aws:iam::123:role/x".to_string()),
            key: "env".to_string(),
            value: "prod".to_string(),
        })
    );
}

#[test]
fn an_item_that_does_not_decode_fails_the_read() {
    let item = map_of(&[("resource", s("arn:r")), ("key", s("env"))]);
    let mut store = Store::answering(Ok(reply_with(Some(item))));
    let result = store.run(table().get(Arn("arn:r".to_string()), "env"));
    assert_eq!(store.calls, 1);
    match result {
        Err(ReadError { kind: ReadErrorKind::Deserialize(error) }) => {
            assert_eq!(error, DeserializeError::missing_required_field("Tag", "value"));
        }
        other => panic!("expected the error of the decoding, got {other:?}"),
    }
}

#[test]
fn an_item_of_a_wrong_type_fails_the_read() {
    let item = map_of(&[("resource", AttributeValue::N("5".to_string()))]);
    let mut store = Store::answering(Ok(reply_with(Some(item))));
    match store.run(table().get(Arn("arn:r".to_string()), "env")) {
        Err(ReadError { kind: ReadErrorKind::Deserialize(error) }) => {
            assert_eq!(
                error,
                DeserializeError::unexpected_value_type("S", AttributeValue::N("5".to_string()))
            );
        }
        other => panic!("expected the error of the decoding, got {other:?}"),
    }
}

#[test]
fn a_failed_call_fails_the_read_with_the_failure_as_it_came() {
    let mut store = Store::answering(Err(SdkError::timeout_error("too slow")));
    let result = store.run(table().get(Arn("arn:r".to_string()), "env"));
    assert_eq!(store.calls, 1);
    match result {
        Err(ReadError { kind: ReadErrorKind::Transport(SdkError::TimeoutError(_)) }) => {}
        other => panic!("expected the failure of the call, got {other:?}"),
    }
}

#[test]
fn a_reply_without_a_request_id_gets_a_fixed_one() {
    let reply = GetItemReply { item: None, consumed_capacity: None, request_id: None };
    let mut store = Store::answering(Ok(reply));
    let output = store.run(table().get(Arn("arn:r".to_string()), "env")).unwrap();
    assert_eq!(output.request_id, "<unknown request ID>");
}

#[test]
fn what_the_call_consumed_is_passed_on() {
    let consumed = ConsumedCapacity::builder().table_name("tags").capacity_units(0.5).build();
    let reply = GetItemReply {
        item: None,
        consumed_capacity: Some(consumed.clone()),
        request_id: Some("req-2".to_string()),
    };
    let mut store = Store::answering(Ok(reply));
    let output = store.run(table().get(Arn("arn:r".to_string()), "env")).unwrap();
    assert_eq!(output.consumed_capacity, Some(consumed));
    assert_eq!(output.request_id, "req-2");
}

#[test]
fn the_request_on_its_way_is_the_one_that_was_built() {
    let get = table().get(Arn("arn:r".to_string()), "env");
    let in_flight = get.send().unwrap();
    assert_eq!(in_flight.request().table_name, "tags");
    assert_eq!(in_flight.request().key, map_of(&[("resource", s("arn:r")), ("key", s("env"))]));
    assert_eq!(in_flight.request().consistent_read, None);
}

#[test]
fn consistency_is_chosen_per_operation() {
    let strong = table().get(Arn("arn:r".to_string()), "env").consistency(Consistency::Strong);
    let request = strong.send().unwrap().request().clone();
    assert_eq!(request.consistent_read, Some(true));
    assert_eq!(request.table_name, "tags");
    assert_eq!(request.key, map_of(&[("resource", s("arn:r")), ("key", s("env"))]));
    let eventual = table().get(Arn("arn:r".to_string()), "env").consistency(Consistency::Eventual);
    assert_eq!(eventual.send().unwrap().request().consistent_read, Some(false));
}

#[test]
fn consistency_leaves_a_held_error_as_it_is() {
    let get = table().get_raw(NoKey, "env").consistency(Consistency::Strong);
    match get.send() {
        Err(ReadError { kind: ReadErrorKind::Serialize(error) }) => {
            assert_eq!(error.message(), "this key has no wire form");
        }
        other => panic!("expected the error of the key, got {:?}", other.map(|_| ())),
    }
}

#[test]
fn a_copy_of_an_operation_sends_the_same_request() {
    let get = table().get(Arn("arn:r".to_string()), "env");
    let copy = get.clone();
    let first = get.send().unwrap().request().clone();
    let second = copy.send().unwrap().request().clone();
    assert_eq!(first.table_name, second.table_name);
    assert_eq!(first.key, second.key);
    assert_eq!(first.consistent_read, second.consistent_read);
    let failed = table().get_raw(NoKey, "env");
    assert!(failed.clone().send().is_err());
}
