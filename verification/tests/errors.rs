use amo::error::{
    DeserializeError, DeserializeErrorKind, ReadError, ReadErrorKind, SerializeError,
};
use amo::wire::AttributeValue;
use aws_sdk_dynamodb::error::SdkError;
use aws_sdk_dynamodb::operation::get_item::GetItemError;

#[test]
fn missing_required_field_names_the_record_and_the_field() {
    assert_eq!(
        DeserializeError::missing_required_field("Tag", "key"),
        DeserializeError {
            kind: DeserializeErrorKind::MissingRequiredField {
                item_type: "Tag".to_string(),
                field: "key".to_string(),
            },
        }
    );
}

#[test]
fn unexpected_value_type_keeps_the_value() {
    let actual = AttributeValue::L(vec![AttributeValue::N("5".to_string())]);
    assert_eq!(
        DeserializeError::unexpected_value_type("S", actual.clone()),
        DeserializeError {
            kind: DeserializeErrorKind::UnexpectedValueType { expected: "S".to_string(), actual },
        }
    );
}

#[test]
fn invalid_renders_its_reason() {
    assert_eq!(
        DeserializeError::invalid("bad"),
        DeserializeError { kind: DeserializeErrorKind::Invalid { message: "bad".to_string() } }
    );
    assert_eq!(
        DeserializeError::invalid(42),
        DeserializeError { kind: DeserializeErrorKind::Invalid { message: "42".to_string() } }
    );
}

#[test]
fn the_three_deserialize_errors_differ() {
    let missing = DeserializeError::missing_required_field("a", "a");
    let unexpected = DeserializeError::unexpected_value_type("a", AttributeValue::Unknown);
    let invalid = DeserializeError::invalid("a");
    assert_ne!(missing, unexpected);
    assert_ne!(missing, invalid);
    assert_ne!(unexpected, invalid);
}

#[test]
fn serialize_error_says_its_message() {
    let error = SerializeError::new("no wire form");
    assert_eq!(error.message(), "no wire form");
    assert_eq!(error.clone(), error);
    assert_ne!(error, SerializeError::new("another"));
}

#[test]
fn read_error_from_serialize_error() {
    let error = ReadError::from(SerializeError::new("no wire form"));
    assert!(matches!(
        error.kind,
        ReadErrorKind::Serialize(inner) if inner == SerializeError::new("no wire form")
    ));
}

#[test]
fn read_error_from_deserialize_error() {
    let error = ReadError::from(DeserializeError::missing_required_field("Tag", "key"));
    assert!(matches!(
        error.kind,
        ReadErrorKind::Deserialize(inner)
            if inner == DeserializeError::missing_required_field("Tag", "key")
    ));
}

#[test]
fn read_error_from_a_failure_of_the_client() {
    let failure: SdkError<GetItemError> = SdkError::timeout_error("too slow");
    let error = ReadError::from(failure);
    match error.kind {
        ReadErrorKind::Transport(SdkError::TimeoutError(_)) => {}
        other => panic!("the failure was not kept: {other:?}"),
    }
    let failure: SdkError<GetItemError> = SdkError::construction_failure("bad request");
    match ReadError::from(failure).kind {
        ReadErrorKind::Transport(SdkError::ConstructionFailure(_)) => {}
        other => panic!("the failure was not kept: {other:?}"),
    }
}
