//! What can go wrong between a domain value and the wire.

use crate::wire::{AttributeValue, WireValue};
use aws_sdk_dynamodb::error::SdkError;
use aws_sdk_dynamodb::operation::get_item::GetItemError;
use aws_smithy_runtime_api::http::Response;
use aws_smithy_types::body::SdkBody;
use std::fmt::Display;
use vstd::prelude::*;
use vstd::std_specs::convert::FromSpecImpl;
use vstd::string::to_string_from_display_ensures;

verus! {

/// The failure type of the store's client, `aws_smithy_runtime_api`'s
/// `SdkError`. Nothing is claimed of it: such a value is only carried.
#[verifier::external_type_specification]
#[verifier::external_body]
#[verifier::reject_recursive_types(E)]
#[verifier::reject_recursive_types(R)]
pub struct ExSdkError<E, R>(SdkError<E, R>);

/// The service's own error for reading one item, `aws_sdk_dynamodb`'s
/// `GetItemError`. Nothing is claimed of it: such a value is only carried.
#[verifier::external_type_specification]
#[verifier::external_body]
pub struct ExGetItemError(GetItemError);

/// The raw reply inside a client failure, `aws_smithy_runtime_api`'s
/// `Response`. Nothing is claimed of it: such a value is only carried.
#[verifier::external_type_specification]
#[verifier::external_body]
#[verifier::reject_recursive_types(T)]
pub struct ExResponse<T>(Response<T>);

/// The body of a raw reply, `aws_smithy_types`'s `SdkBody`. Nothing is
/// claimed of it: such a value is only carried.
#[verifier::external_type_specification]
#[verifier::external_body]
pub struct ExSdkBody(SdkBody);

/// Why a wire value could not be turned into a domain value.
#[derive(Debug, Clone, PartialEq)]
pub struct DeserializeError {
    /// Which failure this is, with what it concerns.
    pub kind: DeserializeErrorKind,
}

/// The failures that decoding knows.
#[derive(Debug, Clone, PartialEq)]
pub enum DeserializeErrorKind {
    /// A record of type `item_type` was given no field called `field`.
    MissingRequiredField { item_type: String, field: String },
    /// A value did not carry the tag called `expected`; `actual` is the value
    /// as it came.
    UnexpectedValueType { expected: String, actual: AttributeValue },
    /// The value carried the right tag, but the domain type refused what it
    /// held.
    Invalid { message: String },
}

/// The mathematical content of a [`DeserializeError`].
pub enum DeserializeFailure {
    MissingRequiredField { item_type: Seq<char>, field: Seq<char> },
    UnexpectedValueType { expected: Seq<char>, actual: WireValue },
    Invalid { message: Seq<char> },
}

impl View for DeserializeError {
    type V = DeserializeFailure;

    open spec fn view(&self) -> DeserializeFailure {
        match self.kind {
            DeserializeErrorKind::MissingRequiredField { item_type, field } => {
                DeserializeFailure::MissingRequiredField { item_type: item_type@, field: field@ }
            },
            DeserializeErrorKind::UnexpectedValueType { expected, actual } => {
                DeserializeFailure::UnexpectedValueType { expected: expected@, actual: actual@ }
            },
            DeserializeErrorKind::Invalid { message } => DeserializeFailure::Invalid {
                message: message@,
            },
        }
    }
}

impl DeserializeError {
    /// The error for a record of type `item_type` that lacks `field`.
    pub fn missing_required_field(item_type: &str, field: &str) -> (error: Self)
        ensures
            error@ == (DeserializeFailure::MissingRequiredField {
                item_type: item_type@,
                field: field@,
            }),
    {
        DeserializeError {
            kind: DeserializeErrorKind::MissingRequiredField {
                item_type: item_type.to_owned(),
                field: field.to_owned(),
            },
        }
    }

    /// The error for a value that should carry the tag `expected` and does
    /// not. The value is kept as it is.
    pub fn unexpected_value_type(expected: &str, actual: AttributeValue) -> (error: Self)
        ensures
            error@ == (DeserializeFailure::UnexpectedValueType {
                expected: expected@,
                actual: actual@,
            }),
            error.kind is UnexpectedValueType,
            error.kind->actual == actual,
    {
        DeserializeError {
            kind: DeserializeErrorKind::UnexpectedValueType { expected: expected.to_owned(), actual },
        }
    }

    /// The error for a value that the domain type refuses, with `reason`
    /// rendered as its message.
    pub fn invalid(reason: impl Display) -> (error: DeserializeError)
        ensures
            error.kind is Invalid,
            to_string_from_display_ensures(&reason, error.kind->message),
    {
        DeserializeError { kind: DeserializeErrorKind::Invalid { message: reason.to_string() } }
    }
}

/// Why a domain value could not be turned into the raw form of its tag.
#[derive(Debug, PartialEq, Eq)]
pub struct SerializeError {
    message: String,
}

impl View for SerializeError {
    type V = Seq<char>;

    closed spec fn view(&self) -> Seq<char> {
        self.message@
    }
}

impl Clone for SerializeError {
    /// An error that says the same.
    fn clone(&self) -> (copy: Self)
        ensures
            copy@ == self@,
    {
        SerializeError { message: self.message.clone() }
    }
}

impl SerializeError {
    /// An error that says `message`.
    pub fn new(message: &str) -> (error: Self)
        ensures
            error@ == message@,
    {
        SerializeError { message: message.to_owned() }
    }

    /// What the error says.
    pub fn message(&self) -> (message: &str)
        ensures
            message@ == self@,
    {
        self.message.as_str()
    }
}

/// Why a read from the store gave no entity.
#[derive(Debug)]
pub struct ReadError {
    /// Which failure this is, with what it concerns.
    pub kind: ReadErrorKind,
}

/// The failures that a read knows.
#[derive(Debug)]
pub enum ReadErrorKind {
    /// The call to the store failed; the client's failure is kept as it came.
    Transport(SdkError<GetItemError, Response<SdkBody>>),
    /// The store answered, and the answer could not be decoded.
    Deserialize(DeserializeError),
    /// The key could not be encoded, so that no call was made.
    Serialize(SerializeError),
}

impl From<SdkError<GetItemError, Response<SdkBody>>> for ReadError {
    fn from(value: SdkError<GetItemError, Response<SdkBody>>) -> (error: Self) {
        ReadError { kind: ReadErrorKind::Transport(value) }
    }
}

impl FromSpecImpl<SdkError<GetItemError, Response<SdkBody>>> for ReadError {
    open spec fn obeys_from_spec() -> bool {
        true
    }

    open spec fn from_spec(value: SdkError<GetItemError, Response<SdkBody>>) -> Self {
        ReadError { kind: ReadErrorKind::Transport(value) }
    }
}

impl From<DeserializeError> for ReadError {
    fn from(value: DeserializeError) -> (error: Self) {
        ReadError { kind: ReadErrorKind::Deserialize(value) }
    }
}

impl FromSpecImpl<DeserializeError> for ReadError {
    open spec fn obeys_from_spec() -> bool {
        true
    }

    open spec fn from_spec(value: DeserializeError) -> Self {
        ReadError { kind: ReadErrorKind::Deserialize(value) }
    }
}

impl From<SerializeError> for ReadError {
    fn from(value: SerializeError) -> (error: Self) {
        ReadError { kind: ReadErrorKind::Serialize(value) }
    }
}

impl FromSpecImpl<SerializeError> for ReadError {
    open spec fn obeys_from_spec() -> bool {
        true
    }

    open spec fn from_spec(value: SerializeError) -> Self {
        ReadError { kind: ReadErrorKind::Serialize(value) }
    }
}

} // verus!
