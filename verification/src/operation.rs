//! The operations that tables hand out, and the key conditions of queries.

pub mod get_item;

pub use get_item::{Consistency, GetItem, GetItemOutput, GetItemReply, GetItemRequest, InFlightGetItem};

use crate::error::SerializeError;
use crate::value::{Serialize, Value, S};
use crate::wire::{AttributeValue, WireValue};
use std::marker::PhantomData;
use vstd::prelude::*;

verus! {

/// How a string key is compared with the operand of a condition.
#[derive(Debug, Clone, Copy, PartialEq, Eq)]
pub enum SKeyOperator {
    /// The key is the operand.
    Equals,
    /// The key begins with the operand.
    StartsWith,
}

/// Makes conditions on a string key whose values are of type `T`.
pub struct SKeyConditionBuilder<T> {
    _value: PhantomData<T>,
}

/// A condition on a string key: the comparison, and the raw text to compare
/// with, or the error that kept the operand from being encoded.
#[derive(Debug)]
pub struct SKeyCondition {
    /// The comparison.
    pub operator: SKeyOperator,
    /// The raw text of the operand, or why there is none.
    pub operand: Result<String, SerializeError>,
}

/// Whether `operand` is what serializing gave: the raw text, or the error
/// with its message.
pub open spec fn is_operand(
    serialized: Result<Seq<char>, Seq<char>>,
    operand: Result<String, SerializeError>,
) -> bool {
    match serialized {
        Ok(text) => operand is Ok && operand->Ok_0@ == text,
        Err(message) => operand is Err && operand->Err_0@ == message,
    }
}

impl<T: Value<Type = S>> SKeyConditionBuilder<T> {
    /// A builder of conditions.
    pub fn new() -> (builder: Self) {
        SKeyConditionBuilder { _value: PhantomData }
    }

    /// The condition that the key is `value`. A value that fails to
    /// serialize does not fail here: the condition holds the error.
    pub fn equals(self, value: T) -> (condition: SKeyCondition)
        ensures
            condition.operator == SKeyOperator::Equals,
            is_operand(Serialize::serialized(&value), condition.operand),
    {
        SKeyCondition { operator: SKeyOperator::Equals, operand: value.serialize_owned_raw() }
    }

    /// The condition that the key begins with `value`. A value that fails to
    /// serialize does not fail here: the condition holds the error.
    pub fn starts_with(self, value: T) -> (condition: SKeyCondition)
        ensures
            condition.operator == SKeyOperator::StartsWith,
            is_operand(Serialize::serialized(&value), condition.operand),
    {
        SKeyCondition { operator: SKeyOperator::StartsWith, operand: value.serialize_owned_raw() }
    }
}

/// A condition on the range key of a query, as the store is given it.
#[derive(Debug)]
pub struct RangeCondition {
    /// The attribute that holds the range key.
    pub attribute: String,
    /// The comparison.
    pub operator: SKeyOperator,
    /// The operand, under the tag of the range key.
    pub operand: AttributeValue,
}

/// The key condition of a query, as the store is given it: the hash key is
/// the given value, and the range key, if anything is asked of it, meets the
/// range condition.
#[derive(Debug)]
pub struct KeyCondition {
    /// The attribute that holds the hash key.
    pub hash_attribute: String,
    /// The hash key, under its tag.
    pub hash_value: AttributeValue,
    /// What is asked of the range key, if anything.
    pub range: Option<RangeCondition>,
}

/// The mathematical content of a [`KeyCondition`].
pub struct KeyConditionView {
    pub hash_attribute: Seq<char>,
    pub hash_value: WireValue,
    pub range: Option<(Seq<char>, SKeyOperator, WireValue)>,
}

impl View for KeyCondition {
    type V = KeyConditionView;

    open spec fn view(&self) -> KeyConditionView {
        KeyConditionView {
            hash_attribute: self.hash_attribute@,
            hash_value: self.hash_value@,
            range: match self.range {
                Some(range) => Some((range.attribute@, range.operator, range.operand@)),
                None => None,
            },
        }
    }
}

/// A query on the primary index of a table: the source `T` that it reads,
/// with the key condition, or the error that kept a key from being encoded.
#[derive(Debug)]
pub struct PrimaryQuery<T> {
    /// What the query reads.
    pub table: T,
    /// The key condition, or why there is none.
    pub condition: Result<KeyCondition, SerializeError>,
}

/// The key condition that a string hash key and a condition on a string
/// range key make, or the message of the error that one of them holds; the
/// error of the hash key comes first.
pub open spec fn key_condition(
    hash_attribute: Seq<char>,
    hash: Result<Seq<char>, Seq<char>>,
    range: Option<(Seq<char>, SKeyOperator, Result<Seq<char>, Seq<char>>)>,
) -> Result<KeyConditionView, Seq<char>> {
    match hash {
        Err(message) => Err(message),
        Ok(hash_text) => match range {
            None => Ok(
                KeyConditionView {
                    hash_attribute,
                    hash_value: WireValue::S(hash_text),
                    range: None,
                },
            ),
            Some((attribute, operator, operand)) => match operand {
                Err(message) => Err(message),
                Ok(text) => Ok(
                    KeyConditionView {
                        hash_attribute,
                        hash_value: WireValue::S(hash_text),
                        range: Some((attribute, operator, WireValue::S(text))),
                    },
                ),
            },
        },
    }
}

/// The model of a raw key as a query is handed it.
pub open spec fn raw_key_view(key: Result<String, SerializeError>) -> Result<Seq<char>, Seq<char>> {
    match key {
        Ok(text) => Ok(text@),
        Err(error) => Err(error@),
    }
}

/// The model of a condition on the range key under `attribute`.
pub open spec fn range_view(attribute: Seq<char>, condition: SKeyCondition) -> (
    Seq<char>,
    SKeyOperator,
    Result<Seq<char>, Seq<char>>,
) {
    (attribute, condition.operator, raw_key_view(condition.operand))
}

/// Whether `condition` is the key condition, or holds the error, that
/// `expected` says.
pub open spec fn is_key_condition(
    expected: Result<KeyConditionView, Seq<char>>,
    condition: Result<KeyCondition, SerializeError>,
) -> bool {
    match expected {
        Ok(view) => condition is Ok && condition->Ok_0@ == view,
        Err(message) => condition is Err && condition->Err_0@ == message,
    }
}

impl<T> PrimaryQuery<T> {
    /// The query for all items of `table` whose hash key, a string under
    /// `hash_attribute`, is `hash`.
    pub fn by_hash(table: T, hash_attribute: &str, hash: Result<String, SerializeError>) -> (query:
        Self)
        ensures
            query.table == table,
            is_key_condition(
                key_condition(hash_attribute@, raw_key_view(hash), None),
                query.condition,
            ),
    {
        let condition = match hash {
            Ok(text) => Ok(
                KeyCondition {
                    hash_attribute: hash_attribute.to_owned(),
                    hash_value: AttributeValue::S(text),
                    range: None,
                },
            ),
            Err(error) => Err(error),
        };
        PrimaryQuery { table, condition }
    }

    /// The query for the items of `table` whose hash key is `hash` and whose
    /// range key, a string under `range_attribute`, meets `range`.
    pub fn by_hash_and_range(
        table: T,
        hash_attribute: &str,
        hash: Result<String, SerializeError>,
        range_attribute: &str,
        range: SKeyCondition,
    ) -> (query: Self)
        ensures
            query.table == table,
            is_key_condition(
                key_condition(
                    hash_attribute@,
                    raw_key_view(hash),
                    Some(range_view(range_attribute@, range)),
                ),
                query.condition,
            ),
    {
        let condition = match hash {
            Ok(text) => match range.operand {
                Ok(operand) => Ok(
                    KeyCondition {
                        hash_attribute: hash_attribute.to_owned(),
                        hash_value: AttributeValue::S(text),
                        range: Some(
                            RangeCondition {
                                attribute: range_attribute.to_owned(),
                                operator: range.operator,
                                operand: AttributeValue::S(operand),
                            },
                        ),
                    },
                ),
                Err(error) => Err(error),
            },
            Err(error) => Err(error),
        };
        PrimaryQuery { table, condition }
    }
}

} // verus!
