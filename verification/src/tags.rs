//! A table of tags on resources: each item names a resource, a key, and the
//! value that the resource has under that key.
//!
//! The resource is the hash key and the tag's key is the range key, both
//! strings on the wire.

use crate::error::{DeserializeError, DeserializeFailure, SerializeError};
use crate::item;
use crate::item::{
    field_refusal, field_serialized, field_stands_for, required_field, serialize_field,
    FieldResults,
};
use crate::operation::get_item::GetItem;
use crate::operation::{
    is_key_condition, is_operand, key_condition, range_view, raw_key_view, PrimaryQuery,
    SKeyCondition, SKeyConditionBuilder,
};
use crate::table::{HashRangeTable, Table};
use crate::value;
use crate::value::{wire_serialized, Value, S};
use crate::wire::{
    distinct_names, field, has_field, lemma_with_field, lemma_without_field, with_field,
    without_field, AttributeMap, AttributeValue, WireFields, WireValue,
};
use aws_sdk_dynamodb::Client;
use std::sync::Arc;
use vstd::prelude::*;
use vstd::std_specs::convert::IntoSpec;

verus! {

/// The name of a resource.
#[derive(Debug, Clone, PartialEq, Eq, PartialOrd, Ord, Hash)]
pub struct Arn(pub String);

impl value::Serialize for Arn {
    type Type = S;

    open spec fn serialized(&self) -> Result<Seq<char>, Seq<char>> {
        Ok(self.0@)
    }

    fn serialize_raw(&self) -> (result: Result<String, SerializeError>) {
        Ok(self.0.clone())
    }

    fn serialize_owned_raw(self) -> (result: Result<String, SerializeError>) {
        Ok(self.0)
    }
}

impl value::Deserialize for Arn {
    type Type = S;

    open spec fn refusal(raw: Seq<char>) -> Option<DeserializeFailure> {
        None
    }

    open spec fn stands_for(raw: Seq<char>, decoded: Arn) -> bool {
        decoded.0@ == raw
    }

    fn deserialize_owned_raw(raw: String) -> (result: Result<Arn, DeserializeError>) {
        Ok(Arn(raw))
    }
}

/// A tag: the value that a resource has under a key.
#[derive(Debug, Clone, PartialEq, Eq)]
pub struct Tag {
    /// The resource that is tagged.
    pub resource: Arn,
    /// The key of the tag.
    pub key: String,
    /// The value of the tag.
    pub value: String,
}

/// The error with which `fields` is refused as a tag, if it is: that of the
/// first of `resource`, `key` and `value`, in this order, that is missing or
/// is no string.
pub open spec fn tag_refusal(fields: WireFields) -> Option<DeserializeFailure> {
    match field_refusal::<Arn>(fields, "Tag"@, "resource"@) {
        Some(failure) => Some(failure),
        None => match field_refusal::<String>(fields, "Tag"@, "key"@) {
            Some(failure) => Some(failure),
            None => field_refusal::<String>(fields, "Tag"@, "value"@),
        },
    }
}

/// Whether `tag` is the tag that `fields` stands for: each of its three
/// parts is what the field of its name holds.
pub open spec fn is_tag(fields: WireFields, tag: Tag) -> bool {
    &&& field_stands_for::<Arn>(fields, "resource"@, tag.resource)
    &&& field_stands_for::<String>(fields, "key"@, tag.key)
    &&& field_stands_for::<String>(fields, "value"@, tag.value)
}

impl item::Deserialize for Tag {
    open spec fn refusal(fields: WireFields) -> Option<DeserializeFailure> {
        tag_refusal(fields)
    }

    open spec fn stands_for(fields: WireFields, decoded: Tag) -> bool {
        is_tag(fields, decoded)
    }

    fn deserialize_owned_from_map(map: AttributeMap) -> (result: Result<Tag, DeserializeError>) {
        let mut map = map;
        let ghost fields = map@;
        proof {
            use_type_invariant(&map);
            reveal_strlit("resource");
            reveal_strlit("key");
            reveal_strlit("value");
            assert("resource"@.len() == 8 && "key"@.len() == 3 && "value"@.len() == 5);
            let second = without_field(fields, "resource"@);
            lemma_without_field(fields, "resource"@);
            lemma_without_field(second, "key"@);
        }
        let resource = match required_field::<Arn>(&mut map, "Tag", "resource") {
            Ok(resource) => resource,
            Err(error) => {
                return Err(error);
            },
        };
        let key = match required_field::<String>(&mut map, "Tag", "key") {
            Ok(key) => key,
            Err(error) => {
                return Err(error);
            },
        };
        let value = match required_field::<String>(&mut map, "Tag", "value") {
            Ok(value) => value,
            Err(error) => {
                return Err(error);
            },
        };
        Ok(Tag { resource, key, value })
    }
}

impl item::Serialize for Tag {
    open spec fn serialized(&self) -> FieldResults {
        seq![
            field_serialized("resource"@, wire_serialized(&self.resource)),
            field_serialized("key"@, wire_serialized(&self.key)),
            field_serialized("value"@, wire_serialized(&self.value)),
        ]
    }

    fn serialize(&self) -> (results: Vec<Result<(String, AttributeValue), SerializeError>>) {
        let mut results: Vec<Result<(String, AttributeValue), SerializeError>> = Vec::new();
        results.push(serialize_field("resource", &self.resource));
        results.push(serialize_field("key", &self.key));
        results.push(serialize_field("value", &self.value));
        assert(item::results_view(results@) =~= self.serialized());
        results
    }
}

/// The table of tags.
#[derive(Debug)]
pub struct TagTable {
    name: Arc<String>,
    client: Client,
}

impl Clone for TagTable {
    /// A second handle to the same table.
    fn clone(&self) -> (copy: Self)
        ensures
            copy == *self,
    {
        TagTable { name: self.name.clone(), client: self.client.clone() }
    }
}

impl Table for TagTable {
    type Item = Tag;

    closed spec fn spec_name(&self) -> Seq<char> {
        (*self.name)@
    }

    closed spec fn spec_client(&self) -> Client {
        self.client
    }

    fn name(&self) -> (name: &str) {
        self.name.as_str()
    }

    fn client(&self) -> (client: Client) {
        self.client.clone()
    }
}

impl HashRangeTable for TagTable {
    type HashKeyType = <Arn as Value>::Type;

    const HASH_KEY_ATTRIBUTE: &'static str = "resource";

    type RangeKeyType = <String as Value>::Type;

    const RANGE_KEY_ATTRIBUTE: &'static str = "key";
}

/// The table of tags keeps the resource under `resource` as its hash key
/// and the tag's key under `key` as its range key.
pub proof fn law_tag_table_keys()
    ensures
        <TagTable as HashRangeTable>::HASH_KEY_ATTRIBUTE@ == "resource"@,
        <TagTable as HashRangeTable>::RANGE_KEY_ATTRIBUTE@ == "key"@,
{
}

/// The key of a tag as the store is given it.
pub open spec fn tag_key(resource: Arn, key: String) -> WireFields {
    seq![("resource"@, WireValue::S(resource.0@)), ("key"@, WireValue::S(key@))]
}

/// Whether `fields` is the key of some tag: a resource and a key, both
/// strings.
pub open spec fn is_tag_key(fields: WireFields) -> bool {
    &&& fields.len() == 2
    &&& fields[0].0 == "resource"@
    &&& fields[0].1 is S
    &&& fields[1].0 == "key"@
    &&& fields[1].1 is S
}

impl TagTable {
    /// The table called `name`, reached through `client`.
    pub fn new(name: String, client: Client) -> (table: Self)
        ensures
            table.spec_name() == name@,
            table.spec_client() == client,
    {
        TagTable { name: Arc::new(name), client }
    }

    /// The read of the tag that `resource` has under `key`.
    ///
    /// The operation is always ready to be sent: its key holds the resource
    /// and the tag's key as strings, as the conversions of the arguments
    /// gave them.
    pub fn get<R: Into<Arn>, K: Into<String>>(&self, resource: R, key: K) -> (get: GetItem<Self>)
        ensures
            get.prepared() is Ok,
            get.prepared()->Ok_0.client == self.spec_client(),
            get.prepared()->Ok_0.table_name@ == self.spec_name(),
            get.prepared()->Ok_0.consistent_read is None,
            is_tag_key(get.prepared()->Ok_0.key@),
            <R as IntoSpec<Arn>>::obeys_into_spec() && <K as IntoSpec<String>>::obeys_into_spec()
                ==> get.prepared()->Ok_0.key@ == tag_key(resource.into_spec(), key.into_spec()),
    {
        let resource: Arn = resource.into();
        let key: String = key.into();
        proof {
            reveal_strlit("resource");
            reveal_strlit("key");
            let first = seq![("resource"@, WireValue::S(resource.0@))];
            assert("resource"@.len() == 8 && "key"@.len() == 3);
            assert(!has_field(first, "key"@));
            assert(with_field(first, "key"@, WireValue::S(key@)) =~= tag_key(resource, key));
        }
        self.get_raw(resource, key)
    }

    /// The queries on this table.
    pub fn query(&self) -> (query: TagTableQuery<'_>)
        ensures
            query.0 == self,
    {
        TagTableQuery(self)
    }
}

/// The queries on the table of tags.
pub struct TagTableQuery<'a>(pub &'a TagTable);

impl TagTableQuery<'_> {
    /// The tags of one resource.
    pub fn by_resource<R: Into<Arn>>(&self, resource: R) -> (query: TagByResourceQuery<'_>)
        ensures
            query.table == self.0,
            query.resource_key is Ok,
            <R as IntoSpec<Arn>>::obeys_into_spec() ==> query.resource_key->Ok_0@
                == resource.into_spec().0@,
    {
        let resource: Arn = resource.into();
        self.by_resource_raw(resource)
    }

    /// The tags of the resource whose name serializes as `resource_key`
    /// does. A key that fails to serialize does not fail here: the query
    /// holds the error.
    pub fn by_resource_raw(
        &self,
        resource_key: impl value::Serialize<Type = <TagTable as HashRangeTable>::HashKeyType>,
    ) -> (query: TagByResourceQuery<'_>)
        ensures
            query.table == self.0,
            is_operand(value::Serialize::serialized(&resource_key), query.resource_key),
    {
        TagByResourceQuery { table: self.0, resource_key: resource_key.serialize_owned_raw() }
    }
}

/// The tags of one resource: the table, and the raw name of the resource, or
/// the error that kept it from being encoded.
pub struct TagByResourceQuery<'a> {
    /// The table that is read.
    pub table: &'a TagTable,
    /// The raw name of the resource, or why there is none.
    pub resource_key: Result<String, SerializeError>,
}

impl TagByResourceQuery<'_> {
    /// The query for all tags of the resource.
    pub fn all(self) -> (query: PrimaryQuery<TagTable>)
        ensures
            query.table == *self.table,
            is_key_condition(
                key_condition("resource"@, raw_key_view(self.resource_key), None),
                query.condition,
            ),
    {
        PrimaryQuery::by_hash(self.table.clone(), "resource", self.resource_key)
    }

    /// The query for the tags of the resource whose key meets the condition
    /// that `key` makes.
    pub fn matching_key<F: FnOnce(SKeyConditionBuilder<Arn>) -> SKeyCondition>(
        self,
        key: F,
    ) -> (query: PrimaryQuery<Self>)
        requires
            forall|builder: SKeyConditionBuilder<Arn>| call_requires(key, (builder,)),
        ensures
            query.table.table == self.table,
            raw_key_view(query.table.resource_key) == raw_key_view(self.resource_key),
            exists|builder: SKeyConditionBuilder<Arn>, condition: SKeyCondition|
                call_ensures(key, (builder,), condition) && is_key_condition(
                    key_condition(
                        "resource"@,
                        raw_key_view(self.resource_key),
                        Some(range_view("key"@, condition)),
                    ),
                    query.condition,
                ),
    {
        let condition = key(SKeyConditionBuilder::new());
        let resource_key = match &self.resource_key {
            Ok(text) => Ok(text.clone()),
            Err(error) => Err(error.clone()),
        };
        PrimaryQuery::by_hash_and_range(self, "resource", resource_key, "key", condition)
    }
}

/// Whether `name` is one of the fields that a tag declares.
pub open spec fn is_tag_field(name: Seq<char>) -> bool {
    name == "resource"@ || name == "key"@ || name == "value"@
}

/// Whether `fields` has a field called `name` that holds a string.
pub open spec fn has_string_field(fields: WireFields, name: Seq<char>) -> bool {
    match field(fields, name) {
        Some(value) => value is S,
        None => false,
    }
}

/// A tag is decoded as a whole or not at all: the map is refused exactly
/// when one of the three declared fields is missing or is no string, and
/// then no tag stands for it.
pub proof fn law_tag_all_or_nothing(fields: WireFields)
    ensures
        tag_refusal(fields) is None <==> has_string_field(fields, "resource"@) && has_string_field(
            fields,
            "key"@,
        ) && has_string_field(fields, "value"@),
        tag_refusal(fields) is Some ==> forall|tag: Tag| !is_tag(fields, tag),
{
}

/// A map that lacks a declared field is refused as missing exactly that
/// field, provided that the fields declared before it are there and are
/// strings.
pub proof fn law_tag_missing_field(fields: WireFields, name: Seq<char>)
    requires
        is_tag_field(name),
        !has_field(fields, name),
        name != "resource"@ ==> has_string_field(fields, "resource"@),
        name == "value"@ ==> has_string_field(fields, "key"@),
    ensures
        tag_refusal(fields) == Some(
            DeserializeFailure::MissingRequiredField { item_type: "Tag"@, field: name },
        ),
{
    reveal_strlit("resource");
    reveal_strlit("key");
    reveal_strlit("value");
    assert("resource"@.len() == 8 && "key"@.len() == 3 && "value"@.len() == 5);
}

/// Fields that a tag does not declare never make decoding fail, nor change
/// what is decoded: setting one in the map leaves the outcome as it was.
pub proof fn law_tag_ignores_other_fields(fields: WireFields, name: Seq<char>, value: WireValue)
    requires
        distinct_names(fields),
        !is_tag_field(name),
    ensures
        tag_refusal(with_field(fields, name, value)) == tag_refusal(fields),
        forall|tag: Tag| is_tag(with_field(fields, name, value), tag) == is_tag(fields, tag),
{
    lemma_with_field(fields, name, value);
}

} // verus!
