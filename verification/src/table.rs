//! Tables: the name, the handle to the store and the record type, and for
//! keyed tables the attribute and wire type of each key.

use crate::error::SerializeError;
use crate::item;
use crate::item::collected;
use crate::operation::get_item::{GetItem, GetItemRequest};
use crate::value;
use crate::value::{wire_serialized, KeyType};
use crate::wire::{with_field, AttributeMap, WireFields, WireValue};
use aws_sdk_dynamodb::Client;
use vstd::pervasive::cloned;
use vstd::prelude::*;

verus! {

/// A table of the store: its name, the handle through which it is reached,
/// and the type of its records.
pub trait Table: Send + Sync + Sized + Clone {
    /// The type of the table's records.
    type Item;

    /// The table's name.
    ///
    /// A table type states this for itself; where it does not, nothing is
    /// known of the name.
    open spec fn spec_name(&self) -> Seq<char> {
        arbitrary()
    }

    /// The table's handle to the store.
    ///
    /// A table type states this for itself; where it does not, nothing is
    /// known of the handle.
    open spec fn spec_client(&self) -> Client {
        arbitrary()
    }

    /// The table's name.
    fn name(&self) -> (name: &str)
        ensures
            name@ == self.spec_name(),
    ;

    /// A handle to the store, the same for every operation on this table.
    fn client(&self) -> (client: Client)
        ensures
            client == self.spec_client(),
    ;

    /// The read of all records of the table.
    fn all(&self) -> (scan: Scan<Self>) where Self::Item: item::Deserialize
        ensures
            cloned(*self, scan.table),
    {
        Scan { table: self.clone() }
    }

    /// The write of one record of the table's type.
    fn put(&self, item: Self::Item) -> (put: PutItem<Self>) where Self::Item: item::Serialize
        ensures
            cloned(*self, put.table),
            match put.item {
                Ok(map) => collected(item::Serialize::serialized(&item)) == Ok::<_, Seq<char>>(map@),
                Err(error) => collected(item::Serialize::serialized(&item)) == Err::<WireFields, _>(
                    error@,
                ),
            },
    {
        self.put_raw(item)
    }

    /// The write of one record of any type that serializes. A record that
    /// fails to serialize does not fail here: the operation holds the error.
    fn put_raw(&self, item: impl item::Serialize) -> (put: PutItem<Self>)
        ensures
            cloned(*self, put.table),
            match put.item {
                Ok(map) => collected(item.serialized()) == Ok::<_, Seq<char>>(map@),
                Err(error) => collected(item.serialized()) == Err::<WireFields, _>(error@),
            },
    {
        PutItem { table: self.clone(), item: item.serialize_owned_to_map() }
    }
}

/// The key of an item as the store is given it, or the message of the error
/// that kept it from being encoded: the hash key under its attribute.
pub open spec fn hash_key(attribute: Seq<char>, hash: Result<WireValue, Seq<char>>) -> Result<
    WireFields,
    Seq<char>,
> {
    match hash {
        Ok(value) => Ok(seq![(attribute, value)]),
        Err(message) => Err(message),
    }
}

/// The key of an item as the store is given it, or the message of the error
/// that kept it from being encoded: hash key and range key, each under its
/// attribute. The hash key is encoded first, and its error comes first.
pub open spec fn hash_range_key(
    hash_attribute: Seq<char>,
    hash: Result<WireValue, Seq<char>>,
    range_attribute: Seq<char>,
    range: Result<WireValue, Seq<char>>,
) -> Result<WireFields, Seq<char>> {
    match hash {
        Ok(hash_value) => match range {
            Ok(range_value) => Ok(
                with_field(seq![(hash_attribute, hash_value)], range_attribute, range_value),
            ),
            Err(message) => Err(message),
        },
        Err(message) => Err(message),
    }
}

/// Whether `prepared` is the read of the item with key `key` from `table`:
/// the request for it where the key was encoded, the error where it was not.
pub open spec fn reads_key<T: Table>(
    table: &T,
    key: Result<WireFields, Seq<char>>,
    prepared: Result<GetItemRequest, SerializeError>,
) -> bool {
    match key {
        Ok(fields) => {
            &&& prepared is Ok
            &&& prepared->Ok_0.client == table.spec_client()
            &&& prepared->Ok_0.table_name@ == table.spec_name()
            &&& prepared->Ok_0.key@ == fields
            &&& prepared->Ok_0.consistent_read is None
        },
        Err(message) => prepared is Err && prepared->Err_0@ == message,
    }
}

/// A table whose items are found by one key, the hash key.
pub trait HashTable: Table {
    /// The wire type of the hash key.
    type HashKeyType: KeyType;

    /// The attribute that holds the hash key.
    const HASH_KEY_ATTRIBUTE: &'static str;

    /// The read of the item with the given hash key. A key that fails to
    /// serialize does not fail here: the operation holds the error.
    fn get_raw(&self, hash: impl value::Serialize<Type = Self::HashKeyType>) -> (get: GetItem<
        Self,
    >) where Self::Item: item::Deserialize
        ensures
            reads_key(
                self,
                hash_key(Self::HASH_KEY_ATTRIBUTE@, wire_serialized(&hash)),
                get.prepared(),
            ),
    {
        let request = match hash.serialize_owned() {
            Ok(hash_value) => {
                let mut key = AttributeMap::new();
                key.insert(Self::HASH_KEY_ATTRIBUTE.to_owned(), hash_value);
                Ok(
                    GetItemRequest {
                        client: self.client(),
                        table_name: self.name().to_owned(),
                        key,
                        consistent_read: None,
                    },
                )
            },
            Err(error) => Err(error),
        };
        GetItem::new(request)
    }
}

/// A table whose items are found by two keys, the hash key and the range key.
pub trait HashRangeTable: Table {
    /// The wire type of the hash key.
    type HashKeyType: KeyType;

    /// The attribute that holds the hash key.
    const HASH_KEY_ATTRIBUTE: &'static str;

    /// The wire type of the range key.
    type RangeKeyType: KeyType;

    /// The attribute that holds the range key.
    const RANGE_KEY_ATTRIBUTE: &'static str;

    /// The read of the item with the given keys. A key that fails to
    /// serialize does not fail here: the operation holds the error, that of
    /// the hash key if both fail.
    fn get_raw(
        &self,
        hash: impl value::Serialize<Type = Self::HashKeyType>,
        range: impl value::Serialize<Type = Self::RangeKeyType>,
    ) -> (get: GetItem<Self>) where Self::Item: item::Deserialize
        ensures
            reads_key(
                self,
                hash_range_key(
                    Self::HASH_KEY_ATTRIBUTE@,
                    wire_serialized(&hash),
                    Self::RANGE_KEY_ATTRIBUTE@,
                    wire_serialized(&range),
                ),
                get.prepared(),
            ),
    {
        let request = match hash.serialize_owned() {
            Ok(hash_value) => match range.serialize_owned() {
                Ok(range_value) => {
                    let mut key = AttributeMap::new();
                    key.insert(Self::HASH_KEY_ATTRIBUTE.to_owned(), hash_value);
                    key.insert(Self::RANGE_KEY_ATTRIBUTE.to_owned(), range_value);
                    Ok(
                        GetItemRequest {
                            client: self.client(),
                            table_name: self.name().to_owned(),
                            key,
                            consistent_read: None,
                        },
                    )
                },
                Err(error) => Err(error),
            },
            Err(error) => Err(error),
        };
        GetItem::new(request)
    }
}

/// The read of all records of a table.
#[derive(Debug, Clone)]
pub struct Scan<T> {
    /// The table that is read.
    pub table: T,
}

/// The write of one record to a table.
#[derive(Debug)]
pub struct PutItem<T> {
    /// The table that is written to.
    pub table: T,
    /// The record as a map, or the error that kept it from being encoded.
    pub item: Result<AttributeMap, SerializeError>,
}

impl<T: Clone> Clone for PutItem<T> {
    /// A second operation for the same write.
    fn clone(&self) -> (copy: Self)
        ensures
            cloned(self.table, copy.table),
            match self.item {
                Ok(map) => copy.item is Ok && copy.item->Ok_0@ == map@,
                Err(error) => copy.item is Err && copy.item->Err_0@ == error@,
            },
    {
        let item = match &self.item {
            Ok(map) => Ok(map.clone()),
            Err(error) => Err(error.clone()),
        };
        Self { table: self.table.clone(), item }
    }
}

} // verus!
