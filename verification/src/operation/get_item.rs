//! Reading one item by its key.
//!
//! An operation is built from a table and typed keys, and sent once. Sending
//! is a step of its own: it either fails with the error that building
//! captured, or hands out the request for the one call to the store. What
//! the store answered is then turned into the typed result.

use crate::error::{ReadError, ReadErrorKind, SerializeError};
use crate::item;
use crate::table::Table;
use crate::wire::AttributeMap;
use aws_sdk_dynamodb::error::SdkError;
use aws_sdk_dynamodb::operation::get_item::GetItemError;
use aws_sdk_dynamodb::types::ConsumedCapacity;
use aws_sdk_dynamodb::Client;
use aws_smithy_runtime_api::http::Response;
use aws_smithy_types::body::SdkBody;
use std::marker::PhantomData;
use vstd::prelude::*;

verus! {

/// The handle through which the store is called, `aws_sdk_dynamodb`'s
/// `Client`. Nothing is claimed of what it holds: a handle is only carried.
#[verifier::external_type_specification]
#[verifier::external_body]
pub struct ExClient(Client);

/// The store's account of what a call consumed, `aws_sdk_dynamodb`'s
/// `ConsumedCapacity`. Nothing is claimed of it: such a value is only carried.
#[verifier::external_type_specification]
#[verifier::external_body]
pub struct ExConsumedCapacity(ConsumedCapacity);

/// `Client`'s `clone`, which the crate derives for a struct whose one field
/// is a shared pointer to the client's state: the copy is a handle to that
/// same state, and so equal to the handle it was made from.
pub assume_specification[ <Client as Clone>::clone ](client: &Client) -> (copy: Client)
    ensures
        copy == *client,
;

/// How fresh a read has to be.
#[derive(Debug, Clone, Copy, PartialEq, Eq, Hash)]
pub enum Consistency {
    /// The read may miss a write that has only just been made.
    Eventual,
    /// The read reflects every write that succeeded before it.
    Strong,
}

/// What the store is asked in order to read one item.
#[derive(Debug)]
pub struct GetItemRequest {
    /// The handle through which the call is to be made.
    pub client: Client,
    /// The name of the table.
    pub table_name: String,
    /// The key attributes of the item, each under the table's name for it.
    pub key: AttributeMap,
    /// Whether the read has to be strongly consistent, where that was chosen.
    pub consistent_read: Option<bool>,
}

/// What the store answered to a [`GetItemRequest`].
#[derive(Debug, Clone)]
pub struct GetItemReply {
    /// The item's fields, if there is an item under the key.
    pub item: Option<AttributeMap>,
    /// What the call consumed, if the store says so.
    pub consumed_capacity: Option<ConsumedCapacity>,
    /// The store's name for this call, if it gave one.
    pub request_id: Option<String>,
}

/// The request ID that is reported: the store's, or a fixed text where the
/// store gave none.
pub open spec fn request_id_or_unknown(request_id: Option<String>) -> Seq<char> {
    match request_id {
        Some(id) => id@,
        None => "<unknown request ID>"@,
    }
}

/// The read of one item of table `T`, ready to be sent, or holding the error
/// that kept its key from being encoded.
#[derive(Debug)]
pub struct GetItem<T> {
    request: Result<GetItemRequest, SerializeError>,
    _table: PhantomData<T>,
}

/// A read whose request is on its way: the one call has to be made with
/// [`InFlightGetItem::request`], and its outcome given to
/// [`InFlightGetItem::finish`].
#[derive(Debug)]
pub struct InFlightGetItem<T> {
    request: GetItemRequest,
    _table: PhantomData<T>,
}

/// The result of reading one item.
#[derive(Debug, Clone)]
#[non_exhaustive]
pub struct GetItemOutput<I> {
    /// The item, if there is one under the key.
    pub item: Option<I>,
    /// What the call consumed, if the store says so.
    pub consumed_capacity: Option<ConsumedCapacity>,
    /// The store's name for this call.
    pub request_id: String,
}

impl GetItemRequest {
    /// Whether `other` asks the same of the store: through the same handle,
    /// of the same table, for the same key, with the same freshness.
    pub open spec fn same_as(self, other: GetItemRequest) -> bool {
        &&& self.client == other.client
        &&& self.table_name@ == other.table_name@
        &&& self.key@ == other.key@
        &&& self.consistent_read == other.consistent_read
    }
}

impl Clone for GetItemRequest {
    /// A request that asks the same.
    fn clone(&self) -> (copy: Self)
        ensures
            copy.same_as(*self),
    {
        GetItemRequest {
            client: self.client.clone(),
            table_name: self.table_name.clone(),
            key: self.key.clone(),
            consistent_read: self.consistent_read,
        }
    }
}

impl<T> GetItem<T> {
    /// The request that sending will hand out, or the error that it will
    /// fail with.
    pub closed spec fn prepared(self) -> Result<GetItemRequest, SerializeError> {
        self.request
    }
}

impl<T> Clone for GetItem<T> {
    /// A second operation for the same read.
    fn clone(&self) -> (copy: Self)
        ensures
            match self.prepared() {
                Ok(request) => copy.prepared() is Ok && copy.prepared()->Ok_0.same_as(request),
                Err(error) => copy.prepared() is Err && copy.prepared()->Err_0@ == error@,
            },
    {
        let request = match &self.request {
            Ok(request) => Ok(request.clone()),
            Err(error) => Err(error.clone()),
        };
        Self { request, _table: PhantomData }
    }
}

impl<T: Table> GetItem<T> where T::Item: item::Deserialize {
    /// An operation that holds `request`.
    pub(crate) fn new(request: Result<GetItemRequest, SerializeError>) -> (get: Self)
        ensures
            get.prepared() == request,
    {
        Self { request, _table: PhantomData }
    }

    /// Chooses how fresh the read has to be. An operation that holds an
    /// error stays as it is.
    pub fn consistency(self, consistency: Consistency) -> (get: Self)
        ensures
            match self.prepared() {
                Ok(request) => get.prepared() == Ok::<_, SerializeError>(
                    GetItemRequest {
                        consistent_read: Some(consistency == Consistency::Strong),
                        ..request
                    },
                ),
                Err(error) => get.prepared() == Err::<GetItemRequest, _>(error),
            },
    {
        match self.request {
            Ok(request) => {
                let strong = match consistency {
                    Consistency::Strong => true,
                    Consistency::Eventual => false,
                };
                Self {
                    request: Ok(
                        GetItemRequest {
                            client: request.client,
                            table_name: request.table_name,
                            key: request.key,
                            consistent_read: Some(strong),
                        },
                    ),
                    _table: PhantomData,
                }
            },
            Err(error) => Self { request: Err(error), _table: PhantomData },
        }
    }

    /// Sends the operation, which is given up.
    ///
    /// An operation that holds an error fails with that same error, and no
    /// request comes out of it: the store is not called. Any other hands out
    /// its request, for exactly one call.
    pub fn send(self) -> (sent: Result<InFlightGetItem<T>, ReadError>)
        ensures
            match self.prepared() {
                Ok(request) => sent is Ok && sent->Ok_0.request_spec() == request,
                Err(error) => sent is Err && sent->Err_0.kind == ReadErrorKind::Serialize(error),
            },
    {
        match self.request {
            Ok(request) => Ok(InFlightGetItem { request, _table: PhantomData }),
            Err(error) => Err(ReadError::from(error)),
        }
    }
}

impl<T: Table> InFlightGetItem<T> where T::Item: item::Deserialize {
    /// The request that is on its way.
    pub closed spec fn request_spec(self) -> GetItemRequest {
        self.request
    }

    /// The request with which the store is to be called.
    pub fn request(&self) -> (request: &GetItemRequest)
        ensures
            *request == self.request_spec(),
    {
        &self.request
    }

    /// Turns the outcome of the call into the result of the read.
    ///
    /// A failed call fails the read with the client's failure as it came.
    /// An answer without an item is a result without an item. An answer with
    /// an item is decoded as the table's record: the result holds the whole
    /// record, or the read fails with the error of the decoding.
    pub fn finish(
        self,
        outcome: Result<GetItemReply, SdkError<GetItemError, Response<SdkBody>>>,
    ) -> (result: Result<GetItemOutput<T::Item>, ReadError>)
        ensures
            match outcome {
                Err(failure) => result is Err && result->Err_0.kind == ReadErrorKind::Transport(
                    failure,
                ),
                Ok(reply) => match reply.item {
                    None => result is Ok && result->Ok_0.item is None,
                    Some(map) => match <T::Item as item::Deserialize>::refusal(map@) {
                        Some(failure) => result is Err && result->Err_0.kind is Deserialize
                            && result->Err_0.kind->Deserialize_0@ == failure,
                        None => result is Ok && result->Ok_0.item is Some
                            && <T::Item as item::Deserialize>::stands_for(
                            map@,
                            result->Ok_0.item->Some_0,
                        ),
                    },
                },
            },
            outcome is Ok && result is Ok ==> result->Ok_0.consumed_capacity
                == outcome->Ok_0.consumed_capacity && result->Ok_0.request_id@
                == request_id_or_unknown(outcome->Ok_0.request_id),
    {
        match outcome {
            Err(failure) => Err(ReadError::from(failure)),
            Ok(reply) => {
                let request_id = match reply.request_id {
                    Some(id) => id,
                    None => "<unknown request ID>".to_owned(),
                };
                let item = match reply.item {
                    None => None,
                    Some(map) => match <T::Item as item::Deserialize>::deserialize_owned_from_map(
                        map,
                    ) {
                        Ok(item) => Some(item),
                        Err(error) => {
                            return Err(ReadError::from(error));
                        },
                    },
                };
                Ok(GetItemOutput { item, consumed_capacity: reply.consumed_capacity, request_id })
            },
        }
    }
}

} // verus!
