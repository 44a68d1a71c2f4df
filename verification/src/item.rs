//! Records: how an entity becomes a map of named wire values and comes back
//! from one.

use crate::error::{DeserializeError, DeserializeFailure, SerializeError};
use crate::value;
use crate::value::{wire_refusal, wire_serialized, wire_stands_for};
use crate::wire::{
    collect_fields, distinct_names, entries_view, field, has_field, lemma_with_field, reversed,
    with_field, without_field, AttributeMap, AttributeValue, WireFields, WireValue,
};
use vstd::prelude::*;

verus! {

/// What the fields of a record serialize to, one after the other: each is a
/// named wire value or the message of an error.
pub type FieldResults = Seq<Result<(Seq<char>, WireValue), Seq<char>>>;

/// The model of a list of serialized fields.
pub open spec fn results_view(
    results: Seq<Result<(String, AttributeValue), SerializeError>>,
) -> FieldResults {
    Seq::new(
        results.len(),
        |i: int|
            match results[i] {
                Ok(entry) => Ok((entry.0@, entry.1@)),
                Err(error) => Err(error@),
            },
    )
}

/// What collecting `results` gives: the message of the first error, if there
/// is one, and else the map of all the fields, a later field replacing an
/// earlier one of the same name.
pub open spec fn collected(results: FieldResults) -> Result<WireFields, Seq<char>>
    decreases results.len(),
{
    if results.len() == 0 {
        Ok(Seq::empty())
    } else {
        match collected(results.drop_last()) {
            Err(message) => Err(message),
            Ok(fields) => match results.last() {
                Err(message) => Err(message),
                Ok(entry) => Ok(with_field(fields, entry.0, entry.1)),
            },
        }
    }
}

/// Collects serialized fields into a map, stopping at the first error.
pub fn collect_results(results: Vec<Result<(String, AttributeValue), SerializeError>>) -> (result:
    Result<AttributeMap, SerializeError>)
    ensures
        match result {
            Ok(map) => collected(results_view(results@)) == Ok::<_, Seq<char>>(map@),
            Err(error) => collected(results_view(results@)) == Err::<WireFields, _>(error@),
        },
{
    let ghost all = results_view(results@);
    let mut rest = reversed(results);
    let mut map = AttributeMap::new();
    assert(all.subrange(0, 0) =~= Seq::<Result<(Seq<char>, WireValue), Seq<char>>>::empty());
    while rest.len() > 0
        invariant
            rest@.len() <= all.len(),
            all.len() == results@.len(),
            all == results_view(results@),
            forall|j: int|
                0 <= j < rest@.len() ==> rest@[j] == results@[results@.len() - 1 - j],
            collected(all.subrange(0, all.len() - rest@.len())) == Ok::<_, Seq<char>>(map@),
        decreases rest.len(),
    {
        let ghost n = all.len() - rest@.len();
        let next = rest.pop().unwrap();
        assert(next == results@[n]);
        assert(all.subrange(0, n + 1).drop_last() =~= all.subrange(0, n));
        assert(all.subrange(0, n + 1).last() == all[n]);
        match next {
            Ok((name, value)) => {
                map.insert(name, value);
            },
            Err(error) => {
                proof {
                    lemma_collected_stops(all, n + 1);
                }
                return Err(error);
            },
        }
    }
    assert(all.subrange(0, all.len() as int) =~= all);
    Ok(map)
}

/// An error among the first `n` results is the outcome of the whole.
pub proof fn lemma_collected_stops(results: FieldResults, n: int)
    requires
        0 <= n <= results.len(),
        collected(results.subrange(0, n)) is Err,
    ensures
        collected(results) == collected(results.subrange(0, n)),
    decreases results.len() - n,
{
    if n < results.len() {
        assert(results.subrange(0, n + 1).drop_last() =~= results.subrange(0, n));
        lemma_collected_stops(results, n + 1);
    } else {
        assert(results.subrange(0, n) =~= results);
    }
}

/// A record that can be sent as a map of named wire values.
pub trait Serialize {
    /// What the fields serialize to, in the order in which they are declared.
    ///
    /// A record type states this for itself; where it does not, nothing is
    /// known of what it serializes to.
    open spec fn serialized(&self) -> FieldResults {
        arbitrary()
    }

    /// The fields of this record, each serialized on its own.
    fn serialize(&self) -> (results: Vec<Result<(String, AttributeValue), SerializeError>>)
        ensures
            results_view(results@) == self.serialized(),
    ;

    /// The fields of this record, each serialized on its own.
    fn serialize_owned(&self) -> (results: Vec<Result<(String, AttributeValue), SerializeError>>) where
        Self: Sized,

        ensures
            results_view(results@) == self.serialized(),
    {
        self.serialize()
    }

    /// The record as a map. The first field that fails to serialize fails the
    /// whole, and the rest is dropped.
    fn serialize_to_map(&self) -> (result: Result<AttributeMap, SerializeError>)
        ensures
            match result {
                Ok(map) => collected(self.serialized()) == Ok::<_, Seq<char>>(map@),
                Err(error) => collected(self.serialized()) == Err::<WireFields, _>(error@),
            },
    {
        collect_results(self.serialize())
    }

    /// The record as a map; the record is given up.
    fn serialize_owned_to_map(self) -> (result: Result<AttributeMap, SerializeError>) where
        Self: Sized,

        ensures
            match result {
                Ok(map) => collected(self.serialized()) == Ok::<_, Seq<char>>(map@),
                Err(error) => collected(self.serialized()) == Err::<WireFields, _>(error@),
            },
    {
        collect_results(self.serialize_owned())
    }
}

/// A record that can be read from a map of named wire values.
pub trait Deserialize: Sized {
    /// The error with which the map `fields` is refused, if it is.
    ///
    /// A record type states this for itself; where it does not, nothing is
    /// known of what it refuses.
    open spec fn refusal(fields: WireFields) -> Option<DeserializeFailure> {
        arbitrary()
    }

    /// Whether `decoded` is the record that the map `fields` stands for.
    ///
    /// A record type states this for itself; where it does not, nothing is
    /// known of what it reads.
    open spec fn stands_for(fields: WireFields, decoded: Self) -> bool {
        arbitrary()
    }

    /// Reads a record from a list of named values. Of two values with one
    /// name the later one counts.
    fn deserialize_owned(fields: Vec<(String, AttributeValue)>) -> (result: Result<
        Self,
        DeserializeError,
    >)
        ensures
            match result {
                Ok(decoded) => Self::refusal(collect_fields(entries_view(fields@))) is None
                    && Self::stands_for(collect_fields(entries_view(fields@)), decoded),
                Err(error) => Self::refusal(collect_fields(entries_view(fields@))) == Some(error@),
            },
    {
        Self::deserialize_owned_from_map(AttributeMap::from_entries(fields))
    }

    /// Reads a record from a map: every declared field must be there and
    /// decode; fields that the record does not declare are passed over.
    fn deserialize_owned_from_map(map: AttributeMap) -> (result: Result<Self, DeserializeError>)
        ensures
            match result {
                Ok(decoded) => Self::refusal(map@) is None && Self::stands_for(map@, decoded),
                Err(error) => Self::refusal(map@) == Some(error@),
            },
    ;
}

/// What the field `name` serializes to, given what its value serializes to:
/// the value under the field's name, or the message of the value's error.
pub open spec fn field_serialized(name: Seq<char>, value: Result<WireValue, Seq<char>>) -> Result<
    (Seq<char>, WireValue),
    Seq<char>,
> {
    match value {
        Ok(wire) => Ok((name, wire)),
        Err(message) => Err(message),
    }
}

/// Serializes `value` as the field `name` of a record: the wire value of
/// `value` under that name, or the error with which `value` fails.
pub fn serialize_field<V: value::Serialize + ?Sized>(name: &str, value: &V) -> (result: Result<
    (String, AttributeValue),
    SerializeError,
>)
    ensures
        match result {
            Ok(entry) => field_serialized(name@, wire_serialized(value)) == Ok::<_, Seq<char>>(
                (entry.0@, entry.1@),
            ),
            Err(error) => field_serialized(name@, wire_serialized(value)) == Err::<
                (Seq<char>, WireValue),
                _,
            >(error@),
        },
{
    match value.serialize() {
        Ok(wire) => Ok((name.to_owned(), wire)),
        Err(error) => Err(error),
    }
}

/// The error with which the field `name` of `fields` is refused as a `V` in
/// a record of type `item_type`, if it is: a field that is not there as
/// missing, one that is there as `V` refuses its value.
pub open spec fn field_refusal<V: value::Deserialize>(
    fields: WireFields,
    item_type: Seq<char>,
    name: Seq<char>,
) -> Option<DeserializeFailure> {
    match field(fields, name) {
        None => Some(DeserializeFailure::MissingRequiredField { item_type, field: name }),
        Some(value) => wire_refusal::<V>(value),
    }
}

/// Whether `decoded` is what the field `name` of `fields` stands for.
pub open spec fn field_stands_for<V: value::Deserialize>(
    fields: WireFields,
    name: Seq<char>,
    decoded: V,
) -> bool {
    match field(fields, name) {
        None => false,
        Some(value) => wire_stands_for(value, decoded),
    }
}

/// Takes the field `name` out of `map` and decodes it as a `V`, for a record
/// of type `item_type`.
///
/// A field that is not there fails as missing, with the record's type and the
/// field's name; one that is there decodes as `V` does, its error passed on.
/// Either way the map is left without the field.
pub fn required_field<V: value::Deserialize>(
    map: &mut AttributeMap,
    item_type: &str,
    name: &str,
) -> (result: Result<V, DeserializeError>)
    ensures
        final(map)@ == without_field(old(map)@, name@),
        match result {
            Ok(decoded) => field_refusal::<V>(old(map)@, item_type@, name@) is None
                && field_stands_for(old(map)@, name@, decoded),
            Err(error) => field_refusal::<V>(old(map)@, item_type@, name@) == Some(error@),
        },
{
    match map.remove(name) {
        None => Err(DeserializeError::missing_required_field(item_type, name)),
        Some(value) => V::deserialize_owned(value),
    }
}

/// A field that is not there is refused as missing, with the record's type
/// and the field's name, whatever else the map holds; and nothing stands for
/// it.
pub proof fn law_missing_field<V: value::Deserialize>(
    fields: WireFields,
    item_type: Seq<char>,
    name: Seq<char>,
)
    requires
        !has_field(fields, name),
    ensures
        field_refusal::<V>(fields, item_type, name) == Some(
            DeserializeFailure::MissingRequiredField { item_type, field: name },
        ),
        forall|decoded: V| !field_stands_for(fields, name, decoded),
{
}

/// A field of another name changes nothing in how a field is read: setting
/// `other` in the map leaves the outcome for `name` as it was.
pub proof fn law_other_field_ignored<V: value::Deserialize>(
    fields: WireFields,
    item_type: Seq<char>,
    name: Seq<char>,
    other: Seq<char>,
    value: WireValue,
)
    requires
        distinct_names(fields),
        other != name,
    ensures
        field_refusal::<V>(with_field(fields, other, value), item_type, name) == field_refusal::<V>(
            fields,
            item_type,
            name,
        ),
        forall|decoded: V|
            field_stands_for(with_field(fields, other, value), name, decoded) == field_stands_for(
                fields,
                name,
                decoded,
            ),
{
    lemma_with_field(fields, other, value);
}

} // verus!
