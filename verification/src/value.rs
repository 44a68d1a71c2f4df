//! Values of single fields: the tag each is sent under, and how a domain type
//! becomes the raw content of its tag and comes back from it.

mod private;

use crate::error::{DeserializeError, DeserializeFailure, SerializeError};
use crate::wire::{
    entries_view, reversed, with_field, AttributeMap, AttributeValue, WireFields, WireValue,
};
use std::sync::Arc;
use vstd::prelude::*;

verus! {

/// A wire type: a tag under which a value travels, with the raw content that
/// values of this tag hold.
///
/// The set of wire types is closed: only this crate defines them.
pub trait Type: private::SealedType {
    /// The name of the tag on the wire.
    const NAME: &'static str;

    /// What a value of this tag holds.
    type Raw: View;

    /// The name of the tag, as contracts speak of it.
    spec fn name() -> Seq<char>;

    /// The constant holds the name.
    proof fn name_is_constant()
        ensures
            Self::NAME@ == Self::name(),
    ;

    /// The wire value that carries `raw` under this tag.
    spec fn wire(raw: <Self::Raw as View>::V) -> WireValue;

    /// What `value` holds, if it carries this tag.
    spec fn raw(value: WireValue) -> Option<<Self::Raw as View>::V>;

    /// Reading back what was wrapped gives the same raw content.
    proof fn round_trip(raw: <Self::Raw as View>::V)
        ensures
            Self::raw(Self::wire(raw)) == Some(raw),
    ;

    /// A value is read only as the raw content that wraps into it.
    proof fn raw_wraps_back(value: WireValue)
        ensures
            Self::raw(value) matches Some(raw) ==> Self::wire(raw) == value,
    ;

    /// Wraps `raw` into a wire value. This cannot fail.
    fn to_attribute_value(raw: Self::Raw) -> (value: AttributeValue)
        ensures
            value@ == Self::wire(raw@),
    ;

    /// Unwraps a wire value. A value that carries another tag comes back
    /// unchanged as the error.
    fn from_attribute_value(value: AttributeValue) -> (result: Result<Self::Raw, AttributeValue>)
        ensures
            match result {
                Ok(raw) => Self::raw(value@) == Some(raw@),
                Err(back) => Self::raw(value@) is None && back == value,
            },
    ;
}

/// A wire type that may tag a key of a table.
pub trait KeyType: Type + private::SealedKeyType {

}

impl<T: Type + private::SealedKeyType> KeyType for T {

}

/// The string tag.
pub struct S(());

impl private::SealedType for S {

}

impl private::SealedKeyType for S {

}

impl Type for S {
    const NAME: &'static str = "S";

    type Raw = String;

    open spec fn name() -> Seq<char> {
        "S"@
    }

    proof fn name_is_constant() {
    }

    open spec fn wire(raw: Seq<char>) -> WireValue {
        WireValue::S(raw)
    }

    open spec fn raw(value: WireValue) -> Option<Seq<char>> {
        match value {
            WireValue::S(text) => Some(text),
            _ => None,
        }
    }

    proof fn round_trip(raw: Seq<char>) {
    }

    proof fn raw_wraps_back(value: WireValue) {
    }

    fn to_attribute_value(raw: String) -> (value: AttributeValue) {
        AttributeValue::S(raw)
    }

    fn from_attribute_value(value: AttributeValue) -> (result: Result<String, AttributeValue>) {
        match value {
            AttributeValue::S(text) => Ok(text),
            value => Err(value),
        }
    }
}

/// The number tag. The raw content is the decimal text, which this layer
/// does not examine.
pub struct N(());

impl private::SealedType for N {

}

impl private::SealedKeyType for N {

}

impl Type for N {
    const NAME: &'static str = "N";

    type Raw = String;

    open spec fn name() -> Seq<char> {
        "N"@
    }

    proof fn name_is_constant() {
    }

    open spec fn wire(raw: Seq<char>) -> WireValue {
        WireValue::N(raw)
    }

    open spec fn raw(value: WireValue) -> Option<Seq<char>> {
        match value {
            WireValue::N(text) => Some(text),
            _ => None,
        }
    }

    proof fn round_trip(raw: Seq<char>) {
    }

    proof fn raw_wraps_back(value: WireValue) {
    }

    fn to_attribute_value(raw: String) -> (value: AttributeValue) {
        AttributeValue::N(raw)
    }

    fn from_attribute_value(value: AttributeValue) -> (result: Result<String, AttributeValue>) {
        match value {
            AttributeValue::N(text) => Ok(text),
            value => Err(value),
        }
    }
}

/// The binary tag.
pub struct B(());

impl private::SealedType for B {

}

impl private::SealedKeyType for B {

}

impl Type for B {
    const NAME: &'static str = "B";

    type Raw = Vec<u8>;

    open spec fn name() -> Seq<char> {
        "B"@
    }

    proof fn name_is_constant() {
    }

    open spec fn wire(raw: Seq<u8>) -> WireValue {
        WireValue::B(raw)
    }

    open spec fn raw(value: WireValue) -> Option<Seq<u8>> {
        match value {
            WireValue::B(bytes) => Some(bytes),
            _ => None,
        }
    }

    proof fn round_trip(raw: Seq<u8>) {
    }

    proof fn raw_wraps_back(value: WireValue) {
    }

    fn to_attribute_value(raw: Vec<u8>) -> (value: AttributeValue) {
        AttributeValue::B(raw)
    }

    fn from_attribute_value(value: AttributeValue) -> (result: Result<Vec<u8>, AttributeValue>) {
        match value {
            AttributeValue::B(bytes) => Ok(bytes),
            value => Err(value),
        }
    }
}

/// The tag of values that are taken as they are: the raw content is the wire
/// value itself, whatever it carries.
pub struct Any(());

impl private::SealedType for Any {

}

impl private::SealedKeyType for Any {

}

impl Type for Any {
    const NAME: &'static str = "<any>";

    type Raw = AttributeValue;

    open spec fn name() -> Seq<char> {
        "<any>"@
    }

    proof fn name_is_constant() {
    }

    open spec fn wire(raw: WireValue) -> WireValue {
        raw
    }

    open spec fn raw(value: WireValue) -> Option<WireValue> {
        Some(value)
    }

    proof fn round_trip(raw: WireValue) {
    }

    proof fn raw_wraps_back(value: WireValue) {
    }

    fn to_attribute_value(raw: AttributeValue) -> (value: AttributeValue) {
        raw
    }

    fn from_attribute_value(value: AttributeValue) -> (result: Result<
        AttributeValue,
        AttributeValue,
    >) {
        Ok(value)
    }
}

/// The constants of the wire types hold their names: `S`, `N`, `B` and
/// `<any>`.
pub proof fn law_tag_names()
    ensures
        S::NAME@ == "S"@,
        N::NAME@ == "N"@,
        B::NAME@ == "B"@,
        Any::NAME@ == "<any>"@,
{
}

/// A domain type that goes to the wire and comes back under one and the same
/// wire type.
pub trait Value: Serialize<Type = <Self as Value>::Type> + Deserialize<
    Type = <Self as Value>::Type,
> {
    /// The wire type of both directions.
    type Type: Type;
}

impl<V: Serialize + Deserialize<Type = <V as Serialize>::Type>> Value for V {
    type Type = <V as Serialize>::Type;
}

/// What serializing `value` to the wire gives: the wire value under the tag
/// of its type, or the message of the error.
pub open spec fn wire_serialized<V: Serialize + ?Sized>(value: &V) -> Result<WireValue, Seq<char>> {
    match value.serialized() {
        Ok(raw) => Ok(<V::Type as Type>::wire(raw)),
        Err(message) => Err(message),
    }
}

/// The error with which the wire value `value` is refused as a `D`, if it is:
/// a value under another tag as of an unexpected type, one under the right
/// tag as `D` itself refuses its raw content.
pub open spec fn wire_refusal<D: Deserialize>(value: WireValue) -> Option<DeserializeFailure> {
    match <D::Type as Type>::raw(value) {
        Some(raw) => D::refusal(raw),
        None => Some(
            DeserializeFailure::UnexpectedValueType {
                expected: <D::Type as Type>::name(),
                actual: value,
            },
        ),
    }
}

/// Whether `decoded` is what the wire value `value` stands for.
pub open spec fn wire_stands_for<D: Deserialize>(value: WireValue, decoded: D) -> bool {
    match <D::Type as Type>::raw(value) {
        Some(raw) => D::stands_for(raw, decoded),
        None => false,
    }
}

/// A domain type that can be sent as a value of one wire type.
pub trait Serialize {
    /// The wire type under which values of this type travel.
    type Type: Type;

    /// What serializing gives: the raw content, or the message of the error.
    ///
    /// A type states this for itself; where it does not, nothing is known of
    /// what it serializes to.
    open spec fn serialized(&self) -> Result<<<Self::Type as Type>::Raw as View>::V, Seq<char>> {
        arbitrary()
    }

    /// The raw content of this value.
    fn serialize_raw(&self) -> (result: Result<<Self::Type as Type>::Raw, SerializeError>)
        ensures
            match result {
                Ok(raw) => self.serialized() == Ok::<_, Seq<char>>(raw@),
                Err(error) => self.serialized() == Err::<<<Self::Type as Type>::Raw as View>::V, _>(
                    error@,
                ),
            },
    ;

    /// The raw content of this value, which is given up.
    fn serialize_owned_raw(self) -> (result: Result<<Self::Type as Type>::Raw, SerializeError>) where
        Self: Sized,

        ensures
            match result {
                Ok(raw) => self.serialized() == Ok::<_, Seq<char>>(raw@),
                Err(error) => self.serialized() == Err::<<<Self::Type as Type>::Raw as View>::V, _>(
                    error@,
                ),
            },
    {
        self.serialize_raw()
    }

    /// This value on the wire: its raw content under the tag of its type.
    fn serialize(&self) -> (result: Result<AttributeValue, SerializeError>)
        ensures
            match result {
                Ok(value) => self.serialized() matches Ok(raw) && value@ == <Self::Type as Type>::wire(
                    raw,
                ),
                Err(error) => self.serialized() == Err::<<<Self::Type as Type>::Raw as View>::V, _>(
                    error@,
                ),
            },
    {
        match self.serialize_raw() {
            Ok(raw) => Ok(Self::Type::to_attribute_value(raw)),
            Err(error) => Err(error),
        }
    }

    /// This value on the wire; the value is given up.
    fn serialize_owned(self) -> (result: Result<AttributeValue, SerializeError>) where Self: Sized
        ensures
            match result {
                Ok(value) => self.serialized() matches Ok(raw) && value@ == <Self::Type as Type>::wire(
                    raw,
                ),
                Err(error) => self.serialized() == Err::<<<Self::Type as Type>::Raw as View>::V, _>(
                    error@,
                ),
            },
    {
        match self.serialize_owned_raw() {
            Ok(raw) => Ok(Self::Type::to_attribute_value(raw)),
            Err(error) => Err(error),
        }
    }
}

/// A domain type that can be read from a value of one wire type.
pub trait Deserialize: Sized {
    /// The wire type under which values of this type travel.
    type Type: Type;

    /// The error with which the raw content `raw` is refused, if it is.
    ///
    /// A type states this for itself; where it does not, nothing is known of
    /// what it refuses.
    open spec fn refusal(raw: <<Self::Type as Type>::Raw as View>::V) -> Option<
        DeserializeFailure,
    > {
        arbitrary()
    }

    /// Whether `decoded` is what the raw content `raw` stands for.
    ///
    /// A type states this for itself; where it does not, nothing is known of
    /// what it reads.
    open spec fn stands_for(raw: <<Self::Type as Type>::Raw as View>::V, decoded: Self) -> bool {
        arbitrary()
    }

    /// Reads a value from the raw content.
    fn deserialize_owned_raw(raw: <Self::Type as Type>::Raw) -> (result: Result<
        Self,
        DeserializeError,
    >)
        ensures
            match result {
                Ok(decoded) => Self::refusal(raw@) is None && Self::stands_for(raw@, decoded),
                Err(error) => Self::refusal(raw@) == Some(error@),
            },
    ;

    /// Reads a value from the wire. A wire value that carries another tag
    /// than this type's is refused as of an unexpected type, and the error
    /// holds it unchanged.
    fn deserialize_owned(value: AttributeValue) -> (result: Result<Self, DeserializeError>)
        ensures
            match <Self::Type as Type>::raw(value@) {
                Some(raw) => match result {
                    Ok(decoded) => Self::refusal(raw) is None && Self::stands_for(raw, decoded),
                    Err(error) => Self::refusal(raw) == Some(error@),
                },
                None => result is Err && result->Err_0@ == (
                DeserializeFailure::UnexpectedValueType {
                    expected: <Self::Type as Type>::name(),
                    actual: value@,
                }),
            },
            <Self::Type as Type>::raw(value@) is None ==> result is Err
                && result->Err_0.kind is UnexpectedValueType && result->Err_0.kind->actual
                == value,
    {
        proof {
            <Self::Type as Type>::name_is_constant();
        }
        match Self::Type::from_attribute_value(value) {
            Ok(raw) => Self::deserialize_owned_raw(raw),
            Err(value) => Err(DeserializeError::unexpected_value_type(Self::Type::NAME, value)),
        }
    }
}

impl<V: Serialize + ?Sized> Serialize for &V {
    type Type = V::Type;

    open spec fn serialized(&self) -> Result<<<V::Type as Type>::Raw as View>::V, Seq<char>> {
        (**self).serialized()
    }

    fn serialize_raw(&self) -> (result: Result<<V::Type as Type>::Raw, SerializeError>) {
        (**self).serialize_raw()
    }
}

impl<V: Serialize + ?Sized> Serialize for &mut V {
    type Type = V::Type;

    open spec fn serialized(&self) -> Result<<<V::Type as Type>::Raw as View>::V, Seq<char>> {
        (**self).serialized()
    }

    fn serialize_raw(&self) -> (result: Result<<V::Type as Type>::Raw, SerializeError>) {
        (**self).serialize_raw()
    }
}

impl<V: Serialize + ?Sized> Serialize for Box<V> {
    type Type = V::Type;

    open spec fn serialized(&self) -> Result<<<V::Type as Type>::Raw as View>::V, Seq<char>> {
        (**self).serialized()
    }

    fn serialize_raw(&self) -> (result: Result<<V::Type as Type>::Raw, SerializeError>) {
        (**self).serialize_raw()
    }
}

impl<V: Serialize + ?Sized> Serialize for Arc<V> {
    type Type = V::Type;

    open spec fn serialized(&self) -> Result<<<V::Type as Type>::Raw as View>::V, Seq<char>> {
        (**self).serialized()
    }

    fn serialize_raw(&self) -> (result: Result<<V::Type as Type>::Raw, SerializeError>) {
        (**self).serialize_raw()
    }
}

impl<V: Deserialize> Deserialize for Box<V> {
    type Type = V::Type;

    open spec fn refusal(raw: <<V::Type as Type>::Raw as View>::V) -> Option<DeserializeFailure> {
        V::refusal(raw)
    }

    open spec fn stands_for(raw: <<V::Type as Type>::Raw as View>::V, decoded: Self) -> bool {
        V::stands_for(raw, *decoded)
    }

    fn deserialize_owned_raw(raw: <V::Type as Type>::Raw) -> (result: Result<
        Self,
        DeserializeError,
    >) {
        match V::deserialize_owned_raw(raw) {
            Ok(decoded) => Ok(Box::new(decoded)),
            Err(error) => Err(error),
        }
    }
}

impl<V: Deserialize> Deserialize for Arc<V> {
    type Type = V::Type;

    open spec fn refusal(raw: <<V::Type as Type>::Raw as View>::V) -> Option<DeserializeFailure> {
        V::refusal(raw)
    }

    open spec fn stands_for(raw: <<V::Type as Type>::Raw as View>::V, decoded: Self) -> bool {
        V::stands_for(raw, *decoded)
    }

    fn deserialize_owned_raw(raw: <V::Type as Type>::Raw) -> (result: Result<
        Self,
        DeserializeError,
    >) {
        match V::deserialize_owned_raw(raw) {
            Ok(decoded) => Ok(Arc::new(decoded)),
            Err(error) => Err(error),
        }
    }
}

impl Serialize for str {
    type Type = S;

    open spec fn serialized(&self) -> Result<Seq<char>, Seq<char>> {
        Ok(self@)
    }

    fn serialize_raw(&self) -> (result: Result<String, SerializeError>) {
        Ok(self.to_owned())
    }
}

impl Serialize for String {
    type Type = S;

    open spec fn serialized(&self) -> Result<Seq<char>, Seq<char>> {
        Ok(self@)
    }

    fn serialize_raw(&self) -> (result: Result<String, SerializeError>) {
        Ok(self.clone())
    }

    fn serialize_owned_raw(self) -> (result: Result<String, SerializeError>) {
        Ok(self)
    }
}

impl Deserialize for String {
    type Type = S;

    open spec fn refusal(raw: Seq<char>) -> Option<DeserializeFailure> {
        None
    }

    open spec fn stands_for(raw: Seq<char>, decoded: String) -> bool {
        decoded@ == raw
    }

    fn deserialize_owned_raw(raw: String) -> (result: Result<String, DeserializeError>) {
        Ok(raw)
    }
}

impl Serialize for AttributeValue {
    type Type = Any;

    open spec fn serialized(&self) -> Result<WireValue, Seq<char>> {
        Ok(self@)
    }

    fn serialize_raw(&self) -> (result: Result<AttributeValue, SerializeError>) {
        Ok(self.clone())
    }

    fn serialize_owned_raw(self) -> (result: Result<AttributeValue, SerializeError>) {
        Ok(self)
    }
}

impl Deserialize for AttributeValue {
    type Type = Any;

    open spec fn refusal(raw: WireValue) -> Option<DeserializeFailure> {
        None
    }

    open spec fn stands_for(raw: WireValue, decoded: AttributeValue) -> bool {
        decoded@ == raw
    }

    fn deserialize_owned_raw(raw: AttributeValue) -> (result: Result<
        AttributeValue,
        DeserializeError,
    >) {
        Ok(raw)
    }
}

/// A mapping from keys that travel as strings to values of one type, as a
/// list of entries in the order of the map on the wire.
///
/// On the wire it is a map value, carried under the tag of values that are
/// taken as they are.
#[derive(Debug, PartialEq, Eq)]
pub struct Mapping<K, V>(pub Vec<(K, V)>);

/// What serializing `entries` one after the other gives: the fields of the
/// map, a later entry replacing an earlier one whose key serializes to the
/// same name, or the message of the first error, that of an entry's key
/// before that of its value.
pub open spec fn mapping_serialized<K: Serialize<Type = S>, V: Serialize>(
    entries: Seq<(K, V)>,
) -> Result<WireFields, Seq<char>>
    decreases entries.len(),
{
    if entries.len() == 0 {
        Ok(Seq::empty())
    } else {
        match mapping_serialized(entries.drop_last()) {
            Err(message) => Err(message),
            Ok(fields) => match entries.last().0.serialized() {
                Err(message) => Err(message),
                Ok(name) => match wire_serialized(&entries.last().1) {
                    Err(message) => Err(message),
                    Ok(value) => Ok(with_field(fields, name, value)),
                },
            },
        }
    }
}

/// An error among the first `n` entries is the outcome of the whole.
pub proof fn lemma_mapping_serialized_stops<K: Serialize<Type = S>, V: Serialize>(
    entries: Seq<(K, V)>,
    n: int,
)
    requires
        0 <= n <= entries.len(),
        mapping_serialized(entries.subrange(0, n)) is Err,
    ensures
        mapping_serialized(entries) == mapping_serialized(entries.subrange(0, n)),
    decreases entries.len() - n,
{
    if n < entries.len() {
        assert(entries.subrange(0, n + 1).drop_last() =~= entries.subrange(0, n));
        lemma_mapping_serialized_stops(entries, n + 1);
    } else {
        assert(entries.subrange(0, n) =~= entries);
    }
}

impl<K: Serialize<Type = S>, V: Serialize> Serialize for Mapping<K, V> {
    type Type = Any;

    open spec fn serialized(&self) -> Result<WireValue, Seq<char>> {
        match mapping_serialized(self.0@) {
            Ok(fields) => Ok(WireValue::M(fields)),
            Err(message) => Err(message),
        }
    }

    fn serialize_raw(&self) -> (result: Result<AttributeValue, SerializeError>) {
        let ghost entries = self.0@;
        let mut map = AttributeMap::new();
        let mut i: usize = 0;
        assert(entries.subrange(0, 0) =~= Seq::<(K, V)>::empty());
        while i < self.0.len()
            invariant
                i <= self.0.len(),
                entries == self.0@,
                mapping_serialized(entries.subrange(0, i as int)) == Ok::<_, Seq<char>>(map@),
            decreases self.0.len() - i,
        {
            assert(entries.subrange(0, i + 1).drop_last() =~= entries.subrange(0, i as int));
            assert(entries.subrange(0, i + 1).last() == entries[i as int]);
            let name = match self.0[i].0.serialize_raw() {
                Ok(name) => name,
                Err(error) => {
                    proof {
                        lemma_mapping_serialized_stops(entries, i + 1);
                    }
                    return Err(error);
                },
            };
            let value = match self.0[i].1.serialize() {
                Ok(value) => value,
                Err(error) => {
                    proof {
                        lemma_mapping_serialized_stops(entries, i + 1);
                    }
                    return Err(error);
                },
            };
            map.insert(name, value);
            i += 1;
        }
        assert(entries.subrange(0, entries.len() as int) =~= entries);
        Ok(AttributeValue::M(map))
    }

    fn serialize_owned_raw(self) -> (result: Result<AttributeValue, SerializeError>) {
        let ghost entries = self.0@;
        let mut rest = reversed(self.0);
        let mut map = AttributeMap::new();
        assert(entries.subrange(0, 0) =~= Seq::<(K, V)>::empty());
        while rest.len() > 0
            invariant
                entries == self.0@,
                rest@.len() <= entries.len(),
                forall|j: int| 0 <= j < rest@.len() ==> rest@[j] == entries[entries.len() - 1 - j],
                mapping_serialized(entries.subrange(0, entries.len() - rest@.len())) == Ok::<
                    _,
                    Seq<char>,
                >(map@),
            decreases rest.len(),
        {
            let ghost n = entries.len() - rest@.len();
            assert(entries.subrange(0, n + 1).drop_last() =~= entries.subrange(0, n));
            assert(entries.subrange(0, n + 1).last() == entries[n]);
            let (key, value) = rest.pop().unwrap();
            let name = match key.serialize_owned_raw() {
                Ok(name) => name,
                Err(error) => {
                    proof {
                        lemma_mapping_serialized_stops(entries, n + 1);
                    }
                    return Err(error);
                },
            };
            let value = match value.serialize_owned() {
                Ok(value) => value,
                Err(error) => {
                    proof {
                        lemma_mapping_serialized_stops(entries, n + 1);
                    }
                    return Err(error);
                },
            };
            map.insert(name, value);
        }
        assert(entries.subrange(0, entries.len() as int) =~= entries);
        Ok(AttributeValue::M(map))
    }
}

/// The error with which the fields of a map are refused as the entries of a
/// mapping, if they are: that of the first field whose name the key type
/// refuses or whose value the value type refuses, the name's before the
/// value's.
pub open spec fn mapping_refusal<K: Deserialize<Type = S>, V: Deserialize>(
    fields: WireFields,
) -> Option<DeserializeFailure>
    decreases fields.len(),
{
    if fields.len() == 0 {
        None
    } else {
        match mapping_refusal::<K, V>(fields.drop_last()) {
            Some(failure) => Some(failure),
            None => match K::refusal(fields.last().0) {
                Some(failure) => Some(failure),
                None => wire_refusal::<V>(fields.last().1),
            },
        }
    }
}

/// A refusal among the first `n` fields is the outcome of the whole.
pub proof fn lemma_mapping_refusal_stops<K: Deserialize<Type = S>, V: Deserialize>(
    fields: WireFields,
    n: int,
)
    requires
        0 <= n <= fields.len(),
        mapping_refusal::<K, V>(fields.subrange(0, n)) is Some,
    ensures
        mapping_refusal::<K, V>(fields) == mapping_refusal::<K, V>(fields.subrange(0, n)),
    decreases fields.len() - n,
{
    if n < fields.len() {
        assert(fields.subrange(0, n + 1).drop_last() =~= fields.subrange(0, n));
        lemma_mapping_refusal_stops::<K, V>(fields, n + 1);
    } else {
        assert(fields.subrange(0, n) =~= fields);
    }
}

/// Whether `entries` are what the fields of a map stand for: as many, and
/// each the key and value that the field in its place stands for.
pub open spec fn is_mapping<K: Deserialize<Type = S>, V: Deserialize>(
    fields: WireFields,
    entries: Seq<(K, V)>,
) -> bool {
    &&& entries.len() == fields.len()
    &&& forall|i: int|
        0 <= i < fields.len() ==> K::stands_for(fields[i].0, (#[trigger] entries[i]).0)
            && wire_stands_for::<V>(fields[i].1, entries[i].1)
}

impl<K: Deserialize<Type = S>, V: Deserialize> Deserialize for Mapping<K, V> {
    type Type = Any;

    open spec fn refusal(raw: WireValue) -> Option<DeserializeFailure> {
        match raw {
            WireValue::M(fields) => mapping_refusal::<K, V>(fields),
            _ => Some(DeserializeFailure::UnexpectedValueType { expected: "M"@, actual: raw }),
        }
    }

    open spec fn stands_for(raw: WireValue, decoded: Self) -> bool {
        match raw {
            WireValue::M(fields) => is_mapping::<K, V>(fields, decoded.0@),
            _ => false,
        }
    }

    fn deserialize_owned_raw(raw: AttributeValue) -> (result: Result<Self, DeserializeError>) {
        match raw {
            AttributeValue::M(map) => {
                let ghost fields = map@;
                let wire_entries = map.into_entries();
                let mut rest = reversed(wire_entries);
                let mut entries: Vec<(K, V)> = Vec::new();
                assert(fields.subrange(0, 0) =~= Seq::<(Seq<char>, WireValue)>::empty());
                while rest.len() > 0
                    invariant
                        raw@ == WireValue::M(fields),
                        rest@.len() <= fields.len(),
                        fields == entries_view(wire_entries@),
                        forall|j: int|
                            0 <= j < rest@.len() ==> rest@[j] == wire_entries@[fields.len() - 1
                                - j],
                        entries@.len() == fields.len() - rest@.len(),
                        mapping_refusal::<K, V>(fields.subrange(0, fields.len() - rest@.len()))
                            is None,
                        forall|i: int|
                            0 <= i < entries@.len() ==> K::stands_for(
                                fields[i].0,
                                (#[trigger] entries@[i]).0,
                            ) && wire_stands_for::<V>(fields[i].1, entries@[i].1),
                    decreases rest.len(),
                {
                    let ghost n = fields.len() - rest@.len();
                    assert(fields.subrange(0, n + 1).drop_last() =~= fields.subrange(0, n));
                    assert(fields.subrange(0, n + 1).last() == fields[n]);
                    let (name, value) = rest.pop().unwrap();
                    assert(name@ == fields[n].0 && value@ == fields[n].1);
                    let key = match K::deserialize_owned_raw(name) {
                        Ok(key) => key,
                        Err(error) => {
                            proof {
                                lemma_mapping_refusal_stops::<K, V>(fields, n + 1);
                            }
                            return Err(error);
                        },
                    };
                    let value = match V::deserialize_owned(value) {
                        Ok(value) => value,
                        Err(error) => {
                            proof {
                                lemma_mapping_refusal_stops::<K, V>(fields, n + 1);
                            }
                            return Err(error);
                        },
                    };
                    entries.push((key, value));
                }
                assert(fields.subrange(0, fields.len() as int) =~= fields);
                Ok(Mapping(entries))
            },
            other => Err(DeserializeError::unexpected_value_type("M", other)),
        }
    }
}

/// Round trip: under every wire type, a raw content that is wrapped into a
/// wire value and read back is the same raw content.
pub proof fn law_round_trip<T: Type>(raw: <T::Raw as View>::V)
    ensures
        T::raw(T::wire(raw)) == Some(raw),
{
    T::round_trip(raw);
}

/// A wire value is read under the string, number or binary tag exactly when
/// its discriminant is the name of that tag, and under the tag of values
/// taken as they are whatever its discriminant is.
pub proof fn law_read_by_discriminant(value: WireValue)
    ensures
        S::raw(value) is Some <==> value.discriminant() == S::name(),
        N::raw(value) is Some <==> value.discriminant() == N::name(),
        B::raw(value) is Some <==> value.discriminant() == B::name(),
        Any::raw(value) is Some,
{
    reveal_strlit("B");
    reveal_strlit("BOOL");
    reveal_strlit("BS");
    reveal_strlit("L");
    reveal_strlit("M");
    reveal_strlit("N");
    reveal_strlit("NS");
    reveal_strlit("NULL");
    reveal_strlit("S");
    reveal_strlit("SS");
    reveal_strlit("<unknown>");
    assert("B"@.len() == 1 && "BOOL"@.len() == 4 && "BS"@.len() == 2 && "L"@.len() == 1);
    assert("M"@.len() == 1 && "N"@.len() == 1 && "NS"@.len() == 2 && "NULL"@.len() == 4);
    assert("S"@.len() == 1 && "SS"@.len() == 2 && "<unknown>"@.len() == 9);
    assert("B"@[0] == 'B' && "L"@[0] == 'L' && "M"@[0] == 'M' && "N"@[0] == 'N' && "S"@[0] == 'S');
}

/// Tag mismatch: a wire value that carries another tag than that of `D` is
/// refused as of an unexpected type, with the name of the tag of `D` and the
/// wire value itself.
pub proof fn law_tag_mismatch<D: Deserialize>(value: WireValue)
    requires
        <D::Type as Type>::raw(value) is None,
    ensures
        wire_refusal::<D>(value) == Some(
            DeserializeFailure::UnexpectedValueType {
                expected: <D::Type as Type>::name(),
                actual: value,
            },
        ),
        forall|decoded: D| !wire_stands_for(value, decoded),
{
}

/// A mapping is decoded as a whole or not at all: it is refused exactly when
/// one of its fields is, by name or by value.
pub proof fn law_mapping_all_or_nothing<K: Deserialize<Type = S>, V: Deserialize>(
    fields: WireFields,
)
    ensures
        mapping_refusal::<K, V>(fields) is Some <==> exists|i: int|
            0 <= i < fields.len() && (K::refusal((#[trigger] fields[i]).0) is Some
                || wire_refusal::<V>(fields[i].1) is Some),
    decreases fields.len(),
{
    if fields.len() > 0 {
        let front = fields.drop_last();
        let last = fields.len() - 1;
        law_mapping_all_or_nothing::<K, V>(front);
        if mapping_refusal::<K, V>(front) is Some {
            let i = choose|i: int|
                0 <= i < front.len() && (K::refusal((#[trigger] front[i]).0) is Some
                    || wire_refusal::<V>(front[i].1) is Some);
            assert(fields[i] == front[i]);
        } else if mapping_refusal::<K, V>(fields) is Some {
            assert(K::refusal(fields[last].0) is Some || wire_refusal::<V>(fields[last].1)
                is Some);
        } else {
            assert forall|i: int| 0 <= i < fields.len() implies !(K::refusal(
                (#[trigger] fields[i]).0,
            ) is Some || wire_refusal::<V>(fields[i].1) is Some) by {
                if i < last {
                    assert(front[i] == fields[i]);
                }
            }
        }
    }
}

/// One entry under a wrong tag fails the whole mapping: where the value of
/// some field does not carry the tag of `V`, the map is refused.
pub proof fn law_mapping_wrong_tag_fails<K: Deserialize<Type = S>, V: Deserialize>(
    fields: WireFields,
    i: int,
)
    requires
        0 <= i < fields.len(),
        <V::Type as Type>::raw(fields[i].1) is None,
    ensures
        mapping_refusal::<K, V>(fields) is Some,
        <Mapping<K, V> as Deserialize>::refusal(WireValue::M(fields)) is Some,
{
    law_mapping_all_or_nothing::<K, V>(fields);
    assert(wire_refusal::<V>(fields[i].1) is Some);
}

} // verus!
