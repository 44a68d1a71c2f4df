//! The wire format: tagged attribute values and the field maps built from them.

use vstd::prelude::*;

verus! {

/// The mathematical value of an attribute on the wire.
///
/// A map is a list of named fields in the order in which they were added; no
/// name occurs twice in the map of a value that exists at run time.
pub enum WireValue {
    B(Seq<u8>),
    Bool(bool),
    Bs(Seq<Seq<u8>>),
    L(Seq<WireValue>),
    M(Seq<(Seq<char>, WireValue)>),
    N(Seq<char>),
    Ns(Seq<Seq<char>>),
    Null(bool),
    S(Seq<char>),
    Ss(Seq<Seq<char>>),
    Unknown,
}

impl WireValue {
    /// The name under which the store tells this kind of value from the
    /// others.
    pub open spec fn discriminant(self) -> Seq<char> {
        match self {
            WireValue::B(_) => "B"@,
            WireValue::Bool(_) => "BOOL"@,
            WireValue::Bs(_) => "BS"@,
            WireValue::L(_) => "L"@,
            WireValue::M(_) => "M"@,
            WireValue::N(_) => "N"@,
            WireValue::Ns(_) => "NS"@,
            WireValue::Null(_) => "NULL"@,
            WireValue::S(_) => "S"@,
            WireValue::Ss(_) => "SS"@,
            WireValue::Unknown => "<unknown>"@,
        }
    }
}

/// The fields of a map on the wire: names with their values, in order.
pub type WireFields = Seq<(Seq<char>, WireValue)>;

/// Whether some field of `fields` is called `name`.
pub open spec fn has_field(fields: WireFields, name: Seq<char>) -> bool {
    exists|i: int| 0 <= i < fields.len() && (#[trigger] fields[i]).0 == name
}

/// The position of a field called `name`, where there is one.
pub open spec fn field_index(fields: WireFields, name: Seq<char>) -> int {
    choose|i: int| 0 <= i < fields.len() && (#[trigger] fields[i]).0 == name
}

/// The value of the field called `name`, if there is one.
pub open spec fn field(fields: WireFields, name: Seq<char>) -> Option<WireValue> {
    if has_field(fields, name) {
        Some(fields[field_index(fields, name)].1)
    } else {
        None
    }
}

/// No two fields share a name.
pub open spec fn distinct_names(fields: WireFields) -> bool {
    forall|i: int, j: int|
        0 <= i < j < fields.len() ==> (#[trigger] fields[i]).0 != (#[trigger] fields[j]).0
}

/// `fields` with the field `name` set to `value`: replaced where it stands if
/// the name is already there, added at the end otherwise.
pub open spec fn with_field(fields: WireFields, name: Seq<char>, value: WireValue) -> WireFields {
    if has_field(fields, name) {
        fields.update(field_index(fields, name), (name, value))
    } else {
        fields.push((name, value))
    }
}

/// `fields` without the field called `name`; the others keep their order.
pub open spec fn without_field(fields: WireFields, name: Seq<char>) -> WireFields {
    if has_field(fields, name) {
        fields.remove(field_index(fields, name))
    } else {
        fields
    }
}

/// The fields that result from setting `entries` one after the other, so that
/// of two entries with one name the later one stays.
pub open spec fn collect_fields(entries: WireFields) -> WireFields
    decreases entries.len(),
{
    if entries.len() == 0 {
        Seq::empty()
    } else {
        with_field(collect_fields(entries.drop_last()), entries.last().0, entries.last().1)
    }
}

/// In a map without repeated names, the field at position `i` is the one that
/// its name finds.
pub proof fn lemma_field_at(fields: WireFields, i: int)
    requires
        distinct_names(fields),
        0 <= i < fields.len(),
    ensures
        has_field(fields, fields[i].0),
        field_index(fields, fields[i].0) == i,
        field(fields, fields[i].0) == Some(fields[i].1),
{
    let name = fields[i].0;
    assert(has_field(fields, name));
    let k = field_index(fields, name);
    if k != i {
        if k < i {
            assert(fields[k].0 != fields[i].0);
        } else {
            assert(fields[i].0 != fields[k].0);
        }
    }
}

/// Setting a field keeps the names distinct, makes that field hold the new
/// value and leaves every other field as it was.
pub proof fn lemma_with_field(fields: WireFields, name: Seq<char>, value: WireValue)
    requires
        distinct_names(fields),
    ensures
        distinct_names(with_field(fields, name, value)),
        field(with_field(fields, name, value), name) == Some(value),
        forall|other: Seq<char>|
            other != name ==> #[trigger] field(with_field(fields, name, value), other) == field(
                fields,
                other,
            ),
{
    let after = with_field(fields, name, value);
    if has_field(fields, name) {
        let k = field_index(fields, name);
        assert(after.len() == fields.len());
        assert forall|i: int, j: int| 0 <= i < j < after.len() implies (#[trigger] after[i]).0 != (
        #[trigger] after[j]).0 by {
            assert(fields[i].0 != fields[j].0);
        }
        assert(after[k] == (name, value));
        lemma_field_at(after, k);
        assert forall|other: Seq<char>| other != name implies #[trigger] field(after, other)
            == field(fields, other) by {
            if has_field(fields, other) {
                let m = field_index(fields, other);
                assert(m != k);
                assert(after[m] == fields[m]);
                lemma_field_at(fields, m);
                lemma_field_at(after, m);
            } else {
                if has_field(after, other) {
                    let m = field_index(after, other);
                    assert(m != k);
                    assert(fields[m].0 == other);
                }
            }
        }
    } else {
        let k = fields.len() as int;
        assert forall|i: int, j: int| 0 <= i < j < after.len() implies (#[trigger] after[i]).0 != (
        #[trigger] after[j]).0 by {
            if j == k {
                assert(fields[i].0 != name);
            } else {
                assert(fields[i].0 != fields[j].0);
            }
        }
        assert(after[k] == (name, value));
        lemma_field_at(after, k);
        assert forall|other: Seq<char>| other != name implies #[trigger] field(after, other)
            == field(fields, other) by {
            if has_field(fields, other) {
                let m = field_index(fields, other);
                assert(after[m] == fields[m]);
                lemma_field_at(fields, m);
                lemma_field_at(after, m);
            } else {
                if has_field(after, other) {
                    let m = field_index(after, other);
                    assert(m != k);
                    assert(fields[m].0 == other);
                }
            }
        }
    }
}

/// Taking a field out keeps the names distinct, leaves no field of that name
/// and leaves every other field as it was.
pub proof fn lemma_without_field(fields: WireFields, name: Seq<char>)
    requires
        distinct_names(fields),
    ensures
        distinct_names(without_field(fields, name)),
        !has_field(without_field(fields, name), name),
        forall|other: Seq<char>|
            other != name ==> #[trigger] field(without_field(fields, name), other) == field(
                fields,
                other,
            ),
{
    let after = without_field(fields, name);
    if has_field(fields, name) {
        let k = field_index(fields, name);
        assert forall|i: int| 0 <= i < after.len() implies #[trigger] after[i] == fields[if i
            < k {
            i
        } else {
            i + 1
        }] by {}
        assert forall|i: int, j: int| 0 <= i < j < after.len() implies (#[trigger] after[i]).0 != (
        #[trigger] after[j]).0 by {
            let a = if i < k { i } else { i + 1 };
            let b = if j < k { j } else { j + 1 };
            assert(fields[a].0 != fields[b].0);
        }
        if has_field(after, name) {
            let m = field_index(after, name);
            let a = if m < k { m } else { m + 1 };
            assert(fields[a].0 == name);
            lemma_field_at(fields, a);
        }
        assert forall|other: Seq<char>| other != name implies #[trigger] field(after, other)
            == field(fields, other) by {
            if has_field(fields, other) {
                let m = field_index(fields, other);
                assert(m != k);
                let a = if m < k { m } else { m - 1 };
                assert(after[a] == fields[m]);
                lemma_field_at(fields, m);
                lemma_field_at(after, a);
            } else {
                if has_field(after, other) {
                    let m = field_index(after, other);
                    let a = if m < k { m } else { m + 1 };
                    assert(fields[a].0 == other);
                }
            }
        }
    }
}

/// The fields as a map from names to values, without their order.
pub open spec fn as_map(fields: WireFields) -> Map<Seq<char>, WireValue> {
    Map::new(
        |name: Seq<char>| has_field(fields, name),
        |name: Seq<char>| fields[field_index(fields, name)].1,
    )
}

/// Setting and taking fields is inserting into and removing from the map
/// that the fields are: setting `name` to `value` inserts the pair, and
/// taking `name` out removes it.
pub proof fn law_fields_are_a_map(fields: WireFields, name: Seq<char>, value: WireValue)
    requires
        distinct_names(fields),
    ensures
        as_map(with_field(fields, name, value)) == as_map(fields).insert(name, value),
        as_map(without_field(fields, name)) == as_map(fields).remove(name),
        forall|other: Seq<char>|
            field(fields, other) == if as_map(fields).dom().contains(other) {
                Some(as_map(fields)[other])
            } else {
                None
            },
{
    lemma_with_field(fields, name, value);
    lemma_without_field(fields, name);
    let set = with_field(fields, name, value);
    let taken = without_field(fields, name);
    assert forall|other: Seq<char>| #[trigger]
        as_map(set).dom().contains(other) == as_map(fields).insert(name, value).dom().contains(
            other,
        ) by {
        if other != name {
            assert(field(set, other) == field(fields, other));
        }
    }
    assert forall|other: Seq<char>| #[trigger]
        as_map(set).dom().contains(other) implies as_map(set)[other] == as_map(fields).insert(
        name,
        value,
    )[other] by {
        if other != name {
            assert(field(set, other) == field(fields, other));
        }
    }
    assert(as_map(set) =~= as_map(fields).insert(name, value));
    assert forall|other: Seq<char>| #[trigger]
        as_map(taken).dom().contains(other) == as_map(fields).remove(name).dom().contains(
            other,
        ) by {
        if other != name {
            assert(field(taken, other) == field(fields, other));
        }
    }
    assert forall|other: Seq<char>| #[trigger]
        as_map(taken).dom().contains(other) implies as_map(taken)[other] == as_map(fields).remove(
        name,
    )[other] by {
        if other != name {
            assert(field(taken, other) == field(fields, other));
        }
    }
    assert(as_map(taken) =~= as_map(fields).remove(name));
}

/// An attribute value as it travels to and from the store.
#[derive(Debug, PartialEq)]
pub enum AttributeValue {
    /// Binary data.
    B(Vec<u8>),
    /// A boolean.
    Bool(bool),
    /// A set of binary values.
    Bs(Vec<Vec<u8>>),
    /// A list of values.
    L(Vec<AttributeValue>),
    /// A map from names to values.
    M(AttributeMap),
    /// A number, carried as its decimal text.
    N(String),
    /// A set of numbers, each carried as text.
    Ns(Vec<String>),
    /// The null marker.
    Null(bool),
    /// A string.
    S(String),
    /// A set of strings.
    Ss(Vec<String>),
    /// A value of a kind that this layer does not know.
    Unknown,
}

/// A map from field names to attribute values: the wire form of a record.
///
/// Fields keep the order in which they were added, and no name occurs twice.
/// Two maps are equal when they hold the same fields in the same order.
#[derive(Debug, PartialEq)]
pub struct AttributeMap {
    entries: Vec<(String, AttributeValue)>,
}

impl View for AttributeValue {
    type V = WireValue;

    open spec fn view(&self) -> WireValue
        decreases self,
    {
        match self {
            AttributeValue::B(bytes) => WireValue::B(bytes@),
            AttributeValue::Bool(b) => WireValue::Bool(*b),
            AttributeValue::Bs(set) => WireValue::Bs(set.deep_view()),
            AttributeValue::L(items) => WireValue::L(
                Seq::new(
                    items@.len(),
                    |i: int|
                        if 0 <= i < items@.len() {
                            items@[i].view()
                        } else {
                            WireValue::Unknown
                        },
                ),
            ),
            AttributeValue::M(map) => WireValue::M(map.view()),
            AttributeValue::N(text) => WireValue::N(text@),
            AttributeValue::Ns(set) => WireValue::Ns(set.deep_view()),
            AttributeValue::Null(b) => WireValue::Null(*b),
            AttributeValue::S(text) => WireValue::S(text@),
            AttributeValue::Ss(set) => WireValue::Ss(set.deep_view()),
            AttributeValue::Unknown => WireValue::Unknown,
        }
    }
}

impl View for AttributeMap {
    type V = WireFields;

    closed spec fn view(&self) -> WireFields
        decreases self,
    {
        Seq::new(
            self.entries@.len(),
            |i: int|
                if 0 <= i < self.entries@.len() {
                    (self.entries@[i].0@, self.entries@[i].1.view())
                } else {
                    (Seq::empty(), WireValue::Unknown)
                },
        )
    }
}

/// The wire fields that a list of named values stands for, entry by entry.
pub open spec fn entries_view(entries: Seq<(String, AttributeValue)>) -> WireFields {
    Seq::new(entries.len(), |i: int| (entries[i].0@, entries[i].1@))
}

/// Compares two strings with `str`'s own `==`, which holds exactly when both
/// are the same sequence of characters.
#[verifier::external_body]
pub(crate) fn same_text(a: &str, b: &str) -> (same: bool)
    ensures
        same == (a@ == b@),
{
    a == b
}

/// The items of `items` in the opposite order, so that taking from the end
/// gives them first to last.
pub(crate) fn reversed<T>(items: Vec<T>) -> (turned: Vec<T>)
    ensures
        turned@.len() == items@.len(),
        forall|i: int| 0 <= i < items@.len() ==> turned@[i] == items@[items@.len() - 1 - i],
{
    let mut rest = items;
    let mut turned: Vec<T> = Vec::new();
    while rest.len() > 0
        invariant
            rest@.len() + turned@.len() == items@.len(),
            forall|j: int| 0 <= j < rest@.len() ==> rest@[j] == items@[j],
            forall|j: int| 0 <= j < turned@.len() ==> turned@[j] == items@[items@.len() - 1 - j],
        decreases rest.len(),
    {
        let last = rest.pop().unwrap();
        turned.push(last);
    }
    turned
}

impl AttributeMap {
    /// What holds of every map: no two fields share a name.
    #[verifier::type_invariant]
    pub open spec fn well_formed(self) -> bool {
        distinct_names(self@)
    }

    /// The empty map.
    pub fn new() -> (map: Self)
        ensures
            map@ == Seq::<(Seq<char>, WireValue)>::empty(),
    {
        let map = AttributeMap { entries: Vec::new() };
        assert(map@ =~= Seq::<(Seq<char>, WireValue)>::empty());
        map
    }

    /// The number of fields.
    pub fn len(&self) -> (n: usize)
        ensures
            n == self@.len(),
    {
        self.entries.len()
    }

    /// Whether the map has no field.
    pub fn is_empty(&self) -> (empty: bool)
        ensures
            empty == (self@.len() == 0),
    {
        self.entries.len() == 0
    }

    /// The position of the field called `name`.
    fn position(&self, name: &str) -> (found: Option<usize>)
        ensures
            distinct_names(self@),
            match found {
                Some(i) => i < self@.len() && self@[i as int].0 == name@ && field_index(
                    self@,
                    name@,
                ) == i && has_field(self@, name@),
                None => !has_field(self@, name@),
            },
    {
        proof {
            use_type_invariant(self);
        }
        let mut i: usize = 0;
        while i < self.entries.len()
            invariant
                i <= self.entries.len(),
                self@.len() == self.entries.len(),
                distinct_names(self@),
                forall|j: int| 0 <= j < i ==> (#[trigger] self@[j]).0 != name@,
            decreases self.entries.len() - i,
        {
            if same_text(self.entries[i].0.as_str(), name) {
                assert(self@[i as int].0 == name@);
                return Some(i);
            }
            i += 1;
        }
        None
    }

    /// Whether the map has a field called `name`.
    pub fn contains_key(&self, name: &str) -> (found: bool)
        ensures
            found == has_field(self@, name@),
    {
        self.position(name).is_some()
    }

    /// The value of the field called `name`, if the map has one.
    pub fn get(&self, name: &str) -> (value: Option<&AttributeValue>)
        ensures
            match value {
                Some(v) => field(self@, name@) == Some(v@),
                None => field(self@, name@) is None,
            },
    {
        match self.position(name) {
            Some(i) => Some(&self.entries[i].1),
            None => None,
        }
    }

    /// The name of the field at position `i`.
    pub fn name_at(&self, i: usize) -> (name: &str)
        requires
            i < self@.len(),
        ensures
            name@ == self@[i as int].0,
    {
        self.entries[i].0.as_str()
    }

    /// The value of the field at position `i`.
    pub fn value_at(&self, i: usize) -> (value: &AttributeValue)
        requires
            i < self@.len(),
        ensures
            value@ == self@[i as int].1,
    {
        &self.entries[i].1
    }

    /// Sets the field `name` to `value` and returns the value it had before.
    ///
    /// A field that is already there keeps its place; a new one goes to the end.
    pub fn insert(&mut self, name: String, value: AttributeValue) -> (previous: Option<
        AttributeValue,
    >)
        ensures
            final(self)@ == with_field(old(self)@, name@, value@),
            match previous {
                Some(v) => field(old(self)@, name@) == Some(v@),
                None => field(old(self)@, name@) is None,
            },
    {
        let found = self.position(name.as_str());
        let ghost before = self@;
        proof {
            self.lemma_view();
            lemma_with_field(before, name@, value@);
        }
        let mut entries = Vec::new();
        std::mem::swap(&mut entries, &mut self.entries);
        let previous = match found {
            Some(i) => {
                let removed = entries.remove(i);
                entries.insert(i, (name, value));
                assert(removed.1@ == before[i as int].1);
                Some(removed.1)
            },
            None => {
                entries.push((name, value));
                None
            },
        };
        assert(entries_view(entries@) =~= with_field(before, name@, value@));
        proof {
            lemma_entries(entries);
        }
        *self = AttributeMap { entries };
        previous
    }

    /// Takes the field called `name` out of the map and returns its value.
    ///
    /// The other fields keep their order.
    pub fn remove(&mut self, name: &str) -> (removed: Option<AttributeValue>)
        ensures
            final(self)@ == without_field(old(self)@, name@),
            match removed {
                Some(v) => field(old(self)@, name@) == Some(v@),
                None => field(old(self)@, name@) is None,
            },
    {
        let found = self.position(name);
        let ghost before = self@;
        proof {
            self.lemma_view();
            lemma_without_field(before, name@);
        }
        match found {
            Some(i) => {
                let mut entries = Vec::new();
                std::mem::swap(&mut entries, &mut self.entries);
                let removed = entries.remove(i);
                assert(removed.1@ == before[i as int].1);
                assert(entries_view(entries@) =~= without_field(before, name@));
                proof {
                    lemma_entries(entries);
                }
                *self = AttributeMap { entries };
                Some(removed.1)
            },
            None => None,
        }
    }

    /// The map's model is that of its entries, one for one.
    proof fn lemma_view(self)
        ensures
            self@ == entries_view(self.entries@),
    {
        assert(self@ =~= entries_view(self.entries@));
    }
}

/// A map made of `entries` has their model as its own.
proof fn lemma_entries(entries: Vec<(String, AttributeValue)>)
    ensures
        (AttributeMap { entries })@ == entries_view(entries@),
{
    (AttributeMap { entries }).lemma_view();
}

impl AttributeMap {
    /// The map that results from setting `entries` one after the other: of two
    /// entries with one name the later one stays, in the place of the first.
    pub fn from_entries(entries: Vec<(String, AttributeValue)>) -> (map: Self)
        ensures
            map@ == collect_fields(entries_view(entries@)),
    {
        let ghost all = entries_view(entries@);
        let mut rest = entries;
        let mut reversed: Vec<(String, AttributeValue)> = Vec::new();
        while rest.len() > 0
            invariant
                rest@.len() + reversed@.len() == all.len(),
                forall|j: int|
                    0 <= j < rest@.len() ==> (#[trigger] rest@[j]).0@ == all[j].0 && rest@[j].1@
                        == all[j].1,
                forall|j: int|
                    0 <= j < reversed@.len() ==> (#[trigger] reversed@[j]).0@ == all[all.len() - 1
                        - j].0 && reversed@[j].1@ == all[all.len() - 1 - j].1,
            decreases rest.len(),
        {
            let last = rest.pop().unwrap();
            reversed.push(last);
        }
        let mut map = AttributeMap::new();
        assert(all.subrange(0, 0) =~= Seq::<(Seq<char>, WireValue)>::empty());
        while reversed.len() > 0
            invariant
                reversed@.len() <= all.len(),
                forall|j: int|
                    0 <= j < reversed@.len() ==> (#[trigger] reversed@[j]).0@ == all[all.len() - 1
                        - j].0 && reversed@[j].1@ == all[all.len() - 1 - j].1,
                map@ == collect_fields(all.subrange(0, all.len() - reversed@.len())),
            decreases reversed.len(),
        {
            let ghost n = all.len() - reversed@.len();
            let (name, value) = reversed.pop().unwrap();
            assert(all[n] == (name@, value@));
            assert(all.subrange(0, n + 1).drop_last() =~= all.subrange(0, n));
            assert(all.subrange(0, n + 1).last() == all[n]);
            map.insert(name, value);
        }
        assert(all.subrange(0, all.len() as int) =~= all);
        map
    }

    /// The fields as a list of named values, in the map's order.
    pub fn into_entries(self) -> (entries: Vec<(String, AttributeValue)>)
        ensures
            entries_view(entries@) == self@,
            distinct_names(self@),
    {
        proof {
            use_type_invariant(&self);
            self.lemma_view();
        }
        self.entries
    }
}

impl AttributeValue {
    /// The name under which the store tells this kind of value from the
    /// others.
    pub fn discriminant(&self) -> (name: &'static str)
        ensures
            name@ == self@.discriminant(),
    {
        match self {
            AttributeValue::B(_) => "B",
            AttributeValue::Bool(_) => "BOOL",
            AttributeValue::Bs(_) => "BS",
            AttributeValue::L(_) => "L",
            AttributeValue::M(_) => "M",
            AttributeValue::N(_) => "N",
            AttributeValue::Ns(_) => "NS",
            AttributeValue::Null(_) => "NULL",
            AttributeValue::S(_) => "S",
            AttributeValue::Ss(_) => "SS",
            AttributeValue::Unknown => "<unknown>",
        }
    }
}

impl Clone for AttributeValue {
    /// A copy that stands for the same wire value.
    fn clone(&self) -> (copy: Self)
        ensures
            copy@ == self@,
        decreases self,
    {
        match self {
            AttributeValue::B(bytes) => AttributeValue::B(bytes.clone()),
            AttributeValue::Bool(b) => AttributeValue::Bool(*b),
            AttributeValue::Bs(set) => {
                let mut copies: Vec<Vec<u8>> = Vec::new();
                let mut i: usize = 0;
                while i < set.len()
                    invariant
                        i <= set.len(),
                        copies.len() == i,
                        forall|j: int| 0 <= j < i ==> (#[trigger] copies[j])@ == set[j]@,
                    decreases set.len() - i,
                {
                    copies.push(set[i].clone());
                    i += 1;
                }
                assert(copies.deep_view() =~= set.deep_view());
                AttributeValue::Bs(copies)
            },
            AttributeValue::L(items) => {
                let mut copies: Vec<AttributeValue> = Vec::new();
                let mut i: usize = 0;
                while i < items.len()
                    invariant
                        i <= items.len(),
                        copies.len() == i,
                        self is L,
                        self->L_0 == *items,
                        forall|j: int| 0 <= j < i ==> (#[trigger] copies[j])@ == items[j]@,
                    decreases items.len() - i,
                {
                    assert(decreases_to!(*self => self->L_0));
                    assert(decreases_to!(*items => items[i as int]));
                    copies.push(items[i].clone());
                    i += 1;
                }
                let copy = AttributeValue::L(copies);
                assert(copy@->L_0 =~= self@->L_0);
                copy
            },
            AttributeValue::M(map) => AttributeValue::M(map.clone()),
            AttributeValue::N(text) => AttributeValue::N(text.clone()),
            AttributeValue::Ns(set) => {
                let copies = set.clone();
                assert(copies.deep_view() =~= set.deep_view());
                AttributeValue::Ns(copies)
            },
            AttributeValue::Null(b) => AttributeValue::Null(*b),
            AttributeValue::S(text) => AttributeValue::S(text.clone()),
            AttributeValue::Ss(set) => {
                let copies = set.clone();
                assert(copies.deep_view() =~= set.deep_view());
                AttributeValue::Ss(copies)
            },
            AttributeValue::Unknown => AttributeValue::Unknown,
        }
    }
}

impl Clone for AttributeMap {
    /// A copy with the same fields in the same order.
    fn clone(&self) -> (copy: Self)
        ensures
            copy@ == self@,
        decreases self,
    {
        proof {
            use_type_invariant(self);
            self.lemma_view();
        }
        let mut entries: Vec<(String, AttributeValue)> = Vec::new();
        let mut i: usize = 0;
        while i < self.entries.len()
            invariant
                i <= self.entries.len(),
                entries.len() == i,
                forall|j: int|
                    0 <= j < i ==> (#[trigger] entries[j]).0@ == self.entries[j].0@ && entries[j].1@
                        == self.entries[j].1@,
            decreases self.entries.len() - i,
        {
            let name = self.entries[i].0.clone();
            let value = self.entries[i].1.clone();
            entries.push((name, value));
            i += 1;
        }
        assert(entries_view(entries@) =~= self@);
        proof {
            lemma_entries(entries);
        }
        AttributeMap { entries }
    }
}

} // verus!
