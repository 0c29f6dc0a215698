//! JSON values: what one is, reading a field, building one and parsing bytes.

use vstd::prelude::*;
use vstd::std_specs::cmp::PartialEqSpec;

use crate::outside::{json_of, parsed_json, read_value};
use crate::text::same_text;

verus! {

/// A JSON number, in one of the three shapes that a parsed one has.
#[derive(Debug, Clone, Copy)]
pub enum Number {
    /// A number written as an integer that is not negative and fits 64 bits.
    Unsigned(u64),
    /// A number written as a negative integer that fits 64 bits.
    Negative(i64),
    /// A number written otherwise, such as `1.0`, `-0` or an integer beyond 64 bits: the bits
    /// of the finite double that holds it.
    Double(u64),
}

impl Number {
    /// Whether this is one of the two zeros of doubles, of which one has a sign.
    pub open spec fn double_zero(self) -> bool {
        self == Number::Double(0) || self == Number::Double(0x8000_0000_0000_0000)
    }

    /// Whether the two are one number. The two zeros of doubles are one, and numbers of two
    /// shapes never are.
    pub open spec fn equals(self, other: Number) -> bool {
        self == other || self.double_zero() && other.double_zero()
    }

    /// The number that the whole number `value` is.
    pub open spec fn whole(value: int) -> Number {
        if value < 0 {
            Number::Negative(value as i64)
        } else {
            Number::Unsigned(value as u64)
        }
    }
}

impl PartialEq for Number {
    fn eq(&self, other: &Number) -> (res: bool) {
        match (*self, *other) {
            (Number::Unsigned(a), Number::Unsigned(b)) => a == b,
            (Number::Negative(a), Number::Negative(b)) => a == b,
            (Number::Double(a), Number::Double(b)) => a == b || (a == 0 || a
                == 0x8000_0000_0000_0000) && (b == 0 || b == 0x8000_0000_0000_0000),
            _ => false,
        }
    }
}

impl vstd::std_specs::cmp::PartialEqSpecImpl for Number {
    open spec fn obeys_eq_spec() -> bool {
        true
    }

    open spec fn eq_spec(&self, other: &Number) -> bool {
        self.equals(*other)
    }
}

impl Eq for Number {

}

/// A JSON value.
#[derive(Debug)]
pub enum Json {
    Null,
    Bool(bool),
    Number(Number),
    String(String),
    Array(Vec<Json>),
    /// The fields in the order in which they were written; of two with one name the later
    /// counts.
    Object(Vec<(String, Json)>),
}

/// What a JSON value is. An object is a map: neither the order of its fields nor a field
/// that a later one replaces is part of it.
pub ghost enum JsonView {
    Null,
    Bool(bool),
    Number(Number),
    String(Seq<char>),
    Array(Seq<JsonView>),
    Object(Map<Seq<char>, JsonView>),
}

impl View for Json {
    type V = JsonView;

    open spec fn view(&self) -> JsonView
        decreases self,
    {
        match *self {
            Json::Null => JsonView::Null,
            Json::Bool(value) => JsonView::Bool(value),
            Json::Number(number) => JsonView::Number(number),
            Json::String(text) => JsonView::String(text@),
            Json::Array(items) => JsonView::Array(items_view(items@)),
            Json::Object(fields) => JsonView::Object(fields_view(fields@)),
        }
    }
}

/// What a value is, where there is one.
pub open spec fn json_view(value: Option<Json>) -> Option<JsonView> {
    match value {
        Some(value) => Some(value@),
        None => None,
    }
}

/// What a value is, where there is one.
pub open spec fn json_ref_view(value: Option<&Json>) -> Option<JsonView> {
    match value {
        Some(value) => Some(value@),
        None => None,
    }
}

/// What the items of an array are.
pub open spec fn items_view(items: Seq<Json>) -> Seq<JsonView>
    decreases items,
{
    if items.len() == 0 {
        Seq::empty()
    } else {
        items_view(items.subrange(0, items.len() - 1)).push(items[items.len() - 1].view())
    }
}

/// What the fields of an object are: each written over the ones before it.
pub open spec fn fields_view(fields: Seq<(String, Json)>) -> Map<Seq<char>, JsonView>
    decreases fields,
{
    if fields.len() == 0 {
        Map::empty()
    } else {
        fields_view(fields.subrange(0, fields.len() - 1)).insert(
            fields[fields.len() - 1].0@,
            fields[fields.len() - 1].1.view(),
        )
    }
}

/// Writing one more field writes over the fields before it.
proof fn lemma_fields_push(fields: Seq<(String, Json)>, field: (String, Json))
    ensures
        fields_view(fields.push(field)) == fields_view(fields).insert(field.0@, field.1@),
{
    let all = fields.push(field);
    assert(all.subrange(0, all.len() - 1) =~= fields);
}

/// The last field is written over the fields before it.
proof fn lemma_last_field(fields: Seq<(String, Json)>)
    requires
        fields.len() > 0,
    ensures
        fields_view(fields) == fields_view(fields.subrange(0, fields.len() - 1)).insert(
            fields[fields.len() - 1].0@,
            fields[fields.len() - 1].1@,
        ),
{
    let rest = fields.subrange(0, fields.len() - 1);
    lemma_fields_push(rest, fields[fields.len() - 1]);
    assert(rest.push(fields[fields.len() - 1]) =~= fields);
}

/// One more item stands behind the items before it.
proof fn lemma_items_push(items: Seq<Json>, item: Json)
    ensures
        items_view(items.push(item)) == items_view(items).push(item@),
{
    let all = items.push(item);
    assert(all.subrange(0, all.len() - 1) =~= items);
}

impl JsonView {
    /// The field `name`, where this is an object that has one.
    pub open spec fn field(self, name: Seq<char>) -> Option<JsonView> {
        match self {
            JsonView::Object(fields) => if fields.contains_key(name) {
                Some(fields[name])
            } else {
                None
            },
            _ => None,
        }
    }

    /// The text, where this is a string.
    pub open spec fn text(self) -> Option<Seq<char>> {
        match self {
            JsonView::String(text) => Some(text),
            _ => None,
        }
    }

    /// The text of the field `name`, where there is one and it is a string.
    pub open spec fn text_field(self, name: Seq<char>) -> Option<Seq<char>> {
        match self.field(name) {
            Some(value) => value.text(),
            None => None,
        }
    }

    /// Whether the two are one value: of one kind, and with the same truth, number, text, items
    /// or fields.
    pub open spec fn equals(self, other: JsonView) -> bool
        decreases self,
    {
        match (self, other) {
            (JsonView::Null, JsonView::Null) => true,
            (JsonView::Bool(a), JsonView::Bool(b)) => a == b,
            (JsonView::Number(a), JsonView::Number(b)) => a.equals(b),
            (JsonView::String(a), JsonView::String(b)) => a == b,
            (JsonView::Array(a), JsonView::Array(b)) => {
                &&& a.len() == b.len()
                &&& forall|i: int| 0 <= i < a.len() ==> (#[trigger] a[i]).equals(b[i])
            },
            (JsonView::Object(a), JsonView::Object(b)) => {
                &&& a.dom() == b.dom()
                &&& forall|name: Seq<char>| #[trigger]
                    a.contains_key(name) ==> a[name].equals(b[name])
            },
            _ => false,
        }
    }
}

/// Law: a value is the same as itself.
pub proof fn law_equals_itself(value: JsonView)
    ensures
        value.equals(value),
    decreases value,
{
    match value {
        JsonView::Array(items) => {
            assert forall|i: int| 0 <= i < items.len() implies (#[trigger] items[i]).equals(
                items[i],
            ) by {
                law_equals_itself(items[i]);
            }
        },
        JsonView::Object(fields) => {
            assert forall|name: Seq<char>| #[trigger]
                fields.contains_key(name) implies fields[name].equals(fields[name]) by {
                law_equals_itself(fields[name]);
            }
        },
        _ => {},
    }
}

/// Law: that two values are the same does not depend on which of them is asked.
pub proof fn law_equals_both_ways(a: JsonView, b: JsonView)
    requires
        a.equals(b),
    ensures
        b.equals(a),
    decreases a,
{
    match (a, b) {
        (JsonView::Array(x), JsonView::Array(y)) => {
            assert forall|i: int| 0 <= i < y.len() implies (#[trigger] y[i]).equals(x[i]) by {
                assert(x[i].equals(y[i]));
                law_equals_both_ways(x[i], y[i]);
            }
        },
        (JsonView::Object(x), JsonView::Object(y)) => {
            assert forall|name: Seq<char>| #[trigger] y.contains_key(name) implies y[name].equals(
                x[name],
            ) by {
                assert(x.contains_key(name));
                law_equals_both_ways(x[name], y[name]);
            }
        },
        _ => {},
    }
}

/// Law: two values that are the same as a third are the same.
pub proof fn law_equals_through(a: JsonView, b: JsonView, c: JsonView)
    requires
        a.equals(b),
        b.equals(c),
    ensures
        a.equals(c),
    decreases a,
{
    match (a, b, c) {
        (JsonView::Array(x), JsonView::Array(y), JsonView::Array(z)) => {
            assert forall|i: int| 0 <= i < x.len() implies (#[trigger] x[i]).equals(z[i]) by {
                assert(y[i].equals(z[i]));
                law_equals_through(x[i], y[i], z[i]);
            }
        },
        (JsonView::Object(x), JsonView::Object(y), JsonView::Object(z)) => {
            assert forall|name: Seq<char>| #[trigger] x.contains_key(name) implies x[name].equals(
                z[name],
            ) by {
                assert(y.contains_key(name));
                law_equals_through(x[name], y[name], z[name]);
            }
        },
        _ => {},
    }
}

/// Whether field `at` counts: no later field has its name.
spec fn counts(fields: Seq<(String, Json)>, at: int) -> bool {
    &&& 0 <= at < fields.len()
    &&& forall|i: int| at < i < fields.len() ==> (#[trigger] fields[i]).0@ != fields[at].0@
}

/// A field that counts is what its name stands for.
proof fn lemma_field_counts(fields: Seq<(String, Json)>, at: int)
    requires
        counts(fields, at),
    ensures
        fields_view(fields).contains_key(fields[at].0@),
        fields_view(fields)[fields[at].0@] == fields[at].1@,
    decreases fields.len(),
{
    lemma_last_field(fields);
    if at < fields.len() - 1 {
        let rest = fields.subrange(0, fields.len() - 1);
        assert forall|i: int| at < i < rest.len() implies (#[trigger] rest[i]).0@
            != rest[at].0@ by {
            assert(rest[i] == fields[i]);
        }
        lemma_field_counts(rest, at);
        assert(fields[fields.len() - 1].0@ != fields[at].0@);
    }
}

/// Every name of an object is that of a field that counts.
proof fn lemma_some_field_counts(fields: Seq<(String, Json)>, name: Seq<char>) -> (at: int)
    requires
        fields_view(fields).contains_key(name),
    ensures
        counts(fields, at),
        fields[at].0@ == name,
    decreases fields.len(),
{
    let last = fields.len() - 1;
    lemma_last_field(fields);
    if fields[last].0@ == name {
        last
    } else {
        let rest = fields.subrange(0, last);
        let at = lemma_some_field_counts(rest, name);
        assert forall|i: int| at < i < fields.len() implies (#[trigger] fields[i]).0@
            != fields[at].0@ by {
            if i < last {
                assert(rest[i] == fields[i]);
            }
        }
        at
    }
}

/// A name that some field has is a name of the object.
proof fn lemma_field_has_name(fields: Seq<(String, Json)>, at: int)
    requires
        0 <= at < fields.len(),
    ensures
        fields_view(fields).contains_key(fields[at].0@),
    decreases fields.len(),
{
    lemma_last_field(fields);
    if at < fields.len() - 1 {
        lemma_field_has_name(fields.subrange(0, fields.len() - 1), at);
    }
}

/// The field that counts for `name`, where there is one.
fn find(fields: &Vec<(String, Json)>, name: &str) -> (res: Option<usize>)
    ensures
        res is Some <==> fields_view(fields@).contains_key(name@),
        res matches Some(at) ==> counts(fields@, at as int) && fields@[at as int].0@ == name@,
{
    let mut at: usize = fields.len();
    while at > 0
        invariant
            at <= fields.len(),
            forall|i: int| at <= i < fields.len() ==> (#[trigger] fields@[i]).0@ != name@,
        decreases at,
    {
        at = at - 1;
        if same_text(&fields[at].0, name) {
            proof {
                lemma_field_has_name(fields@, at as int);
            }
            return Some(at);
        }
    }
    proof {
        if fields_view(fields@).contains_key(name@) {
            let _ = lemma_some_field_counts(fields@, name@);
        }
    }
    None
}

impl Json {
    /// The field `name`, where this is an object that has one.
    pub fn get(&self, name: &str) -> (res: Option<&Json>)
        ensures
            res is Some <==> self@.field(name@) is Some,
            res matches Some(value) ==> self@.field(name@) == Some(value@),
    {
        match self {
            Json::Object(fields) => match find(fields, name) {
                Some(at) => {
                    proof {
                        lemma_field_counts(fields@, at as int);
                    }
                    Some(&fields[at].1)
                },
                None => None,
            },
            _ => None,
        }
    }

    /// The text, where this is a string.
    pub fn as_str(&self) -> (res: Option<&str>)
        ensures
            res is Some <==> self@.text() is Some,
            res matches Some(text) ==> self@.text() == Some(text@),
    {
        match self {
            Json::String(text) => Some(text.as_str()),
            _ => None,
        }
    }

    /// The string that holds `text`.
    pub fn text(text: &str) -> (res: Json)
        ensures
            res@ == JsonView::String(text@),
    {
        Json::String(text.to_owned())
    }

    /// The whole number `value`.
    pub fn whole(value: i64) -> (res: Json)
        ensures
            res@ == JsonView::Number(Number::whole(value as int)),
    {
        if value < 0 {
            Json::Number(Number::Negative(value))
        } else {
            Json::Number(Number::Unsigned(value as u64))
        }
    }

    /// Whether the two are the same value.
    fn same(&self, other: &Json) -> (res: bool)
        ensures
            res == self@.equals(other@),
        decreases self,
    {
        match (self, other) {
            (Json::Null, Json::Null) => true,
            (Json::Bool(a), Json::Bool(b)) => *a == *b,
            (Json::Number(a), Json::Number(b)) => *a == *b,
            (Json::String(a), Json::String(b)) => same_text(a, b),
            (Json::Array(a), Json::Array(b)) => {
                proof {
                    lemma_items_view(a@);
                    lemma_items_view(b@);
                }
                if a.len() != b.len() {
                    return false;
                }
                let mut at: usize = 0;
                while at < a.len()
                    invariant
                        self == Json::Array(*a),
                        self@ == JsonView::Array(items_view(a@)),
                        other@ == JsonView::Array(items_view(b@)),
                        at <= a.len(),
                        a.len() == b.len(),
                        items_view(a@).len() == a.len(),
                        items_view(b@).len() == b.len(),
                        forall|i: int|
                            0 <= i < a.len() ==> #[trigger] items_view(a@)[i] == a@[i]@,
                        forall|i: int|
                            0 <= i < b.len() ==> #[trigger] items_view(b@)[i] == b@[i]@,
                        forall|i: int|
                            0 <= i < at ==> (#[trigger] items_view(a@)[i]).equals(
                                items_view(b@)[i],
                            ),
                    decreases a.len() - at,
                {
                    if !a[at].same(&b[at]) {
                        assert(!items_view(a@)[at as int].equals(items_view(b@)[at as int]));
                        return false;
                    }
                    at = at + 1;
                }
                true
            },
            (Json::Object(a), Json::Object(b)) => {
                let mut at: usize = 0;
                while at < a.len()
                    invariant
                        self == Json::Object(*a),
                        self@ == JsonView::Object(fields_view(a@)),
                        other@ == JsonView::Object(fields_view(b@)),
                        at <= a.len(),
                        forall|i: int|
                            0 <= i < at && #[trigger] counts(a@, i) ==> fields_view(
                                b@,
                            ).contains_key(a@[i].0@) && a@[i].1@.equals(
                                fields_view(b@)[a@[i].0@],
                            ),
                    decreases a.len() - at,
                {
                    proof {
                        lemma_field_has_name(a@, at as int);
                    }
                    match (find(a, &a[at].0), find(b, &a[at].0)) {
                        (Some(own), Some(theirs)) => {
                            proof {
                                lemma_field_counts(a@, own as int);
                                lemma_field_counts(b@, theirs as int);
                            }
                            if own == at && !a[at].1.same(&b[theirs].1) {
                                assert(!fields_view(a@)[a@[at as int].0@].equals(
                                    fields_view(b@)[a@[at as int].0@],
                                ));
                                return false;
                            }
                        },
                        _ => {
                            return false;
                        },
                    }
                    at = at + 1;
                }
                let mut at: usize = 0;
                while at < b.len()
                    invariant
                        self@ == JsonView::Object(fields_view(a@)),
                        other@ == JsonView::Object(fields_view(b@)),
                        at <= b.len(),
                        forall|i: int|
                            0 <= i < at ==> fields_view(a@).contains_key(
                                (#[trigger] b@[i]).0@,
                            ),
                    decreases b.len() - at,
                {
                    proof {
                        lemma_field_has_name(b@, at as int);
                    }
                    if find(a, &b[at].0).is_none() {
                        return false;
                    }
                    at = at + 1;
                }
                proof {
                    let (x, y) = (fields_view(a@), fields_view(b@));
                    assert forall|name: Seq<char>|
                        x.contains_key(name) <==> #[trigger] y.contains_key(name) by {
                        if x.contains_key(name) {
                            let i = lemma_some_field_counts(a@, name);
                            assert(counts(a@, i));
                        }
                        if y.contains_key(name) {
                            let i = lemma_some_field_counts(b@, name);
                            assert(b@[i].0@ == name);
                        }
                    }
                    assert forall|name: Seq<char>| #[trigger]
                        x.contains_key(name) implies x[name].equals(y[name]) by {
                        let i = lemma_some_field_counts(a@, name);
                        lemma_field_counts(a@, i);
                    }
                    assert(x.dom() =~= y.dom());
                }
                true
            },
            _ => false,
        }
    }
}

/// The items of an array are what each of them is.
proof fn lemma_items_view(items: Seq<Json>)
    ensures
        items_view(items).len() == items.len(),
        forall|i: int| 0 <= i < items.len() ==> #[trigger] items_view(items)[i] == items[i]@,
    decreases items.len(),
{
    if items.len() > 0 {
        let rest = items.subrange(0, items.len() - 1);
        lemma_items_view(rest);
        lemma_items_push(rest, items[items.len() - 1]);
        assert(rest.push(items[items.len() - 1]) =~= items);
        assert forall|i: int| 0 <= i < items.len() implies #[trigger] items_view(items)[i]
            == items[i]@ by {
            if i < rest.len() {
                assert(items_view(rest)[i] == rest[i]@);
            }
        }
    }
}

/// Law: what a value says is what it was written with. A truth, a number and a text are kept;
/// an array has its items in their order; an object has the names of its fields and no other,
/// and under each name the value of the last field that has it.
pub proof fn law_a_value_says_what_it_holds(value: Json)
    ensures
        match value {
            Json::Null => value@ == JsonView::Null,
            Json::Bool(truth) => value@ == JsonView::Bool(truth),
            Json::Number(number) => value@ == JsonView::Number(number),
            Json::String(text) => value@ == JsonView::String(text@),
            Json::Array(items) => value@ matches JsonView::Array(said) && {
                &&& said.len() == items@.len()
                &&& forall|i: int| 0 <= i < items@.len() ==> #[trigger] said[i] == items@[i]@
            },
            Json::Object(fields) => value@ matches JsonView::Object(said) && {
                &&& forall|name: Seq<char>| #[trigger]
                    said.contains_key(name) <==> exists|i: int|
                        0 <= i < fields@.len() && (#[trigger] fields@[i]).0@ == name
                &&& forall|i: int|
                    0 <= i < fields@.len() && (forall|j: int|
                        i < j < fields@.len() ==> (#[trigger] fields@[j]).0@ != fields@[i].0@)
                        ==> said[(#[trigger] fields@[i]).0@] == fields@[i].1@
            },
        },
{
    match value {
        Json::Array(items) => {
            lemma_items_view(items@);
        },
        Json::Object(fields) => {
            let said = fields_view(fields@);
            assert forall|name: Seq<char>| #[trigger]
                said.contains_key(name) <==> exists|i: int|
                    0 <= i < fields@.len() && (#[trigger] fields@[i]).0@ == name by {
                if said.contains_key(name) {
                    let i = lemma_some_field_counts(fields@, name);
                    assert(fields@[i].0@ == name);
                }
                if exists|i: int| 0 <= i < fields@.len() && (#[trigger] fields@[i]).0@ == name {
                    let i = choose|i: int|
                        0 <= i < fields@.len() && (#[trigger] fields@[i]).0@ == name;
                    lemma_field_has_name(fields@, i);
                }
            }
            assert forall|i: int|
                0 <= i < fields@.len() && (forall|j: int|
                    i < j < fields@.len() ==> (#[trigger] fields@[j]).0@
                        != fields@[i].0@) implies said[(#[trigger] fields@[i]).0@]
                == fields@[i].1@ by {
                assert(counts(fields@, i));
                lemma_field_counts(fields@, i);
            }
        },
        _ => {},
    }
}

/// Law: a value that may be missing says what it holds where it is there, and nothing where it
/// is not.
pub proof fn law_a_missing_value_says_nothing(value: Json)
    ensures
        json_view(Some(value)) == Some(value@),
        json_view(None) == None::<JsonView>,
        json_ref_view(Some(&value)) == Some(value@),
        json_ref_view(None) == None::<JsonView>,
{
}

/// Law: an object gives under a name what it has there, and only objects have anything under a
/// name. Only a string is a text, and it is the text it holds.
pub proof fn law_reading_a_field(value: JsonView, name: Seq<char>)
    ensures
        match value {
            JsonView::Object(fields) => {
                &&& fields.contains_key(name) ==> value.field(name) == Some(fields[name])
                &&& !fields.contains_key(name) ==> value.field(name) is None
                &&& value.text_field(name) == (match value.field(name) {
                    Some(JsonView::String(text)) => Some(text),
                    _ => None,
                })
                &&& value.text() is None
            },
            JsonView::String(text) => value.text() == Some(text) && value.field(name) is None
                && value.text_field(name) is None,
            _ => value.text() is None && value.field(name) is None && value.text_field(
                name,
            ) is None,
        },
{
}

/// Law: a whole number that fits 64 bits is kept as it is: as `Unsigned` where it is not
/// negative, and otherwise as `Negative`.
pub proof fn law_whole_numbers_are_kept(value: int)
    ensures
        0 <= value <= u64::MAX ==> (Number::whole(value) matches Number::Unsigned(kept) && kept
            == value),
        i64::MIN <= value < 0 ==> (Number::whole(value) matches Number::Negative(kept) && kept
            == value),
{
}

/// Law: numbers that are equal have one shape and one value. Two doubles that are not zeros are
/// equal only if their bits are, and the two zeros are equal.
pub proof fn law_equal_numbers(a: Number, b: Number)
    ensures
        match (a, b) {
            (Number::Unsigned(x), Number::Unsigned(y)) => a.equals(b) <==> x == y,
            (Number::Negative(x), Number::Negative(y)) => a.equals(b) <==> x == y,
            (Number::Double(x), Number::Double(y)) => a.equals(b) <==> x == y || (x
                % 0x8000_0000_0000_0000 == 0 && y % 0x8000_0000_0000_0000 == 0),
            _ => !a.equals(b),
        },
{
}

/// Law: values that are equal are of one kind and agree part by part, and values that do are
/// equal. Texts are equal only if they are the same text, arrays only if they have as many
/// items, and objects only if they have the same names.
pub proof fn law_equal_values_agree(a: JsonView, b: JsonView)
    ensures
        match (a, b) {
            (JsonView::Null, JsonView::Null) => a.equals(b),
            (JsonView::Bool(x), JsonView::Bool(y)) => a.equals(b) <==> x == y,
            (JsonView::Number(x), JsonView::Number(y)) => a.equals(b) <==> x.equals(y),
            (JsonView::String(x), JsonView::String(y)) => a.equals(b) <==> x == y,
            (JsonView::Array(x), JsonView::Array(y)) => a.equals(b) <==> x.len() == y.len()
                && forall|i: int| 0 <= i < x.len() ==> (#[trigger] x[i]).equals(y[i]),
            (JsonView::Object(x), JsonView::Object(y)) => a.equals(b) <==> (forall|name: Seq<char>|
                x.contains_key(name) <==> #[trigger] y.contains_key(name)) && (forall|
                name: Seq<char>,
            | #[trigger]
                x.contains_key(name) ==> x[name].equals(y[name])),
            _ => !a.equals(b),
        },
{
    if let (JsonView::Object(x), JsonView::Object(y)) = (a, b) {
        if forall|name: Seq<char>| x.contains_key(name) <==> #[trigger] y.contains_key(name) {
            assert(x.dom() =~= y.dom());
        }
    }
}

impl PartialEq for Json {
    fn eq(&self, other: &Json) -> (res: bool) {
        self.same(other)
    }
}

impl vstd::std_specs::cmp::PartialEqSpecImpl for Json {
    open spec fn obeys_eq_spec() -> bool {
        true
    }

    open spec fn eq_spec(&self, other: &Json) -> bool {
        self@.equals(other@)
    }
}

/// Law: `==` tells whether two numbers, or two values, are equal in what they say.
pub proof fn law_equality_is_told(a: Json, b: Json, m: Number, n: Number)
    ensures
        Json::obeys_eq_spec() && Number::obeys_eq_spec(),
        a.eq_spec(&b) <==> a@.equals(b@),
        m.eq_spec(&n) <==> m.equals(n),
{
}

impl Clone for Json {
    fn clone(&self) -> (res: Json)
        ensures
            res@ == self@,
        decreases self,
    {
        match self {
            Json::Null => Json::Null,
            Json::Bool(value) => Json::Bool(*value),
            Json::Number(number) => Json::Number(*number),
            Json::String(text) => Json::String(text.clone()),
            Json::Array(items) => {
                let mut copies: Vec<Json> = Vec::new();
                while copies.len() < items.len()
                    invariant
                        self == Json::Array(*items),
                        copies.len() <= items.len(),
                        items_view(copies@) == items_view(items@.subrange(0, copies.len() as int)),
                    decreases items.len() - copies.len(),
                {
                    let at: usize = copies.len();
                    assert(decreases_to!(*self => self->Array_0));
                    let copy = items[at].clone();
                    proof {
                        let done = items@.subrange(0, at as int);
                        lemma_items_push(copies@, copy);
                        lemma_items_push(done, items@[at as int]);
                        assert(done.push(items@[at as int]) =~= items@.subrange(0, at + 1));
                    }
                    copies.push(copy);
                }
                assert(items@.subrange(0, items.len() as int) =~= items@);
                Json::Array(copies)
            },
            Json::Object(fields) => {
                let mut copies: Vec<(String, Json)> = Vec::new();
                while copies.len() < fields.len()
                    invariant
                        self == Json::Object(*fields),
                        copies.len() <= fields.len(),
                        fields_view(copies@) == fields_view(
                            fields@.subrange(0, copies.len() as int),
                        ),
                    decreases fields.len() - copies.len(),
                {
                    let at: usize = copies.len();
                    assert(decreases_to!(*self => self->Object_0));
                    let copy = (fields[at].0.clone(), fields[at].1.clone());
                    proof {
                        let done = fields@.subrange(0, at as int);
                        lemma_fields_push(copies@, copy);
                        lemma_fields_push(done, fields@[at as int]);
                        assert(done.push(fields@[at as int]) =~= fields@.subrange(0, at + 1));
                    }
                    copies.push(copy);
                }
                assert(fields@.subrange(0, fields.len() as int) =~= fields@);
                Json::Object(copies)
            },
        }
    }
}

/// The fields of an object that is being written.
#[derive(Debug)]
pub struct Fields {
    fields: Vec<(String, Json)>,
}

impl View for Fields {
    type V = Map<Seq<char>, JsonView>;

    closed spec fn view(&self) -> Map<Seq<char>, JsonView> {
        fields_view(self.fields@)
    }
}

impl Fields {
    /// No field.
    pub fn new() -> (res: Fields)
        ensures
            res@ == Map::<Seq<char>, JsonView>::empty(),
    {
        Fields { fields: Vec::new() }
    }

    /// These fields, and the field `name` with `value`.
    pub fn with(self, name: &str, value: Json) -> (res: Fields)
        ensures
            res@ == self@.insert(name@, value@),
    {
        let mut fields = self.fields;
        let field = (name.to_owned(), value);
        proof {
            lemma_fields_push(fields@, field);
        }
        fields.push(field);
        Fields { fields }
    }

    /// The object of these fields.
    pub fn object(self) -> (res: Json)
        ensures
            res@ == JsonView::Object(self@),
    {
        Json::Object(self.fields)
    }
}

/// The items of an array that is being written.
#[derive(Debug)]
pub struct Items {
    items: Vec<Json>,
}

impl View for Items {
    type V = Seq<JsonView>;

    closed spec fn view(&self) -> Seq<JsonView> {
        items_view(self.items@)
    }
}

impl Items {
    /// No item.
    pub fn new() -> (res: Items)
        ensures
            res@ == Seq::<JsonView>::empty(),
    {
        Items { items: Vec::new() }
    }

    /// These items, and `item` behind them.
    pub fn with(self, item: Json) -> (res: Items)
        ensures
            res@ == self@.push(item@),
    {
        let mut items = self.items;
        proof {
            lemma_items_push(items@, item);
        }
        items.push(item);
        Items { items }
    }

    /// The array of these items.
    pub fn array(self) -> (res: Json)
        ensures
            res@ == JsonView::Array(self@),
    {
        Json::Array(self.items)
    }
}

/// The one JSON text that `bytes` are, or `None` where they are not one.
pub fn parse(bytes: &[u8]) -> (res: Option<Json>)
    ensures
        json_view(res) == parsed_json(bytes@),
{
    match read_value(bytes) {
        Some(value) => Some(json_of(value)),
        None => None,
    }
}

} // verus!
