//! JSON values, and how they are read and changed.

use crate::text::same;
use vstd::prelude::*;
use vstd::string::*;

verus! {

/// A JSON number: an integer that fits, or the text of any other number.
pub enum JsonNumber {
    Unsigned(u64),
    Negative(i64),
    Other(String),
}

/// A JSON value. The fields of an object stand in the order in which they are
/// walked.
pub enum Json {
    Null,
    Bool(bool),
    Number(JsonNumber),
    Text(String),
    Array(Vec<Json>),
    Object(Vec<(String, Json)>),
}

pub enum NumberView {
    Unsigned(u64),
    Negative(i64),
    Other(Seq<char>),
}

pub type FieldsView = Seq<(Seq<char>, JsonView)>;

pub enum JsonView {
    Null,
    Bool(bool),
    Number(NumberView),
    Text(Seq<char>),
    Array(Seq<JsonView>),
    Object(Seq<(Seq<char>, JsonView)>),
}

impl View for JsonNumber {
    type V = NumberView;

    open spec fn view(&self) -> NumberView {
        match self {
            JsonNumber::Unsigned(n) => NumberView::Unsigned(*n),
            JsonNumber::Negative(n) => NumberView::Negative(*n),
            JsonNumber::Other(s) => NumberView::Other(s@),
        }
    }
}

pub open spec fn view_of(v: Json) -> JsonView
    decreases v,
{
    match v {
        Json::Null => JsonView::Null,
        Json::Bool(b) => JsonView::Bool(b),
        Json::Number(n) => JsonView::Number(n@),
        Json::Text(s) => JsonView::Text(s@),
        Json::Array(items) => JsonView::Array(
            Seq::new(
                items@.len(),
                |i: int|
                    if 0 <= i < items@.len() {
                        view_of(items@[i])
                    } else {
                        arbitrary()
                    },
            ),
        ),
        Json::Object(fields) => JsonView::Object(
            Seq::new(
                fields@.len(),
                |i: int|
                    if 0 <= i < fields@.len() {
                        (fields@[i].0@, view_of(fields@[i].1))
                    } else {
                        arbitrary()
                    },
            ),
        ),
    }
}

impl View for Json {
    type V = JsonView;

    open spec fn view(&self) -> JsonView {
        view_of(*self)
    }
}

pub open spec fn items_view(v: Seq<Json>) -> Seq<JsonView> {
    Seq::new(v.len(), |i: int| v[i]@)
}

pub open spec fn fields_view(v: Seq<(String, Json)>) -> FieldsView {
    Seq::new(v.len(), |i: int| (v[i].0@, v[i].1@))
}

pub open spec fn opt_json(v: Option<&Json>) -> Option<JsonView> {
    match v {
        Some(j) => Some(j@),
        None => None,
    }
}

pub open spec fn opt_str(v: Option<&str>) -> Option<Seq<char>> {
    match v {
        Some(s) => Some(s@),
        None => None,
    }
}

/// The value of the first field named `key`.
pub open spec fn lookup(fields: FieldsView, key: Seq<char>) -> Option<JsonView>
    decreases fields.len(),
{
    if fields.len() == 0 {
        None
    } else if fields[0].0 == key {
        Some(fields[0].1)
    } else {
        lookup(fields.drop_first(), key)
    }
}

/// The fields with `value` for the first one named `key`, or with such a
/// field at the end where there was none.
pub open spec fn put(fields: FieldsView, key: Seq<char>, value: JsonView) -> FieldsView
    decreases fields.len(),
{
    if fields.len() == 0 {
        seq![(key, value)]
    } else if fields[0].0 == key {
        seq![(key, value)] + fields.drop_first()
    } else {
        seq![fields[0]] + put(fields.drop_first(), key, value)
    }
}

/// What the object `v` holds under `key`; nothing where `v` is no object.
pub open spec fn field(v: JsonView, key: Seq<char>) -> Option<JsonView> {
    match v {
        JsonView::Object(fields) => lookup(fields, key),
        _ => None,
    }
}

/// `field` of a value that may be absent.
pub open spec fn then_field(v: Option<JsonView>, key: Seq<char>) -> Option<JsonView> {
    match v {
        Some(x) => field(x, key),
        None => None,
    }
}

pub open spec fn as_text(v: JsonView) -> Option<Seq<char>> {
    match v {
        JsonView::Text(s) => Some(s),
        _ => None,
    }
}

pub open spec fn then_text(v: Option<JsonView>) -> Option<Seq<char>> {
    match v {
        Some(x) => as_text(x),
        None => None,
    }
}

pub open spec fn as_u64(v: JsonView) -> Option<u64> {
    match v {
        JsonView::Number(NumberView::Unsigned(n)) => Some(n),
        _ => None,
    }
}

pub open spec fn then_u64(v: Option<JsonView>) -> Option<u64> {
    match v {
        Some(x) => as_u64(x),
        None => None,
    }
}

pub open spec fn as_i64(v: JsonView) -> Option<i64> {
    match v {
        JsonView::Number(NumberView::Unsigned(n)) => if n <= i64::MAX {
            Some(n as i64)
        } else {
            None
        },
        JsonView::Number(NumberView::Negative(n)) => Some(n),
        _ => None,
    }
}

pub open spec fn as_array(v: JsonView) -> Option<Seq<JsonView>> {
    match v {
        JsonView::Array(items) => Some(items),
        _ => None,
    }
}

pub open spec fn then_array(v: Option<JsonView>) -> Option<Seq<JsonView>> {
    match v {
        Some(x) => as_array(x),
        None => None,
    }
}

pub open spec fn as_object(v: JsonView) -> Option<FieldsView> {
    match v {
        JsonView::Object(fields) => Some(fields),
        _ => None,
    }
}

pub open spec fn then_object(v: Option<JsonView>) -> Option<FieldsView> {
    match v {
        Some(x) => as_object(x),
        None => None,
    }
}

/// What was put under a key is what is read back under it, and every other
/// key reads as before.
pub proof fn law_put_then_lookup(
    fields: FieldsView,
    key: Seq<char>,
    value: JsonView,
    other: Seq<char>,
)
    ensures
        lookup(put(fields, key, value), key) == Some(value),
        other != key ==> lookup(put(fields, key, value), other) == lookup(fields, other),
    decreases fields.len(),
{
    let after = put(fields, key, value);
    if fields.len() == 0 {
        assert(after.drop_first() =~= Seq::empty());
        assert(lookup(after.drop_first(), other) is None);
    } else if fields[0].0 == key {
        assert(after.drop_first() =~= fields.drop_first());
    } else {
        law_put_then_lookup(fields.drop_first(), key, value, other);
        assert(after.drop_first() =~= put(fields.drop_first(), key, value));
    }
}

/// `lookup` by place: the value at the first place that has the key.
pub proof fn lemma_lookup_at(fields: FieldsView, key: Seq<char>, i: int)
    requires
        0 <= i <= fields.len(),
        forall|j: int| 0 <= j < i ==> (#[trigger] fields[j]).0 != key,
        i < fields.len() ==> fields[i].0 == key,
    ensures
        lookup(fields, key) == (if i < fields.len() {
            Some(fields[i].1)
        } else {
            None
        }),
    decreases fields.len(),
{
    if i > 0 {
        let rest = fields.drop_first();
        assert forall|j: int| 0 <= j < i - 1 implies (#[trigger] rest[j]).0 != key by {
            assert(rest[j] == fields[j + 1]);
        }
        lemma_lookup_at(rest, key, i - 1);
    }
}

/// `put` by place.
pub proof fn lemma_put_at(fields: FieldsView, key: Seq<char>, value: JsonView, i: int)
    requires
        0 <= i <= fields.len(),
        forall|j: int| 0 <= j < i ==> (#[trigger] fields[j]).0 != key,
        i < fields.len() ==> fields[i].0 == key,
    ensures
        put(fields, key, value) == (if i < fields.len() {
            fields.update(i, (key, value))
        } else {
            fields.push((key, value))
        }),
    decreases fields.len(),
{
    if fields.len() == 0 {
        assert(put(fields, key, value) =~= fields.push((key, value)));
    } else if i == 0 {
        assert(put(fields, key, value) =~= fields.update(0, (key, value)));
    } else {
        let rest = fields.drop_first();
        assert forall|j: int| 0 <= j < i - 1 implies (#[trigger] rest[j]).0 != key by {
            assert(rest[j] == fields[j + 1]);
        }
        lemma_put_at(rest, key, value, i - 1);
        if i < fields.len() {
            assert(put(fields, key, value) =~= fields.update(i, (key, value)));
        } else {
            assert(put(fields, key, value) =~= fields.push((key, value)));
        }
    }
}

/// The place of the first field named `key`, or the number of fields.
fn place_of(fields: &Vec<(String, Json)>, key: &str) -> (r: usize)
    ensures
        r <= fields@.len(),
        forall|j: int| 0 <= j < r ==> (#[trigger] fields_view(fields@)[j]).0 != key@,
        r < fields@.len() ==> fields@[r as int].0@ == key@,
{
    let mut i: usize = 0;
    while i < fields.len()
        invariant
            i <= fields@.len(),
            forall|j: int| 0 <= j < i ==> (#[trigger] fields_view(fields@)[j]).0 != key@,
        decreases fields@.len() - i,
    {
        if same(fields[i].0.as_str(), key) {
            return i;
        }
        i = i + 1;
    }
    i
}

/// The value of the first field named `key`.
pub fn find_field<'a>(fields: &'a Vec<(String, Json)>, key: &str) -> (r: Option<&'a Json>)
    ensures
        opt_json(r) == lookup(fields_view(fields@), key@),
{
    let i: usize = place_of(fields, key);
    proof {
        lemma_lookup_at(fields_view(fields@), key@, i as int);
    }
    if i < fields.len() {
        Some(&fields[i].1)
    } else {
        None
    }
}

/// Puts `value` under `key`.
pub fn put_field(fields: &mut Vec<(String, Json)>, key: &str, value: Json)
    ensures
        fields_view(final(fields)@) == put(fields_view(old(fields)@), key@, value@),
{
    let i: usize = place_of(fields, key);
    proof {
        lemma_put_at(fields_view(fields@), key@, value@, i as int);
    }
    let ghost before = fields@;
    if i < fields.len() {
        fields.set(i, (key.to_owned(), value));
        assert(fields_view(fields@) =~= fields_view(before).update(i as int, (key@, value@)));
    } else {
        fields.push((key.to_owned(), value));
        assert(fields_view(fields@) =~= fields_view(before).push((key@, value@)));
    }
}

/// What an object that may be absent holds under `key`.
pub fn then_get<'a>(v: Option<&'a Json>, key: &str) -> (r: Option<&'a Json>)
    ensures
        opt_json(r) == then_field(opt_json(v), key@),
{
    match v {
        Some(j) => j.get(key),
        None => None,
    }
}

/// The text of a value that may be absent.
pub fn then_str<'a>(v: Option<&'a Json>) -> (r: Option<&'a str>)
    ensures
        opt_str(r) == then_text(opt_json(v)),
{
    match v {
        Some(j) => j.as_str(),
        None => None,
    }
}

/// The items of a value that may be absent.
pub fn then_items<'a>(v: Option<&'a Json>) -> (r: Option<&'a Vec<Json>>)
    ensures
        then_array(opt_json(v)) == (match r {
            Some(items) => Some(items_view(items@)),
            None => None,
        }),
{
    match v {
        Some(j) => j.as_array(),
        None => None,
    }
}

/// The fields of a value that may be absent.
pub fn then_fields<'a>(v: Option<&'a Json>) -> (r: Option<&'a Vec<(String, Json)>>)
    ensures
        then_object(opt_json(v)) == (match r {
            Some(fields) => Some(fields_view(fields@)),
            None => None,
        }),
{
    match v {
        Some(j) => j.as_object(),
        None => None,
    }
}

/// The start of an object.
pub fn no_fields() -> (r: Vec<(String, Json)>)
    ensures
        fields_view(r@) == FieldsView::empty(),
{
    let r: Vec<(String, Json)> = Vec::new();
    assert(fields_view(r@) =~= FieldsView::empty());
    r
}

/// The fields and one more behind them.
pub fn and_field(fields: Vec<(String, Json)>, key: &str, value: Json) -> (r: Vec<(String, Json)>)
    ensures
        fields_view(r@) == fields_view(fields@).push((key@, value@)),
{
    let mut r = fields;
    r.push((key.to_owned(), value));
    assert(fields_view(r@) =~= fields_view(fields@).push((key@, value@)));
    r
}

/// The object with these fields.
pub fn object(fields: Vec<(String, Json)>) -> (r: Json)
    ensures
        r@ == JsonView::Object(fields_view(fields@)),
{
    let r = Json::Object(fields);
    proof {
        r.lemma_view();
    }
    r
}

/// The string `s`.
pub fn text(s: &str) -> (r: Json)
    ensures
        r@ == JsonView::Text(s@),
{
    Json::Text(s.to_owned())
}

impl Json {
    pub proof fn lemma_view(self)
        ensures
            self matches Json::Array(items) ==> self@ == JsonView::Array(items_view(items@)),
            self matches Json::Object(fields) ==> self@ == JsonView::Object(fields_view(fields@)),
    {
        match self {
            Json::Array(items) => {
                assert(self@->Array_0 =~= items_view(items@));
            },
            Json::Object(fields) => {
                assert(self@->Object_0 =~= fields_view(fields@));
            },
            _ => {},
        }
    }

    /// What the object holds under `key`; nothing where this is no object.
    pub fn get(&self, key: &str) -> (r: Option<&Json>)
        ensures
            opt_json(r) == field(self@, key@),
    {
        proof {
            self.lemma_view();
        }
        match self {
            Json::Object(fields) => find_field(fields, key),
            _ => None,
        }
    }

    pub fn as_str(&self) -> (r: Option<&str>)
        ensures
            opt_str(r) == as_text(self@),
    {
        match self {
            Json::Text(s) => Some(s.as_str()),
            _ => None,
        }
    }

    pub fn as_u64(&self) -> (r: Option<u64>)
        ensures
            r == as_u64(self@),
    {
        match self {
            Json::Number(JsonNumber::Unsigned(n)) => Some(*n),
            _ => None,
        }
    }

    pub fn as_i64(&self) -> (r: Option<i64>)
        ensures
            r == as_i64(self@),
    {
        match self {
            Json::Number(JsonNumber::Unsigned(n)) => if *n <= i64::MAX as u64 {
                Some(*n as i64)
            } else {
                None
            },
            Json::Number(JsonNumber::Negative(n)) => Some(*n),
            _ => None,
        }
    }

    pub fn as_array(&self) -> (r: Option<&Vec<Json>>)
        ensures
            as_array(self@) == (match r {
                Some(items) => Some(items_view(items@)),
                None => None,
            }),
    {
        proof {
            self.lemma_view();
        }
        match self {
            Json::Array(items) => Some(items),
            _ => None,
        }
    }

    pub fn as_object(&self) -> (r: Option<&Vec<(String, Json)>>)
        ensures
            as_object(self@) == (match r {
                Some(fields) => Some(fields_view(fields@)),
                None => None,
            }),
    {
        proof {
            self.lemma_view();
        }
        match self {
            Json::Object(fields) => Some(fields),
            _ => None,
        }
    }

    pub fn is_object(&self) -> (r: bool)
        ensures
            r == (self@ is Object),
    {
        match self {
            Json::Object(_) => true,
            _ => false,
        }
    }

    pub fn is_null(&self) -> (r: bool)
        ensures
            r == (self@ is Null),
    {
        match self {
            Json::Null => true,
            _ => false,
        }
    }

    /// The same value once more.
    pub fn copy(&self) -> (r: Json)
        ensures
            r@ == self@,
        decreases self,
    {
        proof {
            self.lemma_view();
        }
        match self {
            Json::Null => Json::Null,
            Json::Bool(b) => Json::Bool(*b),
            Json::Number(JsonNumber::Unsigned(n)) => Json::Number(JsonNumber::Unsigned(*n)),
            Json::Number(JsonNumber::Negative(n)) => Json::Number(JsonNumber::Negative(*n)),
            Json::Number(JsonNumber::Other(s)) => Json::Number(JsonNumber::Other(s.clone())),
            Json::Text(s) => Json::Text(s.clone()),
            Json::Array(items) => {
                let mut out: Vec<Json> = Vec::new();
                for i in 0..items.len()
                    invariant
                        self matches Json::Array(x) && x == items,
                        items_view(out@) == items_view(items@).take(i as int),
                {
                    let item = items[i].copy();
                    let ghost before = out@;
                    out.push(item);
                    assert(items_view(out@) =~= items_view(before).push(item@));
                    assert(items_view(out@) =~= items_view(items@).take(i + 1));
                }
                assert(items_view(out@) =~= items_view(items@));
                let r = Json::Array(out);
                proof {
                    r.lemma_view();
                }
                r
            },
            Json::Object(fields) => {
                let mut out: Vec<(String, Json)> = Vec::new();
                for i in 0..fields.len()
                    invariant
                        self matches Json::Object(x) && x == fields,
                        fields_view(out@) == fields_view(fields@).take(i as int),
                {
                    let value = fields[i].1.copy();
                    let ghost before = out@;
                    out.push((fields[i].0.clone(), value));
                    assert(fields_view(out@) =~= fields_view(before).push(
                        (fields@[i as int].0@, value@),
                    ));
                    assert(fields_view(out@) =~= fields_view(fields@).take(i + 1));
                }
                assert(fields_view(out@) =~= fields_view(fields@));
                let r = Json::Object(out);
                proof {
                    r.lemma_view();
                }
                r
            },
        }
    }
}

/// No name stands twice among the fields.
pub open spec fn distinct_names(fields: FieldsView) -> bool {
    forall|i: int, j: int|
        0 <= i < j < fields.len() ==> (#[trigger] fields[i]).0 != (#[trigger] fields[j]).0
}

/// Fields are found by name wherever they stand, and nothing else is.
pub proof fn law_fields_are_found(fields: FieldsView, key: Seq<char>)
    ensures
        lookup(fields, key) is Some <==> exists|i: int|
            0 <= i < fields.len() && (#[trigger] fields[i]).0 == key,
        forall|i: int|
            0 <= i < fields.len() && (#[trigger] fields[i]).0 == key && distinct_names(fields)
                ==> lookup(fields, key) == Some(fields[i].1),
    decreases fields.len(),
{
    if fields.len() > 0 {
        let rest = fields.drop_first();
        law_fields_are_found(rest, key);
        if fields[0].0 != key {
            if lookup(rest, key) is Some {
                let i = choose|i: int| 0 <= i < rest.len() && (#[trigger] rest[i]).0 == key;
                assert(fields[i + 1].0 == key);
            }
            assert forall|i: int| 0 <= i < fields.len() && (#[trigger] fields[i]).0 == key implies {
                &&& lookup(fields, key) is Some
                &&& distinct_names(fields) ==> lookup(fields, key) == Some(fields[i].1)
            } by {
                assert(rest[i - 1] == fields[i]);
                if distinct_names(fields) {
                    assert forall|a: int, b: int| 0 <= a < b < rest.len() implies (
                    #[trigger] rest[a]).0 != (#[trigger] rest[b]).0 by {
                        assert(rest[a] == fields[a + 1] && rest[b] == fields[b + 1]);
                    }
                }
            }
        } else {
            assert(fields[0].0 == key);
            assert forall|i: int|
                0 <= i < fields.len() && (#[trigger] fields[i]).0 == key && distinct_names(
                    fields,
                ) implies lookup(fields, key) == Some(fields[i].1) by {
                if i > 0 {
                    assert(fields[0].0 != fields[i].0);
                }
            }
        }
    }
}

/// Putting a field keeps the others where they stand, and gives no name twice.
pub proof fn law_put_keeps_the_rest(fields: FieldsView, key: Seq<char>, value: JsonView)
    ensures
        put(fields, key, value).len() == fields.len() + (if lookup(fields, key) is Some {
            0int
        } else {
            1int
        }),
        forall|i: int|
            0 <= i < fields.len() ==> (#[trigger] put(fields, key, value)[i]).0 == fields[i].0 && (
            fields[i].0 != key ==> put(fields, key, value)[i] == fields[i]),
        lookup(fields, key) is None ==> put(fields, key, value).last() == (key, value),
        distinct_names(fields) ==> distinct_names(put(fields, key, value)),
    decreases fields.len(),
{
    let after = put(fields, key, value);
    law_fields_are_found(fields, key);
    if fields.len() > 0 {
        let rest = fields.drop_first();
        law_put_keeps_the_rest(rest, key, value);
        if fields[0].0 != key {
            let later = put(rest, key, value);
            assert forall|i: int| 0 <= i < fields.len() implies (#[trigger] after[i]).0
                == fields[i].0 && (fields[i].0 != key ==> after[i] == fields[i]) by {
                if i > 0 {
                    assert(after[i] == later[i - 1]);
                    assert(rest[i - 1] == fields[i]);
                }
            }
            assert(lookup(rest, key) == lookup(fields, key));
            if lookup(fields, key) is None {
                assert(after.last() == later.last());
            }
        }
    }
    if distinct_names(fields) {
        assert forall|i: int, j: int| 0 <= i < j < after.len() implies (#[trigger] after[i]).0 != (
        #[trigger] after[j]).0 by {
            if j < fields.len() {
                assert(fields[i].0 != fields[j].0);
            } else {
                assert(after[j] == (key, value));
                assert(fields[i].0 != key);
            }
        }
    }
}

/// A value is read as what it is, and as nothing else.
pub proof fn law_values_are_read_as_they_are(v: JsonView, key: Seq<char>)
    ensures
        as_text(v) == (if v is Text {
            Some(v->Text_0)
        } else {
            None
        }),
        as_array(v) == (if v is Array {
            Some(v->Array_0)
        } else {
            None
        }),
        as_object(v) == (if v is Object {
            Some(v->Object_0)
        } else {
            None
        }),
        as_u64(v) is Some <==> v is Number && v->Number_0 is Unsigned,
        as_u64(v) matches Some(n) ==> v == JsonView::Number(NumberView::Unsigned(n)),
        as_i64(v) matches Some(n) ==> v == JsonView::Number(NumberView::Negative(n)) || (n >= 0 && v
            == JsonView::Number(NumberView::Unsigned(n as u64))),
        v is Number && (v->Number_0 is Negative || (v->Number_0 matches NumberView::Unsigned(n) && n
            <= i64::MAX)) ==> as_i64(v) is Some,
        then_text(Some(v)) == as_text(v) && then_text(None) is None,
        then_array(Some(v)) == as_array(v) && then_array(None) is None,
        then_object(Some(v)) == as_object(v) && then_object(None) is None,
        then_u64(Some(v)) == as_u64(v) && then_u64(None) is None,
        !(v is Object) ==> field(v, key) is None,
        v is Object ==> field(v, key) == lookup(v->Object_0, key),
        then_field(Some(v), key) == field(v, key) && then_field(None, key) is None,
{
}

} // verus!
