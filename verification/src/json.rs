//! JSON values: what commands bring in and what goes out to the browser.
use vstd::prelude::*;
use vstd::string::*;

use crate::text::{pairs, same, texts};

verus! {

/// A floating-point number, held as its 64 bits in IEEE 754 binary format.
#[derive(Clone, Copy, PartialEq, Eq, Structural, Debug)]
pub struct Real {
    pub bits: u64,
}

impl Real {
    /// The number is at least zero. Negative zero is; what is not a number is not.
    pub open spec fn not_negative(self) -> bool {
        self.bits <= 0x7ff0_0000_0000_0000 || self.bits == 0x8000_0000_0000_0000
    }

    /// The number is more than zero.
    pub open spec fn positive(self) -> bool {
        0 < self.bits <= 0x7ff0_0000_0000_0000
    }
}

/// A JSON number: an unsigned integer, a negative integer or a floating-point
/// number.
#[derive(Clone, Copy, PartialEq, Eq, Structural, Debug)]
pub enum Num {
    Unsigned(u64),
    Negative(i64),
    Float(Real),
}

impl Num {
    /// The JSON number of an integer.
    pub open spec fn spec_of_i64(n: i64) -> Num {
        if n < 0 {
            Num::Negative(n)
        } else {
            Num::Unsigned(n as u64)
        }
    }

    /// The JSON number of an integer.
    #[verifier::when_used_as_spec(spec_of_i64)]
    pub fn of_i64(n: i64) -> (r: Num)
        ensures
            r == Num::spec_of_i64(n),
    {
        if n < 0 {
            Num::Negative(n)
        } else {
            Num::Unsigned(n as u64)
        }
    }

    /// The number is at least zero.
    pub open spec fn not_negative(self) -> bool {
        match self {
            Num::Unsigned(_) => true,
            Num::Negative(n) => n >= 0,
            Num::Float(x) => x.not_negative(),
        }
    }

    /// The number is more than zero.
    pub open spec fn positive(self) -> bool {
        match self {
            Num::Unsigned(n) => n > 0,
            Num::Negative(n) => n > 0,
            Num::Float(x) => x.positive(),
        }
    }

    /// Whether the number is at least zero.
    pub fn is_not_negative(&self) -> (r: bool)
        ensures
            r == self.not_negative(),
    {
        match self {
            Num::Unsigned(_) => true,
            Num::Negative(n) => *n >= 0,
            Num::Float(x) => x.bits <= 0x7ff0_0000_0000_0000 || x.bits == 0x8000_0000_0000_0000,
        }
    }

    /// Whether the number is more than zero.
    pub fn is_positive(&self) -> (r: bool)
        ensures
            r == self.positive(),
    {
        match self {
            Num::Unsigned(n) => *n > 0,
            Num::Negative(n) => *n > 0,
            Num::Float(x) => 0 < x.bits && x.bits <= 0x7ff0_0000_0000_0000,
        }
    }
}

/// A JSON value. The fields of an object stand in their order.
#[derive(PartialEq, Eq, Debug)]
pub enum Json {
    Null,
    Bool(bool),
    Number(Num),
    Str(String),
    Array(Vec<Json>),
    Object(Vec<(String, Json)>),
}

/// What a JSON value holds.
pub ghost enum JsonV {
    Null,
    Bool(bool),
    Number(Num),
    Str(Seq<char>),
    Array(Seq<JsonV>),
    Object(Seq<(Seq<char>, JsonV)>),
}

/// The value of the first field with the given key.
pub open spec fn field(fields: Seq<(Seq<char>, JsonV)>, key: Seq<char>) -> Option<JsonV>
    decreases fields.len(),
{
    if fields.len() == 0 {
        None
    } else if fields[0].0 == key {
        Some(fields[0].1)
    } else {
        field(fields.skip(1), key)
    }
}

/// The items that are strings, in order.
pub open spec fn string_items(items: Seq<JsonV>) -> Seq<Seq<char>>
    decreases items.len(),
{
    if items.len() == 0 {
        Seq::<Seq<char>>::empty()
    } else {
        let before = string_items(items.drop_last());
        match items.last() {
            JsonV::Str(s) => before.push(s),
            _ => before,
        }
    }
}

/// The fields that hold strings, in order.
pub open spec fn string_fields(fields: Seq<(Seq<char>, JsonV)>) -> Seq<(Seq<char>, Seq<char>)>
    decreases fields.len(),
{
    if fields.len() == 0 {
        Seq::<(Seq<char>, Seq<char>)>::empty()
    } else {
        let before = string_fields(fields.drop_last());
        match fields.last().1 {
            JsonV::Str(s) => before.push((fields.last().0, s)),
            _ => before,
        }
    }
}

impl JsonV {
    /// What an object holds under a key; nothing for any other value.
    pub open spec fn get(self, key: Seq<char>) -> Option<JsonV> {
        match self {
            JsonV::Object(fields) => field(fields, key),
            _ => None,
        }
    }

    pub open spec fn as_str(self) -> Option<Seq<char>> {
        match self {
            JsonV::Str(s) => Some(s),
            _ => None,
        }
    }

    pub open spec fn as_bool(self) -> Option<bool> {
        match self {
            JsonV::Bool(b) => Some(b),
            _ => None,
        }
    }

    pub open spec fn as_number(self) -> Option<Num> {
        match self {
            JsonV::Number(n) => Some(n),
            _ => None,
        }
    }

    /// The number, where it is an integer within the range of `u64`.
    pub open spec fn as_u64(self) -> Option<u64> {
        match self {
            JsonV::Number(Num::Unsigned(n)) => Some(n),
            _ => None,
        }
    }

    /// The number, where it is an integer within the range of `i64`.
    pub open spec fn as_i64(self) -> Option<i64> {
        match self {
            JsonV::Number(Num::Unsigned(n)) => if n <= i64::MAX {
                Some(n as i64)
            } else {
                None
            },
            JsonV::Number(Num::Negative(n)) => Some(n),
            _ => None,
        }
    }

    pub open spec fn as_array(self) -> Option<Seq<JsonV>> {
        match self {
            JsonV::Array(items) => Some(items),
            _ => None,
        }
    }

    pub open spec fn as_object(self) -> Option<Seq<(Seq<char>, JsonV)>> {
        match self {
            JsonV::Object(fields) => Some(fields),
            _ => None,
        }
    }

    /// The string under a key.
    pub open spec fn str_at(self, key: Seq<char>) -> Option<Seq<char>> {
        match self.get(key) {
            Some(v) => v.as_str(),
            None => None,
        }
    }

    /// The truth value under a key.
    pub open spec fn bool_at(self, key: Seq<char>) -> Option<bool> {
        match self.get(key) {
            Some(v) => v.as_bool(),
            None => None,
        }
    }

    /// The number under a key.
    pub open spec fn number_at(self, key: Seq<char>) -> Option<Num> {
        match self.get(key) {
            Some(v) => v.as_number(),
            None => None,
        }
    }

    pub open spec fn u64_at(self, key: Seq<char>) -> Option<u64> {
        match self.get(key) {
            Some(v) => v.as_u64(),
            None => None,
        }
    }

    pub open spec fn i64_at(self, key: Seq<char>) -> Option<i64> {
        match self.get(key) {
            Some(v) => v.as_i64(),
            None => None,
        }
    }
}

/// What a list of JSON values holds.
pub open spec fn items_view(items: Seq<Json>) -> Seq<JsonV>
    decreases items,
{
    if items.len() == 0 {
        Seq::<JsonV>::empty()
    } else {
        items_view(items.drop_last()).push(items.last().view())
    }
}

/// What a list of fields holds.
pub open spec fn fields_view(fields: Seq<(String, Json)>) -> Seq<(Seq<char>, JsonV)>
    decreases fields,
{
    if fields.len() == 0 {
        Seq::<(Seq<char>, JsonV)>::empty()
    } else {
        fields_view(fields.drop_last()).push((fields.last().0@, fields.last().1.view()))
    }
}

impl Json {
    /// What the value holds.
    pub open spec fn view(self) -> JsonV
        decreases self,
    {
        match self {
            Json::Null => JsonV::Null,
            Json::Bool(b) => JsonV::Bool(b),
            Json::Number(n) => JsonV::Number(n),
            Json::Str(s) => JsonV::Str(s@),
            Json::Array(items) => JsonV::Array(items_view(items@)),
            Json::Object(fields) => JsonV::Object(fields_view(fields@)),
        }
    }
}

/// What an optional JSON value holds.
pub open spec fn seen(v: Option<&Json>) -> Option<JsonV> {
    match v {
        Some(v) => Some(v.view()),
        None => None,
    }
}

/// What an optional JSON value holds.
pub open spec fn seen_value(v: Option<Json>) -> Option<JsonV> {
    match v {
        Some(v) => Some(v.view()),
        None => None,
    }
}

/// The contents of an optional string slice.
pub open spec fn opt_str(s: Option<&str>) -> Option<Seq<char>> {
    match s {
        Some(s) => Some(s@),
        None => None,
    }
}

/// The contents of an optional string.
pub open spec fn opt_string(s: Option<String>) -> Option<Seq<char>> {
    match s {
        Some(s) => Some(s@),
        None => None,
    }
}

/// The value, or the given one where there is none.
pub open spec fn or_else<T>(v: Option<T>, default: T) -> T {
    match v {
        Some(v) => v,
        None => default,
    }
}

pub(crate) proof fn lemma_items_view(items: Seq<Json>)
    ensures
        items_view(items).len() == items.len(),
        forall|i: int|
            0 <= i < items.len() ==> #[trigger] items_view(items)[i] == items[i].view(),
    decreases items.len(),
{
    if items.len() > 0 {
        lemma_items_view(items.drop_last());
    }
}

/// The view of fields holds each of them in its place.
pub proof fn lemma_fields_view(fields: Seq<(String, Json)>)
    ensures
        fields_view(fields).len() == fields.len(),
        forall|i: int|
            0 <= i < fields.len() ==> #[trigger] fields_view(fields)[i] == (
                fields[i].0@,
                fields[i].1.view(),
            ),
    decreases fields.len(),
{
    if fields.len() > 0 {
        lemma_fields_view(fields.drop_last());
    }
}

/// The view of fields with one more holds that one more.
pub proof fn lemma_fields_push(fields: Seq<(String, Json)>, f: (String, Json))
    ensures
        fields_view(fields.push(f)) == fields_view(fields).push((f.0@, f.1.view())),
{
    assert(fields.push(f).drop_last() == fields);
}

pub(crate) proof fn lemma_items_push(items: Seq<Json>, v: Json)
    ensures
        items_view(items.push(v)) == items_view(items).push(v.view()),
{
    assert(items.push(v).drop_last() == items);
}

pub(crate) proof fn lemma_field_found(fields: Seq<(Seq<char>, JsonV)>, key: Seq<char>, i: int)
    requires
        0 <= i <= fields.len(),
        forall|j: int| 0 <= j < i ==> (#[trigger] fields[j]).0 != key,
        i < fields.len() ==> fields[i].0 == key,
    ensures
        field(fields, key) == (if i < fields.len() {
            Some(fields[i].1)
        } else {
            None
        }),
    decreases i,
{
    if i > 0 {
        assert(fields[0].0 != key);
        assert forall|j: int| 0 <= j < i - 1 implies (#[trigger] fields.skip(1)[j]).0 != key by {
            assert(fields[j + 1].0 != key);
        }
        lemma_field_found(fields.skip(1), key, i - 1);
    }
}

/// An owned copy of an optional string slice.
pub fn owned(s: Option<&str>) -> (r: Option<String>)
    ensures
        opt_string(r) == opt_str(s),
{
    match s {
        Some(s) => Some(s.to_owned()),
        None => None,
    }
}

/// A copy of an optional string.
pub fn copied(s: &Option<String>) -> (r: Option<String>)
    ensures
        opt_string(r) == opt_string(*s),
{
    match s {
        Some(s) => Some(s.clone()),
        None => None,
    }
}

/// A copy of a list of strings.
pub fn copied_texts(list: &Vec<String>) -> (r: Vec<String>)
    ensures
        texts(r@) == texts(list@),
{
    let mut out: Vec<String> = Vec::new();
    for i in 0..list.len()
        invariant
            texts(out@) == texts(list@).take(i as int),
    {
        let ghost before = texts(out@);
        out.push(list[i].clone());
        assert(texts(out@) == before.push(list@[i as int]@));
        assert(texts(list@).take(i + 1) == texts(list@).take(i as int).push(list@[i as int]@));
    }
    assert(texts(list@).take(list@.len() as int) == texts(list@));
    out
}

/// A copy of a list of string pairs.
pub fn copied_pairs(list: &Vec<(String, String)>) -> (r: Vec<(String, String)>)
    ensures
        pairs(r@) == pairs(list@),
{
    let mut out: Vec<(String, String)> = Vec::new();
    for i in 0..list.len()
        invariant
            pairs(out@) == pairs(list@).take(i as int),
    {
        let ghost before = pairs(out@);
        out.push((list[i].0.clone(), list[i].1.clone()));
        assert(pairs(out@) == before.push((list@[i as int].0@, list@[i as int].1@)));
        assert(pairs(list@).take(i + 1) == pairs(list@).take(i as int).push(
            (list@[i as int].0@, list@[i as int].1@),
        ));
    }
    assert(pairs(list@).take(list@.len() as int) == pairs(list@));
    out
}

impl Json {
    /// What an object holds under a key; nothing for any other value.
    pub fn get(&self, key: &str) -> (r: Option<&Json>)
        ensures
            seen(r) == self.view().get(key@),
    {
        match self {
            Json::Object(fields) => {
                proof {
                    lemma_fields_view(fields@);
                }
                let ghost fv = fields_view(fields@);
                let mut i: usize = 0;
                while i < fields.len()
                    invariant
                        i <= fields@.len(),
                        fv == fields_view(fields@),
                        fv.len() == fields@.len(),
                        forall|j: int|
                            0 <= j < fields@.len() ==> #[trigger] fv[j] == (
                                fields@[j].0@,
                                fields@[j].1.view(),
                            ),
                        forall|j: int| 0 <= j < i ==> (#[trigger] fv[j]).0 != key@,
                        self.view() == JsonV::Object(fv),
                    decreases fields@.len() - i,
                {
                    if same(&fields[i].0, key) {
                        proof {
                            lemma_field_found(fv, key@, i as int);
                        }
                        return Some(&fields[i].1);
                    }
                    i = i + 1;
                }
                proof {
                    lemma_field_found(fv, key@, i as int);
                }
                None
            },
            _ => None,
        }
    }

    /// The string, where the value is one.
    pub fn as_str(&self) -> (r: Option<&str>)
        ensures
            opt_str(r) == self.view().as_str(),
    {
        match self {
            Json::Str(s) => Some(s.as_str()),
            _ => None,
        }
    }

    /// The truth value, where the value is one.
    pub fn as_bool(&self) -> (r: Option<bool>)
        ensures
            r == self.view().as_bool(),
    {
        match self {
            Json::Bool(b) => Some(*b),
            _ => None,
        }
    }

    /// The number, where the value is one.
    pub fn as_number(&self) -> (r: Option<Num>)
        ensures
            r == self.view().as_number(),
    {
        match self {
            Json::Number(n) => Some(*n),
            _ => None,
        }
    }

    /// The number, where it is an integer within the range of `u64`.
    pub fn as_u64(&self) -> (r: Option<u64>)
        ensures
            r == self.view().as_u64(),
    {
        match self {
            Json::Number(Num::Unsigned(n)) => Some(*n),
            _ => None,
        }
    }

    /// The number, where it is an integer within the range of `i64`.
    pub fn as_i64(&self) -> (r: Option<i64>)
        ensures
            r == self.view().as_i64(),
    {
        match self {
            Json::Number(Num::Unsigned(n)) => if *n <= 9_223_372_036_854_775_807 {
                Some(*n as i64)
            } else {
                None
            },
            Json::Number(Num::Negative(n)) => Some(*n),
            _ => None,
        }
    }

    /// Whether the value is `null`.
    pub fn is_null(&self) -> (r: bool)
        ensures
            r == (self.view() is Null),
    {
        match self {
            Json::Null => true,
            _ => false,
        }
    }

    /// The items that are strings, where the value is an array.
    pub fn strings(&self) -> (r: Option<Vec<String>>)
        ensures
            match self.view().as_array() {
                Some(items) => r is Some && texts(r.unwrap()@) == string_items(items),
                None => r is None,
            },
    {
        match self {
            Json::Array(items) => {
                let mut out: Vec<String> = Vec::new();
                proof {
                    lemma_items_view(items@);
                }
                let ghost iv = items_view(items@);
                assert(texts(out@) == Seq::<Seq<char>>::empty());
                for i in 0..items.len()
                    invariant
                        iv.len() == items@.len(),
                        forall|j: int|
                            0 <= j < items@.len() ==> #[trigger] iv[j] == items@[j].view(),
                        texts(out@) == string_items(iv.take(i as int)),
                {
                    proof {
                        assert(iv.take(i + 1).drop_last() == iv.take(i as int));
                        assert(iv.take(i + 1).last() == iv[i as int]);
                    }
                    match items[i].as_str() {
                        Some(s) => {
                            let ghost before = texts(out@);
                            out.push(s.to_owned());
                            assert(texts(out@) == before.push(s@));
                        },
                        None => {},
                    }
                }
                assert(iv.take(items@.len() as int) == iv);
                Some(out)
            },
            _ => None,
        }
    }

    /// The fields that hold strings, where the value is an object.
    pub fn string_pairs(&self) -> (r: Option<Vec<(String, String)>>)
        ensures
            match self.view().as_object() {
                Some(fields) => r is Some && pairs(r.unwrap()@) == string_fields(fields),
                None => r is None,
            },
    {
        match self {
            Json::Object(fields) => {
                let mut out: Vec<(String, String)> = Vec::new();
                proof {
                    lemma_fields_view(fields@);
                }
                let ghost fv = fields_view(fields@);
                assert(pairs(out@) == Seq::<(Seq<char>, Seq<char>)>::empty());
                for i in 0..fields.len()
                    invariant
                        fv.len() == fields@.len(),
                        forall|j: int|
                            0 <= j < fields@.len() ==> #[trigger] fv[j] == (
                                fields@[j].0@,
                                fields@[j].1.view(),
                            ),
                        pairs(out@) == string_fields(fv.take(i as int)),
                {
                    proof {
                        assert(fv.take(i + 1).drop_last() == fv.take(i as int));
                        assert(fv.take(i + 1).last() == fv[i as int]);
                    }
                    match fields[i].1.as_str() {
                        Some(s) => {
                            let ghost before = pairs(out@);
                            out.push((fields[i].0.clone(), s.to_owned()));
                            assert(pairs(out@) == before.push((fields@[i as int].0@, s@)));
                        },
                        None => {},
                    }
                }
                assert(fv.take(fields@.len() as int) == fv);
                Some(out)
            },
            _ => None,
        }
    }

    /// The string under a key.
    pub fn str_at(&self, key: &str) -> (r: Option<&str>)
        ensures
            opt_str(r) == self.view().str_at(key@),
    {
        match self.get(key) {
            Some(v) => v.as_str(),
            None => None,
        }
    }

    /// The truth value under a key.
    pub fn bool_at(&self, key: &str) -> (r: Option<bool>)
        ensures
            r == self.view().bool_at(key@),
    {
        match self.get(key) {
            Some(v) => v.as_bool(),
            None => None,
        }
    }

    /// The number under a key.
    pub fn number_at(&self, key: &str) -> (r: Option<Num>)
        ensures
            r == self.view().number_at(key@),
    {
        match self.get(key) {
            Some(v) => v.as_number(),
            None => None,
        }
    }

    /// The unsigned integer under a key.
    pub fn u64_at(&self, key: &str) -> (r: Option<u64>)
        ensures
            r == self.view().u64_at(key@),
    {
        match self.get(key) {
            Some(v) => v.as_u64(),
            None => None,
        }
    }

    /// The integer under a key.
    pub fn i64_at(&self, key: &str) -> (r: Option<i64>)
        ensures
            r == self.view().i64_at(key@),
    {
        match self.get(key) {
            Some(v) => v.as_i64(),
            None => None,
        }
    }

    /// A copy of the value.
    pub fn duplicate(&self) -> (r: Json)
        ensures
            r.view() == self.view(),
        decreases self,
    {
        match self {
            Json::Null => Json::Null,
            Json::Bool(b) => Json::Bool(*b),
            Json::Number(n) => Json::Number(*n),
            Json::Str(s) => Json::Str(s.clone()),
            Json::Array(items) => {
                let mut out: Vec<Json> = Vec::new();
                proof {
                    lemma_items_view(items@);
                }
                assert(items_view(out@) == items_view(items@).take(0));
                for i in 0..items.len()
                    invariant
                        *self == Json::Array(*items),
                        items_view(items@).len() == items@.len(),
                        forall|j: int|
                            0 <= j < items@.len() ==> #[trigger] items_view(items@)[j]
                                == items@[j].view(),
                        items_view(out@) == items_view(items@).take(i as int),
                {
                    assert(decreases_to!(*self => self->Array_0));
                    assert(decreases_to!(*items => items@));
                    assert(decreases_to!(items@ => items@[i as int]));
                    let v = items[i].duplicate();
                    proof {
                        lemma_items_push(out@, v);
                        assert(items_view(items@).take(i + 1) == items_view(items@).take(
                            i as int,
                        ).push(items_view(items@)[i as int]));
                    }
                    out.push(v);
                }
                assert(items_view(items@).take(items@.len() as int) == items_view(items@));
                Json::Array(out)
            },
            Json::Object(fields) => {
                let mut out: Vec<(String, Json)> = Vec::new();
                proof {
                    lemma_fields_view(fields@);
                }
                assert(fields_view(out@) == fields_view(fields@).take(0));
                for i in 0..fields.len()
                    invariant
                        *self == Json::Object(*fields),
                        fields_view(fields@).len() == fields@.len(),
                        forall|j: int|
                            0 <= j < fields@.len() ==> #[trigger] fields_view(fields@)[j] == (
                                fields@[j].0@,
                                fields@[j].1.view(),
                            ),
                        fields_view(out@) == fields_view(fields@).take(i as int),
                {
                    assert(decreases_to!(*self => self->Object_0));
                    assert(decreases_to!(*fields => fields@));
                    assert(decreases_to!(fields@ => fields@[i as int]));
                    assert(decreases_to!(fields@[i as int] => fields@[i as int].1));
                    let v = (fields[i].0.clone(), fields[i].1.duplicate());
                    proof {
                        lemma_fields_push(out@, v);
                        assert(fields_view(fields@).take(i + 1) == fields_view(fields@).take(
                            i as int,
                        ).push(fields_view(fields@)[i as int]));
                    }
                    out.push(v);
                }
                assert(fields_view(fields@).take(fields@.len() as int) == fields_view(fields@));
                Json::Object(out)
            },
        }
    }

    /// The JSON string of a text.
    pub fn text(s: &str) -> (r: Json)
        ensures
            r.view() == JsonV::Str(s@),
    {
        Json::Str(s.to_owned())
    }

    /// The JSON value of a truth value.
    pub fn truth(b: bool) -> (r: Json)
        ensures
            r.view() == JsonV::Bool(b),
    {
        Json::Bool(b)
    }

    /// The JSON number of an integer.
    pub fn integer(n: i64) -> (r: Json)
        ensures
            r.view() == JsonV::Number(Num::of_i64(n)),
    {
        Json::Number(Num::of_i64(n))
    }

    /// The JSON string of a text, or `null`.
    pub fn text_or_null(s: &Option<String>) -> (r: Json)
        ensures
            r.view() == text_or_null_view(opt_string(*s)),
    {
        match s {
            Some(s) => Json::Str(s.clone()),
            None => Json::Null,
        }
    }

    /// The JSON array of some strings.
    pub fn texts(list: &Vec<String>) -> (r: Json)
        ensures
            r.view() == texts_view(texts(list@)),
    {
        let mut out: Vec<Json> = Vec::new();
        let ghost all = texts(list@).map_values(|s: Seq<char>| JsonV::Str(s));
        assert(items_view(out@) == all.take(0));
        for i in 0..list.len()
            invariant
                all == texts(list@).map_values(|s: Seq<char>| JsonV::Str(s)),
                items_view(out@) == all.take(i as int),
        {
            let v = Json::Str(list[i].clone());
            proof {
                lemma_items_push(out@, v);
                assert(all.take(i + 1) == all.take(i as int).push(all[i as int]));
            }
            out.push(v);
        }
        assert(all.take(list@.len() as int) == all);
        Json::Array(out)
    }
}

/// The JSON string of a text, or `null`.
pub open spec fn text_or_null_view(s: Option<Seq<char>>) -> JsonV {
    match s {
        Some(s) => JsonV::Str(s),
        None => JsonV::Null,
    }
}

/// The JSON array of some strings.
pub open spec fn texts_view(list: Seq<Seq<char>>) -> JsonV {
    JsonV::Array(list.map_values(|s: Seq<char>| JsonV::Str(s)))
}

/// The fields of a JSON object that is being put together.
#[derive(PartialEq, Eq, Debug)]
pub struct Fields {
    list: Vec<(String, Json)>,
}

impl Fields {
    /// The fields so far.
    pub closed spec fn view(self) -> Seq<(Seq<char>, JsonV)> {
        fields_view(self.list@)
    }

    /// No fields yet.
    pub fn new() -> (r: Fields)
        ensures
            r.view() == Seq::<(Seq<char>, JsonV)>::empty(),
    {
        Fields { list: Vec::new() }
    }

    /// One field more, behind the others.
    pub fn with(self, key: &str, value: Json) -> (r: Fields)
        ensures
            r.view() == self.view().push((key@, value.view())),
    {
        let mut list = self.list;
        let f = (key.to_owned(), value);
        proof {
            lemma_fields_push(list@, f);
        }
        list.push(f);
        Fields { list }
    }

    /// The object with these fields.
    pub fn done(self) -> (r: Json)
        ensures
            r.view() == JsonV::Object(self.view()),
    {
        Json::Object(self.list)
    }
}

/// A list of JSON values that is being put together.
#[derive(PartialEq, Eq, Debug)]
pub struct Items {
    list: Vec<Json>,
}

impl Items {
    /// The values so far.
    pub closed spec fn view(self) -> Seq<JsonV> {
        items_view(self.list@)
    }

    /// No values yet.
    pub fn new() -> (r: Items)
        ensures
            r.view() == Seq::<JsonV>::empty(),
    {
        Items { list: Vec::new() }
    }

    /// One value more, behind the others.
    pub fn push(&mut self, value: Json)
        ensures
            final(self).view() == old(self).view().push(value.view()),
    {
        proof {
            lemma_items_push(self.list@, value);
        }
        self.list.push(value);
    }

    /// The array of these values.
    pub fn done(self) -> (r: Json)
        ensures
            r.view() == JsonV::Array(self.view()),
    {
        Json::Array(self.list)
    }
}

} // verus!
