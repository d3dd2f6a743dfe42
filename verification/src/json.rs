//! JSON values: a plain tree that the rest of the crate reads and builds, and
//! its exchange with `serde_json`, which parses and prints.

use vstd::prelude::*;

use crate::text::{
    less_text, same_text, text_less, text_less_total, text_less_transitive, texts,
};

verus! {

broadcast use vstd::string::group_string_axioms;

/// `serde_json::Number`, carried through for numbers that are not integers.
#[verifier::external_type_specification]
#[verifier::external_body]
pub struct ExNumber(serde_json::Number);

/// `serde_json::Value`, whose contents are named by `json_of`.
#[verifier::external_type_specification]
#[verifier::external_body]
pub struct ExValue(serde_json::Value);

/// A JSON value. In a well-formed one the keys of every object ascend.
#[derive(Debug)]
pub enum Json {
    Null,
    Bool(bool),
    /// An integer that is not negative.
    PosInt(u64),
    /// A negative integer.
    NegInt(i64),
    /// A number that is no integer.
    Float(serde_json::Number),
    Str(String),
    Array(Vec<Json>),
    Object(Vec<(String, Json)>),
}

/// What a JSON value is.
pub enum JsonV {
    Null,
    Bool(bool),
    PosInt(u64),
    NegInt(i64),
    Float(serde_json::Number),
    Str(Seq<char>),
    Array(Seq<JsonV>),
    Object(Seq<(Seq<char>, JsonV)>),
}

/// The view of a JSON value.
pub open spec fn json_view(j: Json) -> JsonV
    decreases j,
{
    match j {
        Json::Null => JsonV::Null,
        Json::Bool(b) => JsonV::Bool(b),
        Json::PosInt(n) => JsonV::PosInt(n),
        Json::NegInt(n) => JsonV::NegInt(n),
        Json::Float(n) => JsonV::Float(n),
        Json::Str(s) => JsonV::Str(s@),
        Json::Array(a) => JsonV::Array(
            Seq::new(
                a@.len(),
                |i: int|
                    if 0 <= i < a@.len() {
                        json_view(a@[i])
                    } else {
                        JsonV::Null
                    },
            ),
        ),
        Json::Object(o) => JsonV::Object(
            Seq::new(
                o@.len(),
                |i: int|
                    if 0 <= i < o@.len() {
                        (o@[i].0@, json_view(o@[i].1))
                    } else {
                        (Seq::empty(), JsonV::Null)
                    },
            ),
        ),
    }
}

impl View for Json {
    type V = JsonV;

    open spec fn view(&self) -> JsonV {
        json_view(*self)
    }
}

/// The keys ascend, each before the next.
pub open spec fn ascending(entries: Seq<(Seq<char>, JsonV)>) -> bool {
    forall|i: int, j: int|
        0 <= i < j < entries.len() ==> text_less(
            (#[trigger] entries[i]).0,
            (#[trigger] entries[j]).0,
        )
}

/// The value of the first entry with that key.
pub open spec fn entry(entries: Seq<(Seq<char>, JsonV)>, key: Seq<char>) -> Option<JsonV>
    decreases entries.len(),
{
    if entries.len() == 0 {
        None
    } else if entries[0].0 == key {
        Some(entries[0].1)
    } else {
        entry(entries.drop_first(), key)
    }
}

/// Whether a number is none of the integers that fit into 64 bits.
pub uninterp spec fn number_is_float(n: serde_json::Number) -> bool;

/// `serde_json::Number::is_f64`: whether the number is held as a floating-point
/// one and not as an integer; a function of the number alone.
pub assume_specification[ serde_json::Number::is_f64 ](n: &serde_json::Number) -> (r: bool)
    ensures
        r == number_is_float(*n),
;

impl JsonV {
    /// Negative integers are negative, a number that is no integer is none, and
    /// the keys of every object ascend.
    pub open spec fn wf(self) -> bool
        decreases self,
    {
        match self {
            JsonV::NegInt(n) => n < 0,
            JsonV::Float(n) => number_is_float(n),
            JsonV::Array(a) => forall|i: int| 0 <= i < a.len() ==> (#[trigger] a[i]).wf(),
            JsonV::Object(o) => {
                &&& ascending(o)
                &&& forall|i: int| 0 <= i < o.len() ==> (#[trigger] o[i]).1.wf()
            },
            _ => true,
        }
    }

    /// The member of an object with that key.
    pub open spec fn get(self, key: Seq<char>) -> Option<JsonV> {
        match self {
            JsonV::Object(o) => entry(o, key),
            _ => None,
        }
    }

    /// The member `second` of the member `first`.
    pub open spec fn at(self, first: Seq<char>, second: Seq<char>) -> Option<JsonV> {
        match self.get(first) {
            Some(inner) => inner.get(second),
            None => None,
        }
    }

    /// The text of a string.
    pub open spec fn as_str(self) -> Option<Seq<char>> {
        match self {
            JsonV::Str(s) => Some(s),
            _ => None,
        }
    }

    /// An integer that fits into 64 bits with a sign.
    pub open spec fn as_i64(self) -> Option<i64> {
        match self {
            JsonV::PosInt(n) => if n <= i64::MAX {
                Some(n as i64)
            } else {
                None
            },
            JsonV::NegInt(n) => Some(n),
            _ => None,
        }
    }

    /// An integer that is not negative.
    pub open spec fn as_u64(self) -> Option<u64> {
        match self {
            JsonV::PosInt(n) => Some(n),
            _ => None,
        }
    }

    /// The items of an array.
    pub open spec fn as_array(self) -> Option<Seq<JsonV>> {
        match self {
            JsonV::Array(a) => Some(a),
            _ => None,
        }
    }

    /// A truth value.
    pub open spec fn as_bool(self) -> Option<bool> {
        match self {
            JsonV::Bool(b) => Some(b),
            _ => None,
        }
    }

    /// The text of the member `second` of the member `first`, where it is a
    /// string.
    pub open spec fn str_under(self, first: Seq<char>, second: Seq<char>) -> Option<Seq<char>> {
        match self.at(first, second) {
            Some(v) => v.as_str(),
            None => None,
        }
    }

    /// The text of the member with that key, where it is a string.
    pub open spec fn str_at(self, key: Seq<char>) -> Option<Seq<char>> {
        match self.get(key) {
            Some(v) => v.as_str(),
            None => None,
        }
    }
}

/// The view of an optional text.
pub open spec fn opt_text(s: Option<String>) -> Option<Seq<char>> {
    match s {
        Some(t) => Some(t@),
        None => None,
    }
}

/// The view of an optional JSON value.
pub open spec fn opt_json(j: Option<Json>) -> Option<JsonV> {
    match j {
        Some(v) => Some(v@),
        None => None,
    }
}

/// The view of an optional reference to a JSON value.
pub open spec fn opt_json_ref(j: Option<&Json>) -> Option<JsonV> {
    match j {
        Some(v) => Some(v@),
        None => None,
    }
}

impl Json {
    /// The member of an object with that key.
    pub fn get(&self, key: &str) -> (r: Option<&Json>)
        ensures
            opt_json_ref(r) == self@.get(key@),
    {
        match self {
            Json::Object(o) => {
                let ghost all = self@->Object_0;
                let mut i: usize = 0;
                assert(all.skip(0) == all);
                while i < o.len()
                    invariant
                        i <= o@.len(),
                        all.len() == o@.len(),
                        forall|k: int|
                            0 <= k < o@.len() ==> #[trigger] all[k] == (o@[k].0@, o@[k].1@),
                        entry(all, key@) == entry(all.skip(i as int), key@),
                        self@.get(key@) == entry(all, key@),
                    decreases o@.len() - i,
                {
                    if same_text(o[i].0.as_str(), key) {
                        assert(all.skip(i as int)[0] == all[i as int]);
                        return Some(&o[i].1);
                    }
                    assert(all.skip(i as int)[0] == all[i as int]);
                    assert(all.skip(i as int).drop_first() == all.skip(i + 1));
                    i += 1;
                }
                None
            },
            _ => None,
        }
    }

    /// The member `second` of the member `first`.
    pub fn at(&self, first: &str, second: &str) -> (r: Option<&Json>)
        ensures
            opt_json_ref(r) == self@.at(first@, second@),
    {
        match self.get(first) {
            Some(inner) => inner.get(second),
            None => None,
        }
    }

    /// The text of a string.
    pub fn as_str(&self) -> (r: Option<&str>)
        ensures
            match r {
                Some(s) => self@.as_str() == Some(s@),
                None => self@.as_str() is None,
            },
    {
        match self {
            Json::Str(s) => Some(s.as_str()),
            _ => None,
        }
    }

    /// An integer that fits into 64 bits with a sign.
    pub fn as_i64(&self) -> (r: Option<i64>)
        ensures
            r == self@.as_i64(),
    {
        match self {
            Json::PosInt(n) => if *n <= i64::MAX as u64 {
                Some(*n as i64)
            } else {
                None
            },
            Json::NegInt(n) => Some(*n),
            _ => None,
        }
    }

    /// An integer that is not negative.
    pub fn as_u64(&self) -> (r: Option<u64>)
        ensures
            r == self@.as_u64(),
    {
        match self {
            Json::PosInt(n) => Some(*n),
            _ => None,
        }
    }

    /// The items of an array.
    pub fn as_array(&self) -> (r: Option<&Vec<Json>>)
        ensures
            match r {
                Some(a) => {
                    &&& self@.as_array() is Some
                    &&& self@.as_array()->0.len() == a@.len()
                    &&& forall|i: int|
                        0 <= i < a@.len() ==> self@.as_array()->0[i] == (#[trigger] a@[i])@
                },
                None => self@.as_array() is None,
            },
    {
        match self {
            Json::Array(a) => Some(a),
            _ => None,
        }
    }

    /// A truth value.
    pub fn as_bool(&self) -> (r: Option<bool>)
        ensures
            r == self@.as_bool(),
    {
        match self {
            Json::Bool(b) => Some(*b),
            _ => None,
        }
    }

    /// The text of the member `second` of the member `first`, where it is a
    /// string.
    pub fn text_under(&self, first: &str, second: &str) -> (r: Option<String>)
        ensures
            opt_text(r) == self@.str_under(first@, second@),
    {
        match self.at(first, second) {
            Some(v) => match v.as_str() {
                Some(s) => Some(s.to_owned()),
                None => None,
            },
            None => None,
        }
    }

    /// The text of the member with that key, where it is a string.
    pub fn text_at(&self, key: &str) -> (r: Option<String>)
        ensures
            opt_text(r) == self@.str_at(key@),
    {
        match self.get(key) {
            Some(v) => match v.as_str() {
                Some(s) => Some(s.to_owned()),
                None => None,
            },
            None => None,
        }
    }
}

/// What a `serde_json::Value` holds. The members of an object stand in the
/// order in which `serde_json::Map` hands them out.
pub uninterp spec fn json_of(v: serde_json::Value) -> JsonV;

/// One level of a value: its members are still `serde_json` values.
enum Level {
    Null,
    Bool(bool),
    PosInt(u64),
    NegInt(i64),
    Float(serde_json::Number),
    Str(String),
    Array(Vec<serde_json::Value>),
    Object(Vec<(String, serde_json::Value)>),
}

impl Level {
    spec fn whole(self) -> JsonV {
        match self {
            Level::Null => JsonV::Null,
            Level::Bool(b) => JsonV::Bool(b),
            Level::PosInt(n) => JsonV::PosInt(n),
            Level::NegInt(n) => JsonV::NegInt(n),
            Level::Float(n) => JsonV::Float(n),
            Level::Str(s) => JsonV::Str(s@),
            Level::Array(a) => JsonV::Array(Seq::new(a@.len(), |i: int| json_of(a@[i]))),
            Level::Object(o) => JsonV::Object(
                Seq::new(o@.len(), |i: int| (o@[i].0@, json_of(o@[i].1))),
            ),
        }
    }

    spec fn level_wf(self) -> bool {
        match self.whole() {
            JsonV::NegInt(n) => n < 0,
            JsonV::Float(n) => number_is_float(n),
            JsonV::Object(o) => ascending(o),
            _ => true,
        }
    }
}

/// Tells the variants of a `serde_json::Value` apart and moves its fields out.
/// A number is handed out by `Number::as_u64`, by `Number::as_i64` where it is
/// negative, and as it is where it is no integer, which is where `Number::is_f64`
/// says so. A `serde_json::Map` is a `BTreeMap`, so the members of an object come
/// in the ascending order of their keys.
#[verifier::external_body]
fn take_apart(v: serde_json::Value) -> (r: Level)
    ensures
        r.whole() == json_of(v),
        r.level_wf(),
{
    match v {
        serde_json::Value::Null => Level::Null,
        serde_json::Value::Bool(b) => Level::Bool(b),
        serde_json::Value::Number(n) => match (n.as_u64(), n.as_i64()) {
            (Some(u), _) => Level::PosInt(u),
            (None, Some(i)) => Level::NegInt(i),
            (None, None) => Level::Float(n),
        },
        serde_json::Value::String(s) => Level::Str(s),
        serde_json::Value::Array(a) => Level::Array(a),
        serde_json::Value::Object(m) => Level::Object(m.into_iter().collect()),
    }
}

/// Builds a `serde_json::Value` from its parts, variant by variant. A
/// `serde_json::Map` built from members whose keys ascend holds just these
/// members in that order, `Number::from` keeps the integer, and a number for
/// which `Number::is_f64` holds is no integer afterwards either.
#[verifier::external_body]
fn put_together(level: Level) -> (r: serde_json::Value)
    requires
        level.level_wf(),
    ensures
        json_of(r) == level.whole(),
{
    match level {
        Level::Null => serde_json::Value::Null,
        Level::Bool(b) => serde_json::Value::Bool(b),
        Level::PosInt(n) => serde_json::Value::Number(n.into()),
        Level::NegInt(n) => serde_json::Value::Number(n.into()),
        Level::Float(n) => serde_json::Value::Number(n),
        Level::Str(s) => serde_json::Value::String(s),
        Level::Array(a) => serde_json::Value::Array(a),
        Level::Object(o) => serde_json::Value::Object(o.into_iter().collect()),
    }
}

/// `serde_json::Number::clone`: the same number.
pub assume_specification[ <serde_json::Number as Clone>::clone ](n: &serde_json::Number) -> (r:
    serde_json::Number)
    ensures
        r == *n,
;

impl Json {
    /// The plain tree of a `serde_json::Value`.
    pub fn from_value(v: serde_json::Value) -> (r: Json)
        ensures
            r@ == json_of(v),
            r@.wf(),
        decreases json_of(v),
    {
        let ghost whole = json_of(v);
        match take_apart(v) {
            Level::Null => Json::Null,
            Level::Bool(b) => Json::Bool(b),
            Level::PosInt(n) => Json::PosInt(n),
            Level::NegInt(n) => Json::NegInt(n),
            Level::Float(n) => Json::Float(n),
            Level::Str(s) => Json::Str(s),
            Level::Array(a) => {
                let mut items: Vec<Json> = Vec::new();
                let ghost all = a@;
                for x in it: a
                    invariant
                        it.seq() == all,
                        whole == json_of(v),
                        whole == JsonV::Array(Seq::new(all.len(), |i: int| json_of(all[i]))),
                        items@.len() == it.index(),
                        forall|k: int|
                            0 <= k < items@.len() ==> (#[trigger] items@[k])@ == json_of(all[k])
                                && items@[k]@.wf(),
                {
                    proof {
                        let k = it.index() as int;
                        assert(whole->Array_0[k] == json_of(x));
                        assert(decreases_to!(whole => whole->Array_0));
                    }
                    items.push(Json::from_value(x));
                }
                let r = Json::Array(items);
                assert(r@->Array_0 =~= whole->Array_0);
                r
            },
            Level::Object(o) => {
                let mut members: Vec<(String, Json)> = Vec::new();
                let ghost all = o@;
                for x in it: o
                    invariant
                        it.seq() == all,
                        whole == json_of(v),
                        whole == JsonV::Object(
                            Seq::new(all.len(), |i: int| (all[i].0@, json_of(all[i].1))),
                        ),
                        members@.len() == it.index(),
                        forall|k: int|
                            0 <= k < members@.len() ==> (#[trigger] members@[k]).0@ == all[k].0@
                                && members@[k].1@ == json_of(all[k].1) && members@[k].1@.wf(),
                {
                    proof {
                        let k = it.index() as int;
                        assert(whole->Object_0[k].1 == json_of(x.1));
                        assert(decreases_to!(whole => whole->Object_0));
                        assert(decreases_to!(whole->Object_0 => whole->Object_0[k]));
                        assert(decreases_to!(whole->Object_0[k] => whole->Object_0[k].1));
                    }
                    members.push((x.0, Json::from_value(x.1)));
                }
                let r = Json::Object(members);
                assert(r@->Object_0 =~= whole->Object_0);
                r
            },
        }
    }

    /// The `serde_json::Value` with these contents.
    pub fn to_value(&self) -> (r: serde_json::Value)
        requires
            self@.wf(),
        ensures
            json_of(r) == self@,
        decreases self,
    {
        match self {
            Json::Null => put_together(Level::Null),
            Json::Bool(b) => put_together(Level::Bool(*b)),
            Json::PosInt(n) => put_together(Level::PosInt(*n)),
            Json::NegInt(n) => put_together(Level::NegInt(*n)),
            Json::Float(n) => put_together(Level::Float(n.clone())),
            Json::Str(s) => put_together(Level::Str(s.clone())),
            Json::Array(a) => {
                let mut items: Vec<serde_json::Value> = Vec::new();
                let mut i: usize = 0;
                while i < a.len()
                    invariant
                        *self == Json::Array(*a),
                        self@.wf(),
                        i <= a@.len(),
                        items@.len() == i,
                        forall|k: int|
                            0 <= k < i ==> json_of(#[trigger] items@[k]) == a@[k]@,
                    decreases a@.len() - i,
                {
                    assert(self@->Array_0[i as int] == a@[i as int]@);
                    items.push(a[i].to_value());
                    i += 1;
                }
                let level = Level::Array(items);
                assert(level.whole()->Array_0 =~= self@->Array_0);
                put_together(level)
            },
            Json::Object(o) => {
                let mut members: Vec<(String, serde_json::Value)> = Vec::new();
                let mut i: usize = 0;
                while i < o.len()
                    invariant
                        *self == Json::Object(*o),
                        self@.wf(),
                        i <= o@.len(),
                        members@.len() == i,
                        forall|k: int|
                            0 <= k < i ==> (#[trigger] members@[k]).0@ == o@[k].0@ && json_of(
                                members@[k].1,
                            ) == o@[k].1@,
                    decreases o@.len() - i,
                {
                    assert(self@->Object_0[i as int].1 == o@[i as int].1@);
                    members.push((o[i].0.clone(), o[i].1.to_value()));
                    i += 1;
                }
                let level = Level::Object(members);
                assert(level.whole()->Object_0 =~= self@->Object_0);
                put_together(level)
            },
        }
    }
}

impl Clone for Json {
    fn clone(&self) -> (r: Json)
        ensures
            r@ == self@,
        decreases self,
    {
        match self {
            Json::Null => Json::Null,
            Json::Bool(b) => Json::Bool(*b),
            Json::PosInt(n) => Json::PosInt(*n),
            Json::NegInt(n) => Json::NegInt(*n),
            Json::Float(n) => Json::Float(n.clone()),
            Json::Str(s) => Json::Str(s.clone()),
            Json::Array(a) => {
                let mut items: Vec<Json> = Vec::new();
                let mut i: usize = 0;
                while i < a.len()
                    invariant
                        *self == Json::Array(*a),
                        i <= a@.len(),
                        items@.len() == i,
                        forall|k: int| 0 <= k < i ==> (#[trigger] items@[k])@ == a@[k]@,
                    decreases a@.len() - i,
                {
                    assert(self@->Array_0[i as int] == a@[i as int]@);
                    items.push(a[i].clone());
                    i += 1;
                }
                let r = Json::Array(items);
                assert(r@->Array_0 =~= self@->Array_0);
                r
            },
            Json::Object(o) => {
                let mut members: Vec<(String, Json)> = Vec::new();
                let mut i: usize = 0;
                while i < o.len()
                    invariant
                        *self == Json::Object(*o),
                        i <= o@.len(),
                        members@.len() == i,
                        forall|k: int|
                            0 <= k < i ==> (#[trigger] members@[k]).0@ == o@[k].0@
                                && members@[k].1@ == o@[k].1@,
                    decreases o@.len() - i,
                {
                    assert(self@->Object_0[i as int].1 == o@[i as int].1@);
                    members.push((o[i].0.clone(), o[i].1.clone()));
                    i += 1;
                }
                let r = Json::Object(members);
                assert(r@->Object_0 =~= self@->Object_0);
                r
            },
        }
    }
}

/// The members with `value` under `key`: in the place of the member with that
/// key, or else in front of the first member whose key comes later.
pub open spec fn inserted(
    entries: Seq<(Seq<char>, JsonV)>,
    key: Seq<char>,
    value: JsonV,
) -> Seq<(Seq<char>, JsonV)>
    decreases entries.len(),
{
    if entries.len() == 0 {
        seq![(key, value)]
    } else if entries[0].0 == key {
        seq![(key, value)] + entries.drop_first()
    } else if text_less(key, entries[0].0) {
        seq![(key, value)] + entries
    } else {
        seq![entries[0]] + inserted(entries.drop_first(), key, value)
    }
}

/// An object without members.
pub open spec fn no_members() -> JsonV {
    JsonV::Object(Seq::empty())
}

impl JsonV {
    /// The object with `value` under `key`.
    pub open spec fn with(self, key: Seq<char>, value: JsonV) -> JsonV {
        match self {
            JsonV::Object(o) => JsonV::Object(inserted(o, key, value)),
            _ => self,
        }
    }

    /// The object with `value` under `key` behind all that it holds.
    pub open spec fn followed_by(self, key: Seq<char>, value: JsonV) -> JsonV {
        match self {
            JsonV::Object(o) => JsonV::Object(o.push((key, value))),
            _ => self,
        }
    }
}

/// The members of a well-formed value are well formed.
pub proof fn member_wf(value: JsonV, key: Seq<char>)
    requires
        value.wf(),
    ensures
        value.get(key) matches Some(member) ==> member.wf(),
{
    if let JsonV::Object(o) = value {
        entry_among(o, key);
    }
}

proof fn entry_among(entries: Seq<(Seq<char>, JsonV)>, key: Seq<char>)
    ensures
        entry(entries, key) matches Some(v) ==> exists|i: int|
            0 <= i < entries.len() && #[trigger] entries[i] == (key, v),
    decreases entries.len(),
{
    if entries.len() > 0 && entries[0].0 != key {
        let rest = entries.drop_first();
        entry_among(rest, key);
        if let Some(v) = entry(rest, key) {
            let i = choose|i: int| 0 <= i < rest.len() && #[trigger] rest[i] == (key, v);
            assert(entries[i + 1] == (key, v));
        }
    } else if entries.len() > 0 {
        assert(entries[0] == (key, entries[0].1));
    }
}

proof fn inserted_keys(entries: Seq<(Seq<char>, JsonV)>, key: Seq<char>, value: JsonV)
    ensures
        forall|i: int|
            #![trigger inserted(entries, key, value)[i]]
            0 <= i < inserted(entries, key, value).len() ==> {
                ||| inserted(entries, key, value)[i] == (key, value)
                ||| exists|j: int|
                    0 <= j < entries.len() && inserted(entries, key, value)[i] == #[trigger] entries[j]
            },
    decreases entries.len(),
{
    if entries.len() > 0 && entries[0].0 != key && !text_less(key, entries[0].0) {
        let rest = entries.drop_first();
        inserted_keys(rest, key, value);
        let all = inserted(entries, key, value);
        assert forall|i: int| #![trigger all[i]] 0 <= i < all.len() implies all[i] == (key, value)
            || exists|j: int| 0 <= j < entries.len() && all[i] == #[trigger] entries[j] by {
            if i == 0 {
                assert(all[0] == entries[0]);
            } else {
                assert(all[i] == inserted(rest, key, value)[i - 1]);
                if all[i] != (key, value) {
                    let j = choose|j: int|
                        0 <= j < rest.len() && inserted(rest, key, value)[i - 1]
                            == #[trigger] rest[j];
                    assert(entries[j + 1] == all[i]);
                }
            }
        }
    } else if entries.len() > 0 && entries[0].0 == key {
        let all = inserted(entries, key, value);
        assert forall|i: int| #![trigger all[i]] 0 <= i < all.len() implies all[i] == (key, value)
            || exists|j: int| 0 <= j < entries.len() && all[i] == #[trigger] entries[j] by {
            if i > 0 {
                assert(all[i] == entries[i]);
            }
        }
    } else if entries.len() > 0 {
        let all = inserted(entries, key, value);
        assert forall|i: int| #![trigger all[i]] 0 <= i < all.len() implies all[i] == (key, value)
            || exists|j: int| 0 <= j < entries.len() && all[i] == #[trigger] entries[j] by {
            if i > 0 {
                assert(all[i] == entries[i - 1]);
            }
        }
    }
}

proof fn inserted_ascending(entries: Seq<(Seq<char>, JsonV)>, key: Seq<char>, value: JsonV)
    requires
        ascending(entries),
    ensures
        ascending(inserted(entries, key, value)),
    decreases entries.len(),
{
    let all = inserted(entries, key, value);
    if entries.len() == 0 {
    } else if entries[0].0 == key {
        assert forall|i: int, j: int| 0 <= i < j < all.len() implies text_less(
            (#[trigger] all[i]).0,
            (#[trigger] all[j]).0,
        ) by {
            assert(text_less(entries[i].0, entries[j].0));
        }
    } else if text_less(key, entries[0].0) {
        assert forall|i: int, j: int| 0 <= i < j < all.len() implies text_less(
            (#[trigger] all[i]).0,
            (#[trigger] all[j]).0,
        ) by {
            if i > 0 {
                assert(text_less(entries[i - 1].0, entries[j - 1].0));
            } else if j > 1 {
                text_less_transitive(key, entries[0].0, entries[j - 1].0);
            }
        }
    } else {
        let rest = entries.drop_first();
        assert(ascending(rest)) by {
            assert forall|i: int, j: int| 0 <= i < j < rest.len() implies text_less(
                (#[trigger] rest[i]).0,
                (#[trigger] rest[j]).0,
            ) by {
                assert(text_less(entries[i + 1].0, entries[j + 1].0));
            }
        }
        inserted_ascending(rest, key, value);
        inserted_keys(rest, key, value);
        text_less_total(key, entries[0].0);
        let tail = inserted(rest, key, value);
        assert forall|i: int, j: int| 0 <= i < j < all.len() implies text_less(
            (#[trigger] all[i]).0,
            (#[trigger] all[j]).0,
        ) by {
            assert(all[j] == tail[j - 1]);
            if i > 0 {
                assert(all[i] == tail[i - 1]);
            } else if tail[j - 1] != (key, value) {
                let k = choose|k: int| 0 <= k < rest.len() && tail[j - 1] == #[trigger] rest[k];
                assert(text_less(entries[0].0, entries[k + 1].0));
            }
        }
    }
}

/// An object keeps its order when a member is put into it.
pub proof fn with_wf(object: JsonV, key: Seq<char>, value: JsonV)
    requires
        object.wf(),
        value.wf(),
    ensures
        object.with(key, value).wf(),
{
    if let JsonV::Object(o) = object {
        inserted_ascending(o, key, value);
        inserted_keys(o, key, value);
        let all = inserted(o, key, value);
        assert forall|i: int| 0 <= i < all.len() implies (#[trigger] all[i]).1.wf() by {
            if all[i] != (key, value) {
                let j = choose|j: int| 0 <= j < o.len() && all[i] == #[trigger] o[j];
                assert(o[j].1.wf());
            }
        }
    }
}

proof fn inserted_entry(
    entries: Seq<(Seq<char>, JsonV)>,
    key: Seq<char>,
    value: JsonV,
    other: Seq<char>,
)
    ensures
        entry(inserted(entries, key, value), key) == Some(value),
        other != key ==> entry(inserted(entries, key, value), other) == entry(entries, other),
    decreases entries.len(),
{
    let all = inserted(entries, key, value);
    if entries.len() == 0 {
        assert(all.drop_first() == Seq::<(Seq<char>, JsonV)>::empty());
    } else if entries[0].0 == key {
        assert(all.drop_first() == entries.drop_first());
    } else if text_less(key, entries[0].0) {
        assert(all.drop_first() == entries);
    } else {
        let rest = entries.drop_first();
        inserted_entry(rest, key, value, other);
        assert(all[0] == entries[0]);
        assert(all.drop_first() == inserted(rest, key, value));
        assert(entry(all, key) == entry(all.drop_first(), key));
        if entries[0].0 != other {
            assert(entry(all, other) == entry(all.drop_first(), other));
            assert(entry(entries, other) == entry(rest, other));
        }
    }
}

/// Reading a member gives back what was put there, and putting a member leaves
/// the others alone.
pub proof fn with_then_get(
    members: Seq<(Seq<char>, JsonV)>,
    key: Seq<char>,
    value: JsonV,
    other: Seq<char>,
)
    ensures
        JsonV::Object(members).with(key, value).get(key) == Some(value),
        other != key ==> JsonV::Object(members).with(key, value).get(other) == JsonV::Object(
            members,
        ).get(other),
{
    inserted_entry(members, key, value, other);
}

/// Reading a member of an object to which a member was given finds the new one
/// under its own key, and under every other what was there.
pub broadcast proof fn given_member(
    object: JsonV,
    key: Seq<char>,
    value: JsonV,
    other: Seq<char>,
)
    requires
        object is Object,
    ensures
        #[trigger] object.with(key, value).get(other) == if other == key {
            Some(value)
        } else {
            object.get(other)
        },
{
    with_then_get(object->Object_0, key, value, other);
}

proof fn pushed_entry(
    entries: Seq<(Seq<char>, JsonV)>,
    key: Seq<char>,
    value: JsonV,
    other: Seq<char>,
)
    ensures
        entry(entries.push((key, value)), other) == match entry(entries, other) {
            Some(found) => Some(found),
            None => if other == key {
                Some(value)
            } else {
                None
            },
        },
    decreases entries.len(),
{
    let all = entries.push((key, value));
    if entries.len() == 0 {
        assert(all.drop_first() == Seq::<(Seq<char>, JsonV)>::empty());
        assert(entry(all.drop_first(), other) is None);
    } else {
        pushed_entry(entries.drop_first(), key, value, other);
        assert(all[0] == entries[0]);
        assert(all.drop_first() == entries.drop_first().push((key, value)));
    }
}

/// Reading a member of an object to which a member was added behind the others
/// finds what was there under that key, and else the new one.
pub broadcast proof fn added_member(
    object: JsonV,
    key: Seq<char>,
    value: JsonV,
    other: Seq<char>,
)
    requires
        object is Object,
    ensures
        #[trigger] object.followed_by(key, value).get(other) == match object.get(other) {
            Some(found) => Some(found),
            None => if other == key {
                Some(value)
            } else {
                None
            },
        },
{
    pushed_entry(object->Object_0, key, value, other);
}

/// A member of an object is the value of the first of its entries with that key;
/// there is none where no entry has it, and what is no object has no members.
pub proof fn member_is_the_first(value: JsonV, key: Seq<char>) -> (place: int)
    ensures
        match value.get(key) {
            Some(member) => {
                &&& value is Object
                &&& 0 <= place < value->Object_0.len()
                &&& value->Object_0[place].0 == key
                &&& value->Object_0[place].1 == member
                &&& forall|i: int|
                    0 <= i < place ==> (#[trigger] value->Object_0[i]).0 != key
            },
            None => value is Object ==> forall|i: int|
                0 <= i < value->Object_0.len() ==> (#[trigger] value->Object_0[i]).0 != key,
        },
    decreases value->Object_0.len(),
{
    if value is Object && value->Object_0.len() > 0 {
        let entries = value->Object_0;
        if entries[0].0 == key {
            0
        } else {
            let rest = JsonV::Object(entries.drop_first());
            let place = member_is_the_first(rest, key);
            assert(rest.get(key) == value.get(key));
            assert forall|i: int| 1 <= i < entries.len() implies #[trigger] entries[i]
                == rest->Object_0[i - 1] by {}
            place + 1
        }
    } else {
        0
    }
}

proof fn inserted_step(
    entries: Seq<(Seq<char>, JsonV)>,
    key: Seq<char>,
    value: JsonV,
    i: int,
)
    requires
        0 <= i < entries.len(),
        entries[i].0 != key,
        !text_less(key, entries[i].0),
        inserted(entries, key, value) == entries.take(i) + inserted(entries.skip(i), key, value),
    ensures
        inserted(entries, key, value) == entries.take(i + 1) + inserted(
            entries.skip(i + 1),
            key,
            value,
        ),
{
    assert(entries.skip(i).drop_first() == entries.skip(i + 1));
    assert(entries.take(i + 1) == entries.take(i).push(entries[i]));
    assert(entries.take(i) + (seq![entries[i]] + inserted(entries.skip(i + 1), key, value))
        == entries.take(i + 1) + inserted(entries.skip(i + 1), key, value));
}

impl Json {
    /// An object without members.
    pub fn object() -> (r: Json)
        ensures
            r@ == no_members(),
            r@.wf(),
    {
        let r = Json::Object(Vec::new());
        assert(r@->Object_0 =~= Seq::empty());
        r
    }

    /// An array of strings.
    pub fn of_texts(list: &Vec<String>) -> (r: Json)
        ensures
            r@ == JsonV::Array(texts(list@).map_values(|s: Seq<char>| JsonV::Str(s))),
            r@.wf(),
    {
        let mut items: Vec<Json> = Vec::new();
        let mut i: usize = 0;
        while i < list.len()
            invariant
                i <= list@.len(),
                items@.len() == i,
                forall|k: int| 0 <= k < i ==> (#[trigger] items@[k])@ == JsonV::Str(list@[k]@),
            decreases list@.len() - i,
        {
            items.push(Json::text(list[i].as_str()));
            i += 1;
        }
        let r = Json::Array(items);
        assert(r@->Array_0 =~= texts(list@).map_values(|s: Seq<char>| JsonV::Str(s)));
        assert forall|k: int| 0 <= k < r@->Array_0.len() implies (
        #[trigger] r@->Array_0[k]).wf() by {
            assert(r@->Array_0[k] == JsonV::Str(list@[k]@));
        }
        r
    }

    /// A string.
    pub fn text(s: &str) -> (r: Json)
        ensures
            r@ == JsonV::Str(s@),
            r@.wf(),
    {
        Json::Str(s.to_owned())
    }

    /// The object with `value` under `key` behind all that it holds, whatever the
    /// keys are; a value that is no object stays as it is.
    pub fn followed_by(self, key: &str, value: Json) -> (r: Json)
        ensures
            r@ == self@.followed_by(key@, value@),
    {
        let ghost old_view = self@;
        match self {
            Json::Object(o) => {
                let mut members = o;
                members.push((key.to_owned(), value));
                let r = Json::Object(members);
                assert(r@->Object_0 =~= old_view->Object_0.push((key@, value@)));
                r
            },
            other => other,
        }
    }

    /// The object with `value` under `key`; a value that is no object stays as
    /// it is.
    pub fn with(self, key: &str, value: Json) -> (r: Json)
        ensures
            r@ == self@.with(key@, value@),
            self@.wf() && value@.wf() ==> r@.wf(),
    {
        proof {
            if self@.wf() && value@.wf() {
                with_wf(self@, key@, value@);
            }
        }
        let ghost old_view = self@;
        match self {
            Json::Object(o) => {
                let mut members = o;
                let ghost all = old_view->Object_0;
                let ghost v = value@;
                let mut i: usize = 0;
                assert(all.take(0) + inserted(all.skip(0), key@, v) == inserted(all, key@, v)) by {
                    assert(all.skip(0) == all);
                    assert(all.take(0) == Seq::<(Seq<char>, JsonV)>::empty());
                }
                while i < members.len() && !same_text(members[i].0.as_str(), key) && !less_text(
                    key,
                    members[i].0.as_str(),
                )
                    invariant
                        i <= members@.len(),
                        all.len() == members@.len(),
                        forall|k: int|
                            0 <= k < members@.len() ==> #[trigger] all[k] == (
                                members@[k].0@,
                                members@[k].1@,
                            ),
                        inserted(all, key@, v) == all.take(i as int) + inserted(
                            all.skip(i as int),
                            key@,
                            v,
                        ),
                    decreases members@.len() - i,
                {
                    proof {
                        inserted_step(all, key@, v, i as int);
                    }
                    i += 1;
                }
                let ghost rest = all.skip(i as int);
                if i < members.len() && same_text(members[i].0.as_str(), key) {
                    assert(rest[0] == all[i as int]);
                    members.set(i, (key.to_owned(), value));
                    let r = Json::Object(members);
                    assert(r@->Object_0 =~= all.take(i as int) + (seq![(key@, v)]
                        + rest.drop_first()));
                    r
                } else {
                    assert(i < all.len() ==> rest[0] == all[i as int]);
                    assert(inserted(rest, key@, v) == seq![(key@, v)] + rest);
                    members.insert(i, (key.to_owned(), value));
                    let r = Json::Object(members);
                    assert(r@->Object_0 =~= all.take(i as int) + (seq![(key@, v)] + rest));
                    r
                }
            },
            other => other,
        }
    }
}

/// What `serde_json::from_str` makes of a text: a value, or the words of the
/// error.
pub uninterp spec fn json_parsed(text: Seq<char>) -> Result<JsonV, Seq<char>>;

/// `serde_json::from_str::<Value>`, with its error in words: a function of the
/// text alone.
#[verifier::external_body]
fn value_from_text(text: &str) -> (r: Result<serde_json::Value, String>)
    ensures
        match r {
            Ok(v) => json_parsed(text@) == Ok::<JsonV, Seq<char>>(json_of(v)),
            Err(e) => json_parsed(text@) == Err::<JsonV, Seq<char>>(e@),
        },
{
    serde_json::from_str::<serde_json::Value>(text).map_err(|err| err.to_string())
}

/// The bytes that `serde_json::to_vec` prints, or the words of its error.
pub uninterp spec fn json_bytes(value: JsonV) -> Result<Seq<u8>, Seq<char>>;

/// `serde_json::to_vec` on a value, with its error in words: a function of the
/// contents alone.
#[verifier::external_body]
fn value_to_bytes(v: &serde_json::Value) -> (r: Result<Vec<u8>, String>)
    ensures
        match r {
            Ok(b) => json_bytes(json_of(*v)) == Ok::<Seq<u8>, Seq<char>>(b@),
            Err(e) => json_bytes(json_of(*v)) == Err::<Seq<u8>, Seq<char>>(e@),
        },
{
    serde_json::to_vec(v).map_err(|err| err.to_string())
}

/// The text that `serde_json::to_string_pretty` prints, where it prints one.
pub uninterp spec fn json_pretty(value: JsonV) -> Option<Seq<char>>;

/// `serde_json::to_string_pretty` on a value: a function of the contents alone.
#[verifier::external_body]
fn value_to_pretty(v: &serde_json::Value) -> (r: Option<String>)
    ensures
        opt_text(r) == json_pretty(json_of(*v)),
{
    serde_json::to_string_pretty(v).ok()
}

/// The text that a `serde_json::Value` displays as.
pub uninterp spec fn json_display(value: JsonV) -> Seq<char>;

/// `serde_json::Value::to_string`, through `Display`: a function of the
/// contents alone.
#[verifier::external_body]
fn value_to_text(v: &serde_json::Value) -> (r: String)
    ensures
        r@ == json_display(json_of(*v)),
{
    v.to_string()
}

impl Json {
    /// The JSON value that a text spells, or the words of the parser's error.
    pub fn parse(text: &str) -> (r: Result<Json, String>)
        ensures
            match r {
                Ok(j) => json_parsed(text@) == Ok::<JsonV, Seq<char>>(j@) && j@.wf(),
                Err(e) => json_parsed(text@) == Err::<JsonV, Seq<char>>(e@),
            },
    {
        match value_from_text(text) {
            Ok(v) => Ok(Json::from_value(v)),
            Err(e) => Err(e),
        }
    }

    /// The value in compact form, as bytes.
    pub fn to_bytes(&self) -> (r: Result<Vec<u8>, String>)
        requires
            self@.wf(),
        ensures
            match r {
                Ok(b) => json_bytes(self@) == Ok::<Seq<u8>, Seq<char>>(b@),
                Err(e) => json_bytes(self@) == Err::<Seq<u8>, Seq<char>>(e@),
            },
    {
        value_to_bytes(&self.to_value())
    }

    /// The value over several lines, indented.
    pub fn to_pretty(&self) -> (r: Option<String>)
        requires
            self@.wf(),
        ensures
            opt_text(r) == json_pretty(self@),
    {
        value_to_pretty(&self.to_value())
    }

    /// The value in compact form, as a text.
    pub fn to_text(&self) -> (r: String)
        requires
            self@.wf(),
        ensures
            r@ == json_display(self@),
    {
        value_to_text(&self.to_value())
    }
}

impl Json {
    /// Whether negative integers are negative, numbers that are no integers are
    /// none, and the keys of every object ascend.
    pub fn is_well_formed(&self) -> (r: bool)
        ensures
            r == self@.wf(),
        decreases self,
    {
        match self {
            Json::NegInt(n) => *n < 0,
            Json::Float(n) => n.is_f64(),
            Json::Array(a) => {
                let mut i: usize = 0;
                while i < a.len()
                    invariant
                        i <= a@.len(),
                        self == Json::Array(*a),
                        forall|k: int| 0 <= k < i ==> (#[trigger] self@->Array_0[k]).wf(),
                    decreases a@.len() - i,
                {
                    assert(self@->Array_0[i as int] == a@[i as int]@);
                    if !a[i].is_well_formed() {
                        return false;
                    }
                    i += 1;
                }
                true
            },
            Json::Object(o) => {
                let ghost all = self@->Object_0;
                let mut i: usize = 0;
                while i < o.len()
                    invariant
                        i <= o@.len(),
                        self == Json::Object(*o),
                        all == self@->Object_0,
                        ascending(all.take(i as int)),
                        forall|k: int| 0 <= k < i ==> (#[trigger] all[k]).1.wf(),
                    decreases o@.len() - i,
                {
                    assert(all[i as int] == (o@[i as int].0@, o@[i as int].1@));
                    if i > 0 {
                        assert(all[i - 1].0 == o@[i - 1].0@);
                        if !less_text(o[i - 1].0.as_str(), o[i].0.as_str()) {
                            assert(!ascending(all)) by {
                                if ascending(all) {
                                    assert(text_less(all[i - 1].0, all[i as int].0));
                                }
                            }
                            return false;
                        }
                    }
                    if !o[i].1.is_well_formed() {
                        return false;
                    }
                    proof {
                        let next = all.take(i + 1);
                        assert forall|x: int, y: int| 0 <= x < y < next.len() implies text_less(
                            (#[trigger] next[x]).0,
                            (#[trigger] next[y]).0,
                        ) by {
                            if y < i {
                                assert(text_less(all.take(i as int)[x].0, all.take(i as int)[y].0));
                            } else if x < i - 1 {
                                assert(text_less(
                                    all.take(i as int)[x].0,
                                    all.take(i as int)[i - 1].0,
                                ));
                                text_less_transitive(all[x].0, all[i - 1].0, all[i as int].0);
                            }
                        }
                    }
                    i += 1;
                }
                assert(all.take(all.len() as int) == all);
                true
            },
            _ => true,
        }
    }
}

}
