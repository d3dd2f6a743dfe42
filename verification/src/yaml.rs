//! YAML values: a plain tree that the configuration reads, and how it comes
//! from `serde_yaml`, which parses.

use vstd::prelude::*;

use crate::json::{json_of, opt_json, Json, JsonV};
use crate::text::same_text;

verus! {

broadcast use vstd::string::group_string_axioms;

/// `serde_yaml::Number`, carried through for numbers that are not integers.
#[verifier::external_type_specification]
#[verifier::external_body]
pub struct ExYamlNumber(serde_yaml::Number);

/// `serde_yaml::Value`, whose contents are named by `yaml_of`.
#[verifier::external_type_specification]
#[verifier::external_body]
pub struct ExYamlValue(serde_yaml::Value);

/// A YAML value.
#[derive(Debug)]
pub enum Yaml {
    Null,
    Bool(bool),
    /// An integer that is not negative.
    PosInt(u64),
    /// A negative integer.
    NegInt(i64),
    /// A number that is no integer.
    Float(serde_yaml::Number),
    Str(String),
    Sequence(Vec<Yaml>),
    Mapping(Vec<(Yaml, Yaml)>),
    /// A value with the tag in front of it.
    Tagged(String, Box<Yaml>),
}

/// What a YAML value is.
pub enum YamlV {
    Null,
    Bool(bool),
    PosInt(u64),
    NegInt(i64),
    Float(serde_yaml::Number),
    Str(Seq<char>),
    Sequence(Seq<YamlV>),
    Mapping(Seq<(YamlV, YamlV)>),
    Tagged(Seq<char>, Box<YamlV>),
}

/// The view of a YAML value.
pub open spec fn yaml_view(y: Yaml) -> YamlV
    decreases y,
{
    match y {
        Yaml::Null => YamlV::Null,
        Yaml::Bool(b) => YamlV::Bool(b),
        Yaml::PosInt(n) => YamlV::PosInt(n),
        Yaml::NegInt(n) => YamlV::NegInt(n),
        Yaml::Float(n) => YamlV::Float(n),
        Yaml::Str(s) => YamlV::Str(s@),
        Yaml::Sequence(a) => YamlV::Sequence(
            Seq::new(
                a@.len(),
                |i: int|
                    if 0 <= i < a@.len() {
                        yaml_view(a@[i])
                    } else {
                        YamlV::Null
                    },
            ),
        ),
        Yaml::Mapping(o) => YamlV::Mapping(
            Seq::new(
                o@.len(),
                |i: int|
                    if 0 <= i < o@.len() {
                        (yaml_view(o@[i].0), yaml_view(o@[i].1))
                    } else {
                        (YamlV::Null, YamlV::Null)
                    },
            ),
        ),
        Yaml::Tagged(tag, inner) => YamlV::Tagged(tag@, Box::new(yaml_view(*inner))),
    }
}

impl View for Yaml {
    type V = YamlV;

    open spec fn view(&self) -> YamlV {
        yaml_view(*self)
    }
}

/// The value of the first entry whose key is that string.
pub open spec fn yaml_entry(entries: Seq<(YamlV, YamlV)>, key: Seq<char>) -> Option<YamlV>
    decreases entries.len(),
{
    if entries.len() == 0 {
        None
    } else if entries[0].0 == YamlV::Str(key) {
        Some(entries[0].1)
    } else {
        yaml_entry(entries.drop_first(), key)
    }
}

impl YamlV {
    /// The value behind its tags.
    pub open spec fn untagged(self) -> YamlV
        decreases self,
    {
        match self {
            YamlV::Tagged(_, inner) => inner.untagged(),
            other => other,
        }
    }

    /// The entries of a mapping.
    pub open spec fn as_mapping(self) -> Option<Seq<(YamlV, YamlV)>> {
        match self.untagged() {
            YamlV::Mapping(o) => Some(o),
            _ => None,
        }
    }

    /// The items of a sequence.
    pub open spec fn as_sequence(self) -> Option<Seq<YamlV>> {
        match self.untagged() {
            YamlV::Sequence(a) => Some(a),
            _ => None,
        }
    }

    /// The text of a string.
    pub open spec fn as_str(self) -> Option<Seq<char>> {
        match self.untagged() {
            YamlV::Str(s) => Some(s),
            _ => None,
        }
    }

    /// An integer that fits into 64 bits with a sign.
    pub open spec fn as_i64(self) -> Option<i64> {
        match self.untagged() {
            YamlV::PosInt(n) => if n <= i64::MAX {
                Some(n as i64)
            } else {
                None
            },
            YamlV::NegInt(n) => Some(n),
            _ => None,
        }
    }

    /// The value that a mapping holds under that string.
    pub open spec fn get(self, key: Seq<char>) -> Option<YamlV> {
        match self.as_mapping() {
            Some(o) => yaml_entry(o, key),
            None => None,
        }
    }

    /// The value under `key` in the mapping under `section`.
    pub open spec fn under(self, section: Seq<char>, key: Seq<char>) -> Option<YamlV> {
        match self.get(section) {
            Some(inner) => inner.get(key),
            None => None,
        }
    }
}

/// The view of an optional reference to a YAML value.
pub open spec fn opt_yaml_ref(y: Option<&Yaml>) -> Option<YamlV> {
    match y {
        Some(v) => Some(v@),
        None => None,
    }
}

impl Yaml {
    /// The value taken out from behind its tags.
    pub fn into_untagged(self) -> (r: Yaml)
        ensures
            r@ == self@.untagged(),
            !(r is Tagged),
        decreases self,
    {
        match self {
            Yaml::Tagged(_, inner) => {
                let inner = *inner;
                inner.into_untagged()
            },
            other => other,
        }
    }

    /// The value behind its tags.
    pub fn untagged(&self) -> (r: &Yaml)
        ensures
            r@ == self@.untagged(),
            !(r is Tagged),
        decreases self,
    {
        match self {
            Yaml::Tagged(_, inner) => inner.untagged(),
            other => other,
        }
    }

    /// The text of a string.
    pub fn as_str(&self) -> (r: Option<&str>)
        ensures
            match r {
                Some(s) => self@.as_str() == Some(s@),
                None => self@.as_str() is None,
            },
    {
        match self.untagged() {
            Yaml::Str(s) => Some(s.as_str()),
            _ => None,
        }
    }

    /// The entries of a mapping.
    pub fn as_mapping(&self) -> (r: Option<&Vec<(Yaml, Yaml)>>)
        ensures
            match r {
                Some(o) => {
                    &&& self@.as_mapping() is Some
                    &&& self@.as_mapping()->0.len() == o@.len()
                    &&& forall|i: int|
                        0 <= i < o@.len() ==> self@.as_mapping()->0[i] == (
                            (#[trigger] o@[i]).0@,
                            o@[i].1@,
                        )
                },
                None => self@.as_mapping() is None,
            },
    {
        match self.untagged() {
            Yaml::Mapping(o) => Some(o),
            _ => None,
        }
    }

    /// The items of a sequence.
    pub fn as_sequence(&self) -> (r: Option<&Vec<Yaml>>)
        ensures
            match r {
                Some(a) => {
                    &&& self@.as_sequence() is Some
                    &&& self@.as_sequence()->0.len() == a@.len()
                    &&& forall|i: int|
                        0 <= i < a@.len() ==> self@.as_sequence()->0[i] == (#[trigger] a@[i])@
                },
                None => self@.as_sequence() is None,
            },
    {
        match self.untagged() {
            Yaml::Sequence(a) => Some(a),
            _ => None,
        }
    }

    /// An integer that fits into 64 bits with a sign.
    pub fn as_i64(&self) -> (r: Option<i64>)
        ensures
            r == self@.as_i64(),
    {
        match self.untagged() {
            Yaml::PosInt(n) => if *n <= i64::MAX as u64 {
                Some(*n as i64)
            } else {
                None
            },
            Yaml::NegInt(n) => Some(*n),
            _ => None,
        }
    }

    /// The value that a mapping holds under that string.
    pub fn get(&self, key: &str) -> (r: Option<&Yaml>)
        ensures
            opt_yaml_ref(r) == self@.get(key@),
    {
        match self.untagged() {
            Yaml::Mapping(o) => {
                let ghost all = self@.as_mapping()->0;
                let mut i: usize = 0;
                assert(all.skip(0) == all);
                while i < o.len()
                    invariant
                        i <= o@.len(),
                        all.len() == o@.len(),
                        forall|k: int|
                            0 <= k < o@.len() ==> #[trigger] all[k] == (o@[k].0@, o@[k].1@),
                        yaml_entry(all, key@) == yaml_entry(all.skip(i as int), key@),
                        self@.get(key@) == yaml_entry(all, key@),
                    decreases o@.len() - i,
                {
                    assert(all.skip(i as int)[0] == all[i as int]);
                    assert(all.skip(i as int).drop_first() == all.skip(i + 1));
                    if let Yaml::Str(s) = &o[i].0 {
                        if same_text(s.as_str(), key) {
                            return Some(&o[i].1);
                        }
                    }
                    i += 1;
                }
                None
            },
            _ => None,
        }
    }
}

/// What a `serde_yaml::Value` holds. The entries of a mapping stand in the order
/// in which `serde_yaml::Mapping` hands them out, and a tag is what it displays
/// as.
pub uninterp spec fn yaml_of(v: serde_yaml::Value) -> YamlV;

/// One level of a value: its members are still `serde_yaml` values.
enum YamlLevel {
    Null,
    Bool(bool),
    PosInt(u64),
    NegInt(i64),
    Float(serde_yaml::Number),
    Str(String),
    Sequence(Vec<serde_yaml::Value>),
    Mapping(Vec<(serde_yaml::Value, serde_yaml::Value)>),
    Tagged(String, serde_yaml::Value),
}

impl YamlLevel {
    spec fn whole(self) -> YamlV {
        match self {
            YamlLevel::Null => YamlV::Null,
            YamlLevel::Bool(b) => YamlV::Bool(b),
            YamlLevel::PosInt(n) => YamlV::PosInt(n),
            YamlLevel::NegInt(n) => YamlV::NegInt(n),
            YamlLevel::Float(n) => YamlV::Float(n),
            YamlLevel::Str(s) => YamlV::Str(s@),
            YamlLevel::Sequence(a) => YamlV::Sequence(
                Seq::new(a@.len(), |i: int| yaml_of(a@[i])),
            ),
            YamlLevel::Mapping(o) => YamlV::Mapping(
                Seq::new(o@.len(), |i: int| (yaml_of(o@[i].0), yaml_of(o@[i].1))),
            ),
            YamlLevel::Tagged(tag, v) => YamlV::Tagged(tag@, Box::new(yaml_of(v))),
        }
    }
}

/// Tells the variants of a `serde_yaml::Value` apart and moves its fields out.
/// A number is handed out by `Number::as_u64`, by `Number::as_i64` where it is
/// negative, and as it is where it is no integer.
#[verifier::external_body]
fn take_apart(v: serde_yaml::Value) -> (r: YamlLevel)
    ensures
        r.whole() == yaml_of(v),
{
    match v {
        serde_yaml::Value::Null => YamlLevel::Null,
        serde_yaml::Value::Bool(b) => YamlLevel::Bool(b),
        serde_yaml::Value::Number(n) => match (n.as_u64(), n.as_i64()) {
            (Some(u), _) => YamlLevel::PosInt(u),
            (None, Some(i)) => YamlLevel::NegInt(i),
            (None, None) => YamlLevel::Float(n),
        },
        serde_yaml::Value::String(s) => YamlLevel::Str(s),
        serde_yaml::Value::Sequence(a) => YamlLevel::Sequence(a),
        serde_yaml::Value::Mapping(m) => YamlLevel::Mapping(m.into_iter().collect()),
        serde_yaml::Value::Tagged(t) => YamlLevel::Tagged(t.tag.to_string(), t.value),
    }
}

impl Yaml {
    /// The plain tree of a `serde_yaml::Value`.
    pub fn from_value(v: serde_yaml::Value) -> (r: Yaml)
        ensures
            r@ == yaml_of(v),
        decreases yaml_of(v),
    {
        let ghost whole = yaml_of(v);
        match take_apart(v) {
            YamlLevel::Null => Yaml::Null,
            YamlLevel::Bool(b) => Yaml::Bool(b),
            YamlLevel::PosInt(n) => Yaml::PosInt(n),
            YamlLevel::NegInt(n) => Yaml::NegInt(n),
            YamlLevel::Float(n) => Yaml::Float(n),
            YamlLevel::Str(s) => Yaml::Str(s),
            YamlLevel::Sequence(a) => {
                let mut items: Vec<Yaml> = Vec::new();
                let ghost all = a@;
                for x in it: a
                    invariant
                        it.seq() == all,
                        whole == yaml_of(v),
                        whole == YamlV::Sequence(Seq::new(all.len(), |i: int| yaml_of(all[i]))),
                        items@.len() == it.index(),
                        forall|k: int|
                            0 <= k < items@.len() ==> (#[trigger] items@[k])@ == yaml_of(all[k]),
                {
                    proof {
                        let k = it.index() as int;
                        assert(whole->Sequence_0[k] == yaml_of(x));
                        assert(decreases_to!(whole => whole->Sequence_0));
                    }
                    items.push(Yaml::from_value(x));
                }
                let r = Yaml::Sequence(items);
                assert(r@->Sequence_0 =~= whole->Sequence_0);
                r
            },
            YamlLevel::Mapping(o) => {
                let mut members: Vec<(Yaml, Yaml)> = Vec::new();
                let ghost all = o@;
                for x in it: o
                    invariant
                        it.seq() == all,
                        whole == yaml_of(v),
                        whole == YamlV::Mapping(
                            Seq::new(all.len(), |i: int| (yaml_of(all[i].0), yaml_of(all[i].1))),
                        ),
                        members@.len() == it.index(),
                        forall|k: int|
                            0 <= k < members@.len() ==> (#[trigger] members@[k]).0@ == yaml_of(
                                all[k].0,
                            ) && members@[k].1@ == yaml_of(all[k].1),
                {
                    proof {
                        let k = it.index() as int;
                        assert(whole->Mapping_0[k].0 == yaml_of(x.0));
                        assert(whole->Mapping_0[k].1 == yaml_of(x.1));
                        assert(decreases_to!(whole => whole->Mapping_0));
                        assert(decreases_to!(whole->Mapping_0 => whole->Mapping_0[k]));
                        assert(decreases_to!(whole->Mapping_0[k] => whole->Mapping_0[k].0));
                        assert(decreases_to!(whole->Mapping_0[k] => whole->Mapping_0[k].1));
                    }
                    members.push((Yaml::from_value(x.0), Yaml::from_value(x.1)));
                }
                let r = Yaml::Mapping(members);
                assert(r@->Mapping_0 =~= whole->Mapping_0);
                r
            },
            YamlLevel::Tagged(tag, inner) => {
                assert(decreases_to!(whole => whole->Tagged_1));
                Yaml::Tagged(tag, Box::new(Yaml::from_value(inner)))
            },
        }
    }
}

/// What `serde_yaml::from_str` makes of a text: a value, or the words of the
/// error.
pub uninterp spec fn yaml_parsed(text: Seq<char>) -> Result<YamlV, Seq<char>>;

/// `serde_yaml::from_str::<Value>`, with its error in words: a function of the
/// text alone.
#[verifier::external_body]
pub(crate) fn value_from_text(text: &str) -> (r: Result<serde_yaml::Value, String>)
    ensures
        match r {
            Ok(v) => yaml_parsed(text@) == Ok::<YamlV, Seq<char>>(yaml_of(v)),
            Err(e) => yaml_parsed(text@) == Err::<YamlV, Seq<char>>(e@),
        },
{
    serde_yaml::from_str::<serde_yaml::Value>(text).map_err(|err| err.to_string())
}

/// What `serde_json::to_value` makes of a YAML value, where it makes anything.
pub uninterp spec fn yaml_as_json(value: YamlV) -> Option<JsonV>;

/// `serde_yaml::Value::get` with a string: the value that the mapping behind the
/// tags holds under that string, if it is one.
#[verifier::external_body]
fn value_get<'a>(v: &'a serde_yaml::Value, key: &str) -> (r: Option<&'a serde_yaml::Value>)
    ensures
        match r {
            Some(found) => yaml_of(*v).get(key@) == Some(yaml_of(*found)),
            None => yaml_of(*v).get(key@) is None,
        },
{
    v.get(key)
}

/// `serde_json::to_value` on a YAML value: a function of its contents alone.
#[verifier::external_body]
fn value_to_json(v: &serde_yaml::Value) -> (r: Option<serde_json::Value>)
    ensures
        match r {
            Some(j) => yaml_as_json(yaml_of(*v)) == Some(json_of(j)),
            None => yaml_as_json(yaml_of(*v)) is None,
        },
{
    serde_json::to_value(v).ok()
}

/// The JSON form of the value under `key` in the mapping under `section`.
pub open spec fn json_under(v: YamlV, section: Seq<char>, key: Seq<char>) -> Option<JsonV> {
    match v.under(section, key) {
        Some(y) => yaml_as_json(y),
        None => None,
    }
}

/// The JSON form of the value under `key` in the mapping under `section`.
pub(crate) fn json_value(v: &serde_yaml::Value, section: &str, key: &str) -> (r: Option<Json>)
    ensures
        opt_json(r) == json_under(yaml_of(*v), section@, key@),
        r matches Some(j) ==> j@.wf(),
{
    match value_get(v, section) {
        Some(inner) => match value_get(inner, key) {
            Some(found) => match value_to_json(found) {
                Some(j) => Some(Json::from_value(j)),
                None => None,
            },
            None => None,
        },
        None => None,
    }
}

}
