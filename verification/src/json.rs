//! The library's own JSON value model. Tool arguments arrive as JSON and
//! query tools answer with JSON; this type holds exactly what the logic reads
//! (numbers keep serde_json's three-way split into non-negative integers,
//! negative integers and floats).

use vstd::prelude::*;
use crate::int_float::{f64_bits_of_int, json_int_as_f64_bits, lemma_nearest_unique, nearest_double};
use crate::reals::Real;
use crate::text::{str_eq, string_of};

verus! {

/// A JSON number: `PosInt` for integers >= 0, `NegInt` for integers < 0,
/// `Float` for everything else.
#[derive(Clone, Copy)]
pub enum JsonNumber {
    PosInt(u64),
    NegInt(i64),
    Float(Real),
}

/// A JSON value. Objects keep their members in order; keys are unique in
/// every object the library builds.
pub enum JsonValue {
    Null,
    Bool(bool),
    Number(JsonNumber),
    Str(String),
    Array(Vec<JsonValue>),
    Object(Vec<(String, JsonValue)>),
}

/// The mathematical reading of a [`JsonValue`].
pub ghost enum Json {
    Null,
    Bool(bool),
    Number(JsonNumber),
    Str(Seq<char>),
    Array(Seq<Json>),
    Object(Seq<(Seq<char>, Json)>),
}

/// Reading of a value.
pub open spec fn json_of(v: JsonValue) -> Json
    decreases v,
{
    match v {
        JsonValue::Null => Json::Null,
        JsonValue::Bool(b) => Json::Bool(b),
        JsonValue::Number(n) => Json::Number(n),
        JsonValue::Str(s) => Json::Str(s@),
        JsonValue::Array(items) => {
            proof {
                broadcast use vstd::std_specs::vec::axiom_vec_decreases_to_view;
                assert(decreases_to!(items => items@));
            }
            Json::Array(json_of_seq(items@))
        },
        JsonValue::Object(members) => {
            proof {
                broadcast use vstd::std_specs::vec::axiom_vec_decreases_to_view;
                assert(decreases_to!(members => members@));
            }
            Json::Object(json_of_members(members@))
        },
    }
}

/// Reading of a sequence of values, element by element.
pub open spec fn json_of_seq(s: Seq<JsonValue>) -> Seq<Json>
    decreases s,
{
    if s.len() == 0 {
        Seq::empty()
    } else {
        proof {
            broadcast use vstd::seq::axiom_seq_subrange_decreases, vstd::seq::axiom_seq_index_decreases;
            assert(decreases_to!(s => s.subrange(0, s.len() - 1)));
            assert(decreases_to!(s => s[s.len() - 1]));
        }
        json_of_seq(s.subrange(0, s.len() - 1)).push(json_of(s[s.len() - 1]))
    }
}

/// Reading of object members, element by element.
pub open spec fn json_of_members(s: Seq<(String, JsonValue)>) -> Seq<(Seq<char>, Json)>
    decreases s,
{
    if s.len() == 0 {
        Seq::empty()
    } else {
        proof {
            broadcast use vstd::seq::axiom_seq_subrange_decreases, vstd::seq::axiom_seq_index_decreases;
            assert(decreases_to!(s => s.subrange(0, s.len() - 1)));
            assert(decreases_to!(s => s[s.len() - 1]));
        }
        json_of_members(s.subrange(0, s.len() - 1)).push((s[s.len() - 1].0@, json_of(s[s.len() - 1].1)))
    }
}

pub proof fn lemma_json_of_seq(s: Seq<JsonValue>)
    ensures
        json_of_seq(s).len() == s.len(),
        forall|i: int| 0 <= i < s.len() ==> #[trigger] json_of_seq(s)[i] == json_of(s[i]),
    decreases s.len(),
{
    if s.len() > 0 {
        lemma_json_of_seq(s.subrange(0, s.len() - 1));
    }
}

pub proof fn lemma_json_of_members(s: Seq<(String, JsonValue)>)
    ensures
        json_of_members(s).len() == s.len(),
        forall|i: int| 0 <= i < s.len() ==> #[trigger] json_of_members(s)[i] == (s[i].0@, json_of(s[i].1)),
    decreases s.len(),
{
    if s.len() > 0 {
        lemma_json_of_members(s.subrange(0, s.len() - 1));
    }
}

impl View for JsonValue {
    type V = Json;

    open spec fn view(&self) -> Json {
        json_of(*self)
    }
}

/// Index of the first member named `key`, if any.
pub open spec fn find_key(members: Seq<(Seq<char>, Json)>, key: Seq<char>) -> Option<int>
    decreases members.len(),
{
    if members.len() == 0 {
        None
    } else if members[0].0 == key {
        Some(0)
    } else {
        match find_key(members.drop_first(), key) {
            Some(i) => Some(i + 1),
            None => None,
        }
    }
}

pub proof fn lemma_find_key_first(m: Seq<(Seq<char>, Json)>, i: int, key: Seq<char>)
    requires
        0 <= i < m.len(),
        m[i].0 == key,
        forall|j: int| 0 <= j < i ==> m[j].0 != key,
    ensures
        find_key(m, key) == Some(i),
    decreases m.len(),
{
    if i > 0 {
        assert forall|j: int| 0 <= j < i - 1 implies m.drop_first()[j].0 != key by {
            assert(m.drop_first()[j] == m[j + 1]);
        }
        lemma_find_key_first(m.drop_first(), i - 1, key);
    }
}

pub proof fn lemma_find_key_absent(m: Seq<(Seq<char>, Json)>, key: Seq<char>)
    requires
        forall|j: int| 0 <= j < m.len() ==> m[j].0 != key,
    ensures
        find_key(m, key) is None,
    decreases m.len(),
{
    if m.len() > 0 {
        assert forall|j: int| 0 <= j < m.len() - 1 implies m.drop_first()[j].0 != key by {
            assert(m.drop_first()[j] == m[j + 1]);
        }
        lemma_find_key_absent(m.drop_first(), key);
    }
}

impl Json {
    /// `Value::get(key)`: the member of an object, `None` for non-objects.
    pub open spec fn get(self, key: Seq<char>) -> Option<Json> {
        match self {
            Json::Object(members) => match find_key(members, key) {
                Some(i) => Some(members[i].1),
                None => None,
            },
            _ => None,
        }
    }

    pub open spec fn as_str(self) -> Option<Seq<char>> {
        match self {
            Json::Str(s) => Some(s),
            _ => None,
        }
    }

    pub open spec fn as_bool(self) -> Option<bool> {
        match self {
            Json::Bool(b) => Some(b),
            _ => None,
        }
    }

    pub open spec fn as_array(self) -> Option<Seq<Json>> {
        match self {
            Json::Array(items) => Some(items),
            _ => None,
        }
    }

    pub open spec fn as_i64(self) -> Option<i64> {
        match self {
            Json::Number(n) => n.spec_as_i64(),
            _ => None,
        }
    }

    /// `as_i64().or_else(|| as_f64().map(|f| f as i64))`.
    pub open spec fn as_int(self) -> Option<i64> {
        match self {
            Json::Number(n) => Some(n.spec_int_reading()),
            _ => None,
        }
    }

    /// `as_f64()` (integers included).
    pub open spec fn as_f64(self) -> Option<Real> {
        match self {
            Json::Number(n) => Some(n.spec_as_f64()),
            _ => None,
        }
    }

    pub open spec fn members(self) -> Seq<(Seq<char>, Json)> {
        match self {
            Json::Object(m) => m,
            _ => Seq::empty(),
        }
    }
}

impl JsonNumber {
    /// `serde_json::Number::as_i64`: integers that fit in `i64`.
    pub open spec fn spec_as_i64(self) -> Option<i64> {
        match self {
            JsonNumber::PosInt(u) => if u <= i64::MAX as u64 { Some(u as i64) } else { None },
            JsonNumber::NegInt(i) => Some(i),
            JsonNumber::Float(_) => None,
        }
    }

    /// `serde_json::Number::as_f64`: every number has a float reading.
    pub open spec fn spec_as_f64(self) -> Real {
        match self {
            JsonNumber::PosInt(u) => Real::Bits(f64_bits_of_int(u as int)),
            JsonNumber::NegInt(i) => Real::Bits(f64_bits_of_int(i as int)),
            JsonNumber::Float(r) => r,
        }
    }

    /// The integer reading used by the tool layer: `as_i64`, or else the
    /// float reading truncated toward zero (saturating), as `f as i64` does.
    pub open spec fn spec_int_reading(self) -> i64 {
        match self.spec_as_i64() {
            Some(i) => i,
            None => self.spec_as_f64().spec_trunc_i64(),
        }
    }

    pub fn as_i64(&self) -> (r: Option<i64>)
        ensures
            r == self.spec_as_i64(),
    {
        match self {
            JsonNumber::PosInt(u) => if *u <= i64::MAX as u64 { Some(*u as i64) } else { None },
            JsonNumber::NegInt(i) => Some(*i),
            JsonNumber::Float(_) => None,
        }
    }

    pub fn as_f64(&self) -> (r: Real)
        ensures
            r == self.spec_as_f64(),
    {
        match self {
            JsonNumber::Float(r) => *r,
            _ => {
                let b = json_int_as_f64_bits(self);
                proof {
                    let n: int = match *self {
                        JsonNumber::PosInt(u) => u as int,
                        JsonNumber::NegInt(i) => i as int,
                        JsonNumber::Float(_) => 0,
                    };
                    assert(nearest_double(b, n));
                    lemma_nearest_unique(b, f64_bits_of_int(n), n);
                }
                Real::Bits(b)
            },
        }
    }

    pub fn int_reading(&self) -> (r: i64)
        ensures
            r == self.spec_int_reading(),
    {
        match self.as_i64() {
            Some(i) => i,
            None => self.as_f64().trunc_i64(),
        }
    }
}

impl JsonValue {
    pub fn get(&self, key: &str) -> (r: Option<&JsonValue>)
        ensures
            r is Some == self@.get(key@) is Some,
            r is Some ==> r->0@ == self@.get(key@)->0,
    {
        match self {
            JsonValue::Object(members) => {
                assert(*self == JsonValue::Object(*members));
                let ghost m = self@.members();
                proof { lemma_json_of_members(members@); }
                let mut i: usize = 0;
                while i < members.len()
                    invariant
                        0 <= i <= members@.len(),
                        m.len() == members@.len(),
                        m == json_of_members(members@),
                        *self == JsonValue::Object(*members),
                        m == self@.members(),
                        forall|j: int| 0 <= j < members@.len() ==> #[trigger] m[j] == (members@[j].0@, json_of(members@[j].1)),
                        forall|j: int| 0 <= j < i ==> m[j].0 != key@,
                    decreases members.len() - i,
                {
                    let found = str_eq(members[i].0.as_str(), key);
                    assert(m[i as int] == (members@[i as int].0@, json_of(members@[i as int].1)));
                    if found {
                        proof {
                            lemma_find_key_first(m, i as int, key@);
                        }
                        return Some(&members[i].1);
                    }
                    i = i + 1;
                }
                proof {
                    lemma_find_key_absent(m, key@);
                }
                None
            },
            _ => None,
        }
    }

    pub fn as_str(&self) -> (r: Option<&String>)
        ensures
            r is Some == self@.as_str() is Some,
            r is Some ==> r->0@ == self@.as_str()->0,
    {
        match self {
            JsonValue::Str(s) => Some(s),
            _ => None,
        }
    }

    pub fn as_bool(&self) -> (r: Option<bool>)
        ensures
            r == self@.as_bool(),
    {
        match self {
            JsonValue::Bool(b) => Some(*b),
            _ => None,
        }
    }

    pub fn as_array(&self) -> (r: Option<&Vec<JsonValue>>)
        ensures
            r is Some == self@.as_array() is Some,
            r is Some ==> json_of_seq(r->0@) == self@.as_array()->0,
    {
        match self {
            JsonValue::Array(items) => Some(items),
            _ => None,
        }
    }

    pub fn as_i64(&self) -> (r: Option<i64>)
        ensures
            r == self@.as_i64(),
    {
        match self {
            JsonValue::Number(n) => n.as_i64(),
            _ => None,
        }
    }

    pub fn as_int(&self) -> (r: Option<i64>)
        ensures
            r == self@.as_int(),
    {
        match self {
            JsonValue::Number(n) => Some(n.int_reading()),
            _ => None,
        }
    }

    pub fn as_f64(&self) -> (r: Option<Real>)
        ensures
            r == self@.as_f64(),
    {
        match self {
            JsonValue::Number(n) => Some(n.as_f64()),
            _ => None,
        }
    }

    /// A deep copy.
    pub fn duplicate(&self) -> (r: JsonValue)
        ensures
            r@ == self@,
        decreases self,
    {
        match self {
            JsonValue::Null => JsonValue::Null,
            JsonValue::Bool(b) => JsonValue::Bool(*b),
            JsonValue::Number(n) => JsonValue::Number(*n),
            JsonValue::Str(s) => JsonValue::Str(s.clone()),
            JsonValue::Array(items) => {
                let mut out: Vec<JsonValue> = Vec::new();
                let mut i: usize = 0;
                while i < items.len()
                    invariant
                        0 <= i <= items@.len(),
                        *self == JsonValue::Array(*items),
                        out@.len() == i,
                        forall|j: int| 0 <= j < i ==> out@[j]@ == items@[j]@,
                    decreases items.len() - i,
                {
                    proof {
                        broadcast use vstd::std_specs::vec::axiom_vec_index_decreases;
                        assert(*self == JsonValue::Array(*items));
                        assert(decreases_to!(*self => self->Array_0));
                        assert(decreases_to!(*items => items[i as int]));
                        assert(decreases_to!(*self => items[i as int]));
                    }
                    let v = items[i].duplicate();
                    out.push(v);
                    i = i + 1;
                }
                proof {
                    lemma_json_of_seq(out@);
                    lemma_json_of_seq(items@);
                    assert(json_of_seq(out@) =~= json_of_seq(items@));
                }
                JsonValue::Array(out)
            },
            JsonValue::Object(members) => {
                let mut out: Vec<(String, JsonValue)> = Vec::new();
                let mut i: usize = 0;
                while i < members.len()
                    invariant
                        0 <= i <= members@.len(),
                        *self == JsonValue::Object(*members),
                        out@.len() == i,
                        forall|j: int| 0 <= j < i ==> out@[j].0@ == members@[j].0@ && out@[j].1@ == members@[j].1@,
                    decreases members.len() - i,
                {
                    proof {
                        broadcast use vstd::std_specs::vec::axiom_vec_index_decreases;
                        assert(*self == JsonValue::Object(*members));
                        assert(decreases_to!(*self => self->Object_0));
                        assert(decreases_to!(*members => members[i as int]));
                        assert(decreases_to!(members[i as int] => members[i as int].1));
                        assert(decreases_to!(*self => members[i as int].1));
                    }
                    let v = members[i].1.duplicate();
                    out.push((members[i].0.clone(), v));
                    i = i + 1;
                }
                proof {
                    lemma_json_of_members(out@);
                    lemma_json_of_members(members@);
                    assert(json_of_members(out@) =~= json_of_members(members@));
                }
                JsonValue::Object(out)
            },
        }
    }

    /// An empty object.
    pub fn object() -> (r: JsonValue)
        ensures
            r@ == Json::Object(Seq::empty()),
    {
        let r = JsonValue::Object(Vec::new());
        assert(r@.members() =~= Seq::<(Seq<char>, Json)>::empty());
        r
    }

    /// A string value.
    pub fn string(s: &str) -> (r: JsonValue)
        ensures
            r@ == Json::Str(s@),
    {
        JsonValue::Str(string_of(s))
    }

    /// An integer value, as `json!(n)` stores an `i64`.
    pub fn integer(n: i64) -> (r: JsonValue)
        ensures
            r@ == Json::Number(int_number(n)),
    {
        if n < 0 {
            JsonValue::Number(JsonNumber::NegInt(n))
        } else {
            JsonValue::Number(JsonNumber::PosInt(n as u64))
        }
    }

    /// An array of the given values.
    pub fn array(items: Vec<JsonValue>) -> (r: JsonValue)
        ensures
            r@ == Json::Array(json_of_seq(items@)),
    {
        JsonValue::Array(items)
    }
}

/// The number `json!(n)` builds for an `i64`.
pub open spec fn int_number(n: i64) -> JsonNumber {
    if n < 0 {
        JsonNumber::NegInt(n)
    } else {
        JsonNumber::PosInt(n as u64)
    }
}

} // verus!
