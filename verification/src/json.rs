//! A JSON value the library can reason about.
//!
//! Records read from datasets are JSON. `Json` holds what the library reads
//! of them as plain values; numbers are kept as their textual form, since the
//! library never does arithmetic on them. `JsonV` is its mathematical view.
use vstd::prelude::*;
use crate::text::str_eq;

verus! {

pub enum Json {
    Null,
    Bool(bool),
    /// A number, in the text it was written with.
    Number(String),
    Str(String),
    Array(Vec<Json>),
    /// An object's entries, in order; keys are distinct.
    Object(Vec<(String, Json)>),
}

pub enum JsonV {
    Null,
    Bool(bool),
    Number(Seq<char>),
    Str(Seq<char>),
    Array(Seq<JsonV>),
    Object(Seq<(Seq<char>, JsonV)>),
}

pub open spec fn jv(j: Json) -> JsonV
    decreases j,
{
    match j {
        Json::Null => JsonV::Null,
        Json::Bool(b) => JsonV::Bool(b),
        Json::Number(n) => JsonV::Number(n@),
        Json::Str(s) => JsonV::Str(s@),
        Json::Array(v) => JsonV::Array(jvs(v@)),
        Json::Object(m) => JsonV::Object(jvo(m@)),
    }
}

pub open spec fn jvs(s: Seq<Json>) -> Seq<JsonV>
    decreases s,
{
    if s.len() == 0 {
        Seq::empty()
    } else {
        jvs(s.drop_last()).push(jv(s.last()))
    }
}

pub open spec fn jvo(s: Seq<(String, Json)>) -> Seq<(Seq<char>, JsonV)>
    decreases s,
{
    if s.len() == 0 {
        Seq::empty()
    } else {
        jvo(s.drop_last()).push((s.last().0@, jv(s.last().1)))
    }
}

impl View for Json {
    type V = JsonV;

    open spec fn view(&self) -> JsonV {
        jv(*self)
    }
}

pub proof fn lemma_jvs_index(s: Seq<Json>)
    ensures
        jvs(s).len() == s.len(),
        forall|i: int| 0 <= i < s.len() ==> #[trigger] jvs(s)[i] == jv(s[i]),
    decreases s.len(),
{
    if s.len() > 0 {
        lemma_jvs_index(s.drop_last());
        assert forall|i: int| 0 <= i < s.len() implies #[trigger] jvs(s)[i] == jv(s[i]) by {
            if i < s.len() - 1 {
                assert(jvs(s)[i] == jvs(s.drop_last())[i]);
                assert(s.drop_last()[i] == s[i]);
            }
        }
    }
}

pub proof fn lemma_jvo_index(s: Seq<(String, Json)>)
    ensures
        jvo(s).len() == s.len(),
        forall|i: int|
            0 <= i < s.len() ==> #[trigger] jvo(s)[i] == (s[i].0@, jv(s[i].1)),
    decreases s.len(),
{
    if s.len() > 0 {
        lemma_jvo_index(s.drop_last());
        assert forall|i: int| 0 <= i < s.len() implies #[trigger] jvo(s)[i] == (
            s[i].0@,
            jv(s[i].1),
        ) by {
            if i < s.len() - 1 {
                assert(jvo(s)[i] == jvo(s.drop_last())[i]);
                assert(s.drop_last()[i] == s[i]);
            }
        }
    }
}

/// The value stored under `k` in an object's entries (the first entry with
/// that key).
pub open spec fn entries_get(m: Seq<(Seq<char>, JsonV)>, k: Seq<char>) -> Option<JsonV>
    decreases m.len(),
{
    if m.len() == 0 {
        None
    } else if m[0].0 == k {
        Some(m[0].1)
    } else {
        entries_get(m.drop_first(), k)
    }
}

/// `Value::get(key)`: the member `k` of an object; `None` for any other value.
pub open spec fn get(j: JsonV, k: Seq<char>) -> Option<JsonV> {
    match j {
        JsonV::Object(m) => entries_get(m, k),
        _ => None,
    }
}

/// `Option::and_then(|v| v.get(k))`.
pub open spec fn get_opt(j: Option<JsonV>, k: Seq<char>) -> Option<JsonV> {
    match j {
        Some(v) => get(v, k),
        None => None,
    }
}

/// `Value::as_str`.
pub open spec fn as_str(j: JsonV) -> Option<Seq<char>> {
    match j {
        JsonV::Str(s) => Some(s),
        _ => None,
    }
}

/// `Option::and_then(Value::as_str)`.
pub open spec fn str_opt(j: Option<JsonV>) -> Option<Seq<char>> {
    match j {
        Some(v) => as_str(v),
        None => None,
    }
}

/// `Value::as_array`.
pub open spec fn as_array(j: JsonV) -> Option<Seq<JsonV>> {
    match j {
        JsonV::Array(a) => Some(a),
        _ => None,
    }
}

/// `Option::and_then(Value::as_array)`.
pub open spec fn array_opt(j: Option<JsonV>) -> Option<Seq<JsonV>> {
    match j {
        Some(v) => as_array(v),
        None => None,
    }
}

/// `Value::as_object`.
pub open spec fn as_object(j: JsonV) -> Option<Seq<(Seq<char>, JsonV)>> {
    match j {
        JsonV::Object(m) => Some(m),
        _ => None,
    }
}

pub open spec fn is_null(j: JsonV) -> bool {
    j is Null
}

impl Json {
    /// A deep copy.
    pub fn copy(&self) -> (r: Json)
        ensures
            r@ == self@,
        decreases self,
    {
        match self {
            Json::Null => Json::Null,
            Json::Bool(b) => Json::Bool(*b),
            Json::Number(n) => Json::Number(crate::text::copy_str(n.as_str())),
            Json::Str(s) => Json::Str(crate::text::copy_str(s.as_str())),
            Json::Array(v) => {
                let mut out: Vec<Json> = Vec::new();
                let mut i: usize = 0;
                while i < v.len()
                    invariant
                        i <= v.len(),
                        *self == Json::Array(*v),
                        jvs(out@) == jvs(v@.take(i as int)),
                    decreases v.len() - i,
                {
                    proof {
                        assert(decreases_to!(*self => self->Array_0));
                        assert(decreases_to!(*v => v[i as int]));
                    }
                    let x = v[i].copy();
                    let ghost before = out@;
                    out.push(x);
                    proof {
                        assert(out@.drop_last() == before);
                        assert(v@.take(i + 1).drop_last() =~= v@.take(i as int));
                    }
                    i = i + 1;
                }
                proof {
                    assert(v@.take(v@.len() as int) =~= v@);
                }
                Json::Array(out)
            },
            Json::Object(m) => {
                let mut out: Vec<(String, Json)> = Vec::new();
                let mut i: usize = 0;
                while i < m.len()
                    invariant
                        i <= m.len(),
                        *self == Json::Object(*m),
                        jvo(out@) == jvo(m@.take(i as int)),
                    decreases m.len() - i,
                {
                    proof {
                        assert(decreases_to!(*self => self->Object_0));
                        assert(decreases_to!(*m => m[i as int]));
                        assert(decreases_to!(m[i as int] => m[i as int].1));
                    }
                    let k = crate::text::copy_str(m[i].0.as_str());
                    let x = m[i].1.copy();
                    let ghost before = out@;
                    out.push((k, x));
                    proof {
                        assert(out@.drop_last() == before);
                        assert(m@.take(i + 1).drop_last() =~= m@.take(i as int));
                    }
                    i = i + 1;
                }
                proof {
                    assert(m@.take(m@.len() as int) =~= m@);
                }
                Json::Object(out)
            },
        }
    }

    /// `Value::get(key)`.
    pub fn get(&self, key: &str) -> (r: Option<&Json>)
        ensures
            match r {
                Some(x) => get(self@, key@) == Some(x@),
                None => get(self@, key@) is None,
            },
    {
        match self {
            Json::Object(m) => lookup(m, key),
            _ => None,
        }
    }

    /// `Value::as_str`.
    pub fn as_str(&self) -> (r: Option<&str>)
        ensures
            match r {
                Some(s) => as_str(self@) == Some(s@),
                None => as_str(self@) is None,
            },
    {
        match self {
            Json::Str(s) => Some(s.as_str()),
            _ => None,
        }
    }

    /// `Value::as_array`.
    pub fn as_array(&self) -> (r: Option<&Vec<Json>>)
        ensures
            match r {
                Some(a) => as_array(self@) == Some(jvs(a@)),
                None => as_array(self@) is None,
            },
    {
        match self {
            Json::Array(a) => Some(a),
            _ => None,
        }
    }

    /// True for an object.
    pub fn is_object(&self) -> (b: bool)
        ensures
            b == (as_object(self@) is Some),
    {
        match self {
            Json::Object(_) => true,
            _ => false,
        }
    }

    /// True for `null`.
    pub fn is_null(&self) -> (b: bool)
        ensures
            b == is_null(self@),
    {
        match self {
            Json::Null => true,
            _ => false,
        }
    }
}

/// The value of the first entry keyed `key` (`Map::get`).
pub fn lookup<'a>(m: &'a Vec<(String, Json)>, key: &str) -> (r: Option<&'a Json>)
    ensures
        match r {
            Some(x) => entries_get(jvo(m@), key@) == Some(x@),
            None => entries_get(jvo(m@), key@) is None,
        },
{
    let mut i: usize = 0;
    proof {
        lemma_jvo_index(m@);
        assert(jvo(m@).skip(0) =~= jvo(m@));
    }
    while i < m.len()
        invariant
            i <= m.len(),
            jvo(m@).len() == m@.len(),
            forall|j: int| 0 <= j < m.len() ==> #[trigger] jvo(m@)[j] == (m@[j].0@, jv(m@[j].1)),
            entries_get(jvo(m@), key@) == entries_get(jvo(m@).skip(i as int), key@),
        decreases m.len() - i,
    {
        let ghost rest = jvo(m@).skip(i as int);
        proof {
            assert(rest[0] == jvo(m@)[i as int]);
            assert(rest.drop_first() =~= jvo(m@).skip(i + 1));
        }
        if str_eq(m[i].0.as_str(), key) {
            proof {
                assert(entries_get(rest, key@) == Some(rest[0].1));
            }
            return Some(&m[i].1);
        }
        i = i + 1;
    }
    None
}

/// `a.or_else(|| b)`.
pub open spec fn or_opt<A>(a: Option<A>, b: Option<A>) -> Option<A> {
    match a {
        Some(x) => Some(x),
        None => b,
    }
}

/// `Option<&Json>::and_then(|v| v.get(key))`.
pub fn and_get<'a>(j: Option<&'a Json>, key: &str) -> (r: Option<&'a Json>)
    ensures
        match j {
            Some(x) => match r {
                Some(y) => get(x@, key@) == Some(y@),
                None => get(x@, key@) is None,
            },
            None => r is None,
        },
{
    match j {
        Some(x) => x.get(key),
        None => None,
    }
}

pub open spec fn opt_jv(o: Option<&Json>) -> Option<JsonV> {
    match o {
        Some(x) => Some(x@),
        None => None,
    }
}

/// The index of the first entry keyed `k`.
pub open spec fn key_index(m: Seq<(Seq<char>, JsonV)>, k: Seq<char>) -> Option<int>
    decreases m.len(),
{
    if m.len() == 0 {
        None
    } else {
        match key_index(m.drop_last(), k) {
            Some(i) => Some(i),
            None => if m.last().0 == k {
                Some(m.len() - 1)
            } else {
                None
            },
        }
    }
}

/// `Map::insert`: replace the value under `k`, or add `(k, v)` at the end.
pub open spec fn insert_entry(m: Seq<(Seq<char>, JsonV)>, k: Seq<char>, v: JsonV) -> Seq<
    (Seq<char>, JsonV),
> {
    match key_index(m, k) {
        Some(i) => m.update(i, (k, v)),
        None => m.push((k, v)),
    }
}

proof fn lemma_key_index_step(m: Seq<(Seq<char>, JsonV)>, k: Seq<char>, n: int)
    requires
        0 <= n < m.len(),
        key_index(m.take(n), k) is None,
    ensures
        key_index(m.take(n + 1), k) == (if m[n].0 == k {
            Some(n)
        } else {
            None::<int>
        }),
{
    assert(m.take(n + 1).drop_last() =~= m.take(n));
}

proof fn lemma_key_index_found(m: Seq<(Seq<char>, JsonV)>, k: Seq<char>, n: int)
    requires
        0 <= n <= m.len(),
        key_index(m.take(n), k) is Some,
    ensures
        key_index(m, k) == key_index(m.take(n), k),
    decreases m.len() - n,
{
    if n < m.len() {
        assert(m.take(n + 1).drop_last() =~= m.take(n));
        lemma_key_index_found(m, k, n + 1);
    } else {
        assert(m.take(n) =~= m);
    }
}

proof fn lemma_key_index_absent(m: Seq<(Seq<char>, JsonV)>, k: Seq<char>)
    requires
        key_index(m.take(m.len() as int), k) is None,
    ensures
        key_index(m, k) is None,
{
    assert(m.take(m.len() as int) =~= m);
}

/// `Map::insert` on an object's entries.
pub fn obj_insert(m: &mut Vec<(String, Json)>, k: String, v: Json)
    ensures
        jvo(final(m)@) == insert_entry(jvo(old(m)@), k@, v@),
{
    let ghost mv = jvo(m@);
    proof {
        lemma_jvo_index(m@);
        assert(mv.take(0) =~= Seq::<(Seq<char>, JsonV)>::empty());
    }
    let mut i: usize = 0;
    while i < m.len()
        invariant
            i <= m.len(),
            mv == jvo(m@),
            mv == jvo(old(m)@),
            mv.len() == m@.len(),
            forall|j: int| 0 <= j < m.len() ==> #[trigger] mv[j] == (m@[j].0@, jv(m@[j].1)),
            key_index(mv.take(i as int), k@) is None,
        decreases m.len() - i,
    {
        proof {
            lemma_key_index_step(mv, k@, i as int);
        }
        if str_eq(m[i].0.as_str(), k.as_str()) {
            proof {
                assert(mv[i as int] == (m@[i as int].0@, jv(m@[i as int].1)));
                assert(key_index(mv.take(i + 1), k@) == Some(i as int));
                lemma_key_index_found(mv, k@, i + 1);
            }
            let ghost before = m@;
            let ghost e = (k, v);
            m.set(i, (k, v));
            proof {
                lemma_jvo_index(m@);
                assert(m@ == before.update(i as int, e));
                assert(jvo(m@) =~= mv.update(i as int, (e.0@, e.1@)));
            }
            return;
        }
        i = i + 1;
    }
    proof {
        lemma_key_index_absent(mv, k@);
    }
    let ghost before = m@;
    let ghost e = (k, v);
    m.push((k, v));
    proof {
        assert(m@.drop_last() == before);
        assert(m@.last() == e);
        assert(jvo(m@) == jvo(before).push((e.0@, jv(e.1))));
    }
}

// ------------------------------------------------------------------
// Parsing
// ------------------------------------------------------------------

#[verifier::external_type_specification]
#[verifier::external_body]
pub struct ExJsonValue(serde_json::Value);

/// The value `serde_json` reads from `text` as a `serde_json::Value`, or
/// `None` when the text is not one JSON value.
pub uninterp spec fn json_text_value(text: Seq<char>) -> Option<JsonV>;

/// A `serde_json::Value` as a `Json`: numbers by their text, the rest one
/// for one.
#[verifier::external_body]
fn json_from_value(v: &serde_json::Value) -> Json {
    match v {
        serde_json::Value::Null => Json::Null,
        serde_json::Value::Bool(b) => Json::Bool(*b),
        serde_json::Value::Number(n) => Json::Number(n.to_string()),
        serde_json::Value::String(s) => Json::Str(s.clone()),
        serde_json::Value::Array(a) => Json::Array(a.iter().map(json_from_value).collect()),
        serde_json::Value::Object(m) => Json::Object(
            m.iter().map(|(k, x)| (k.clone(), json_from_value(x))).collect(),
        ),
    }
}

/// `serde_json::from_str::<serde_json::Value>(text)`, as a `Json`. The
/// result is named `json_text_value(text)`; what serde_json accepts and how
/// it orders an object's keys is not restated here, nor the wording of its
/// error message, which is passed on as it is.
#[verifier::external_body]
pub(crate) fn parse_json_text(text: &str) -> (r: Result<Json, String>)
    ensures
        match r {
            Ok(j) => json_text_value(text@) == Some(j@),
            Err(_) => json_text_value(text@) is None,
        },
{
    match serde_json::from_str::<serde_json::Value>(text) {
        Ok(v) => Ok(json_from_value(&v)),
        Err(e) => Err(e.to_string()),
    }
}

} // verus!
