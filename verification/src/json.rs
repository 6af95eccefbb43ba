//! A JSON value type of the library, and the accessors that the tool logic reads
//! arguments and replies with.
use vstd::prelude::*;
use crate::text::{owned};

verus! {

/// A JSON value. Numbers are kept as `serde_json` keeps them: non-negative
/// integers, negative integers, and other numbers in their printed form.
#[derive(Debug)]
pub enum Json {
    Null,
    Bool(bool),
    UInt(u64),
    Int(i64),
    Float(String),
    Str(String),
    Arr(Vec<Json>),
    Obj(Vec<(String, Json)>),
}

/// The mathematical value of a [`Json`].
pub enum JsonV {
    Null,
    Bool(bool),
    UInt(u64),
    Int(i64),
    Float(Seq<char>),
    Str(Seq<char>),
    Arr(Seq<JsonV>),
    Obj(Seq<(Seq<char>, JsonV)>),
}

pub open spec fn jv(j: Json) -> JsonV
    decreases j,
{
    match j {
        Json::Null => JsonV::Null,
        Json::Bool(b) => JsonV::Bool(b),
        Json::UInt(n) => JsonV::UInt(n),
        Json::Int(n) => JsonV::Int(n),
        Json::Float(s) => JsonV::Float(s@),
        Json::Str(s) => JsonV::Str(s@),
        Json::Arr(v) => JsonV::Arr(
            Seq::new(v@.len(), |i: int| if 0 <= i < v@.len() { jv(v@[i]) } else { JsonV::Null }),
        ),
        Json::Obj(v) => JsonV::Obj(
            Seq::new(
                v@.len(),
                |i: int|
                    if 0 <= i < v@.len() {
                        (v@[i].0@, jv(v@[i].1))
                    } else {
                        (Seq::empty(), JsonV::Null)
                    },
            ),
        ),
    }
}

impl View for Json {
    type V = JsonV;

    open spec fn view(&self) -> JsonV {
        jv(*self)
    }
}

/// The values of a sequence of JSON values.
pub open spec fn elems_v(v: Seq<Json>) -> Seq<JsonV> {
    v.map_values(|x: Json| jv(x))
}

/// The entries of a JSON object, as keys and values.
pub open spec fn fields_v(v: Seq<(String, Json)>) -> Seq<(Seq<char>, JsonV)> {
    v.map_values(|x: (String, Json)| (x.0@, jv(x.1)))
}

pub proof fn lemma_arr_view(v: Vec<Json>)
    ensures
        jv(Json::Arr(v)) == JsonV::Arr(elems_v(v@)),
{
    assert(jv(Json::Arr(v))->Arr_0 =~= elems_v(v@));
}

pub proof fn lemma_obj_view(v: Vec<(String, Json)>)
    ensures
        jv(Json::Obj(v)) == JsonV::Obj(fields_v(v@)),
{
    assert(jv(Json::Obj(v))->Obj_0 =~= fields_v(v@));
}

/// The value under the first entry whose key is `key`.
pub open spec fn lookup(fields: Seq<(Seq<char>, JsonV)>, key: Seq<char>) -> Option<JsonV>
    decreases fields.len(),
{
    if fields.len() == 0 {
        None
    } else if fields[0].0 == key {
        Some(fields[0].1)
    } else {
        lookup(fields.drop_first(), key)
    }
}

/// The entry at `i` is the first with key `key`, so `lookup` finds its value.
pub proof fn lemma_lookup_at(f: Seq<(Seq<char>, JsonV)>, key: Seq<char>, i: int)
    requires
        0 <= i < f.len(),
        f[i].0 == key,
        forall|j: int| 0 <= j < i ==> f[j].0 != key,
    ensures
        lookup(f, key) == Some(f[i].1),
    decreases i,
{
    if i > 0 {
        lemma_lookup_at(f.drop_first(), key, i - 1);
    }
}

/// No entry has key `key`, so `lookup` finds nothing.
pub proof fn lemma_lookup_none(f: Seq<(Seq<char>, JsonV)>, key: Seq<char>)
    requires
        forall|j: int| 0 <= j < f.len() ==> f[j].0 != key,
    ensures
        lookup(f, key) is None,
    decreases f.len(),
{
    if f.len() > 0 {
        lemma_lookup_none(f.drop_first(), key);
    }
}

impl JsonV {
    /// `Value::get` with a string key: the member of an object, `None` otherwise.
    pub open spec fn get(self, key: Seq<char>) -> Option<JsonV> {
        match self {
            JsonV::Obj(f) => lookup(f, key),
            _ => None,
        }
    }

    pub open spec fn as_str(self) -> Option<Seq<char>> {
        match self {
            JsonV::Str(s) => Some(s),
            _ => None,
        }
    }

    pub open spec fn as_bool(self) -> Option<bool> {
        match self {
            JsonV::Bool(b) => Some(b),
            _ => None,
        }
    }

    /// `Value::as_u64`: only non-negative integers.
    pub open spec fn as_u64(self) -> Option<u64> {
        match self {
            JsonV::UInt(n) => Some(n),
            _ => None,
        }
    }

    /// `Value::as_i64`.
    pub open spec fn as_i64(self) -> Option<i64> {
        match self {
            JsonV::UInt(n) => if n <= i64::MAX as u64 {
                Some(n as i64)
            } else {
                None
            },
            JsonV::Int(n) => Some(n),
            _ => None,
        }
    }

    pub open spec fn is_object(self) -> bool {
        self is Obj
    }

    /// The string under `key`, when there is one and it is a string.
    pub open spec fn str_at(self, key: Seq<char>) -> Option<Seq<char>> {
        match self.get(key) {
            Some(v) => v.as_str(),
            None => None,
        }
    }

    pub open spec fn u64_at(self, key: Seq<char>) -> Option<u64> {
        match self.get(key) {
            Some(v) => v.as_u64(),
            None => None,
        }
    }

    pub open spec fn bool_at(self, key: Seq<char>) -> Option<bool> {
        match self.get(key) {
            Some(v) => v.as_bool(),
            None => None,
        }
    }
}

impl Json {
    /// `Value::get` with a string key.
    pub fn get<'a>(&'a self, key: &str) -> (r: Option<&'a Json>)
        ensures
            match self@.get(key@) {
                Some(v) => r is Some && r.unwrap()@ == v,
                None => r is None,
            },
    {
        match self {
            Json::Obj(fields) => {
                proof {
                    lemma_obj_view(*fields);
                }
                let ghost fv = fields_v(fields@);
                let mut i: usize = 0;
                assert(fv.skip(0) == fv);
                while i < fields.len()
                    invariant
                        i <= fields.len(),
                        fv == fields_v(fields@),
                        self@ == JsonV::Obj(fv),
                        lookup(fv, key@) == lookup(fv.skip(i as int), key@),
                    decreases fields.len() - i,
                {
                    proof {
                        let t = fv.skip(i as int);
                        assert(t.drop_first() == fv.skip(i + 1));
                        assert(t[0] == (fields@[i as int].0@, jv(fields@[i as int].1)));
                    }
                    if crate::text::str_eq(fields[i].0.as_str(), key) {
                        proof {
                            let t = fv.skip(i as int);
                            assert(t[0].0 == key@);
                            assert(lookup(t, key@) == Some(jv(fields@[i as int].1)));
                            assert(self@ == JsonV::Obj(fv));
                        }
                        return Some(&fields[i].1);
                    }
                    i += 1;
                }
                assert(fv.skip(i as int) =~= Seq::<(Seq<char>, JsonV)>::empty());
                None
            },
            _ => None,
        }
    }

    pub fn as_str(&self) -> (r: Option<&str>)
        ensures
            match self@.as_str() {
                Some(s) => r is Some && r.unwrap()@ == s,
                None => r is None,
            },
    {
        match self {
            Json::Str(s) => Some(s.as_str()),
            _ => None,
        }
    }

    pub fn as_bool(&self) -> (r: Option<bool>)
        ensures
            r == self@.as_bool(),
    {
        match self {
            Json::Bool(b) => Some(*b),
            _ => None,
        }
    }

    pub fn as_u64(&self) -> (r: Option<u64>)
        ensures
            r == self@.as_u64(),
    {
        match self {
            Json::UInt(n) => Some(*n),
            _ => None,
        }
    }

    pub fn as_i64(&self) -> (r: Option<i64>)
        ensures
            r == self@.as_i64(),
    {
        match self {
            Json::UInt(n) => if *n <= i64::MAX as u64 {
                Some(*n as i64)
            } else {
                None
            },
            Json::Int(n) => Some(*n),
            _ => None,
        }
    }

    pub fn is_object(&self) -> (r: bool)
        ensures
            r == self@.is_object(),
    {
        match self {
            Json::Obj(_) => true,
            _ => false,
        }
    }

    /// The string under `key`, when there is one and it is a string.
    pub fn str_at(&self, key: &str) -> (r: Option<String>)
        ensures
            match self@.str_at(key@) {
                Some(s) => r is Some && r.unwrap()@ == s,
                None => r is None,
            },
    {
        match self.get(key) {
            Some(v) => match v.as_str() {
                Some(s) => Some(owned(s)),
                None => None,
            },
            None => None,
        }
    }

    pub fn u64_at(&self, key: &str) -> (r: Option<u64>)
        ensures
            r == self@.u64_at(key@),
    {
        match self.get(key) {
            Some(v) => v.as_u64(),
            None => None,
        }
    }

    pub fn bool_at(&self, key: &str) -> (r: Option<bool>)
        ensures
            r == self@.bool_at(key@),
    {
        match self.get(key) {
            Some(v) => v.as_bool(),
            None => None,
        }
    }

    /// A JSON string holding `s`.
    pub fn string(s: &str) -> (r: Json)
        ensures
            r@ == JsonV::Str(s@),
    {
        Json::Str(owned(s))
    }

    /// An object with no entries.
    pub fn empty_object() -> (r: Json)
        ensures
            r@ == JsonV::Obj(Seq::empty()),
    {
        let v: Vec<(String, Json)> = Vec::new();
        proof {
            lemma_obj_view(v);
            assert(fields_v(v@) =~= Seq::empty());
        }
        Json::Obj(v)
    }

    /// A deep copy.
    pub fn copy(&self) -> (r: Json)
        ensures
            r@ == self@,
        decreases self,
    {
        match self {
            Json::Null => Json::Null,
            Json::Bool(b) => Json::Bool(*b),
            Json::UInt(n) => Json::UInt(*n),
            Json::Int(n) => Json::Int(*n),
            Json::Float(s) => Json::Float(s.clone()),
            Json::Str(s) => Json::Str(s.clone()),
            Json::Arr(v) => {
                proof {
                    assert forall|k: int| 0 <= k < v@.len() implies decreases_to!(*self => v@[k]) by {
                        assert(decreases_to!(*self => *v));
                        assert(decreases_to!(*v => v@));
                        assert(decreases_to!(v@ => v@[k]));
                    }
                }
                let mut out: Vec<Json> = Vec::new();
                let mut i: usize = 0;
                while i < v.len()
                    invariant
                        i <= v.len(),
                        elems_v(out@) == elems_v(v@).take(i as int),
                        *self == Json::Arr(*v),
                        forall|k: int| 0 <= k < v@.len() ==> decreases_to!(*self => v@[k]),
                    decreases v.len() - i,
                {
                    proof {
                        assert(decreases_to!(*self => v@[i as int]));
                    }
                    let c = v[i].copy();
                    let ghost old_out = out@;
                    out.push(c);
                    proof {
                        assert(out@ == old_out.push(c));
                        assert(jv(c) == jv(v@[i as int]));
                        assert(elems_v(out@) =~= elems_v(old_out).push(jv(c)));
                        assert(elems_v(v@).take(i + 1) =~= elems_v(v@).take(i as int).push(jv(v@[i as int])));
                    }
                    i += 1;
                }
                proof {
                    lemma_arr_view(*v);
                    lemma_arr_view(out);
                    assert(elems_v(v@).take(v@.len() as int) =~= elems_v(v@));
                }
                Json::Arr(out)
            },
            Json::Obj(v) => {
                proof {
                    assert forall|k: int| 0 <= k < v@.len() implies decreases_to!(*self => v@[k].1) by {
                        assert(decreases_to!(*self => *v));
                        assert(decreases_to!(*v => v@));
                        assert(decreases_to!(v@ => v@[k]));
                        assert(decreases_to!(v@[k] => v@[k].1));
                    }
                }
                let mut out: Vec<(String, Json)> = Vec::new();
                let mut i: usize = 0;
                while i < v.len()
                    invariant
                        i <= v.len(),
                        fields_v(out@) == fields_v(v@).take(i as int),
                        *self == Json::Obj(*v),
                        forall|k: int| 0 <= k < v@.len() ==> decreases_to!(*self => v@[k].1),
                    decreases v.len() - i,
                {
                    proof {
                        assert(decreases_to!(*self => v@[i as int].1));
                    }
                    let c = v[i].1.copy();
                    let ghost old_out = out@;
                    let k = v[i].0.clone();
                    out.push((k, c));
                    proof {
                        assert(out@ == old_out.push((k, c)));
                        assert(jv(c) == jv(v@[i as int].1));
                        assert(fields_v(out@) =~= fields_v(old_out).push((k@, jv(c))));
                        assert(fields_v(v@).take(i + 1) =~= fields_v(v@).take(i as int).push((v@[i as int].0@, jv(v@[i as int].1))));
                    }
                    i += 1;
                }
                proof {
                    lemma_obj_view(*v);
                    lemma_obj_view(out);
                    assert(fields_v(v@).take(v@.len() as int) =~= fields_v(v@));
                }
                Json::Obj(out)
            },
        }
    }
}

/// Appends the entry `key: value` to an object under construction.
pub fn push_field(fields: &mut Vec<(String, Json)>, key: &str, value: Json)
    ensures
        fields_v(final(fields)@) == fields_v(old(fields)@).push((key@, value@)),
{
    let k = owned(key);
    fields.push((k, value));
    proof {
        assert(fields_v(fields@) =~= fields_v(old(fields)@).push((key@, value@)));
    }
}

/// `i` is the first entry with key `k`.
pub open spec fn first_key_at(f: Seq<(Seq<char>, JsonV)>, k: Seq<char>, i: int) -> bool {
    0 <= i < f.len() && f[i].0 == k && forall|j: int| 0 <= j < i ==> f[j].0 != k
}

/// `Map::insert` on the entries of an object: the first entry with key `k` takes
/// the value `v` in place; without one, the entry is appended.
pub open spec fn set_entry(f: Seq<(Seq<char>, JsonV)>, k: Seq<char>, v: JsonV) -> Seq<(Seq<char>, JsonV)> {
    if exists|i: int| first_key_at(f, k, i) {
        f.update(choose|i: int| first_key_at(f, k, i), (k, v))
    } else {
        f.push((k, v))
    }
}

/// Some entry with key `k` means a first such entry.
pub proof fn lemma_first_key_exists(f: Seq<(Seq<char>, JsonV)>, k: Seq<char>, i: int)
    requires
        0 <= i < f.len(),
        f[i].0 == k,
    ensures
        exists|c: int| first_key_at(f, k, c),
    decreases i,
{
    if exists|j: int| 0 <= j < i && f[j].0 == k {
        let j = choose|j: int| 0 <= j < i && f[j].0 == k;
        lemma_first_key_exists(f, k, j);
    } else {
        assert(first_key_at(f, k, i));
    }
}

/// Changing an entry whose key is not `k2` leaves the lookup of `k2` alone.
pub proof fn lemma_lookup_update(f: Seq<(Seq<char>, JsonV)>, i: int, e: (Seq<char>, JsonV), k2: Seq<char>)
    requires
        0 <= i < f.len(),
        f[i].0 != k2,
        e.0 != k2,
    ensures
        lookup(f.update(i, e), k2) == lookup(f, k2),
    decreases f.len(),
{
    if i > 0 {
        assert(f.update(i, e).drop_first() =~= f.drop_first().update(i - 1, e));
        lemma_lookup_update(f.drop_first(), i - 1, e, k2);
    } else {
        assert(f.update(i, e).drop_first() =~= f.drop_first());
    }
}

/// Appending an entry whose key is not `k2` leaves the lookup of `k2` alone.
pub proof fn lemma_lookup_push_other(f: Seq<(Seq<char>, JsonV)>, e: (Seq<char>, JsonV), k2: Seq<char>)
    requires
        e.0 != k2,
    ensures
        lookup(f.push(e), k2) == lookup(f, k2),
    decreases f.len(),
{
    if f.len() > 0 {
        assert(f.push(e).drop_first() =~= f.drop_first().push(e));
        assert(f.push(e)[0] == f[0]);
        lemma_lookup_push_other(f.drop_first(), e, k2);
    } else {
        assert(f.push(e).drop_first() =~= Seq::<(Seq<char>, JsonV)>::empty());
        assert(f.push(e)[0] == e);
        assert(lookup(Seq::<(Seq<char>, JsonV)>::empty(), k2) is None);
    }
}

/// After setting `k` to `v`, looking up `k` gives `v`, and every other key
/// gives what it gave before.
pub proof fn lemma_lookup_set_entry(f: Seq<(Seq<char>, JsonV)>, k: Seq<char>, v: JsonV, k2: Seq<char>)
    ensures
        lookup(set_entry(f, k, v), k) == Some(v),
        k2 != k ==> lookup(set_entry(f, k, v), k2) == lookup(f, k2),
{
    if exists|i: int| first_key_at(f, k, i) {
        let i = choose|i: int| first_key_at(f, k, i);
        let g = f.update(i, (k, v));
        assert forall|j: int| 0 <= j < i implies g[j].0 != k by {
            assert(g[j] == f[j]);
        }
        lemma_lookup_at(g, k, i);
        if k2 != k {
            lemma_lookup_update(f, i, (k, v), k2);
        }
    } else {
        let g = f.push((k, v));
        assert forall|j: int| 0 <= j < f.len() implies g[j].0 != k by {
            assert(g[j] == f[j]);
            if f[j].0 == k {
                lemma_first_key_exists(f, k, j);
            }
        }
        lemma_lookup_at(g, k, f.len() as int);
        if k2 != k {
            lemma_lookup_push_other(f, (k, v), k2);
        }
    }
}

/// Sets `key` to `value` in an object under construction, replacing the value
/// of an entry with that key.
pub fn set_field(fields: &mut Vec<(String, Json)>, key: &str, value: Json)
    ensures
        fields_v(final(fields)@) == set_entry(fields_v(old(fields)@), key@, value@),
{
    let ghost f0 = fields_v(fields@);
    let mut found: Option<usize> = None;
    let mut i: usize = 0;
    while i < fields.len()
        invariant_except_break
            found is None,
        invariant
            i <= fields.len(),
            fields_v(fields@) == f0,
            forall|j: int| 0 <= j < i ==> f0[j].0 != key@,
        ensures
            match found {
                Some(n) => first_key_at(f0, key@, n as int) && n < fields.len(),
                None => forall|j: int| 0 <= j < fields.len() ==> f0[j].0 != key@,
            },
        decreases fields.len() - i,
    {
        if crate::text::str_eq(fields[i].0.as_str(), key) {
            assert(f0[i as int].0 == key@);
            found = Some(i);
            break;
        }
        i += 1;
    }
    let k = owned(key);
    let ghost vv = value@;
    match found {
        Some(n) => {
            proof {
                let c = choose|c: int| first_key_at(f0, key@, c);
                assert(c == n) by {
                    if c < n { } else if c > n { assert(f0[n as int].0 == key@); }
                }
            }
            fields.set(n, (k, value));
            proof {
                assert(fields_v(fields@) =~= f0.update(n as int, (key@, vv)));
            }
        },
        None => {
            proof {
                assert(!exists|c: int| first_key_at(f0, key@, c));
            }
            fields.push((k, value));
            proof {
                assert(fields_v(fields@) =~= f0.push((key@, vv)));
            }
        },
    }
}

/// Appends `value` to an array under construction.
pub fn push_elem(elems: &mut Vec<Json>, value: Json)
    ensures
        elems_v(final(elems)@) == elems_v(old(elems)@).push(value@),
{
    elems.push(value);
    proof {
        assert(elems_v(elems@) =~= elems_v(old(elems)@).push(value@));
    }
}

/// An object with the given entries.
pub fn object(fields: Vec<(String, Json)>) -> (r: Json)
    ensures
        r@ == JsonV::Obj(fields_v(fields@)),
{
    proof {
        lemma_obj_view(fields);
    }
    Json::Obj(fields)
}

/// An array with the given elements.
pub fn array(elems: Vec<Json>) -> (r: Json)
    ensures
        r@ == JsonV::Arr(elems_v(elems@)),
{
    proof {
        lemma_arr_view(elems);
    }
    Json::Arr(elems)
}


/// An object with one entry.
pub fn obj1(k1: &str, v1: Json) -> (r: Json)
    ensures
        r@ == JsonV::Obj(seq![(k1@, v1@)]),
{
    let ghost a = v1@;
    let mut f: Vec<(String, Json)> = Vec::new();
    push_field(&mut f, k1, v1);
    assert(fields_v(f@) =~= seq![(k1@, a)]);
    object(f)
}

/// An object with two entries, in order.
pub fn obj2(k1: &str, v1: Json, k2: &str, v2: Json) -> (r: Json)
    ensures
        r@ == JsonV::Obj(seq![(k1@, v1@), (k2@, v2@)]),
{
    let ghost a = v1@;
    let ghost b = v2@;
    let mut f: Vec<(String, Json)> = Vec::new();
    push_field(&mut f, k1, v1);
    push_field(&mut f, k2, v2);
    assert(fields_v(f@) =~= seq![(k1@, a), (k2@, b)]);
    object(f)
}

/// An object with three entries, in order.
pub fn obj3(k1: &str, v1: Json, k2: &str, v2: Json, k3: &str, v3: Json) -> (r: Json)
    ensures
        r@ == JsonV::Obj(seq![(k1@, v1@), (k2@, v2@), (k3@, v3@)]),
{
    let ghost a = v1@;
    let ghost b = v2@;
    let ghost c = v3@;
    let mut f: Vec<(String, Json)> = Vec::new();
    push_field(&mut f, k1, v1);
    push_field(&mut f, k2, v2);
    push_field(&mut f, k3, v3);
    assert(fields_v(f@) =~= seq![(k1@, a), (k2@, b), (k3@, c)]);
    object(f)
}

/// An object with four entries, in order.
pub fn obj4(k1: &str, v1: Json, k2: &str, v2: Json, k3: &str, v3: Json, k4: &str, v4: Json) -> (r: Json)
    ensures
        r@ == JsonV::Obj(seq![(k1@, v1@), (k2@, v2@), (k3@, v3@), (k4@, v4@)]),
{
    let ghost a = v1@;
    let ghost b = v2@;
    let ghost c = v3@;
    let ghost d = v4@;
    let mut f: Vec<(String, Json)> = Vec::new();
    push_field(&mut f, k1, v1);
    push_field(&mut f, k2, v2);
    push_field(&mut f, k3, v3);
    push_field(&mut f, k4, v4);
    assert(fields_v(f@) =~= seq![(k1@, a), (k2@, b), (k3@, c), (k4@, d)]);
    object(f)
}

/// An object with five entries, in order.
pub fn obj5(k1: &str, v1: Json, k2: &str, v2: Json, k3: &str, v3: Json, k4: &str, v4: Json, k5: &str, v5: Json) -> (r: Json)
    ensures
        r@ == JsonV::Obj(seq![(k1@, v1@), (k2@, v2@), (k3@, v3@), (k4@, v4@), (k5@, v5@)]),
{
    let ghost a = v1@;
    let ghost b = v2@;
    let ghost c = v3@;
    let ghost d = v4@;
    let ghost e = v5@;
    let mut f: Vec<(String, Json)> = Vec::new();
    push_field(&mut f, k1, v1);
    push_field(&mut f, k2, v2);
    push_field(&mut f, k3, v3);
    push_field(&mut f, k4, v4);
    push_field(&mut f, k5, v5);
    assert(fields_v(f@) =~= seq![(k1@, a), (k2@, b), (k3@, c), (k4@, d), (k5@, e)]);
    object(f)
}

/// An array of one element.
pub fn arr1(a: Json) -> (r: Json)
    ensures
        r@ == JsonV::Arr(seq![a@]),
{
    let ghost x = a@;
    let mut e: Vec<Json> = Vec::new();
    push_elem(&mut e, a);
    assert(elems_v(e@) =~= seq![x]);
    array(e)
}

/// An array of two elements, in order.
pub fn arr2(a: Json, b: Json) -> (r: Json)
    ensures
        r@ == JsonV::Arr(seq![a@, b@]),
{
    let ghost x = a@;
    let ghost y = b@;
    let mut e: Vec<Json> = Vec::new();
    push_elem(&mut e, a);
    push_elem(&mut e, b);
    assert(elems_v(e@) =~= seq![x, y]);
    array(e)
}

/// An array of three elements, in order.
pub fn arr3(a: Json, b: Json, c: Json) -> (r: Json)
    ensures
        r@ == JsonV::Arr(seq![a@, b@, c@]),
{
    let ghost x = a@;
    let ghost y = b@;
    let ghost z = c@;
    let mut e: Vec<Json> = Vec::new();
    push_elem(&mut e, a);
    push_elem(&mut e, b);
    push_elem(&mut e, c);
    assert(elems_v(e@) =~= seq![x, y, z]);
    array(e)
}

/// `{"type": t}`.
pub open spec fn typed_spec(t: Seq<char>) -> JsonV {
    JsonV::Obj(seq![("type"@, JsonV::Str(t))])
}

/// `{"type": t}`.
pub fn typed(t: &str) -> (r: Json)
    ensures
        r@ == typed_spec(t@),
{
    obj1("type", Json::string(t))
}

} // verus!
