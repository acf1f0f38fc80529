//! JSON values as the protocol carries them: the library's own model of the
//! values that the daemon and its clients exchange.

use vstd::prelude::*;
use vstd::string::*;

verus! {

/// A JSON value. Numbers that are non-negative integers within `u64` are
/// held as such; any other number keeps its JSON text.
pub enum Json {
    Null,
    Bool(bool),
    Num(u64),
    OtherNum(String),
    Str(String),
    Array(Vec<Json>),
    Object(Vec<(String, Json)>),
}

/// The mathematical view of a [`Json`] value.
pub enum JsonV {
    Null,
    Bool(bool),
    Num(nat),
    OtherNum(Seq<char>),
    Str(Seq<char>),
    Array(Seq<JsonV>),
    Object(Seq<(Seq<char>, JsonV)>),
}

impl Json {
    /// The mathematical value of `self`.
    pub open spec fn view(&self) -> JsonV
        decreases self,
    {
        match self {
            Json::Null => JsonV::Null,
            Json::Bool(b) => JsonV::Bool(*b),
            Json::Num(n) => JsonV::Num(*n as nat),
            Json::OtherNum(t) => JsonV::OtherNum(t@),
            Json::Str(s) => JsonV::Str(s@),
            Json::Array(v) => JsonV::Array(
                Seq::new(
                    v@.len(),
                    |i: int|
                        if 0 <= i < v@.len() {
                            proof {
                                assert(decreases_to!(v => v@));
                                assert(decreases_to!(v@ => v@[i]));
                            }
                            v@[i].view()
                        } else {
                            JsonV::Null
                        },
                ),
            ),
            Json::Object(v) => JsonV::Object(
                Seq::new(
                    v@.len(),
                    |i: int|
                        if 0 <= i < v@.len() {
                            proof {
                                assert(decreases_to!(v => v@));
                                assert(decreases_to!(v@ => v@[i]));
                                assert(decreases_to!(v@[i] => v@[i].1));
                            }
                            (v@[i].0@, v@[i].1.view())
                        } else {
                            (Seq::empty(), JsonV::Null)
                        },
                ),
            ),
        }
    }
}


/// The position of the first field named `key`, if any.
pub open spec fn field_index(fields: Seq<(Seq<char>, JsonV)>, key: Seq<char>) -> Option<int>
    decreases fields.len(),
{
    if fields.len() == 0 {
        None
    } else {
        match field_index(fields.drop_last(), key) {
            Some(i) => Some(i),
            None => if fields.last().0 == key {
                Some(fields.len() - 1)
            } else {
                None
            },
        }
    }
}

impl JsonV {
    /// The member named `key` of an object (the first one of that name);
    /// nothing for a missing key or a value that is no object
    /// (`serde_json::Value::get`).
    pub open spec fn get(self, key: Seq<char>) -> Option<JsonV> {
        match self {
            JsonV::Object(fields) => match field_index(fields, key) {
                Some(i) => Some(fields[i].1),
                None => None,
            },
            _ => None,
        }
    }

    /// The text of a string value (`as_str`).
    pub open spec fn as_str(self) -> Option<Seq<char>> {
        match self {
            JsonV::Str(s) => Some(s),
            _ => None,
        }
    }

    /// The value of a non-negative integer (`as_u64`).
    pub open spec fn as_u64(self) -> Option<nat> {
        match self {
            JsonV::Num(n) => Some(n),
            _ => None,
        }
    }

    /// The value of a boolean (`as_bool`).
    pub open spec fn as_bool(self) -> Option<bool> {
        match self {
            JsonV::Bool(b) => Some(b),
            _ => None,
        }
    }

    /// The text of member `key` when it is a string.
    pub open spec fn str_at(self, key: Seq<char>) -> Option<Seq<char>> {
        match self.get(key) {
            Some(v) => v.as_str(),
            None => None,
        }
    }

    /// The value of member `key` when it is a non-negative integer.
    pub open spec fn u64_at(self, key: Seq<char>) -> Option<nat> {
        match self.get(key) {
            Some(v) => v.as_u64(),
            None => None,
        }
    }

    /// The value of member `key` when it is a boolean.
    pub open spec fn bool_at(self, key: Seq<char>) -> Option<bool> {
        match self.get(key) {
            Some(v) => v.as_bool(),
            None => None,
        }
    }
}

/// `fields` with member `key` set to `value`: the first member of that name
/// replaced, or the member appended (`value[key] = ...` on an object).
pub open spec fn fields_set(fields: Seq<(Seq<char>, JsonV)>, key: Seq<char>, value: JsonV) -> Seq<
    (Seq<char>, JsonV),
> {
    match field_index(fields, key) {
        Some(i) => fields.update(i, (key, value)),
        None => fields.push((key, value)),
    }
}

/// The found position is in range and carries the key; no earlier one does.
pub proof fn lemma_field_index(fields: Seq<(Seq<char>, JsonV)>, key: Seq<char>)
    ensures
        match field_index(fields, key) {
            Some(i) => 0 <= i < fields.len() && fields[i].0 == key && forall|j: int|
                0 <= j < i ==> #[trigger] fields[j].0 != key,
            None => forall|j: int| 0 <= j < fields.len() ==> #[trigger] fields[j].0 != key,
        },
    decreases fields.len(),
{
    if fields.len() > 0 {
        lemma_field_index(fields.drop_last(), key);
        match field_index(fields.drop_last(), key) {
            Some(i) => {
                assert forall|j: int| 0 <= j < i implies #[trigger] fields[j].0 != key by {
                    assert(fields.drop_last()[j] == fields[j]);
                }
            },
            None => {
                assert forall|j: int| 0 <= j < fields.len() - 1 implies #[trigger] fields[j].0
                    != key by {
                    assert(fields.drop_last()[j] == fields[j]);
                }
            },
        }
    }
}

/// The view of an object's members.
pub open spec fn fields_view(v: Seq<(String, Json)>) -> Seq<(Seq<char>, JsonV)> {
    Seq::new(v.len(), |i: int| (v[i].0@, v[i].1@))
}

/// Appends the member `key: value`.
pub fn push_field(fields: &mut Vec<(String, Json)>, key: &str, value: Json)
    ensures
        fields_view(final(fields)@) == fields_view(old(fields)@).push((key@, value@)),
{
    let ghost kv = key@;
    let ghost vv = value@;
    let k = String::from_str(key);
    fields.push((k, value));
    assert(fields@.last().0@ == kv);
    assert(fields@.last().1@ == vv);
    assert(fields_view(fields@) =~= fields_view(old(fields)@).push((kv, vv)));
}

/// The object with the members `fields`, in order.
pub fn object_of(fields: Vec<(String, Json)>) -> (r: Json)
    ensures
        r@ == JsonV::Object(fields_view(fields@)),
{
    let ghost fv = fields_view(fields@);
    let r = Json::Object(fields);
    assert(r@->Object_0 =~= fv);
    r
}

/// The first position of a key is determined by the keys before and at it.
proof fn lemma_field_index_char(fields: Seq<(Seq<char>, JsonV)>, key: Seq<char>, i: int)
    requires
        0 <= i < fields.len(),
        fields[i].0 == key,
        forall|j: int| 0 <= j < i ==> #[trigger] fields[j].0 != key,
    ensures
        field_index(fields, key) == Some(i),
{
    lemma_field_index(fields, key);
    match field_index(fields, key) {
        Some(p) => {
            if p < i {
                assert(fields[p].0 != key);
            } else if p > i {
                assert(fields[i].0 == key);
            }
        },
        None => {
            assert(fields[i].0 == key);
        },
    }
}

/// A key without a first position occurs nowhere.
proof fn lemma_field_index_none(fields: Seq<(Seq<char>, JsonV)>, key: Seq<char>)
    requires
        forall|j: int| 0 <= j < fields.len() ==> #[trigger] fields[j].0 != key,
    ensures
        field_index(fields, key) is None,
{
    lemma_field_index(fields, key);
    if let Some(p) = field_index(fields, key) {
        assert(fields[p].0 == key);
    }
}

/// A member whose name no earlier member has is what `get` finds.
pub proof fn lemma_get_at(fields: Seq<(Seq<char>, JsonV)>, i: int)
    requires
        0 <= i < fields.len(),
        forall|j: int| 0 <= j < i ==> #[trigger] fields[j].0 != fields[i].0,
    ensures
        JsonV::Object(fields).get(fields[i].0) == Some(fields[i].1),
{
    lemma_field_index(fields, fields[i].0);
    match field_index(fields, fields[i].0) {
        Some(k) => {
            if k > i {
                assert(fields[i].0 != fields[i].0);
            }
        },
        None => {
            assert(fields[i].0 != fields[i].0);
        },
    }
}

/// A name that no member has is not found.
pub proof fn lemma_get_missing(fields: Seq<(Seq<char>, JsonV)>, key: Seq<char>)
    requires
        forall|j: int| 0 <= j < fields.len() ==> #[trigger] fields[j].0 != key,
    ensures
        JsonV::Object(fields).get(key) is None,
{
    lemma_field_index(fields, key);
}

/// Law: a member that was just set reads back as the value set.
pub proof fn law_get_after_set(fields: Seq<(Seq<char>, JsonV)>, key: Seq<char>, value: JsonV)
    ensures
        JsonV::Object(fields_set(fields, key, value)).get(key) == Some(value),
{
    lemma_field_index(fields, key);
    let g = fields_set(fields, key, value);
    match field_index(fields, key) {
        Some(i) => {
            assert forall|j: int| 0 <= j < i implies #[trigger] g[j].0 != key by {
                assert(g[j] == fields[j]);
            }
            lemma_field_index_char(g, key, i);
        },
        None => {
            let n = fields.len() as int;
            assert forall|j: int| 0 <= j < n implies #[trigger] g[j].0 != key by {
                assert(g[j] == fields[j]);
            }
            lemma_field_index_char(g, key, n);
        },
    }
}

/// Law: setting one member leaves every other member as it was.
pub proof fn law_get_other_after_set(
    fields: Seq<(Seq<char>, JsonV)>,
    key: Seq<char>,
    value: JsonV,
    other: Seq<char>,
)
    requires
        other != key,
    ensures
        JsonV::Object(fields_set(fields, key, value)).get(other) == JsonV::Object(fields).get(other),
{
    lemma_field_index(fields, key);
    lemma_field_index(fields, other);
    let g = fields_set(fields, key, value);
    match field_index(fields, other) {
        Some(i) => {
            assert(g[i] == fields[i]) by {
                if let Some(q) = field_index(fields, key) {
                    assert(q != i);
                }
            }
            assert forall|j: int| 0 <= j < i implies #[trigger] g[j].0 != other by {
                if let Some(q) = field_index(fields, key) {
                    if j != q {
                        assert(g[j] == fields[j]);
                    }
                } else {
                    assert(g[j] == fields[j]);
                }
            }
            lemma_field_index_char(g, other, i);
        },
        None => {
            assert forall|j: int| 0 <= j < g.len() implies #[trigger] g[j].0 != other by {
                if let Some(q) = field_index(fields, key) {
                    if j != q {
                        assert(g[j] == fields[j]);
                    }
                } else {
                    if j < fields.len() {
                        assert(g[j] == fields[j]);
                    }
                }
            }
            lemma_field_index_none(g, other);
        },
    }
}

impl Json {
    /// A string value.
    pub fn string(s: &str) -> (r: Json)
        ensures
            r@ == JsonV::Str(s@),
    {
        Json::Str(String::from_str(s))
    }

    /// A value equal to `self`.
    pub fn duplicate(&self) -> (r: Json)
        ensures
            r@ == self@,
        decreases self,
    {
        match self {
            Json::Null => Json::Null,
            Json::Bool(b) => Json::Bool(*b),
            Json::Num(n) => Json::Num(*n),
            Json::OtherNum(t) => Json::OtherNum(t.clone()),
            Json::Str(s) => Json::Str(s.clone()),
            Json::Array(v) => {
                let mut out: Vec<Json> = Vec::new();
                let mut i: usize = 0;
                while i < v.len()
                    invariant
                        *self == Json::Array(*v),
                        i <= v@.len(),
                        out@.len() == i,
                        forall|k: int| 0 <= k < i ==> (#[trigger] out@[k])@ == v@[k]@,
                    decreases v@.len() - i,
                {
                    assert((*self)->Array_0 == *v);
                    assert(decreases_to!(*self => (*self)->Array_0));
                    assert(decreases_to!(*v => v@));
                    assert(decreases_to!(v@ => v@[i as int]));
                    let d = v[i].duplicate();
                    out.push(d);
                    i = i + 1;
                }
                let r = Json::Array(out);
                assert(r@->Array_0 =~= self@->Array_0);
                r
            },
            Json::Object(v) => {
                let mut out: Vec<(String, Json)> = Vec::new();
                let mut i: usize = 0;
                while i < v.len()
                    invariant
                        *self == Json::Object(*v),
                        i <= v@.len(),
                        out@.len() == i,
                        forall|k: int|
                            0 <= k < i ==> (#[trigger] out@[k]).0@ == v@[k].0@ && out@[k].1@
                                == v@[k].1@,
                    decreases v@.len() - i,
                {
                    assert((*self)->Object_0 == *v);
                    assert(decreases_to!(*self => (*self)->Object_0));
                    assert(decreases_to!(*v => v@));
                    assert(decreases_to!(v@ => v@[i as int]));
                    assert(decreases_to!(v@[i as int] => v@[i as int].1));
                    let d = v[i].1.duplicate();
                    let k = v[i].0.clone();
                    out.push((k, d));
                    i = i + 1;
                }
                let r = Json::Object(out);
                assert(r@->Object_0 =~= self@->Object_0);
                r
            },
        }
    }

    /// The member named `key` of an object.
    pub fn get(&self, key: &str) -> (r: Option<&Json>)
        ensures
            match r {
                Some(v) => self@.get(key@) == Some(v@),
                None => self@.get(key@) is None,
            },
    {
        match self {
            Json::Object(fields) => {
                let k = String::from_str(key);
                let ghost fv = Seq::new(fields@.len(), |i: int| (fields@[i].0@, fields@[i].1@));
                assert(self@->Object_0 =~= fv);
                proof {
                    lemma_field_index(fv, key@);
                }
                let mut i: usize = 0;
                while i < fields.len()
                    invariant
                        i <= fields@.len(),
                        k@ == key@,
                        fv == Seq::new(fields@.len(), |i: int| (fields@[i].0@, fields@[i].1@)),
                        self@ == JsonV::Object(fv),
                        forall|j: int| 0 <= j < i ==> #[trigger] fv[j].0 != key@,
                    decreases fields@.len() - i,
                {
                    if fields[i].0 == k {
                        proof {
                            lemma_field_index(fv, key@);
                            match field_index(fv, key@) {
                                Some(p) => {
                                    if p < i {
                                        assert(fv[p].0 != key@);
                                    } else if p > i {
                                        assert(fv[i as int].0 == key@);
                                    }
                                },
                                None => {
                                    assert(fv[i as int].0 == key@);
                                },
                            }
                        }
                        return Some(&fields[i].1);
                    }
                    i = i + 1;
                }
                None
            },
            _ => None,
        }
    }

    /// The text of member `key` when it is a string.
    pub fn str_at(&self, key: &str) -> (r: Option<String>)
        ensures
            match r {
                Some(s) => self@.str_at(key@) == Some(s@),
                None => self@.str_at(key@) is None,
            },
    {
        match self.get(key) {
            Some(Json::Str(s)) => Some(s.clone()),
            _ => None,
        }
    }

    /// The value of member `key` when it is a non-negative integer.
    pub fn u64_at(&self, key: &str) -> (r: Option<u64>)
        ensures
            match r {
                Some(n) => self@.u64_at(key@) == Some(n as nat),
                None => self@.u64_at(key@) is None,
            },
    {
        match self.get(key) {
            Some(Json::Num(n)) => Some(*n),
            _ => None,
        }
    }

    /// The value of member `key` when it is a boolean.
    pub fn bool_at(&self, key: &str) -> (r: Option<bool>)
        ensures
            match r {
                Some(b) => self@.bool_at(key@) == Some(b),
                None => self@.bool_at(key@) is None,
            },
    {
        match self.get(key) {
            Some(Json::Bool(b)) => Some(*b),
            _ => None,
        }
    }

    /// Sets member `key` of an object to `value`, replacing the member of
    /// that name or appending it.
    pub fn set(&mut self, key: &str, value: Json)
        requires
            old(self)@ is Object,
        ensures
            final(self)@ == JsonV::Object(fields_set(old(self)@->Object_0, key@, value@)),
    {
        let k = String::from_str(key);
        let mut taken = Json::Null;
        std::mem::swap(self, &mut taken);
        if let Json::Object(mut fields) = taken {
            let ghost fv = Seq::new(fields@.len(), |i: int| (fields@[i].0@, fields@[i].1@));
            proof {
                lemma_field_index(fv, key@);
                assert(old(self)@->Object_0 =~= fv);
            }
            let mut i: usize = 0;
            while i < fields.len() && !(fields[i].0 == k)
                invariant
                    i <= fields@.len(),
                    k@ == key@,
                    fv == Seq::new(fields@.len(), |i: int| (fields@[i].0@, fields@[i].1@)),
                    forall|j: int| 0 <= j < i ==> #[trigger] fv[j].0 != key@,
                decreases fields@.len() - i,
            {
                i = i + 1;
            }
            if i < fields.len() {
                proof {
                    lemma_field_index(fv, key@);
                    match field_index(fv, key@) {
                        Some(p) => {
                            if p < i {
                                assert(fv[p].0 != key@);
                            } else if p > i {
                                assert(fv[i as int].0 == key@);
                            }
                        },
                        None => {
                            assert(fv[i as int].0 == key@);
                        },
                    }
                }
                fields.set(i, (k, value));
            } else {
                fields.push((k, value));
            }
            proof {
                lemma_field_index(fv, key@);
                let nv = Seq::new(fields@.len(), |j: int| (fields@[j].0@, fields@[j].1@));
                assert(nv =~= fields_set(fv, key@, value@));
            }
            *self = Json::Object(fields);
            proof {
                let nv = Seq::new(fields@.len(), |j: int| (fields@[j].0@, fields@[j].1@));
                assert(self@->Object_0 =~= nv);
            }
        }
    }

    /// Whether `self` has a member named `key`.
    pub fn has(&self, key: &str) -> (r: bool)
        ensures
            r == self@.get(key@) is Some,
    {
        self.get(key).is_some()
    }
}

} // verus!
