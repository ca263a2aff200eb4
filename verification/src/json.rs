//! Plain JSON values: what the engine reads out of selections, operation
//! parameters and rule operands.
use vstd::prelude::*;

use crate::seqs::{first_match, lemma_first_match_is, lemma_first_match_none};
use crate::text::{owned, str_eq};

verus! {

/// A JSON number as it arrives: an integer that fits `i64`, an unsigned
/// integer above `i64::MAX`, or a number with a fractional part or exponent,
/// kept as its decimal text.
#[derive(Debug, Clone, PartialEq)]
pub enum JsonNumber {
    Int(i64),
    Large(u64),
    Fraction(String),
}

#[derive(Debug, PartialEq)]
pub enum JsonValue {
    Null,
    Bool(bool),
    Number(JsonNumber),
    Str(String),
    Array(Vec<JsonValue>),
    Object(JsonMap),
}

/// A JSON object: key/value entries. Lookups and inserts act on the first
/// entry with the key, so keys stay unique under `insert`.
#[derive(Debug, PartialEq)]
pub struct JsonMap {
    pub entries: Vec<(String, JsonValue)>,
}

pub enum NumberView {
    Int(i64),
    Large(u64),
    Fraction(Seq<char>),
}

#[verifier::ext_equal]
pub enum JsonView {
    Null,
    Bool(bool),
    Number(NumberView),
    Str(Seq<char>),
    Array(Seq<JsonView>),
    Object(Seq<(Seq<char>, JsonView)>),
}

impl JsonNumber {
    pub open spec fn view(&self) -> NumberView {
        match self {
            JsonNumber::Int(i) => NumberView::Int(*i),
            JsonNumber::Large(u) => NumberView::Large(*u),
            JsonNumber::Fraction(s) => NumberView::Fraction(s@),
        }
    }
}

impl JsonValue {
    pub open spec fn view(&self) -> JsonView
        decreases self,
    {
        match self {
            JsonValue::Null => JsonView::Null,
            JsonValue::Bool(b) => JsonView::Bool(*b),
            JsonValue::Number(n) => JsonView::Number(n.view()),
            JsonValue::Str(s) => JsonView::Str(s@),
            JsonValue::Array(v) => JsonView::Array(
                Seq::new(v.len() as nat, |i: int| if 0 <= i < v.len() { v@[i].view() } else { JsonView::Null }),
            ),
            JsonValue::Object(m) => JsonView::Object(
                Seq::new(
                    m.entries.len() as nat,
                    |i: int| if 0 <= i < m.entries.len() {
                        (m.entries@[i].0@, m.entries@[i].1.view())
                    } else {
                        (Seq::empty(), JsonView::Null)
                    },
                ),
            ),
        }
    }
}


impl JsonMap {
    pub open spec fn view(&self) -> Seq<(Seq<char>, JsonView)> {
        Seq::new(
            self.entries.len() as nat,
            |i: int| (self.entries@[i].0@, self.entries@[i].1.view()),
        )
    }
}

/// Whether an entry has key `key`.
pub open spec fn has_key(key: Seq<char>) -> spec_fn((Seq<char>, JsonView)) -> bool {
    |e: (Seq<char>, JsonView)| e.0 == key
}

/// Index of the first entry with `key`.
pub open spec fn key_index(m: Seq<(Seq<char>, JsonView)>, key: Seq<char>) -> Option<int> {
    first_match(m, has_key(key))
}

/// Value stored under `key`.
pub open spec fn map_get(m: Seq<(Seq<char>, JsonView)>, key: Seq<char>) -> Option<JsonView> {
    match key_index(m, key) {
        Some(i) => Some(m[i].1),
        None => None,
    }
}

/// `m` with `key` set to `value`: the first entry with the key is replaced,
/// or the pair is appended when the key is absent.
pub open spec fn map_insert(m: Seq<(Seq<char>, JsonView)>, key: Seq<char>, value: JsonView) -> Seq<
    (Seq<char>, JsonView),
> {
    match key_index(m, key) {
        Some(i) => m.update(i, (key, value)),
        None => m.push((key, value)),
    }
}

impl JsonValue {
    pub fn as_str(&self) -> (r: Option<&str>)
        ensures
            r is Some <==> self.view() is Str,
            r matches Some(t) ==> self.view() == JsonView::Str(t@),
    {
        match self {
            JsonValue::Str(s) => Some(s.as_str()),
            _ => None,
        }
    }

    /// The value as an `i64`, for integers in range.
    pub fn as_i64(&self) -> (r: Option<i64>)
        ensures
            r == spec_as_i64(self.view()),
    {
        match self {
            JsonValue::Number(JsonNumber::Int(i)) => Some(*i),
            JsonValue::Number(JsonNumber::Large(u)) => {
                if *u <= 9223372036854775807u64 {
                    Some(*u as i64)
                } else {
                    None
                }
            },
            _ => None,
        }
    }

    /// The value as a `u64`, for non-negative integers.
    pub fn as_u64(&self) -> (r: Option<u64>)
        ensures
            r == spec_as_u64(self.view()),
    {
        match self {
            JsonValue::Number(JsonNumber::Int(i)) => {
                if *i >= 0 {
                    Some(*i as u64)
                } else {
                    None
                }
            },
            JsonValue::Number(JsonNumber::Large(u)) => Some(*u),
            _ => None,
        }
    }

    pub fn as_array(&self) -> (r: Option<&Vec<JsonValue>>)
        ensures
            r is Some <==> self is Array,
            r matches Some(v) ==> *self == JsonValue::Array(*v),
    {
        match self {
            JsonValue::Array(v) => Some(v),
            _ => None,
        }
    }

    pub fn is_number(&self) -> (r: bool)
        ensures
            r == (self.view() is Number),
    {
        match self {
            JsonValue::Number(_) => true,
            _ => false,
        }
    }

    /// A copy of this value.
    pub fn deep_clone(&self) -> (r: JsonValue)
        ensures
            r.view() == self.view(),
        decreases self,
    {
        match self {
            JsonValue::Null => JsonValue::Null,
            JsonValue::Bool(b) => JsonValue::Bool(*b),
            JsonValue::Number(JsonNumber::Int(i)) => JsonValue::Number(JsonNumber::Int(*i)),
            JsonValue::Number(JsonNumber::Large(u)) => JsonValue::Number(JsonNumber::Large(*u)),
            JsonValue::Number(JsonNumber::Fraction(t)) => JsonValue::Number(
                JsonNumber::Fraction(t.clone()),
            ),
            JsonValue::Str(t) => JsonValue::Str(t.clone()),
            JsonValue::Array(items) => {
                let mut out: Vec<JsonValue> = Vec::new();
                let mut i: usize = 0;
                while i < items.len()
                    invariant
                        i <= items.len(),
                        out.len() == i,
                        forall|j: int| 0 <= j < i ==> out@[j].view() == items@[j].view(),
                        *self == JsonValue::Array(*items),
                    decreases items.len() - i,
                {
                    proof {
                        assert(decreases_to!(*self => (*self)->Array_0));
                        assert(decreases_to!(*items => items@));
                        assert(decreases_to!(items@ => items@[i as int]));
                    }
                    out.push(items[i].deep_clone());
                    i += 1;
                }
                let ghost a = Seq::new(
                    out.len() as nat,
                    |i: int| if 0 <= i < out.len() { out@[i].view() } else { JsonView::Null },
                );
                let ghost b = Seq::new(
                    items.len() as nat,
                    |i: int| if 0 <= i < items.len() { items@[i].view() } else { JsonView::Null },
                );
                assert(a =~= b);
                let r = JsonValue::Array(out);
                assert(r.view()->Array_0 =~= self.view()->Array_0);
                r
            },
            JsonValue::Object(m) => {
                let mut out: Vec<(String, JsonValue)> = Vec::new();
                let mut i: usize = 0;
                while i < m.entries.len()
                    invariant
                        i <= m.entries.len(),
                        out.len() == i,
                        forall|j: int|
                            0 <= j < i ==> out@[j].0@ == m.entries@[j].0@ && out@[j].1.view()
                                == m.entries@[j].1.view(),
                        *self == JsonValue::Object(*m),
                    decreases m.entries.len() - i,
                {
                    proof {
                        assert(decreases_to!(*self => (*self)->Object_0));
                        assert(decreases_to!(*m => m.entries));
                        assert(decreases_to!(m.entries => m.entries@));
                        assert(decreases_to!(m.entries@ => m.entries@[i as int]));
                        assert(decreases_to!(m.entries@[i as int] => m.entries@[i as int].1));
                    }
                    let v = m.entries[i].1.deep_clone();
                    out.push((m.entries[i].0.clone(), v));
                    i += 1;
                }
                let ghost a = Seq::new(
                    out.len() as nat,
                    |i: int|
                        if 0 <= i < out.len() {
                            (out@[i].0@, out@[i].1.view())
                        } else {
                            (Seq::empty(), JsonView::Null)
                        },
                );
                let ghost b = Seq::new(
                    m.entries.len() as nat,
                    |i: int|
                        if 0 <= i < m.entries.len() {
                            (m.entries@[i].0@, m.entries@[i].1.view())
                        } else {
                            (Seq::empty(), JsonView::Null)
                        },
                );
                assert(a =~= b);
                let r = JsonValue::Object(JsonMap { entries: out });
                assert(r.view()->Object_0 =~= self.view()->Object_0);
                r
            },
        }
    }
}

pub open spec fn spec_as_i64(v: JsonView) -> Option<i64> {
    match v {
        JsonView::Number(NumberView::Int(i)) => Some(i),
        JsonView::Number(NumberView::Large(u)) => if u <= i64::MAX {
            Some(u as i64)
        } else {
            None
        },
        _ => None,
    }
}

pub open spec fn spec_as_u64(v: JsonView) -> Option<u64> {
    match v {
        JsonView::Number(NumberView::Int(i)) => if i >= 0 { Some(i as u64) } else { None },
        JsonView::Number(NumberView::Large(u)) => Some(u),
        _ => None,
    }
}

impl JsonMap {
    pub fn new() -> (r: JsonMap)
        ensures
            r.view() == Seq::<(Seq<char>, JsonView)>::empty(),
    {
        let r = JsonMap { entries: Vec::new() };
        assert(r.view() =~= Seq::<(Seq<char>, JsonView)>::empty());
        r
    }

    /// Position of the first entry with `key`.
    pub fn find(&self, key: &str) -> (r: Option<usize>)
        ensures
            match r {
                Some(i) => i < self.entries.len() && key_index(self.view(), key@) == Some(i as int),
                None => key_index(self.view(), key@) is None,
            },
    {
        let ghost p = has_key(key@);
        let mut i: usize = 0;
        while i < self.entries.len()
            invariant
                i <= self.entries.len(),
                forall|j: int| 0 <= j < i ==> !p(#[trigger] self.view()[j]),
                p == has_key(key@),
            decreases self.entries.len() - i,
        {
            assert(self.view()[i as int].0 == self.entries@[i as int].0@);
            if str_eq(self.entries[i].0.as_str(), key) {
                proof {
                    assert(p(self.view()[i as int]));
                    lemma_first_match_is(self.view(), p, i as int);
                }
                return Some(i);
            }
            assert(!p(self.view()[i as int]));
            i += 1;
        }
        proof {
            lemma_first_match_none(self.view(), p);
        }
        None
    }

    pub fn get(&self, key: &str) -> (r: Option<&JsonValue>)
        ensures
            match r {
                Some(v) => map_get(self.view(), key@) == Some(v.view()),
                None => map_get(self.view(), key@) is None,
            },
    {
        match self.find(key) {
            Some(i) => Some(&self.entries[i].1),
            None => None,
        }
    }

    pub fn contains_key(&self, key: &str) -> (r: bool)
        ensures
            r == (key_index(self.view(), key@) is Some),
    {
        self.find(key).is_some()
    }

    pub fn insert(&mut self, key: String, value: JsonValue)
        ensures
            final(self).view() == map_insert(old(self).view(), key@, value.view()),
    {
        match self.find(key.as_str()) {
            Some(i) => {
                self.entries.set(i, (key, value));
                assert(self.view() =~= map_insert(old(self).view(), key@, value.view()));
            },
            None => {
                self.entries.push((key, value));
                assert(self.view() =~= map_insert(old(self).view(), key@, value.view()));
            },
        }
    }

    pub fn deep_clone(&self) -> (r: JsonMap)
        ensures
            r.view() == self.view(),
    {
        let mut out: Vec<(String, JsonValue)> = Vec::new();
        let mut i: usize = 0;
        while i < self.entries.len()
            invariant
                i <= self.entries.len(),
                out.len() == i,
                forall|j: int|
                    0 <= j < i ==> out@[j].0@ == self.entries@[j].0@ && out@[j].1.view()
                        == self.entries@[j].1.view(),
            decreases self.entries.len() - i,
        {
            let v = self.entries[i].1.deep_clone();
            out.push((self.entries[i].0.clone(), v));
            i += 1;
        }
        let r = JsonMap { entries: out };
        assert(r.view() =~= self.view());
        r
    }
}

impl Clone for JsonValue {
    fn clone(&self) -> (r: Self)
        ensures
            r.view() == self.view(),
    {
        self.deep_clone()
    }
}

impl Clone for JsonMap {
    fn clone(&self) -> (r: Self)
        ensures
            r.view() == self.view(),
    {
        self.deep_clone()
    }
}

} // verus!
