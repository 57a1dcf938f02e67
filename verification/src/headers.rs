//! Header collections with map semantics: one value per name, insertion
//! order kept, and re-inserting a name replaces its value in place.
//!
//! [`Headers`] keeps its entries in an `http::HeaderMap`; [`HeaderList`] is a
//! plain list of text pairs with the same semantics for names compared
//! exactly.

use vstd::prelude::*;
use crate::http_types::{is_header_name, header_text_ok};

verus! {

/// Whether some entry has name `k`.
pub open spec fn has_key<V>(s: Seq<(Seq<char>, V)>, k: Seq<char>) -> bool {
    exists|i: int| 0 <= i < s.len() && (#[trigger] s[i]).0 == k
}

/// No two entries share a name.
pub open spec fn unique_keys<V>(s: Seq<(Seq<char>, V)>) -> bool {
    forall|i: int, j: int| 0 <= i < s.len() && 0 <= j < s.len() && i != j ==> (#[trigger] s[i]).0
        != (#[trigger] s[j]).0
}

/// The value stored under `k`, if any.
pub open spec fn lookup<V>(s: Seq<(Seq<char>, V)>, k: Seq<char>) -> Option<V> {
    if has_key(s, k) {
        Some(s[choose|i: int| 0 <= i < s.len() && (#[trigger] s[i]).0 == k].1)
    } else {
        None
    }
}

/// Map insertion: replaces the value of an existing entry named `k` in place,
/// or appends `(k, v)`.
pub open spec fn insert_pair<V>(s: Seq<(Seq<char>, V)>, k: Seq<char>, v: V) -> Seq<(Seq<char>, V)> {
    if has_key(s, k) {
        let i = choose|i: int| 0 <= i < s.len() && (#[trigger] s[i]).0 == k;
        s.update(i, (k, v))
    } else {
        s.push((k, v))
    }
}

/// The most entries a [`Headers`] holds. Every `HeaderMap::insert` first
/// reserves room for one more entry; that reservation panics when the index
/// table would have to grow beyond 32768 slots, which in the map's
/// collision-defence state happens once five times the entry count reaches
/// the table size. An insertion into a map of at most 6553 entries therefore
/// never panics.
pub const HEADER_CAPACITY: usize = 6553;

/// Insertion into a [`Headers`]: as [`insert_pair`], except that a new name is
/// dropped once the collection holds [`HEADER_CAPACITY`] entries.
pub open spec fn insert_capped(s: Seq<(Seq<char>, Seq<char>)>, k: Seq<char>, v: Seq<char>) -> Seq<(Seq<char>, Seq<char>)> {
    if s.len() < HEADER_CAPACITY || has_key(s, k) {
        insert_pair(s, k, v)
    } else {
        s
    }
}

/// The `http::HeaderMap` type, whose contents are known through
/// [`header_map_entries`].
#[verifier::external_type_specification]
#[verifier::external_body]
#[verifier::reject_recursive_types(T)]
pub struct ExHeaderMap<T>(http::HeaderMap<T>);

/// The `http::HeaderValue` type, the values a header map holds.
#[verifier::external_type_specification]
#[verifier::external_body]
pub struct ExHeaderValue(http::HeaderValue);

/// What an `http::HeaderMap` holds: its (name, value) pairs in iteration
/// order, each name as `HeaderName::as_str` gives it and each value as the
/// text of its bytes.
pub uninterp spec fn header_map_entries(m: http::HeaderMap<http::HeaderValue>) -> Seq<(Seq<char>, Seq<char>)>;

/// `HeaderMap::new`: an empty map.
#[verifier::external_body]
fn header_map_new() -> (r: http::HeaderMap<http::HeaderValue>)
    ensures
        header_map_entries(r) == Seq::<(Seq<char>, Seq<char>)>::empty(),
{
    http::HeaderMap::new()
}

/// `HeaderMap::len`: the number of values, one per pair of the iteration.
#[verifier::external_body]
fn header_map_len(m: &http::HeaderMap<http::HeaderValue>) -> (r: usize)
    ensures
        r == header_map_entries(*m).len(),
{
    m.len()
}

/// The `i`-th pair that `HeaderMap::iter` yields, as text.
#[verifier::external_body]
fn header_map_entry(m: &http::HeaderMap<http::HeaderValue>, i: usize) -> (r: (String, String))
    requires
        i < header_map_entries(*m).len(),
    ensures
        r.0@ == header_map_entries(*m)[i as int].0,
        r.1@ == header_map_entries(*m)[i as int].1,
{
    match m.iter().nth(i) {
        Some((k, v)) => (k.as_str().to_string(), String::from_utf8_lossy(v.as_bytes()).into_owned()),
        None => (String::new(), String::new()),
    }
}

/// `HeaderMap::get` with a name in its stored (lowercase) form: the value
/// stored under that name, when names are unique.
#[verifier::external_body]
fn header_map_get(m: &http::HeaderMap<http::HeaderValue>, name: &str) -> (r: Option<String>)
    requires
        unique_keys(header_map_entries(*m)),
        is_header_name(name@),
    ensures
        match (r, lookup(header_map_entries(*m), name@)) {
            (Some(v), Some(w)) => v@ == w,
            (None, None) => true,
            _ => false,
        },
{
    match m.get(name) {
        Some(v) => Some(String::from_utf8_lossy(v.as_bytes()).into_owned()),
        None => None,
    }
}

/// `HeaderMap::insert` of a lowercase header name and a valid value: the
/// value of an existing pair with that name is replaced in place (names are
/// unique here, so no extra values are dropped), else the pair is appended.
/// The map holds at most `HEADER_CAPACITY` pairs, so the insertion does not
/// panic.
#[verifier::external_body]
fn header_map_insert(m: &mut http::HeaderMap<http::HeaderValue>, name: &str, value: &str)
    requires
        unique_keys(header_map_entries(*old(m))),
        header_map_entries(*old(m)).len() <= HEADER_CAPACITY,
        is_header_name(name@),
        header_text_ok(value@),
    ensures
        header_map_entries(*final(m)) == insert_pair(header_map_entries(*old(m)), name@, value@),
{
    match (http::HeaderName::from_bytes(name.as_bytes()), http::HeaderValue::from_str(value)) {
        (Ok(n), Ok(v)) => {
            m.insert(n, v);
        },
        _ => {},
    }
}

/// Headers kept in an `http::HeaderMap`: lowercase names, unique, with valid
/// values, in insertion order.
#[derive(Debug)]
pub struct Headers {
    map: http::HeaderMap<http::HeaderValue>,
}

impl View for Headers {
    type V = Seq<(Seq<char>, Seq<char>)>;

    closed spec fn view(&self) -> Seq<(Seq<char>, Seq<char>)> {
        header_map_entries(self.map)
    }
}

impl Headers {
    /// Names are unique and the map is within capacity.
    pub closed spec fn wf(&self) -> bool {
        unique_keys(self@) && self@.len() <= HEADER_CAPACITY
    }

    /// No headers.
    pub fn new() -> (r: Headers)
        ensures
            r@ == Seq::<(Seq<char>, Seq<char>)>::empty(),
            r.wf(),
    {
        Headers { map: header_map_new() }
    }

    /// Number of headers.
    pub fn len(&self) -> (r: usize)
        ensures
            r == self@.len(),
    {
        header_map_len(&self.map)
    }

    /// The header at position `i`.
    pub fn entry(&self, i: usize) -> (r: (String, String))
        requires
            i < self@.len(),
        ensures
            r.0@ == self@[i as int].0,
            r.1@ == self@[i as int].1,
    {
        header_map_entry(&self.map, i)
    }

    /// The value stored under `name` (a lowercase header name), if any.
    pub fn get(&self, name: &str) -> (r: Option<String>)
        requires
            self.wf(),
            is_header_name(name@),
        ensures
            match (r, lookup(self@, name@)) {
                (Some(v), Some(w)) => v@ == w,
                (None, None) => true,
                _ => false,
            },
    {
        header_map_get(&self.map, name)
    }

    /// Whether a header named `name` is present.
    pub fn contains(&self, name: &str) -> (r: bool)
        requires
            self.wf(),
            is_header_name(name@),
        ensures
            r == has_key(self@, name@),
    {
        self.get(name).is_some()
    }

    /// Inserts `name: value` (see [`insert_capped`]).
    pub fn insert(&mut self, name: &str, value: &str)
        requires
            old(self).wf(),
            is_header_name(name@),
            header_text_ok(value@),
        ensures
            final(self).wf(),
            final(self)@ == insert_capped(old(self)@, name@, value@),
    {
        let ghost before = self@;
        if self.len() < HEADER_CAPACITY || self.contains(name) {
            header_map_insert(&mut self.map, name, value);
            proof {
                lemma_insert_pair_unique(before, name@, value@);
            }
        }
    }
}

/// Inserting keeps names unique, and adds an entry only for a new name.
pub proof fn lemma_insert_pair_unique<V>(s: Seq<(Seq<char>, V)>, k: Seq<char>, v: V)
    requires
        unique_keys(s),
    ensures
        unique_keys(insert_pair(s, k, v)),
        insert_pair(s, k, v).len() == if has_key(s, k) { s.len() } else { s.len() + 1 },
        has_key(insert_pair(s, k, v), k),
{
    let r = insert_pair(s, k, v);
    if has_key(s, k) {
        let i = choose|i: int| 0 <= i < s.len() && (#[trigger] s[i]).0 == k;
        assert(r[i].0 == k);
    } else {
        assert(r[s.len() as int].0 == k);
        assert forall|a: int, b: int| 0 <= a < r.len() && 0 <= b < r.len() && a != b implies
            (#[trigger] r[a]).0 != (#[trigger] r[b]).0 by {
            if a == s.len() {
                assert(s[b].0 != k);
            } else if b == s.len() {
                assert(s[a].0 != k);
            }
        }
    }
}

/// What a read gives back of a write: after `name: value` is inserted into
/// headers with unique names, the value stored under `name` is `value`, and
/// every other name keeps its value.
pub proof fn law_insert_then_lookup<V>(s: Seq<(Seq<char>, V)>, k: Seq<char>, v: V, other: Seq<char>)
    requires
        unique_keys(s),
        other != k,
    ensures
        lookup(insert_pair(s, k, v), k) == Some(v),
        lookup(insert_pair(s, k, v), other) == lookup(s, other),
{
    lemma_insert_pair_unique(s, k, v);
    let r = insert_pair(s, k, v);
    let i = choose|i: int| 0 <= i < r.len() && (#[trigger] r[i]).0 == k;
    if has_key(s, k) {
        let j = choose|j: int| 0 <= j < s.len() && (#[trigger] s[j]).0 == k;
        assert(r[j] == (k, v));
        assert(i == j);
    } else {
        assert(r[s.len() as int] == (k, v));
        assert(i == s.len());
    }
    if has_key(s, other) {
        let j = choose|j: int| 0 <= j < s.len() && (#[trigger] s[j]).0 == other;
        assert(r[j] == s[j]);
        assert(has_key(r, other));
        let i2 = choose|i2: int| 0 <= i2 < r.len() && (#[trigger] r[i2]).0 == other;
        assert(i2 == j);
    } else {
        assert(!has_key(r, other)) by {
            if has_key(r, other) {
                let i2 = choose|i2: int| 0 <= i2 < r.len() && (#[trigger] r[i2]).0 == other;
                if i2 < s.len() {
                    assert(r[i2] == s[i2] || r[i2].0 == k);
                }
            }
        }
    }
}

/// Headers as (name, value) text pairs.
#[derive(Debug, Clone)]
pub struct HeaderList {
    entries: Vec<(String, String)>,
}

impl View for HeaderList {
    type V = Seq<(Seq<char>, Seq<char>)>;

    closed spec fn view(&self) -> Seq<(Seq<char>, Seq<char>)> {
        self.entries@.map_values(|e: (String, String)| (e.0@, e.1@))
    }
}

impl HeaderList {
    /// Names are unique.
    pub open spec fn wf(&self) -> bool {
        unique_keys(self@)
    }

    /// An empty header list.
    pub fn new() -> (r: HeaderList)
        ensures
            r@ == Seq::<(Seq<char>, Seq<char>)>::empty(),
            r.wf(),
    {
        let r = HeaderList { entries: Vec::new() };
        assert(r@ =~= Seq::<(Seq<char>, Seq<char>)>::empty());
        r
    }

    /// Number of entries.
    pub fn len(&self) -> (r: usize)
        ensures
            r == self@.len(),
    {
        self.entries.len()
    }

    /// Position of the entry named `name`, if any.
    pub fn position(&self, name: &String) -> (r: Option<usize>)
        ensures
            match r {
                Some(i) => i < self@.len() && self@[i as int].0 == name@,
                None => !has_key(self@, name@),
            },
    {
        let mut i: usize = 0;
        while i < self.entries.len()
            invariant
                i <= self.entries@.len(),
                forall|j: int| 0 <= j < i ==> #[trigger] self@[j].0 != name@,
            decreases self.entries@.len() - i,
        {
            if self.entries[i].0 == *name {
                return Some(i);
            }
            i = i + 1;
        }
        assert forall|j: int| 0 <= j < self@.len() implies #[trigger] self@[j].0 != name@ by {}
        None
    }

    /// The value stored under `name`, if any.
    pub fn get(&self, name: &String) -> (r: Option<&String>)
        requires
            self.wf(),
        ensures
            match (r, lookup(self@, name@)) {
                (Some(v), Some(w)) => v@ == w,
                (None, None) => true,
                _ => false,
            },
    {
        match self.position(name) {
            Some(i) => {
                proof {
                    let c = choose|j: int| 0 <= j < self@.len() && (#[trigger] self@[j]).0 == name@;
                    assert(self@[i as int].0 == name@);
                    assert(c == i);
                }
                Some(&self.entries[i].1)
            },
            None => None,
        }
    }

    /// Entry at position `i`.
    pub fn entry(&self, i: usize) -> (r: (&String, &String))
        requires
            i < self@.len(),
        ensures
            r.0@ == self@[i as int].0,
            r.1@ == self@[i as int].1,
    {
        (&self.entries[i].0, &self.entries[i].1)
    }

    /// The entries, in order.
    pub fn into_pairs(self) -> (r: Vec<(String, String)>)
        ensures
            r@.map_values(|p: (String, String)| (p.0@, p.1@)) == self@,
    {
        self.entries
    }

    /// Inserts `name: value`, replacing the value of an existing entry with the
    /// same name in place.
    pub fn insert(&mut self, name: String, value: String)
        requires
            old(self).wf(),
        ensures
            final(self).wf(),
            final(self)@ == insert_pair(old(self)@, name@, value@),
    {
        let ghost old_view = self@;
        match self.position(&name) {
            Some(i) => {
                proof {
                    let c = choose|j: int|
                        0 <= j < old_view.len() && (#[trigger] old_view[j]).0 == name@;
                    assert(c == i);
                }
                self.entries.set(i, (name, value));
                assert(self@ =~= insert_pair(old_view, name@, value@));
            },
            None => {
                self.entries.push((name, value));
                assert(self@ =~= insert_pair(old_view, name@, value@));
            },
        }
    }
}

} // verus!
