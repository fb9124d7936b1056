//! The JSON document model: the executable type `Json`, its mathematical
//! value `JsonV`, and the object operations the transformations are built on.
use vstd::prelude::*;
use crate::text::str_eq;

verus! {

/// A JSON number in one of the three shapes a JSON number takes: a
/// non-negative integer, a negative integer, or a finite double held by its
/// IEEE-754 bit pattern.
#[derive(Clone, Copy, Debug, PartialEq, Eq, Structural)]
pub enum JsonNumber {
    PosInt(u64),
    NegInt(i64),
    Float(u64),
}

/// A JSON document. An object is a list of entries; a key is looked up at its
/// first entry, and inserting a key drops every earlier entry for it.
#[derive(Debug, PartialEq)]
pub enum Json {
    Null,
    Bool(bool),
    Number(JsonNumber),
    String(String),
    Array(Vec<Json>),
    Object(Vec<(String, Json)>),
}

/// The mathematical value of a JSON document.
pub enum JsonV {
    Null,
    Bool(bool),
    Number(JsonNumber),
    Str(Seq<char>),
    Array(Seq<JsonV>),
    Object(Seq<(Seq<char>, JsonV)>),
}

pub type Entries = Seq<(Seq<char>, JsonV)>;

pub open spec fn json_view(j: Json) -> JsonV
    decreases j,
{
    match j {
        Json::Null => JsonV::Null,
        Json::Bool(b) => JsonV::Bool(b),
        Json::Number(n) => JsonV::Number(n),
        Json::String(s) => JsonV::Str(s@),
        Json::Array(items) => JsonV::Array(items_view(items@)),
        Json::Object(es) => JsonV::Object(entries_view(es@)),
    }
}

pub open spec fn items_view(s: Seq<Json>) -> Seq<JsonV>
    decreases s,
{
    Seq::new(s.len(), |i: int| if 0 <= i < s.len() { json_view(s[i]) } else { JsonV::Null })
}

pub open spec fn entries_view(s: Seq<(String, Json)>) -> Entries
    decreases s,
{
    Seq::new(
        s.len(),
        |i: int|
            if 0 <= i < s.len() {
                (s[i].0@, json_view(s[i].1))
            } else {
                (Seq::empty(), JsonV::Null)
            },
    )
}

impl View for Json {
    type V = JsonV;

    open spec fn view(&self) -> JsonV {
        json_view(*self)
    }
}

pub open spec fn opt_view(r: Option<&Json>) -> Option<JsonV> {
    match r {
        Some(x) => Some(x@),
        None => None,
    }
}

pub open spec fn opt_owned_view(r: Option<Json>) -> Option<JsonV> {
    match r {
        Some(x) => Some(x@),
        None => None,
    }
}

// ---------------------------------------------------------------------------
// Nesting depth
// ---------------------------------------------------------------------------

/// Nesting depth: 0 for a scalar, one more than the deepest member for an
/// array or an object.
pub open spec fn height(v: JsonV) -> nat
    decreases v, 0nat,
{
    match v {
        JsonV::Array(items) => 1 + items_height(items),
        JsonV::Object(es) => 1 + entries_height(es),
        _ => 0,
    }
}

pub open spec fn items_height(items: Seq<JsonV>) -> nat
    decreases items, items.len(),
{
    if items.len() == 0 {
        0
    } else {
        let a = items_height(items.drop_last());
        let b = height(items.last());
        if a < b {
            b
        } else {
            a
        }
    }
}

pub open spec fn entries_height(es: Entries) -> nat
    decreases es, es.len(),
{
    if es.len() == 0 {
        0
    } else {
        let a = entries_height(es.drop_last());
        let b = height(es.last().1);
        if a < b {
            b
        } else {
            a
        }
    }
}

pub proof fn lemma_items_height_bound(items: Seq<JsonV>, i: int)
    requires
        0 <= i < items.len(),
    ensures
        height(items[i]) <= items_height(items),
    decreases items.len(),
{
    if i < items.len() - 1 {
        lemma_items_height_bound(items.drop_last(), i);
    }
}

pub proof fn lemma_entries_height_bound(es: Entries, i: int)
    requires
        0 <= i < es.len(),
    ensures
        height(es[i].1) <= entries_height(es),
    decreases es.len(),
{
    if i < es.len() - 1 {
        lemma_entries_height_bound(es.drop_last(), i);
    }
}

/// Every value of `es` is of depth below `h`.
pub open spec fn values_below(es: Entries, h: nat) -> bool {
    forall|i: int| 0 <= i < es.len() ==> height(#[trigger] es[i].1) < h
}

pub proof fn lemma_object_values_below(es: Entries)
    ensures
        values_below(es, height(JsonV::Object(es))),
{
    assert forall|i: int| 0 <= i < es.len() implies height(#[trigger] es[i].1) < height(
        JsonV::Object(es),
    ) by {
        lemma_entries_height_bound(es, i);
    }
}

pub proof fn lemma_array_items_below(items: Seq<JsonV>)
    ensures
        forall|i: int|
            0 <= i < items.len() ==> height(#[trigger] items[i]) < height(JsonV::Array(items)),
{
    assert forall|i: int| 0 <= i < items.len() implies height(#[trigger] items[i]) < height(
        JsonV::Array(items),
    ) by {
        lemma_items_height_bound(items, i);
    }
}

/// An object whose values are all below `h` is of depth at most `h`.
pub proof fn lemma_entries_height_from_below(es: Entries, h: nat)
    requires
        values_below(es, h),
    ensures
        entries_height(es) < h || es.len() == 0,
        height(JsonV::Object(es)) <= h || es.len() == 0,
    decreases es.len(),
{
    if es.len() > 0 {
        assert(values_below(es.drop_last(), h)) by {
            assert forall|i: int| 0 <= i < es.drop_last().len() implies height(
                #[trigger] es.drop_last()[i].1,
            ) < h by {
                assert(es.drop_last()[i] == es[i]);
            }
        }
        lemma_entries_height_from_below(es.drop_last(), h);
    }
}

// ---------------------------------------------------------------------------
// Object entries
// ---------------------------------------------------------------------------

/// The value of the first entry for `k`.
pub open spec fn entries_get(es: Entries, k: Seq<char>) -> Option<JsonV>
    decreases es.len(),
{
    if es.len() == 0 {
        None
    } else if es[0].0 == k {
        Some(es[0].1)
    } else {
        entries_get(es.drop_first(), k)
    }
}

pub open spec fn entries_has(es: Entries, k: Seq<char>) -> bool {
    entries_get(es, k) is Some
}

/// The entries without any entry for `k`.
pub open spec fn entries_remove(es: Entries, k: Seq<char>) -> Entries
    decreases es.len(),
{
    if es.len() == 0 {
        es
    } else {
        let r = entries_remove(es.drop_last(), k);
        if es.last().0 == k {
            r
        } else {
            r.push(es.last())
        }
    }
}

/// The entries with `k` bound to `v`, after any earlier entry for `k` was dropped.
pub open spec fn entries_insert(es: Entries, k: Seq<char>, v: JsonV) -> Entries {
    entries_remove(es, k).push((k, v))
}

pub proof fn lemma_get_some_index(es: Entries, k: Seq<char>)
    requires
        entries_get(es, k) is Some,
    ensures
        exists|i: int| 0 <= i < es.len() && es[i].0 == k && es[i].1 == entries_get(es, k)->0,
    decreases es.len(),
{
    if es[0].0 != k {
        lemma_get_some_index(es.drop_first(), k);
        let i = choose|i: int|
            0 <= i < es.drop_first().len() && es.drop_first()[i].0 == k && es.drop_first()[i].1
                == entries_get(es.drop_first(), k)->0;
        assert(es[i + 1] == es.drop_first()[i]);
    } else {
        assert(es[0].0 == k);
    }
}

pub proof fn lemma_get_none(es: Entries, k: Seq<char>)
    ensures
        entries_get(es, k) is None <==> (forall|i: int| 0 <= i < es.len() ==> es[i].0 != k),
    decreases es.len(),
{
    if es.len() > 0 {
        lemma_get_none(es.drop_first(), k);
        if entries_get(es, k) is None {
            assert forall|i: int| 0 <= i < es.len() implies es[i].0 != k by {
                if i > 0 {
                    assert(es[i] == es.drop_first()[i - 1]);
                }
            }
        } else if es[0].0 != k {
            let j = choose|j: int| 0 <= j < es.drop_first().len() && es.drop_first()[j].0 == k;
            assert(es[j + 1] == es.drop_first()[j]);
        }
    }
}

pub proof fn lemma_remove_no_key(es: Entries, k: Seq<char>)
    ensures
        entries_get(entries_remove(es, k), k) is None,
        forall|i: int|
            0 <= i < entries_remove(es, k).len() ==> #[trigger] entries_remove(es, k)[i].0 != k,
    decreases es.len(),
{
    if es.len() > 0 {
        lemma_remove_no_key(es.drop_last(), k);
        let r = entries_remove(es.drop_last(), k);
        if es.last().0 != k {
            assert forall|i: int| 0 <= i < r.push(es.last()).len() implies r.push(
                es.last(),
            )[i].0 != k by {
                if i < r.len() {
                    assert(r.push(es.last())[i] == r[i]);
                }
            }
        }
    }
    lemma_get_none(entries_remove(es, k), k);
}

/// Removing `k` leaves the first entry of every other key as it was.
pub proof fn lemma_remove_other(es: Entries, k: Seq<char>, j: Seq<char>)
    requires
        k != j,
    ensures
        entries_get(entries_remove(es, k), j) == entries_get(es, j),
    decreases es.len(),
{
    if es.len() > 0 {
        lemma_remove_other(es.drop_last(), k, j);
        lemma_get_push(entries_remove(es.drop_last(), k), es.last(), j);
        lemma_get_push(es.drop_last(), es.last(), j);
        assert(es.drop_last().push(es.last()) =~= es);
    }
}

pub proof fn lemma_get_push(es: Entries, e: (Seq<char>, JsonV), j: Seq<char>)
    ensures
        entries_get(es.push(e), j) == (if entries_get(es, j) is Some {
            entries_get(es, j)
        } else if e.0 == j {
            Some(e.1)
        } else {
            None
        }),
    decreases es.len(),
{
    let p = es.push(e);
    if es.len() > 0 {
        assert(p[0] == es[0]);
        lemma_get_push(es.drop_first(), e, j);
        assert(p.drop_first() =~= es.drop_first().push(e));
        if es[0].0 == j {
            assert(entries_get(p, j) == Some(es[0].1));
        } else {
            assert(entries_get(p, j) == entries_get(p.drop_first(), j));
        }
    } else {
        assert(p[0] == e);
        assert(p.drop_first() =~= Seq::<(Seq<char>, JsonV)>::empty());
        assert(entries_get(p.drop_first(), j) is None);
    }
}

pub proof fn lemma_insert_get(es: Entries, k: Seq<char>, v: JsonV, j: Seq<char>)
    ensures
        entries_get(entries_insert(es, k, v), j) == (if j == k {
            Some(v)
        } else {
            entries_get(es, j)
        }),
{
    lemma_remove_no_key(es, k);
    lemma_get_push(entries_remove(es, k), (k, v), j);
    if j != k {
        lemma_remove_other(es, k, j);
    }
}

pub proof fn lemma_remove_values_below(es: Entries, k: Seq<char>, h: nat)
    requires
        values_below(es, h),
    ensures
        values_below(entries_remove(es, k), h),
    decreases es.len(),
{
    if es.len() > 0 {
        assert(values_below(es.drop_last(), h)) by {
            assert forall|i: int| 0 <= i < es.drop_last().len() implies height(
                #[trigger] es.drop_last()[i].1,
            ) < h by {
                assert(es.drop_last()[i] == es[i]);
            }
        }
        lemma_remove_values_below(es.drop_last(), k, h);
        let r = entries_remove(es.drop_last(), k);
        assert forall|i: int| 0 <= i < r.push(es.last()).len() implies height(
            #[trigger] r.push(es.last())[i].1,
        ) < h by {
            if i < r.len() {
                assert(r.push(es.last())[i] == r[i]);
            }
        }
    }
}

pub proof fn lemma_insert_values_below(es: Entries, k: Seq<char>, v: JsonV, h: nat)
    requires
        values_below(es, h),
        height(v) < h,
    ensures
        values_below(entries_insert(es, k, v), h),
{
    lemma_remove_values_below(es, k, h);
    let r = entries_remove(es, k);
    assert forall|i: int| 0 <= i < r.push((k, v)).len() implies height(
        #[trigger] r.push((k, v))[i].1,
    ) < h by {
        if i < r.len() {
            assert(r.push((k, v))[i] == r[i]);
        }
    }
}

// ---------------------------------------------------------------------------
// Reading values
// ---------------------------------------------------------------------------

/// `Value::get` with a string key: the member of an object, `None` otherwise.
pub open spec fn jget(v: JsonV, k: Seq<char>) -> Option<JsonV> {
    match v {
        JsonV::Object(es) => entries_get(es, k),
        _ => None,
    }
}

pub open spec fn jas_str(v: JsonV) -> Option<Seq<char>> {
    match v {
        JsonV::Str(s) => Some(s),
        _ => None,
    }
}

pub open spec fn jas_u64(v: JsonV) -> Option<u64> {
    match v {
        JsonV::Number(JsonNumber::PosInt(u)) => Some(u),
        _ => None,
    }
}

pub open spec fn jas_bool(v: JsonV) -> Option<bool> {
    match v {
        JsonV::Bool(b) => Some(b),
        _ => None,
    }
}

/// `jget` of an optional value, as `Option::and_then` reads it.
pub open spec fn oget(v: Option<JsonV>, k: Seq<char>) -> Option<JsonV> {
    match v {
        Some(x) => jget(x, k),
        None => None,
    }
}

pub open spec fn ostr(v: Option<JsonV>) -> Option<Seq<char>> {
    match v {
        Some(x) => jas_str(x),
        None => None,
    }
}

pub open spec fn ou64(v: Option<JsonV>) -> Option<u64> {
    match v {
        Some(x) => jas_u64(x),
        None => None,
    }
}

pub open spec fn obool(v: Option<JsonV>) -> Option<bool> {
    match v {
        Some(x) => jas_bool(x),
        None => None,
    }
}

pub open spec fn u64_or(o: Option<u64>, d: u64) -> u64 {
    match o {
        Some(x) => x,
        None => d,
    }
}

pub open spec fn str_or(o: Option<Seq<char>>, d: Seq<char>) -> Seq<char> {
    match o {
        Some(x) => x,
        None => d,
    }
}

// ---------------------------------------------------------------------------
// Executable operations
// ---------------------------------------------------------------------------

pub proof fn lemma_entries_view_push(s: Seq<(String, Json)>, e: (String, Json))
    ensures
        entries_view(s.push(e)) == entries_view(s).push((e.0@, e.1@)),
{
    assert(entries_view(s.push(e)) =~= entries_view(s).push((e.0@, e.1@)));
}

pub proof fn lemma_entries_view_remove(s: Seq<(String, Json)>, i: int)
    requires
        0 <= i < s.len(),
    ensures
        entries_view(s.remove(i)) == entries_view(s).remove(i),
{
    assert(entries_view(s.remove(i)) =~= entries_view(s).remove(i));
}

pub proof fn lemma_items_view_push(s: Seq<Json>, e: Json)
    ensures
        items_view(s.push(e)) == items_view(s).push(e@),
{
    assert(items_view(s.push(e)) =~= items_view(s).push(e@));
}

/// The value of the first entry for `key`.
pub fn entries_find<'a>(es: &'a Vec<(String, Json)>, key: &str) -> (r: Option<&'a Json>)
    ensures
        opt_view(r) == entries_get(entries_view(es@), key@),
{
    let ghost ev = entries_view(es@);
    let mut i: usize = 0;
    assert(ev.skip(0) =~= ev);
    while i < es.len()
        invariant
            0 <= i <= es@.len(),
            ev == entries_view(es@),
            entries_get(ev, key@) == entries_get(ev.skip(i as int), key@),
        decreases es@.len() - i,
    {
        assert(ev.skip(i as int).drop_first() =~= ev.skip(i + 1));
        assert(ev.skip(i as int)[0] == ev[i as int]);
        if str_eq(es[i].0.as_str(), key) {
            return Some(&es[i].1);
        }
        i = i + 1;
    }
    None
}

/// Drops every entry for `key`; hands back the value of the first one.
pub fn entries_take(es: &mut Vec<(String, Json)>, key: &str) -> (r: Option<Json>)
    ensures
        entries_view(final(es)@) == entries_remove(entries_view(old(es)@), key@),
        opt_owned_view(r) == entries_get(entries_view(old(es)@), key@),
{
    let ghost ev = entries_view(es@);
    let n0 = es.len();
    let ghost n = n0 as nat;
    assert(ev.take(0) =~= Seq::<(Seq<char>, JsonV)>::empty());
    assert(ev.skip(0) =~= ev);
    let mut found: Option<Json> = None;
    let mut i: usize = 0;
    let mut j: usize = 0;
    while i < es.len()
        invariant
            0 <= j <= n,
            n == n0,
            ev == entries_view(old(es)@),
            n == ev.len(),
            entries_view(es@) == entries_remove(ev.take(j as int), key@) + ev.skip(j as int),
            i == entries_remove(ev.take(j as int), key@).len(),
            es@.len() == i + (n - j),
            opt_owned_view(found) == entries_get(ev.take(j as int), key@),
        decreases n - j,
    {
        let ghost r = entries_remove(ev.take(j as int), key@);
        assert(entries_view(es@)[i as int] == ev[j as int]) by {
            assert((r + ev.skip(j as int))[i as int] == ev.skip(j as int)[0]);
        }
        assert(ev.take(j + 1).drop_last() =~= ev.take(j as int));
        assert(ev.take(j + 1).last() == ev[j as int]);
        proof {
            lemma_get_push(ev.take(j as int), ev[j as int], key@);
            assert(ev.take(j as int).push(ev[j as int]) =~= ev.take(j + 1));
        }
        if str_eq(es[i].0.as_str(), key) {
            let ghost before = es@;
            let e = es.remove(i);
            if found.is_none() {
                found = Some(e.1);
            }
            proof {
                lemma_entries_view_remove(before, i as int);
                assert((r + ev.skip(j as int)).remove(i as int) =~= r + ev.skip(j + 1));
                assert(entries_view(es@) =~= r + ev.skip(j + 1));
            }
        } else {
            proof {
                assert(entries_view(es@) =~= r.push(ev[j as int]) + ev.skip(j + 1));
            }
            i = i + 1;
        }
        j = j + 1;
    }
    proof {
        assert(ev.take(n as int) =~= ev);
        assert(entries_view(es@) =~= entries_remove(ev, key@));
    }
    found
}

/// Binds `key` to `value`, dropping any earlier entry for `key`.
pub fn entries_put(es: &mut Vec<(String, Json)>, key: String, value: Json)
    ensures
        entries_view(final(es)@) == entries_insert(entries_view(old(es)@), key@, value@),
{
    let _ = entries_take(es, key.as_str());
    let ghost before = es@;
    let ghost k = key@;
    let ghost vv = value@;
    es.push((key, value));
    proof {
        lemma_entries_view_push(before, (key, value));
    }
}

impl Json {
    /// `Value::get` with a string key.
    pub fn get(&self, key: &str) -> (r: Option<&Json>)
        ensures
            opt_view(r) == jget(self@, key@),
    {
        match self {
            Json::Object(es) => entries_find(es, key),
            _ => None,
        }
    }

    pub fn as_str(&self) -> (r: Option<&String>)
        ensures
            match r {
                Some(s) => jas_str(self@) == Some(s@),
                None => jas_str(self@) is None,
            },
    {
        match self {
            Json::String(s) => Some(s),
            _ => None,
        }
    }

    pub fn as_u64(&self) -> (r: Option<u64>)
        ensures
            r == jas_u64(self@),
    {
        match self {
            Json::Number(JsonNumber::PosInt(u)) => Some(*u),
            _ => None,
        }
    }

    pub fn as_bool(&self) -> (r: Option<bool>)
        ensures
            r == jas_bool(self@),
    {
        match self {
            Json::Bool(b) => Some(*b),
            _ => None,
        }
    }

    pub fn is_string(&self) -> (r: bool)
        ensures
            r == (jas_str(self@) is Some),
    {
        match self {
            Json::String(_) => true,
            _ => false,
        }
    }

    /// A copy with the same value.
    pub fn deep_clone(&self) -> (r: Json)
        ensures
            r@ == self@,
        decreases height(self@),
    {
        match self {
            Json::Null => Json::Null,
            Json::Bool(b) => Json::Bool(*b),
            Json::Number(n) => Json::Number(*n),
            Json::String(s) => Json::String(s.clone()),
            Json::Array(items) => {
                let mut out: Vec<Json> = Vec::new();
                let mut i: usize = 0;
                while i < items.len()
                    invariant
                        0 <= i <= items@.len(),
                        self@ == JsonV::Array(items_view(items@)),
                        items_view(out@) == items_view(items@).take(i as int),
                    decreases items@.len() - i,
                {
                    proof {
                        lemma_array_items_below(items_view(items@));
                        assert(items_view(items@)[i as int] == items@[i as int]@);
                    }
                    let c = items[i].deep_clone();
                    proof {
                        lemma_items_view_push(out@, c);
                        assert(items_view(items@).take(i + 1) =~= items_view(items@).take(
                            i as int,
                        ).push(c@));
                    }
                    out.push(c);
                    i = i + 1;
                }
                proof {
                    assert(items_view(items@).take(i as int) =~= items_view(items@));
                }
                Json::Array(out)
            },
            Json::Object(es) => {
                let mut out: Vec<(String, Json)> = Vec::new();
                let mut i: usize = 0;
                while i < es.len()
                    invariant
                        0 <= i <= es@.len(),
                        self@ == JsonV::Object(entries_view(es@)),
                        entries_view(out@) == entries_view(es@).take(i as int),
                    decreases es@.len() - i,
                {
                    proof {
                        lemma_object_values_below(entries_view(es@));
                        assert(entries_view(es@)[i as int].1 == es@[i as int].1@);
                    }
                    let k = es[i].0.clone();
                    let c = es[i].1.deep_clone();
                    proof {
                        lemma_entries_view_push(out@, (k, c));
                        assert(entries_view(es@).take(i + 1) =~= entries_view(es@).take(
                            i as int,
                        ).push((k@, c@)));
                    }
                    out.push((k, c));
                    i = i + 1;
                }
                proof {
                    assert(entries_view(es@).take(i as int) =~= entries_view(es@));
                }
                Json::Object(out)
            },
        }
    }
}

} // verus!

verus! {

/// The elements of `v` in reverse order.
pub fn reversed<T>(v: Vec<T>) -> (r: Vec<T>)
    ensures
        r@ == v@.reverse(),
{
    let mut v = v;
    let ghost orig = v@;
    let mut r: Vec<T> = Vec::new();
    while v.len() > 0
        invariant
            v@ == orig.take(v@.len() as int),
            r@ == orig.skip(v@.len() as int).reverse(),
            v@.len() <= orig.len(),
        decreases v@.len(),
    {
        let ghost before = v@.len();
        let x = v.pop().unwrap();
        r.push(x);
        proof {
            assert(v@ =~= orig.take(v@.len() as int));
            assert(r@ =~= orig.skip(v@.len() as int).reverse());
        }
    }
    proof {
        assert(orig.skip(0) =~= orig);
    }
    r
}

/// Moves the value out of `slot`, leaving `Null` behind.
pub fn take_json(slot: &mut Json) -> (r: Json)
    ensures
        r == *old(slot),
        *final(slot) == Json::Null,
{
    let mut t = Json::Null;
    std::mem::swap(slot, &mut t);
    t
}

} // verus!

verus! {

pub proof fn lemma_remove_absent(es: Entries, k: Seq<char>)
    requires
        entries_get(es, k) is None,
    ensures
        entries_remove(es, k) == es,
    decreases es.len(),
{
    lemma_get_none(es, k);
    if es.len() > 0 {
        lemma_get_none(es.drop_last(), k);
        assert forall|i: int| 0 <= i < es.drop_last().len() implies es.drop_last()[i].0 != k by {
            assert(es.drop_last()[i] == es[i]);
        }
        lemma_remove_absent(es.drop_last(), k);
        assert(es.drop_last().push(es.last()) =~= es);
    }
}

pub proof fn lemma_get_below(es: Entries, k: Seq<char>)
    requires
        entries_get(es, k) is Some,
    ensures
        height(entries_get(es, k)->0) < height(JsonV::Object(es)),
{
    lemma_get_some_index(es, k);
    lemma_object_values_below(es);
}

pub proof fn lemma_jget_below(v: JsonV, k: Seq<char>)
    requires
        jget(v, k) is Some,
    ensures
        v is Object,
        height(jget(v, k)->0) < height(v),
{
    if let JsonV::Object(es) = v {
        lemma_get_below(es, k);
    }
}

/// The value bound to `k`, if any, moved to key `to`.
pub open spec fn rename_key(es: Entries, from: Seq<char>, to: Seq<char>) -> Entries {
    match entries_get(es, from) {
        Some(x) => entries_insert(entries_remove(es, from), to, x),
        None => es,
    }
}

pub proof fn lemma_rename_values_below(es: Entries, from: Seq<char>, to: Seq<char>, h: nat)
    requires
        values_below(es, h),
    ensures
        values_below(rename_key(es, from, to), h),
{
    if let Some(x) = entries_get(es, from) {
        lemma_get_some_index(es, from);
        lemma_remove_values_below(es, from, h);
        lemma_insert_values_below(entries_remove(es, from), to, x, h);
    }
}

/// Moves the value bound to `from` to the key `to`.
pub fn entries_rename(es: &mut Vec<(String, Json)>, from: &str, to: &str)
    ensures
        entries_view(final(es)@) == rename_key(entries_view(old(es)@), from@, to@),
{
    let ghost before = entries_view(es@);
    match entries_take(es, from) {
        Some(x) => {
            entries_put(es, crate::text::owned(to), x);
        },
        None => {
            proof {
                lemma_remove_absent(before, from@);
            }
        },
    }
}

/// Whether some entry is for `key`.
pub fn entries_contains(es: &Vec<(String, Json)>, key: &str) -> (r: bool)
    ensures
        r == entries_has(entries_view(es@), key@),
{
    entries_find(es, key).is_some()
}

} // verus!

verus! {

/// Every value of `es` satisfies `f`.
pub open spec fn all_values(es: Entries, f: spec_fn(JsonV) -> bool) -> bool {
    forall|i: int| 0 <= i < es.len() ==> #[trigger] f(es[i].1)
}

pub proof fn lemma_all_values_remove(es: Entries, k: Seq<char>, f: spec_fn(JsonV) -> bool)
    requires
        all_values(es, f),
    ensures
        all_values(entries_remove(es, k), f),
    decreases es.len(),
{
    if es.len() > 0 {
        assert(all_values(es.drop_last(), f)) by {
            assert forall|i: int| 0 <= i < es.drop_last().len() implies #[trigger] f(
                es.drop_last()[i].1,
            ) by {
                assert(es.drop_last()[i] == es[i]);
            }
        }
        lemma_all_values_remove(es.drop_last(), k, f);
        let r = entries_remove(es.drop_last(), k);
        assert forall|i: int| 0 <= i < r.push(es.last()).len() implies #[trigger] f(
            r.push(es.last())[i].1,
        ) by {
            if i < r.len() {
                assert(r.push(es.last())[i] == r[i]);
            }
        }
    }
}

pub proof fn lemma_all_values_insert(
    es: Entries,
    k: Seq<char>,
    x: JsonV,
    f: spec_fn(JsonV) -> bool,
)
    requires
        all_values(es, f),
        f(x),
    ensures
        all_values(entries_insert(es, k, x), f),
{
    lemma_all_values_remove(es, k, f);
    let r = entries_remove(es, k);
    assert forall|i: int| 0 <= i < r.push((k, x)).len() implies #[trigger] f(
        r.push((k, x))[i].1,
    ) by {
        if i < r.len() {
            assert(r.push((k, x))[i] == r[i]);
        }
    }
}

pub proof fn lemma_get_all_values(es: Entries, k: Seq<char>, f: spec_fn(JsonV) -> bool)
    requires
        all_values(es, f),
        entries_get(es, k) is Some,
    ensures
        f(entries_get(es, k)->0),
{
    lemma_get_some_index(es, k);
}

pub proof fn lemma_has_insert(es: Entries, k: Seq<char>, x: JsonV, t: Seq<char>)
    ensures
        entries_has(entries_insert(es, k, x), t) == (t == k || entries_has(es, t)),
{
    lemma_insert_get(es, k, x, t);
}

pub proof fn lemma_has_remove(es: Entries, k: Seq<char>, t: Seq<char>)
    ensures
        entries_has(entries_remove(es, k), t) ==> t != k && entries_has(es, t),
{
    lemma_remove_no_key(es, k);
    if t != k {
        lemma_remove_other(es, k, t);
    }
}

pub proof fn lemma_has_rename(es: Entries, from: Seq<char>, to: Seq<char>, t: Seq<char>)
    ensures
        entries_has(rename_key(es, from, to), t) ==> t == to || entries_has(es, t),
{
    if let Some(x) = entries_get(es, from) {
        lemma_has_insert(entries_remove(es, from), to, x, t);
        lemma_has_remove(es, from, t);
    }
}

} // verus!

verus! {

pub proof fn lemma_items_height_from_below(items: Seq<JsonV>, h: nat)
    requires
        forall|i: int| 0 <= i < items.len() ==> height(#[trigger] items[i]) < h,
    ensures
        height(JsonV::Array(items)) <= h || items.len() == 0,
        height(JsonV::Array(items)) <= 1 + h,
    decreases items.len(),
{
    if items.len() > 0 {
        assert forall|i: int| 0 <= i < items.drop_last().len() implies height(
            #[trigger] items.drop_last()[i],
        ) < h by {
            assert(items.drop_last()[i] == items[i]);
        }
        lemma_items_height_from_below(items.drop_last(), h);
        assert(height(items.last()) < h);
    }
}

pub proof fn lemma_entries_height_le(es: Entries, h: nat)
    requires
        values_below(es, h),
    ensures
        height(JsonV::Object(es)) <= h || es.len() == 0,
        height(JsonV::Object(es)) <= 1 + h,
    decreases es.len(),
{
    lemma_entries_height_from_below(es, h);
    if es.len() == 0 {
        assert(entries_height(es) == 0);
    }
}

} // verus!

verus! {

/// After a rename, nothing is bound to the old key.
pub proof fn lemma_rename_drops(es: Entries, from: Seq<char>, to: Seq<char>)
    requires
        from != to,
    ensures
        !entries_has(rename_key(es, from, to), from),
{
    if let Some(x) = entries_get(es, from) {
        lemma_has_insert(entries_remove(es, from), to, x, from);
        lemma_has_remove(es, from, from);
    }
}

/// A rename leaves every other key as it was.
pub proof fn lemma_rename_get(es: Entries, from: Seq<char>, to: Seq<char>, t: Seq<char>)
    requires
        t != from,
        t != to,
    ensures
        entries_get(rename_key(es, from, to), t) == entries_get(es, t),
{
    if let Some(x) = entries_get(es, from) {
        lemma_remove_other(es, from, t);
        lemma_insert_get(entries_remove(es, from), to, x, t);
    }
}

/// No two entries are for the same key.
pub open spec fn distinct_keys(es: Entries) -> bool {
    forall|i: int, j: int| 0 <= i < j < es.len() ==> #[trigger] es[i].0 != #[trigger] es[j].0
}

/// Removing a key keeps the keys distinct.
pub proof fn lemma_remove_distinct(es: Entries, k: Seq<char>)
    requires
        distinct_keys(es),
    ensures
        distinct_keys(entries_remove(es, k)),
    decreases es.len(),
{
    if es.len() > 0 {
        let d = es.drop_last();
        assert(distinct_keys(d)) by {
            assert forall|i: int, j: int| 0 <= i < j < d.len() implies #[trigger] d[i].0 != #[trigger] d[j].0 by {
                assert(d[i] == es[i] && d[j] == es[j]);
            }
        }
        lemma_remove_distinct(d, k);
        let r = entries_remove(d, k);
        if es.last().0 != k {
            let t = es.last().0;
            lemma_get_none(d, t);
            assert forall|i: int| 0 <= i < d.len() implies d[i].0 != t by {
                assert(d[i] == es[i]);
                assert(es[i].0 != es[es.len() - 1].0);
            }
            lemma_has_remove(d, k, t);
            lemma_get_none(r, t);
            let r2 = r.push(es.last());
            assert forall|i: int, j: int| 0 <= i < j < r2.len() implies #[trigger] r2[i].0 != #[trigger] r2[j].0 by {
                assert(r2[i] == r[i]);
                if j < r.len() {
                    assert(r2[j] == r[j]);
                }
            }
        }
    }
}

/// Inserting a key keeps the keys distinct.
pub proof fn lemma_insert_distinct(es: Entries, k: Seq<char>, x: JsonV)
    requires
        distinct_keys(es),
    ensures
        distinct_keys(entries_insert(es, k, x)),
{
    lemma_remove_distinct(es, k);
    lemma_remove_no_key(es, k);
    let r = entries_remove(es, k);
    let r2 = r.push((k, x));
    assert forall|i: int, j: int| 0 <= i < j < r2.len() implies #[trigger] r2[i].0 != #[trigger] r2[j].0 by {
        assert(r2[i] == r[i]);
        if j < r.len() {
            assert(r2[j] == r[j]);
        }
    }
}

/// Renaming a key keeps the keys distinct.
pub proof fn lemma_rename_distinct(es: Entries, from: Seq<char>, to: Seq<char>)
    requires
        distinct_keys(es),
    ensures
        distinct_keys(rename_key(es, from, to)),
{
    if let Some(x) = entries_get(es, from) {
        lemma_remove_distinct(es, from);
        lemma_insert_distinct(entries_remove(es, from), to, x);
    }
}

/// Every value of renamed entries is a value of the entries.
pub proof fn lemma_all_values_rename(es: Entries, from: Seq<char>, to: Seq<char>, f: spec_fn(JsonV) -> bool)
    requires
        all_values(es, f),
    ensures
        all_values(rename_key(es, from, to), f),
{
    if let Some(x) = entries_get(es, from) {
        lemma_get_all_values(es, from, f);
        lemma_all_values_remove(es, from, f);
        lemma_all_values_insert(entries_remove(es, from), to, x, f);
    }
}

} // verus!

verus! {

/// The entry at `i` is the first entry for its key.
pub open spec fn first_entry(es: Entries, i: int) -> bool {
    forall|j: int| 0 <= j < i ==> #[trigger] es[j].0 != es[i].0
}

/// A key is looked up at its first entry.
pub proof fn lemma_first_get(es: Entries, i: int)
    requires
        0 <= i < es.len(),
        first_entry(es, i),
    ensures
        entries_get(es, es[i].0) == Some(es[i].1),
    decreases i,
{
    if i > 0 {
        let d = es.drop_first();
        assert(es[0].0 != es[i].0);
        assert(d[i - 1] == es[i]);
        assert forall|j: int| 0 <= j < i - 1 implies #[trigger] d[j].0 != d[i - 1].0 by {
            assert(d[j] == es[j + 1]);
        }
        lemma_first_get(d, i - 1);
    }
}

/// `a` and `b` hold the same members at every depth: objects with the same
/// keys whose members, each looked up at its first entry, are again the
/// same, arrays of the same length item by item, and equal scalars. The
/// order of the entries of an object does not count.
pub open spec fn same_doc(a: JsonV, b: JsonV) -> bool
    decreases a,
{
    match a {
        JsonV::Object(ea) => match b {
            JsonV::Object(eb) => {
                &&& forall|k: Seq<char>| #[trigger] entries_has(ea, k) == entries_has(eb, k)
                &&& forall|i: int|
                    0 <= i < ea.len() && first_entry(ea, i) ==> #[trigger] entries_get(eb, ea[i].0) is Some
                        && same_doc(ea[i].1, entries_get(eb, ea[i].0)->0)
            },
            _ => false,
        },
        JsonV::Array(xs) => match b {
            JsonV::Array(ys) => xs.len() == ys.len() && forall|i: int|
                0 <= i < xs.len() ==> #[trigger] same_doc(xs[i], ys[i]),
            _ => false,
        },
        _ => a == b,
    }
}

} // verus!
