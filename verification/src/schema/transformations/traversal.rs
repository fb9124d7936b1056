//! The walk that every transformation shares: at an object, first the
//! transformation's own edit of the object's entries, then the walk into each
//! value of the edited object; at an array, the walk into each element.
use vstd::prelude::*;
use crate::json::{
    entries_has, entries_view, height, items_view, lemma_array_items_below,
    lemma_entries_view_push, lemma_get_none, lemma_items_view_push, reversed, Entries, Json, JsonV,
};
use crate::schema::transformations::vector_data_removal::{
    lemma_vector_data_local_decreases, vector_data_local, vector_data_local_spec,
};
use crate::schema::transformations::paint_renaming::{
    lemma_paints_local_decreases, paints_local, paints_local_spec,
};
use crate::schema::transformations::redundant_properties_removal::{
    lemma_redundant_local_decreases, redundant_local, redundant_local_spec,
};
use crate::schema::transformations::variables_transformation::{
    color_var_local, color_var_local_spec, lemma_variables_local_decreases,
};
use crate::schema::transformations::field_alignment::{align_local, align_local_spec};
use crate::schema::transformations::field_alignment_order::{
    align_trig, lemma_align_local_under, under_fn,
};
use crate::schema::transformations::relative_transform::{
    lemma_transform_local_decreases, transform_local, transform_local_spec, transform_trig,
};
use crate::schema::transformations::id_transformation::{
    ids_local, ids_local_spec, lemma_ids_local_decreases,
};
use crate::schema::transformations::type_alignment::{
    lemma_node_types_local_decreases, node_types_local, node_types_local_spec,
};

verus! {

/// The transformations of a document.
#[derive(Clone, Copy, PartialEq, Eq, Structural)]
pub enum Pass {
    VectorData,
    RenamePaints,
    RedundantProperties,
    NodeTypes,
    Variables,
    RelativeTransform,
    GuidsToIds,
    AlignFields,
}

/// The edit that pass `p` makes of the entries of one object.
pub open spec fn local_spec(p: Pass, es: Entries) -> Entries {
    match p {
        Pass::VectorData => vector_data_local_spec(es),
        Pass::RenamePaints => paints_local_spec(es),
        Pass::RedundantProperties => redundant_local_spec(es),
        Pass::NodeTypes => node_types_local_spec(es),
        Pass::Variables => color_var_local_spec(es),
        Pass::RelativeTransform => transform_local_spec(es),
        Pass::GuidsToIds => ids_local_spec(es),
        Pass::AlignFields => align_local_spec(es),
    }
}

/// 1 for an object at which pass `p` may put a new value as deep as the
/// object itself, 0 otherwise.
pub open spec fn trig(p: Pass, v: JsonV) -> nat {
    match p {
        Pass::RelativeTransform => transform_trig(v),
        Pass::AlignFields => align_trig(v),
        _ => 0,
    }
}

/// `c` comes before `v` in the order in which the walk of pass `p` descends.
pub open spec fn below(p: Pass, c: JsonV, v: JsonV) -> bool {
    height(c) < height(v) || (height(c) == height(v) && trig(p, c) < trig(p, v))
}

pub proof fn lemma_local_decreases(p: Pass, es: Entries)
    ensures
        forall|i: int|
            0 <= i < local_spec(p, es).len() ==> below(
                p,
                #[trigger] local_spec(p, es)[i].1,
                JsonV::Object(es),
            ),
{
    match p {
        Pass::VectorData => lemma_vector_data_local_decreases(es),
        Pass::RenamePaints => lemma_paints_local_decreases(es),
        Pass::RedundantProperties => lemma_redundant_local_decreases(es),
        Pass::NodeTypes => lemma_node_types_local_decreases(es),
        Pass::Variables => lemma_variables_local_decreases(es),
        Pass::RelativeTransform => lemma_transform_local_decreases(es),
        Pass::GuidsToIds => lemma_ids_local_decreases(es),
        Pass::AlignFields => {
            lemma_align_local_under(es);
            assert forall|i: int| 0 <= i < local_spec(p, es).len() implies below(
                p,
                #[trigger] local_spec(p, es)[i].1,
                JsonV::Object(es),
            ) by {
                assert(under_fn(JsonV::Object(es))(align_local_spec(es)[i].1));
            }
        },
    }
}

/// The document after pass `p`.
pub open spec fn transformed(v: JsonV, p: Pass) -> JsonV
    decreases height(v), trig(p, v),
{
    match v {
        JsonV::Object(es) => {
            let es1 = local_spec(p, es);
            proof {
                lemma_local_decreases(p, es);
            }
            JsonV::Object(
                Seq::new(
                    es1.len(),
                    |i: int|
                        if 0 <= i < es1.len() {
                            (es1[i].0, transformed(es1[i].1, p))
                        } else {
                            (Seq::empty(), JsonV::Null)
                        },
                ),
            )
        },
        JsonV::Array(items) => {
            proof {
                lemma_array_items_below(items);
            }
            JsonV::Array(
                Seq::new(
                    items.len(),
                    |i: int|
                        if 0 <= i < items.len() {
                            transformed(items[i], p)
                        } else {
                            JsonV::Null
                        },
                ),
            )
        },
        _ => v,
    }
}

fn apply_local(p: Pass, es: &mut Vec<(String, Json)>)
    ensures
        entries_view(final(es)@) == local_spec(p, entries_view(old(es)@)),
{
    match p {
        Pass::VectorData => vector_data_local(es),
        Pass::RenamePaints => paints_local(es),
        Pass::RedundantProperties => redundant_local(es),
        Pass::NodeTypes => node_types_local(es),
        Pass::Variables => color_var_local(es),
        Pass::RelativeTransform => transform_local(es),
        Pass::GuidsToIds => ids_local(es),
        Pass::AlignFields => align_local(es),
    }
}

/// Pass `p` over a document.
pub fn transform(value: Json, p: Pass) -> (r: Json)
    ensures
        r@ == transformed(value@, p),
    decreases height(value@), trig(p, value@),
{
    let ghost v = value@;
    match value {
        Json::Object(es) => {
            let mut es = es;
            let ghost es0 = entries_view(es@);
            apply_local(p, &mut es);
            let ghost es1 = entries_view(es@);
            proof {
                lemma_local_decreases(p, es0);
            }
            let n = es.len();
            let mut rev = reversed(es);
            let mut out: Vec<(String, Json)> = Vec::new();
            while rev.len() > 0
                invariant
                    out@.len() + rev@.len() == n,
                    n == es1.len(),
                    v == JsonV::Object(es0),
                    v == value@,
                    es1 == local_spec(p, es0),
                    forall|j: int| 0 <= j < es1.len() ==> below(p, #[trigger] es1[j].1, v),
                    forall|j: int|
                        0 <= j < rev@.len() ==> #[trigger] entries_view(rev@)[j] == es1[n - 1 - j],
                    forall|j: int|
                        0 <= j < out@.len() ==> #[trigger] entries_view(out@)[j] == (
                            es1[j].0,
                            transformed(es1[j].1, p),
                        ),
                decreases rev@.len(),
            {
                let ghost i = out@.len() as int;
                let ghost old_rev = rev@;
                assert(entries_view(old_rev)[old_rev.len() - 1] == es1[i]);
                let (k, x) = rev.pop().unwrap();
                assert(x@ == es1[i].1);
                assert(below(p, x@, v));
                let y = transform(x, p);
                proof {
                    lemma_entries_view_push(out@, (k, y));
                }
                out.push((k, y));
                assert forall|j: int| 0 <= j < rev@.len() implies #[trigger] entries_view(rev@)[j]
                    == es1[n - 1 - j] by {
                    assert(rev@[j] == old_rev[j]);
                    assert(entries_view(old_rev)[j] == es1[n - 1 - j]);
                }
            }
            proof {
                let target = transformed(v, p);
                assert(entries_view(out@) =~= target->Object_0);
            }
            Json::Object(out)
        },
        Json::Array(items) => {
            let ghost its = items_view(items@);
            proof {
                lemma_array_items_below(its);
            }
            let n = items.len();
            let mut rev = reversed(items);
            let mut out: Vec<Json> = Vec::new();
            while rev.len() > 0
                invariant
                    out@.len() + rev@.len() == n,
                    n == its.len(),
                    v == JsonV::Array(its),
                    v == value@,
                    forall|j: int| 0 <= j < its.len() ==> height(#[trigger] its[j]) < height(v),
                    forall|j: int|
                        0 <= j < rev@.len() ==> #[trigger] items_view(rev@)[j] == its[n - 1 - j],
                    forall|j: int|
                        0 <= j < out@.len() ==> #[trigger] items_view(out@)[j] == transformed(
                            its[j],
                            p,
                        ),
                decreases rev@.len(),
            {
                let ghost i = out@.len() as int;
                let ghost old_rev = rev@;
                assert(items_view(old_rev)[old_rev.len() - 1] == its[i]);
                let x = rev.pop().unwrap();
                assert(x@ == its[i]);
                assert(height(x@) < height(v));
                let y = transform(x, p);
                proof {
                    lemma_items_view_push(out@, y);
                }
                out.push(y);
                assert forall|j: int| 0 <= j < rev@.len() implies #[trigger] items_view(rev@)[j]
                    == its[n - 1 - j] by {
                    assert(rev@[j] == old_rev[j]);
                    assert(items_view(old_rev)[j] == its[n - 1 - j]);
                }
            }
            proof {
                let target = transformed(v, p);
                assert(items_view(out@) =~= target->Array_0);
            }
            Json::Array(out)
        },
        other => other,
    }
}

/// Pass `p` over the document in place.
pub fn transform_in_place(tree: &mut Json, p: Pass)
    ensures
        final(tree)@ == transformed(old(tree)@, p),
{
    let t = crate::json::take_json(tree);
    *tree = transform(t, p);
}

} // verus!

verus! {

/// Every object in `v`, at any depth and `v` itself included, has entries
/// that satisfy `q`.
pub open spec fn everywhere(v: JsonV, q: spec_fn(Entries) -> bool) -> bool
    decreases v, 0nat,
{
    match v {
        JsonV::Object(es) => q(es) && everywhere_entries(es, q),
        JsonV::Array(items) => everywhere_items(items, q),
        _ => true,
    }
}

pub open spec fn everywhere_items(items: Seq<JsonV>, q: spec_fn(Entries) -> bool) -> bool
    decreases items, items.len(),
{
    if items.len() == 0 {
        true
    } else {
        everywhere_items(items.drop_last(), q) && everywhere(items.last(), q)
    }
}

pub open spec fn everywhere_entries(es: Entries, q: spec_fn(Entries) -> bool) -> bool
    decreases es, es.len(),
{
    if es.len() == 0 {
        true
    } else {
        everywhere_entries(es.drop_last(), q) && everywhere(es.last().1, q)
    }
}

pub proof fn lemma_everywhere_items(items: Seq<JsonV>, q: spec_fn(Entries) -> bool)
    ensures
        everywhere_items(items, q) <==> forall|i: int|
            0 <= i < items.len() ==> #[trigger] everywhere(items[i], q),
    decreases items.len(),
{
    if items.len() > 0 {
        lemma_everywhere_items(items.drop_last(), q);
        if forall|i: int| 0 <= i < items.len() ==> #[trigger] everywhere(items[i], q) {
            assert forall|i: int| 0 <= i < items.drop_last().len() implies #[trigger] everywhere(
                items.drop_last()[i],
                q,
            ) by {
                assert(items.drop_last()[i] == items[i]);
            }
            assert(everywhere(items[items.len() - 1], q));
        }
        if everywhere_items(items, q) {
            assert forall|i: int| 0 <= i < items.len() implies #[trigger] everywhere(items[i], q) by {
                if i < items.len() - 1 {
                    assert(items.drop_last()[i] == items[i]);
                }
            }
        }
    }
}

pub proof fn lemma_everywhere_entries(es: Entries, q: spec_fn(Entries) -> bool)
    ensures
        everywhere_entries(es, q) <==> forall|i: int|
            0 <= i < es.len() ==> #[trigger] everywhere(es[i].1, q),
    decreases es.len(),
{
    if es.len() > 0 {
        lemma_everywhere_entries(es.drop_last(), q);
        if forall|i: int| 0 <= i < es.len() ==> #[trigger] everywhere(es[i].1, q) {
            assert forall|i: int| 0 <= i < es.drop_last().len() implies #[trigger] everywhere(
                es.drop_last()[i].1,
                q,
            ) by {
                assert(es.drop_last()[i] == es[i]);
            }
            assert(everywhere(es[es.len() - 1].1, q));
        }
        if everywhere_entries(es, q) {
            assert forall|i: int| 0 <= i < es.len() implies #[trigger] everywhere(es[i].1, q) by {
                if i < es.len() - 1 {
                    assert(es.drop_last()[i] == es[i]);
                }
            }
        }
    }
}

/// Entries that have no entry for any of the keys `ks`.
pub open spec fn lacks_all(ks: Seq<Seq<char>>) -> spec_fn(Entries) -> bool {
    |es: Entries| forall|j: int| 0 <= j < ks.len() ==> !entries_has(es, #[trigger] ks[j])
}

/// `es` and `fs` have the same keys in the same order.
pub open spec fn same_keys(es: Entries, fs: Entries) -> bool {
    es.len() == fs.len() && forall|i: int| 0 <= i < es.len() ==> #[trigger] es[i].0 == fs[i].0
}

/// Whether `q` holds of entries depends on their keys alone.
pub open spec fn key_stable(q: spec_fn(Entries) -> bool) -> bool {
    forall|es: Entries, fs: Entries| #![trigger q(es), q(fs)] same_keys(es, fs) ==> q(es) == q(fs)
}

pub proof fn lemma_same_keys_has(es: Entries, fs: Entries, k: Seq<char>)
    requires
        same_keys(es, fs),
    ensures
        entries_has(es, k) == entries_has(fs, k),
{
    lemma_get_none(es, k);
    lemma_get_none(fs, k);
    if entries_has(es, k) {
        let i = choose|i: int| 0 <= i < es.len() && es[i].0 == k;
        assert(fs[i].0 == k);
    }
    if entries_has(fs, k) {
        let i = choose|i: int| 0 <= i < fs.len() && fs[i].0 == k;
        assert(es[i].0 == k);
    }
}

pub proof fn lemma_lacks_all_stable(ks: Seq<Seq<char>>)
    ensures
        key_stable(lacks_all(ks)),
{
    assert forall|es: Entries, fs: Entries| #![trigger lacks_all(ks)(es), lacks_all(ks)(fs)]
        same_keys(es, fs) implies lacks_all(ks)(es) == lacks_all(ks)(fs) by {
        assert forall|j: int| 0 <= j < ks.len() implies entries_has(es, ks[j]) == entries_has(
            fs,
            ks[j],
        ) by {
            lemma_same_keys_has(es, fs, ks[j]);
        }
    }
}

/// The entries `es` with each value walked by pass `p`.
pub open spec fn walked(es: Entries, p: Pass) -> Entries {
    Seq::new(es.len(), |i: int| (es[i].0, transformed(es[i].1, p)))
}

/// Walking the values of entries by pass `p` keeps `q`.
pub open spec fn kept_by(q: spec_fn(Entries) -> bool, p: Pass) -> bool {
    forall|es: Entries| #[trigger] q(es) ==> q(walked(es, p))
}

pub proof fn lemma_key_stable_kept(q: spec_fn(Entries) -> bool, p: Pass)
    requires
        key_stable(q),
    ensures
        kept_by(q, p),
{
    assert forall|es: Entries| #[trigger] q(es) implies q(walked(es, p)) by {
        assert(same_keys(es, walked(es, p)));
    }
}

/// The object that pass `p` makes of the entries `es`.
pub proof fn lemma_transformed_object(es: Entries, p: Pass)
    ensures
        transformed(JsonV::Object(es), p) == JsonV::Object(walked(local_spec(p, es), p)),
{
    let es1 = local_spec(p, es);
    assert(transformed(JsonV::Object(es), p)->Object_0 =~= walked(es1, p));
}

/// Where every edit of pass `p` leaves entries satisfying `q`, and walking
/// the values keeps `q`, every object of the result satisfies it.
pub proof fn lemma_transformed_everywhere(v: JsonV, p: Pass, q: spec_fn(Entries) -> bool)
    requires
        kept_by(q, p),
        forall|es: Entries| #[trigger] q(local_spec(p, es)),
    ensures
        everywhere(transformed(v, p), q),
    decreases height(v), trig(p, v),
{
    match v {
        JsonV::Object(es) => {
            let es1 = local_spec(p, es);
            lemma_local_decreases(p, es);
            lemma_transformed_object(es, p);
            let es2 = walked(es1, p);
            assert(q(es1));
            assert(q(es2));
            assert forall|i: int| 0 <= i < es2.len() implies #[trigger] everywhere(es2[i].1, q) by {
                assert(below(p, es1[i].1, v));
                lemma_transformed_everywhere(es1[i].1, p, q);
            }
            lemma_everywhere_entries(es2, q);
        },
        JsonV::Array(items) => {
            lemma_array_items_below(items);
            let r = transformed(v, p)->Array_0;
            assert forall|i: int| 0 <= i < r.len() implies #[trigger] everywhere(r[i], q) by {
                lemma_transformed_everywhere(items[i], p, q);
            }
            lemma_everywhere_items(r, q);
        },
        _ => {},
    }
}

/// Where every edit of pass `p` leaves entries satisfying `q`, walking the
/// values keeps `q`, and `p` leaves alone the objects that satisfy it, a
/// second run of `p` changes nothing.
pub proof fn lemma_transformed_idempotent(v: JsonV, p: Pass, q: spec_fn(Entries) -> bool)
    requires
        kept_by(q, p),
        forall|es: Entries| #[trigger] q(local_spec(p, es)),
        forall|es: Entries| q(es) ==> #[trigger] local_spec(p, es) == es,
    ensures
        transformed(transformed(v, p), p) == transformed(v, p),
    decreases height(v), trig(p, v),
{
    match v {
        JsonV::Object(es) => {
            let es1 = local_spec(p, es);
            lemma_local_decreases(p, es);
            lemma_transformed_object(es, p);
            let es2 = walked(es1, p);
            assert(q(es1));
            assert(q(es2));
            assert(local_spec(p, es2) == es2);
            lemma_transformed_object(es2, p);
            let es3 = walked(es2, p);
            assert forall|i: int| 0 <= i < es3.len() implies #[trigger] es3[i] == es2[i] by {
                assert(below(p, es1[i].1, v));
                lemma_transformed_idempotent(es1[i].1, p, q);
            }
            assert(es3 =~= es2);
        },
        JsonV::Array(items) => {
            lemma_array_items_below(items);
            let r = transformed(v, p)->Array_0;
            let r2 = transformed(JsonV::Array(r), p)->Array_0;
            assert forall|i: int| 0 <= i < r2.len() implies #[trigger] r2[i] == r[i] by {
                lemma_transformed_idempotent(items[i], p, q);
            }
            assert(r2 =~= r);
        },
        _ => {},
    }
}

} // verus!

verus! {

/// A pass leaves a scalar as it is, and keeps an array an array of the same
/// length and an object an object.
pub proof fn lemma_transformed_shape(v: JsonV, p: Pass)
    ensures
        !(v is Object) && !(v is Array) ==> transformed(v, p) == v,
        v is Array ==> transformed(v, p) is Array && transformed(v, p)->Array_0.len()
            == v->Array_0.len(),
        v is Array ==> forall|i: int|
            0 <= i < v->Array_0.len() ==> #[trigger] transformed(v, p)->Array_0[i] == transformed(
                v->Array_0[i],
                p,
            ),
        v is Object ==> transformed(v, p) is Object,
{
}

/// The member `k` of walked entries is the member `k` of the entries, walked.
pub proof fn lemma_get_walked(es: Entries, p: Pass, k: Seq<char>)
    ensures
        crate::json::entries_get(walked(es, p), k) == match crate::json::entries_get(es, k) {
            Some(x) => Some(transformed(x, p)),
            None => None,
        },
    decreases es.len(),
{
    if es.len() > 0 {
        assert(walked(es, p).drop_first() =~= walked(es.drop_first(), p));
        lemma_get_walked(es.drop_first(), p, k);
    }
}

} // verus!

verus! {

pub proof fn lemma_same_keys_has_walked(es: Entries, p: Pass, k: Seq<char>)
    ensures
        entries_has(walked(es, p), k) == entries_has(es, k),
{
    lemma_same_keys_has(es, walked(es, p), k);
}

} // verus!

verus! {

/// `q` holds of every object in a value.
pub open spec fn everywhere_fn(q: spec_fn(Entries) -> bool) -> spec_fn(JsonV) -> bool {
    |x: JsonV| everywhere(x, q)
}

/// Where each edit of pass `p`, applied to an object that satisfies `q` and
/// whose values satisfy `q` everywhere, gives the same, and walking keeps
/// `q`, a document that satisfies `q` everywhere is turned into one that
/// does too.
pub proof fn lemma_transformed_keeps(v: JsonV, p: Pass, q: spec_fn(Entries) -> bool)
    requires
        kept_by(q, p),
        everywhere(v, q),
        forall|es: Entries|
            q(es) && crate::json::all_values(es, everywhere_fn(q)) ==> #[trigger] q(local_spec(p, es))
                && crate::json::all_values(local_spec(p, es), everywhere_fn(q)),
    ensures
        everywhere(transformed(v, p), q),
    decreases height(v), trig(p, v),
{
    match v {
        JsonV::Object(es) => {
            let es1 = local_spec(p, es);
            lemma_local_decreases(p, es);
            lemma_transformed_object(es, p);
            lemma_everywhere_entries(es, q);
            assert(crate::json::all_values(es, everywhere_fn(q))) by {
                assert forall|i: int| 0 <= i < es.len() implies #[trigger] everywhere_fn(q)(es[i].1) by {}
            }
            assert(q(es1));
            let es2 = walked(es1, p);
            assert(q(es2));
            assert forall|i: int| 0 <= i < es2.len() implies #[trigger] everywhere(es2[i].1, q) by {
                assert(below(p, es1[i].1, v));
                assert(everywhere_fn(q)(es1[i].1));
                lemma_transformed_keeps(es1[i].1, p, q);
            }
            lemma_everywhere_entries(es2, q);
        },
        JsonV::Array(items) => {
            lemma_array_items_below(items);
            lemma_everywhere_items(items, q);
            let r = transformed(v, p)->Array_0;
            assert forall|i: int| 0 <= i < r.len() implies #[trigger] everywhere(r[i], q) by {
                lemma_transformed_keeps(items[i], p, q);
            }
            lemma_everywhere_items(r, q);
        },
        _ => {},
    }
}

/// Entries whose keys are distinct.
pub open spec fn distinct_fn() -> spec_fn(Entries) -> bool {
    |es: Entries| crate::json::distinct_keys(es)
}

pub proof fn lemma_distinct_stable()
    ensures
        key_stable(distinct_fn()),
{
    let q = distinct_fn();
    assert forall|es: Entries, fs: Entries| #![trigger q(es), q(fs)] same_keys(es, fs) implies q(es) == q(fs) by {
        if q(es) {
            assert forall|i: int, j: int| 0 <= i < j < fs.len() implies #[trigger] fs[i].0 != #[trigger] fs[j].0 by {
                assert(es[i].0 != es[j].0);
            }
        }
        if q(fs) {
            assert forall|i: int, j: int| 0 <= i < j < es.len() implies #[trigger] es[i].0 != #[trigger] es[j].0 by {
                assert(fs[i].0 != fs[j].0);
            }
        }
    }
}

} // verus!

verus! {

/// Where `q1` implies `q2` of every object, so does `q1` everywhere imply
/// `q2` everywhere.
pub proof fn lemma_everywhere_weaken(x: JsonV, q1: spec_fn(Entries) -> bool, q2: spec_fn(Entries) -> bool)
    requires
        everywhere(x, q1),
        forall|es: Entries| #[trigger] q1(es) ==> q2(es),
    ensures
        everywhere(x, q2),
    decreases height(x),
{
    match x {
        JsonV::Object(es) => {
            crate::json::lemma_object_values_below(es);
            lemma_everywhere_entries(es, q1);
            assert forall|i: int| 0 <= i < es.len() implies #[trigger] everywhere(es[i].1, q2) by {
                lemma_everywhere_weaken(es[i].1, q1, q2);
            }
            lemma_everywhere_entries(es, q2);
        },
        JsonV::Array(items) => {
            lemma_array_items_below(items);
            lemma_everywhere_items(items, q1);
            assert forall|i: int| 0 <= i < items.len() implies #[trigger] everywhere(items[i], q2) by {
                lemma_everywhere_weaken(items[i], q1, q2);
            }
            lemma_everywhere_items(items, q2);
        },
        _ => {},
    }
}

} // verus!
