//! Renaming of `transform` to `relativeTransform`, in the REST API's matrix form.
use vstd::prelude::*;
use crate::error::FigError;
use crate::json::{
    entries_contains, entries_get, entries_has, entries_insert, entries_put, entries_remove,
    entries_take, entries_view, height, items_height, items_view, jget, lemma_get_below,
    lemma_has_insert, lemma_has_remove,
    lemma_object_values_below, lemma_remove_absent, lemma_remove_values_below, Entries, Json, JsonV,
};
use crate::number::{double_json, double_value, ONE_BITS, ZERO_BITS};
use crate::schema::transformations::traversal::{
    below, everywhere, kept_by, lacks_all, lemma_key_stable_kept, lemma_lacks_all_stable,
    lemma_transformed_everywhere, lemma_transformed_idempotent, local_spec, transform_in_place,
    transformed, trig, Pass,
};
use crate::text::owned;

verus! {

/// The double of member `k` of a transform, or `d`, as a JSON value.
pub open spec fn matrix_entry(t: JsonV, k: Seq<char>, d: u64) -> JsonV {
    double_value(jget(t, k), d)
}

/// `[[m00, m01, m02], [m10, m11, m12]]`, each entry defaulting to the
/// identity's.
pub open spec fn official_matrix(t: JsonV) -> JsonV {
    JsonV::Array(
        seq![
            JsonV::Array(seq![matrix_entry(t, "m00"@, ONE_BITS), matrix_entry(t, "m01"@, ZERO_BITS), matrix_entry(t, "m02"@, ZERO_BITS)]),
            JsonV::Array(seq![matrix_entry(t, "m10"@, ZERO_BITS), matrix_entry(t, "m11"@, ONE_BITS), matrix_entry(t, "m12"@, ZERO_BITS)]),
        ],
    )
}

pub open spec fn has_m00(t: JsonV) -> bool {
    match t {
        JsonV::Object(o) => entries_has(o, "m00"@),
        _ => false,
    }
}

/// The edit of one object: `transform` moves to `relativeTransform`, as a
/// matrix where it has an `m00` member.
pub open spec fn transform_local_spec(es: Entries) -> Entries {
    match entries_get(es, "transform"@) {
        Some(t) => entries_insert(
            entries_remove(es, "transform"@),
            "relativeTransform"@,
            if has_m00(t) {
                official_matrix(t)
            } else {
                t
            },
        ),
        None => es,
    }
}

/// 1 for an object with a `transform` member.
pub open spec fn transform_trig(v: JsonV) -> nat {
    match v {
        JsonV::Object(es) => if entries_has(es, "transform"@) {
            1
        } else {
            0
        },
        _ => 0,
    }
}

proof fn lemma_scalar_row_height(a: JsonV, b: JsonV, c: JsonV)
    requires
        height(a) == 0,
        height(b) == 0,
        height(c) == 0,
    ensures
        height(JsonV::Array(seq![a, b, c])) == 1,
{
    let s = seq![a, b, c];
    assert(s.drop_last() =~= seq![a, b]);
    assert(s.drop_last().drop_last() =~= seq![a]);
    assert(s.drop_last().drop_last().drop_last() =~= Seq::<JsonV>::empty());
    assert(seq![a].drop_last() =~= Seq::<JsonV>::empty());
    assert(seq![a].last() == a);
    assert(items_height(Seq::<JsonV>::empty()) == 0);
    assert(items_height(seq![a]) == 0);
    assert(seq![a, b].last() == b);
    assert(items_height(seq![a, b]) == 0);
}

pub proof fn lemma_official_matrix_height(t: JsonV)
    ensures
        height(official_matrix(t)) == 2,
{
    let r0 = JsonV::Array(seq![matrix_entry(t, "m00"@, ONE_BITS), matrix_entry(t, "m01"@, ZERO_BITS), matrix_entry(t, "m02"@, ZERO_BITS)]);
    let r1 = JsonV::Array(seq![matrix_entry(t, "m10"@, ZERO_BITS), matrix_entry(t, "m11"@, ONE_BITS), matrix_entry(t, "m12"@, ZERO_BITS)]);
    lemma_scalar_row_height(matrix_entry(t, "m00"@, ONE_BITS), matrix_entry(t, "m01"@, ZERO_BITS), matrix_entry(t, "m02"@, ZERO_BITS));
    lemma_scalar_row_height(matrix_entry(t, "m10"@, ZERO_BITS), matrix_entry(t, "m11"@, ONE_BITS), matrix_entry(t, "m12"@, ZERO_BITS));
    let s = seq![r0, r1];
    assert(s.drop_last() =~= seq![r0]);
    assert(s.drop_last().drop_last() =~= Seq::<JsonV>::empty());
    assert(seq![r0].drop_last() =~= Seq::<JsonV>::empty());
    assert(seq![r0].last() == r0);
    assert(items_height(Seq::<JsonV>::empty()) == 0);
    assert(items_height(seq![r0]) == 1);
    assert(s.last() == r1);
}

pub proof fn lemma_transform_local_decreases(es: Entries)
    ensures
        forall|i: int|
            0 <= i < transform_local_spec(es).len() ==> below(
                Pass::RelativeTransform,
                #[trigger] transform_local_spec(es)[i].1,
                JsonV::Object(es),
            ),
{
    let v = JsonV::Object(es);
    let h = height(v);
    lemma_object_values_below(es);
    if let Some(t) = entries_get(es, "transform"@) {
        lemma_get_below(es, "transform"@);
        let es1 = entries_remove(es, "transform"@);
        lemma_remove_values_below(es, "transform"@, h);
        lemma_remove_values_below(es1, "relativeTransform"@, h);
        let x = if has_m00(t) { official_matrix(t) } else { t };
        lemma_official_matrix_height(t);
        assert(trig(Pass::RelativeTransform, v) == 1);
        assert(below(Pass::RelativeTransform, x, v));
        let r = entries_remove(es1, "relativeTransform"@);
        assert forall|i: int| 0 <= i < r.push(("relativeTransform"@, x)).len() implies below(
            Pass::RelativeTransform,
            #[trigger] r.push(("relativeTransform"@, x))[i].1,
            v,
        ) by {
            if i < r.len() {
                assert(r.push(("relativeTransform"@, x))[i] == r[i]);
            }
        }
    }
}

fn matrix_cell(t: &Json, key: &str, default: u64) -> (r: Json)
    ensures
        r@ == matrix_entry(t@, key@, default),
{
    double_json(t.get(key), default)
}

fn official_matrix_of(t: &Json) -> (r: Json)
    ensures
        r@ == official_matrix(t@),
{
    let mut row0: Vec<Json> = Vec::new();
    row0.push(matrix_cell(t, "m00", ONE_BITS));
    row0.push(matrix_cell(t, "m01", ZERO_BITS));
    row0.push(matrix_cell(t, "m02", ZERO_BITS));
    let mut row1: Vec<Json> = Vec::new();
    row1.push(matrix_cell(t, "m10", ZERO_BITS));
    row1.push(matrix_cell(t, "m11", ONE_BITS));
    row1.push(matrix_cell(t, "m12", ZERO_BITS));
    let ghost v0 = items_view(row0@);
    let ghost v1 = items_view(row1@);
    let mut m: Vec<Json> = Vec::new();
    m.push(Json::Array(row0));
    m.push(Json::Array(row1));
    proof {
        let target = official_matrix(t@);
        assert(v0 =~= target->Array_0[0]->Array_0);
        assert(v1 =~= target->Array_0[1]->Array_0);
        assert(items_view(m@) =~= target->Array_0);
    }
    Json::Array(m)
}

/// Moves `transform` to `relativeTransform`.
pub fn transform_local(es: &mut Vec<(String, Json)>)
    ensures
        entries_view(final(es)@) == transform_local_spec(entries_view(old(es)@)),
{
    let ghost before = entries_view(es@);
    if let Some(t) = entries_take(es, "transform") {
        let is_matrix = match &t {
            Json::Object(o) => entries_contains(o, "m00"),
            _ => false,
        };
        let new_val = if is_matrix {
            official_matrix_of(&t)
        } else {
            t
        };
        entries_put(es, owned("relativeTransform"), new_val);
    } else {
        proof {
            lemma_remove_absent(before, "transform"@);
        }
    }
}

/// The document with every `transform` renamed.
pub open spec fn with_relative_transforms(v: JsonV) -> JsonV {
    transformed(v, Pass::RelativeTransform)
}

/// Rename transform to relativeTransform for Figma REST API compatibility
pub fn rename_transform(tree: &mut Json) -> (r: Result<(), FigError>)
    ensures
        r is Ok,
        final(tree)@ == with_relative_transforms(old(tree)@),
{
    transform_in_place(tree, Pass::RelativeTransform);
    Ok(())
}

/// The keys that the renaming leaves nowhere.
pub open spec fn transform_keys() -> Seq<Seq<char>> {
    seq!["transform"@]
}

proof fn lemma_transform_local_facts()
    ensures
        kept_by(lacks_all(transform_keys()), Pass::RelativeTransform),
        forall|es: Entries| #[trigger] lacks_all(transform_keys())(local_spec(Pass::RelativeTransform, es)),
        forall|es: Entries|
            lacks_all(transform_keys())(es) ==> #[trigger] local_spec(Pass::RelativeTransform, es) == es,
{
    let ks = transform_keys();
    lemma_lacks_all_stable(ks);
    lemma_key_stable_kept(lacks_all(ks), Pass::RelativeTransform);
    reveal_strlit("transform");
    reveal_strlit("relativeTransform");
    assert("transform"@.len() != "relativeTransform"@.len());
    assert forall|es: Entries| #[trigger] lacks_all(ks)(local_spec(Pass::RelativeTransform, es)) by {
        if let Some(t) = entries_get(es, "transform"@) {
            let x = if has_m00(t) { official_matrix(t) } else { t };
            let es1 = entries_remove(es, "transform"@);
            lemma_has_remove(es, "transform"@, "transform"@);
            lemma_has_insert(es1, "relativeTransform"@, x, "transform"@);
        }
        assert(!entries_has(local_spec(Pass::RelativeTransform, es), ks[0]));
    }
    assert forall|es: Entries| lacks_all(ks)(es) implies #[trigger] local_spec(
        Pass::RelativeTransform,
        es,
    ) == es by {
        assert(!entries_has(es, ks[0]));
    }
}

/// No object of the result, at any depth, has a `transform` member.
pub proof fn lemma_no_transform_left(v: JsonV)
    ensures
        everywhere(with_relative_transforms(v), lacks_all(transform_keys())),
{
    lemma_transform_local_facts();
    lemma_transformed_everywhere(v, Pass::RelativeTransform, lacks_all(transform_keys()));
}

/// Renaming a second time changes nothing.
pub proof fn lemma_transform_renaming_idempotent(v: JsonV)
    ensures
        with_relative_transforms(with_relative_transforms(v)) == with_relative_transforms(v),
{
    lemma_transform_local_facts();
    lemma_transformed_idempotent(v, Pass::RelativeTransform, lacks_all(transform_keys()));
}

} // verus!

verus! {

pub open spec fn digit_char(d: int) -> char {
    if d == 0 {
        '0'
    } else if d == 1 {
        '1'
    } else {
        '2'
    }
}

/// The name `m{i}{j}` of the member that cell (i, j) of the matrix reads.
pub open spec fn matrix_member(i: int, j: int) -> Seq<char> {
    seq!['m', digit_char(i), digit_char(j)]
}

/// Cell (i, j) of the identity matrix, as the bit pattern of a double.
pub open spec fn identity_bits(i: int, j: int) -> u64 {
    if i == j {
        ONE_BITS
    } else {
        ZERO_BITS
    }
}

/// Where an object's `transform` is an object with an `m00` member, the
/// renaming leaves no `transform` there and puts under `relativeTransform`
/// two rows of three cells, cell (i, j) being member `m{i}{j}` of the
/// transform as a double, or the identity's cell where it has none.
pub proof fn lemma_relative_transform_cells(es: Entries, t: JsonV)
    requires
        entries_get(es, "transform"@) == Some(t),
        t is Object,
        entries_has(t->Object_0, "m00"@),
    ensures
        !entries_has(with_relative_transforms(JsonV::Object(es))->Object_0, "transform"@),
        jget(with_relative_transforms(JsonV::Object(es)), "relativeTransform"@) matches Some(JsonV::Array(rows))
            && rows.len() == 2 && forall|i: int, j: int|
            0 <= i < 2 && 0 <= j < 3 ==> rows[i] is Array && rows[i]->Array_0.len() == 3
                && #[trigger] rows[i]->Array_0[j] == double_value(jget(t, matrix_member(i, j)), identity_bits(i, j)),
{
    let p = Pass::RelativeTransform;
    let es1 = transform_local_spec(es);
    let m = official_matrix(t);
    assert(has_m00(t));
    assert(es1 == entries_insert(entries_remove(es, "transform"@), "relativeTransform"@, m));
    crate::schema::transformations::traversal::lemma_transformed_object(es, p);
    crate::schema::transformations::traversal::lemma_get_walked(es1, p, "relativeTransform"@);
    crate::json::lemma_insert_get(entries_remove(es, "transform"@), "relativeTransform"@, m, "relativeTransform"@);
    crate::schema::transformations::traversal::lemma_same_keys_has_walked(es1, p, "transform"@);
    reveal_strlit("transform");
    reveal_strlit("relativeTransform");
    assert("transform"@.len() != "relativeTransform"@.len());
    lemma_has_insert(entries_remove(es, "transform"@), "relativeTransform"@, m, "transform"@);
    lemma_has_remove(es, "transform"@, "transform"@);
    // The matrix holds scalars only, which the walk leaves as they are.
    crate::schema::transformations::traversal::lemma_transformed_shape(m, p);
    let r0 = m->Array_0[0];
    let r1 = m->Array_0[1];
    crate::schema::transformations::traversal::lemma_transformed_shape(r0, p);
    crate::schema::transformations::traversal::lemma_transformed_shape(r1, p);
    assert forall|i: int, j: int| 0 <= i < 2 && 0 <= j < 3 implies !(#[trigger] m->Array_0[i]->Array_0[j] is Object)
        && !(m->Array_0[i]->Array_0[j] is Array) by {}
    assert forall|j: int| 0 <= j < 3 implies #[trigger] transformed(r0->Array_0[j], p) == r0->Array_0[j] by {
        crate::schema::transformations::traversal::lemma_transformed_shape(r0->Array_0[j], p);
    }
    assert forall|j: int| 0 <= j < 3 implies #[trigger] transformed(r1->Array_0[j], p) == r1->Array_0[j] by {
        crate::schema::transformations::traversal::lemma_transformed_shape(r1->Array_0[j], p);
    }
    assert(transformed(r0, p)->Array_0 =~= r0->Array_0);
    assert(transformed(r1, p)->Array_0 =~= r1->Array_0);
    assert(transformed(m, p)->Array_0 =~= m->Array_0);
    assert(transformed(m, p) == m);
    reveal_strlit("m00");
    reveal_strlit("m01");
    reveal_strlit("m02");
    reveal_strlit("m10");
    reveal_strlit("m11");
    reveal_strlit("m12");
    assert(matrix_member(0, 0) =~= "m00"@);
    assert(matrix_member(0, 1) =~= "m01"@);
    assert(matrix_member(0, 2) =~= "m02"@);
    assert(matrix_member(1, 0) =~= "m10"@);
    assert(matrix_member(1, 1) =~= "m11"@);
    assert(matrix_member(1, 2) =~= "m12"@);
}

/// A `transform` that is no object with an `m00` member moves to
/// `relativeTransform` as it is, walked like any other member.
pub proof fn lemma_relative_transform_kept(es: Entries, t: JsonV)
    requires
        entries_get(es, "transform"@) == Some(t),
        !(t is Object && entries_has(t->Object_0, "m00"@)),
    ensures
        jget(with_relative_transforms(JsonV::Object(es)), "relativeTransform"@) == Some(with_relative_transforms(t)),
{
    let p = Pass::RelativeTransform;
    let es1 = transform_local_spec(es);
    assert(!has_m00(t));
    crate::schema::transformations::traversal::lemma_transformed_object(es, p);
    crate::schema::transformations::traversal::lemma_get_walked(es1, p, "relativeTransform"@);
    crate::json::lemma_insert_get(entries_remove(es, "transform"@), "relativeTransform"@, t, "relativeTransform"@);
}

} // verus!
