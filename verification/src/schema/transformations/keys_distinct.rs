//! Every transformation keeps the members of every object under distinct
//! keys: an object never comes to hold two entries for one key.
use vstd::prelude::*;
use crate::json::{
    all_values, distinct_keys, entries_get, entries_insert, entries_remove, jget, lemma_all_values_insert,
    lemma_all_values_remove, lemma_all_values_rename, lemma_get_all_values, lemma_insert_distinct, lemma_remove_distinct, lemma_rename_distinct, oget, rename_key, Entries, JsonV,
};
use crate::schema::transformations::alias::{alias_object, official_alias};
use crate::schema::transformations::field_alignment::{
    align_local_spec, auto_layout_step, background_step, bindings, bound_variables,
    bound_variables_step, cleanup_step, clips_step, constraint_value, constraints_object,
    constraints_step, consumption_entries, font_renamed, layout_mode_step, mask_disabled, mode_text,
    object_entries, padding_step, property_arrays_step, radii_step, radius_value, reference_id,
    renames_step, solid_fill_color, style_step, styles_step, symbol_step, text_step,
    transparent_black, with_default_array,
};
use crate::schema::transformations::id_transformation::{guid_step, id_text, ids_local_spec};
use crate::schema::transformations::relative_transform::{has_m00, matrix_entry, official_matrix};
use crate::schema::transformations::traversal::{
    distinct_fn, everywhere, everywhere_fn, lemma_distinct_stable, lemma_everywhere_entries,
    lemma_everywhere_items, lemma_key_stable_kept, lemma_transformed_keeps, local_spec, transformed,
    Pass,
};
use crate::schema::transformations::variables_transformation::{color_binding, color_var_local_spec};

verus! {

/// A value whose objects, at any depth, have distinct keys.
pub open spec fn well_keyed(x: JsonV) -> bool {
    everywhere(x, distinct_fn())
}

/// Entries with distinct keys whose values are well keyed.
pub open spec fn keyed(es: Entries) -> bool {
    distinct_keys(es) && all_values(es, everywhere_fn(distinct_fn()))
}

proof fn lemma_object_keyed(es: Entries)
    ensures
        well_keyed(JsonV::Object(es)) == keyed(es),
{
    lemma_everywhere_entries(es, distinct_fn());
    if keyed(es) {
        assert forall|i: int| 0 <= i < es.len() implies #[trigger] everywhere(es[i].1, distinct_fn()) by {
            assert(everywhere_fn(distinct_fn())(es[i].1));
        }
    }
    if well_keyed(JsonV::Object(es)) {
        assert forall|i: int| 0 <= i < es.len() implies #[trigger] everywhere_fn(distinct_fn())(es[i].1) by {
            assert(everywhere(es[i].1, distinct_fn()));
        }
    }
}

proof fn lemma_member_keyed(x: JsonV, k: Seq<char>)
    requires
        well_keyed(x),
    ensures
        jget(x, k) matches Some(y) ==> well_keyed(y),
{
    if let JsonV::Object(xe) = x {
        if let Some(y) = entries_get(xe, k) {
            lemma_object_keyed(xe);
            lemma_get_all_values(xe, k, everywhere_fn(distinct_fn()));
            assert(everywhere_fn(distinct_fn())(y));
        }
    }
}

proof fn lemma_get_keyed(es: Entries, k: Seq<char>)
    requires
        keyed(es),
    ensures
        entries_get(es, k) matches Some(y) ==> well_keyed(y),
{
    if let Some(y) = entries_get(es, k) {
        lemma_get_all_values(es, k, everywhere_fn(distinct_fn()));
        assert(everywhere_fn(distinct_fn())(y));
    }
}

proof fn lemma_insert_keyed(es: Entries, k: Seq<char>, x: JsonV)
    requires
        keyed(es),
        well_keyed(x),
    ensures
        keyed(entries_insert(es, k, x)),
{
    lemma_insert_distinct(es, k, x);
    assert(everywhere_fn(distinct_fn())(x));
    lemma_all_values_insert(es, k, x, everywhere_fn(distinct_fn()));
}

proof fn lemma_remove_keyed(es: Entries, k: Seq<char>)
    requires
        keyed(es),
    ensures
        keyed(entries_remove(es, k)),
{
    lemma_remove_distinct(es, k);
    lemma_all_values_remove(es, k, everywhere_fn(distinct_fn()));
}

proof fn lemma_rename_keyed(es: Entries, from: Seq<char>, to: Seq<char>)
    requires
        keyed(es),
    ensures
        keyed(rename_key(es, from, to)),
{
    lemma_rename_distinct(es, from, to);
    lemma_all_values_rename(es, from, to, everywhere_fn(distinct_fn()));
}

proof fn lemma_pair_keyed(a: Seq<char>, x: JsonV, b: Seq<char>, y: JsonV)
    requires
        a != b,
        well_keyed(x),
        well_keyed(y),
    ensures
        well_keyed(JsonV::Object(seq![(a, x), (b, y)])),
{
    let es = seq![(a, x), (b, y)];
    assert(es =~= entries_insert(entries_insert(Seq::empty(), a, x), b, y)) by {
        lemma_remove_absent_empty(a);
        let e1 = Seq::<(Seq<char>, JsonV)>::empty().push((a, x));
        crate::json::lemma_get_none(e1, b);
        assert(e1[0].0 != b);
        crate::json::lemma_remove_absent(e1, b);
    }
    lemma_empty_keyed();
    lemma_insert_keyed(Seq::empty(), a, x);
    lemma_insert_keyed(entries_insert(Seq::empty(), a, x), b, y);
    lemma_object_keyed(es);
}

proof fn lemma_remove_absent_empty(k: Seq<char>)
    ensures
        entries_remove(Seq::<(Seq<char>, JsonV)>::empty(), k) == Seq::<(Seq<char>, JsonV)>::empty(),
{
}

proof fn lemma_empty_keyed()
    ensures
        keyed(Seq::empty()),
{
}

proof fn lemma_scalars_keyed(items: Seq<JsonV>)
    requires
        forall|i: int| 0 <= i < items.len() ==> !(#[trigger] items[i] is Object) && !(items[i] is Array),
    ensures
        well_keyed(JsonV::Array(items)),
{
    lemma_everywhere_items(items, distinct_fn());
    assert forall|i: int| 0 <= i < items.len() implies #[trigger] everywhere(items[i], distinct_fn()) by {
        assert(!(items[i] is Object) && !(items[i] is Array));
    }
}

proof fn lemma_alias_keyed(id: Seq<char>)
    ensures
        well_keyed(alias_object(id)),
{
    reveal_strlit("type");
    reveal_strlit("id");
    assert("type"@.len() != "id"@.len());
    lemma_pair_keyed("type"@, JsonV::Str("VARIABLE_ALIAS"@), "id"@, JsonV::Str(id));
}

proof fn lemma_official_alias_keyed(v: JsonV)
    ensures
        official_alias(v) matches Some(a) ==> well_keyed(a),
{
    if let Some(a) = official_alias(v) {
        let id = crate::schema::transformations::alias::alias_id(
            jget(entries_get(v->Object_0, "value"@)->0, "alias"@)->0,
        )->0;
        assert(a == alias_object(id));
        lemma_alias_keyed(id);
    }
}

proof fn lemma_single_keyed(k: Seq<char>, x: JsonV)
    requires
        well_keyed(x),
    ensures
        well_keyed(JsonV::Object(seq![(k, x)])),
{
    let es = seq![(k, x)];
    assert(es =~= entries_insert(Seq::empty(), k, x)) by {
        lemma_remove_absent_empty(k);
    }
    lemma_empty_keyed();
    lemma_insert_keyed(Seq::empty(), k, x);
    lemma_object_keyed(es);
}

proof fn lemma_color_binding_keyed(a: JsonV)
    requires
        well_keyed(a),
    ensures
        well_keyed(color_binding(a)),
{
    lemma_single_keyed("color"@, a);
}

// ---------------------------------------------------------------------------
// The edits of the passes
// ---------------------------------------------------------------------------

proof fn lemma_variables_keyed(es: Entries)
    requires
        keyed(es),
    ensures
        keyed(color_var_local_spec(es)),
{
    if let Some(cv) = entries_get(es, "colorVar"@) {
        lemma_remove_keyed(es, "colorVar"@);
        lemma_official_alias_keyed(cv);
        if let Some(a) = official_alias(cv) {
            lemma_color_binding_keyed(a);
            lemma_insert_keyed(entries_remove(es, "colorVar"@), "boundVariables"@, color_binding(a));
        }
    }
}

proof fn lemma_matrix_keyed(t: JsonV)
    ensures
        well_keyed(official_matrix(t)),
{
    let r0 = seq![matrix_entry(t, "m00"@, crate::number::ONE_BITS), matrix_entry(t, "m01"@, crate::number::ZERO_BITS), matrix_entry(t, "m02"@, crate::number::ZERO_BITS)];
    let r1 = seq![matrix_entry(t, "m10"@, crate::number::ZERO_BITS), matrix_entry(t, "m11"@, crate::number::ONE_BITS), matrix_entry(t, "m12"@, crate::number::ZERO_BITS)];
    lemma_scalars_keyed(r0);
    lemma_scalars_keyed(r1);
    let m = seq![JsonV::Array(r0), JsonV::Array(r1)];
    lemma_everywhere_items(m, distinct_fn());
}

proof fn lemma_transform_keyed(es: Entries)
    requires
        keyed(es),
    ensures
        keyed(crate::schema::transformations::relative_transform::transform_local_spec(es)),
{
    if let Some(t) = entries_get(es, "transform"@) {
        lemma_get_keyed(es, "transform"@);
        lemma_matrix_keyed(t);
        lemma_remove_keyed(es, "transform"@);
        let x = if has_m00(t) { official_matrix(t) } else { t };
        lemma_insert_keyed(entries_remove(es, "transform"@), "relativeTransform"@, x);
    }
}

proof fn lemma_ids_keyed(es: Entries)
    requires
        keyed(es),
    ensures
        keyed(ids_local_spec(es)),
{
    if let Some(g) = entries_get(es, "guid"@) {
        lemma_get_keyed(es, "guid"@);
        let r = entries_remove(es, "guid"@);
        lemma_remove_keyed(es, "guid"@);
        lemma_insert_keyed(r, "guid"@, g);
        if let Some(s) = id_text(g) {
            lemma_insert_keyed(r, "id"@, JsonV::Str(s));
        }
    }
    let es1 = guid_step(es);
    assert(keyed(es1));
    let l = ids_local_spec(es);
    assert forall|i: int, j: int| 0 <= i < j < l.len() implies #[trigger] l[i].0 != #[trigger] l[j].0 by {
        assert(es1[i].0 != es1[j].0);
    }
    assert forall|i: int| 0 <= i < l.len() implies #[trigger] everywhere_fn(distinct_fn())(l[i].1) by {
        assert(everywhere_fn(distinct_fn())(es1[i].1));
    }
}

proof fn lemma_types_keyed(es: Entries)
    requires
        keyed(es),
    ensures
        keyed(crate::schema::transformations::type_alignment::node_types_local_spec(es)),
{
    lemma_insert_keyed(es, "type"@, JsonV::Str("COMPONENT_SET"@));
    lemma_insert_keyed(es, "type"@, JsonV::Str("COMPONENT"@));
    lemma_insert_keyed(es, "type"@, JsonV::Str("RECTANGLE"@));
}

proof fn lemma_redundant_keyed(es: Entries)
    requires
        keyed(es),
    ensures
        keyed(crate::schema::transformations::redundant_properties_removal::redundant_local_spec(es)),
{
    lemma_remove_keyed(es, "isPageDivider"@);
    lemma_remove_keyed(entries_remove(es, "isPageDivider"@), "dashPattern"@);
}

proof fn lemma_local_keyed(p: Pass, es: Entries)
    requires
        keyed(es),
    ensures
        keyed(local_spec(p, es)),
{
    match p {
        Pass::VectorData => lemma_remove_keyed(es, "vectorData"@),
        Pass::RenamePaints => {
            lemma_rename_keyed(es, "fillPaints"@, "fills"@);
            lemma_rename_keyed(rename_key(es, "fillPaints"@, "fills"@), "strokePaints"@, "strokes"@);
        },
        Pass::RedundantProperties => lemma_redundant_keyed(es),
        Pass::NodeTypes => lemma_types_keyed(es),
        Pass::Variables => lemma_variables_keyed(es),
        Pass::RelativeTransform => lemma_transform_keyed(es),
        Pass::GuidsToIds => lemma_ids_keyed(es),
        Pass::AlignFields => lemma_align_keyed(es),
    }
}

/// No pass makes an object hold two entries for one key: a document whose
/// objects have distinct keys at every depth is turned into one whose
/// objects do too.
pub proof fn lemma_keys_stay_distinct(v: JsonV, p: Pass)
    requires
        everywhere(v, distinct_fn()),
    ensures
        everywhere(transformed(v, p), distinct_fn()),
{
    lemma_distinct_stable();
    lemma_key_stable_kept(distinct_fn(), p);
    assert forall|es: Entries|
        distinct_fn()(es) && all_values(es, everywhere_fn(distinct_fn())) implies #[trigger] distinct_fn()(
        local_spec(p, es),
    ) && all_values(local_spec(p, es), everywhere_fn(distinct_fn())) by {
        lemma_local_keyed(p, es);
    }
    lemma_transformed_keeps(v, p, distinct_fn());
}

} // verus!

verus! {

// ---------------------------------------------------------------------------
// The steps of field alignment
// ---------------------------------------------------------------------------

proof fn lemma_padding_keyed(es: Entries, from: Seq<char>, a: Seq<char>, b: Seq<char>)
    requires
        keyed(es),
    ensures
        keyed(padding_step(es, from, a, b)),
{
    if let Some(p) = entries_get(es, from) {
        lemma_get_keyed(es, from);
        let r = entries_remove(es, from);
        lemma_remove_keyed(es, from);
        lemma_insert_keyed(r, a, p);
        lemma_insert_keyed(entries_insert(r, a, p), b, p);
    }
}

proof fn lemma_auto_layout_keyed(es: Entries)
    requires
        keyed(es),
    ensures
        keyed(auto_layout_step(es)),
{
    if let Some(m) = entries_get(es, "stackMode"@) {
        lemma_remove_keyed(es, "stackMode"@);
        lemma_insert_keyed(entries_remove(es, "stackMode"@), "layoutMode"@, JsonV::Str(mode_text(m)));
    }
    let l1 = layout_mode_step(es);
    lemma_rename_keyed(l1, "stackSpacing"@, "itemSpacing"@);
    let l2 = rename_key(l1, "stackSpacing"@, "itemSpacing"@);
    lemma_padding_keyed(l2, "stackHorizontalPadding"@, "paddingLeft"@, "paddingRight"@);
    lemma_padding_keyed(
        padding_step(l2, "stackHorizontalPadding"@, "paddingLeft"@, "paddingRight"@),
        "stackVerticalPadding"@,
        "paddingTop"@,
        "paddingBottom"@,
    );
}

proof fn lemma_font_keyed(s: JsonV)
    requires
        well_keyed(s),
    ensures
        well_keyed(JsonV::Object(font_renamed(object_entries(s)))),
{
    let e = object_entries(s);
    if let JsonV::Object(se) = s {
        lemma_object_keyed(se);
    } else {
        lemma_empty_keyed();
    }
    lemma_rename_keyed(e, "family"@, "fontFamily"@);
    lemma_rename_keyed(rename_key(e, "family"@, "fontFamily"@), "postscript"@, "fontPostScriptName"@);
    lemma_object_keyed(font_renamed(e));
}

proof fn lemma_text_keyed(es: Entries)
    requires
        keyed(es),
    ensures
        keyed(text_step(es)),
{
    let td = entries_get(es, "textData"@);
    lemma_get_keyed(es, "textData"@);
    let es1 = match oget(td, "characters"@) {
        Some(c) => entries_insert(es, "characters"@, c),
        None => es,
    };
    if let Some(t) = td {
        lemma_member_keyed(t, "characters"@);
        lemma_member_keyed(t, "style"@);
    }
    if let Some(c) = oget(td, "characters"@) {
        lemma_insert_keyed(es, "characters"@, c);
    }
    if let Some(s) = oget(td, "style"@) {
        lemma_font_keyed(s);
        lemma_insert_keyed(es1, "style"@, JsonV::Object(font_renamed(object_entries(s))));
    }
}

proof fn lemma_symbol_keyed(es: Entries)
    requires
        keyed(es),
    ensures
        keyed(symbol_step(es)),
{
    if let Some(sd) = entries_get(es, "symbolData"@) {
        lemma_get_keyed(es, "symbolData"@);
        lemma_member_keyed(sd, "symbolOverrides"@);
        let cid = match jget(sd, "symbolID"@) {
            Some(sid) => reference_id(sid),
            None => None,
        };
        let es1 = match cid {
            Some(c) => entries_insert(es, "componentId"@, JsonV::Str(c)),
            None => es,
        };
        if let Some(c) = cid {
            lemma_insert_keyed(es, "componentId"@, JsonV::Str(c));
        }
        if let Some(o) = jget(sd, "symbolOverrides"@) {
            lemma_insert_keyed(es1, "overrides"@, o);
        }
    }
}

proof fn lemma_constraint_value_keyed(o: Option<JsonV>)
    requires
        o matches Some(x) ==> well_keyed(x),
    ensures
        well_keyed(constraint_value(o)),
{
    if let Some(x) = o {
        lemma_member_keyed(x, "value"@);
    }
}

proof fn lemma_constraints_keyed(es: Entries)
    requires
        keyed(es),
    ensures
        keyed(constraints_step(es)),
{
    let h = entries_get(es, "horizontalConstraint"@);
    let v = entries_get(es, "verticalConstraint"@);
    lemma_get_keyed(es, "horizontalConstraint"@);
    lemma_get_keyed(es, "verticalConstraint"@);
    let r0 = entries_remove(es, "horizontalConstraint"@);
    lemma_remove_keyed(es, "horizontalConstraint"@);
    lemma_remove_keyed(r0, "verticalConstraint"@);
    lemma_constraint_value_keyed(h);
    lemma_constraint_value_keyed(v);
    reveal_strlit("horizontal");
    reveal_strlit("vertical");
    assert("horizontal"@.len() != "vertical"@.len());
    lemma_pair_keyed("horizontal"@, constraint_value(h), "vertical"@, constraint_value(v));
    lemma_insert_keyed(entries_remove(r0, "verticalConstraint"@), "constraints"@, constraints_object(h, v));
}

proof fn lemma_radii_keyed(es: Entries)
    requires
        keyed(es),
    ensures
        keyed(radii_step(es)),
{
    let tl = entries_get(es, "rectangleTopLeftCornerRadius"@);
    let tr = entries_get(es, "rectangleTopRightCornerRadius"@);
    let br = entries_get(es, "rectangleBottomRightCornerRadius"@);
    let bl = entries_get(es, "rectangleBottomLeftCornerRadius"@);
    let items = seq![radius_value(tl), radius_value(tr), radius_value(br), radius_value(bl)];
    lemma_scalars_keyed(items);
    lemma_insert_keyed(es, "rectangleCornerRadii"@, JsonV::Array(items));
}

proof fn lemma_clips_keyed(es: Entries)
    requires
        keyed(es),
    ensures
        keyed(clips_step(es)),
{
    if let Some(md) = entries_get(es, "frameMaskDisabled"@) {
        lemma_remove_keyed(es, "frameMaskDisabled"@);
        lemma_insert_keyed(entries_remove(es, "frameMaskDisabled"@), "clipsContent"@, JsonV::Bool(!mask_disabled(md)));
    }
}

proof fn lemma_bindings_keyed(items: Seq<JsonV>)
    ensures
        keyed(bindings(items).0),
        keyed(bindings(items).1),
    decreases items.len(),
{
    if items.len() == 0 {
        lemma_empty_keyed();
    } else {
        lemma_bindings_keyed(items.drop_last());
        let acc = bindings(items.drop_last());
        let e = items.last();
        if let (Some(f), Some(d)) = (jget(e, "variableField"@), jget(e, "variableData"@)) {
            lemma_official_alias_keyed(d);
            if let Some(a) = official_alias(d) {
                lemma_scalars_keyed(Seq::empty());
                lemma_everywhere_items(seq![a], distinct_fn());
                assert(everywhere(seq![a][0], distinct_fn()));
                let n = crate::schema::transformations::field_alignment::field_name(f);
                lemma_insert_keyed(acc.0, "fills"@, JsonV::Array(seq![a]));
                lemma_insert_keyed(acc.0, "strokes"@, JsonV::Array(seq![a]));
                lemma_insert_keyed(acc.0, "cornerRadius"@, a);
                lemma_insert_keyed(acc.1, n, a);
                lemma_insert_keyed(acc.0, crate::text::lowercase(n), a);
            }
        }
    }
}

proof fn lemma_bound_variables_keyed(es: Entries)
    requires
        keyed(es),
    ensures
        keyed(bound_variables_step(es)),
{
    if let Some(vm) = entries_get(es, "variableConsumptionMap"@) {
        let es1 = entries_remove(es, "variableConsumptionMap"@);
        lemma_remove_keyed(es, "variableConsumptionMap"@);
        let b = bindings(consumption_entries(vm));
        lemma_bindings_keyed(consumption_entries(vm));
        lemma_object_keyed(b.1);
        lemma_insert_keyed(b.0, "rectangleCornerRadii"@, JsonV::Object(b.1));
        let bv = bound_variables(vm);
        assert(keyed(bv));
        lemma_object_keyed(bv);
        lemma_insert_keyed(es1, "boundVariables"@, JsonV::Object(bv));
    }
}

proof fn lemma_background_keyed(es: Entries)
    requires
        keyed(es),
    ensures
        keyed(background_step(es)),
{
    if let Some(JsonV::Array(f)) = entries_get(es, "fills"@) {
        lemma_get_keyed(es, "fills"@);
        if f.len() > 0 {
            lemma_everywhere_items(f, distinct_fn());
            assert(everywhere(f[0], distinct_fn()));
            lemma_member_keyed(f[0], "color"@);
        }
    }
    let z = JsonV::Number(crate::json::JsonNumber::Float(crate::number::ZERO_BITS));
    let tb = seq![("r"@, z), ("g"@, z), ("b"@, z), ("a"@, z)];
    assert(crate::json::distinct_keys(tb)) by {
        reveal_strlit("r");
        reveal_strlit("g");
        reveal_strlit("b");
        reveal_strlit("a");
        assert("r"@[0] == 'r' && "g"@[0] == 'g' && "b"@[0] == 'b' && "a"@[0] == 'a');
    }
    assert(all_values(tb, everywhere_fn(distinct_fn())));
    lemma_object_keyed(tb);
    if let Some(c) = solid_fill_color(es) {
        lemma_insert_keyed(es, "backgroundColor"@, c);
        lemma_insert_keyed(entries_insert(es, "backgroundColor"@, c), "backgroundColor"@, transparent_black());
    }
    lemma_insert_keyed(es, "backgroundColor"@, transparent_black());
}

proof fn lemma_style_step_keyed(acc: (Entries, Entries), old: Seq<char>, new: Seq<char>)
    requires
        keyed(acc.0),
        keyed(acc.1),
    ensures
        keyed(style_step(acc, old, new).0),
        keyed(style_step(acc, old, new).1),
{
    if let Some(sid) = entries_get(acc.0, old) {
        lemma_remove_keyed(acc.0, old);
        if let Some(id) = reference_id(sid) {
            lemma_insert_keyed(acc.1, new, JsonV::Str(id));
        }
    }
}

proof fn lemma_styles_keyed(es: Entries)
    requires
        keyed(es),
    ensures
        keyed(styles_step(es)),
{
    lemma_empty_keyed();
    let a0: (Entries, Entries) = (es, Seq::empty());
    let a1 = style_step(a0, "styleIdForFill"@, "fill"@);
    let a2 = style_step(a1, "styleIdForText"@, "text"@);
    let a3 = style_step(a2, "styleIdForStrokeFill"@, "stroke"@);
    let a4 = style_step(a3, "styleIdForEffect"@, "effect"@);
    lemma_style_step_keyed(a0, "styleIdForFill"@, "fill"@);
    lemma_style_step_keyed(a1, "styleIdForText"@, "text"@);
    lemma_style_step_keyed(a2, "styleIdForStrokeFill"@, "stroke"@);
    lemma_style_step_keyed(a3, "styleIdForEffect"@, "effect"@);
    lemma_object_keyed(a4.1);
    lemma_insert_keyed(a4.0, "styles"@, JsonV::Object(a4.1));
}

proof fn lemma_tail_keyed(es: Entries, is_node: bool)
    requires
        keyed(es),
    ensures
        keyed(cleanup_step(property_arrays_step(renames_step(es), is_node))),
{
    let r1 = rename_key(es, "prototypeInteractions"@, "interactions"@);
    let r2 = rename_key(r1, "stackChildAlignSelf"@, "layoutAlign"@);
    lemma_rename_keyed(es, "prototypeInteractions"@, "interactions"@);
    lemma_rename_keyed(r1, "stackChildAlignSelf"@, "layoutAlign"@);
    lemma_rename_keyed(r2, "stackChildPrimaryGrow"@, "layoutGrow"@);
    let y = renames_step(es);
    lemma_scalars_keyed(Seq::empty());
    let e = JsonV::Array(Seq::empty());
    let d1 = with_default_array(y, "fills"@);
    let d2 = with_default_array(d1, "strokes"@);
    let d3 = with_default_array(d2, "effects"@);
    lemma_insert_keyed(y, "fills"@, e);
    lemma_insert_keyed(d1, "strokes"@, e);
    lemma_insert_keyed(d2, "effects"@, e);
    lemma_insert_keyed(d3, "interactions"@, e);
    let x = property_arrays_step(y, is_node);
    let c1 = entries_remove(x, "parameterConsumptionMap"@);
    lemma_remove_keyed(x, "parameterConsumptionMap"@);
    lemma_remove_keyed(c1, "derivedSymbolData"@);
    lemma_remove_keyed(entries_remove(c1, "derivedSymbolData"@), "sharedSymbolVersion"@);
}

proof fn lemma_align_keyed(es: Entries)
    requires
        keyed(es),
    ensures
        keyed(align_local_spec(es)),
{
    let is_node = crate::json::entries_has(es, "type"@);
    let es1 = auto_layout_step(es);
    let es2 = text_step(es1);
    let es3 = symbol_step(es2);
    let es4 = constraints_step(es3);
    let es5 = radii_step(es4);
    let es6 = clips_step(es5);
    let es7 = bound_variables_step(es6);
    let es8 = color_var_local_spec(es7);
    let es9 = background_step(es8);
    let es10 = styles_step(es9);
    lemma_auto_layout_keyed(es);
    lemma_text_keyed(es1);
    lemma_symbol_keyed(es2);
    lemma_constraints_keyed(es3);
    lemma_radii_keyed(es4);
    lemma_clips_keyed(es5);
    lemma_bound_variables_keyed(es6);
    lemma_variables_keyed(es7);
    lemma_background_keyed(es8);
    lemma_styles_keyed(es9);
    lemma_tail_keyed(es10, is_node);
}

} // verus!

verus! {

// ---------------------------------------------------------------------------
// The document tree
// ---------------------------------------------------------------------------

proof fn lemma_build_keyed(
    nodes: Seq<JsonV>,
    g: crate::schema::tree::Guid,
    prefix: Option<Seq<char>>,
    fuel: nat,
)
    requires
        forall|i: int| 0 <= i < nodes.len() ==> well_keyed(#[trigger] nodes[i]),
        crate::schema::tree::build(nodes, g, prefix, fuel) is Ok,
    ensures
        well_keyed(crate::schema::tree::build(nodes, g, prefix, fuel)->Ok_0.0),
    decreases fuel, 0nat,
{
    crate::schema::tree::lemma_last_index(nodes, g);
    let node = crate::schema::tree::lookup(nodes, g)->0;
    if let JsonV::Object(es) = node {
        let es1 = entries_remove(es, "parentIndex"@);
        let idv = JsonV::Str(crate::schema::tree::node_id(prefix, g));
        let es2 = entries_insert(es1, "id"@, idv);
        let f1 = (fuel - 1) as nat;
        lemma_object_keyed(es);
        lemma_remove_keyed(es, "parentIndex"@);
        lemma_insert_keyed(es1, "id"@, idv);
        let inst = match crate::schema::tree::instance_symbol(es2) {
            Some(sk) => crate::schema::tree::build_all(
                nodes,
                crate::schema::tree::child_entries(nodes, sk),
                Some(crate::schema::tree::expansion_prefix(prefix, g)),
                f1,
            ),
            None => Ok(Seq::empty()),
        };
        if let Some(sk) = crate::schema::tree::instance_symbol(es2) {
            lemma_build_all_keyed(
                nodes,
                crate::schema::tree::child_entries(nodes, sk),
                Some(crate::schema::tree::expansion_prefix(prefix, g)),
                f1,
            );
        }
        let a = inst->Ok_0;
        let b = crate::schema::tree::build_all(nodes, crate::schema::tree::child_entries(nodes, g), prefix, f1)->Ok_0;
        lemma_build_all_keyed(nodes, crate::schema::tree::child_entries(nodes, g), prefix, f1);
        let all = a + b;
        let kids = crate::schema::tree::firsts(all);
        lemma_everywhere_items(kids, distinct_fn());
        assert forall|i: int| 0 <= i < kids.len() implies #[trigger] everywhere(kids[i], distinct_fn()) by {
            if i < a.len() {
                assert(all[i] == a[i]);
            } else {
                assert(all[i] == b[i - a.len()]);
            }
        }
        lemma_insert_keyed(es2, "children"@, JsonV::Array(kids));
        lemma_object_keyed(es2);
        lemma_object_keyed(entries_insert(es2, "children"@, JsonV::Array(kids)));
    }
}

proof fn lemma_build_all_keyed(
    nodes: Seq<JsonV>,
    list: Seq<crate::schema::tree::ChildEntry>,
    prefix: Option<Seq<char>>,
    fuel: nat,
)
    requires
        forall|i: int| 0 <= i < nodes.len() ==> well_keyed(#[trigger] nodes[i]),
        crate::schema::tree::build_all(nodes, list, prefix, fuel) is Ok,
    ensures
        forall|i: int|
            0 <= i < crate::schema::tree::build_all(nodes, list, prefix, fuel)->Ok_0.len() ==> well_keyed(
                #[trigger] crate::schema::tree::build_all(nodes, list, prefix, fuel)->Ok_0[i].0,
            ),
    decreases fuel, list.len(),
{
    if list.len() > 0 {
        lemma_build_all_keyed(nodes, list.drop_last(), prefix, fuel);
        lemma_build_keyed(nodes, list.last().1, prefix, fuel);
        let rs = crate::schema::tree::build_all(nodes, list.drop_last(), prefix, fuel)->Ok_0;
        let r = crate::schema::tree::build(nodes, list.last().1, prefix, fuel)->Ok_0;
        assert forall|i: int| 0 <= i < rs.push(r).len() implies well_keyed(#[trigger] rs.push(r)[i].0) by {
            if i < rs.len() {
                assert(rs.push(r)[i] == rs[i]);
            }
        }
    }
}

/// Where every node change has distinct keys at every depth, so does the
/// document tree built of them.
pub proof fn lemma_tree_keys_distinct(nodes: Seq<JsonV>)
    requires
        forall|i: int| 0 <= i < nodes.len() ==> everywhere(#[trigger] nodes[i], distinct_fn()),
        crate::schema::tree::tree_of(nodes) is Ok,
    ensures
        everywhere(crate::schema::tree::tree_of(nodes)->Ok_0.0, distinct_fn()),
{
    assert forall|i: int| 0 <= i < nodes.len() implies well_keyed(#[trigger] nodes[i]) by {
        assert(everywhere(nodes[i], distinct_fn()));
    }
    lemma_build_keyed(nodes, (0, 0), None, nodes.len());
}

} // verus!
