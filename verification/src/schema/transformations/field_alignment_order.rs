//! The order in which field alignment descends: each value of an edited
//! object is shallower than the object, or as deep but without the keys that
//! make the edit add new values.
use vstd::prelude::*;
use crate::json::{
    all_values, entries_get, entries_has, entries_insert, entries_remove, height, items_height,
    jget, lemma_all_values_insert, lemma_all_values_remove, lemma_array_items_below,
    lemma_entries_height_le, lemma_get_all_values, lemma_get_none, lemma_has_insert,
    lemma_has_remove, lemma_insert_values_below, lemma_items_height_bound,
    lemma_items_height_from_below, lemma_jget_below, lemma_object_values_below,
    oget, rename_key, values_below, Entries, JsonV,
};
use crate::schema::transformations::alias::lemma_official_alias_height;
use crate::schema::transformations::alias::official_alias;
use crate::schema::transformations::field_alignment::{
    align_local_spec, auto_layout_step, background_step, bindings, bound_variables,
    bound_variables_step, cleanup_step, clips_step, consumption_entries, constraint_value,
    constraints_object, constraints_step, font_renamed, layout_mode_step, nonzero_number,
    object_entries, padding_step, property_arrays_step, radii_step, radius_value, renames_step,
    solid_fill_color, style_step, styles_step, symbol_step, text_step, transparent_black,
    with_default_array,
};
use crate::schema::transformations::variables_transformation::{
    color_binding, color_var_local_spec, lemma_color_binding_height,
};

verus! {

/// The keys at which field alignment may add a new value as deep as the object.
pub open spec fn is_trig_key(k: Seq<char>) -> bool {
    k == "type"@ || k == "horizontalConstraint"@ || k == "verticalConstraint"@
        || k == "rectangleTopLeftCornerRadius"@ || k == "rectangleTopRightCornerRadius"@
        || k == "rectangleBottomRightCornerRadius"@ || k == "rectangleBottomLeftCornerRadius"@
        || k == "styleIdForFill"@ || k == "styleIdForText"@ || k == "styleIdForStrokeFill"@
        || k == "styleIdForEffect"@
}

pub open spec fn has_trig_key(es: Entries) -> bool {
    entries_has(es, "type"@) || entries_has(es, "horizontalConstraint"@) || entries_has(es, "verticalConstraint"@)
        || entries_has(es, "rectangleTopLeftCornerRadius"@) || entries_has(es, "rectangleTopRightCornerRadius"@)
        || entries_has(es, "rectangleBottomRightCornerRadius"@) || entries_has(es, "rectangleBottomLeftCornerRadius"@)
        || entries_has(es, "styleIdForFill"@) || entries_has(es, "styleIdForText"@)
        || entries_has(es, "styleIdForStrokeFill"@) || entries_has(es, "styleIdForEffect"@)
}

/// 1 for an object with one of those keys.
pub open spec fn align_trig(v: JsonV) -> nat {
    match v {
        JsonV::Object(es) => if has_trig_key(es) {
            1
        } else {
            0
        },
        _ => 0,
    }
}

/// A key whose length and first letters differ from every key of
/// `is_trig_key`.
pub proof fn lemma_not_trig_key(k: Seq<char>)
    requires
        k.len() != 16 && k.len() != 18 && k.len() != 28 && k.len() != 29 && k.len() != 31
            && k.len() != 32,
        k.len() == 4 ==> k[1] != 'y',
        k.len() == 14 ==> k[0] != 's',
        k.len() == 20 ==> k[0] != 'h' && k[0] != 's',
    ensures
        !is_trig_key(k),
{
    reveal_strlit("type");
    reveal_strlit("horizontalConstraint");
    reveal_strlit("verticalConstraint");
    reveal_strlit("rectangleTopLeftCornerRadius");
    reveal_strlit("rectangleTopRightCornerRadius");
    reveal_strlit("rectangleBottomRightCornerRadius");
    reveal_strlit("rectangleBottomLeftCornerRadius");
    reveal_strlit("styleIdForFill");
    reveal_strlit("styleIdForText");
    reveal_strlit("styleIdForStrokeFill");
    reveal_strlit("styleIdForEffect");
    assert("type"@.len() == 4 && "type"@[1] == 'y');
    assert("horizontalConstraint"@.len() == 20 && "horizontalConstraint"@[0] == 'h');
    assert("verticalConstraint"@.len() == 18);
    assert("rectangleTopLeftCornerRadius"@.len() == 28);
    assert("rectangleTopRightCornerRadius"@.len() == 29);
    assert("rectangleBottomRightCornerRadius"@.len() == 32);
    assert("rectangleBottomLeftCornerRadius"@.len() == 31);
    assert("styleIdForFill"@.len() == 14 && "styleIdForFill"@[0] == 's');
    assert("styleIdForText"@.len() == 14 && "styleIdForText"@[0] == 's');
    assert("styleIdForStrokeFill"@.len() == 20 && "styleIdForStrokeFill"@[0] == 's');
    assert("styleIdForEffect"@.len() == 16);
}

pub proof fn lemma_fresh_keys_not_trig()
    ensures
        !is_trig_key("layoutMode"@),
        !is_trig_key("itemSpacing"@),
        !is_trig_key("paddingLeft"@),
        !is_trig_key("paddingRight"@),
        !is_trig_key("paddingTop"@),
        !is_trig_key("paddingBottom"@),
        !is_trig_key("characters"@),
        !is_trig_key("style"@),
        !is_trig_key("componentId"@),
        !is_trig_key("overrides"@),
        !is_trig_key("constraints"@),
        !is_trig_key("rectangleCornerRadii"@),
        !is_trig_key("clipsContent"@),
        !is_trig_key("boundVariables"@),
        !is_trig_key("backgroundColor"@),
        !is_trig_key("styles"@),
        !is_trig_key("interactions"@),
        !is_trig_key("layoutAlign"@),
        !is_trig_key("layoutGrow"@),
        !is_trig_key("fills"@),
        !is_trig_key("strokes"@),
        !is_trig_key("effects"@),
        !is_trig_key("horizontal"@),
        !is_trig_key("vertical"@),
        !is_trig_key("r"@),
        !is_trig_key("g"@),
        !is_trig_key("b"@),
        !is_trig_key("a"@),
        !is_trig_key("fill"@),
        !is_trig_key("text"@),
        !is_trig_key("stroke"@),
        !is_trig_key("effect"@),
{
    reveal_strlit("layoutMode");
    assert("layoutMode"@.len() == 10);
    lemma_not_trig_key("layoutMode"@);
    reveal_strlit("itemSpacing");
    assert("itemSpacing"@.len() == 11);
    lemma_not_trig_key("itemSpacing"@);
    reveal_strlit("paddingLeft");
    assert("paddingLeft"@.len() == 11);
    lemma_not_trig_key("paddingLeft"@);
    reveal_strlit("paddingRight");
    assert("paddingRight"@.len() == 12);
    lemma_not_trig_key("paddingRight"@);
    reveal_strlit("paddingTop");
    assert("paddingTop"@.len() == 10);
    lemma_not_trig_key("paddingTop"@);
    reveal_strlit("paddingBottom");
    assert("paddingBottom"@.len() == 13);
    lemma_not_trig_key("paddingBottom"@);
    reveal_strlit("characters");
    assert("characters"@.len() == 10);
    lemma_not_trig_key("characters"@);
    reveal_strlit("style");
    assert("style"@.len() == 5);
    lemma_not_trig_key("style"@);
    reveal_strlit("componentId");
    assert("componentId"@.len() == 11);
    lemma_not_trig_key("componentId"@);
    reveal_strlit("overrides");
    assert("overrides"@.len() == 9);
    lemma_not_trig_key("overrides"@);
    reveal_strlit("constraints");
    assert("constraints"@.len() == 11);
    lemma_not_trig_key("constraints"@);
    reveal_strlit("rectangleCornerRadii");
    assert("rectangleCornerRadii"@.len() == 20 && "rectangleCornerRadii"@[0] == 'r' && "rectangleCornerRadii"@[1] == 'e');
    lemma_not_trig_key("rectangleCornerRadii"@);
    reveal_strlit("clipsContent");
    assert("clipsContent"@.len() == 12);
    lemma_not_trig_key("clipsContent"@);
    reveal_strlit("boundVariables");
    assert("boundVariables"@.len() == 14 && "boundVariables"@[0] == 'b' && "boundVariables"@[1] == 'o');
    lemma_not_trig_key("boundVariables"@);
    reveal_strlit("backgroundColor");
    assert("backgroundColor"@.len() == 15);
    lemma_not_trig_key("backgroundColor"@);
    reveal_strlit("styles");
    assert("styles"@.len() == 6);
    lemma_not_trig_key("styles"@);
    reveal_strlit("interactions");
    assert("interactions"@.len() == 12);
    lemma_not_trig_key("interactions"@);
    reveal_strlit("layoutAlign");
    assert("layoutAlign"@.len() == 11);
    lemma_not_trig_key("layoutAlign"@);
    reveal_strlit("layoutGrow");
    assert("layoutGrow"@.len() == 10);
    lemma_not_trig_key("layoutGrow"@);
    reveal_strlit("fills");
    assert("fills"@.len() == 5);
    lemma_not_trig_key("fills"@);
    reveal_strlit("strokes");
    assert("strokes"@.len() == 7);
    lemma_not_trig_key("strokes"@);
    reveal_strlit("effects");
    assert("effects"@.len() == 7);
    lemma_not_trig_key("effects"@);
    reveal_strlit("horizontal");
    assert("horizontal"@.len() == 10);
    lemma_not_trig_key("horizontal"@);
    reveal_strlit("vertical");
    assert("vertical"@.len() == 8);
    lemma_not_trig_key("vertical"@);
    reveal_strlit("r");
    assert("r"@.len() == 1);
    lemma_not_trig_key("r"@);
    reveal_strlit("g");
    assert("g"@.len() == 1);
    lemma_not_trig_key("g"@);
    reveal_strlit("b");
    assert("b"@.len() == 1);
    lemma_not_trig_key("b"@);
    reveal_strlit("a");
    assert("a"@.len() == 1);
    lemma_not_trig_key("a"@);
    reveal_strlit("fill");
    assert("fill"@.len() == 4 && "fill"@[0] == 'f' && "fill"@[1] == 'i');
    lemma_not_trig_key("fill"@);
    reveal_strlit("text");
    assert("text"@.len() == 4 && "text"@[0] == 't' && "text"@[1] == 'e');
    lemma_not_trig_key("text"@);
    reveal_strlit("stroke");
    assert("stroke"@.len() == 6);
    lemma_not_trig_key("stroke"@);
    reveal_strlit("effect");
    assert("effect"@.len() == 6);
    lemma_not_trig_key("effect"@);
}


// ---------------------------------------------------------------------------
// The descent order
// ---------------------------------------------------------------------------

/// `x` comes before `v` in the descent of field alignment.
pub open spec fn under(x: JsonV, v: JsonV) -> bool {
    height(x) < height(v) || (height(x) == height(v) && align_trig(x) < align_trig(v))
}

pub open spec fn under_fn(v: JsonV) -> spec_fn(JsonV) -> bool {
    |x: JsonV| under(x, v)
}

/// Every key of `m` that may add a value as deep as the object is a key of `es`.
pub open spec fn keys_kept(m: Entries, es: Entries) -> bool {
    forall|t: Seq<char>| #![trigger entries_has(m, t)] is_trig_key(t) && entries_has(m, t) ==> entries_has(es, t)
}

/// What each step of the edit of `es` keeps of the entries `m` it works on.
pub open spec fn inv(m: Entries, es: Entries) -> bool {
    all_values(m, under_fn(JsonV::Object(es))) && keys_kept(m, es)
}

proof fn lemma_inv_remove(m: Entries, k: Seq<char>, es: Entries)
    requires
        inv(m, es),
    ensures
        inv(entries_remove(m, k), es),
{
    lemma_all_values_remove(m, k, under_fn(JsonV::Object(es)));
    assert forall|t: Seq<char>| #![trigger entries_has(entries_remove(m, k), t)] is_trig_key(t) && entries_has(entries_remove(m, k), t) implies entries_has(es, t) by {
        lemma_has_remove(m, k, t);
    }
}

proof fn lemma_inv_insert(m: Entries, k: Seq<char>, x: JsonV, es: Entries)
    requires
        inv(m, es),
        under(x, JsonV::Object(es)),
        !is_trig_key(k),
    ensures
        inv(entries_insert(m, k, x), es),
{
    lemma_all_values_insert(m, k, x, under_fn(JsonV::Object(es)));
    assert forall|t: Seq<char>| #![trigger entries_has(entries_insert(m, k, x), t)] is_trig_key(t) && entries_has(entries_insert(m, k, x), t) implies entries_has(es, t) by {
        lemma_has_insert(m, k, x, t);
    }
}

proof fn lemma_member_under(m: Entries, k: Seq<char>, es: Entries)
    requires
        inv(m, es),
        entries_get(m, k) is Some,
    ensures
        under(entries_get(m, k)->0, JsonV::Object(es)),
{
    lemma_get_all_values(m, k, under_fn(JsonV::Object(es)));
}

proof fn lemma_inv_rename(m: Entries, from: Seq<char>, to: Seq<char>, es: Entries)
    requires
        inv(m, es),
        !is_trig_key(to),
    ensures
        inv(rename_key(m, from, to), es),
{
    if let Some(x) = entries_get(m, from) {
        lemma_member_under(m, from, es);
        lemma_inv_remove(m, from, es);
        lemma_inv_insert(entries_remove(m, from), to, x, es);
    }
}

proof fn lemma_child_under(x: JsonV, k: Seq<char>, v: JsonV)
    requires
        under(x, v),
        jget(x, k) is Some,
    ensures
        height(jget(x, k)->0) < height(v),
        under(jget(x, k)->0, v),
{
    lemma_jget_below(x, k);
}

proof fn lemma_flat(x: JsonV, y: JsonV, v: JsonV)
    requires
        under(x, v),
        height(y) <= height(x),
        align_trig(y) == 0,
    ensures
        under(y, v),
{
}

proof fn lemma_trig_of_key(m: Entries, es: Entries, k: Seq<char>)
    requires
        keys_kept(m, es),
        is_trig_key(k),
        entries_has(m, k),
    ensures
        align_trig(JsonV::Object(es)) == 1,
{
    assert(entries_has(es, k));
}

proof fn lemma_shallow(y: JsonV, v: JsonV)
    requires
        v is Object,
        height(y) <= 1,
        align_trig(y) == 0,
        align_trig(v) == 1,
    ensures
        under(y, v),
{
}

/// An object none of whose keys is a trigger key.
pub proof fn lemma_no_trig_keys(es: Entries)
    requires
        forall|i: int| 0 <= i < es.len() ==> !is_trig_key(#[trigger] es[i].0),
    ensures
        !has_trig_key(es),
        align_trig(JsonV::Object(es)) == 0,
{
    lemma_get_none(es, "type"@);
    lemma_get_none(es, "horizontalConstraint"@);
    lemma_get_none(es, "verticalConstraint"@);
    lemma_get_none(es, "rectangleTopLeftCornerRadius"@);
    lemma_get_none(es, "rectangleTopRightCornerRadius"@);
    lemma_get_none(es, "rectangleBottomRightCornerRadius"@);
    lemma_get_none(es, "rectangleBottomLeftCornerRadius"@);
    lemma_get_none(es, "styleIdForFill"@);
    lemma_get_none(es, "styleIdForText"@);
    lemma_get_none(es, "styleIdForStrokeFill"@);
    lemma_get_none(es, "styleIdForEffect"@);
}

// ---------------------------------------------------------------------------
// Step by step
// ---------------------------------------------------------------------------

proof fn lemma_padding(m: Entries, from: Seq<char>, a: Seq<char>, b: Seq<char>, es: Entries)
    requires
        inv(m, es),
        !is_trig_key(a),
        !is_trig_key(b),
    ensures
        inv(padding_step(m, from, a, b), es),
{
    if let Some(p) = entries_get(m, from) {
        lemma_member_under(m, from, es);
        lemma_inv_remove(m, from, es);
        lemma_inv_insert(entries_remove(m, from), a, p, es);
        lemma_inv_insert(entries_insert(entries_remove(m, from), a, p), b, p, es);
    }
}

proof fn lemma_auto_layout(m: Entries, es: Entries)
    requires
        inv(m, es),
    ensures
        inv(auto_layout_step(m), es),
{
    lemma_fresh_keys_not_trig();
    if let Some(md) = entries_get(m, "stackMode"@) {
        lemma_inv_remove(m, "stackMode"@, es);
        lemma_inv_insert(entries_remove(m, "stackMode"@), "layoutMode"@, JsonV::Str(crate::schema::transformations::field_alignment::mode_text(md)), es);
    }
    let m1 = layout_mode_step(m);
    lemma_inv_rename(m1, "stackSpacing"@, "itemSpacing"@, es);
    let m2 = rename_key(m1, "stackSpacing"@, "itemSpacing"@);
    lemma_padding(m2, "stackHorizontalPadding"@, "paddingLeft"@, "paddingRight"@, es);
    let m3 = padding_step(m2, "stackHorizontalPadding"@, "paddingLeft"@, "paddingRight"@);
    lemma_padding(m3, "stackVerticalPadding"@, "paddingTop"@, "paddingBottom"@, es);
}

proof fn lemma_font_renamed_height(s: JsonV)
    requires
        s is Object,
    ensures
        height(JsonV::Object(font_renamed(object_entries(s)))) <= height(s),
{
    let ses = object_entries(s);
    let h = height(s);
    lemma_object_values_below(ses);
    crate::json::lemma_rename_values_below(ses, "family"@, "fontFamily"@, h);
    crate::json::lemma_rename_values_below(rename_key(ses, "family"@, "fontFamily"@), "postscript"@, "fontPostScriptName"@, h);
    lemma_entries_height_le(font_renamed(ses), h);
}

proof fn lemma_text(m: Entries, es: Entries)
    requires
        inv(m, es),
    ensures
        inv(text_step(m), es),
{
    let v = JsonV::Object(es);
    lemma_fresh_keys_not_trig();
    let td = entries_get(m, "textData"@);
    let m1 = match oget(td, "characters"@) {
        Some(c) => entries_insert(m, "characters"@, c),
        None => m,
    };
    if let Some(t) = td {
        lemma_member_under(m, "textData"@, es);
        if let Some(c) = jget(t, "characters"@) {
            lemma_child_under(t, "characters"@, v);
            lemma_inv_insert(m, "characters"@, c, es);
        }
        if let Some(st) = jget(t, "style"@) {
            lemma_child_under(t, "style"@, v);
            let so = JsonV::Object(font_renamed(object_entries(st)));
            if st is Object {
                lemma_font_renamed_height(st);
            } else {
                assert(object_entries(st) =~= Seq::<(Seq<char>, JsonV)>::empty());
                assert(font_renamed(object_entries(st)) =~= Seq::<(Seq<char>, JsonV)>::empty());
                lemma_no_trig_keys(font_renamed(object_entries(st)));
                assert(crate::json::entries_height(Seq::<(Seq<char>, JsonV)>::empty()) == 0);
                lemma_jget_below(t, "style"@);
                lemma_flat(t, so, v);
            }
            lemma_inv_insert(m1, "style"@, so, es);
        }
    }
}

proof fn lemma_symbol(m: Entries, es: Entries)
    requires
        inv(m, es),
    ensures
        inv(symbol_step(m), es),
{
    let v = JsonV::Object(es);
    lemma_fresh_keys_not_trig();
    if let Some(sd) = entries_get(m, "symbolData"@) {
        lemma_member_under(m, "symbolData"@, es);
        let cid = match jget(sd, "symbolID"@) {
            Some(sid) => crate::schema::transformations::field_alignment::reference_id(sid),
            None => None,
        };
        let m1 = match cid {
            Some(c) => entries_insert(m, "componentId"@, JsonV::Str(c)),
            None => m,
        };
        if let Some(c) = cid {
            lemma_inv_insert(m, "componentId"@, JsonV::Str(c), es);
        }
        if let Some(o) = jget(sd, "symbolOverrides"@) {
            lemma_child_under(sd, "symbolOverrides"@, v);
            lemma_inv_insert(m1, "overrides"@, o, es);
        }
    }
}

/// A constraint is a string, or shallower than the constraint member it comes from.
proof fn lemma_constraint_value(o: Option<JsonV>)
    ensures
        height(constraint_value(o)) == 0 || (o is Some && height(constraint_value(o)) < height(o->0)),
{
    if let Some(x) = o {
        if !(x is Str) {
            if let Some(y) = jget(x, "value"@) {
                lemma_jget_below(x, "value"@);
            }
        }
    }
}

proof fn lemma_constraints(m: Entries, es: Entries)
    requires
        inv(m, es),
    ensures
        inv(constraints_step(m), es),
{
    let v = JsonV::Object(es);
    lemma_fresh_keys_not_trig();
    let hc = entries_get(m, "horizontalConstraint"@);
    let vc = entries_get(m, "verticalConstraint"@);
    let m1 = entries_remove(m, "horizontalConstraint"@);
    lemma_inv_remove(m, "horizontalConstraint"@, es);
    lemma_inv_remove(m1, "verticalConstraint"@, es);
    if hc is Some || vc is Some {
        let obj = constraints_object(hc, vc);
        let oes = obj->Object_0;
        assert(oes[0].0 == "horizontal"@);
        assert(oes[1].0 == "vertical"@);
        lemma_no_trig_keys(oes);
        lemma_constraint_value(hc);
        lemma_constraint_value(vc);
        let a = height(constraint_value(hc));
        let b = height(constraint_value(vc));
        let hm = if a < b { b } else { a };
        assert(values_below(oes, hm + 1));
        lemma_entries_height_le(oes, hm + 1);
        if hm == 0 {
            if hc is Some {
                lemma_trig_of_key(m, es, "horizontalConstraint"@);
            } else {
                lemma_trig_of_key(m, es, "verticalConstraint"@);
            }
            lemma_shallow(obj, v);
        } else if a == hm && a > 0 {
            lemma_member_under(m, "horizontalConstraint"@, es);
            lemma_flat(hc->0, obj, v);
        } else {
            lemma_member_under(m, "verticalConstraint"@, es);
            lemma_flat(vc->0, obj, v);
        }
        lemma_inv_insert(entries_remove(m1, "verticalConstraint"@), "constraints"@, obj, es);
    }
}

proof fn lemma_radii(m: Entries, es: Entries)
    requires
        inv(m, es),
    ensures
        inv(radii_step(m), es),
{
    let v = JsonV::Object(es);
    lemma_fresh_keys_not_trig();
    let tl = entries_get(m, "rectangleTopLeftCornerRadius"@);
    let tr = entries_get(m, "rectangleTopRightCornerRadius"@);
    let br = entries_get(m, "rectangleBottomRightCornerRadius"@);
    let bl = entries_get(m, "rectangleBottomLeftCornerRadius"@);
    if nonzero_number(tl) || nonzero_number(tr) || nonzero_number(br) || nonzero_number(bl) {
        let items = seq![radius_value(tl), radius_value(tr), radius_value(br), radius_value(bl)];
        assert forall|i: int| 0 <= i < items.len() implies height(#[trigger] items[i]) < 1 by {
            assert(items[i] == radius_value(tl) || items[i] == radius_value(tr) || items[i] == radius_value(br) || items[i] == radius_value(bl));
        }
        lemma_items_height_from_below(items, 1);
        if nonzero_number(tl) {
            lemma_trig_of_key(m, es, "rectangleTopLeftCornerRadius"@);
        } else if nonzero_number(tr) {
            lemma_trig_of_key(m, es, "rectangleTopRightCornerRadius"@);
        } else if nonzero_number(br) {
            lemma_trig_of_key(m, es, "rectangleBottomRightCornerRadius"@);
        } else {
            lemma_trig_of_key(m, es, "rectangleBottomLeftCornerRadius"@);
        }
        lemma_shallow(JsonV::Array(items), v);
        lemma_inv_insert(m, "rectangleCornerRadii"@, JsonV::Array(items), es);
    }
}

proof fn lemma_clips(m: Entries, es: Entries)
    requires
        inv(m, es),
    ensures
        inv(clips_step(m), es),
{
    lemma_fresh_keys_not_trig();
    if let Some(md) = entries_get(m, "frameMaskDisabled"@) {
        lemma_inv_remove(m, "frameMaskDisabled"@, es);
        lemma_inv_insert(entries_remove(m, "frameMaskDisabled"@), "clipsContent"@, JsonV::Bool(!crate::schema::transformations::field_alignment::mask_disabled(md)), es);
    }
}

/// The bindings hold aliases and one-element arrays of them, and there are
/// none unless some consumption entry is four levels deep.
proof fn lemma_bindings(items: Seq<JsonV>)
    ensures
        values_below(bindings(items).0, 3),
        values_below(bindings(items).1, 2),
        (bindings(items).0.len() > 0 || bindings(items).1.len() > 0) ==> items_height(items) >= 4,
    decreases items.len(),
{
    if items.len() > 0 {
        lemma_bindings(items.drop_last());
        let acc = bindings(items.drop_last());
        let e = items.last();
        if let (Some(f), Some(d)) = (jget(e, "variableField"@), jget(e, "variableData"@)) {
            if let Some(a) = official_alias(d) {
                lemma_official_alias_height(d);
                lemma_jget_below(e, "variableData"@);
                lemma_items_height_bound(items, items.len() - 1);
                let one = JsonV::Array(seq![a]);
                assert(seq![a][0] == a);
                lemma_items_height_from_below(seq![a], 2);
                lemma_insert_values_below(acc.0, "fills"@, one, 3);
                lemma_insert_values_below(acc.0, "strokes"@, one, 3);
                lemma_insert_values_below(acc.0, "cornerRadius"@, a, 3);
                lemma_insert_values_below(acc.1, crate::schema::transformations::field_alignment::field_name(f), a, 2);
                lemma_insert_values_below(acc.0, crate::text::lowercase(crate::schema::transformations::field_alignment::field_name(f)), a, 3);
            }
        }
        if acc.0.len() > 0 || acc.1.len() > 0 {
            assert(items_height(items) >= items_height(items.drop_last()));
        }
    }
}

proof fn lemma_bound_variables_height(vm: JsonV)
    requires
        bound_variables(vm).len() > 0,
    ensures
        height(JsonV::Object(bound_variables(vm))) <= 3,
        height(vm) >= 6,
{
    let items = consumption_entries(vm);
    let b = bindings(items);
    lemma_bindings(items);
    if b.1.len() > 0 {
        lemma_entries_height_le(b.1, 2);
        lemma_insert_values_below(b.0, "rectangleCornerRadii"@, JsonV::Object(b.1), 3);
    }
    lemma_entries_height_le(bound_variables(vm), 3);
    if let Some(JsonV::Array(a)) = jget(vm, "entries"@) {
        lemma_jget_below(vm, "entries"@);
    } else {
        assert(items =~= Seq::<JsonV>::empty());
        assert(b.0 =~= Seq::<(Seq<char>, JsonV)>::empty());
    }
}

proof fn lemma_bound(m: Entries, es: Entries)
    requires
        inv(m, es),
    ensures
        inv(bound_variables_step(m), es),
{
    lemma_fresh_keys_not_trig();
    if let Some(vm) = entries_get(m, "variableConsumptionMap"@) {
        lemma_inv_remove(m, "variableConsumptionMap"@, es);
        let b = bound_variables(vm);
        if b.len() > 0 {
            lemma_member_under(m, "variableConsumptionMap"@, es);
            lemma_bound_variables_height(vm);
            lemma_inv_insert(entries_remove(m, "variableConsumptionMap"@), "boundVariables"@, JsonV::Object(b), es);
        }
    }
}

proof fn lemma_color_var(m: Entries, es: Entries)
    requires
        inv(m, es),
    ensures
        inv(color_var_local_spec(m), es),
{
    lemma_fresh_keys_not_trig();
    if let Some(cv) = entries_get(m, "colorVar"@) {
        lemma_inv_remove(m, "colorVar"@, es);
        if let Some(a) = official_alias(cv) {
            lemma_member_under(m, "colorVar"@, es);
            lemma_official_alias_height(cv);
            lemma_color_binding_height(a);
            lemma_inv_insert(entries_remove(m, "colorVar"@), "boundVariables"@, color_binding(a), es);
        }
    }
}

proof fn lemma_background(m: Entries, es: Entries)
    requires
        inv(m, es),
    ensures
        inv(background_step(m), es),
{
    let v = JsonV::Object(es);
    lemma_fresh_keys_not_trig();
    if crate::json::ostr(entries_get(m, "type"@)) == Some("FRAME"@) {
        let m1 = match solid_fill_color(m) {
            Some(c) => entries_insert(m, "backgroundColor"@, c),
            None => m,
        };
        if let Some(c) = solid_fill_color(m) {
            let fl = entries_get(m, "fills"@)->0;
            lemma_member_under(m, "fills"@, es);
            let f = fl->Array_0;
            lemma_array_items_below(f);
            lemma_child_under(f[0], "color"@, v);
            lemma_inv_insert(m, "backgroundColor"@, c, es);
        }
        if !entries_has(m1, "backgroundColor"@) {
            let tb = transparent_black();
            let tes = tb->Object_0;
            assert(tes[0].0 == "r"@ && tes[1].0 == "g"@ && tes[2].0 == "b"@ && tes[3].0 == "a"@);
            lemma_no_trig_keys(tes);
            assert(values_below(tes, 1));
            lemma_entries_height_le(tes, 1);
            lemma_trig_of_key(m, es, "type"@);
            lemma_shallow(tb, v);
            lemma_inv_insert(m1, "backgroundColor"@, tb, es);
        }
    }
}

proof fn lemma_style_step(acc: (Entries, Entries), from: Seq<char>, to: Seq<char>, es: Entries)
    requires
        inv(acc.0, es),
        values_below(acc.1, 1),
        !has_trig_key(acc.1),
        acc.1.len() > 0 ==> has_trig_key(es),
        is_trig_key(from),
        !is_trig_key(to),
    ensures
        inv(style_step(acc, from, to).0, es),
        values_below(style_step(acc, from, to).1, 1),
        !has_trig_key(style_step(acc, from, to).1),
        style_step(acc, from, to).1.len() > 0 ==> has_trig_key(es),
{
    if let Some(sid) = entries_get(acc.0, from) {
        lemma_inv_remove(acc.0, from, es);
        if let Some(id) = crate::schema::transformations::field_alignment::reference_id(sid) {
            lemma_insert_values_below(acc.1, to, JsonV::Str(id), 1);
            lemma_trig_of_key(acc.0, es, from);
            let n = entries_insert(acc.1, to, JsonV::Str(id));
            lemma_has_insert(acc.1, to, JsonV::Str(id), "type"@);
            lemma_has_insert(acc.1, to, JsonV::Str(id), "horizontalConstraint"@);
            lemma_has_insert(acc.1, to, JsonV::Str(id), "verticalConstraint"@);
            lemma_has_insert(acc.1, to, JsonV::Str(id), "rectangleTopLeftCornerRadius"@);
            lemma_has_insert(acc.1, to, JsonV::Str(id), "rectangleTopRightCornerRadius"@);
            lemma_has_insert(acc.1, to, JsonV::Str(id), "rectangleBottomRightCornerRadius"@);
            lemma_has_insert(acc.1, to, JsonV::Str(id), "rectangleBottomLeftCornerRadius"@);
            lemma_has_insert(acc.1, to, JsonV::Str(id), "styleIdForFill"@);
            lemma_has_insert(acc.1, to, JsonV::Str(id), "styleIdForText"@);
            lemma_has_insert(acc.1, to, JsonV::Str(id), "styleIdForStrokeFill"@);
            lemma_has_insert(acc.1, to, JsonV::Str(id), "styleIdForEffect"@);
        }
    }
}

proof fn lemma_styles(m: Entries, es: Entries)
    requires
        inv(m, es),
    ensures
        inv(styles_step(m), es),
{
    let v = JsonV::Object(es);
    lemma_fresh_keys_not_trig();
    let e0 = Seq::<(Seq<char>, JsonV)>::empty();
    lemma_no_trig_keys(e0);
    let a1 = style_step((m, e0), "styleIdForFill"@, "fill"@);
    lemma_style_step((m, e0), "styleIdForFill"@, "fill"@, es);
    let a2 = style_step(a1, "styleIdForText"@, "text"@);
    lemma_style_step(a1, "styleIdForText"@, "text"@, es);
    let a3 = style_step(a2, "styleIdForStrokeFill"@, "stroke"@);
    lemma_style_step(a2, "styleIdForStrokeFill"@, "stroke"@, es);
    let a4 = style_step(a3, "styleIdForEffect"@, "effect"@);
    lemma_style_step(a3, "styleIdForEffect"@, "effect"@, es);
    if a4.1.len() > 0 {
        lemma_entries_height_le(a4.1, 1);
        lemma_shallow(JsonV::Object(a4.1), v);
        lemma_inv_insert(a4.0, "styles"@, JsonV::Object(a4.1), es);
    }
}

proof fn lemma_default_array(m: Entries, k: Seq<char>, es: Entries)
    requires
        inv(m, es),
        !is_trig_key(k),
        has_trig_key(es),
    ensures
        inv(with_default_array(m, k), es),
{
    if !entries_has(m, k) {
        let e = JsonV::Array(Seq::empty());
        assert(items_height(Seq::<JsonV>::empty()) == 0);
        lemma_shallow(e, JsonV::Object(es));
        lemma_inv_insert(m, k, e, es);
    }
}

proof fn lemma_tail(m: Entries, es: Entries)
    requires
        inv(m, es),
    ensures
        inv(cleanup_step(property_arrays_step(renames_step(m), entries_has(es, "type"@))), es),
{
    lemma_fresh_keys_not_trig();
    lemma_inv_rename(m, "prototypeInteractions"@, "interactions"@, es);
    let m1 = rename_key(m, "prototypeInteractions"@, "interactions"@);
    lemma_inv_rename(m1, "stackChildAlignSelf"@, "layoutAlign"@, es);
    let m2 = rename_key(m1, "stackChildAlignSelf"@, "layoutAlign"@);
    lemma_inv_rename(m2, "stackChildPrimaryGrow"@, "layoutGrow"@, es);
    let m3 = renames_step(m);
    if entries_has(es, "type"@) {
        lemma_default_array(m3, "fills"@, es);
        let n1 = with_default_array(m3, "fills"@);
        lemma_default_array(n1, "strokes"@, es);
        let n2 = with_default_array(n1, "strokes"@);
        lemma_default_array(n2, "effects"@, es);
        let n3 = with_default_array(n2, "effects"@);
        lemma_default_array(n3, "interactions"@, es);
    }
    let p = property_arrays_step(m3, entries_has(es, "type"@));
    lemma_inv_remove(p, "parameterConsumptionMap"@, es);
    let p1 = entries_remove(p, "parameterConsumptionMap"@);
    lemma_inv_remove(p1, "derivedSymbolData"@, es);
    let p2 = entries_remove(p1, "derivedSymbolData"@);
    lemma_inv_remove(p2, "sharedSymbolVersion"@, es);
}

/// Every value of an edited object comes before the object in the descent.
pub proof fn lemma_align_local_under(es: Entries)
    ensures
        all_values(align_local_spec(es), under_fn(JsonV::Object(es))),
{
    let v = JsonV::Object(es);
    lemma_object_values_below(es);
    assert(inv(es, es));
    lemma_auto_layout(es, es);
    let m1 = auto_layout_step(es);
    lemma_text(m1, es);
    let m2 = text_step(m1);
    lemma_symbol(m2, es);
    let m3 = symbol_step(m2);
    lemma_constraints(m3, es);
    let m4 = constraints_step(m3);
    lemma_radii(m4, es);
    let m5 = radii_step(m4);
    lemma_clips(m5, es);
    let m6 = clips_step(m5);
    lemma_bound(m6, es);
    let m7 = bound_variables_step(m6);
    lemma_color_var(m7, es);
    let m8 = color_var_local_spec(m7);
    lemma_background(m8, es);
    let m9 = background_step(m8);
    lemma_styles(m9, es);
    let m10 = styles_step(m9);
    lemma_tail(m10, es);
}

} // verus!
