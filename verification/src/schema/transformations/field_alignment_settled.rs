//! When a second field alignment changes no member: on an aligned document,
//! every step of the edit but the lifting of the text finds nothing to do or
//! sets a member to the value it already holds, and the lifting does the same
//! exactly where each object already holds what its `textData` would lift.
use vstd::prelude::*;
use crate::json::{
    first_entry, lemma_first_get, lemma_get_some_index, same_doc, entries_get, entries_has, entries_insert, entries_remove, height, jget, lemma_array_items_below, lemma_insert_get, oget,
    lemma_remove_absent, lemma_remove_other, lemma_rename_get, ostr, rename_key, Entries, JsonV,
};
use crate::schema::transformations::alias::official_alias;
use crate::schema::transformations::traversal::{
    below, everywhere, lacks_all, lemma_everywhere_entries, lemma_everywhere_items, lemma_everywhere_weaken, lemma_get_walked,
    lemma_key_stable_kept, lemma_local_decreases, local_spec, trig, lemma_lacks_all_stable, lemma_transformed_object, lemma_transformed_shape, lemma_same_keys_has_walked, transformed, walked,
    Pass,
};
use crate::schema::transformations::field_alignment::{
    align_local_spec, auto_layout_step, with_aligned_fields, lemma_align_local_lacks, lemma_align_local_lists_arrays,
    lemma_nodes_list_arrays_stable, nodes_list_arrays, nonzero_number, node_lists_arrays, retired_keys, background_step, bound_variables, bound_variables_step,
    cleanup_step, clips_step, constraints_object, constraints_step, font_renamed, from_constraints,
    layout_mode_step, mask_disabled, mode_text, object_entries, padding_step, property_arrays_step,
    radii_step, radius_value, reference_id, renames_step, solid_fill_color, style_step, styles_step,
    symbol_step, text_step, transparent_black, with_default_array,
};
use crate::schema::transformations::variables_transformation::{color_binding, color_var_local_spec};

verus! {

// ---------------------------------------------------------------------------
// Members that an edit step leaves as they were
// ---------------------------------------------------------------------------

proof fn lemma_get_auto_layout(es: Entries, t: Seq<char>)
    requires
        t != "stackMode"@,
        t != "layoutMode"@,
        t != "stackSpacing"@,
        t != "itemSpacing"@,
        t != "stackHorizontalPadding"@,
        t != "paddingLeft"@,
        t != "paddingRight"@,
        t != "stackVerticalPadding"@,
        t != "paddingTop"@,
        t != "paddingBottom"@,
    ensures
        entries_get(auto_layout_step(es), t) == entries_get(es, t),
{
    if let Some(m) = entries_get(es, "stackMode"@) {
        lemma_remove_other(es, "stackMode"@, t);
        lemma_insert_get(entries_remove(es, "stackMode"@), "layoutMode"@, JsonV::Str(mode_text(m)), t);
    }
    let l1 = layout_mode_step(es);
    let l2 = rename_key(l1, "stackSpacing"@, "itemSpacing"@);
    let l3 = padding_step(l2, "stackHorizontalPadding"@, "paddingLeft"@, "paddingRight"@);
    lemma_rename_get(l1, "stackSpacing"@, "itemSpacing"@, t);
    lemma_get_padding(l2, "stackHorizontalPadding"@, "paddingLeft"@, "paddingRight"@, t);
    lemma_get_padding(l3, "stackVerticalPadding"@, "paddingTop"@, "paddingBottom"@, t);
}

proof fn lemma_get_padding(es: Entries, from: Seq<char>, a: Seq<char>, b: Seq<char>, t: Seq<char>)
    requires
        t != from,
        t != a,
        t != b,
    ensures
        entries_get(padding_step(es, from, a, b), t) == entries_get(es, t),
{
    if let Some(p) = entries_get(es, from) {
        let r = entries_remove(es, from);
        lemma_remove_other(es, from, t);
        lemma_insert_get(r, a, p, t);
        lemma_insert_get(entries_insert(r, a, p), b, p, t);
    }
}

proof fn lemma_get_text(es: Entries, t: Seq<char>)
    requires
        t != "characters"@,
        t != "style"@,
    ensures
        entries_get(text_step(es), t) == entries_get(es, t),
{
    let td = entries_get(es, "textData"@);
    let es1 = match crate::json::oget(td, "characters"@) {
        Some(c) => entries_insert(es, "characters"@, c),
        None => es,
    };
    if let Some(c) = crate::json::oget(td, "characters"@) {
        lemma_insert_get(es, "characters"@, c, t);
    }
    if let Some(s) = crate::json::oget(td, "style"@) {
        lemma_insert_get(es1, "style"@, JsonV::Object(font_renamed(object_entries(s))), t);
    }
}

proof fn lemma_get_symbol(es: Entries, t: Seq<char>)
    requires
        t != "componentId"@,
        t != "overrides"@,
    ensures
        entries_get(symbol_step(es), t) == entries_get(es, t),
{
    if let Some(sd) = entries_get(es, "symbolData"@) {
        let cid = match jget(sd, "symbolID"@) {
            Some(sid) => reference_id(sid),
            None => None,
        };
        let es1 = match cid {
            Some(c) => entries_insert(es, "componentId"@, JsonV::Str(c)),
            None => es,
        };
        if let Some(c) = cid {
            lemma_insert_get(es, "componentId"@, JsonV::Str(c), t);
        }
        if let Some(o) = jget(sd, "symbolOverrides"@) {
            lemma_insert_get(es1, "overrides"@, o, t);
        }
    }
}

proof fn lemma_get_constraints(es: Entries, t: Seq<char>)
    requires
        t != "horizontalConstraint"@,
        t != "verticalConstraint"@,
        t != "constraints"@,
    ensures
        entries_get(constraints_step(es), t) == entries_get(es, t),
{
    let h = entries_get(es, "horizontalConstraint"@);
    let v = entries_get(es, "verticalConstraint"@);
    let r0 = entries_remove(es, "horizontalConstraint"@);
    lemma_remove_other(es, "horizontalConstraint"@, t);
    lemma_remove_other(r0, "verticalConstraint"@, t);
    lemma_insert_get(entries_remove(r0, "verticalConstraint"@), "constraints"@, constraints_object(h, v), t);
}

proof fn lemma_get_radii(es: Entries, t: Seq<char>)
    requires
        t != "rectangleCornerRadii"@,
    ensures
        entries_get(radii_step(es), t) == entries_get(es, t),
{
    let tl = entries_get(es, "rectangleTopLeftCornerRadius"@);
    let tr = entries_get(es, "rectangleTopRightCornerRadius"@);
    let br = entries_get(es, "rectangleBottomRightCornerRadius"@);
    let bl = entries_get(es, "rectangleBottomLeftCornerRadius"@);
    lemma_insert_get(
        es,
        "rectangleCornerRadii"@,
        JsonV::Array(seq![radius_value(tl), radius_value(tr), radius_value(br), radius_value(bl)]),
        t,
    );
}

proof fn lemma_get_clips(es: Entries, t: Seq<char>)
    requires
        t != "frameMaskDisabled"@,
        t != "clipsContent"@,
    ensures
        entries_get(clips_step(es), t) == entries_get(es, t),
{
    if let Some(md) = entries_get(es, "frameMaskDisabled"@) {
        lemma_remove_other(es, "frameMaskDisabled"@, t);
        lemma_insert_get(entries_remove(es, "frameMaskDisabled"@), "clipsContent"@, JsonV::Bool(!mask_disabled(md)), t);
    }
}

proof fn lemma_get_bound_variables(es: Entries, t: Seq<char>)
    requires
        t != "variableConsumptionMap"@,
        t != "boundVariables"@,
    ensures
        entries_get(bound_variables_step(es), t) == entries_get(es, t),
{
    if let Some(vm) = entries_get(es, "variableConsumptionMap"@) {
        lemma_remove_other(es, "variableConsumptionMap"@, t);
        lemma_insert_get(entries_remove(es, "variableConsumptionMap"@), "boundVariables"@, JsonV::Object(bound_variables(vm)), t);
    }
}

proof fn lemma_get_color_var(es: Entries, t: Seq<char>)
    requires
        t != "colorVar"@,
        t != "boundVariables"@,
    ensures
        entries_get(color_var_local_spec(es), t) == entries_get(es, t),
{
    if let Some(cv) = entries_get(es, "colorVar"@) {
        lemma_remove_other(es, "colorVar"@, t);
        if let Some(a) = official_alias(cv) {
            lemma_insert_get(entries_remove(es, "colorVar"@), "boundVariables"@, color_binding(a), t);
        }
    }
}

proof fn lemma_get_background(es: Entries, t: Seq<char>)
    requires
        t != "backgroundColor"@,
    ensures
        entries_get(background_step(es), t) == entries_get(es, t),
{
    if ostr(entries_get(es, "type"@)) == Some("FRAME"@) {
        let es1 = match solid_fill_color(es) {
            Some(c) => entries_insert(es, "backgroundColor"@, c),
            None => es,
        };
        if let Some(c) = solid_fill_color(es) {
            lemma_insert_get(es, "backgroundColor"@, c, t);
        }
        lemma_insert_get(es1, "backgroundColor"@, transparent_black(), t);
    }
}

proof fn lemma_get_style_step(acc: (Entries, Entries), old: Seq<char>, new: Seq<char>, t: Seq<char>)
    requires
        t != old,
    ensures
        entries_get(style_step(acc, old, new).0, t) == entries_get(acc.0, t),
{
    if entries_get(acc.0, old) is Some {
        lemma_remove_other(acc.0, old, t);
    }
}

proof fn lemma_get_styles(es: Entries, t: Seq<char>)
    requires
        t != "styleIdForFill"@,
        t != "styleIdForText"@,
        t != "styleIdForStrokeFill"@,
        t != "styleIdForEffect"@,
        t != "styles"@,
    ensures
        entries_get(styles_step(es), t) == entries_get(es, t),
{
    let a0: (Entries, Entries) = (es, Seq::empty());
    let a1 = style_step(a0, "styleIdForFill"@, "fill"@);
    let a2 = style_step(a1, "styleIdForText"@, "text"@);
    let a3 = style_step(a2, "styleIdForStrokeFill"@, "stroke"@);
    let a4 = style_step(a3, "styleIdForEffect"@, "effect"@);
    lemma_get_style_step(a0, "styleIdForFill"@, "fill"@, t);
    lemma_get_style_step(a1, "styleIdForText"@, "text"@, t);
    lemma_get_style_step(a2, "styleIdForStrokeFill"@, "stroke"@, t);
    lemma_get_style_step(a3, "styleIdForEffect"@, "effect"@, t);
    lemma_insert_get(a4.0, "styles"@, JsonV::Object(a4.1), t);
}

proof fn lemma_get_renames(es: Entries, t: Seq<char>)
    requires
        t != "prototypeInteractions"@,
        t != "interactions"@,
        t != "stackChildAlignSelf"@,
        t != "layoutAlign"@,
        t != "stackChildPrimaryGrow"@,
        t != "layoutGrow"@,
    ensures
        entries_get(renames_step(es), t) == entries_get(es, t),
{
    let r1 = rename_key(es, "prototypeInteractions"@, "interactions"@);
    let r2 = rename_key(r1, "stackChildAlignSelf"@, "layoutAlign"@);
    lemma_rename_get(es, "prototypeInteractions"@, "interactions"@, t);
    lemma_rename_get(r1, "stackChildAlignSelf"@, "layoutAlign"@, t);
    lemma_rename_get(r2, "stackChildPrimaryGrow"@, "layoutGrow"@, t);
}

proof fn lemma_get_default_array(es: Entries, k: Seq<char>, t: Seq<char>)
    requires
        t != k,
    ensures
        entries_get(with_default_array(es, k), t) == entries_get(es, t),
{
    lemma_insert_get(es, k, JsonV::Array(Seq::empty()), t);
}

proof fn lemma_get_tail(es: Entries, is_node: bool, t: Seq<char>)
    requires
        t != "fills"@,
        t != "strokes"@,
        t != "effects"@,
        t != "interactions"@,
        t != "parameterConsumptionMap"@,
        t != "derivedSymbolData"@,
        t != "sharedSymbolVersion"@,
    ensures
        entries_get(cleanup_step(property_arrays_step(es, is_node)), t) == entries_get(es, t),
{
    let es1 = with_default_array(es, "fills"@);
    let es2 = with_default_array(es1, "strokes"@);
    let es3 = with_default_array(es2, "effects"@);
    lemma_get_default_array(es, "fills"@, t);
    lemma_get_default_array(es1, "strokes"@, t);
    lemma_get_default_array(es2, "effects"@, t);
    lemma_get_default_array(es3, "interactions"@, t);
    let x = property_arrays_step(es, is_node);
    let c1 = entries_remove(x, "parameterConsumptionMap"@);
    let c2 = entries_remove(c1, "derivedSymbolData"@);
    lemma_remove_other(x, "parameterConsumptionMap"@, t);
    lemma_remove_other(c1, "derivedSymbolData"@, t);
    lemma_remove_other(c2, "sharedSymbolVersion"@, t);
}

/// The steps from the styles on.
pub open spec fn from_styles(x: Entries, is_node: bool) -> Entries {
    cleanup_step(property_arrays_step(renames_step(styles_step(x)), is_node))
}

/// The steps from the clips on.
pub open spec fn from_clips(x: Entries, is_node: bool) -> Entries {
    from_styles(background_step(color_var_local_spec(bound_variables_step(clips_step(x)))), is_node)
}

/// The steps up to the background, which reads the fills.
pub open spec fn before_background(es: Entries) -> Entries {
    color_var_local_spec(bound_variables_step(clips_step(radii_step(constraints_step(symbol_step(
        text_step(auto_layout_step(es)),
    ))))))
}

proof fn lemma_align_stages(es: Entries)
    ensures
        align_local_spec(es) == from_styles(background_step(before_background(es)), entries_has(es, "type"@)),
        align_local_spec(es) == from_clips(
            radii_step(constraints_step(symbol_step(text_step(auto_layout_step(es))))),
            entries_has(es, "type"@),
        ),
        align_local_spec(es) == from_constraints(
            symbol_step(text_step(auto_layout_step(es))),
            entries_has(es, "type"@),
        ),
        from_constraints(symbol_step(text_step(auto_layout_step(es))), entries_has(es, "type"@))
            == from_clips(radii_step(constraints_step(symbol_step(text_step(auto_layout_step(es))))), entries_has(es, "type"@)),
{
}

proof fn lemma_get_from_styles(x: Entries, is_node: bool, t: Seq<char>)
    requires
        t != "styleIdForFill"@,
        t != "styleIdForText"@,
        t != "styleIdForStrokeFill"@,
        t != "styleIdForEffect"@,
        t != "styles"@,
        t != "prototypeInteractions"@,
        t != "interactions"@,
        t != "stackChildAlignSelf"@,
        t != "layoutAlign"@,
        t != "stackChildPrimaryGrow"@,
        t != "layoutGrow"@,
        t != "fills"@,
        t != "strokes"@,
        t != "effects"@,
        t != "parameterConsumptionMap"@,
        t != "derivedSymbolData"@,
        t != "sharedSymbolVersion"@,
    ensures
        entries_get(from_styles(x, is_node), t) == entries_get(x, t),
{
    lemma_get_styles(x, t);
    lemma_get_renames(styles_step(x), t);
    lemma_get_tail(renames_step(styles_step(x)), is_node, t);
}

proof fn lemma_get_from_clips(x: Entries, is_node: bool, t: Seq<char>)
    requires
        t != "frameMaskDisabled"@,
        t != "clipsContent"@,
        t != "variableConsumptionMap"@,
        t != "boundVariables"@,
        t != "colorVar"@,
        t != "backgroundColor"@,
        t != "styleIdForFill"@,
        t != "styleIdForText"@,
        t != "styleIdForStrokeFill"@,
        t != "styleIdForEffect"@,
        t != "styles"@,
        t != "prototypeInteractions"@,
        t != "interactions"@,
        t != "stackChildAlignSelf"@,
        t != "layoutAlign"@,
        t != "stackChildPrimaryGrow"@,
        t != "layoutGrow"@,
        t != "fills"@,
        t != "strokes"@,
        t != "effects"@,
        t != "parameterConsumptionMap"@,
        t != "derivedSymbolData"@,
        t != "sharedSymbolVersion"@,
    ensures
        entries_get(from_clips(x, is_node), t) == entries_get(x, t),
{
    let x6 = clips_step(x);
    let x7 = bound_variables_step(x6);
    let x8 = color_var_local_spec(x7);
    lemma_get_clips(x, t);
    lemma_get_bound_variables(x6, t);
    lemma_get_color_var(x7, t);
    lemma_get_background(x8, t);
    lemma_get_from_styles(background_step(x8), is_node, t);
}

proof fn lemma_get_from_constraints(x: Entries, is_node: bool, t: Seq<char>)
    requires
        t != "horizontalConstraint"@,
        t != "verticalConstraint"@,
        t != "constraints"@,
        t != "rectangleCornerRadii"@,
        t != "frameMaskDisabled"@,
        t != "clipsContent"@,
        t != "variableConsumptionMap"@,
        t != "boundVariables"@,
        t != "colorVar"@,
        t != "backgroundColor"@,
        t != "styleIdForFill"@,
        t != "styleIdForText"@,
        t != "styleIdForStrokeFill"@,
        t != "styleIdForEffect"@,
        t != "styles"@,
        t != "prototypeInteractions"@,
        t != "interactions"@,
        t != "stackChildAlignSelf"@,
        t != "layoutAlign"@,
        t != "stackChildPrimaryGrow"@,
        t != "layoutGrow"@,
        t != "fills"@,
        t != "strokes"@,
        t != "effects"@,
        t != "parameterConsumptionMap"@,
        t != "derivedSymbolData"@,
        t != "sharedSymbolVersion"@,
    ensures
        entries_get(from_constraints(x, is_node), t) == entries_get(x, t),
{
    lemma_get_constraints(x, t);
    lemma_get_radii(constraints_step(x), t);
    lemma_get_from_clips(radii_step(constraints_step(x)), is_node, t);
    assert(from_constraints(x, is_node) == from_clips(radii_step(constraints_step(x)), is_node));
}

/// Every member that no step of the alignment edit touches keeps its value.
pub proof fn lemma_get_align(es: Entries, t: Seq<char>)
    requires
        t != "stackMode"@,
        t != "layoutMode"@,
        t != "stackSpacing"@,
        t != "itemSpacing"@,
        t != "stackHorizontalPadding"@,
        t != "paddingLeft"@,
        t != "paddingRight"@,
        t != "stackVerticalPadding"@,
        t != "paddingTop"@,
        t != "paddingBottom"@,
        t != "characters"@,
        t != "style"@,
        t != "componentId"@,
        t != "overrides"@,
        t != "horizontalConstraint"@,
        t != "verticalConstraint"@,
        t != "constraints"@,
        t != "rectangleCornerRadii"@,
        t != "frameMaskDisabled"@,
        t != "clipsContent"@,
        t != "variableConsumptionMap"@,
        t != "boundVariables"@,
        t != "colorVar"@,
        t != "backgroundColor"@,
        t != "styleIdForFill"@,
        t != "styleIdForText"@,
        t != "styleIdForStrokeFill"@,
        t != "styleIdForEffect"@,
        t != "styles"@,
        t != "prototypeInteractions"@,
        t != "interactions"@,
        t != "stackChildAlignSelf"@,
        t != "layoutAlign"@,
        t != "stackChildPrimaryGrow"@,
        t != "layoutGrow"@,
        t != "fills"@,
        t != "strokes"@,
        t != "effects"@,
        t != "parameterConsumptionMap"@,
        t != "derivedSymbolData"@,
        t != "sharedSymbolVersion"@,
    ensures
        entries_get(align_local_spec(es), t) == entries_get(es, t),
{
    lemma_align_stages(es);
    let a = auto_layout_step(es);
    lemma_get_auto_layout(es, t);
    lemma_get_text(a, t);
    lemma_get_symbol(text_step(a), t);
    lemma_get_from_constraints(symbol_step(text_step(a)), entries_has(es, "type"@), t);
}

/// The keys of the members that the alignment reads from nested objects,
/// none of which any step of the edit touches.
proof fn lemma_untouched_keys(t: Seq<char>)
    requires
        t == "symbolID"@ || t == "symbolOverrides"@ || t == "guid"@ || t == "sessionID"@ || t == "localID"@
            || t == "color"@ || t == "type"@ || t == "textData"@ || t == "symbolData"@
            || t == "rectangleTopLeftCornerRadius"@ || t == "rectangleTopRightCornerRadius"@
            || t == "rectangleBottomRightCornerRadius"@ || t == "rectangleBottomLeftCornerRadius"@,
    ensures
        t != "stackMode"@,
        t != "layoutMode"@,
        t != "stackSpacing"@,
        t != "itemSpacing"@,
        t != "stackHorizontalPadding"@,
        t != "paddingLeft"@,
        t != "paddingRight"@,
        t != "stackVerticalPadding"@,
        t != "paddingTop"@,
        t != "paddingBottom"@,
        t != "characters"@,
        t != "style"@,
        t != "componentId"@,
        t != "overrides"@,
        t != "horizontalConstraint"@,
        t != "verticalConstraint"@,
        t != "constraints"@,
        t != "rectangleCornerRadii"@,
        t != "frameMaskDisabled"@,
        t != "clipsContent"@,
        t != "variableConsumptionMap"@,
        t != "boundVariables"@,
        t != "colorVar"@,
        t != "backgroundColor"@,
        t != "styleIdForFill"@,
        t != "styleIdForText"@,
        t != "styleIdForStrokeFill"@,
        t != "styleIdForEffect"@,
        t != "styles"@,
        t != "prototypeInteractions"@,
        t != "interactions"@,
        t != "stackChildAlignSelf"@,
        t != "layoutAlign"@,
        t != "stackChildPrimaryGrow"@,
        t != "layoutGrow"@,
        t != "fills"@,
        t != "strokes"@,
        t != "effects"@,
        t != "parameterConsumptionMap"@,
        t != "derivedSymbolData"@,
        t != "sharedSymbolVersion"@,
{
    reveal_strlit("stackMode");
    assert("stackMode"@.len() == 9 && "stackMode"@[0] == 's' && "stackMode"@[1] == 't' && "stackMode"@[2] == 'a');
    reveal_strlit("layoutMode");
    assert("layoutMode"@.len() == 10 && "layoutMode"@[0] == 'l' && "layoutMode"@[1] == 'a' && "layoutMode"@[2] == 'y');
    reveal_strlit("stackSpacing");
    assert("stackSpacing"@.len() == 12 && "stackSpacing"@[0] == 's' && "stackSpacing"@[1] == 't' && "stackSpacing"@[2] == 'a');
    reveal_strlit("itemSpacing");
    assert("itemSpacing"@.len() == 11 && "itemSpacing"@[0] == 'i' && "itemSpacing"@[1] == 't' && "itemSpacing"@[2] == 'e');
    reveal_strlit("stackHorizontalPadding");
    assert("stackHorizontalPadding"@.len() == 22 && "stackHorizontalPadding"@[0] == 's' && "stackHorizontalPadding"@[1] == 't' && "stackHorizontalPadding"@[2] == 'a');
    reveal_strlit("paddingLeft");
    assert("paddingLeft"@.len() == 11 && "paddingLeft"@[0] == 'p' && "paddingLeft"@[1] == 'a' && "paddingLeft"@[2] == 'd');
    reveal_strlit("paddingRight");
    assert("paddingRight"@.len() == 12 && "paddingRight"@[0] == 'p' && "paddingRight"@[1] == 'a' && "paddingRight"@[2] == 'd');
    reveal_strlit("stackVerticalPadding");
    assert("stackVerticalPadding"@.len() == 20 && "stackVerticalPadding"@[0] == 's' && "stackVerticalPadding"@[1] == 't' && "stackVerticalPadding"@[2] == 'a');
    reveal_strlit("paddingTop");
    assert("paddingTop"@.len() == 10 && "paddingTop"@[0] == 'p' && "paddingTop"@[1] == 'a' && "paddingTop"@[2] == 'd');
    reveal_strlit("paddingBottom");
    assert("paddingBottom"@.len() == 13 && "paddingBottom"@[0] == 'p' && "paddingBottom"@[1] == 'a' && "paddingBottom"@[2] == 'd');
    reveal_strlit("characters");
    assert("characters"@.len() == 10 && "characters"@[0] == 'c' && "characters"@[1] == 'h' && "characters"@[2] == 'a');
    reveal_strlit("style");
    assert("style"@.len() == 5 && "style"@[0] == 's' && "style"@[1] == 't' && "style"@[2] == 'y');
    reveal_strlit("componentId");
    assert("componentId"@.len() == 11 && "componentId"@[0] == 'c' && "componentId"@[1] == 'o' && "componentId"@[2] == 'm');
    reveal_strlit("overrides");
    assert("overrides"@.len() == 9 && "overrides"@[0] == 'o' && "overrides"@[1] == 'v' && "overrides"@[2] == 'e');
    reveal_strlit("horizontalConstraint");
    assert("horizontalConstraint"@.len() == 20 && "horizontalConstraint"@[0] == 'h' && "horizontalConstraint"@[1] == 'o' && "horizontalConstraint"@[2] == 'r');
    reveal_strlit("verticalConstraint");
    assert("verticalConstraint"@.len() == 18 && "verticalConstraint"@[0] == 'v' && "verticalConstraint"@[1] == 'e' && "verticalConstraint"@[2] == 'r');
    reveal_strlit("constraints");
    assert("constraints"@.len() == 11 && "constraints"@[0] == 'c' && "constraints"@[1] == 'o' && "constraints"@[2] == 'n');
    reveal_strlit("rectangleCornerRadii");
    assert("rectangleCornerRadii"@.len() == 20 && "rectangleCornerRadii"@[0] == 'r' && "rectangleCornerRadii"@[1] == 'e' && "rectangleCornerRadii"@[2] == 'c');
    reveal_strlit("frameMaskDisabled");
    assert("frameMaskDisabled"@.len() == 17 && "frameMaskDisabled"@[0] == 'f' && "frameMaskDisabled"@[1] == 'r' && "frameMaskDisabled"@[2] == 'a');
    reveal_strlit("clipsContent");
    assert("clipsContent"@.len() == 12 && "clipsContent"@[0] == 'c' && "clipsContent"@[1] == 'l' && "clipsContent"@[2] == 'i');
    reveal_strlit("variableConsumptionMap");
    assert("variableConsumptionMap"@.len() == 22 && "variableConsumptionMap"@[0] == 'v' && "variableConsumptionMap"@[1] == 'a' && "variableConsumptionMap"@[2] == 'r');
    reveal_strlit("boundVariables");
    assert("boundVariables"@.len() == 14 && "boundVariables"@[0] == 'b' && "boundVariables"@[1] == 'o' && "boundVariables"@[2] == 'u');
    reveal_strlit("colorVar");
    assert("colorVar"@.len() == 8 && "colorVar"@[0] == 'c' && "colorVar"@[1] == 'o' && "colorVar"@[2] == 'l');
    reveal_strlit("backgroundColor");
    assert("backgroundColor"@.len() == 15 && "backgroundColor"@[0] == 'b' && "backgroundColor"@[1] == 'a' && "backgroundColor"@[2] == 'c');
    reveal_strlit("styleIdForFill");
    assert("styleIdForFill"@.len() == 14 && "styleIdForFill"@[0] == 's' && "styleIdForFill"@[1] == 't' && "styleIdForFill"@[2] == 'y');
    reveal_strlit("styleIdForText");
    assert("styleIdForText"@.len() == 14 && "styleIdForText"@[0] == 's' && "styleIdForText"@[1] == 't' && "styleIdForText"@[2] == 'y');
    reveal_strlit("styleIdForStrokeFill");
    assert("styleIdForStrokeFill"@.len() == 20 && "styleIdForStrokeFill"@[0] == 's' && "styleIdForStrokeFill"@[1] == 't' && "styleIdForStrokeFill"@[2] == 'y');
    reveal_strlit("styleIdForEffect");
    assert("styleIdForEffect"@.len() == 16 && "styleIdForEffect"@[0] == 's' && "styleIdForEffect"@[1] == 't' && "styleIdForEffect"@[2] == 'y');
    reveal_strlit("styles");
    assert("styles"@.len() == 6 && "styles"@[0] == 's' && "styles"@[1] == 't' && "styles"@[2] == 'y');
    reveal_strlit("prototypeInteractions");
    assert("prototypeInteractions"@.len() == 21 && "prototypeInteractions"@[0] == 'p' && "prototypeInteractions"@[1] == 'r' && "prototypeInteractions"@[2] == 'o');
    reveal_strlit("interactions");
    assert("interactions"@.len() == 12 && "interactions"@[0] == 'i' && "interactions"@[1] == 'n' && "interactions"@[2] == 't');
    reveal_strlit("stackChildAlignSelf");
    assert("stackChildAlignSelf"@.len() == 19 && "stackChildAlignSelf"@[0] == 's' && "stackChildAlignSelf"@[1] == 't' && "stackChildAlignSelf"@[2] == 'a');
    reveal_strlit("layoutAlign");
    assert("layoutAlign"@.len() == 11 && "layoutAlign"@[0] == 'l' && "layoutAlign"@[1] == 'a' && "layoutAlign"@[2] == 'y');
    reveal_strlit("stackChildPrimaryGrow");
    assert("stackChildPrimaryGrow"@.len() == 21 && "stackChildPrimaryGrow"@[0] == 's' && "stackChildPrimaryGrow"@[1] == 't' && "stackChildPrimaryGrow"@[2] == 'a');
    reveal_strlit("layoutGrow");
    assert("layoutGrow"@.len() == 10 && "layoutGrow"@[0] == 'l' && "layoutGrow"@[1] == 'a' && "layoutGrow"@[2] == 'y');
    reveal_strlit("fills");
    assert("fills"@.len() == 5 && "fills"@[0] == 'f' && "fills"@[1] == 'i' && "fills"@[2] == 'l');
    reveal_strlit("strokes");
    assert("strokes"@.len() == 7 && "strokes"@[0] == 's' && "strokes"@[1] == 't' && "strokes"@[2] == 'r');
    reveal_strlit("effects");
    assert("effects"@.len() == 7 && "effects"@[0] == 'e' && "effects"@[1] == 'f' && "effects"@[2] == 'f');
    reveal_strlit("parameterConsumptionMap");
    assert("parameterConsumptionMap"@.len() == 23 && "parameterConsumptionMap"@[0] == 'p' && "parameterConsumptionMap"@[1] == 'a' && "parameterConsumptionMap"@[2] == 'r');
    reveal_strlit("derivedSymbolData");
    assert("derivedSymbolData"@.len() == 17 && "derivedSymbolData"@[0] == 'd' && "derivedSymbolData"@[1] == 'e' && "derivedSymbolData"@[2] == 'r');
    reveal_strlit("sharedSymbolVersion");
    assert("sharedSymbolVersion"@.len() == 19 && "sharedSymbolVersion"@[0] == 's' && "sharedSymbolVersion"@[1] == 'h' && "sharedSymbolVersion"@[2] == 'a');
    reveal_strlit("symbolID");
    assert("symbolID"@.len() == 8 && "symbolID"@[0] == 's' && "symbolID"@[1] == 'y' && "symbolID"@[2] == 'm');
    reveal_strlit("symbolOverrides");
    assert("symbolOverrides"@.len() == 15 && "symbolOverrides"@[0] == 's' && "symbolOverrides"@[1] == 'y' && "symbolOverrides"@[2] == 'm');
    reveal_strlit("guid");
    assert("guid"@.len() == 4 && "guid"@[0] == 'g' && "guid"@[1] == 'u' && "guid"@[2] == 'i');
    reveal_strlit("sessionID");
    assert("sessionID"@.len() == 9 && "sessionID"@[0] == 's' && "sessionID"@[1] == 'e' && "sessionID"@[2] == 's');
    reveal_strlit("localID");
    assert("localID"@.len() == 7 && "localID"@[0] == 'l' && "localID"@[1] == 'o' && "localID"@[2] == 'c');
    reveal_strlit("color");
    assert("color"@.len() == 5 && "color"@[0] == 'c' && "color"@[1] == 'o' && "color"@[2] == 'l');
    reveal_strlit("type");
    assert("type"@.len() == 4 && "type"@[0] == 't' && "type"@[1] == 'y' && "type"@[2] == 'p');
    reveal_strlit("textData");
    assert("textData"@.len() == 8 && "textData"@[0] == 't' && "textData"@[1] == 'e' && "textData"@[2] == 'x');
    reveal_strlit("symbolData");
    assert("symbolData"@.len() == 10 && "symbolData"@[0] == 's' && "symbolData"@[1] == 'y' && "symbolData"@[2] == 'm');
    reveal_strlit("rectangleTopLeftCornerRadius");
    assert("rectangleTopLeftCornerRadius"@.len() == 28 && "rectangleTopLeftCornerRadius"@[0] == 'r' && "rectangleTopLeftCornerRadius"@[1] == 'e' && "rectangleTopLeftCornerRadius"@[2] == 'c');
    reveal_strlit("rectangleTopRightCornerRadius");
    assert("rectangleTopRightCornerRadius"@.len() == 29 && "rectangleTopRightCornerRadius"@[0] == 'r' && "rectangleTopRightCornerRadius"@[1] == 'e' && "rectangleTopRightCornerRadius"@[2] == 'c');
    reveal_strlit("rectangleBottomRightCornerRadius");
    assert("rectangleBottomRightCornerRadius"@.len() == 32 && "rectangleBottomRightCornerRadius"@[0] == 'r' && "rectangleBottomRightCornerRadius"@[1] == 'e' && "rectangleBottomRightCornerRadius"@[2] == 'c');
    reveal_strlit("rectangleBottomLeftCornerRadius");
    assert("rectangleBottomLeftCornerRadius"@.len() == 31 && "rectangleBottomLeftCornerRadius"@[0] == 'r' && "rectangleBottomLeftCornerRadius"@[1] == 'e' && "rectangleBottomLeftCornerRadius"@[2] == 'c');
}

} // verus!

verus! {

// ---------------------------------------------------------------------------
// Objects that the edit leaves with the same members
// ---------------------------------------------------------------------------

/// `a` and `b` have the same members: each key has the same value in both.
pub open spec fn same_members(a: Entries, b: Entries) -> bool {
    forall|k: Seq<char>| #![trigger entries_get(a, k)] #![trigger entries_get(b, k)]
        entries_get(a, k) == entries_get(b, k)
}

pub open spec fn same_members_fn() -> spec_fn(Entries) -> bool {
    |es: Entries| same_members(align_local_spec(es), es)
}

proof fn lemma_insert_same(y: Entries, k: Seq<char>, x: JsonV)
    requires
        entries_get(y, k) == Some(x),
    ensures
        same_members(entries_insert(y, k, x), y),
{
    assert forall|t: Seq<char>| #![trigger entries_get(entries_insert(y, k, x), t)] #![trigger entries_get(y, t)]
        entries_get(entries_insert(y, k, x), t) == entries_get(y, t) by {
        lemma_insert_get(y, k, x, t);
    }
}

/// The component id that the symbol step reads from `symbolData`.
pub open spec fn component_id_of(sd: JsonV) -> Option<Seq<char>> {
    match jget(sd, "symbolID"@) {
        Some(sid) => reference_id(sid),
        None => None,
    }
}

pub open spec fn corners(y: Entries) -> (Option<JsonV>, Option<JsonV>, Option<JsonV>, Option<JsonV>) {
    (
        entries_get(y, "rectangleTopLeftCornerRadius"@),
        entries_get(y, "rectangleTopRightCornerRadius"@),
        entries_get(y, "rectangleBottomRightCornerRadius"@),
        entries_get(y, "rectangleBottomLeftCornerRadius"@),
    )
}

pub open spec fn corners_nonzero(c: (Option<JsonV>, Option<JsonV>, Option<JsonV>, Option<JsonV>)) -> bool {
    nonzero_number(c.0) || nonzero_number(c.1) || nonzero_number(c.2) || nonzero_number(c.3)
}

pub open spec fn corner_array(c: (Option<JsonV>, Option<JsonV>, Option<JsonV>, Option<JsonV>)) -> JsonV {
    JsonV::Array(seq![radius_value(c.0), radius_value(c.1), radius_value(c.2), radius_value(c.3)])
}

/// The members that the text step lifts already hold what it would lift.
pub open spec fn text_settled(y: Entries) -> bool {
    &&& match oget(entries_get(y, "textData"@), "characters"@) {
        Some(c) => entries_get(y, "characters"@) == Some(c),
        None => true,
    }
    &&& match oget(entries_get(y, "textData"@), "style"@) {
        Some(s) => entries_get(y, "style"@) == Some(JsonV::Object(font_renamed(object_entries(s)))),
        None => true,
    }
}

/// The members that the symbol step sets already hold what it would set.
pub open spec fn symbol_settled(y: Entries) -> bool {
    match entries_get(y, "symbolData"@) {
        Some(sd) => {
            &&& match component_id_of(sd) {
                Some(c) => entries_get(y, "componentId"@) == Some(JsonV::Str(c)),
                None => true,
            }
            &&& match jget(sd, "symbolOverrides"@) {
                Some(o) => entries_get(y, "overrides"@) == Some(o),
                None => true,
            }
        },
        None => true,
    }
}

/// The corner radii already hold what the radii step would set.
pub open spec fn radii_settled(y: Entries) -> bool {
    corners_nonzero(corners(y)) ==> entries_get(y, "rectangleCornerRadii"@) == Some(corner_array(corners(y)))
}

/// A frame already has the background that the background step would set.
pub open spec fn background_settled(y: Entries) -> bool {
    ostr(entries_get(y, "type"@)) == Some("FRAME"@) ==> {
        &&& entries_has(y, "backgroundColor"@)
        &&& match solid_fill_color(y) {
            Some(c) => entries_get(y, "backgroundColor"@) == Some(c),
            None => true,
        }
    }
}

/// Entries on which every step of the edit finds nothing to do or sets a
/// member to the value it holds.
pub open spec fn settled_ready(y: Entries) -> bool {
    &&& lacks_all(retired_keys())(y)
    &&& node_lists_arrays(y)
    &&& text_settled(y)
    &&& symbol_settled(y)
    &&& radii_settled(y)
    &&& background_settled(y)
}

proof fn lemma_ready_lacks(y: Entries)
    requires
        settled_ready(y),
    ensures
        !entries_has(y, "stackMode"@),
        !entries_has(y, "stackSpacing"@),
        !entries_has(y, "stackHorizontalPadding"@),
        !entries_has(y, "stackVerticalPadding"@),
        !entries_has(y, "horizontalConstraint"@),
        !entries_has(y, "verticalConstraint"@),
        !entries_has(y, "frameMaskDisabled"@),
        !entries_has(y, "variableConsumptionMap"@),
        !entries_has(y, "colorVar"@),
        !entries_has(y, "styleIdForFill"@),
        !entries_has(y, "styleIdForText"@),
        !entries_has(y, "styleIdForStrokeFill"@),
        !entries_has(y, "styleIdForEffect"@),
        !entries_has(y, "prototypeInteractions"@),
        !entries_has(y, "stackChildAlignSelf"@),
        !entries_has(y, "stackChildPrimaryGrow"@),
        !entries_has(y, "parameterConsumptionMap"@),
        !entries_has(y, "derivedSymbolData"@),
        !entries_has(y, "sharedSymbolVersion"@),
{
    let ks = retired_keys();
    assert(!entries_has(y, ks[0]));
    assert(!entries_has(y, ks[1]));
    assert(!entries_has(y, ks[2]));
    assert(!entries_has(y, ks[3]));
    assert(!entries_has(y, ks[4]));
    assert(!entries_has(y, ks[5]));
    assert(!entries_has(y, ks[6]));
    assert(!entries_has(y, ks[7]));
    assert(!entries_has(y, ks[8]));
    assert(!entries_has(y, ks[9]));
    assert(!entries_has(y, ks[10]));
    assert(!entries_has(y, ks[11]));
    assert(!entries_has(y, ks[12]));
    assert(!entries_has(y, ks[13]));
    assert(!entries_has(y, ks[14]));
    assert(!entries_has(y, ks[15]));
    assert(!entries_has(y, ks[16]));
    assert(!entries_has(y, ks[17]));
    assert(!entries_has(y, ks[18]));
}

proof fn lemma_remove_absent_key(z: Entries, k: Seq<char>)
    requires
        !entries_has(z, k),
    ensures
        entries_remove(z, k) == z,
{
    lemma_remove_absent(z, k);
}

/// Every step of the edit leaves `z`, whose members are those of the ready
/// entries `y`, with the members of `y`.
proof fn lemma_steps_settle(z: Entries, y: Entries)
    requires
        settled_ready(y),
        same_members(z, y),
    ensures
        same_members(align_local_spec(z), y),
{
    lemma_ready_lacks(y);
    let is_node = entries_has(z, "type"@);
    assert(entries_get(z, "type"@) == entries_get(y, "type"@));
    // Auto layout: nothing to do.
    assert(entries_get(z, "stackMode"@) == entries_get(y, "stackMode"@));
    assert(entries_get(z, "stackSpacing"@) == entries_get(y, "stackSpacing"@));
    assert(entries_get(z, "stackHorizontalPadding"@) == entries_get(y, "stackHorizontalPadding"@));
    assert(entries_get(z, "stackVerticalPadding"@) == entries_get(y, "stackVerticalPadding"@));
    let z1 = auto_layout_step(z);
    assert(z1 == z);
    // Text: the lifted members hold what is lifted.
    let z2 = text_step(z1);
    lemma_text_settles(z1, y);
    // Symbol.
    let z3 = symbol_step(z2);
    lemma_symbol_settles(z2, y);
    // Constraints: nothing to do.
    assert(entries_get(z3, "horizontalConstraint"@) == entries_get(y, "horizontalConstraint"@));
    assert(entries_get(z3, "verticalConstraint"@) == entries_get(y, "verticalConstraint"@));
    lemma_remove_absent_key(z3, "horizontalConstraint"@);
    lemma_remove_absent_key(z3, "verticalConstraint"@);
    let z4 = constraints_step(z3);
    assert(z4 == z3);
    // Radii.
    let z5 = radii_step(z4);
    lemma_radii_settles(z4, y);
    // Clips, bound variables, color variables: nothing to do.
    assert(entries_get(z5, "frameMaskDisabled"@) == entries_get(y, "frameMaskDisabled"@));
    let z6 = clips_step(z5);
    assert(z6 == z5);
    assert(entries_get(z6, "variableConsumptionMap"@) == entries_get(y, "variableConsumptionMap"@));
    let z7 = bound_variables_step(z6);
    assert(z7 == z6);
    assert(entries_get(z7, "colorVar"@) == entries_get(y, "colorVar"@));
    let z8 = color_var_local_spec(z7);
    assert(z8 == z7);
    // Background.
    let z9 = background_step(z8);
    lemma_background_settles(z8, y);
    // Styles, renames, property arrays, cleanup: nothing to do.
    let z10 = styles_step(z9);
    lemma_styles_settle(z9, y);
    let z11 = renames_step(z10);
    assert(entries_get(z10, "prototypeInteractions"@) == entries_get(y, "prototypeInteractions"@));
    assert(entries_get(z10, "stackChildAlignSelf"@) == entries_get(y, "stackChildAlignSelf"@));
    assert(entries_get(z10, "stackChildPrimaryGrow"@) == entries_get(y, "stackChildPrimaryGrow"@));
    assert(z11 == z10);
    lemma_tail_settles(z11, is_node, y);
}

proof fn lemma_text_settles(z: Entries, y: Entries)
    requires
        settled_ready(y),
        same_members(z, y),
    ensures
        same_members(text_step(z), y),
{
    reveal_strlit("characters");
    reveal_strlit("style");
    assert("characters"@.len() != "style"@.len());
    let td = entries_get(z, "textData"@);
    assert(td == entries_get(y, "textData"@));
    let z1 = match oget(td, "characters"@) {
        Some(c) => entries_insert(z, "characters"@, c),
        None => z,
    };
    if let Some(c) = oget(td, "characters"@) {
        assert(entries_get(z, "characters"@) == entries_get(y, "characters"@));
        lemma_insert_same(z, "characters"@, c);
    }
    assert(same_members(z1, y));
    if let Some(s) = oget(td, "style"@) {
        let x = JsonV::Object(font_renamed(object_entries(s)));
        assert(entries_get(z1, "style"@) == entries_get(y, "style"@));
        lemma_insert_same(z1, "style"@, x);
    }
}

proof fn lemma_symbol_settles(z: Entries, y: Entries)
    requires
        settled_ready(y),
        same_members(z, y),
    ensures
        same_members(symbol_step(z), y),
{
    reveal_strlit("componentId");
    reveal_strlit("overrides");
    assert("componentId"@.len() != "overrides"@.len());
    assert(entries_get(z, "symbolData"@) == entries_get(y, "symbolData"@));
    if let Some(sd) = entries_get(z, "symbolData"@) {
        let cid = component_id_of(sd);
        let z1 = match cid {
            Some(c) => entries_insert(z, "componentId"@, JsonV::Str(c)),
            None => z,
        };
        if let Some(c) = cid {
            assert(entries_get(z, "componentId"@) == entries_get(y, "componentId"@));
            lemma_insert_same(z, "componentId"@, JsonV::Str(c));
        }
        assert(same_members(z1, y));
        if let Some(o) = jget(sd, "symbolOverrides"@) {
            assert(entries_get(z1, "overrides"@) == entries_get(y, "overrides"@));
            lemma_insert_same(z1, "overrides"@, o);
        }
    }
}

proof fn lemma_radii_settles(z: Entries, y: Entries)
    requires
        settled_ready(y),
        same_members(z, y),
    ensures
        same_members(radii_step(z), y),
{
    assert(entries_get(z, "rectangleTopLeftCornerRadius"@) == entries_get(y, "rectangleTopLeftCornerRadius"@));
    assert(entries_get(z, "rectangleTopRightCornerRadius"@) == entries_get(y, "rectangleTopRightCornerRadius"@));
    assert(entries_get(z, "rectangleBottomRightCornerRadius"@) == entries_get(y, "rectangleBottomRightCornerRadius"@));
    assert(entries_get(z, "rectangleBottomLeftCornerRadius"@) == entries_get(y, "rectangleBottomLeftCornerRadius"@));
    assert(corners(z) == corners(y));
    if corners_nonzero(corners(z)) {
        assert(entries_get(z, "rectangleCornerRadii"@) == entries_get(y, "rectangleCornerRadii"@));
        lemma_insert_same(z, "rectangleCornerRadii"@, corner_array(corners(z)));
    }
}

proof fn lemma_background_settles(z: Entries, y: Entries)
    requires
        settled_ready(y),
        same_members(z, y),
    ensures
        same_members(background_step(z), y),
{
    assert(entries_get(z, "type"@) == entries_get(y, "type"@));
    assert(entries_get(z, "fills"@) == entries_get(y, "fills"@));
    assert(entries_get(z, "backgroundColor"@) == entries_get(y, "backgroundColor"@));
    assert(solid_fill_color(z) == solid_fill_color(y));
    if ostr(entries_get(z, "type"@)) == Some("FRAME"@) {
        let z1 = match solid_fill_color(z) {
            Some(c) => entries_insert(z, "backgroundColor"@, c),
            None => z,
        };
        if let Some(c) = solid_fill_color(z) {
            lemma_insert_same(z, "backgroundColor"@, c);
        }
        assert(same_members(z1, y));
        assert(entries_get(z1, "backgroundColor"@) == entries_get(y, "backgroundColor"@));
        assert(entries_has(z1, "backgroundColor"@));
    }
}

proof fn lemma_styles_settle(z: Entries, y: Entries)
    requires
        settled_ready(y),
        same_members(z, y),
    ensures
        styles_step(z) == z,
{
    assert(entries_get(z, "styleIdForFill"@) == entries_get(y, "styleIdForFill"@));
    assert(entries_get(z, "styleIdForText"@) == entries_get(y, "styleIdForText"@));
    assert(entries_get(z, "styleIdForStrokeFill"@) == entries_get(y, "styleIdForStrokeFill"@));
    assert(entries_get(z, "styleIdForEffect"@) == entries_get(y, "styleIdForEffect"@));
    let a0: (Entries, Entries) = (z, Seq::empty());
    assert(style_step(a0, "styleIdForFill"@, "fill"@) == a0);
    assert(style_step(a0, "styleIdForText"@, "text"@) == a0);
    assert(style_step(a0, "styleIdForStrokeFill"@, "stroke"@) == a0);
    assert(style_step(a0, "styleIdForEffect"@, "effect"@) == a0);
}

proof fn lemma_tail_settles(z: Entries, is_node: bool, y: Entries)
    requires
        settled_ready(y),
        same_members(z, y),
        is_node == entries_has(y, "type"@),
    ensures
        same_members(cleanup_step(property_arrays_step(z, is_node)), y),
{
    assert(entries_get(z, "type"@) == entries_get(y, "type"@));
    assert(entries_get(z, "fills"@) == entries_get(y, "fills"@));
    assert(entries_get(z, "strokes"@) == entries_get(y, "strokes"@));
    assert(entries_get(z, "effects"@) == entries_get(y, "effects"@));
    assert(entries_get(z, "interactions"@) == entries_get(y, "interactions"@));
    assert(property_arrays_step(z, is_node) == z);
    assert(entries_get(z, "parameterConsumptionMap"@) == entries_get(y, "parameterConsumptionMap"@));
    assert(entries_get(z, "derivedSymbolData"@) == entries_get(y, "derivedSymbolData"@));
    assert(entries_get(z, "sharedSymbolVersion"@) == entries_get(y, "sharedSymbolVersion"@));
    let c1 = entries_remove(z, "parameterConsumptionMap"@);
    lemma_remove_absent_key(z, "parameterConsumptionMap"@);
    lemma_remove_absent_key(z, "derivedSymbolData"@);
    lemma_remove_absent_key(z, "sharedSymbolVersion"@);
}

} // verus!

verus! {

// ---------------------------------------------------------------------------
// What the alignment makes of the members it reads again
// ---------------------------------------------------------------------------

/// A member walked by the alignment.
pub open spec fn aligned_member(o: Option<JsonV>) -> Option<JsonV> {
    match o {
        Some(x) => Some(transformed(x, Pass::AlignFields)),
        None => None,
    }
}

/// The value that the alignment makes of `x` holds, under a key that no step
/// of the edit touches, the aligned value that `x` holds under it.
proof fn lemma_aligned_get(x: JsonV, t: Seq<char>)
    requires
        t != "stackMode"@,
        t != "layoutMode"@,
        t != "stackSpacing"@,
        t != "itemSpacing"@,
        t != "stackHorizontalPadding"@,
        t != "paddingLeft"@,
        t != "paddingRight"@,
        t != "stackVerticalPadding"@,
        t != "paddingTop"@,
        t != "paddingBottom"@,
        t != "characters"@,
        t != "style"@,
        t != "componentId"@,
        t != "overrides"@,
        t != "horizontalConstraint"@,
        t != "verticalConstraint"@,
        t != "constraints"@,
        t != "rectangleCornerRadii"@,
        t != "frameMaskDisabled"@,
        t != "clipsContent"@,
        t != "variableConsumptionMap"@,
        t != "boundVariables"@,
        t != "colorVar"@,
        t != "backgroundColor"@,
        t != "styleIdForFill"@,
        t != "styleIdForText"@,
        t != "styleIdForStrokeFill"@,
        t != "styleIdForEffect"@,
        t != "styles"@,
        t != "prototypeInteractions"@,
        t != "interactions"@,
        t != "stackChildAlignSelf"@,
        t != "layoutAlign"@,
        t != "stackChildPrimaryGrow"@,
        t != "layoutGrow"@,
        t != "fills"@,
        t != "strokes"@,
        t != "effects"@,
        t != "parameterConsumptionMap"@,
        t != "derivedSymbolData"@,
        t != "sharedSymbolVersion"@,
    ensures
        jget(transformed(x, Pass::AlignFields), t) == aligned_member(jget(x, t)),
{
    let p = Pass::AlignFields;
    lemma_transformed_shape(x, p);
    if let JsonV::Object(xe) = x {
        lemma_transformed_object(xe, p);
        lemma_get_walked(align_local_spec(xe), p, t);
        lemma_get_align(xe, t);
    }
}

proof fn lemma_aligned_get_key(x: JsonV, k: Seq<char>)
    requires
        k == "symbolID"@ || k == "symbolOverrides"@ || k == "guid"@ || k == "sessionID"@ || k == "localID"@
            || k == "color"@ || k == "type"@ || k == "textData"@ || k == "symbolData"@
            || k == "rectangleTopLeftCornerRadius"@ || k == "rectangleTopRightCornerRadius"@
            || k == "rectangleBottomRightCornerRadius"@ || k == "rectangleBottomLeftCornerRadius"@,
    ensures
        jget(transformed(x, Pass::AlignFields), k) == aligned_member(jget(x, k)),
{
    lemma_untouched_keys(k);
    lemma_aligned_get(x, k);
}

/// Aligning a member changes no scalar and makes no scalar of anything else.
proof fn lemma_aligned_scalar(o: Option<JsonV>)
    ensures
        ostr(aligned_member(o)) == ostr(o),
        crate::json::ou64(aligned_member(o)) == crate::json::ou64(o),
        nonzero_number(aligned_member(o)) == nonzero_number(o),
        radius_value(aligned_member(o)) == radius_value(o),
        o matches Some(x) ==> (crate::json::jas_str(transformed(x, Pass::AlignFields)) == crate::json::jas_str(x)),
{
    if let Some(x) = o {
        lemma_transformed_shape(x, Pass::AlignFields);
    }
}

proof fn lemma_reference_id_aligned(x: JsonV)
    ensures
        reference_id(transformed(x, Pass::AlignFields)) == reference_id(x),
{
    let p = Pass::AlignFields;
    lemma_aligned_get_key(x, "guid"@);
    lemma_aligned_scalar(Some(x));
    if let Some(g) = jget(x, "guid"@) {
        lemma_aligned_get_key(g, "sessionID"@);
        lemma_aligned_get_key(g, "localID"@);
        lemma_aligned_scalar(jget(g, "sessionID"@));
        lemma_aligned_scalar(jget(g, "localID"@));
    }
}

proof fn lemma_component_id_aligned(sd: JsonV)
    ensures
        component_id_of(transformed(sd, Pass::AlignFields)) == component_id_of(sd),
{
    lemma_aligned_get_key(sd, "symbolID"@);
    if let Some(sid) = jget(sd, "symbolID"@) {
        lemma_reference_id_aligned(sid);
    }
}

} // verus!

verus! {

// ---------------------------------------------------------------------------
// The object that the alignment makes is ready for a second edit
// ---------------------------------------------------------------------------

proof fn lemma_get_before_background(es: Entries, t: Seq<char>)
    requires
        t != "stackMode"@,
        t != "layoutMode"@,
        t != "stackSpacing"@,
        t != "itemSpacing"@,
        t != "stackHorizontalPadding"@,
        t != "paddingLeft"@,
        t != "paddingRight"@,
        t != "stackVerticalPadding"@,
        t != "paddingTop"@,
        t != "paddingBottom"@,
        t != "characters"@,
        t != "style"@,
        t != "componentId"@,
        t != "overrides"@,
        t != "horizontalConstraint"@,
        t != "verticalConstraint"@,
        t != "constraints"@,
        t != "rectangleCornerRadii"@,
        t != "frameMaskDisabled"@,
        t != "clipsContent"@,
        t != "variableConsumptionMap"@,
        t != "boundVariables"@,
        t != "colorVar"@,
    ensures
        entries_get(before_background(es), t) == entries_get(es, t),
{
    let a = auto_layout_step(es);
    let x2 = text_step(a);
    let x3 = symbol_step(x2);
    let x4 = constraints_step(x3);
    let x5 = radii_step(x4);
    let x6 = clips_step(x5);
    let x7 = bound_variables_step(x6);
    lemma_get_auto_layout(es, t);
    lemma_get_text(a, t);
    lemma_get_symbol(x2, t);
    lemma_get_constraints(x3, t);
    lemma_get_radii(x4, t);
    lemma_get_clips(x5, t);
    lemma_get_bound_variables(x6, t);
    lemma_get_color_var(x7, t);
}

/// The fills that the steps from the styles on leave a node: its own, or an
/// empty array.
proof fn lemma_fills_from_styles(x: Entries)
    ensures
        entries_get(from_styles(x, true), "fills"@) == (if entries_has(x, "fills"@) {
            entries_get(x, "fills"@)
        } else {
            Some(JsonV::Array(Seq::empty()))
        }),
{
    reveal_strlit("fills");
    assert("fills"@.len() == 5 && "fills"@[0] == 'f' && "fills"@[1] == 'i' && "fills"@[2] == 'l');
    reveal_strlit("strokes");
    assert("strokes"@.len() == 7 && "strokes"@[0] == 's' && "strokes"@[1] == 't' && "strokes"@[2] == 'r');
    reveal_strlit("effects");
    assert("effects"@.len() == 7 && "effects"@[0] == 'e' && "effects"@[1] == 'f' && "effects"@[2] == 'f');
    reveal_strlit("interactions");
    assert("interactions"@.len() == 12 && "interactions"@[0] == 'i' && "interactions"@[1] == 'n' && "interactions"@[2] == 't');
    reveal_strlit("parameterConsumptionMap");
    assert("parameterConsumptionMap"@.len() == 23 && "parameterConsumptionMap"@[0] == 'p' && "parameterConsumptionMap"@[1] == 'a' && "parameterConsumptionMap"@[2] == 'r');
    reveal_strlit("derivedSymbolData");
    assert("derivedSymbolData"@.len() == 17 && "derivedSymbolData"@[0] == 'd' && "derivedSymbolData"@[1] == 'e' && "derivedSymbolData"@[2] == 'r');
    reveal_strlit("sharedSymbolVersion");
    assert("sharedSymbolVersion"@.len() == 19 && "sharedSymbolVersion"@[0] == 's' && "sharedSymbolVersion"@[1] == 'h' && "sharedSymbolVersion"@[2] == 'a');
    reveal_strlit("styleIdForFill");
    assert("styleIdForFill"@.len() == 14 && "styleIdForFill"@[0] == 's' && "styleIdForFill"@[1] == 't' && "styleIdForFill"@[2] == 'y');
    reveal_strlit("styleIdForText");
    assert("styleIdForText"@.len() == 14 && "styleIdForText"@[0] == 's' && "styleIdForText"@[1] == 't' && "styleIdForText"@[2] == 'y');
    reveal_strlit("styleIdForStrokeFill");
    assert("styleIdForStrokeFill"@.len() == 20 && "styleIdForStrokeFill"@[0] == 's' && "styleIdForStrokeFill"@[1] == 't' && "styleIdForStrokeFill"@[2] == 'y');
    reveal_strlit("styleIdForEffect");
    assert("styleIdForEffect"@.len() == 16 && "styleIdForEffect"@[0] == 's' && "styleIdForEffect"@[1] == 't' && "styleIdForEffect"@[2] == 'y');
    reveal_strlit("styles");
    assert("styles"@.len() == 6 && "styles"@[0] == 's' && "styles"@[1] == 't' && "styles"@[2] == 'y');
    reveal_strlit("prototypeInteractions");
    assert("prototypeInteractions"@.len() == 21 && "prototypeInteractions"@[0] == 'p' && "prototypeInteractions"@[1] == 'r' && "prototypeInteractions"@[2] == 'o');
    reveal_strlit("stackChildAlignSelf");
    assert("stackChildAlignSelf"@.len() == 19 && "stackChildAlignSelf"@[0] == 's' && "stackChildAlignSelf"@[1] == 't' && "stackChildAlignSelf"@[2] == 'a');
    reveal_strlit("layoutAlign");
    assert("layoutAlign"@.len() == 11 && "layoutAlign"@[0] == 'l' && "layoutAlign"@[1] == 'a' && "layoutAlign"@[2] == 'y');
    reveal_strlit("stackChildPrimaryGrow");
    assert("stackChildPrimaryGrow"@.len() == 21 && "stackChildPrimaryGrow"@[0] == 's' && "stackChildPrimaryGrow"@[1] == 't' && "stackChildPrimaryGrow"@[2] == 'a');
    reveal_strlit("layoutGrow");
    assert("layoutGrow"@.len() == 10 && "layoutGrow"@[0] == 'l' && "layoutGrow"@[1] == 'a' && "layoutGrow"@[2] == 'y');
    let t = "fills"@;
    let y = renames_step(styles_step(x));
    lemma_get_styles(x, t);
    lemma_get_renames(styles_step(x), t);
    let es1 = with_default_array(y, t);
    if !entries_has(y, t) {
        lemma_insert_get(y, t, JsonV::Array(Seq::empty()), t);
    }
    let es2 = with_default_array(es1, "strokes"@);
    let es3 = with_default_array(es2, "effects"@);
    lemma_get_default_array(es1, "strokes"@, t);
    lemma_get_default_array(es2, "effects"@, t);
    lemma_get_default_array(es3, "interactions"@, t);
    let pa = property_arrays_step(y, true);
    let c1 = entries_remove(pa, "parameterConsumptionMap"@);
    let c2 = entries_remove(c1, "derivedSymbolData"@);
    lemma_remove_other(pa, "parameterConsumptionMap"@, t);
    lemma_remove_other(c1, "derivedSymbolData"@, t);
    lemma_remove_other(c2, "sharedSymbolVersion"@, t);
}

proof fn lemma_solid_aligned(z: Entries, w: Entries)
    requires
        entries_get(w, "fills"@) == aligned_member(entries_get(z, "fills"@)),
    ensures
        solid_fill_color(w) == aligned_member(solid_fill_color(z)),
{
    let p = Pass::AlignFields;
    if let Some(f) = entries_get(z, "fills"@) {
        lemma_transformed_shape(f, p);
        if let JsonV::Array(items) = f {
            if items.len() > 0 {
                let f0 = items[0];
                lemma_aligned_get_key(f0, "type"@);
                lemma_aligned_get_key(f0, "color"@);
                lemma_aligned_scalar(jget(f0, "type"@));
            }
        }
    }
}

proof fn lemma_symbol_ready(es: Entries)
    ensures
        symbol_settled(walked(align_local_spec(es), Pass::AlignFields)),
{
    let p = Pass::AlignFields;
    let is_node = entries_has(es, "type"@);
    let es1 = align_local_spec(es);
    let es2 = walked(es1, p);
    lemma_align_stages(es);
    reveal_strlit("horizontalConstraint");
    assert("horizontalConstraint"@.len() == 20 && "horizontalConstraint"@[0] == 'h' && "horizontalConstraint"@[1] == 'o' && "horizontalConstraint"@[2] == 'r');
    reveal_strlit("verticalConstraint");
    assert("verticalConstraint"@.len() == 18 && "verticalConstraint"@[0] == 'v' && "verticalConstraint"@[1] == 'e' && "verticalConstraint"@[2] == 'r');
    reveal_strlit("constraints");
    assert("constraints"@.len() == 11 && "constraints"@[0] == 'c' && "constraints"@[1] == 'o' && "constraints"@[2] == 'n');
    reveal_strlit("rectangleCornerRadii");
    assert("rectangleCornerRadii"@.len() == 20 && "rectangleCornerRadii"@[0] == 'r' && "rectangleCornerRadii"@[1] == 'e' && "rectangleCornerRadii"@[2] == 'c');
    reveal_strlit("frameMaskDisabled");
    assert("frameMaskDisabled"@.len() == 17 && "frameMaskDisabled"@[0] == 'f' && "frameMaskDisabled"@[1] == 'r' && "frameMaskDisabled"@[2] == 'a');
    reveal_strlit("clipsContent");
    assert("clipsContent"@.len() == 12 && "clipsContent"@[0] == 'c' && "clipsContent"@[1] == 'l' && "clipsContent"@[2] == 'i');
    reveal_strlit("variableConsumptionMap");
    assert("variableConsumptionMap"@.len() == 22 && "variableConsumptionMap"@[0] == 'v' && "variableConsumptionMap"@[1] == 'a' && "variableConsumptionMap"@[2] == 'r');
    reveal_strlit("boundVariables");
    assert("boundVariables"@.len() == 14 && "boundVariables"@[0] == 'b' && "boundVariables"@[1] == 'o' && "boundVariables"@[2] == 'u');
    reveal_strlit("colorVar");
    assert("colorVar"@.len() == 8 && "colorVar"@[0] == 'c' && "colorVar"@[1] == 'o' && "colorVar"@[2] == 'l');
    reveal_strlit("backgroundColor");
    assert("backgroundColor"@.len() == 15 && "backgroundColor"@[0] == 'b' && "backgroundColor"@[1] == 'a' && "backgroundColor"@[2] == 'c');
    reveal_strlit("styleIdForFill");
    assert("styleIdForFill"@.len() == 14 && "styleIdForFill"@[0] == 's' && "styleIdForFill"@[1] == 't' && "styleIdForFill"@[2] == 'y');
    reveal_strlit("styleIdForText");
    assert("styleIdForText"@.len() == 14 && "styleIdForText"@[0] == 's' && "styleIdForText"@[1] == 't' && "styleIdForText"@[2] == 'y');
    reveal_strlit("styleIdForStrokeFill");
    assert("styleIdForStrokeFill"@.len() == 20 && "styleIdForStrokeFill"@[0] == 's' && "styleIdForStrokeFill"@[1] == 't' && "styleIdForStrokeFill"@[2] == 'y');
    reveal_strlit("styleIdForEffect");
    assert("styleIdForEffect"@.len() == 16 && "styleIdForEffect"@[0] == 's' && "styleIdForEffect"@[1] == 't' && "styleIdForEffect"@[2] == 'y');
    reveal_strlit("styles");
    assert("styles"@.len() == 6 && "styles"@[0] == 's' && "styles"@[1] == 't' && "styles"@[2] == 'y');
    reveal_strlit("prototypeInteractions");
    assert("prototypeInteractions"@.len() == 21 && "prototypeInteractions"@[0] == 'p' && "prototypeInteractions"@[1] == 'r' && "prototypeInteractions"@[2] == 'o');
    reveal_strlit("interactions");
    assert("interactions"@.len() == 12 && "interactions"@[0] == 'i' && "interactions"@[1] == 'n' && "interactions"@[2] == 't');
    reveal_strlit("stackChildAlignSelf");
    assert("stackChildAlignSelf"@.len() == 19 && "stackChildAlignSelf"@[0] == 's' && "stackChildAlignSelf"@[1] == 't' && "stackChildAlignSelf"@[2] == 'a');
    reveal_strlit("layoutAlign");
    assert("layoutAlign"@.len() == 11 && "layoutAlign"@[0] == 'l' && "layoutAlign"@[1] == 'a' && "layoutAlign"@[2] == 'y');
    reveal_strlit("stackChildPrimaryGrow");
    assert("stackChildPrimaryGrow"@.len() == 21 && "stackChildPrimaryGrow"@[0] == 's' && "stackChildPrimaryGrow"@[1] == 't' && "stackChildPrimaryGrow"@[2] == 'a');
    reveal_strlit("layoutGrow");
    assert("layoutGrow"@.len() == 10 && "layoutGrow"@[0] == 'l' && "layoutGrow"@[1] == 'a' && "layoutGrow"@[2] == 'y');
    reveal_strlit("fills");
    assert("fills"@.len() == 5 && "fills"@[0] == 'f' && "fills"@[1] == 'i' && "fills"@[2] == 'l');
    reveal_strlit("strokes");
    assert("strokes"@.len() == 7 && "strokes"@[0] == 's' && "strokes"@[1] == 't' && "strokes"@[2] == 'r');
    reveal_strlit("effects");
    assert("effects"@.len() == 7 && "effects"@[0] == 'e' && "effects"@[1] == 'f' && "effects"@[2] == 'f');
    reveal_strlit("parameterConsumptionMap");
    assert("parameterConsumptionMap"@.len() == 23 && "parameterConsumptionMap"@[0] == 'p' && "parameterConsumptionMap"@[1] == 'a' && "parameterConsumptionMap"@[2] == 'r');
    reveal_strlit("derivedSymbolData");
    assert("derivedSymbolData"@.len() == 17 && "derivedSymbolData"@[0] == 'd' && "derivedSymbolData"@[1] == 'e' && "derivedSymbolData"@[2] == 'r');
    reveal_strlit("sharedSymbolVersion");
    assert("sharedSymbolVersion"@.len() == 19 && "sharedSymbolVersion"@[0] == 's' && "sharedSymbolVersion"@[1] == 'h' && "sharedSymbolVersion"@[2] == 'a');
    reveal_strlit("stackMode");
    assert("stackMode"@.len() == 9 && "stackMode"@[0] == 's' && "stackMode"@[1] == 't' && "stackMode"@[2] == 'a');
    reveal_strlit("layoutMode");
    assert("layoutMode"@.len() == 10 && "layoutMode"@[0] == 'l' && "layoutMode"@[1] == 'a' && "layoutMode"@[2] == 'y');
    reveal_strlit("stackSpacing");
    assert("stackSpacing"@.len() == 12 && "stackSpacing"@[0] == 's' && "stackSpacing"@[1] == 't' && "stackSpacing"@[2] == 'a');
    reveal_strlit("itemSpacing");
    assert("itemSpacing"@.len() == 11 && "itemSpacing"@[0] == 'i' && "itemSpacing"@[1] == 't' && "itemSpacing"@[2] == 'e');
    reveal_strlit("stackHorizontalPadding");
    assert("stackHorizontalPadding"@.len() == 22 && "stackHorizontalPadding"@[0] == 's' && "stackHorizontalPadding"@[1] == 't' && "stackHorizontalPadding"@[2] == 'a');
    reveal_strlit("paddingLeft");
    assert("paddingLeft"@.len() == 11 && "paddingLeft"@[0] == 'p' && "paddingLeft"@[1] == 'a' && "paddingLeft"@[2] == 'd');
    reveal_strlit("paddingRight");
    assert("paddingRight"@.len() == 12 && "paddingRight"@[0] == 'p' && "paddingRight"@[1] == 'a' && "paddingRight"@[2] == 'd');
    reveal_strlit("stackVerticalPadding");
    assert("stackVerticalPadding"@.len() == 20 && "stackVerticalPadding"@[0] == 's' && "stackVerticalPadding"@[1] == 't' && "stackVerticalPadding"@[2] == 'a');
    reveal_strlit("paddingTop");
    assert("paddingTop"@.len() == 10 && "paddingTop"@[0] == 'p' && "paddingTop"@[1] == 'a' && "paddingTop"@[2] == 'd');
    reveal_strlit("paddingBottom");
    assert("paddingBottom"@.len() == 13 && "paddingBottom"@[0] == 'p' && "paddingBottom"@[1] == 'a' && "paddingBottom"@[2] == 'd');
    reveal_strlit("characters");
    assert("characters"@.len() == 10 && "characters"@[0] == 'c' && "characters"@[1] == 'h' && "characters"@[2] == 'a');
    reveal_strlit("style");
    assert("style"@.len() == 5 && "style"@[0] == 's' && "style"@[1] == 't' && "style"@[2] == 'y');
    reveal_strlit("componentId");
    assert("componentId"@.len() == 11 && "componentId"@[0] == 'c' && "componentId"@[1] == 'o' && "componentId"@[2] == 'm');
    reveal_strlit("overrides");
    assert("overrides"@.len() == 9 && "overrides"@[0] == 'o' && "overrides"@[1] == 'v' && "overrides"@[2] == 'e');
    reveal_strlit("symbolData");
    assert("symbolData"@.len() == 10 && "symbolData"@[0] == 's' && "symbolData"@[1] == 'y' && "symbolData"@[2] == 'm');
    let a = auto_layout_step(es);
    let x2 = text_step(a);
    let x3 = symbol_step(x2);
    lemma_untouched_keys("symbolData"@);
    lemma_get_align(es, "symbolData"@);
    lemma_get_walked(es1, p, "symbolData"@);
    lemma_get_auto_layout(es, "symbolData"@);
    lemma_get_text(a, "symbolData"@);
    lemma_get_walked(es1, p, "componentId"@);
    lemma_get_walked(es1, p, "overrides"@);
    lemma_get_from_constraints(x3, is_node, "componentId"@);
    lemma_get_from_constraints(x3, is_node, "overrides"@);
    if let Some(sd) = entries_get(es, "symbolData"@) {
        lemma_component_id_aligned(sd);
        lemma_aligned_get_key(sd, "symbolOverrides"@);
        let cid = component_id_of(sd);
        let y1 = match cid {
            Some(c) => entries_insert(x2, "componentId"@, JsonV::Str(c)),
            None => x2,
        };
        if let Some(c) = cid {
            lemma_insert_get(x2, "componentId"@, JsonV::Str(c), "componentId"@);
            lemma_transformed_shape(JsonV::Str(c), p);
        }
        if let Some(o) = jget(sd, "symbolOverrides"@) {
            lemma_insert_get(y1, "overrides"@, o, "componentId"@);
            lemma_insert_get(y1, "overrides"@, o, "overrides"@);
        }
    }
}

proof fn lemma_corner_ready(es: Entries, k: Seq<char>)
    requires
        k == "rectangleTopLeftCornerRadius"@ || k == "rectangleTopRightCornerRadius"@
            || k == "rectangleBottomRightCornerRadius"@ || k == "rectangleBottomLeftCornerRadius"@,
    ensures
        entries_get(walked(align_local_spec(es), Pass::AlignFields), k) == aligned_member(entries_get(es, k)),
        entries_get(constraints_step(symbol_step(text_step(auto_layout_step(es)))), k) == entries_get(es, k),
{
    let a = auto_layout_step(es);
    lemma_untouched_keys(k);
    lemma_get_align(es, k);
    lemma_get_walked(align_local_spec(es), Pass::AlignFields, k);
    lemma_get_auto_layout(es, k);
    lemma_get_text(a, k);
    lemma_get_symbol(text_step(a), k);
    lemma_get_constraints(symbol_step(text_step(a)), k);
}

proof fn lemma_radii_ready(es: Entries)
    ensures
        radii_settled(walked(align_local_spec(es), Pass::AlignFields)),
{
    let p = Pass::AlignFields;
    let is_node = entries_has(es, "type"@);
    let es1 = align_local_spec(es);
    let es2 = walked(es1, p);
    lemma_align_stages(es);
    reveal_strlit("horizontalConstraint");
    assert("horizontalConstraint"@.len() == 20 && "horizontalConstraint"@[0] == 'h' && "horizontalConstraint"@[1] == 'o' && "horizontalConstraint"@[2] == 'r');
    reveal_strlit("verticalConstraint");
    assert("verticalConstraint"@.len() == 18 && "verticalConstraint"@[0] == 'v' && "verticalConstraint"@[1] == 'e' && "verticalConstraint"@[2] == 'r');
    reveal_strlit("constraints");
    assert("constraints"@.len() == 11 && "constraints"@[0] == 'c' && "constraints"@[1] == 'o' && "constraints"@[2] == 'n');
    reveal_strlit("rectangleCornerRadii");
    assert("rectangleCornerRadii"@.len() == 20 && "rectangleCornerRadii"@[0] == 'r' && "rectangleCornerRadii"@[1] == 'e' && "rectangleCornerRadii"@[2] == 'c');
    reveal_strlit("frameMaskDisabled");
    assert("frameMaskDisabled"@.len() == 17 && "frameMaskDisabled"@[0] == 'f' && "frameMaskDisabled"@[1] == 'r' && "frameMaskDisabled"@[2] == 'a');
    reveal_strlit("clipsContent");
    assert("clipsContent"@.len() == 12 && "clipsContent"@[0] == 'c' && "clipsContent"@[1] == 'l' && "clipsContent"@[2] == 'i');
    reveal_strlit("variableConsumptionMap");
    assert("variableConsumptionMap"@.len() == 22 && "variableConsumptionMap"@[0] == 'v' && "variableConsumptionMap"@[1] == 'a' && "variableConsumptionMap"@[2] == 'r');
    reveal_strlit("boundVariables");
    assert("boundVariables"@.len() == 14 && "boundVariables"@[0] == 'b' && "boundVariables"@[1] == 'o' && "boundVariables"@[2] == 'u');
    reveal_strlit("colorVar");
    assert("colorVar"@.len() == 8 && "colorVar"@[0] == 'c' && "colorVar"@[1] == 'o' && "colorVar"@[2] == 'l');
    reveal_strlit("backgroundColor");
    assert("backgroundColor"@.len() == 15 && "backgroundColor"@[0] == 'b' && "backgroundColor"@[1] == 'a' && "backgroundColor"@[2] == 'c');
    reveal_strlit("styleIdForFill");
    assert("styleIdForFill"@.len() == 14 && "styleIdForFill"@[0] == 's' && "styleIdForFill"@[1] == 't' && "styleIdForFill"@[2] == 'y');
    reveal_strlit("styleIdForText");
    assert("styleIdForText"@.len() == 14 && "styleIdForText"@[0] == 's' && "styleIdForText"@[1] == 't' && "styleIdForText"@[2] == 'y');
    reveal_strlit("styleIdForStrokeFill");
    assert("styleIdForStrokeFill"@.len() == 20 && "styleIdForStrokeFill"@[0] == 's' && "styleIdForStrokeFill"@[1] == 't' && "styleIdForStrokeFill"@[2] == 'y');
    reveal_strlit("styleIdForEffect");
    assert("styleIdForEffect"@.len() == 16 && "styleIdForEffect"@[0] == 's' && "styleIdForEffect"@[1] == 't' && "styleIdForEffect"@[2] == 'y');
    reveal_strlit("styles");
    assert("styles"@.len() == 6 && "styles"@[0] == 's' && "styles"@[1] == 't' && "styles"@[2] == 'y');
    reveal_strlit("prototypeInteractions");
    assert("prototypeInteractions"@.len() == 21 && "prototypeInteractions"@[0] == 'p' && "prototypeInteractions"@[1] == 'r' && "prototypeInteractions"@[2] == 'o');
    reveal_strlit("interactions");
    assert("interactions"@.len() == 12 && "interactions"@[0] == 'i' && "interactions"@[1] == 'n' && "interactions"@[2] == 't');
    reveal_strlit("stackChildAlignSelf");
    assert("stackChildAlignSelf"@.len() == 19 && "stackChildAlignSelf"@[0] == 's' && "stackChildAlignSelf"@[1] == 't' && "stackChildAlignSelf"@[2] == 'a');
    reveal_strlit("layoutAlign");
    assert("layoutAlign"@.len() == 11 && "layoutAlign"@[0] == 'l' && "layoutAlign"@[1] == 'a' && "layoutAlign"@[2] == 'y');
    reveal_strlit("stackChildPrimaryGrow");
    assert("stackChildPrimaryGrow"@.len() == 21 && "stackChildPrimaryGrow"@[0] == 's' && "stackChildPrimaryGrow"@[1] == 't' && "stackChildPrimaryGrow"@[2] == 'a');
    reveal_strlit("layoutGrow");
    assert("layoutGrow"@.len() == 10 && "layoutGrow"@[0] == 'l' && "layoutGrow"@[1] == 'a' && "layoutGrow"@[2] == 'y');
    reveal_strlit("fills");
    assert("fills"@.len() == 5 && "fills"@[0] == 'f' && "fills"@[1] == 'i' && "fills"@[2] == 'l');
    reveal_strlit("strokes");
    assert("strokes"@.len() == 7 && "strokes"@[0] == 's' && "strokes"@[1] == 't' && "strokes"@[2] == 'r');
    reveal_strlit("effects");
    assert("effects"@.len() == 7 && "effects"@[0] == 'e' && "effects"@[1] == 'f' && "effects"@[2] == 'f');
    reveal_strlit("parameterConsumptionMap");
    assert("parameterConsumptionMap"@.len() == 23 && "parameterConsumptionMap"@[0] == 'p' && "parameterConsumptionMap"@[1] == 'a' && "parameterConsumptionMap"@[2] == 'r');
    reveal_strlit("derivedSymbolData");
    assert("derivedSymbolData"@.len() == 17 && "derivedSymbolData"@[0] == 'd' && "derivedSymbolData"@[1] == 'e' && "derivedSymbolData"@[2] == 'r');
    reveal_strlit("sharedSymbolVersion");
    assert("sharedSymbolVersion"@.len() == 19 && "sharedSymbolVersion"@[0] == 's' && "sharedSymbolVersion"@[1] == 'h' && "sharedSymbolVersion"@[2] == 'a');
    let x4 = constraints_step(symbol_step(text_step(auto_layout_step(es))));
    lemma_corner_ready(es, "rectangleTopLeftCornerRadius"@);
    lemma_corner_ready(es, "rectangleTopRightCornerRadius"@);
    lemma_corner_ready(es, "rectangleBottomRightCornerRadius"@);
    lemma_corner_ready(es, "rectangleBottomLeftCornerRadius"@);
    lemma_aligned_scalar(entries_get(es, "rectangleTopLeftCornerRadius"@));
    lemma_aligned_scalar(entries_get(es, "rectangleTopRightCornerRadius"@));
    lemma_aligned_scalar(entries_get(es, "rectangleBottomRightCornerRadius"@));
    lemma_aligned_scalar(entries_get(es, "rectangleBottomLeftCornerRadius"@));
    assert(corners(es2) == (
        aligned_member(corners(es).0),
        aligned_member(corners(es).1),
        aligned_member(corners(es).2),
        aligned_member(corners(es).3),
    ));
    assert(corners(x4) == corners(es));
    assert(corner_array(corners(es2)) == corner_array(corners(es)));
    if corners_nonzero(corners(es)) {
        let arr = corner_array(corners(x4));
        lemma_insert_get(x4, "rectangleCornerRadii"@, arr, "rectangleCornerRadii"@);
        lemma_get_from_clips(radii_step(x4), is_node, "rectangleCornerRadii"@);
        lemma_get_walked(es1, p, "rectangleCornerRadii"@);
        lemma_transformed_shape(arr, p);
        let items = arr->Array_0;
        assert forall|i: int| 0 <= i < items.len() implies #[trigger] transformed(items[i], p) == items[i] by {
            lemma_transformed_shape(items[i], p);
        }
        assert(transformed(arr, p)->Array_0 =~= items);
    }
}

proof fn lemma_background_ready(es: Entries)
    ensures
        background_settled(walked(align_local_spec(es), Pass::AlignFields)),
{
    let p = Pass::AlignFields;
    let es1 = align_local_spec(es);
    let es2 = walked(es1, p);
    lemma_align_stages(es);
    reveal_strlit("stackMode");
    assert("stackMode"@.len() == 9 && "stackMode"@[0] == 's' && "stackMode"@[1] == 't' && "stackMode"@[2] == 'a');
    reveal_strlit("layoutMode");
    assert("layoutMode"@.len() == 10 && "layoutMode"@[0] == 'l' && "layoutMode"@[1] == 'a' && "layoutMode"@[2] == 'y');
    reveal_strlit("stackSpacing");
    assert("stackSpacing"@.len() == 12 && "stackSpacing"@[0] == 's' && "stackSpacing"@[1] == 't' && "stackSpacing"@[2] == 'a');
    reveal_strlit("itemSpacing");
    assert("itemSpacing"@.len() == 11 && "itemSpacing"@[0] == 'i' && "itemSpacing"@[1] == 't' && "itemSpacing"@[2] == 'e');
    reveal_strlit("stackHorizontalPadding");
    assert("stackHorizontalPadding"@.len() == 22 && "stackHorizontalPadding"@[0] == 's' && "stackHorizontalPadding"@[1] == 't' && "stackHorizontalPadding"@[2] == 'a');
    reveal_strlit("paddingLeft");
    assert("paddingLeft"@.len() == 11 && "paddingLeft"@[0] == 'p' && "paddingLeft"@[1] == 'a' && "paddingLeft"@[2] == 'd');
    reveal_strlit("paddingRight");
    assert("paddingRight"@.len() == 12 && "paddingRight"@[0] == 'p' && "paddingRight"@[1] == 'a' && "paddingRight"@[2] == 'd');
    reveal_strlit("stackVerticalPadding");
    assert("stackVerticalPadding"@.len() == 20 && "stackVerticalPadding"@[0] == 's' && "stackVerticalPadding"@[1] == 't' && "stackVerticalPadding"@[2] == 'a');
    reveal_strlit("paddingTop");
    assert("paddingTop"@.len() == 10 && "paddingTop"@[0] == 'p' && "paddingTop"@[1] == 'a' && "paddingTop"@[2] == 'd');
    reveal_strlit("paddingBottom");
    assert("paddingBottom"@.len() == 13 && "paddingBottom"@[0] == 'p' && "paddingBottom"@[1] == 'a' && "paddingBottom"@[2] == 'd');
    reveal_strlit("characters");
    assert("characters"@.len() == 10 && "characters"@[0] == 'c' && "characters"@[1] == 'h' && "characters"@[2] == 'a');
    reveal_strlit("style");
    assert("style"@.len() == 5 && "style"@[0] == 's' && "style"@[1] == 't' && "style"@[2] == 'y');
    reveal_strlit("componentId");
    assert("componentId"@.len() == 11 && "componentId"@[0] == 'c' && "componentId"@[1] == 'o' && "componentId"@[2] == 'm');
    reveal_strlit("overrides");
    assert("overrides"@.len() == 9 && "overrides"@[0] == 'o' && "overrides"@[1] == 'v' && "overrides"@[2] == 'e');
    reveal_strlit("horizontalConstraint");
    assert("horizontalConstraint"@.len() == 20 && "horizontalConstraint"@[0] == 'h' && "horizontalConstraint"@[1] == 'o' && "horizontalConstraint"@[2] == 'r');
    reveal_strlit("verticalConstraint");
    assert("verticalConstraint"@.len() == 18 && "verticalConstraint"@[0] == 'v' && "verticalConstraint"@[1] == 'e' && "verticalConstraint"@[2] == 'r');
    reveal_strlit("constraints");
    assert("constraints"@.len() == 11 && "constraints"@[0] == 'c' && "constraints"@[1] == 'o' && "constraints"@[2] == 'n');
    reveal_strlit("rectangleCornerRadii");
    assert("rectangleCornerRadii"@.len() == 20 && "rectangleCornerRadii"@[0] == 'r' && "rectangleCornerRadii"@[1] == 'e' && "rectangleCornerRadii"@[2] == 'c');
    reveal_strlit("frameMaskDisabled");
    assert("frameMaskDisabled"@.len() == 17 && "frameMaskDisabled"@[0] == 'f' && "frameMaskDisabled"@[1] == 'r' && "frameMaskDisabled"@[2] == 'a');
    reveal_strlit("clipsContent");
    assert("clipsContent"@.len() == 12 && "clipsContent"@[0] == 'c' && "clipsContent"@[1] == 'l' && "clipsContent"@[2] == 'i');
    reveal_strlit("variableConsumptionMap");
    assert("variableConsumptionMap"@.len() == 22 && "variableConsumptionMap"@[0] == 'v' && "variableConsumptionMap"@[1] == 'a' && "variableConsumptionMap"@[2] == 'r');
    reveal_strlit("boundVariables");
    assert("boundVariables"@.len() == 14 && "boundVariables"@[0] == 'b' && "boundVariables"@[1] == 'o' && "boundVariables"@[2] == 'u');
    reveal_strlit("colorVar");
    assert("colorVar"@.len() == 8 && "colorVar"@[0] == 'c' && "colorVar"@[1] == 'o' && "colorVar"@[2] == 'l');
    reveal_strlit("horizontalConstraint");
    assert("horizontalConstraint"@.len() == 20 && "horizontalConstraint"@[0] == 'h' && "horizontalConstraint"@[1] == 'o' && "horizontalConstraint"@[2] == 'r');
    reveal_strlit("verticalConstraint");
    assert("verticalConstraint"@.len() == 18 && "verticalConstraint"@[0] == 'v' && "verticalConstraint"@[1] == 'e' && "verticalConstraint"@[2] == 'r');
    reveal_strlit("constraints");
    assert("constraints"@.len() == 11 && "constraints"@[0] == 'c' && "constraints"@[1] == 'o' && "constraints"@[2] == 'n');
    reveal_strlit("rectangleCornerRadii");
    assert("rectangleCornerRadii"@.len() == 20 && "rectangleCornerRadii"@[0] == 'r' && "rectangleCornerRadii"@[1] == 'e' && "rectangleCornerRadii"@[2] == 'c');
    reveal_strlit("frameMaskDisabled");
    assert("frameMaskDisabled"@.len() == 17 && "frameMaskDisabled"@[0] == 'f' && "frameMaskDisabled"@[1] == 'r' && "frameMaskDisabled"@[2] == 'a');
    reveal_strlit("clipsContent");
    assert("clipsContent"@.len() == 12 && "clipsContent"@[0] == 'c' && "clipsContent"@[1] == 'l' && "clipsContent"@[2] == 'i');
    reveal_strlit("variableConsumptionMap");
    assert("variableConsumptionMap"@.len() == 22 && "variableConsumptionMap"@[0] == 'v' && "variableConsumptionMap"@[1] == 'a' && "variableConsumptionMap"@[2] == 'r');
    reveal_strlit("boundVariables");
    assert("boundVariables"@.len() == 14 && "boundVariables"@[0] == 'b' && "boundVariables"@[1] == 'o' && "boundVariables"@[2] == 'u');
    reveal_strlit("colorVar");
    assert("colorVar"@.len() == 8 && "colorVar"@[0] == 'c' && "colorVar"@[1] == 'o' && "colorVar"@[2] == 'l');
    reveal_strlit("backgroundColor");
    assert("backgroundColor"@.len() == 15 && "backgroundColor"@[0] == 'b' && "backgroundColor"@[1] == 'a' && "backgroundColor"@[2] == 'c');
    reveal_strlit("styleIdForFill");
    assert("styleIdForFill"@.len() == 14 && "styleIdForFill"@[0] == 's' && "styleIdForFill"@[1] == 't' && "styleIdForFill"@[2] == 'y');
    reveal_strlit("styleIdForText");
    assert("styleIdForText"@.len() == 14 && "styleIdForText"@[0] == 's' && "styleIdForText"@[1] == 't' && "styleIdForText"@[2] == 'y');
    reveal_strlit("styleIdForStrokeFill");
    assert("styleIdForStrokeFill"@.len() == 20 && "styleIdForStrokeFill"@[0] == 's' && "styleIdForStrokeFill"@[1] == 't' && "styleIdForStrokeFill"@[2] == 'y');
    reveal_strlit("styleIdForEffect");
    assert("styleIdForEffect"@.len() == 16 && "styleIdForEffect"@[0] == 's' && "styleIdForEffect"@[1] == 't' && "styleIdForEffect"@[2] == 'y');
    reveal_strlit("styles");
    assert("styles"@.len() == 6 && "styles"@[0] == 's' && "styles"@[1] == 't' && "styles"@[2] == 'y');
    reveal_strlit("prototypeInteractions");
    assert("prototypeInteractions"@.len() == 21 && "prototypeInteractions"@[0] == 'p' && "prototypeInteractions"@[1] == 'r' && "prototypeInteractions"@[2] == 'o');
    reveal_strlit("interactions");
    assert("interactions"@.len() == 12 && "interactions"@[0] == 'i' && "interactions"@[1] == 'n' && "interactions"@[2] == 't');
    reveal_strlit("stackChildAlignSelf");
    assert("stackChildAlignSelf"@.len() == 19 && "stackChildAlignSelf"@[0] == 's' && "stackChildAlignSelf"@[1] == 't' && "stackChildAlignSelf"@[2] == 'a');
    reveal_strlit("layoutAlign");
    assert("layoutAlign"@.len() == 11 && "layoutAlign"@[0] == 'l' && "layoutAlign"@[1] == 'a' && "layoutAlign"@[2] == 'y');
    reveal_strlit("stackChildPrimaryGrow");
    assert("stackChildPrimaryGrow"@.len() == 21 && "stackChildPrimaryGrow"@[0] == 's' && "stackChildPrimaryGrow"@[1] == 't' && "stackChildPrimaryGrow"@[2] == 'a');
    reveal_strlit("layoutGrow");
    assert("layoutGrow"@.len() == 10 && "layoutGrow"@[0] == 'l' && "layoutGrow"@[1] == 'a' && "layoutGrow"@[2] == 'y');
    reveal_strlit("fills");
    assert("fills"@.len() == 5 && "fills"@[0] == 'f' && "fills"@[1] == 'i' && "fills"@[2] == 'l');
    reveal_strlit("strokes");
    assert("strokes"@.len() == 7 && "strokes"@[0] == 's' && "strokes"@[1] == 't' && "strokes"@[2] == 'r');
    reveal_strlit("effects");
    assert("effects"@.len() == 7 && "effects"@[0] == 'e' && "effects"@[1] == 'f' && "effects"@[2] == 'f');
    reveal_strlit("parameterConsumptionMap");
    assert("parameterConsumptionMap"@.len() == 23 && "parameterConsumptionMap"@[0] == 'p' && "parameterConsumptionMap"@[1] == 'a' && "parameterConsumptionMap"@[2] == 'r');
    reveal_strlit("derivedSymbolData");
    assert("derivedSymbolData"@.len() == 17 && "derivedSymbolData"@[0] == 'd' && "derivedSymbolData"@[1] == 'e' && "derivedSymbolData"@[2] == 'r');
    reveal_strlit("sharedSymbolVersion");
    assert("sharedSymbolVersion"@.len() == 19 && "sharedSymbolVersion"@[0] == 's' && "sharedSymbolVersion"@[1] == 'h' && "sharedSymbolVersion"@[2] == 'a');
    reveal_strlit("type");
    assert("type"@.len() == 4 && "type"@[0] == 't' && "type"@[1] == 'y' && "type"@[2] == 'p');
    reveal_strlit("FRAME");
    assert("FRAME"@.len() == 5 && "FRAME"@[0] == 'F' && "FRAME"@[1] == 'R' && "FRAME"@[2] == 'A');
    lemma_untouched_keys("type"@);
    lemma_get_align(es, "type"@);
    lemma_get_walked(es1, p, "type"@);
    lemma_aligned_scalar(entries_get(es, "type"@));
    if ostr(entries_get(es2, "type"@)) == Some("FRAME"@) {
        let is_node = entries_has(es, "type"@);
        assert(is_node);
        let x8 = before_background(es);
        lemma_get_before_background(es, "type"@);
        lemma_get_before_background(es, "fills"@);
        let bc = "backgroundColor"@;
        let x9a = match solid_fill_color(x8) {
            Some(c) => entries_insert(x8, bc, c),
            None => x8,
        };
        if let Some(c) = solid_fill_color(x8) {
            lemma_insert_get(x8, bc, c, bc);
            lemma_insert_get(x8, bc, c, "fills"@);
        }
        lemma_insert_get(x9a, bc, transparent_black(), bc);
        lemma_insert_get(x9a, bc, transparent_black(), "fills"@);
        let x9 = background_step(x8);
        assert(entries_has(x9, bc));
        assert(entries_get(x9, "fills"@) == entries_get(es, "fills"@));
        lemma_get_from_styles(x9, is_node, bc);
        lemma_get_walked(es1, p, bc);
        lemma_fills_from_styles(x9);
        lemma_get_walked(es1, p, "fills"@);
        if entries_has(es, "fills"@) {
            lemma_solid_aligned(x8, es2);
        } else {
            lemma_transformed_shape(JsonV::Array(Seq::empty()), p);
            assert(transformed(JsonV::Array(Seq::empty()), p)->Array_0.len() == 0);
        }
    }
}

/// The object that the alignment makes of `es`, where it already holds what
/// its text would lift, is ready: a second edit leaves each of its members
/// with the value it holds.
proof fn lemma_settled_after(es: Entries)
    requires
        text_settled(walked(align_local_spec(es), Pass::AlignFields)),
    ensures
        settled_ready(walked(align_local_spec(es), Pass::AlignFields)),
{
    let p = Pass::AlignFields;
    let es1 = align_local_spec(es);
    let ks = retired_keys();
    lemma_align_local_lacks(es);
    lemma_lacks_all_stable(ks);
    lemma_key_stable_kept(lacks_all(ks), p);
    assert(lacks_all(ks)(es1));
    lemma_align_local_lists_arrays(es);
    lemma_nodes_list_arrays_stable();
    lemma_key_stable_kept(nodes_list_arrays(), p);
    assert(nodes_list_arrays()(es1));
    lemma_symbol_ready(es);
    lemma_radii_ready(es);
    lemma_background_ready(es);
}

} // verus!

verus! {

// ---------------------------------------------------------------------------
// The law
// ---------------------------------------------------------------------------

pub open spec fn text_settled_fn() -> spec_fn(Entries) -> bool {
    |es: Entries| text_settled(es)
}

/// Entries that the edit leaves with the same members hold what their text
/// would lift.
proof fn lemma_same_gives_text(y: Entries)
    requires
        same_members(align_local_spec(y), y),
    ensures
        text_settled(y),
{
    reveal_strlit("textData");
    reveal_strlit("characters");
    reveal_strlit("style");
    assert("textData"@.len() == 8 && "characters"@.len() == 10 && "style"@.len() == 5);
    let is_node = entries_has(y, "type"@);
    let a = auto_layout_step(y);
    let x2 = text_step(a);
    lemma_align_stages(y);
    lemma_untouched_keys("textData"@);
    lemma_get_auto_layout(y, "textData"@);
    reveal_strlit("componentId");
    assert("componentId"@.len() == 11 && "componentId"@[0] == 'c' && "componentId"@[1] == 'o' && "componentId"@[2] == 'm');
    reveal_strlit("overrides");
    assert("overrides"@.len() == 9 && "overrides"@[0] == 'o' && "overrides"@[1] == 'v' && "overrides"@[2] == 'e');
    reveal_strlit("horizontalConstraint");
    assert("horizontalConstraint"@.len() == 20 && "horizontalConstraint"@[0] == 'h' && "horizontalConstraint"@[1] == 'o' && "horizontalConstraint"@[2] == 'r');
    reveal_strlit("verticalConstraint");
    assert("verticalConstraint"@.len() == 18 && "verticalConstraint"@[0] == 'v' && "verticalConstraint"@[1] == 'e' && "verticalConstraint"@[2] == 'r');
    reveal_strlit("constraints");
    assert("constraints"@.len() == 11 && "constraints"@[0] == 'c' && "constraints"@[1] == 'o' && "constraints"@[2] == 'n');
    reveal_strlit("rectangleCornerRadii");
    assert("rectangleCornerRadii"@.len() == 20 && "rectangleCornerRadii"@[0] == 'r' && "rectangleCornerRadii"@[1] == 'e' && "rectangleCornerRadii"@[2] == 'c');
    reveal_strlit("frameMaskDisabled");
    assert("frameMaskDisabled"@.len() == 17 && "frameMaskDisabled"@[0] == 'f' && "frameMaskDisabled"@[1] == 'r' && "frameMaskDisabled"@[2] == 'a');
    reveal_strlit("clipsContent");
    assert("clipsContent"@.len() == 12 && "clipsContent"@[0] == 'c' && "clipsContent"@[1] == 'l' && "clipsContent"@[2] == 'i');
    reveal_strlit("variableConsumptionMap");
    assert("variableConsumptionMap"@.len() == 22 && "variableConsumptionMap"@[0] == 'v' && "variableConsumptionMap"@[1] == 'a' && "variableConsumptionMap"@[2] == 'r');
    reveal_strlit("boundVariables");
    assert("boundVariables"@.len() == 14 && "boundVariables"@[0] == 'b' && "boundVariables"@[1] == 'o' && "boundVariables"@[2] == 'u');
    reveal_strlit("colorVar");
    assert("colorVar"@.len() == 8 && "colorVar"@[0] == 'c' && "colorVar"@[1] == 'o' && "colorVar"@[2] == 'l');
    reveal_strlit("backgroundColor");
    assert("backgroundColor"@.len() == 15 && "backgroundColor"@[0] == 'b' && "backgroundColor"@[1] == 'a' && "backgroundColor"@[2] == 'c');
    reveal_strlit("styleIdForFill");
    assert("styleIdForFill"@.len() == 14 && "styleIdForFill"@[0] == 's' && "styleIdForFill"@[1] == 't' && "styleIdForFill"@[2] == 'y');
    reveal_strlit("styleIdForText");
    assert("styleIdForText"@.len() == 14 && "styleIdForText"@[0] == 's' && "styleIdForText"@[1] == 't' && "styleIdForText"@[2] == 'y');
    reveal_strlit("styleIdForStrokeFill");
    assert("styleIdForStrokeFill"@.len() == 20 && "styleIdForStrokeFill"@[0] == 's' && "styleIdForStrokeFill"@[1] == 't' && "styleIdForStrokeFill"@[2] == 'y');
    reveal_strlit("styleIdForEffect");
    assert("styleIdForEffect"@.len() == 16 && "styleIdForEffect"@[0] == 's' && "styleIdForEffect"@[1] == 't' && "styleIdForEffect"@[2] == 'y');
    reveal_strlit("styles");
    assert("styles"@.len() == 6 && "styles"@[0] == 's' && "styles"@[1] == 't' && "styles"@[2] == 'y');
    reveal_strlit("prototypeInteractions");
    assert("prototypeInteractions"@.len() == 21 && "prototypeInteractions"@[0] == 'p' && "prototypeInteractions"@[1] == 'r' && "prototypeInteractions"@[2] == 'o');
    reveal_strlit("interactions");
    assert("interactions"@.len() == 12 && "interactions"@[0] == 'i' && "interactions"@[1] == 'n' && "interactions"@[2] == 't');
    reveal_strlit("stackChildAlignSelf");
    assert("stackChildAlignSelf"@.len() == 19 && "stackChildAlignSelf"@[0] == 's' && "stackChildAlignSelf"@[1] == 't' && "stackChildAlignSelf"@[2] == 'a');
    reveal_strlit("layoutAlign");
    assert("layoutAlign"@.len() == 11 && "layoutAlign"@[0] == 'l' && "layoutAlign"@[1] == 'a' && "layoutAlign"@[2] == 'y');
    reveal_strlit("stackChildPrimaryGrow");
    assert("stackChildPrimaryGrow"@.len() == 21 && "stackChildPrimaryGrow"@[0] == 's' && "stackChildPrimaryGrow"@[1] == 't' && "stackChildPrimaryGrow"@[2] == 'a');
    reveal_strlit("layoutGrow");
    assert("layoutGrow"@.len() == 10 && "layoutGrow"@[0] == 'l' && "layoutGrow"@[1] == 'a' && "layoutGrow"@[2] == 'y');
    reveal_strlit("fills");
    assert("fills"@.len() == 5 && "fills"@[0] == 'f' && "fills"@[1] == 'i' && "fills"@[2] == 'l');
    reveal_strlit("strokes");
    assert("strokes"@.len() == 7 && "strokes"@[0] == 's' && "strokes"@[1] == 't' && "strokes"@[2] == 'r');
    reveal_strlit("effects");
    assert("effects"@.len() == 7 && "effects"@[0] == 'e' && "effects"@[1] == 'f' && "effects"@[2] == 'f');
    reveal_strlit("parameterConsumptionMap");
    assert("parameterConsumptionMap"@.len() == 23 && "parameterConsumptionMap"@[0] == 'p' && "parameterConsumptionMap"@[1] == 'a' && "parameterConsumptionMap"@[2] == 'r');
    reveal_strlit("derivedSymbolData");
    assert("derivedSymbolData"@.len() == 17 && "derivedSymbolData"@[0] == 'd' && "derivedSymbolData"@[1] == 'e' && "derivedSymbolData"@[2] == 'r');
    reveal_strlit("sharedSymbolVersion");
    assert("sharedSymbolVersion"@.len() == 19 && "sharedSymbolVersion"@[0] == 's' && "sharedSymbolVersion"@[1] == 'h' && "sharedSymbolVersion"@[2] == 'a');
    lemma_get_symbol(x2, "characters"@);
    lemma_get_symbol(x2, "style"@);
    lemma_get_from_constraints(symbol_step(x2), is_node, "characters"@);
    lemma_get_from_constraints(symbol_step(x2), is_node, "style"@);
    let td = entries_get(y, "textData"@);
    assert(entries_get(align_local_spec(y), "characters"@) == entries_get(y, "characters"@));
    assert(entries_get(align_local_spec(y), "style"@) == entries_get(y, "style"@));
    let y1 = match oget(td, "characters"@) {
        Some(c) => entries_insert(a, "characters"@, c),
        None => a,
    };
    if let Some(c) = oget(td, "characters"@) {
        lemma_insert_get(a, "characters"@, c, "characters"@);
    }
    if let Some(s) = oget(td, "style"@) {
        let sx = JsonV::Object(font_renamed(object_entries(s)));
        lemma_insert_get(y1, "style"@, sx, "characters"@);
        lemma_insert_get(y1, "style"@, sx, "style"@);
    }
}

proof fn lemma_settles_from_text(v: JsonV)
    requires
        everywhere(with_aligned_fields(v), text_settled_fn()),
    ensures
        everywhere(with_aligned_fields(v), same_members_fn()),
    decreases height(v), trig(Pass::AlignFields, v),
{
    let p = Pass::AlignFields;
    match v {
        JsonV::Object(es) => {
            let es1 = local_spec(p, es);
            lemma_local_decreases(p, es);
            lemma_transformed_object(es, p);
            let es2 = walked(es1, p);
            lemma_everywhere_entries(es2, text_settled_fn());
            assert(text_settled_fn()(es2));
            lemma_settled_after(es);
            lemma_steps_settle(es2, es2);
            assert(same_members_fn()(es2));
            assert forall|i: int| 0 <= i < es2.len() implies #[trigger] everywhere(es2[i].1, same_members_fn()) by {
                assert(everywhere(es2[i].1, text_settled_fn()));
                assert(below(p, es1[i].1, v));
                lemma_settles_from_text(es1[i].1);
            }
            lemma_everywhere_entries(es2, same_members_fn());
        },
        JsonV::Array(items) => {
            lemma_array_items_below(items);
            let r = transformed(v, p)->Array_0;
            lemma_everywhere_items(r, text_settled_fn());
            assert forall|i: int| 0 <= i < r.len() implies #[trigger] everywhere(r[i], same_members_fn()) by {
                assert(everywhere(r[i], text_settled_fn()));
                lemma_settles_from_text(items[i]);
            }
            lemma_everywhere_items(r, same_members_fn());
        },
        _ => {},
    }
}

/// Where the edit leaves every object with the same members, the walk
/// gives back a document with the same members at every depth.
proof fn lemma_settled_same_doc(t: JsonV)
    requires
        everywhere(t, same_members_fn()),
    ensures
        same_doc(with_aligned_fields(t), t),
    decreases height(t), trig(Pass::AlignFields, t),
{
    let p = Pass::AlignFields;
    match t {
        JsonV::Object(es) => {
            let es1 = local_spec(p, es);
            lemma_local_decreases(p, es);
            lemma_transformed_object(es, p);
            let es2 = walked(es1, p);
            assert(same_members(es1, es));
            lemma_everywhere_entries(es, same_members_fn());
            assert forall|k: Seq<char>| #[trigger] entries_has(es2, k) == entries_has(es, k) by {
                lemma_same_keys_has_walked(es1, p, k);
                assert(entries_get(es1, k) == entries_get(es, k));
            }
            assert forall|i: int| 0 <= i < es2.len() && first_entry(es2, i) implies #[trigger] entries_get(
                es,
                es2[i].0,
            ) is Some && same_doc(es2[i].1, entries_get(es, es2[i].0)->0) by {
                let k = es2[i].0;
                lemma_first_get(es2, i);
                lemma_get_walked(es1, p, k);
                assert(entries_get(es1, k) == entries_get(es, k));
                let x = entries_get(es1, k)->0;
                lemma_get_some_index(es1, k);
                let j = choose|j: int| 0 <= j < es1.len() && es1[j].0 == k && es1[j].1 == x;
                assert(below(p, es1[j].1, t));
                lemma_get_some_index(es, k);
                let m = choose|m: int| 0 <= m < es.len() && es[m].0 == k && es[m].1 == x;
                assert(everywhere(es[m].1, same_members_fn()));
                lemma_settled_same_doc(x);
            }
        },
        JsonV::Array(items) => {
            lemma_array_items_below(items);
            lemma_everywhere_items(items, same_members_fn());
            lemma_transformed_shape(t, p);
            let r = transformed(t, p)->Array_0;
            assert forall|i: int| #![trigger r[i]] 0 <= i < r.len() implies same_doc(r[i], items[i]) by {
                lemma_settled_same_doc(items[i]);
            }
        },
        _ => {},
    }
}

/// A second field alignment changes no member of an aligned document,
/// exactly where each of its objects already holds, under `characters` and
/// `style`, what its `textData` would lift again: there the edit leaves
/// every object with the same members, and the second alignment gives back
/// a document with the same members at every depth. Every other step of a
/// second edit always finds nothing to do or sets a member to the value it
/// holds; the lifting of the text changes a member where, and only where,
/// an object holds something else there (as after aligning a `textData`
/// that holds its own `textData` with other `characters`).
pub proof fn lemma_alignment_settles(v: JsonV)
    ensures
        everywhere(with_aligned_fields(v), same_members_fn()) <==> everywhere(
            with_aligned_fields(v),
            text_settled_fn(),
        ),
        everywhere(with_aligned_fields(v), text_settled_fn()) ==> same_doc(
            with_aligned_fields(with_aligned_fields(v)),
            with_aligned_fields(v),
        ),
{
    let t = with_aligned_fields(v);
    if everywhere(t, text_settled_fn()) {
        lemma_settles_from_text(v);
        lemma_settled_same_doc(t);
    }
    if everywhere(t, same_members_fn()) {
        assert forall|es: Entries| #[trigger] same_members_fn()(es) implies text_settled_fn()(es) by {
            lemma_same_gives_text(es);
        }
        lemma_everywhere_weaken(t, same_members_fn(), text_settled_fn());
    }
}

} // verus!
