//! Alignment of node fields with the naming and structure of the Figma REST API.
use vstd::prelude::*;
use crate::error::FigError;
use crate::json::{
    entries_contains, entries_find, entries_get, entries_has, entries_insert, entries_put,
    entries_remove, entries_rename, entries_take, entries_view, items_view, jget,
    lemma_has_insert, lemma_has_remove, lemma_has_rename,
    lemma_remove_absent, lemma_rename_drops, obool, oget, ostr, ou64, rename_key, str_or,
    u64_or, Entries, Json, JsonNumber, JsonV,
};
use crate::number::{
    double_json, double_value, is_zero, is_zero_number, ZERO_BITS,
};
use crate::schema::transformations::alias::{convert_to_official_alias, official_alias};
use crate::schema::transformations::traversal::{
    everywhere, lacks_all, lemma_key_stable_kept, lemma_lacks_all_stable,
    lemma_transformed_everywhere, local_spec, transform_in_place, transformed, Pass,
};
use crate::schema::transformations::type_alignment::bool_or;
use crate::schema::transformations::variables_transformation::{
    color_var_local, color_var_local_spec,
};
use crate::text::{guid_string, guid_text, lowercase, owned, str_eq, to_lowercase};

verus! {

// ---------------------------------------------------------------------------
// 1. Auto layout
// ---------------------------------------------------------------------------

/// The text of a `stackMode`: the string itself, or its `value` string.
pub open spec fn mode_text(mode: JsonV) -> Seq<char> {
    match mode {
        JsonV::Str(s) => s,
        _ => str_or(ostr(jget(mode, "value"@)), ""@),
    }
}

pub open spec fn layout_mode_step(es: Entries) -> Entries {
    match entries_get(es, "stackMode"@) {
        Some(m) => entries_insert(entries_remove(es, "stackMode"@), "layoutMode"@, JsonV::Str(mode_text(m))),
        None => es,
    }
}

/// The value of `from` copied to the two keys `a` and `b`.
pub open spec fn padding_step(es: Entries, from: Seq<char>, a: Seq<char>, b: Seq<char>) -> Entries {
    match entries_get(es, from) {
        Some(p) => entries_insert(entries_insert(entries_remove(es, from), a, p), b, p),
        None => es,
    }
}

pub open spec fn auto_layout_step(es: Entries) -> Entries {
    let es1 = layout_mode_step(es);
    let es2 = rename_key(es1, "stackSpacing"@, "itemSpacing"@);
    let es3 = padding_step(es2, "stackHorizontalPadding"@, "paddingLeft"@, "paddingRight"@);
    padding_step(es3, "stackVerticalPadding"@, "paddingTop"@, "paddingBottom"@)
}

fn layout_mode_exec(es: &mut Vec<(String, Json)>)
    ensures
        entries_view(final(es)@) == layout_mode_step(entries_view(old(es)@)),
{
    let ghost before = entries_view(es@);
    if let Some(mode) = entries_take(es, "stackMode") {
        let mode_val = match &mode {
            Json::String(s) => s.clone(),
            _ => match mode.get("value") {
                Some(Json::String(s)) => s.clone(),
                _ => {
                    proof {
                        reveal_strlit("");
                    }
                    owned("")
                },
            },
        };
        entries_put(es, owned("layoutMode"), Json::String(mode_val));
    } else {
        proof {
            lemma_remove_absent(before, "stackMode"@);
        }
    }
}

fn padding_exec(es: &mut Vec<(String, Json)>, from: &str, a: &str, b: &str)
    ensures
        entries_view(final(es)@) == padding_step(entries_view(old(es)@), from@, a@, b@),
{
    let ghost before = entries_view(es@);
    if let Some(p) = entries_take(es, from) {
        let q = p.deep_clone();
        entries_put(es, owned(a), q);
        entries_put(es, owned(b), p);
    } else {
        proof {
            lemma_remove_absent(before, from@);
        }
    }
}

fn auto_layout_exec(es: &mut Vec<(String, Json)>)
    ensures
        entries_view(final(es)@) == auto_layout_step(entries_view(old(es)@)),
{
    layout_mode_exec(es);
    entries_rename(es, "stackSpacing", "itemSpacing");
    padding_exec(es, "stackHorizontalPadding", "paddingLeft", "paddingRight");
    padding_exec(es, "stackVerticalPadding", "paddingTop", "paddingBottom");
}

// ---------------------------------------------------------------------------
// 2. Text characters and style
// ---------------------------------------------------------------------------

/// The entries of an object, none for anything else.
pub open spec fn object_entries(v: JsonV) -> Entries {
    match v {
        JsonV::Object(es) => es,
        _ => Seq::empty(),
    }
}

/// `family` and `postscript` under their REST API names.
pub open spec fn font_renamed(es: Entries) -> Entries {
    rename_key(rename_key(es, "family"@, "fontFamily"@), "postscript"@, "fontPostScriptName"@)
}

pub open spec fn text_step(es: Entries) -> Entries {
    let td = entries_get(es, "textData"@);
    let es1 = match oget(td, "characters"@) {
        Some(c) => entries_insert(es, "characters"@, c),
        None => es,
    };
    match oget(td, "style"@) {
        Some(s) => entries_insert(es1, "style"@, JsonV::Object(font_renamed(object_entries(s)))),
        None => es1,
    }
}

fn object_entries_clone(v: &Json) -> (r: Vec<(String, Json)>)
    ensures
        entries_view(r@) == object_entries(v@),
{
    match v {
        Json::Object(_) => {
            match v.deep_clone() {
                Json::Object(es) => es,
                _ => Vec::new(),
            }
        },
        _ => {
            let r: Vec<(String, Json)> = Vec::new();
            proof {
                assert(entries_view(r@) =~= Seq::<(Seq<char>, JsonV)>::empty());
            }
            r
        },
    }
}

fn text_exec(es: &mut Vec<(String, Json)>)
    ensures
        entries_view(final(es)@) == text_step(entries_view(old(es)@)),
{
    let mut extracted_chars: Option<Json> = None;
    let mut extracted_style: Option<Json> = None;
    match entries_find(es, "textData") {
        Some(text_data) => {
            extracted_chars = match text_data.get("characters") {
                Some(c) => Some(c.deep_clone()),
                None => None,
            };
            match text_data.get("style") {
                Some(style) => {
                    let mut s_obj = object_entries_clone(style);
                    entries_rename(&mut s_obj, "family", "fontFamily");
                    entries_rename(&mut s_obj, "postscript", "fontPostScriptName");
                    extracted_style = Some(Json::Object(s_obj));
                },
                None => {},
            }
        },
        None => {},
    }
    if let Some(c) = extracted_chars {
        entries_put(es, owned("characters"), c);
    }
    if let Some(s) = extracted_style {
        entries_put(es, owned("style"), s);
    }
}

// ---------------------------------------------------------------------------
// 3. Instance component id and overrides
// ---------------------------------------------------------------------------

/// The text of a GUID-bearing object's `guid`, its members defaulting to 0.
pub open spec fn guid_member_text(g: JsonV) -> Seq<char> {
    guid_text(u64_or(ou64(jget(g, "sessionID"@)), 0), u64_or(ou64(jget(g, "localID"@)), 0))
}

/// The id that a reference names: the text of its `guid`, or the reference
/// itself where it is a string.
pub open spec fn reference_id(r: JsonV) -> Option<Seq<char>> {
    match jget(r, "guid"@) {
        Some(g) => Some(guid_member_text(g)),
        None => jas_str_v(r),
    }
}

pub open spec fn jas_str_v(v: JsonV) -> Option<Seq<char>> {
    crate::json::jas_str(v)
}

pub open spec fn symbol_step(es: Entries) -> Entries {
    match entries_get(es, "symbolData"@) {
        Some(sd) => {
            let cid = match jget(sd, "symbolID"@) {
                Some(sid) => reference_id(sid),
                None => None,
            };
            let es1 = match cid {
                Some(c) => entries_insert(es, "componentId"@, JsonV::Str(c)),
                None => es,
            };
            match jget(sd, "symbolOverrides"@) {
                Some(o) => entries_insert(es1, "overrides"@, o),
                None => es1,
            }
        },
        None => es,
    }
}

fn u64_member_or_zero(g: &Json, key: &str) -> (r: u64)
    ensures
        r == u64_or(ou64(jget(g@, key@)), 0),
{
    match g.get(key) {
        Some(v) => match v.as_u64() {
            Some(u) => u,
            None => 0,
        },
        None => 0,
    }
}

/// The id that a reference names.
pub fn reference_id_of(r: &Json) -> (out: Option<String>)
    ensures
        match out {
            Some(s) => reference_id(r@) == Some(s@),
            None => reference_id(r@) is None,
        },
{
    match r.get("guid") {
        Some(g) => {
            let s = u64_member_or_zero(g, "sessionID");
            let l = u64_member_or_zero(g, "localID");
            Some(guid_string(s, l))
        },
        None => match r {
            Json::String(s) => Some(s.clone()),
            _ => None,
        },
    }
}

fn symbol_exec(es: &mut Vec<(String, Json)>)
    ensures
        entries_view(final(es)@) == symbol_step(entries_view(old(es)@)),
{
    let mut symbol_info: Option<(Option<String>, Option<Json>)> = None;
    match entries_find(es, "symbolData") {
        Some(symbol_data) => {
            let cid = match symbol_data.get("symbolID") {
                Some(sid) => reference_id_of(sid),
                None => None,
            };
            let ovr = match symbol_data.get("symbolOverrides") {
                Some(o) => Some(o.deep_clone()),
                None => None,
            };
            symbol_info = Some((cid, ovr));
        },
        None => {},
    }
    if let Some((cid, ovr)) = symbol_info {
        if let Some(c) = cid {
            entries_put(es, owned("componentId"), Json::String(c));
        }
        if let Some(o) = ovr {
            entries_put(es, owned("overrides"), o);
        }
    }
}

// ---------------------------------------------------------------------------
// 4. Constraints
// ---------------------------------------------------------------------------

/// A constraint: the string itself, else its `value`, else `"MIN"`.
pub open spec fn constraint_value(o: Option<JsonV>) -> JsonV {
    match o {
        Some(x) => match x {
            JsonV::Str(_) => x,
            _ => match jget(x, "value"@) {
                Some(y) => y,
                None => JsonV::Str("MIN"@),
            },
        },
        None => JsonV::Str("MIN"@),
    }
}

pub open spec fn constraints_object(h: Option<JsonV>, v: Option<JsonV>) -> JsonV {
    JsonV::Object(seq![("horizontal"@, constraint_value(h)), ("vertical"@, constraint_value(v))])
}

pub open spec fn constraints_step(es: Entries) -> Entries {
    let h = entries_get(es, "horizontalConstraint"@);
    let v = entries_get(es, "verticalConstraint"@);
    let es1 = entries_remove(entries_remove(es, "horizontalConstraint"@), "verticalConstraint"@);
    if h is Some || v is Some {
        entries_insert(es1, "constraints"@, constraints_object(h, v))
    } else {
        es1
    }
}

fn constraint_value_of(o: Option<Json>) -> (r: Json)
    ensures
        r@ == constraint_value(crate::json::opt_owned_view(o)),
{
    match o {
        Some(x) => {
            if x.is_string() {
                x
            } else {
                match x.get("value") {
                    Some(y) => y.deep_clone(),
                    None => Json::String(owned("MIN")),
                }
            }
        },
        None => Json::String(owned("MIN")),
    }
}

fn constraints_exec(es: &mut Vec<(String, Json)>)
    ensures
        entries_view(final(es)@) == constraints_step(entries_view(old(es)@)),
{
    let ghost before = entries_view(es@);
    let h_const = entries_take(es, "horizontalConstraint");
    let v_const = entries_take(es, "verticalConstraint");
    if h_const.is_some() || v_const.is_some() {
        let h_val = constraint_value_of(h_const);
        let v_val = constraint_value_of(v_const);
        let mut c: Vec<(String, Json)> = Vec::new();
        c.push((owned("horizontal"), h_val));
        c.push((owned("vertical"), v_val));
        proof {
            assert(entries_view(c@) =~= constraints_object(
                entries_get(before, "horizontalConstraint"@),
                entries_get(entries_remove(before, "horizontalConstraint"@), "verticalConstraint"@),
            )->Object_0);
            reveal_strlit("horizontalConstraint");
            reveal_strlit("verticalConstraint");
            assert("horizontalConstraint"@[0] != "verticalConstraint"@[0]);
            crate::json::lemma_remove_other(before, "horizontalConstraint"@, "verticalConstraint"@);
        }
        entries_put(es, owned("constraints"), Json::Object(c));
    } else {
        proof {
            reveal_strlit("horizontalConstraint");
            reveal_strlit("verticalConstraint");
            assert("horizontalConstraint"@[0] != "verticalConstraint"@[0]);
            crate::json::lemma_remove_other(before, "horizontalConstraint"@, "verticalConstraint"@);
        }
    }
}

// ---------------------------------------------------------------------------
// 5. Rectangle corner radii
// ---------------------------------------------------------------------------

/// `as_f64().unwrap_or(0.0) != 0.0`: a number other than zero.
pub open spec fn nonzero_number(o: Option<JsonV>) -> bool {
    match o {
        Some(JsonV::Number(n)) => !is_zero_number(JsonV::Number(n)),
        _ => false,
    }
}

pub open spec fn radius_value(o: Option<JsonV>) -> JsonV {
    double_value(o, ZERO_BITS)
}

pub open spec fn radii_step(es: Entries) -> Entries {
    let tl = entries_get(es, "rectangleTopLeftCornerRadius"@);
    let tr = entries_get(es, "rectangleTopRightCornerRadius"@);
    let br = entries_get(es, "rectangleBottomRightCornerRadius"@);
    let bl = entries_get(es, "rectangleBottomLeftCornerRadius"@);
    if nonzero_number(tl) || nonzero_number(tr) || nonzero_number(br) || nonzero_number(bl) {
        entries_insert(
            es,
            "rectangleCornerRadii"@,
            JsonV::Array(seq![radius_value(tl), radius_value(tr), radius_value(br), radius_value(bl)]),
        )
    } else {
        es
    }
}

fn nonzero_number_of(o: Option<&Json>) -> (r: bool)
    ensures
        r == nonzero_number(crate::json::opt_view(o)),
{
    match o {
        Some(x) => match x {
            Json::Number(_) => !is_zero(x),
            _ => false,
        },
        None => false,
    }
}

fn radii_exec(es: &mut Vec<(String, Json)>)
    ensures
        entries_view(final(es)@) == radii_step(entries_view(old(es)@)),
{
    let tl = entries_find(es, "rectangleTopLeftCornerRadius");
    let tr = entries_find(es, "rectangleTopRightCornerRadius");
    let br = entries_find(es, "rectangleBottomRightCornerRadius");
    let bl = entries_find(es, "rectangleBottomLeftCornerRadius");
    if nonzero_number_of(tl) || nonzero_number_of(tr) || nonzero_number_of(br) || nonzero_number_of(bl) {
        let mut radii: Vec<Json> = Vec::new();
        radii.push(double_json(tl, ZERO_BITS));
        radii.push(double_json(tr, ZERO_BITS));
        radii.push(double_json(br, ZERO_BITS));
        radii.push(double_json(bl, ZERO_BITS));
        let ghost target = seq![
            radius_value(crate::json::opt_view(tl)),
            radius_value(crate::json::opt_view(tr)),
            radius_value(crate::json::opt_view(br)),
            radius_value(crate::json::opt_view(bl)),
        ];
        proof {
            assert(items_view(radii@) =~= target);
        }
        entries_put(es, owned("rectangleCornerRadii"), Json::Array(radii));
    }
}

// ---------------------------------------------------------------------------
// 6. Clips content
// ---------------------------------------------------------------------------

pub open spec fn mask_disabled(md: JsonV) -> bool {
    match md {
        JsonV::Bool(b) => b,
        _ => bool_or(obool(jget(md, "value"@)), false),
    }
}

pub open spec fn clips_step(es: Entries) -> Entries {
    match entries_get(es, "frameMaskDisabled"@) {
        Some(md) => entries_insert(
            entries_remove(es, "frameMaskDisabled"@),
            "clipsContent"@,
            JsonV::Bool(!mask_disabled(md)),
        ),
        None => es,
    }
}

fn clips_exec(es: &mut Vec<(String, Json)>)
    ensures
        entries_view(final(es)@) == clips_step(entries_view(old(es)@)),
{
    let ghost before = entries_view(es@);
    if let Some(mask) = entries_take(es, "frameMaskDisabled") {
        let disabled = match mask.as_bool() {
            Some(b) => b,
            None => match mask.get("value") {
                Some(v) => match v.as_bool() {
                    Some(b) => b,
                    None => false,
                },
                None => false,
            },
        };
        entries_put(es, owned("clipsContent"), Json::Bool(!disabled));
    } else {
        proof {
            lemma_remove_absent(before, "frameMaskDisabled"@);
        }
    }
}

} // verus!

verus! {

// ---------------------------------------------------------------------------
// 7. Bound variables
// ---------------------------------------------------------------------------

/// The name of a variable field: the string itself, or its `value` string.
pub open spec fn field_name(f: JsonV) -> Seq<char> {
    match f {
        JsonV::Str(s) => s,
        _ => str_or(ostr(jget(f, "value"@)), ""@),
    }
}

pub open spec fn is_fills_field(n: Seq<char>) -> bool {
    n == "FILLPaints"@ || n == "FILLS"@ || n == "fills"@
}

pub open spec fn is_strokes_field(n: Seq<char>) -> bool {
    n == "STROKEPaints"@ || n == "STROKES"@ || n == "strokes"@
}

pub open spec fn is_corner_radius_field(n: Seq<char>) -> bool {
    n == "CORNER_RADIUS"@ || n == "cornerRadius"@
}

pub open spec fn is_rectangle_radius_field(n: Seq<char>) -> bool {
    n == "RECTANGLE_TOP_LEFT_CORNER_RADIUS"@ || n == "RECTANGLE_TOP_RIGHT_CORNER_RADIUS"@ || n
        == "RECTANGLE_BOTTOM_LEFT_CORNER_RADIUS"@ || n == "RECTANGLE_BOTTOM_RIGHT_CORNER_RADIUS"@
}

/// One consumption entry added to the bindings collected so far: the
/// general ones and those of the rectangle corner radii.
pub open spec fn bind_step(acc: (Entries, Entries), e: JsonV) -> (Entries, Entries) {
    match (jget(e, "variableField"@), jget(e, "variableData"@)) {
        (Some(f), Some(d)) => match official_alias(d) {
            Some(a) => {
                let n = field_name(f);
                if is_fills_field(n) {
                    (entries_insert(acc.0, "fills"@, JsonV::Array(seq![a])), acc.1)
                } else if is_strokes_field(n) {
                    (entries_insert(acc.0, "strokes"@, JsonV::Array(seq![a])), acc.1)
                } else if is_corner_radius_field(n) {
                    (entries_insert(acc.0, "cornerRadius"@, a), acc.1)
                } else if is_rectangle_radius_field(n) {
                    (acc.0, entries_insert(acc.1, n, a))
                } else {
                    (entries_insert(acc.0, lowercase(n), a), acc.1)
                }
            },
            None => acc,
        },
        _ => acc,
    }
}

/// The bindings of a list of consumption entries, taken in order.
pub open spec fn bindings(items: Seq<JsonV>) -> (Entries, Entries)
    decreases items.len(),
{
    if items.len() == 0 {
        (Seq::empty(), Seq::empty())
    } else {
        bind_step(bindings(items.drop_last()), items.last())
    }
}

/// The elements of the `entries` array of a consumption map.
pub open spec fn consumption_entries(vm: JsonV) -> Seq<JsonV> {
    match jget(vm, "entries"@) {
        Some(JsonV::Array(a)) => a,
        _ => Seq::empty(),
    }
}

/// The `boundVariables` entries of a consumption map.
pub open spec fn bound_variables(vm: JsonV) -> Entries {
    let b = bindings(consumption_entries(vm));
    if b.1.len() > 0 {
        entries_insert(b.0, "rectangleCornerRadii"@, JsonV::Object(b.1))
    } else {
        b.0
    }
}

pub open spec fn bound_variables_step(es: Entries) -> Entries {
    match entries_get(es, "variableConsumptionMap"@) {
        Some(vm) => {
            let es1 = entries_remove(es, "variableConsumptionMap"@);
            let b = bound_variables(vm);
            if b.len() > 0 {
                entries_insert(es1, "boundVariables"@, JsonV::Object(b))
            } else {
                es1
            }
        },
        None => es,
    }
}

fn field_name_of(f: &Json) -> (r: String)
    ensures
        r@ == field_name(f@),
{
    match f {
        Json::String(s) => s.clone(),
        _ => match f.get("value") {
            Some(Json::String(s)) => s.clone(),
            _ => {
                proof {
                    reveal_strlit("");
                }
                owned("")
            },
        },
    }
}

fn single(a: Json) -> (r: Json)
    ensures
        r@ == JsonV::Array(seq![a@]),
{
    let mut v: Vec<Json> = Vec::new();
    v.push(a);
    proof {
        assert(items_view(v@) =~= seq![a@]);
    }
    Json::Array(v)
}

fn bind_entry(bound: &mut Vec<(String, Json)>, radii: &mut Vec<(String, Json)>, e: &Json)
    ensures
        (entries_view(final(bound)@), entries_view(final(radii)@)) == bind_step(
            (entries_view(old(bound)@), entries_view(old(radii)@)),
            e@,
        ),
{
    let field = match e.get("variableField") {
        Some(f) => f,
        None => return,
    };
    let data = match e.get("variableData") {
        Some(d) => d,
        None => return,
    };
    let alias_obj = match convert_to_official_alias(data) {
        Some(a) => a,
        None => return,
    };
    let name = field_name_of(field);
    let n = name.as_str();
    if str_eq(n, "FILLPaints") || str_eq(n, "FILLS") || str_eq(n, "fills") {
        entries_put(bound, owned("fills"), single(alias_obj));
    } else if str_eq(n, "STROKEPaints") || str_eq(n, "STROKES") || str_eq(n, "strokes") {
        entries_put(bound, owned("strokes"), single(alias_obj));
    } else if str_eq(n, "CORNER_RADIUS") || str_eq(n, "cornerRadius") {
        entries_put(bound, owned("cornerRadius"), alias_obj);
    } else if str_eq(n, "RECTANGLE_TOP_LEFT_CORNER_RADIUS") || str_eq(n, "RECTANGLE_TOP_RIGHT_CORNER_RADIUS")
        || str_eq(n, "RECTANGLE_BOTTOM_LEFT_CORNER_RADIUS") || str_eq(n, "RECTANGLE_BOTTOM_RIGHT_CORNER_RADIUS") {
        entries_put(radii, name, alias_obj);
    } else {
        entries_put(bound, to_lowercase(n), alias_obj);
    }
}

fn bound_variables_of(vm: &Json) -> (r: Vec<(String, Json)>)
    ensures
        entries_view(r@) == bound_variables(vm@),
{
    let mut bound: Vec<(String, Json)> = Vec::new();
    let mut radii: Vec<(String, Json)> = Vec::new();
    proof {
        assert(entries_view(bound@) =~= Seq::<(Seq<char>, JsonV)>::empty());
        assert(entries_view(radii@) =~= Seq::<(Seq<char>, JsonV)>::empty());
    }
    match vm.get("entries") {
        Some(Json::Array(items)) => {
            let ghost its = items_view(items@);
            let mut i: usize = 0;
            while i < items.len()
                invariant
                    0 <= i <= items@.len(),
                    its == items_view(items@),
                    (entries_view(bound@), entries_view(radii@)) == bindings(its.take(i as int)),
                decreases items@.len() - i,
            {
                bind_entry(&mut bound, &mut radii, &items[i]);
                proof {
                    assert(its.take(i + 1).drop_last() =~= its.take(i as int));
                    assert(its.take(i + 1).last() == items@[i as int]@);
                }
                i = i + 1;
            }
            proof {
                assert(its.take(i as int) =~= its);
            }
        },
        _ => {
            proof {
                assert(consumption_entries(vm@) =~= Seq::<JsonV>::empty());
            }
        },
    }
    if radii.len() > 0 {
        entries_put(&mut bound, owned("rectangleCornerRadii"), Json::Object(radii));
    }
    bound
}

fn bound_variables_exec(es: &mut Vec<(String, Json)>)
    ensures
        entries_view(final(es)@) == bound_variables_step(entries_view(old(es)@)),
{
    let ghost before = entries_view(es@);
    if let Some(var_map) = entries_take(es, "variableConsumptionMap") {
        let bound_vars = bound_variables_of(&var_map);
        if bound_vars.len() > 0 {
            entries_put(es, owned("boundVariables"), Json::Object(bound_vars));
        }
    } else {
        proof {
            lemma_remove_absent(before, "variableConsumptionMap"@);
        }
    }
}

// ---------------------------------------------------------------------------
// 8. Background color of frames
// ---------------------------------------------------------------------------

/// The color of the first fill, where that fill is `SOLID`.
pub open spec fn solid_fill_color(es: Entries) -> Option<JsonV> {
    match entries_get(es, "fills"@) {
        Some(JsonV::Array(f)) => if f.len() > 0 && ostr(jget(f[0], "type"@)) == Some("SOLID"@) {
            jget(f[0], "color"@)
        } else {
            None
        },
        _ => None,
    }
}

/// `{"r": 0.0, "g": 0.0, "b": 0.0, "a": 0.0}`.
pub open spec fn transparent_black() -> JsonV {
    let z = JsonV::Number(JsonNumber::Float(ZERO_BITS));
    JsonV::Object(seq![("r"@, z), ("g"@, z), ("b"@, z), ("a"@, z)])
}

pub open spec fn background_step(es: Entries) -> Entries {
    if ostr(entries_get(es, "type"@)) == Some("FRAME"@) {
        let es1 = match solid_fill_color(es) {
            Some(c) => entries_insert(es, "backgroundColor"@, c),
            None => es,
        };
        if entries_has(es1, "backgroundColor"@) {
            es1
        } else {
            entries_insert(es1, "backgroundColor"@, transparent_black())
        }
    } else {
        es
    }
}

fn solid_fill_color_of(es: &Vec<(String, Json)>) -> (r: Option<Json>)
    ensures
        crate::json::opt_owned_view(r) == solid_fill_color(entries_view(es@)),
{
    match entries_find(es, "fills") {
        Some(Json::Array(fills)) => {
            if fills.len() > 0 {
                proof {
                    assert(items_view(fills@)[0] == fills@[0]@);
                }
                let first = &fills[0];
                let solid = match first.get("type") {
                    Some(Json::String(t)) => str_eq(t.as_str(), "SOLID"),
                    _ => false,
                };
                if solid {
                    match first.get("color") {
                        Some(c) => Some(c.deep_clone()),
                        None => None,
                    }
                } else {
                    None
                }
            } else {
                None
            }
        },
        _ => None,
    }
}

fn transparent_black_of() -> (r: Json)
    ensures
        r@ == transparent_black(),
{
    let mut c: Vec<(String, Json)> = Vec::new();
    c.push((owned("r"), Json::Number(JsonNumber::Float(ZERO_BITS))));
    c.push((owned("g"), Json::Number(JsonNumber::Float(ZERO_BITS))));
    c.push((owned("b"), Json::Number(JsonNumber::Float(ZERO_BITS))));
    c.push((owned("a"), Json::Number(JsonNumber::Float(ZERO_BITS))));
    proof {
        assert(entries_view(c@) =~= transparent_black()->Object_0);
    }
    Json::Object(c)
}

fn background_exec(es: &mut Vec<(String, Json)>)
    ensures
        entries_view(final(es)@) == background_step(entries_view(old(es)@)),
{
    let is_frame = match entries_find(es, "type") {
        Some(Json::String(t)) => str_eq(t.as_str(), "FRAME"),
        _ => false,
    };
    if is_frame {
        if let Some(color) = solid_fill_color_of(es) {
            entries_put(es, owned("backgroundColor"), color);
        }
        if !entries_contains(es, "backgroundColor") {
            entries_put(es, owned("backgroundColor"), transparent_black_of());
        }
    }
}

// ---------------------------------------------------------------------------
// 9. Styles
// ---------------------------------------------------------------------------

/// Moves the style reference under `old` into the styles collected so far, under `new`.
pub open spec fn style_step(acc: (Entries, Entries), old: Seq<char>, new: Seq<char>) -> (Entries, Entries) {
    match entries_get(acc.0, old) {
        Some(sid) => {
            let m = entries_remove(acc.0, old);
            match reference_id(sid) {
                Some(id) => (m, entries_insert(acc.1, new, JsonV::Str(id))),
                None => (m, acc.1),
            }
        },
        None => acc,
    }
}

pub open spec fn styles_step(es: Entries) -> Entries {
    let a1 = style_step((es, Seq::empty()), "styleIdForFill"@, "fill"@);
    let a2 = style_step(a1, "styleIdForText"@, "text"@);
    let a3 = style_step(a2, "styleIdForStrokeFill"@, "stroke"@);
    let a4 = style_step(a3, "styleIdForEffect"@, "effect"@);
    if a4.1.len() > 0 {
        entries_insert(a4.0, "styles"@, JsonV::Object(a4.1))
    } else {
        a4.0
    }
}

fn style_exec(es: &mut Vec<(String, Json)>, styles: &mut Vec<(String, Json)>, from: &str, to: &str)
    ensures
        (entries_view(final(es)@), entries_view(final(styles)@)) == style_step(
            (entries_view(old(es)@), entries_view(old(styles)@)),
            from@,
            to@,
        ),
{
    let ghost before = entries_view(es@);
    if let Some(sid) = entries_take(es, from) {
        if let Some(id) = reference_id_of(&sid) {
            entries_put(styles, owned(to), Json::String(id));
        }
    } else {
        proof {
            lemma_remove_absent(before, from@);
        }
    }
}

fn styles_exec(es: &mut Vec<(String, Json)>)
    ensures
        entries_view(final(es)@) == styles_step(entries_view(old(es)@)),
{
    let mut styles_obj: Vec<(String, Json)> = Vec::new();
    proof {
        assert(entries_view(styles_obj@) =~= Seq::<(Seq<char>, JsonV)>::empty());
    }
    style_exec(es, &mut styles_obj, "styleIdForFill", "fill");
    style_exec(es, &mut styles_obj, "styleIdForText", "text");
    style_exec(es, &mut styles_obj, "styleIdForStrokeFill", "stroke");
    style_exec(es, &mut styles_obj, "styleIdForEffect", "effect");
    if styles_obj.len() > 0 {
        entries_put(es, owned("styles"), Json::Object(styles_obj));
    }
}

// ---------------------------------------------------------------------------
// 10 - 13. Interactions, layout, property arrays, cleanup
// ---------------------------------------------------------------------------

pub open spec fn renames_step(es: Entries) -> Entries {
    let es1 = rename_key(es, "prototypeInteractions"@, "interactions"@);
    let es2 = rename_key(es1, "stackChildAlignSelf"@, "layoutAlign"@);
    rename_key(es2, "stackChildPrimaryGrow"@, "layoutGrow"@)
}

/// `k` bound to an empty array where it is missing.
pub open spec fn with_default_array(es: Entries, k: Seq<char>) -> Entries {
    if entries_has(es, k) {
        es
    } else {
        entries_insert(es, k, JsonV::Array(Seq::empty()))
    }
}

pub open spec fn property_arrays_step(es: Entries, is_node: bool) -> Entries {
    if is_node {
        let es1 = with_default_array(es, "fills"@);
        let es2 = with_default_array(es1, "strokes"@);
        let es3 = with_default_array(es2, "effects"@);
        with_default_array(es3, "interactions"@)
    } else {
        es
    }
}

pub open spec fn cleanup_step(es: Entries) -> Entries {
    let es1 = entries_remove(es, "parameterConsumptionMap"@);
    let es2 = entries_remove(es1, "derivedSymbolData"@);
    entries_remove(es2, "sharedSymbolVersion"@)
}

fn default_array_exec(es: &mut Vec<(String, Json)>, k: &str)
    ensures
        entries_view(final(es)@) == with_default_array(entries_view(old(es)@), k@),
{
    if !entries_contains(es, k) {
        let empty: Vec<Json> = Vec::new();
        proof {
            assert(items_view(empty@) =~= Seq::<JsonV>::empty());
        }
        entries_put(es, owned(k), Json::Array(empty));
    }
}

fn tail_exec(es: &mut Vec<(String, Json)>, is_node: bool)
    ensures
        entries_view(final(es)@) == cleanup_step(property_arrays_step(renames_step(entries_view(old(es)@)), is_node)),
{
    entries_rename(es, "prototypeInteractions", "interactions");
    entries_rename(es, "stackChildAlignSelf", "layoutAlign");
    entries_rename(es, "stackChildPrimaryGrow", "layoutGrow");
    if is_node {
        default_array_exec(es, "fills");
        default_array_exec(es, "strokes");
        default_array_exec(es, "effects");
        default_array_exec(es, "interactions");
    }
    let _ = entries_take(es, "parameterConsumptionMap");
    let _ = entries_take(es, "derivedSymbolData");
    let _ = entries_take(es, "sharedSymbolVersion");
}

// ---------------------------------------------------------------------------
// The whole edit of one object
// ---------------------------------------------------------------------------

/// The edit that field alignment makes of one object, its steps in order.
pub open spec fn align_local_spec(es: Entries) -> Entries {
    let is_node = entries_has(es, "type"@);
    let es1 = auto_layout_step(es);
    let es2 = text_step(es1);
    let es3 = symbol_step(es2);
    let es4 = constraints_step(es3);
    let es5 = radii_step(es4);
    let es6 = clips_step(es5);
    let es7 = bound_variables_step(es6);
    let es8 = color_var_local_spec(es7);
    let es9 = background_step(es8);
    let es10 = styles_step(es9);
    cleanup_step(property_arrays_step(renames_step(es10), is_node))
}

pub fn align_local(es: &mut Vec<(String, Json)>)
    ensures
        entries_view(final(es)@) == align_local_spec(entries_view(old(es)@)),
{
    let is_node = entries_contains(es, "type");
    auto_layout_exec(es);
    text_exec(es);
    symbol_exec(es);
    constraints_exec(es);
    radii_exec(es);
    clips_exec(es);
    bound_variables_exec(es);
    color_var_local(es);
    background_exec(es);
    styles_exec(es);
    tail_exec(es, is_node);
}

} // verus!

verus! {

/// The document with the fields of every object aligned.
pub open spec fn with_aligned_fields(v: JsonV) -> JsonV {
    transformed(v, Pass::AlignFields)
}

/// Align specific fields with Figma REST API naming and structure
pub fn align_fields(tree: &mut Json) -> (r: Result<(), FigError>)
    ensures
        r is Ok,
        final(tree)@ == with_aligned_fields(old(tree)@),
{
    transform_in_place(tree, Pass::AlignFields);
    Ok(())
}

/// The keys that field alignment leaves nowhere: every member that one of
/// its steps drops, renames or folds into another member.
pub open spec fn retired_keys() -> Seq<Seq<char>> {
    seq![
        "parameterConsumptionMap"@,
        "derivedSymbolData"@,
        "sharedSymbolVersion"@,
        "prototypeInteractions"@,
        "stackChildAlignSelf"@,
        "stackChildPrimaryGrow"@,
        "stackMode"@,
        "stackSpacing"@,
        "stackHorizontalPadding"@,
        "stackVerticalPadding"@,
        "horizontalConstraint"@,
        "verticalConstraint"@,
        "frameMaskDisabled"@,
        "variableConsumptionMap"@,
        "colorVar"@,
        "styleIdForFill"@,
        "styleIdForText"@,
        "styleIdForStrokeFill"@,
        "styleIdForEffect"@,
    ]
}

proof fn lemma_default_array_has(es: Entries, k: Seq<char>, t: Seq<char>)
    ensures
        entries_has(with_default_array(es, k), t) ==> t == k || entries_has(es, t),
{
    if !entries_has(es, k) {
        lemma_has_insert(es, k, JsonV::Array(Seq::empty()), t);
    }
}

#[verifier::spinoff_prover]
proof fn lemma_tail_has(es: Entries, is_node: bool, t: Seq<char>)
    requires
        t.len() != 5 && t.len() != 7 && t.len() != 12,
    ensures
        entries_has(cleanup_step(property_arrays_step(es, is_node)), t) ==> entries_has(es, t),
        !entries_has(cleanup_step(property_arrays_step(es, is_node)), "parameterConsumptionMap"@),
        !entries_has(cleanup_step(property_arrays_step(es, is_node)), "derivedSymbolData"@),
        !entries_has(cleanup_step(property_arrays_step(es, is_node)), "sharedSymbolVersion"@),
{
    reveal_strlit("fills");
    reveal_strlit("strokes");
    reveal_strlit("effects");
    reveal_strlit("interactions");
    let x = property_arrays_step(es, is_node);
    if is_node {
        let es1 = with_default_array(es, "fills"@);
        let es2 = with_default_array(es1, "strokes"@);
        let es3 = with_default_array(es2, "effects"@);
        lemma_default_array_has(es, "fills"@, t);
        lemma_default_array_has(es1, "strokes"@, t);
        lemma_default_array_has(es2, "effects"@, t);
        lemma_default_array_has(es3, "interactions"@, t);
    }
    let c1 = entries_remove(x, "parameterConsumptionMap"@);
    let c2 = entries_remove(c1, "derivedSymbolData"@);
    lemma_cleanup_has(x, t);
    lemma_has_remove(x, "parameterConsumptionMap"@, "parameterConsumptionMap"@);
    lemma_has_remove(c1, "derivedSymbolData"@, "parameterConsumptionMap"@);
    lemma_has_remove(c2, "sharedSymbolVersion"@, "parameterConsumptionMap"@);
    lemma_has_remove(c1, "derivedSymbolData"@, "derivedSymbolData"@);
    lemma_has_remove(c2, "sharedSymbolVersion"@, "derivedSymbolData"@);
    lemma_has_remove(c2, "sharedSymbolVersion"@, "sharedSymbolVersion"@);
}

proof fn lemma_cleanup_has(x: Entries, t: Seq<char>)
    ensures
        entries_has(cleanup_step(x), t) ==> entries_has(x, t),
{
    let c1 = entries_remove(x, "parameterConsumptionMap"@);
    let c2 = entries_remove(c1, "derivedSymbolData"@);
    lemma_has_remove(x, "parameterConsumptionMap"@, t);
    lemma_has_remove(c1, "derivedSymbolData"@, t);
    lemma_has_remove(c2, "sharedSymbolVersion"@, t);
}

/// The renaming step leaves none of the old names.
#[verifier::spinoff_prover]
proof fn lemma_renames_drop(es: Entries)
    ensures
        !entries_has(renames_step(es), "prototypeInteractions"@),
        !entries_has(renames_step(es), "stackChildAlignSelf"@),
        !entries_has(renames_step(es), "stackChildPrimaryGrow"@),
{
    let r1 = rename_key(es, "prototypeInteractions"@, "interactions"@);
    let r2 = rename_key(r1, "stackChildAlignSelf"@, "layoutAlign"@);
    reveal_strlit("prototypeInteractions");
    reveal_strlit("stackChildAlignSelf");
    reveal_strlit("stackChildPrimaryGrow");
    reveal_strlit("interactions");
    reveal_strlit("layoutAlign");
    reveal_strlit("layoutGrow");
    assert("prototypeInteractions"@.len() == 21);
    assert("stackChildAlignSelf"@.len() == 19);
    assert("stackChildPrimaryGrow"@.len() == 21);
    assert("interactions"@.len() == 12);
    assert("layoutAlign"@.len() == 11);
    assert("layoutGrow"@.len() == 10);
    lemma_rename_drops(es, "prototypeInteractions"@, "interactions"@);
    lemma_has_rename(r1, "stackChildAlignSelf"@, "layoutAlign"@, "prototypeInteractions"@);
    lemma_has_rename(r2, "stackChildPrimaryGrow"@, "layoutGrow"@, "prototypeInteractions"@);
    lemma_rename_drops(r1, "stackChildAlignSelf"@, "layoutAlign"@);
    lemma_has_rename(r2, "stackChildPrimaryGrow"@, "layoutGrow"@, "stackChildAlignSelf"@);
    lemma_rename_drops(r2, "stackChildPrimaryGrow"@, "layoutGrow"@);
}

/// The alignment edit leaves none of the retired keys.
#[verifier::spinoff_prover]
pub proof fn lemma_align_local_lacks(es: Entries)
    ensures
        lacks_all(retired_keys())(align_local_spec(es)),
{
    let ks = retired_keys();
    let is_node = entries_has(es, "type"@);
    let es10 = styles_step(background_step(color_var_local_spec(bound_variables_step(
        clips_step(radii_step(constraints_step(symbol_step(text_step(auto_layout_step(es)))))),
    ))));
    let r3 = renames_step(es10);
    lemma_renames_drop(es10);
    reveal_strlit("prototypeInteractions");
    reveal_strlit("stackChildAlignSelf");
    reveal_strlit("stackChildPrimaryGrow");
    lemma_tail_has(r3, is_node, "prototypeInteractions"@);
    lemma_tail_has(r3, is_node, "stackChildAlignSelf"@);
    lemma_tail_has(r3, is_node, "stackChildPrimaryGrow"@);
    let out = align_local_spec(es);
    assert(out == cleanup_step(property_arrays_step(r3, is_node)));
    lemma_early_keys_dropped(es);
    assert forall|j: int| 0 <= j < ks.len() implies !entries_has(out, #[trigger] ks[j]) by {
        if j >= 6 {
            assert(ks[j] == "stackMode"@ || ks[j] == "stackSpacing"@ || ks[j] == "stackHorizontalPadding"@
                || ks[j] == "stackVerticalPadding"@ || ks[j] == "horizontalConstraint"@
                || ks[j] == "verticalConstraint"@ || ks[j] == "frameMaskDisabled"@
                || ks[j] == "variableConsumptionMap"@ || ks[j] == "colorVar"@ || ks[j] == "styleIdForFill"@
                || ks[j] == "styleIdForText"@ || ks[j] == "styleIdForStrokeFill"@
                || ks[j] == "styleIdForEffect"@);
        } else if j == 0 {
            assert(ks[j] == "parameterConsumptionMap"@);
        } else if j == 1 {
            assert(ks[j] == "derivedSymbolData"@);
        } else if j == 2 {
            assert(ks[j] == "sharedSymbolVersion"@);
        } else if j == 3 {
            assert(ks[j] == "prototypeInteractions"@);
        } else if j == 4 {
            assert(ks[j] == "stackChildAlignSelf"@);
        } else {
            assert(ks[j] == "stackChildPrimaryGrow"@);
        }
    }
}

/// No object of the result, at any depth, keeps a member that the alignment
/// drops, renames or folds into another: on an aligned document, none of the
/// steps that remove, rename or assemble members finds anything to do.
#[verifier::spinoff_prover]
pub proof fn lemma_no_retired_fields_left(v: JsonV)
    ensures
        everywhere(with_aligned_fields(v), lacks_all(retired_keys())),
{
    let ks = retired_keys();
    lemma_lacks_all_stable(ks);
    lemma_key_stable_kept(lacks_all(ks), Pass::AlignFields);
    assert forall|es: Entries| #[trigger] lacks_all(ks)(local_spec(Pass::AlignFields, es)) by {
        lemma_align_local_lacks(es);
    }
    lemma_transformed_everywhere(v, Pass::AlignFields, lacks_all(ks));
}

} // verus!

verus! {

proof fn lemma_layout_mode_has(es: Entries, t: Seq<char>)
    ensures
        entries_has(layout_mode_step(es), t) ==> t == "layoutMode"@ || entries_has(es, t),
{
    if let Some(m) = entries_get(es, "stackMode"@) {
        lemma_has_insert(entries_remove(es, "stackMode"@), "layoutMode"@, JsonV::Str(mode_text(m)), t);
        lemma_has_remove(es, "stackMode"@, t);
    }
}

proof fn lemma_padding_has(es: Entries, from: Seq<char>, a: Seq<char>, b: Seq<char>, t: Seq<char>)
    ensures
        entries_has(padding_step(es, from, a, b), t) ==> t == a || t == b || entries_has(es, t),
{
    if let Some(p) = entries_get(es, from) {
        let r = entries_remove(es, from);
        lemma_has_remove(es, from, t);
        lemma_has_insert(r, a, p, t);
        lemma_has_insert(entries_insert(r, a, p), b, p, t);
    }
}

proof fn lemma_text_has(es: Entries, t: Seq<char>)
    ensures
        entries_has(text_step(es), t) ==> t == "characters"@ || t == "style"@ || entries_has(es, t),
{
    let td = entries_get(es, "textData"@);
    let es1 = match oget(td, "characters"@) {
        Some(c) => entries_insert(es, "characters"@, c),
        None => es,
    };
    if let Some(c) = oget(td, "characters"@) {
        lemma_has_insert(es, "characters"@, c, t);
    }
    if let Some(s) = oget(td, "style"@) {
        lemma_has_insert(es1, "style"@, JsonV::Object(font_renamed(object_entries(s))), t);
    }
}

proof fn lemma_symbol_has(es: Entries, t: Seq<char>)
    ensures
        entries_has(symbol_step(es), t) ==> t == "componentId"@ || t == "overrides"@ || entries_has(es, t),
{
    if let Some(sd) = entries_get(es, "symbolData"@) {
        let cid = match jget(sd, "symbolID"@) {
            Some(sid) => reference_id(sid),
            None => None,
        };
        let es1 = match cid {
            Some(c) => entries_insert(es, "componentId"@, JsonV::Str(c)),
            None => es,
        };
        if let Some(c) = cid {
            lemma_has_insert(es, "componentId"@, JsonV::Str(c), t);
        }
        if let Some(o) = jget(sd, "symbolOverrides"@) {
            lemma_has_insert(es1, "overrides"@, o, t);
        }
    }
}

proof fn lemma_constraints_has(es: Entries, t: Seq<char>)
    ensures
        entries_has(constraints_step(es), t) ==> t == "constraints"@ || entries_has(es, t),
{
    let h = entries_get(es, "horizontalConstraint"@);
    let v = entries_get(es, "verticalConstraint"@);
    let r0 = entries_remove(es, "horizontalConstraint"@);
    let es1 = entries_remove(r0, "verticalConstraint"@);
    lemma_has_remove(es, "horizontalConstraint"@, t);
    lemma_has_remove(r0, "verticalConstraint"@, t);
    lemma_has_insert(es1, "constraints"@, constraints_object(h, v), t);
}

proof fn lemma_radii_has(es: Entries, t: Seq<char>)
    ensures
        entries_has(radii_step(es), t) ==> t == "rectangleCornerRadii"@ || entries_has(es, t),
{
    let tl = entries_get(es, "rectangleTopLeftCornerRadius"@);
    let tr = entries_get(es, "rectangleTopRightCornerRadius"@);
    let br = entries_get(es, "rectangleBottomRightCornerRadius"@);
    let bl = entries_get(es, "rectangleBottomLeftCornerRadius"@);
    lemma_has_insert(
        es,
        "rectangleCornerRadii"@,
        JsonV::Array(seq![radius_value(tl), radius_value(tr), radius_value(br), radius_value(bl)]),
        t,
    );
}

proof fn lemma_clips_has(es: Entries, t: Seq<char>)
    ensures
        entries_has(clips_step(es), t) ==> t == "clipsContent"@ || entries_has(es, t),
{
    if let Some(md) = entries_get(es, "frameMaskDisabled"@) {
        lemma_has_remove(es, "frameMaskDisabled"@, t);
        lemma_has_insert(entries_remove(es, "frameMaskDisabled"@), "clipsContent"@, JsonV::Bool(!mask_disabled(md)), t);
    }
}

proof fn lemma_bound_variables_has(es: Entries, t: Seq<char>)
    ensures
        entries_has(bound_variables_step(es), t) ==> t == "boundVariables"@ || entries_has(es, t),
{
    if let Some(vm) = entries_get(es, "variableConsumptionMap"@) {
        let es1 = entries_remove(es, "variableConsumptionMap"@);
        lemma_has_remove(es, "variableConsumptionMap"@, t);
        lemma_has_insert(es1, "boundVariables"@, JsonV::Object(bound_variables(vm)), t);
    }
}

proof fn lemma_color_var_has(es: Entries, t: Seq<char>)
    ensures
        entries_has(color_var_local_spec(es), t) ==> t == "boundVariables"@ || entries_has(es, t),
{
    if let Some(cv) = entries_get(es, "colorVar"@) {
        let es1 = entries_remove(es, "colorVar"@);
        lemma_has_remove(es, "colorVar"@, t);
        if let Some(a) = official_alias(cv) {
            lemma_has_insert(
                es1,
                "boundVariables"@,
                crate::schema::transformations::variables_transformation::color_binding(a),
                t,
            );
        }
    }
}

proof fn lemma_background_has(es: Entries, t: Seq<char>)
    ensures
        entries_has(background_step(es), t) ==> t == "backgroundColor"@ || entries_has(es, t),
{
    if ostr(entries_get(es, "type"@)) == Some("FRAME"@) {
        let es1 = match solid_fill_color(es) {
            Some(c) => entries_insert(es, "backgroundColor"@, c),
            None => es,
        };
        if let Some(c) = solid_fill_color(es) {
            lemma_has_insert(es, "backgroundColor"@, c, t);
        }
        lemma_has_insert(es1, "backgroundColor"@, transparent_black(), t);
    }
}

proof fn lemma_style_step_has(acc: (Entries, Entries), old: Seq<char>, new: Seq<char>, t: Seq<char>)
    ensures
        entries_has(style_step(acc, old, new).0, t) ==> entries_has(acc.0, t),
{
    if entries_get(acc.0, old) is Some {
        lemma_has_remove(acc.0, old, t);
    }
}

proof fn lemma_styles_has(es: Entries, t: Seq<char>)
    ensures
        entries_has(styles_step(es), t) ==> t == "styles"@ || entries_has(es, t),
{
    let a0: (Entries, Entries) = (es, Seq::empty());
    let a1 = style_step(a0, "styleIdForFill"@, "fill"@);
    let a2 = style_step(a1, "styleIdForText"@, "text"@);
    let a3 = style_step(a2, "styleIdForStrokeFill"@, "stroke"@);
    let a4 = style_step(a3, "styleIdForEffect"@, "effect"@);
    lemma_style_step_has(a0, "styleIdForFill"@, "fill"@, t);
    lemma_style_step_has(a1, "styleIdForText"@, "text"@, t);
    lemma_style_step_has(a2, "styleIdForStrokeFill"@, "stroke"@, t);
    lemma_style_step_has(a3, "styleIdForEffect"@, "effect"@, t);
    lemma_has_insert(a4.0, "styles"@, JsonV::Object(a4.1), t);
}

/// The edit adds no `type` member to an object that had none.
#[verifier::spinoff_prover]
proof fn lemma_align_keeps_typeless(es: Entries)
    ensures
        entries_has(align_local_spec(es), "type"@) ==> entries_has(es, "type"@),
{
    let t = "type"@;
    let is_node = entries_has(es, t);
    let l1 = layout_mode_step(es);
    let l2 = rename_key(l1, "stackSpacing"@, "itemSpacing"@);
    let l3 = padding_step(l2, "stackHorizontalPadding"@, "paddingLeft"@, "paddingRight"@);
    let es1 = auto_layout_step(es);
    let es2 = text_step(es1);
    let es3 = symbol_step(es2);
    let es4 = constraints_step(es3);
    let es5 = radii_step(es4);
    let es6 = clips_step(es5);
    let es7 = bound_variables_step(es6);
    let es8 = color_var_local_spec(es7);
    let es9 = background_step(es8);
    let es10 = styles_step(es9);
    let r1 = rename_key(es10, "prototypeInteractions"@, "interactions"@);
    let r2 = rename_key(r1, "stackChildAlignSelf"@, "layoutAlign"@);
    let r3 = rename_key(r2, "stackChildPrimaryGrow"@, "layoutGrow"@);
    lemma_layout_mode_has(es, t);
    lemma_has_rename(l1, "stackSpacing"@, "itemSpacing"@, t);
    lemma_padding_has(l2, "stackHorizontalPadding"@, "paddingLeft"@, "paddingRight"@, t);
    lemma_padding_has(l3, "stackVerticalPadding"@, "paddingTop"@, "paddingBottom"@, t);
    lemma_text_has(es1, t);
    lemma_symbol_has(es2, t);
    lemma_constraints_has(es3, t);
    lemma_radii_has(es4, t);
    lemma_clips_has(es5, t);
    lemma_bound_variables_has(es6, t);
    lemma_color_var_has(es7, t);
    lemma_background_has(es8, t);
    lemma_styles_has(es9, t);
    lemma_has_rename(es10, "prototypeInteractions"@, "interactions"@, t);
    lemma_has_rename(r1, "stackChildAlignSelf"@, "layoutAlign"@, t);
    lemma_has_rename(r2, "stackChildPrimaryGrow"@, "layoutGrow"@, t);
    assert(t.len() == 4) by {
        reveal_strlit("type");
    }
    reveal_strlit("layoutMode");
    reveal_strlit("itemSpacing");
    reveal_strlit("paddingLeft");
    reveal_strlit("paddingRight");
    reveal_strlit("paddingTop");
    reveal_strlit("paddingBottom");
    reveal_strlit("characters");
    reveal_strlit("style");
    reveal_strlit("componentId");
    reveal_strlit("overrides");
    reveal_strlit("constraints");
    reveal_strlit("rectangleCornerRadii");
    reveal_strlit("clipsContent");
    reveal_strlit("boundVariables");
    reveal_strlit("backgroundColor");
    reveal_strlit("styles");
    reveal_strlit("interactions");
    reveal_strlit("layoutAlign");
    reveal_strlit("layoutGrow");
    reveal_strlit("fills");
    reveal_strlit("strokes");
    reveal_strlit("effects");
    lemma_tail_has(r3, is_node, t);
}

/// Entries of a node (an object with a `type`) that list `fills`, `strokes`,
/// `effects` and `interactions`.
pub open spec fn node_lists_arrays(es: Entries) -> bool {
    entries_has(es, "type"@) ==> entries_has(es, "fills"@) && entries_has(es, "strokes"@)
        && entries_has(es, "effects"@) && entries_has(es, "interactions"@)
}

pub open spec fn nodes_list_arrays() -> spec_fn(Entries) -> bool {
    |es: Entries| node_lists_arrays(es)
}

proof fn lemma_default_array_keeps(es: Entries, k: Seq<char>, t: Seq<char>)
    ensures
        entries_has(with_default_array(es, k), k),
        entries_has(es, t) ==> entries_has(with_default_array(es, k), t),
{
    if !entries_has(es, k) {
        lemma_has_insert(es, k, JsonV::Array(Seq::empty()), t);
        lemma_has_insert(es, k, JsonV::Array(Seq::empty()), k);
    }
}

proof fn lemma_cleanup_keeps(x: Entries, t: Seq<char>)
    requires
        t.len() != 23 && t.len() != 17 && t.len() != 19,
    ensures
        entries_has(x, t) ==> entries_has(cleanup_step(x), t),
{
    reveal_strlit("parameterConsumptionMap");
    reveal_strlit("derivedSymbolData");
    reveal_strlit("sharedSymbolVersion");
    let c1 = entries_remove(x, "parameterConsumptionMap"@);
    let c2 = entries_remove(c1, "derivedSymbolData"@);
    crate::json::lemma_remove_other(x, "parameterConsumptionMap"@, t);
    crate::json::lemma_remove_other(c1, "derivedSymbolData"@, t);
    crate::json::lemma_remove_other(c2, "sharedSymbolVersion"@, t);
}

proof fn lemma_node_arrays_keys(es: Entries)
    ensures
        node_lists_arrays(cleanup_step(property_arrays_step(es, true))),
{
    reveal_strlit("fills");
    reveal_strlit("strokes");
    reveal_strlit("effects");
    reveal_strlit("interactions");
    let es1 = with_default_array(es, "fills"@);
    let es2 = with_default_array(es1, "strokes"@);
    let es3 = with_default_array(es2, "effects"@);
    let es4 = with_default_array(es3, "interactions"@);
    lemma_default_array_keeps(es, "fills"@, "fills"@);
    lemma_default_array_keeps(es1, "strokes"@, "fills"@);
    lemma_default_array_keeps(es2, "effects"@, "fills"@);
    lemma_default_array_keeps(es3, "interactions"@, "fills"@);
    lemma_default_array_keeps(es2, "effects"@, "strokes"@);
    lemma_default_array_keeps(es3, "interactions"@, "strokes"@);
    lemma_default_array_keeps(es3, "interactions"@, "effects"@);
    lemma_cleanup_keeps(es4, "fills"@);
    lemma_cleanup_keeps(es4, "strokes"@);
    lemma_cleanup_keeps(es4, "effects"@);
    lemma_cleanup_keeps(es4, "interactions"@);
}

/// Whether a node lists the four arrays depends on the keys alone.
pub proof fn lemma_nodes_list_arrays_stable()
    ensures
        crate::schema::transformations::traversal::key_stable(nodes_list_arrays()),
{
    let q = nodes_list_arrays();
    assert forall|es: Entries, fs: Entries| #![trigger q(es), q(fs)]
        crate::schema::transformations::traversal::same_keys(es, fs) implies q(es) == q(fs) by {
        crate::schema::transformations::traversal::lemma_same_keys_has(es, fs, "type"@);
        crate::schema::transformations::traversal::lemma_same_keys_has(es, fs, "fills"@);
        crate::schema::transformations::traversal::lemma_same_keys_has(es, fs, "strokes"@);
        crate::schema::transformations::traversal::lemma_same_keys_has(es, fs, "effects"@);
        crate::schema::transformations::traversal::lemma_same_keys_has(es, fs, "interactions"@);
    }
}

/// The edit of an object with a `type` leaves it listing the four arrays.
pub proof fn lemma_align_local_lists_arrays(es: Entries)
    ensures
        node_lists_arrays(align_local_spec(es)),
{
    lemma_align_keeps_typeless(es);
    if entries_has(es, "type"@) {
        let es10 = styles_step(background_step(color_var_local_spec(bound_variables_step(
            clips_step(radii_step(constraints_step(symbol_step(text_step(auto_layout_step(es)))))),
        ))));
        lemma_node_arrays_keys(renames_step(es10));
    }
}

/// Every node of the result, at any depth, lists `fills`, `strokes`,
/// `effects` and `interactions`, empty where it had none.
#[verifier::spinoff_prover]
pub proof fn lemma_nodes_list_arrays(v: JsonV)
    ensures
        everywhere(with_aligned_fields(v), nodes_list_arrays()),
{
    let q = nodes_list_arrays();
    lemma_nodes_list_arrays_stable();
    lemma_key_stable_kept(q, Pass::AlignFields);
    assert forall|es: Entries| #[trigger] q(local_spec(Pass::AlignFields, es)) by {
        lemma_align_local_lists_arrays(es);
    }
    lemma_transformed_everywhere(v, Pass::AlignFields, q);
}

} // verus!

verus! {

/// Two keys that differ in length or in one of their first three letters.
pub open spec fn differs(a: Seq<char>, b: Seq<char>) -> bool {
    a.len() != b.len() || (a.len() >= 3 && b.len() >= 3 && (a[0] != b[0] || a[1] != b[1] || a[2] != b[2]))
}

proof fn lemma_arrays_has(es: Entries, is_node: bool, t: Seq<char>)
    requires
        differs(t, "fills"@),
        differs(t, "strokes"@),
        differs(t, "effects"@),
        differs(t, "interactions"@),
    ensures
        entries_has(cleanup_step(property_arrays_step(es, is_node)), t) ==> entries_has(es, t),
{
    if is_node {
        let es1 = with_default_array(es, "fills"@);
        let es2 = with_default_array(es1, "strokes"@);
        let es3 = with_default_array(es2, "effects"@);
        lemma_default_array_has(es, "fills"@, t);
        lemma_default_array_has(es1, "strokes"@, t);
        lemma_default_array_has(es2, "effects"@, t);
        lemma_default_array_has(es3, "interactions"@, t);
    }
    lemma_cleanup_has(property_arrays_step(es, is_node), t);
}

proof fn lemma_renames_has(es: Entries, t: Seq<char>)
    requires
        differs(t, "interactions"@),
        differs(t, "layoutAlign"@),
        differs(t, "layoutGrow"@),
    ensures
        entries_has(renames_step(es), t) ==> entries_has(es, t),
{
    let r1 = rename_key(es, "prototypeInteractions"@, "interactions"@);
    let r2 = rename_key(r1, "stackChildAlignSelf"@, "layoutAlign"@);
    lemma_has_rename(es, "prototypeInteractions"@, "interactions"@, t);
    lemma_has_rename(r1, "stackChildAlignSelf"@, "layoutAlign"@, t);
    lemma_has_rename(r2, "stackChildPrimaryGrow"@, "layoutGrow"@, t);
}

/// The keys that the steps from the styles on may add.
pub open spec fn fresh_from_styles(t: Seq<char>) -> bool {
    differs(t, "styles"@) && differs(t, "interactions"@) && differs(t, "layoutAlign"@)
        && differs(t, "layoutGrow"@) && differs(t, "fills"@) && differs(t, "strokes"@)
        && differs(t, "effects"@)
}

/// The keys that the steps from the constraints on may add.
pub open spec fn fresh_from_constraints(t: Seq<char>) -> bool {
    fresh_from_styles(t) && differs(t, "constraints"@) && differs(t, "rectangleCornerRadii"@)
        && differs(t, "clipsContent"@) && differs(t, "boundVariables"@)
        && differs(t, "backgroundColor"@)
}

/// The keys that the steps after the auto layout may add.
pub open spec fn fresh_after_auto_layout(t: Seq<char>) -> bool {
    fresh_from_constraints(t) && differs(t, "characters"@) && differs(t, "style"@)
        && differs(t, "componentId"@) && differs(t, "overrides"@)
}

proof fn lemma_from_styles_has(x: Entries, is_node: bool, t: Seq<char>)
    requires
        fresh_from_styles(t),
    ensures
        entries_has(cleanup_step(property_arrays_step(renames_step(styles_step(x)), is_node)), t)
            ==> entries_has(x, t),
{
    lemma_styles_has(x, t);
    lemma_renames_has(styles_step(x), t);
    lemma_arrays_has(renames_step(styles_step(x)), is_node, t);
}

/// The result of the steps from the constraints on.
pub open spec fn from_constraints(x: Entries, is_node: bool) -> Entries {
    cleanup_step(property_arrays_step(renames_step(styles_step(background_step(color_var_local_spec(
        bound_variables_step(clips_step(radii_step(constraints_step(x)))),
    )))), is_node))
}

proof fn lemma_from_constraints_has(x: Entries, is_node: bool, t: Seq<char>)
    requires
        fresh_from_constraints(t),
    ensures
        entries_has(from_constraints(x, is_node), t) ==> entries_has(x, t),
{
    let x4 = constraints_step(x);
    let x5 = radii_step(x4);
    let x6 = clips_step(x5);
    let x7 = bound_variables_step(x6);
    let x8 = color_var_local_spec(x7);
    let x9 = background_step(x8);
    lemma_constraints_has(x, t);
    lemma_radii_has(x4, t);
    lemma_clips_has(x5, t);
    lemma_bound_variables_has(x6, t);
    lemma_color_var_has(x7, t);
    lemma_background_has(x8, t);
    lemma_from_styles_has(x9, is_node, t);
}

proof fn lemma_align_local_split(es: Entries)
    ensures
        align_local_spec(es) == from_constraints(
            symbol_step(text_step(auto_layout_step(es))),
            entries_has(es, "type"@),
        ),
{
}

/// The edit leaves none of the keys that the auto layout, the constraints,
/// the clips, the bound variables and the styles retire.
#[verifier::spinoff_prover]
proof fn lemma_early_keys_dropped(es: Entries)
    ensures
        !entries_has(align_local_spec(es), "stackMode"@),
        !entries_has(align_local_spec(es), "stackSpacing"@),
        !entries_has(align_local_spec(es), "stackHorizontalPadding"@),
        !entries_has(align_local_spec(es), "stackVerticalPadding"@),
        !entries_has(align_local_spec(es), "horizontalConstraint"@),
        !entries_has(align_local_spec(es), "verticalConstraint"@),
        !entries_has(align_local_spec(es), "frameMaskDisabled"@),
        !entries_has(align_local_spec(es), "variableConsumptionMap"@),
        !entries_has(align_local_spec(es), "colorVar"@),
        !entries_has(align_local_spec(es), "styleIdForFill"@),
        !entries_has(align_local_spec(es), "styleIdForText"@),
        !entries_has(align_local_spec(es), "styleIdForStrokeFill"@),
        !entries_has(align_local_spec(es), "styleIdForEffect"@),
{
    reveal_strlit("stackMode");
    assert("stackMode"@.len() == 9 && "stackMode"@[0] == 's');
    reveal_strlit("stackSpacing");
    assert("stackSpacing"@.len() == 12 && "stackSpacing"@[0] == 's');
    reveal_strlit("stackHorizontalPadding");
    assert("stackHorizontalPadding"@.len() == 22 && "stackHorizontalPadding"@[0] == 's');
    reveal_strlit("stackVerticalPadding");
    assert("stackVerticalPadding"@.len() == 20 && "stackVerticalPadding"@[0] == 's');
    reveal_strlit("horizontalConstraint");
    assert("horizontalConstraint"@.len() == 20 && "horizontalConstraint"@[0] == 'h');
    reveal_strlit("verticalConstraint");
    assert("verticalConstraint"@.len() == 18 && "verticalConstraint"@[0] == 'v');
    reveal_strlit("frameMaskDisabled");
    assert("frameMaskDisabled"@.len() == 17 && "frameMaskDisabled"@[0] == 'f');
    reveal_strlit("variableConsumptionMap");
    assert("variableConsumptionMap"@.len() == 22 && "variableConsumptionMap"@[0] == 'v');
    reveal_strlit("colorVar");
    assert("colorVar"@.len() == 8 && "colorVar"@[0] == 'c');
    reveal_strlit("styleIdForFill");
    assert("styleIdForFill"@.len() == 14 && "styleIdForFill"@[0] == 's');
    reveal_strlit("styleIdForText");
    assert("styleIdForText"@.len() == 14 && "styleIdForText"@[0] == 's');
    reveal_strlit("styleIdForStrokeFill");
    assert("styleIdForStrokeFill"@.len() == 20 && "styleIdForStrokeFill"@[0] == 's');
    reveal_strlit("styleIdForEffect");
    assert("styleIdForEffect"@.len() == 16 && "styleIdForEffect"@[0] == 's');
    reveal_strlit("layoutMode");
    assert("layoutMode"@.len() == 10 && "layoutMode"@[0] == 'l');
    reveal_strlit("itemSpacing");
    assert("itemSpacing"@.len() == 11 && "itemSpacing"@[0] == 'i');
    reveal_strlit("paddingLeft");
    assert("paddingLeft"@.len() == 11 && "paddingLeft"@[0] == 'p');
    reveal_strlit("paddingRight");
    assert("paddingRight"@.len() == 12 && "paddingRight"@[0] == 'p');
    reveal_strlit("paddingTop");
    assert("paddingTop"@.len() == 10 && "paddingTop"@[0] == 'p');
    reveal_strlit("paddingBottom");
    assert("paddingBottom"@.len() == 13 && "paddingBottom"@[0] == 'p');
    reveal_strlit("characters");
    assert("characters"@.len() == 10 && "characters"@[0] == 'c');
    reveal_strlit("style");
    assert("style"@.len() == 5 && "style"@[0] == 's');
    reveal_strlit("componentId");
    assert("componentId"@.len() == 11 && "componentId"@[0] == 'c');
    reveal_strlit("overrides");
    assert("overrides"@.len() == 9 && "overrides"@[0] == 'o');
    reveal_strlit("constraints");
    assert("constraints"@.len() == 11 && "constraints"@[0] == 'c');
    reveal_strlit("rectangleCornerRadii");
    assert("rectangleCornerRadii"@.len() == 20 && "rectangleCornerRadii"@[0] == 'r');
    reveal_strlit("clipsContent");
    assert("clipsContent"@.len() == 12 && "clipsContent"@[0] == 'c');
    reveal_strlit("boundVariables");
    assert("boundVariables"@.len() == 14 && "boundVariables"@[0] == 'b');
    reveal_strlit("backgroundColor");
    assert("backgroundColor"@.len() == 15 && "backgroundColor"@[0] == 'b');
    reveal_strlit("styles");
    assert("styles"@.len() == 6 && "styles"@[0] == 's');
    reveal_strlit("interactions");
    assert("interactions"@.len() == 12 && "interactions"@[0] == 'i');
    reveal_strlit("layoutAlign");
    assert("layoutAlign"@.len() == 11 && "layoutAlign"@[0] == 'l');
    reveal_strlit("layoutGrow");
    assert("layoutGrow"@.len() == 10 && "layoutGrow"@[0] == 'l');
    reveal_strlit("fills");
    assert("fills"@.len() == 5 && "fills"@[0] == 'f');
    reveal_strlit("strokes");
    assert("strokes"@.len() == 7 && "strokes"@[0] == 's');
    reveal_strlit("effects");
    assert("effects"@.len() == 7 && "effects"@[0] == 'e');
    let is_node = entries_has(es, "type"@);
    lemma_align_local_split(es);
    // Auto layout: each source key is dropped, and the later auto layout
    // steps add none of them back.
    let l1 = layout_mode_step(es);
    let l2 = rename_key(l1, "stackSpacing"@, "itemSpacing"@);
    let l3 = padding_step(l2, "stackHorizontalPadding"@, "paddingLeft"@, "paddingRight"@);
    let a = auto_layout_step(es);
    if let Some(m) = entries_get(es, "stackMode"@) {
        lemma_has_remove(es, "stackMode"@, "stackMode"@);
        lemma_has_insert(entries_remove(es, "stackMode"@), "layoutMode"@, JsonV::Str(mode_text(m)), "stackMode"@);
    }
    lemma_rename_drops(l1, "stackSpacing"@, "itemSpacing"@);
    lemma_has_rename(l1, "stackSpacing"@, "itemSpacing"@, "stackMode"@);
    lemma_padding_drops(l2, "stackHorizontalPadding"@, "paddingLeft"@, "paddingRight"@);
    lemma_padding_drops(l3, "stackVerticalPadding"@, "paddingTop"@, "paddingBottom"@);
    lemma_padding_has(l2, "stackHorizontalPadding"@, "paddingLeft"@, "paddingRight"@, "stackMode"@);
    lemma_padding_has(l3, "stackVerticalPadding"@, "paddingTop"@, "paddingBottom"@, "stackMode"@);
    lemma_padding_has(l2, "stackHorizontalPadding"@, "paddingLeft"@, "paddingRight"@, "stackSpacing"@);
    lemma_padding_has(l3, "stackVerticalPadding"@, "paddingTop"@, "paddingBottom"@, "stackSpacing"@);
    lemma_padding_has(l3, "stackVerticalPadding"@, "paddingTop"@, "paddingBottom"@, "stackHorizontalPadding"@);
    let x2 = text_step(a);
    let x3 = symbol_step(x2);
    lemma_text_has(a, "stackMode"@);
    lemma_text_has(a, "stackSpacing"@);
    lemma_text_has(a, "stackHorizontalPadding"@);
    lemma_text_has(a, "stackVerticalPadding"@);
    lemma_symbol_has(x2, "stackMode"@);
    lemma_symbol_has(x2, "stackSpacing"@);
    lemma_symbol_has(x2, "stackHorizontalPadding"@);
    lemma_symbol_has(x2, "stackVerticalPadding"@);
    lemma_from_constraints_has(x3, is_node, "stackMode"@);
    lemma_from_constraints_has(x3, is_node, "stackSpacing"@);
    lemma_from_constraints_has(x3, is_node, "stackHorizontalPadding"@);
    lemma_from_constraints_has(x3, is_node, "stackVerticalPadding"@);
    lemma_later_keys_dropped(x3, is_node);
}

proof fn lemma_padding_drops(es: Entries, from: Seq<char>, a: Seq<char>, b: Seq<char>)
    requires
        from != a,
        from != b,
    ensures
        !entries_has(padding_step(es, from, a, b), from),
{
    if let Some(p) = entries_get(es, from) {
        let r = entries_remove(es, from);
        lemma_has_remove(es, from, from);
        lemma_has_insert(r, a, p, from);
        lemma_has_insert(entries_insert(r, a, p), b, p, from);
    }
}

/// The keys retired by the constraints, the clips, the bound variables and
/// the styles are absent after the steps from the constraints on.
#[verifier::spinoff_prover]
proof fn lemma_later_keys_dropped(x: Entries, is_node: bool)
    ensures
        !entries_has(from_constraints(x, is_node), "horizontalConstraint"@),
        !entries_has(from_constraints(x, is_node), "verticalConstraint"@),
        !entries_has(from_constraints(x, is_node), "frameMaskDisabled"@),
        !entries_has(from_constraints(x, is_node), "variableConsumptionMap"@),
        !entries_has(from_constraints(x, is_node), "colorVar"@),
        !entries_has(from_constraints(x, is_node), "styleIdForFill"@),
        !entries_has(from_constraints(x, is_node), "styleIdForText"@),
        !entries_has(from_constraints(x, is_node), "styleIdForStrokeFill"@),
        !entries_has(from_constraints(x, is_node), "styleIdForEffect"@),
{
    reveal_strlit("horizontalConstraint");
    assert("horizontalConstraint"@.len() == 20 && "horizontalConstraint"@[0] == 'h');
    reveal_strlit("verticalConstraint");
    assert("verticalConstraint"@.len() == 18 && "verticalConstraint"@[0] == 'v');
    reveal_strlit("frameMaskDisabled");
    assert("frameMaskDisabled"@.len() == 17 && "frameMaskDisabled"@[0] == 'f');
    reveal_strlit("variableConsumptionMap");
    assert("variableConsumptionMap"@.len() == 22 && "variableConsumptionMap"@[0] == 'v');
    reveal_strlit("colorVar");
    assert("colorVar"@.len() == 8 && "colorVar"@[0] == 'c');
    reveal_strlit("styleIdForFill");
    assert("styleIdForFill"@.len() == 14 && "styleIdForFill"@[0] == 's');
    reveal_strlit("styleIdForText");
    assert("styleIdForText"@.len() == 14 && "styleIdForText"@[0] == 's');
    reveal_strlit("styleIdForStrokeFill");
    assert("styleIdForStrokeFill"@.len() == 20 && "styleIdForStrokeFill"@[0] == 's');
    reveal_strlit("styleIdForEffect");
    assert("styleIdForEffect"@.len() == 16 && "styleIdForEffect"@[0] == 's');
    reveal_strlit("constraints");
    assert("constraints"@.len() == 11 && "constraints"@[0] == 'c');
    reveal_strlit("rectangleCornerRadii");
    assert("rectangleCornerRadii"@.len() == 20 && "rectangleCornerRadii"@[0] == 'r');
    reveal_strlit("clipsContent");
    assert("clipsContent"@.len() == 12 && "clipsContent"@[0] == 'c');
    reveal_strlit("boundVariables");
    assert("boundVariables"@.len() == 14 && "boundVariables"@[0] == 'b');
    reveal_strlit("backgroundColor");
    assert("backgroundColor"@.len() == 15 && "backgroundColor"@[0] == 'b');
    reveal_strlit("styles");
    assert("styles"@.len() == 6 && "styles"@[0] == 's');
    reveal_strlit("interactions");
    assert("interactions"@.len() == 12 && "interactions"@[0] == 'i');
    reveal_strlit("layoutAlign");
    assert("layoutAlign"@.len() == 11 && "layoutAlign"@[0] == 'l');
    reveal_strlit("layoutGrow");
    assert("layoutGrow"@.len() == 10 && "layoutGrow"@[0] == 'l');
    reveal_strlit("fills");
    assert("fills"@.len() == 5 && "fills"@[0] == 'f');
    reveal_strlit("strokes");
    assert("strokes"@.len() == 7 && "strokes"@[0] == 's');
    reveal_strlit("effects");
    assert("effects"@.len() == 7 && "effects"@[0] == 'e');
    let hc = "horizontalConstraint"@;
    let vc = "verticalConstraint"@;
    let fm = "frameMaskDisabled"@;
    let vm = "variableConsumptionMap"@;
    let cv = "colorVar"@;
    let x4 = constraints_step(x);
    let x5 = radii_step(x4);
    let x6 = clips_step(x5);
    let x7 = bound_variables_step(x6);
    let x8 = color_var_local_spec(x7);
    let x9 = background_step(x8);
    // Constraints.
    let r0 = entries_remove(x, hc);
    let c1 = entries_remove(r0, vc);
    lemma_has_remove(x, hc, hc);
    lemma_has_remove(r0, vc, hc);
    lemma_has_remove(r0, vc, vc);
    lemma_has_insert(c1, "constraints"@, constraints_object(entries_get(x, hc), entries_get(x, vc)), hc);
    lemma_has_insert(c1, "constraints"@, constraints_object(entries_get(x, hc), entries_get(x, vc)), vc);
    lemma_radii_has(x4, hc);
    lemma_radii_has(x4, vc);
    // Clips.
    if let Some(md) = entries_get(x5, fm) {
        lemma_has_remove(x5, fm, fm);
        lemma_has_insert(entries_remove(x5, fm), "clipsContent"@, JsonV::Bool(!mask_disabled(md)), fm);
    }
    lemma_clips_has(x5, hc);
    lemma_clips_has(x5, vc);
    // Bound variables.
    if let Some(m) = entries_get(x6, vm) {
        lemma_has_remove(x6, vm, vm);
        lemma_has_insert(entries_remove(x6, vm), "boundVariables"@, JsonV::Object(bound_variables(m)), vm);
    }
    lemma_bound_variables_has(x6, hc);
    lemma_bound_variables_has(x6, vc);
    lemma_bound_variables_has(x6, fm);
    // Color variables.
    if let Some(c) = entries_get(x7, cv) {
        lemma_has_remove(x7, cv, cv);
        if let Some(al) = official_alias(c) {
            lemma_has_insert(
                entries_remove(x7, cv),
                "boundVariables"@,
                crate::schema::transformations::variables_transformation::color_binding(al),
                cv,
            );
        }
    }
    lemma_color_var_has(x7, hc);
    lemma_color_var_has(x7, vc);
    lemma_color_var_has(x7, fm);
    lemma_color_var_has(x7, vm);
    lemma_background_has(x8, hc);
    lemma_background_has(x8, vc);
    lemma_background_has(x8, fm);
    lemma_background_has(x8, vm);
    lemma_background_has(x8, cv);
    lemma_styles_drop(x9);
    let y = styles_step(x9);
    lemma_styles_has(x9, hc);
    lemma_styles_has(x9, vc);
    lemma_styles_has(x9, fm);
    lemma_styles_has(x9, vm);
    lemma_styles_has(x9, cv);
    lemma_renames_has(y, hc);
    lemma_renames_has(y, vc);
    lemma_renames_has(y, fm);
    lemma_renames_has(y, vm);
    lemma_renames_has(y, cv);
    lemma_renames_has(y, "styleIdForFill"@);
    lemma_renames_has(y, "styleIdForText"@);
    lemma_renames_has(y, "styleIdForStrokeFill"@);
    lemma_renames_has(y, "styleIdForEffect"@);
    let z = renames_step(y);
    lemma_arrays_has(z, is_node, hc);
    lemma_arrays_has(z, is_node, vc);
    lemma_arrays_has(z, is_node, fm);
    lemma_arrays_has(z, is_node, vm);
    lemma_arrays_has(z, is_node, cv);
    lemma_arrays_has(z, is_node, "styleIdForFill"@);
    lemma_arrays_has(z, is_node, "styleIdForText"@);
    lemma_arrays_has(z, is_node, "styleIdForStrokeFill"@);
    lemma_arrays_has(z, is_node, "styleIdForEffect"@);
}

proof fn lemma_style_step_drops(acc: (Entries, Entries), old: Seq<char>, new: Seq<char>, t: Seq<char>)
    ensures
        !entries_has(style_step(acc, old, new).0, old),
        entries_has(style_step(acc, old, new).0, t) ==> entries_has(acc.0, t),
{
    lemma_style_step_has(acc, old, new, t);
    if entries_get(acc.0, old) is Some {
        lemma_has_remove(acc.0, old, old);
    }
}

/// The styles step leaves none of the style references it collects.
proof fn lemma_styles_drop(es: Entries)
    ensures
        !entries_has(styles_step(es), "styleIdForFill"@),
        !entries_has(styles_step(es), "styleIdForText"@),
        !entries_has(styles_step(es), "styleIdForStrokeFill"@),
        !entries_has(styles_step(es), "styleIdForEffect"@),
{
    let f = "styleIdForFill"@;
    let tx = "styleIdForText"@;
    let s = "styleIdForStrokeFill"@;
    let e = "styleIdForEffect"@;
    let a0: (Entries, Entries) = (es, Seq::empty());
    let a1 = style_step(a0, f, "fill"@);
    let a2 = style_step(a1, tx, "text"@);
    let a3 = style_step(a2, s, "stroke"@);
    let a4 = style_step(a3, e, "effect"@);
    lemma_style_step_drops(a0, f, "fill"@, f);
    lemma_style_step_drops(a1, tx, "text"@, f);
    lemma_style_step_drops(a2, s, "stroke"@, f);
    lemma_style_step_drops(a3, e, "effect"@, f);
    lemma_style_step_drops(a2, s, "stroke"@, tx);
    lemma_style_step_drops(a3, e, "effect"@, tx);
    lemma_style_step_drops(a3, e, "effect"@, s);
    reveal_strlit("styles");
    assert("styles"@.len() == 6 && "styles"@[0] == 's');
    reveal_strlit("styleIdForFill");
    assert("styleIdForFill"@.len() == 14 && "styleIdForFill"@[0] == 's');
    reveal_strlit("styleIdForText");
    assert("styleIdForText"@.len() == 14 && "styleIdForText"@[0] == 's');
    reveal_strlit("styleIdForStrokeFill");
    assert("styleIdForStrokeFill"@.len() == 20 && "styleIdForStrokeFill"@[0] == 's');
    reveal_strlit("styleIdForEffect");
    assert("styleIdForEffect"@.len() == 16 && "styleIdForEffect"@[0] == 's');
    lemma_has_insert(a4.0, "styles"@, JsonV::Object(a4.1), f);
    lemma_has_insert(a4.0, "styles"@, JsonV::Object(a4.1), tx);
    lemma_has_insert(a4.0, "styles"@, JsonV::Object(a4.1), s);
    lemma_has_insert(a4.0, "styles"@, JsonV::Object(a4.1), e);
}

} // verus!
