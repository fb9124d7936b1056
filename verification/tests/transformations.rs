use fig2json::json::{Json, JsonNumber};
use fig2json::schema::{
    align_fields, align_node_types, remove_redundant_properties, remove_vector_data,
    rename_paints, rename_transform, transform_guids_to_ids, transform_variables,
};

fn num(u: u64) -> Json {
    Json::Number(JsonNumber::PosInt(u))
}

fn neg(i: i64) -> Json {
    Json::Number(JsonNumber::NegInt(i))
}

fn float(f: f64) -> Json {
    Json::Number(JsonNumber::Float(f.to_bits()))
}

fn text(s: &str) -> Json {
    Json::String(s.to_string())
}

fn arr(items: Vec<Json>) -> Json {
    Json::Array(items)
}

fn obj(entries: Vec<(&str, Json)>) -> Json {
    Json::Object(entries.into_iter().map(|(k, v)| (k.to_string(), v)).collect())
}

fn guid(session: u64, local: u64) -> Json {
    obj(vec![("sessionID", num(session)), ("localID", num(local))])
}

/// The value with the members of every object in key order: objects compare
/// as maps, whatever order their members were written in.
fn canon(v: &Json) -> Json {
    match v {
        Json::Object(es) => {
            let mut out: Vec<(String, Json)> = es.iter().map(|(k, x)| (k.clone(), canon(x))).collect();
            out.sort_by(|a, b| a.0.cmp(&b.0));
            Json::Object(out)
        }
        Json::Array(items) => Json::Array(items.iter().map(canon).collect()),
        other => other.deep_clone(),
    }
}

fn assert_same(actual: &Json, expected: &Json) {
    assert_eq!(canon(actual), canon(expected));
}

fn alias_by_guid(session: u64, local: u64) -> Json {
    obj(vec![
        ("dataType", text("ALIAS")),
        ("value", obj(vec![("alias", obj(vec![("guid", guid(session, local))]))])),
    ])
}

fn alias_by_id(id: &str) -> Json {
    obj(vec![
        ("dataType", obj(vec![("value", text("ALIAS"))])),
        ("value", obj(vec![("alias", obj(vec![("id", text(id))]))])),
    ])
}

fn variable_alias(id: &str) -> Json {
    obj(vec![("type", text("VARIABLE_ALIAS")), ("id", text(id))])
}

/// An object with a `type` after field alignment: every one of `fills`,
/// `strokes`, `effects` and `interactions` that it lacks is an empty array.
fn node(mut es: Vec<(&'static str, Json)>) -> Json {
    for k in ["fills", "strokes", "effects", "interactions"] {
        if !es.iter().any(|(n, _)| *n == k) {
            es.push((k, arr(vec![])));
        }
    }
    obj(es)
}

/// A variable alias after field alignment, which treats it as a node.
fn aligned_alias(id: &str) -> Json {
    node(vec![("type", text("VARIABLE_ALIAS")), ("id", text(id))])
}

// ---------------------------------------------------------------------------
// vectorData
// ---------------------------------------------------------------------------

fn vector_document() -> Json {
    obj(vec![
        ("vectorData", num(1)),
        (
            "a",
            obj(vec![
                ("vectorData", obj(vec![])),
                ("b", arr(vec![obj(vec![("vectorData", num(2)), ("c", num(3))])])),
            ]),
        ),
    ])
}

#[test]
fn vector_data_removed_at_every_depth() {
    let mut doc = vector_document();
    assert!(remove_vector_data(&mut doc).is_ok());
    assert_same(&doc, &obj(vec![("a", obj(vec![("b", arr(vec![obj(vec![("c", num(3))])]))]))]));
}

#[test]
fn vector_data_removal_twice_is_once() {
    let mut once = vector_document();
    remove_vector_data(&mut once).unwrap();
    let mut twice = vector_document();
    remove_vector_data(&mut twice).unwrap();
    remove_vector_data(&mut twice).unwrap();
    assert_eq!(once, twice);
}

#[test]
fn vector_data_leaves_scalars_alone() {
    let mut doc = text("vectorData");
    remove_vector_data(&mut doc).unwrap();
    assert_eq!(doc, text("vectorData"));
}

// ---------------------------------------------------------------------------
// Paints
// ---------------------------------------------------------------------------

fn paint_document() -> Json {
    obj(vec![
        ("fillPaints", arr(vec![num(1)])),
        ("fills", text("old")),
        ("strokePaints", arr(vec![num(2)])),
        ("child", arr(vec![obj(vec![("fillPaints", arr(vec![]))])])),
    ])
}

#[test]
fn paints_renamed_at_every_depth() {
    let mut doc = paint_document();
    rename_paints(&mut doc).unwrap();
    assert_same(
        &doc,
        &obj(vec![
            ("fills", arr(vec![num(1)])),
            ("strokes", arr(vec![num(2)])),
            ("child", arr(vec![obj(vec![("fills", arr(vec![]))])])),
        ]),
    );
}

#[test]
fn paint_renaming_twice_is_once() {
    let mut once = paint_document();
    rename_paints(&mut once).unwrap();
    let mut twice = paint_document();
    rename_paints(&mut twice).unwrap();
    rename_paints(&mut twice).unwrap();
    assert_eq!(once, twice);
}

// ---------------------------------------------------------------------------
// Redundant properties
// ---------------------------------------------------------------------------

fn redundant_document() -> Json {
    obj(vec![
        ("isPageDivider", Json::Bool(true)),
        ("dashPattern", arr(vec![num(0), float(0.0)])),
        (
            "nested",
            obj(vec![("dashPattern", arr(vec![num(0), num(1)])), ("isPageDivider", Json::Bool(false))]),
        ),
        (
            "list",
            arr(vec![
                obj(vec![("dashPattern", arr(vec![float(-0.0), num(0)]))]),
                obj(vec![("dashPattern", arr(vec![num(0), num(0), num(0)]))]),
                obj(vec![("dashPattern", arr(vec![text("0"), num(0)]))]),
            ]),
        ),
    ])
}

#[test]
fn redundant_properties_removed() {
    let mut doc = redundant_document();
    remove_redundant_properties(&mut doc).unwrap();
    assert_same(
        &doc,
        &obj(vec![
            ("nested", obj(vec![("dashPattern", arr(vec![num(0), num(1)]))])),
            (
                "list",
                arr(vec![
                    obj(vec![]),
                    obj(vec![("dashPattern", arr(vec![num(0), num(0), num(0)]))]),
                    obj(vec![("dashPattern", arr(vec![text("0"), num(0)]))]),
                ]),
            ),
        ]),
    );
}

#[test]
fn redundant_properties_removal_twice_is_once() {
    let mut once = redundant_document();
    remove_redundant_properties(&mut once).unwrap();
    let mut twice = redundant_document();
    remove_redundant_properties(&mut twice).unwrap();
    remove_redundant_properties(&mut twice).unwrap();
    assert_eq!(once, twice);
}

// ---------------------------------------------------------------------------
// Node types
// ---------------------------------------------------------------------------

fn typed_document() -> Json {
    arr(vec![
        obj(vec![("type", text("SYMBOL"))]),
        obj(vec![("type", text("ROUNDED_RECTANGLE"))]),
        obj(vec![("type", text("FRAME")), ("isStateGroup", Json::Bool(true))]),
        obj(vec![("type", text("FRAME")), ("isStateGroup", Json::Bool(false))]),
        obj(vec![("type", text("FRAME"))]),
        obj(vec![("type", obj(vec![("value", text("SYMBOL"))]))]),
        obj(vec![("type", text("TEXT")), ("children", arr(vec![obj(vec![("type", text("SYMBOL"))])]))]),
    ])
}

#[test]
fn node_types_aligned() {
    let mut doc = typed_document();
    align_node_types(&mut doc).unwrap();
    assert_same(
        &doc,
        &arr(vec![
            obj(vec![("type", text("COMPONENT"))]),
            obj(vec![("type", text("RECTANGLE"))]),
            obj(vec![("type", text("COMPONENT_SET")), ("isStateGroup", Json::Bool(true))]),
            obj(vec![("type", text("FRAME")), ("isStateGroup", Json::Bool(false))]),
            obj(vec![("type", text("FRAME"))]),
            obj(vec![("type", obj(vec![("value", text("SYMBOL"))]))]),
            obj(vec![("type", text("TEXT")), ("children", arr(vec![obj(vec![("type", text("COMPONENT"))])]))]),
        ]),
    );
}

#[test]
fn node_type_alignment_twice_is_once() {
    let mut once = typed_document();
    align_node_types(&mut once).unwrap();
    let mut twice = typed_document();
    align_node_types(&mut twice).unwrap();
    align_node_types(&mut twice).unwrap();
    assert_eq!(once, twice);
}

// ---------------------------------------------------------------------------
// Variables
// ---------------------------------------------------------------------------

fn variables_document() -> Json {
    arr(vec![
        obj(vec![("colorVar", alias_by_guid(12, 34)), ("boundVariables", text("old"))]),
        obj(vec![("colorVar", alias_by_id("VariableID:abc"))]),
        obj(vec![("colorVar", alias_by_id("abc"))]),
        obj(vec![("colorVar", obj(vec![("dataType", text("FLOAT"))])), ("name", text("kept"))]),
        obj(vec![("paints", arr(vec![obj(vec![("colorVar", alias_by_guid(1, 2))])]))]),
    ])
}

#[test]
fn color_variables_become_bound_variables() {
    let mut doc = variables_document();
    transform_variables(&mut doc).unwrap();
    assert_same(
        &doc,
        &arr(vec![
            obj(vec![("boundVariables", obj(vec![("color", variable_alias("VariableID:12:34"))]))]),
            obj(vec![("boundVariables", obj(vec![("color", variable_alias("VariableID:abc"))]))]),
            obj(vec![("boundVariables", obj(vec![("color", variable_alias("VariableID:abc"))]))]),
            obj(vec![("name", text("kept"))]),
            obj(vec![(
                "paints",
                arr(vec![obj(vec![("boundVariables", obj(vec![("color", variable_alias("VariableID:1:2"))]))])]),
            )]),
        ]),
    );
}

#[test]
fn variables_transformation_twice_is_once() {
    let mut once = variables_document();
    transform_variables(&mut once).unwrap();
    let mut twice = variables_document();
    transform_variables(&mut twice).unwrap();
    transform_variables(&mut twice).unwrap();
    assert_eq!(once, twice);
}

// ---------------------------------------------------------------------------
// Relative transforms
// ---------------------------------------------------------------------------

#[test]
fn transform_becomes_relative_matrix_of_doubles() {
    let mut doc = obj(vec![(
        "transform",
        obj(vec![("m00", num(2)), ("m01", float(0.5)), ("m02", neg(-3)), ("m12", num(7))]),
    )]);
    rename_transform(&mut doc).unwrap();
    assert_same(
        &doc,
        &obj(vec![(
            "relativeTransform",
            arr(vec![
                arr(vec![float(2.0), float(0.5), float(-3.0)]),
                arr(vec![float(0.0), float(1.0), float(7.0)]),
            ]),
        )]),
    );
}

#[test]
fn transform_without_m00_is_only_renamed() {
    let mut doc = arr(vec![
        obj(vec![("transform", obj(vec![("x", num(1)), ("transform", text("inner"))]))]),
        obj(vec![("transform", text("rotate(90)"))]),
    ]);
    rename_transform(&mut doc).unwrap();
    assert_same(
        &doc,
        &arr(vec![
            obj(vec![("relativeTransform", obj(vec![("x", num(1)), ("relativeTransform", text("inner"))]))]),
            obj(vec![("relativeTransform", text("rotate(90)"))]),
        ]),
    );
}

#[test]
fn transform_renaming_twice_is_once() {
    let make = || obj(vec![("transform", obj(vec![("m00", num(1)), ("m11", num(1))])), ("k", arr(vec![]))]);
    let mut once = make();
    rename_transform(&mut once).unwrap();
    let mut twice = make();
    rename_transform(&mut twice).unwrap();
    rename_transform(&mut twice).unwrap();
    assert_eq!(once, twice);
}

// ---------------------------------------------------------------------------
// GUIDs to ids
// ---------------------------------------------------------------------------

#[test]
fn guids_become_ids() {
    let mut doc = arr(vec![
        obj(vec![("guid", guid(1, 2)), ("symbolID", guid(3, 4)), ("name", text("n"))]),
        obj(vec![("guid", guid(5, 6)), ("id", text("I1:2;5:6"))]),
        obj(vec![("guid", text("not a guid"))]),
        obj(vec![("id", guid(7, 8)), ("other", obj(vec![("sessionID", num(1))]))]),
        obj(vec![("nested", obj(vec![("detachedSymbolID", guid(9, 10))]))]),
    ]);
    transform_guids_to_ids(&mut doc).unwrap();
    assert_same(
        &doc,
        &arr(vec![
            obj(vec![("id", text("1:2")), ("symbolID", text("3:4")), ("name", text("n"))]),
            obj(vec![("id", text("I1:2;5:6"))]),
            obj(vec![("guid", text("not a guid"))]),
            obj(vec![("id", guid(7, 8)), ("other", obj(vec![("sessionID", num(1))]))]),
            obj(vec![("nested", obj(vec![("detachedSymbolID", text("9:10"))]))]),
        ]),
    );
}

#[test]
fn guid_object_that_is_not_a_guid_stays() {
    let mut doc = obj(vec![("guid", obj(vec![("sessionID", num(1)), ("localID", neg(-1))]))]);
    transform_guids_to_ids(&mut doc).unwrap();
    assert_same(&doc, &obj(vec![("guid", obj(vec![("sessionID", num(1)), ("localID", neg(-1))]))]));
}

// ---------------------------------------------------------------------------
// Field alignment
// ---------------------------------------------------------------------------

#[test]
fn auto_layout_fields_renamed() {
    let mut doc = obj(vec![
        ("stackMode", obj(vec![("value", text("HORIZONTAL"))])),
        ("stackSpacing", num(8)),
        ("stackHorizontalPadding", num(4)),
        ("stackVerticalPadding", num(2)),
    ]);
    align_fields(&mut doc).unwrap();
    assert_same(
        &doc,
        &obj(vec![
            ("layoutMode", text("HORIZONTAL")),
            ("itemSpacing", num(8)),
            ("paddingLeft", num(4)),
            ("paddingRight", num(4)),
            ("paddingTop", num(2)),
            ("paddingBottom", num(2)),
        ]),
    );
}

#[test]
fn text_data_lifted_with_font_names() {
    let mut doc = obj(vec![(
        "textData",
        obj(vec![
            ("characters", text("Hello")),
            ("style", obj(vec![("family", text("Inter")), ("postscript", text("Inter-Bold")), ("size", num(12))])),
        ]),
    )]);
    align_fields(&mut doc).unwrap();
    assert_same(
        &doc,
        &obj(vec![
            (
                "textData",
                obj(vec![
                    ("characters", text("Hello")),
                    ("style", obj(vec![("family", text("Inter")), ("postscript", text("Inter-Bold")), ("size", num(12))])),
                ]),
            ),
            ("characters", text("Hello")),
            ("style", obj(vec![("fontFamily", text("Inter")), ("fontPostScriptName", text("Inter-Bold")), ("size", num(12))])),
        ]),
    );
}

#[test]
fn instance_gets_component_id_and_overrides() {
    let mut doc = arr(vec![
        obj(vec![(
            "symbolData",
            obj(vec![
                ("symbolID", obj(vec![("guid", guid(3, 4))])),
                ("symbolOverrides", arr(vec![num(1)])),
            ]),
        )]),
        obj(vec![("symbolData", obj(vec![("symbolID", text("5:6"))]))]),
    ]);
    align_fields(&mut doc).unwrap();
    assert_same(
        &doc,
        &arr(vec![
            obj(vec![
                (
                    "symbolData",
                    obj(vec![
                        ("symbolID", obj(vec![("guid", guid(3, 4))])),
                        ("symbolOverrides", arr(vec![num(1)])),
                    ]),
                ),
                ("componentId", text("3:4")),
                ("overrides", arr(vec![num(1)])),
            ]),
            obj(vec![("symbolData", obj(vec![("symbolID", text("5:6"))])), ("componentId", text("5:6"))]),
        ]),
    );
}

#[test]
fn constraints_assembled() {
    let mut doc = arr(vec![
        obj(vec![("horizontalConstraint", obj(vec![("value", text("CENTER"))]))]),
        obj(vec![("verticalConstraint", text("MAX")), ("horizontalConstraint", num(3))]),
    ]);
    align_fields(&mut doc).unwrap();
    assert_same(
        &doc,
        &arr(vec![
            obj(vec![("constraints", obj(vec![("horizontal", text("CENTER")), ("vertical", text("MIN"))]))]),
            obj(vec![("constraints", obj(vec![("horizontal", text("MIN")), ("vertical", text("MAX"))]))]),
        ]),
    );
}

#[test]
fn corner_radii_collected_as_doubles() {
    let mut doc = arr(vec![
        obj(vec![("rectangleTopLeftCornerRadius", num(4)), ("rectangleBottomLeftCornerRadius", neg(-2))]),
        obj(vec![("rectangleTopRightCornerRadius", float(0.0))]),
    ]);
    align_fields(&mut doc).unwrap();
    assert_same(
        &doc,
        &arr(vec![
            obj(vec![
                ("rectangleTopLeftCornerRadius", num(4)),
                ("rectangleBottomLeftCornerRadius", neg(-2)),
                ("rectangleCornerRadii", arr(vec![float(4.0), float(0.0), float(0.0), float(-2.0)])),
            ]),
            obj(vec![("rectangleTopRightCornerRadius", float(0.0))]),
        ]),
    );
}

#[test]
fn clips_content_from_mask() {
    let mut doc = arr(vec![
        obj(vec![("frameMaskDisabled", Json::Bool(true))]),
        obj(vec![("frameMaskDisabled", obj(vec![("value", Json::Bool(false))]))]),
        obj(vec![("frameMaskDisabled", Json::Null)]),
    ]);
    align_fields(&mut doc).unwrap();
    assert_same(
        &doc,
        &arr(vec![
            obj(vec![("clipsContent", Json::Bool(false))]),
            obj(vec![("clipsContent", Json::Bool(true))]),
            obj(vec![("clipsContent", Json::Bool(true))]),
        ]),
    );
}

#[test]
fn bound_variables_from_consumption_map() {
    let entry = |field: Json, data: Json| obj(vec![("variableField", field), ("variableData", data)]);
    let mut doc = obj(vec![(
        "variableConsumptionMap",
        obj(vec![(
            "entries",
            arr(vec![
                entry(text("FILLS"), alias_by_guid(1, 1)),
                entry(obj(vec![("value", text("STROKES"))]), alias_by_id("s")),
                entry(text("CORNER_RADIUS"), alias_by_id("VariableID:r")),
                entry(text("RECTANGLE_TOP_LEFT_CORNER_RADIUS"), alias_by_guid(2, 2)),
                entry(text("OPACITY"), alias_by_guid(3, 3)),
                entry(text("WIDTH"), obj(vec![("dataType", text("FLOAT"))])),
            ]),
        )]),
    )]);
    align_fields(&mut doc).unwrap();
    assert_same(
        &doc,
        &obj(vec![(
            "boundVariables",
            obj(vec![
                ("fills", arr(vec![aligned_alias("VariableID:1:1")])),
                ("strokes", arr(vec![aligned_alias("VariableID:s")])),
                ("cornerRadius", aligned_alias("VariableID:r")),
                ("opacity", aligned_alias("VariableID:3:3")),
                (
                    "rectangleCornerRadii",
                    obj(vec![("RECTANGLE_TOP_LEFT_CORNER_RADIUS", aligned_alias("VariableID:2:2"))]),
                ),
            ]),
        )]),
    );
}

#[test]
fn empty_consumption_map_is_dropped() {
    let mut doc = obj(vec![("variableConsumptionMap", obj(vec![("entries", arr(vec![]))]))]);
    align_fields(&mut doc).unwrap();
    assert_same(&doc, &obj(vec![]));
}

#[test]
fn frame_gets_background_color() {
    let red = || obj(vec![("r", float(1.0)), ("g", num(0)), ("b", num(0)), ("a", num(1))]);
    let zero = || float(0.0);
    let mut doc = arr(vec![
        obj(vec![("type", text("FRAME")), ("fills", arr(vec![obj(vec![("type", text("SOLID")), ("color", red())])]))]),
        obj(vec![("type", text("FRAME")), ("fills", arr(vec![obj(vec![("type", text("IMAGE"))])]))]),
        obj(vec![("type", text("TEXT"))]),
    ]);
    align_fields(&mut doc).unwrap();
    assert_same(
        &doc,
        &arr(vec![
            node(vec![
                ("type", text("FRAME")),
                ("fills", arr(vec![node(vec![("type", text("SOLID")), ("color", red())])])),
                ("backgroundColor", red()),
            ]),
            node(vec![
                ("type", text("FRAME")),
                ("fills", arr(vec![node(vec![("type", text("IMAGE"))])])),
                ("backgroundColor", obj(vec![("r", zero()), ("g", zero()), ("b", zero()), ("a", zero())])),
            ]),
            node(vec![("type", text("TEXT"))]),
        ]),
    );
}

#[test]
fn style_references_collected() {
    let mut doc = obj(vec![
        ("styleIdForFill", obj(vec![("guid", guid(1, 2))])),
        ("styleIdForText", text("S:text")),
        ("styleIdForEffect", num(5)),
    ]);
    align_fields(&mut doc).unwrap();
    assert_same(&doc, &obj(vec![("styles", obj(vec![("fill", text("1:2")), ("text", text("S:text"))]))]));
}

#[test]
fn prototype_and_layout_fields_renamed_and_internals_dropped() {
    let mut doc = obj(vec![
        ("prototypeInteractions", arr(vec![num(1)])),
        ("stackChildAlignSelf", text("STRETCH")),
        ("stackChildPrimaryGrow", num(1)),
        ("parameterConsumptionMap", obj(vec![])),
        ("derivedSymbolData", arr(vec![])),
        ("sharedSymbolVersion", text("v")),
    ]);
    align_fields(&mut doc).unwrap();
    assert_same(
        &doc,
        &obj(vec![
            ("interactions", arr(vec![num(1)])),
            ("layoutAlign", text("STRETCH")),
            ("layoutGrow", num(1)),
        ]),
    );
}

#[test]
fn nodes_get_property_arrays_at_every_depth() {
    let mut doc = obj(vec![
        ("type", text("DOCUMENT")),
        ("children", arr(vec![obj(vec![("type", text("CANVAS")), ("fills", arr(vec![num(1)]))])])),
        ("meta", obj(vec![("x", num(1))])),
    ]);
    align_fields(&mut doc).unwrap();
    assert_same(
        &doc,
        &obj(vec![
            ("type", text("DOCUMENT")),
            (
                "children",
                arr(vec![obj(vec![
                    ("type", text("CANVAS")),
                    ("fills", arr(vec![num(1)])),
                    ("strokes", arr(vec![])),
                    ("effects", arr(vec![])),
                    ("interactions", arr(vec![])),
                ])]),
            ),
            ("meta", obj(vec![("x", num(1))])),
            ("fills", arr(vec![])),
            ("strokes", arr(vec![])),
            ("effects", arr(vec![])),
            ("interactions", arr(vec![])),
        ]),
    );
}

#[test]
fn align_fields_converts_color_variables() {
    let mut doc = obj(vec![("colorVar", alias_by_guid(4, 5))]);
    align_fields(&mut doc).unwrap();
    assert_same(&doc, &obj(vec![("boundVariables", obj(vec![("color", aligned_alias("VariableID:4:5"))]))]));
}

// ---------------------------------------------------------------------------
// A second alignment
// ---------------------------------------------------------------------------

fn aligned_document() -> Json {
    obj(vec![
        ("type", text("FRAME")),
        ("fills", arr(vec![obj(vec![("type", text("SOLID")), ("color", obj(vec![("r", float(0.5))]))])])),
        (
            "textData",
            obj(vec![
                ("characters", text("Hi")),
                ("style", obj(vec![("family", text("Inter")), ("fontSize", num(12))])),
            ]),
        ),
        (
            "symbolData",
            obj(vec![("symbolID", obj(vec![("guid", guid(3, 4))])), ("symbolOverrides", arr(vec![obj(vec![("type", text("TEXT"))])]))]),
        ),
        ("rectangleTopLeftCornerRadius", num(4)),
        ("stackMode", text("VERTICAL")),
        ("styleIdForFill", obj(vec![("guid", guid(1, 2))])),
        ("children", arr(vec![obj(vec![("type", text("TEXT")), ("prototypeInteractions", arr(vec![]))])])),
    ])
}

#[test]
fn field_alignment_twice_changes_no_member() {
    let mut once = aligned_document();
    align_fields(&mut once).unwrap();
    let mut twice = aligned_document();
    align_fields(&mut twice).unwrap();
    align_fields(&mut twice).unwrap();
    assert_same(&twice, &once);
}

#[test]
fn nested_text_data_lifts_again() {
    let make = || {
        obj(vec![(
            "textData",
            obj(vec![("characters", text("a")), ("textData", obj(vec![("characters", text("b"))]))]),
        )])
    };
    let mut once = make();
    align_fields(&mut once).unwrap();
    assert_eq!(once.get("characters"), Some(&text("a")));
    let mut twice = make();
    align_fields(&mut twice).unwrap();
    align_fields(&mut twice).unwrap();
    assert_eq!(twice.get("characters"), Some(&text("b")));
}

fn keys_distinct_everywhere(v: &Json) -> bool {
    match v {
        Json::Object(es) => {
            let mut keys: Vec<&String> = es.iter().map(|(k, _)| k).collect();
            keys.sort();
            keys.windows(2).all(|w| w[0] != w[1]) && es.iter().all(|(_, x)| keys_distinct_everywhere(x))
        }
        Json::Array(items) => items.iter().all(keys_distinct_everywhere),
        _ => true,
    }
}

#[test]
fn passes_keep_keys_distinct() {
    let mut doc = aligned_document();
    align_fields(&mut doc).unwrap();
    rename_paints(&mut doc).unwrap();
    transform_guids_to_ids(&mut doc).unwrap();
    rename_transform(&mut doc).unwrap();
    assert!(keys_distinct_everywhere(&doc));
}
