//! Alignment of node type names with the names of the Figma REST API.
use vstd::prelude::*;
use crate::error::FigError;
use crate::json::{
    entries_find, entries_get, entries_insert, entries_put, entries_view, height, jget,
    lemma_insert_get, lemma_insert_values_below, lemma_object_values_below, obool, Entries, Json,
    JsonV,
};
use crate::schema::transformations::traversal::{
    below, everywhere, kept_by, lemma_get_walked, lemma_transformed_everywhere,
    lemma_transformed_idempotent, lemma_transformed_shape, local_spec, transform_in_place,
    transformed, walked, Pass,
};
use crate::text::{owned, str_eq};

verus! {

pub open spec fn bool_or(o: Option<bool>, d: bool) -> bool {
    match o {
        Some(b) => b,
        None => d,
    }
}

/// The REST API name of a node type: a `FRAME` that is a state group is a
/// `COMPONENT_SET`, a `SYMBOL` a `COMPONENT`, a `ROUNDED_RECTANGLE` a
/// `RECTANGLE`; `None` where the name stays.
pub open spec fn renamed_type(t: Seq<char>, state_group: bool) -> Option<Seq<char>> {
    if t == "FRAME"@ && state_group {
        Some("COMPONENT_SET"@)
    } else if t == "SYMBOL"@ {
        Some("COMPONENT"@)
    } else if t == "ROUNDED_RECTANGLE"@ {
        Some("RECTANGLE"@)
    } else {
        None
    }
}

/// The edit of one object: a string `type` gets its REST API name.
pub open spec fn node_types_local_spec(es: Entries) -> Entries {
    let state_group = bool_or(obool(entries_get(es, "isStateGroup"@)), false);
    match entries_get(es, "type"@) {
        Some(JsonV::Str(t)) => match renamed_type(t, state_group) {
            Some(n) => entries_insert(es, "type"@, JsonV::Str(n)),
            None => es,
        },
        _ => es,
    }
}

pub proof fn lemma_node_types_local_decreases(es: Entries)
    ensures
        forall|i: int|
            0 <= i < node_types_local_spec(es).len() ==> below(
                Pass::NodeTypes,
                #[trigger] node_types_local_spec(es)[i].1,
                JsonV::Object(es),
            ),
{
    let h = height(JsonV::Object(es));
    lemma_object_values_below(es);
    lemma_insert_values_below(es, "type"@, JsonV::Str("COMPONENT_SET"@), h);
    lemma_insert_values_below(es, "type"@, JsonV::Str("COMPONENT"@), h);
    lemma_insert_values_below(es, "type"@, JsonV::Str("RECTANGLE"@), h);
}

fn new_type_name(t: &str, state_group: bool) -> (r: Option<&'static str>)
    ensures
        match r {
            Some(n) => renamed_type(t@, state_group) == Some(n@),
            None => renamed_type(t@, state_group) is None,
        },
{
    if state_group && str_eq(t, "FRAME") {
        Some("COMPONENT_SET")
    } else if str_eq(t, "SYMBOL") {
        Some("COMPONENT")
    } else if str_eq(t, "ROUNDED_RECTANGLE") {
        Some("RECTANGLE")
    } else {
        None
    }
}

pub fn node_types_local(es: &mut Vec<(String, Json)>)
    ensures
        entries_view(final(es)@) == node_types_local_spec(entries_view(old(es)@)),
{
    let state_group = match entries_find(es, "isStateGroup") {
        Some(v) => match v.as_bool() {
            Some(b) => b,
            None => false,
        },
        None => false,
    };
    let renamed = match entries_find(es, "type") {
        Some(Json::String(t)) => new_type_name(t.as_str(), state_group),
        _ => None,
    };
    if let Some(n) = renamed {
        entries_put(es, owned("type"), Json::String(owned(n)));
    }
}

/// The document with every node type name aligned.
pub open spec fn with_aligned_types(v: JsonV) -> JsonV {
    transformed(v, Pass::NodeTypes)
}

/// Align node types with Figma REST API naming conventions
pub fn align_node_types(tree: &mut Json) -> (r: Result<(), FigError>)
    ensures
        r is Ok,
        final(tree)@ == with_aligned_types(old(tree)@),
{
    transform_in_place(tree, Pass::NodeTypes);
    Ok(())
}

/// Entries whose `type`, where it is a string, already has its REST API name.
pub open spec fn type_aligned(es: Entries) -> bool {
    match entries_get(es, "type"@) {
        Some(JsonV::Str(t)) => renamed_type(t, bool_or(obool(entries_get(es, "isStateGroup"@)), false)) is None,
        _ => true,
    }
}

pub open spec fn types_aligned() -> spec_fn(Entries) -> bool {
    |es: Entries| type_aligned(es)
}

proof fn lemma_types_local_facts()
    ensures
        kept_by(types_aligned(), Pass::NodeTypes),
        forall|es: Entries| #[trigger] types_aligned()(local_spec(Pass::NodeTypes, es)),
        forall|es: Entries| types_aligned()(es) ==> #[trigger] local_spec(Pass::NodeTypes, es) == es,
{
    let p = Pass::NodeTypes;
    assert forall|es: Entries| #[trigger] types_aligned()(es) implies types_aligned()(walked(es, p)) by {
        lemma_get_walked(es, p, "type"@);
        lemma_get_walked(es, p, "isStateGroup"@);
        if let Some(x) = entries_get(es, "type"@) {
            lemma_transformed_shape(x, p);
        }
        if let Some(x) = entries_get(es, "isStateGroup"@) {
            lemma_transformed_shape(x, p);
        }
    }
    reveal_strlit("type");
    reveal_strlit("isStateGroup");
    reveal_strlit("FRAME");
    reveal_strlit("SYMBOL");
    reveal_strlit("ROUNDED_RECTANGLE");
    reveal_strlit("COMPONENT_SET");
    reveal_strlit("COMPONENT");
    reveal_strlit("RECTANGLE");
    assert("type"@.len() != "isStateGroup"@.len());
    assert forall|es: Entries| #[trigger] types_aligned()(local_spec(p, es)) by {
        let sg = bool_or(obool(entries_get(es, "isStateGroup"@)), false);
        if let Some(JsonV::Str(t)) = entries_get(es, "type"@) {
            if let Some(n) = renamed_type(t, sg) {
                lemma_insert_get(es, "type"@, JsonV::Str(n), "type"@);
                lemma_insert_get(es, "type"@, JsonV::Str(n), "isStateGroup"@);
                assert(n.len() == 13 || n.len() == 9);
            }
        }
    }
}

/// No object of the result, at any depth, has a `type` string that the REST
/// API names otherwise: no `SYMBOL`, no `ROUNDED_RECTANGLE`, and no `FRAME`
/// that is a state group.
pub proof fn lemma_node_types_aligned(v: JsonV)
    ensures
        everywhere(with_aligned_types(v), types_aligned()),
{
    lemma_types_local_facts();
    lemma_transformed_everywhere(v, Pass::NodeTypes, types_aligned());
}

/// Aligning a second time changes nothing.
pub proof fn lemma_type_alignment_idempotent(v: JsonV)
    ensures
        with_aligned_types(with_aligned_types(v)) == with_aligned_types(v),
{
    lemma_types_local_facts();
    lemma_transformed_idempotent(v, Pass::NodeTypes, types_aligned());
}

} // verus!

verus! {

/// The name a node of string type `t` has after the pass, by the REST API's
/// naming: `SYMBOL` is `COMPONENT`, `ROUNDED_RECTANGLE` is `RECTANGLE`, a
/// `FRAME` whose `isStateGroup` is `true` is `COMPONENT_SET`, and every
/// other name stays as it is.
pub open spec fn rest_api_type(t: Seq<char>, is_state_group: Option<JsonV>) -> Seq<char> {
    if t == "SYMBOL"@ {
        "COMPONENT"@
    } else if t == "ROUNDED_RECTANGLE"@ {
        "RECTANGLE"@
    } else if t == "FRAME"@ && is_state_group == Some(JsonV::Bool(true)) {
        "COMPONENT_SET"@
    } else {
        t
    }
}

/// An object whose `type` is a string comes out of the pass with that type
/// renamed as the REST API names it, and with any other string type left as
/// it is; the pass then leaves the object's own members untouched.
pub proof fn lemma_type_names(es: Entries, t: Seq<char>)
    requires
        entries_get(es, "type"@) == Some(JsonV::Str(t)),
    ensures
        jget(with_aligned_types(JsonV::Object(es)), "type"@) == Some(
            JsonV::Str(rest_api_type(t, entries_get(es, "isStateGroup"@))),
        ),
        rest_api_type(t, entries_get(es, "isStateGroup"@)) == t ==> local_spec(Pass::NodeTypes, es) == es,
{
    let p = Pass::NodeTypes;
    let es1 = local_spec(p, es);
    reveal_strlit("SYMBOL");
    reveal_strlit("ROUNDED_RECTANGLE");
    reveal_strlit("FRAME");
    reveal_strlit("COMPONENT");
    reveal_strlit("RECTANGLE");
    reveal_strlit("COMPONENT_SET");
    assert("SYMBOL"@.len() == 6 && "FRAME"@.len() == 5 && "ROUNDED_RECTANGLE"@.len() == 17);
    assert("COMPONENT"@.len() == 9 && "RECTANGLE"@.len() == 9 && "COMPONENT_SET"@.len() == 13);
    assert("COMPONENT"@[0] != "RECTANGLE"@[0]);
    crate::schema::transformations::traversal::lemma_transformed_object(es, p);
    lemma_get_walked(es1, p, "type"@);
    let sg = bool_or(obool(entries_get(es, "isStateGroup"@)), false);
    assert(sg <==> entries_get(es, "isStateGroup"@) == Some(JsonV::Bool(true)));
    if let Some(n) = renamed_type(t, sg) {
        lemma_insert_get(es, "type"@, JsonV::Str(n), "type"@);
    }
    lemma_transformed_shape(entries_get(es1, "type"@)->0, p);
}

/// An object whose `type` is no string keeps its members under the pass.
pub proof fn lemma_other_types_kept(es: Entries)
    requires
        !(entries_get(es, "type"@) matches Some(JsonV::Str(_))),
    ensures
        local_spec(Pass::NodeTypes, es) == es,
{
}

} // verus!
