//! Conversion of internal variable references to the REST API's bound variables.
use vstd::prelude::*;
use crate::error::FigError;
use crate::json::{
    entries_get, entries_has, entries_insert, entries_put, entries_remove, entries_take, entries_view,
    lemma_has_insert, lemma_has_remove,
    height, lemma_get_below, lemma_insert_values_below, lemma_object_values_below,
    lemma_remove_absent, lemma_remove_values_below, Entries, Json, JsonV,
};
use crate::schema::transformations::alias::{
    convert_to_official_alias, lemma_official_alias_height, official_alias,
};
use crate::schema::transformations::traversal::{
    below, everywhere, kept_by, lacks_all, lemma_key_stable_kept, lemma_lacks_all_stable,
    lemma_transformed_everywhere, lemma_transformed_idempotent, local_spec, transform_in_place,
    transformed, Pass,
};
use crate::text::owned;

verus! {

/// `{"color": alias}`.
pub open spec fn color_binding(alias: JsonV) -> JsonV {
    JsonV::Object(seq![("color"@, alias)])
}

pub proof fn lemma_color_binding_height(alias: JsonV)
    ensures
        height(color_binding(alias)) == 1 + height(alias),
{
    let es = seq![("color"@, alias)];
    assert(es.drop_last() =~= Seq::<(Seq<char>, JsonV)>::empty());
    assert(crate::json::entries_height(es.drop_last()) == 0);
}

/// The edit of one object: `colorVar` is dropped, and where it was an alias,
/// `boundVariables` becomes `{"color": <the REST API alias>}`.
pub open spec fn color_var_local_spec(es: Entries) -> Entries {
    match entries_get(es, "colorVar"@) {
        Some(cv) => {
            let es1 = entries_remove(es, "colorVar"@);
            match official_alias(cv) {
                Some(a) => entries_insert(es1, "boundVariables"@, color_binding(a)),
                None => es1,
            }
        },
        None => es,
    }
}

pub proof fn lemma_color_var_local_values_below(es: Entries, h: nat)
    requires
        crate::json::values_below(es, h),
        h >= 4 || official_alias(entries_get(es, "colorVar"@)->0) is None || entries_get(es, "colorVar"@) is None,
        entries_get(es, "colorVar"@) is Some ==> height(entries_get(es, "colorVar"@)->0) < h,
    ensures
        crate::json::values_below(color_var_local_spec(es), h),
{
    if let Some(cv) = entries_get(es, "colorVar"@) {
        lemma_remove_values_below(es, "colorVar"@, h);
        if let Some(a) = official_alias(cv) {
            lemma_official_alias_height(cv);
            lemma_color_binding_height(a);
            lemma_insert_values_below(entries_remove(es, "colorVar"@), "boundVariables"@, color_binding(a), h);
        }
    }
}

pub proof fn lemma_variables_local_decreases(es: Entries)
    ensures
        forall|i: int|
            0 <= i < color_var_local_spec(es).len() ==> below(
                Pass::Variables,
                #[trigger] color_var_local_spec(es)[i].1,
                JsonV::Object(es),
            ),
{
    let h = height(JsonV::Object(es));
    lemma_object_values_below(es);
    if let Some(cv) = entries_get(es, "colorVar"@) {
        lemma_get_below(es, "colorVar"@);
        if official_alias(cv) is Some {
            lemma_official_alias_height(cv);
        }
    }
    lemma_color_var_local_values_below(es, h);
}

/// Drops `colorVar`, binding `boundVariables` to its REST API alias.
pub fn color_var_local(es: &mut Vec<(String, Json)>)
    ensures
        entries_view(final(es)@) == color_var_local_spec(entries_view(old(es)@)),
{
    let ghost before = entries_view(es@);
    if let Some(color_var) = entries_take(es, "colorVar") {
        if let Some(official_var) = convert_to_official_alias(&color_var) {
            let mut bound_vars: Vec<(String, Json)> = Vec::new();
            bound_vars.push((owned("color"), official_var));
            proof {
                assert(entries_view(bound_vars@) =~= color_binding(official_var@)->Object_0);
            }
            entries_put(es, owned("boundVariables"), Json::Object(bound_vars));
        }
    } else {
        proof {
            lemma_remove_absent(before, "colorVar"@);
        }
    }
}

/// The document with every `colorVar` converted.
pub open spec fn with_transformed_variables(v: JsonV) -> JsonV {
    transformed(v, Pass::Variables)
}

/// Transform internal Figma variable structures to official Figma REST API format
pub fn transform_variables(tree: &mut Json) -> (r: Result<(), FigError>)
    ensures
        r is Ok,
        final(tree)@ == with_transformed_variables(old(tree)@),
{
    transform_in_place(tree, Pass::Variables);
    Ok(())
}

/// The keys that the conversion leaves nowhere.
pub open spec fn color_var_keys() -> Seq<Seq<char>> {
    seq!["colorVar"@]
}

proof fn lemma_variables_local_facts()
    ensures
        kept_by(lacks_all(color_var_keys()), Pass::Variables),
        forall|es: Entries| #[trigger] lacks_all(color_var_keys())(local_spec(Pass::Variables, es)),
        forall|es: Entries|
            lacks_all(color_var_keys())(es) ==> #[trigger] local_spec(Pass::Variables, es) == es,
{
    let ks = color_var_keys();
    lemma_lacks_all_stable(ks);
    lemma_key_stable_kept(lacks_all(ks), Pass::Variables);
    assert forall|es: Entries| #[trigger] lacks_all(ks)(local_spec(Pass::Variables, es)) by {
        if let Some(cv) = entries_get(es, "colorVar"@) {
            let es1 = entries_remove(es, "colorVar"@);
            lemma_has_remove(es, "colorVar"@, "colorVar"@);
            if let Some(a) = official_alias(cv) {
                lemma_has_insert(es1, "boundVariables"@, color_binding(a), "colorVar"@);
                reveal_strlit("colorVar");
                reveal_strlit("boundVariables");
                assert("colorVar"@.len() != "boundVariables"@.len());
            }
        }
        assert(!entries_has(local_spec(Pass::Variables, es), ks[0]));
    }
    assert forall|es: Entries| lacks_all(ks)(es) implies #[trigger] local_spec(Pass::Variables, es)
        == es by {
        assert(!entries_has(es, ks[0]));
    }
}

/// No object of the result, at any depth, has a `colorVar` member.
pub proof fn lemma_no_color_var_left(v: JsonV)
    ensures
        everywhere(with_transformed_variables(v), lacks_all(color_var_keys())),
{
    lemma_variables_local_facts();
    lemma_transformed_everywhere(v, Pass::Variables, lacks_all(color_var_keys()));
}

/// Converting a second time changes nothing.
pub proof fn lemma_variables_transformation_idempotent(v: JsonV)
    ensures
        with_transformed_variables(with_transformed_variables(v)) == with_transformed_variables(v),
{
    lemma_variables_local_facts();
    lemma_transformed_idempotent(v, Pass::Variables, lacks_all(color_var_keys()));
}

} // verus!
