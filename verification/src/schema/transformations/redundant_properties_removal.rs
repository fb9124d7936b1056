//! Removal of small redundant or internal properties.
use vstd::prelude::*;
use crate::error::FigError;
use crate::json::{
    entries_find, entries_get, entries_has, entries_remove, entries_take, entries_view, height,
    lemma_has_remove, lemma_remove_absent,
    lemma_object_values_below, lemma_remove_values_below, Entries, Json, JsonV,
};
use crate::number::{is_zero, is_zero_number};
use crate::schema::transformations::traversal::{
    below, everywhere, kept_by, lemma_get_walked, lemma_same_keys_has_walked, lemma_transformed_everywhere,
    lemma_transformed_idempotent, lemma_transformed_shape, local_spec, transform_in_place,
    transformed, walked, Pass,
};

verus! {

/// A member that is an array of exactly two numbers equal to zero.
pub open spec fn is_zero_pair(o: Option<JsonV>) -> bool {
    match o {
        Some(JsonV::Array(a)) => a.len() == 2 && is_zero_number(a[0]) && is_zero_number(a[1]),
        _ => false,
    }
}

/// The edit of one object: `isPageDivider` is dropped, and so is a
/// `dashPattern` of two zeros.
pub open spec fn redundant_local_spec(es: Entries) -> Entries {
    let es1 = entries_remove(es, "isPageDivider"@);
    if is_zero_pair(entries_get(es1, "dashPattern"@)) {
        entries_remove(es1, "dashPattern"@)
    } else {
        es1
    }
}

pub proof fn lemma_redundant_local_decreases(es: Entries)
    ensures
        forall|i: int|
            0 <= i < redundant_local_spec(es).len() ==> below(
                Pass::RedundantProperties,
                #[trigger] redundant_local_spec(es)[i].1,
                JsonV::Object(es),
            ),
{
    let h = height(JsonV::Object(es));
    lemma_object_values_below(es);
    lemma_remove_values_below(es, "isPageDivider"@, h);
    lemma_remove_values_below(entries_remove(es, "isPageDivider"@), "dashPattern"@, h);
}

fn zero_pair(o: Option<&Json>) -> (r: bool)
    ensures
        r == is_zero_pair(crate::json::opt_view(o)),
{
    match o {
        Some(Json::Array(a)) => {
            if a.len() == 2 {
                proof {
                    assert(crate::json::items_view(a@)[0] == a@[0]@);
                    assert(crate::json::items_view(a@)[1] == a@[1]@);
                }
                is_zero(&a[0]) && is_zero(&a[1])
            } else {
                false
            }
        },
        _ => false,
    }
}

pub fn redundant_local(es: &mut Vec<(String, Json)>)
    ensures
        entries_view(final(es)@) == redundant_local_spec(entries_view(old(es)@)),
{
    let _ = entries_take(es, "isPageDivider");
    if zero_pair(entries_find(es, "dashPattern")) {
        let _ = entries_take(es, "dashPattern");
    }
}

/// The document without the redundant properties of any object.
pub open spec fn without_redundant_properties(v: JsonV) -> JsonV {
    transformed(v, Pass::RedundantProperties)
}

/// Remove small redundant or internal properties
pub fn remove_redundant_properties(tree: &mut Json) -> (r: Result<(), FigError>)
    ensures
        r is Ok,
        final(tree)@ == without_redundant_properties(old(tree)@),
{
    transform_in_place(tree, Pass::RedundantProperties);
    Ok(())
}

/// Entries with no `isPageDivider` and no `dashPattern` of two zeros.
pub open spec fn free_of_redundant(es: Entries) -> bool {
    !entries_has(es, "isPageDivider"@) && !is_zero_pair(entries_get(es, "dashPattern"@))
}

pub open spec fn redundant_free() -> spec_fn(Entries) -> bool {
    |es: Entries| free_of_redundant(es)
}

proof fn lemma_zero_pair_walked(o: Option<JsonV>)
    ensures
        is_zero_pair(
            match o {
                Some(x) => Some(transformed(x, Pass::RedundantProperties)),
                None => None,
            },
        ) == is_zero_pair(o),
{
    if let Some(x) = o {
        let p = Pass::RedundantProperties;
        lemma_transformed_shape(x, p);
        if let JsonV::Array(a) = x {
            if a.len() == 2 {
                lemma_transformed_shape(a[0], p);
                lemma_transformed_shape(a[1], p);
            }
        }
    }
}

proof fn lemma_redundant_local_facts()
    ensures
        kept_by(redundant_free(), Pass::RedundantProperties),
        forall|es: Entries| #[trigger] redundant_free()(local_spec(Pass::RedundantProperties, es)),
        forall|es: Entries|
            redundant_free()(es) ==> #[trigger] local_spec(Pass::RedundantProperties, es) == es,
{
    let p = Pass::RedundantProperties;
    assert forall|es: Entries| #[trigger] redundant_free()(es) implies redundant_free()(
        walked(es, p),
    ) by {
        lemma_same_keys_has_walked(es, p, "isPageDivider"@);
        lemma_get_walked(es, p, "dashPattern"@);
        lemma_zero_pair_walked(entries_get(es, "dashPattern"@));
    }
    assert forall|es: Entries| #[trigger] redundant_free()(local_spec(p, es)) by {
        let es1 = entries_remove(es, "isPageDivider"@);
        lemma_has_remove(es, "isPageDivider"@, "isPageDivider"@);
        if is_zero_pair(entries_get(es1, "dashPattern"@)) {
            lemma_has_remove(es1, "dashPattern"@, "isPageDivider"@);
            crate::json::lemma_remove_no_key(es1, "dashPattern"@);
        }
    }
    assert forall|es: Entries| redundant_free()(es) implies #[trigger] local_spec(p, es) == es by {
        lemma_remove_absent(es, "isPageDivider"@);
    }
}

/// No object of the result, at any depth, has an `isPageDivider` member or a
/// `dashPattern` of two zeros.
pub proof fn lemma_no_redundant_properties_left(v: JsonV)
    ensures
        everywhere(without_redundant_properties(v), redundant_free()),
{
    lemma_redundant_local_facts();
    lemma_transformed_everywhere(v, Pass::RedundantProperties, redundant_free());
}

/// Removing a second time changes nothing.
pub proof fn lemma_redundant_properties_removal_idempotent(v: JsonV)
    ensures
        without_redundant_properties(without_redundant_properties(v)) == without_redundant_properties(v),
{
    lemma_redundant_local_facts();
    lemma_transformed_idempotent(v, Pass::RedundantProperties, redundant_free());
}

} // verus!
