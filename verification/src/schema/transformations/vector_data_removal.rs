//! Removal of the `vectorData` member at every depth.
use vstd::prelude::*;
use crate::error::FigError;
use crate::json::{
    entries_remove, entries_take, entries_view, lemma_has_remove, lemma_object_values_below,
    lemma_remove_absent, lemma_remove_values_below, Entries, Json, JsonV,
};
use crate::schema::transformations::traversal::{
    below, everywhere, lacks_all, lemma_key_stable_kept, lemma_lacks_all_stable,
    lemma_transformed_everywhere, lemma_transformed_idempotent, local_spec, transform_in_place,
    transformed, Pass,
};

verus! {

/// The edit of one object: its `vectorData` member is dropped.
pub open spec fn vector_data_local_spec(es: Entries) -> Entries {
    entries_remove(es, "vectorData"@)
}

pub proof fn lemma_vector_data_local_decreases(es: Entries)
    ensures
        forall|i: int|
            0 <= i < vector_data_local_spec(es).len() ==> below(
                Pass::VectorData,
                #[trigger] vector_data_local_spec(es)[i].1,
                JsonV::Object(es),
            ),
{
    lemma_object_values_below(es);
    lemma_remove_values_below(es, "vectorData"@, crate::json::height(JsonV::Object(es)));
}

pub fn vector_data_local(es: &mut Vec<(String, Json)>)
    ensures
        entries_view(final(es)@) == vector_data_local_spec(entries_view(old(es)@)),
{
    let _ = entries_take(es, "vectorData");
}

/// The document with every `vectorData` member of every object dropped.
pub open spec fn without_vector_data(v: JsonV) -> JsonV {
    transformed(v, Pass::VectorData)
}

/// Remove vectorData fields from all objects in the JSON tree
pub fn remove_vector_data(tree: &mut Json) -> (r: Result<(), FigError>)
    ensures
        r is Ok,
        final(tree)@ == without_vector_data(old(tree)@),
{
    transform_in_place(tree, Pass::VectorData);
    Ok(())
}

/// The keys that the removal leaves nowhere.
pub open spec fn vector_data_keys() -> Seq<Seq<char>> {
    seq!["vectorData"@]
}

proof fn lemma_vector_data_local_facts()
    ensures
        crate::schema::transformations::traversal::kept_by(lacks_all(vector_data_keys()), Pass::VectorData),
        forall|es: Entries| #[trigger] lacks_all(vector_data_keys())(local_spec(Pass::VectorData, es)),
        forall|es: Entries|
            lacks_all(vector_data_keys())(es) ==> #[trigger] local_spec(Pass::VectorData, es) == es,
{
    let ks = vector_data_keys();
    lemma_lacks_all_stable(ks);
    lemma_key_stable_kept(lacks_all(ks), Pass::VectorData);
    assert forall|es: Entries| #[trigger] lacks_all(ks)(local_spec(Pass::VectorData, es)) by {
        lemma_has_remove(es, "vectorData"@, "vectorData"@);
    }
    assert forall|es: Entries| lacks_all(ks)(es) implies #[trigger] local_spec(Pass::VectorData, es)
        == es by {
        assert(!crate::json::entries_has(es, ks[0]));
        lemma_remove_absent(es, "vectorData"@);
    }
}

/// No object of the result, at any depth, has a `vectorData` member.
pub proof fn lemma_no_vector_data_left(v: JsonV)
    ensures
        everywhere(without_vector_data(v), lacks_all(vector_data_keys())),
{
    lemma_vector_data_local_facts();
    lemma_transformed_everywhere(v, Pass::VectorData, lacks_all(vector_data_keys()));
}

/// Removing the members a second time changes nothing.
pub proof fn lemma_vector_data_removal_idempotent(v: JsonV)
    ensures
        without_vector_data(without_vector_data(v)) == without_vector_data(v),
{
    lemma_vector_data_local_facts();
    lemma_transformed_idempotent(v, Pass::VectorData, lacks_all(vector_data_keys()));
}

} // verus!
