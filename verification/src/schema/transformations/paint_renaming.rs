//! Renaming of `fillPaints` to `fills` and `strokePaints` to `strokes`.
use vstd::prelude::*;
use crate::error::FigError;
use crate::json::{
    entries_has, entries_rename, entries_view, height, lemma_has_rename, lemma_object_values_below,
    lemma_rename_drops, lemma_rename_values_below, rename_key, Entries, Json, JsonV,
};
use crate::schema::transformations::traversal::{
    below, everywhere, kept_by, lacks_all, lemma_key_stable_kept, lemma_lacks_all_stable,
    lemma_transformed_everywhere, lemma_transformed_idempotent, local_spec, transform_in_place,
    transformed, Pass,
};

verus! {

/// The edit of one object: `fillPaints` moves to `fills` and `strokePaints`
/// to `strokes`, each replacing what was there.
pub open spec fn paints_local_spec(es: Entries) -> Entries {
    rename_key(rename_key(es, "fillPaints"@, "fills"@), "strokePaints"@, "strokes"@)
}

pub proof fn lemma_paints_local_decreases(es: Entries)
    ensures
        forall|i: int|
            0 <= i < paints_local_spec(es).len() ==> below(
                Pass::RenamePaints,
                #[trigger] paints_local_spec(es)[i].1,
                JsonV::Object(es),
            ),
{
    let h = height(JsonV::Object(es));
    lemma_object_values_below(es);
    lemma_rename_values_below(es, "fillPaints"@, "fills"@, h);
    lemma_rename_values_below(rename_key(es, "fillPaints"@, "fills"@), "strokePaints"@, "strokes"@, h);
}

pub fn paints_local(es: &mut Vec<(String, Json)>)
    ensures
        entries_view(final(es)@) == paints_local_spec(entries_view(old(es)@)),
{
    entries_rename(es, "fillPaints", "fills");
    entries_rename(es, "strokePaints", "strokes");
}

/// The document with paints renamed in every object.
pub open spec fn with_renamed_paints(v: JsonV) -> JsonV {
    transformed(v, Pass::RenamePaints)
}

/// Rename fillPaints to fills and strokePaints to strokes for Figma REST API compatibility
pub fn rename_paints(tree: &mut Json) -> (r: Result<(), FigError>)
    ensures
        r is Ok,
        final(tree)@ == with_renamed_paints(old(tree)@),
{
    transform_in_place(tree, Pass::RenamePaints);
    Ok(())
}

/// The keys that the renaming leaves nowhere.
pub open spec fn paint_keys() -> Seq<Seq<char>> {
    seq!["fillPaints"@, "strokePaints"@]
}

proof fn lemma_paints_local_facts()
    ensures
        kept_by(lacks_all(paint_keys()), Pass::RenamePaints),
        forall|es: Entries| #[trigger] lacks_all(paint_keys())(local_spec(Pass::RenamePaints, es)),
        forall|es: Entries|
            lacks_all(paint_keys())(es) ==> #[trigger] local_spec(Pass::RenamePaints, es) == es,
{
    let ks = paint_keys();
    lemma_lacks_all_stable(ks);
    lemma_key_stable_kept(lacks_all(ks), Pass::RenamePaints);
    reveal_strlit("fillPaints");
    reveal_strlit("fills");
    reveal_strlit("strokePaints");
    reveal_strlit("strokes");
    assert("fillPaints"@.len() != "fills"@.len());
    assert("strokePaints"@.len() != "strokes"@.len());
    assert("fillPaints"@.len() != "strokes"@.len());
    assert forall|es: Entries| #[trigger] lacks_all(ks)(local_spec(Pass::RenamePaints, es)) by {
        let es1 = rename_key(es, "fillPaints"@, "fills"@);
        lemma_rename_drops(es, "fillPaints"@, "fills"@);
        lemma_rename_drops(es1, "strokePaints"@, "strokes"@);
        lemma_has_rename(es1, "strokePaints"@, "strokes"@, "fillPaints"@);
        assert(!entries_has(local_spec(Pass::RenamePaints, es), ks[0]));
        assert(!entries_has(local_spec(Pass::RenamePaints, es), ks[1]));
    }
    assert forall|es: Entries| lacks_all(ks)(es) implies #[trigger] local_spec(
        Pass::RenamePaints,
        es,
    ) == es by {
        assert(!entries_has(es, ks[0]));
        assert(!entries_has(es, ks[1]));
    }
}

/// No object of the result, at any depth, has a `fillPaints` or a
/// `strokePaints` member.
pub proof fn lemma_no_internal_paints_left(v: JsonV)
    ensures
        everywhere(with_renamed_paints(v), lacks_all(paint_keys())),
{
    lemma_paints_local_facts();
    lemma_transformed_everywhere(v, Pass::RenamePaints, lacks_all(paint_keys()));
}

/// Renaming a second time changes nothing.
pub proof fn lemma_paint_renaming_idempotent(v: JsonV)
    ensures
        with_renamed_paints(with_renamed_paints(v)) == with_renamed_paints(v),
{
    lemma_paints_local_facts();
    lemma_transformed_idempotent(v, Pass::RenamePaints, lacks_all(paint_keys()));
}

} // verus!
