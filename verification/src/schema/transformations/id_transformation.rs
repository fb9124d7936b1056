//! Replacement of GUID objects by their `"session:local"` text.
use vstd::prelude::*;
use crate::error::FigError;
use crate::json::{
    entries_contains, entries_get, entries_has, entries_insert, entries_put, entries_remove,
    entries_take, entries_view, height, lemma_entries_view_push, lemma_get_below,
    lemma_insert_get, lemma_insert_values_below, lemma_object_values_below, lemma_remove_absent,
    lemma_remove_other,
    lemma_remove_values_below, ou64, reversed, values_below, Entries, Json, JsonV,
};
use crate::schema::transformations::traversal::{
    below, everywhere, kept_by, lemma_get_walked, lemma_transformed_everywhere,
    lemma_transformed_object, lemma_transformed_shape, local_spec, transform_in_place,
    transformed, walked, Pass,
};
use crate::text::{guid_string, guid_text, owned, str_eq};

verus! {

/// The text of a GUID object: an object whose `sessionID` and `localID` are
/// unsigned integers.
pub open spec fn id_text(v: JsonV) -> Option<Seq<char>> {
    match v {
        JsonV::Object(o) => match (ou64(entries_get(o, "sessionID"@)), ou64(entries_get(o, "localID"@))) {
            (Some(s), Some(l)) => Some(guid_text(s, l)),
            _ => None,
        },
        _ => None,
    }
}

/// The `guid` member becomes the `id` text, unless the object has an `id`
/// already (then `guid` is dropped) or `guid` is no GUID (then it stays).
pub open spec fn guid_step(es: Entries) -> Entries {
    match entries_get(es, "guid"@) {
        Some(g) => {
            let r = entries_remove(es, "guid"@);
            if entries_has(r, "id"@) {
                r
            } else {
                match id_text(g) {
                    Some(s) => entries_insert(r, "id"@, JsonV::Str(s)),
                    None => entries_insert(r, "guid"@, g),
                }
            }
        },
        None => es,
    }
}

/// One entry after the replacement: every member but `id` that is a GUID
/// object becomes its text.
pub open spec fn id_entry(e: (Seq<char>, JsonV)) -> (Seq<char>, JsonV) {
    if e.0 == "id"@ {
        e
    } else {
        match id_text(e.1) {
            Some(s) => (e.0, JsonV::Str(s)),
            None => e,
        }
    }
}

/// The edit of one object.
pub open spec fn ids_local_spec(es: Entries) -> Entries {
    let es1 = guid_step(es);
    Seq::new(es1.len(), |i: int| id_entry(es1[i]))
}

pub proof fn lemma_ids_local_decreases(es: Entries)
    ensures
        forall|i: int|
            0 <= i < ids_local_spec(es).len() ==> below(
                Pass::GuidsToIds,
                #[trigger] ids_local_spec(es)[i].1,
                JsonV::Object(es),
            ),
{
    let h = height(JsonV::Object(es));
    lemma_object_values_below(es);
    if let Some(g) = entries_get(es, "guid"@) {
        lemma_get_below(es, "guid"@);
        let r = entries_remove(es, "guid"@);
        lemma_remove_values_below(es, "guid"@, h);
        lemma_insert_values_below(r, "guid"@, g, h);
        if let Some(s) = id_text(g) {
            lemma_insert_values_below(r, "id"@, JsonV::Str(s), h);
        }
    }
    let es1 = guid_step(es);
    assert(values_below(es1, h));
    assert forall|i: int| 0 <= i < ids_local_spec(es).len() implies below(
        Pass::GuidsToIds,
        #[trigger] ids_local_spec(es)[i].1,
        JsonV::Object(es),
    ) by {
        assert(height(es1[i].1) < h);
    }
}

/// The text of a GUID object.
pub fn format_id_string(value: &Json) -> (r: Option<String>)
    ensures
        match r {
            Some(s) => id_text(value@) == Some(s@),
            None => id_text(value@) is None,
        },
{
    match value {
        Json::Object(obj) => {
            let session = match crate::json::entries_find(obj, "sessionID") {
                Some(v) => match v.as_u64() {
                    Some(u) => u,
                    None => return None,
                },
                None => return None,
            };
            let local = match crate::json::entries_find(obj, "localID") {
                Some(v) => match v.as_u64() {
                    Some(u) => u,
                    None => return None,
                },
                None => return None,
            };
            Some(guid_string(session, local))
        },
        _ => None,
    }
}

fn guid_to_id(es: &mut Vec<(String, Json)>)
    ensures
        entries_view(final(es)@) == guid_step(entries_view(old(es)@)),
{
    let ghost before = entries_view(es@);
    if let Some(guid_val) = entries_take(es, "guid") {
        if !entries_contains(es, "id") {
            match format_id_string(&guid_val) {
                Some(id_str) => entries_put(es, owned("id"), Json::String(id_str)),
                None => entries_put(es, owned("guid"), guid_val),
            }
        }
    } else {
        proof {
            lemma_remove_absent(before, "guid"@);
        }
    }
}

pub fn ids_local(es: &mut Vec<(String, Json)>)
    ensures
        entries_view(final(es)@) == ids_local_spec(entries_view(old(es)@)),
{
    guid_to_id(es);
    let ghost es1 = entries_view(es@);
    let mut taken: Vec<(String, Json)> = Vec::new();
    std::mem::swap(es, &mut taken);
    let n = taken.len();
    let mut rev = reversed(taken);
    let mut out: Vec<(String, Json)> = Vec::new();
    while rev.len() > 0
        invariant
            out@.len() + rev@.len() == n,
            n == es1.len(),
            forall|j: int| 0 <= j < rev@.len() ==> #[trigger] entries_view(rev@)[j] == es1[n - 1 - j],
            forall|j: int| 0 <= j < out@.len() ==> #[trigger] entries_view(out@)[j] == id_entry(es1[j]),
        decreases rev@.len(),
    {
        let ghost i = out@.len() as int;
        let ghost old_rev = rev@;
        assert(entries_view(old_rev)[old_rev.len() - 1] == es1[i]);
        let (key, val) = rev.pop().unwrap();
        let entry = if str_eq(key.as_str(), "id") {
            (key, val)
        } else {
            match format_id_string(&val) {
                Some(id_str) => (key, Json::String(id_str)),
                None => (key, val),
            }
        };
        proof {
            lemma_entries_view_push(out@, entry);
        }
        out.push(entry);
        assert forall|j: int| 0 <= j < rev@.len() implies #[trigger] entries_view(rev@)[j] == es1[n - 1 - j] by {
            assert(rev@[j] == old_rev[j]);
            assert(entries_view(old_rev)[j] == es1[n - 1 - j]);
        }
    }
    proof {
        assert(entries_view(out@) =~= ids_local_spec(entries_view(old(es)@)));
    }
    *es = out;
}

/// The document with GUIDs replaced by their text.
pub open spec fn with_ids(v: JsonV) -> JsonV {
    transformed(v, Pass::GuidsToIds)
}

/// Transform guid objects to id strings
pub fn transform_guids_to_ids(tree: &mut Json) -> (r: Result<(), FigError>)
    ensures
        r is Ok,
        final(tree)@ == with_ids(old(tree)@),
{
    transform_in_place(tree, Pass::GuidsToIds);
    Ok(())
}

/// Entries in which no member but `id` holds a GUID object.
pub open spec fn no_guid_objects(es: Entries) -> bool {
    forall|i: int| 0 <= i < es.len() && es[i].0 != "id"@ ==> (#[trigger] id_text(es[i].1)) is None
}

pub open spec fn guids_as_text() -> spec_fn(Entries) -> bool {
    |es: Entries| no_guid_objects(es)
}

proof fn lemma_get_id_entries(es: Entries, k: Seq<char>)
    requires
        k != "id"@,
    ensures
        entries_get(Seq::new(es.len(), |i: int| id_entry(es[i])), k) == match entries_get(es, k) {
            Some(y) => Some(id_entry((k, y)).1),
            None => None,
        },
    decreases es.len(),
{
    let m = Seq::new(es.len(), |i: int| id_entry(es[i]));
    if es.len() > 0 {
        let t = es.drop_first();
        assert(m.drop_first() =~= Seq::new(t.len(), |i: int| id_entry(t[i])));
        lemma_get_id_entries(t, k);
        assert(m[0] == id_entry(es[0]));
    }
}

/// The GUID members of an object survive the edit of the object unchanged.
proof fn lemma_guid_step_keeps(es: Entries, k: Seq<char>)
    requires
        k != "id"@,
        k != "guid"@,
    ensures
        entries_get(guid_step(es), k) == entries_get(es, k),
{
    if let Some(g) = entries_get(es, "guid"@) {
        let r = entries_remove(es, "guid"@);
        lemma_remove_other(es, "guid"@, k);
        lemma_insert_get(r, "id"@, JsonV::Str(Seq::empty()), k);
        lemma_insert_get(r, "guid"@, g, k);
        if let Some(s) = id_text(g) {
            lemma_insert_get(r, "id"@, JsonV::Str(s), k);
        }
    }
}

/// A member that the pass leaves an unsigned integer was that integer before.
proof fn lemma_u64_member_walked(es: Entries, k: Seq<char>)
    requires
        k != "id"@,
        k != "guid"@,
    ensures
        ou64(entries_get(walked(ids_local_spec(es), Pass::GuidsToIds), k)) is Some ==> ou64(
            entries_get(walked(ids_local_spec(es), Pass::GuidsToIds), k),
        ) == ou64(entries_get(es, k)),
{
    let p = Pass::GuidsToIds;
    let es1 = guid_step(es);
    let l = ids_local_spec(es);
    lemma_get_walked(l, p, k);
    lemma_get_id_entries(es1, k);
    lemma_guid_step_keeps(es, k);
    if let Some(y) = entries_get(es1, k) {
        let z = id_entry((k, y)).1;
        lemma_transformed_shape(z, p);
    }
}

/// What the pass makes of a value is a GUID object only where the value was one.
proof fn lemma_id_text_walked(x: JsonV)
    ensures
        id_text(transformed(x, Pass::GuidsToIds)) is Some ==> id_text(x) is Some,
{
    let p = Pass::GuidsToIds;
    lemma_transformed_shape(x, p);
    if let JsonV::Object(xes) = x {
        lemma_transformed_object(xes, p);
        reveal_strlit("sessionID");
        reveal_strlit("localID");
        reveal_strlit("id");
        reveal_strlit("guid");
        assert("sessionID"@.len() == 9 && "localID"@.len() == 7);
        assert("id"@.len() == 2 && "guid"@.len() == 4);
        lemma_u64_member_walked(xes, "sessionID"@);
        lemma_u64_member_walked(xes, "localID"@);
    }
}

proof fn lemma_ids_local_facts()
    ensures
        kept_by(guids_as_text(), Pass::GuidsToIds),
        forall|es: Entries| #[trigger] guids_as_text()(local_spec(Pass::GuidsToIds, es)),
{
    let p = Pass::GuidsToIds;
    assert forall|es: Entries| #[trigger] guids_as_text()(es) implies guids_as_text()(walked(es, p)) by {
        let w = walked(es, p);
        assert forall|i: int| 0 <= i < w.len() && w[i].0 != "id"@ implies (#[trigger] id_text(
            w[i].1,
        )) is None by {
            lemma_id_text_walked(es[i].1);
        }
    }
    assert forall|es: Entries| #[trigger] guids_as_text()(local_spec(p, es)) by {
        let l = ids_local_spec(es);
        assert forall|i: int| 0 <= i < l.len() && l[i].0 != "id"@ implies (#[trigger] id_text(
            l[i].1,
        )) is None by {
            let e = guid_step(es)[i];
            if let Some(t) = id_text(e.1) {
                assert(l[i].1 == JsonV::Str(t));
            }
        }
    }
}

/// No member of any object of the result, but `id`, holds a GUID object:
/// each has become its `"session:local"` text.
pub proof fn lemma_no_guid_objects_left(v: JsonV)
    ensures
        everywhere(with_ids(v), guids_as_text()),
{
    lemma_ids_local_facts();
    lemma_transformed_everywhere(v, Pass::GuidsToIds, guids_as_text());
}

/// An object that has a string `id` keeps it: the pass never replaces an
/// id, such as one given to a node of an expanded instance.
pub proof fn lemma_existing_id_kept(es: Entries)
    ensures
        entries_get(es, "id"@) matches Some(JsonV::Str(t)) ==> crate::json::jget(
            with_ids(JsonV::Object(es)),
            "id"@,
        ) == Some(JsonV::Str(t)),
{
    let p = Pass::GuidsToIds;
    if let Some(JsonV::Str(t)) = entries_get(es, "id"@) {
        reveal_strlit("id");
        reveal_strlit("guid");
        assert("id"@.len() != "guid"@.len());
        let es1 = guid_step(es);
        if let Some(g) = entries_get(es, "guid"@) {
            let r = entries_remove(es, "guid"@);
            lemma_remove_other(es, "guid"@, "id"@);
            assert(entries_has(r, "id"@));
            assert(es1 == r);
        }
        assert(entries_get(es1, "id"@) == entries_get(es, "id"@));
        let l = ids_local_spec(es);
        lemma_get_id_entries_on_id(es1);
        lemma_transformed_object(es, p);
        lemma_get_walked(l, p, "id"@);
        lemma_transformed_shape(JsonV::Str(t), p);
    }
}

proof fn lemma_get_id_entries_on_id(es: Entries)
    ensures
        entries_get(Seq::new(es.len(), |i: int| id_entry(es[i])), "id"@) == entries_get(es, "id"@),
    decreases es.len(),
{
    let m = Seq::new(es.len(), |i: int| id_entry(es[i]));
    if es.len() > 0 {
        let t = es.drop_first();
        assert(m.drop_first() =~= Seq::new(t.len(), |i: int| id_entry(t[i])));
        lemma_get_id_entries_on_id(t);
        assert(m[0] == id_entry(es[0]));
    }
}

} // verus!
