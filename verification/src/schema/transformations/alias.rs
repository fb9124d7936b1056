//! Conversion of an internal variable reference to the REST API's
//! `VARIABLE_ALIAS` object.
use vstd::prelude::*;
use crate::json::{
    entries_find, entries_get, height, jget, lemma_jget_below, ostr, ou64, u64_or, Json, JsonV,
};
use crate::text::{concat, guid_string, guid_text, owned, str_eq};

verus! {

/// `s` begins with `p`.
pub open spec fn starts_with(s: Seq<char>, p: Seq<char>) -> bool {
    p.len() <= s.len() && s.subrange(0, p.len() as int) == p
}

/// The `dataType` member names an alias, either as a string or under `value`.
pub open spec fn is_alias_type(o: Option<JsonV>) -> bool {
    match o {
        Some(JsonV::Str(s)) => s == "ALIAS"@,
        Some(x) => ostr(jget(x, "value"@)) == Some("ALIAS"@),
        None => false,
    }
}

/// The REST API id of the variable an alias names: its `id` string, prefixed
/// with `VariableID:` where it lacks it, or else the text of its `guid`.
pub open spec fn alias_id(alias: JsonV) -> Option<Seq<char>> {
    match ostr(jget(alias, "id"@)) {
        Some(id) => Some(
            if starts_with(id, "VariableID:"@) {
                id
            } else {
                "VariableID:"@ + id
            },
        ),
        None => match jget(alias, "guid"@) {
            Some(g) => Some(
                "VariableID:"@ + guid_text(
                    u64_or(ou64(jget(g, "sessionID"@)), 0),
                    u64_or(ou64(jget(g, "localID"@)), 0),
                ),
            ),
            None => None,
        },
    }
}

/// `{"type": "VARIABLE_ALIAS", "id": id}`.
pub open spec fn alias_object(id: Seq<char>) -> JsonV {
    JsonV::Object(seq![("type"@, JsonV::Str("VARIABLE_ALIAS"@)), ("id"@, JsonV::Str(id))])
}

/// The REST API form of an internal variable value: defined where the value
/// is an object whose `dataType` is `ALIAS` and whose `value.alias` names a
/// variable.
pub open spec fn official_alias(v: JsonV) -> Option<JsonV> {
    match v {
        JsonV::Object(o) => if is_alias_type(entries_get(o, "dataType"@)) {
            match entries_get(o, "value"@) {
                Some(val) => match jget(val, "alias"@) {
                    Some(a) => match alias_id(a) {
                        Some(id) => Some(alias_object(id)),
                        None => None,
                    },
                    None => None,
                },
                None => None,
            }
        } else {
            None
        },
        _ => None,
    }
}

pub proof fn lemma_alias_object_height(id: Seq<char>)
    ensures
        height(alias_object(id)) == 1,
{
    let es = seq![("type"@, JsonV::Str("VARIABLE_ALIAS"@)), ("id"@, JsonV::Str(id))];
    assert(es.drop_last() =~= seq![("type"@, JsonV::Str("VARIABLE_ALIAS"@))]);
    assert(es.drop_last().drop_last() =~= Seq::<(Seq<char>, JsonV)>::empty());
    assert(crate::json::entries_height(es.drop_last().drop_last()) == 0);
    assert(es.drop_last().last() == ("type"@, JsonV::Str("VARIABLE_ALIAS"@)));
    assert(height(JsonV::Str("VARIABLE_ALIAS"@)) == 0);
    assert(height(JsonV::Str(id)) == 0);
    assert(es.last() == ("id"@, JsonV::Str(id)));
    assert(crate::json::entries_height(es.drop_last()) == 0);
    assert(crate::json::entries_height(es) == 0);
}

/// An alias is only found three levels down: `value`, then `alias`, then its
/// `id` or `guid`.
pub proof fn lemma_official_alias_height(v: JsonV)
    requires
        official_alias(v) is Some,
    ensures
        height(v) >= 3,
        height(official_alias(v)->0) == 1,
{
    let o = v->Object_0;
    let val = entries_get(o, "value"@)->0;
    let a = jget(val, "alias"@)->0;
    lemma_jget_below(v, "value"@);
    lemma_jget_below(val, "alias"@);
    if ostr(jget(a, "id"@)) is Some {
        lemma_jget_below(a, "id"@);
    } else {
        lemma_jget_below(a, "guid"@);
    }
    lemma_alias_object_height(alias_id(a)->0);
}

fn starts_with_variable_id(s: &str) -> (r: bool)
    ensures
        r == starts_with(s@, "VariableID:"@),
{
    let p = "VariableID:";
    proof {
        reveal_strlit("VariableID:");
    }
    let n = s.unicode_len();
    if n < 11 {
        return false;
    }
    let mut i: usize = 0;
    while i < 11
        invariant
            0 <= i <= 11,
            n == s@.len(),
            n >= 11,
            p@ == "VariableID:"@,
            p@.len() == 11,
            forall|j: int| 0 <= j < i ==> s@[j] == p@[j],
        decreases 11 - i,
    {
        if s.get_char(i) != p.get_char(i) {
            assert(s@.subrange(0, 11)[i as int] != p@[i as int]);
            return false;
        }
        i = i + 1;
    }
    assert(s@.subrange(0, 11) =~= p@);
    true
}

fn u64_member_or_zero(v: Option<&Json>, key: &str) -> (r: u64)
    ensures
        r == u64_or(ou64(crate::json::oget(crate::json::opt_view(v), key@)), 0),
{
    match v {
        Some(x) => match x.get(key) {
            Some(y) => match y.as_u64() {
                Some(u) => u,
                None => 0,
            },
            None => 0,
        },
        None => 0,
    }
}

fn alias_id_of(alias: &Json) -> (r: Option<String>)
    ensures
        match r {
            Some(s) => alias_id(alias@) == Some(s@),
            None => alias_id(alias@) is None,
        },
{
    proof {
        reveal_strlit("VariableID:");
    }
    match alias.get("id") {
        Some(Json::String(id)) => {
            if starts_with_variable_id(id.as_str()) {
                Some(id.clone())
            } else {
                Some(concat("VariableID:", id.as_str()))
            }
        },
        _ => match alias.get("guid") {
            Some(g) => {
                let s = u64_member_or_zero(Some(g), "sessionID");
                let l = u64_member_or_zero(Some(g), "localID");
                let t = guid_string(s, l);
                Some(concat("VariableID:", t.as_str()))
            },
            None => None,
        },
    }
}

fn alias_type_named(o: Option<&Json>) -> (r: bool)
    ensures
        r == is_alias_type(crate::json::opt_view(o)),
{
    match o {
        Some(Json::String(s)) => str_eq(s.as_str(), "ALIAS"),
        Some(x) => match x.get("value") {
            Some(Json::String(s)) => str_eq(s.as_str(), "ALIAS"),
            _ => false,
        },
        None => false,
    }
}

/// The `VARIABLE_ALIAS` object for an internal variable value.
pub fn convert_to_official_alias(internal_var: &Json) -> (r: Option<Json>)
    ensures
        crate::json::opt_owned_view(r) == official_alias(internal_var@),
{
    match internal_var {
        Json::Object(o) => {
            if alias_type_named(entries_find(o, "dataType")) {
                let val_obj = match entries_find(o, "value") {
                    Some(v) => v,
                    None => return None,
                };
                let alias_obj = match val_obj.get("alias") {
                    Some(a) => a,
                    None => return None,
                };
                let var_id = match alias_id_of(alias_obj) {
                    Some(id) => id,
                    None => return None,
                };
                let mut es: Vec<(String, Json)> = Vec::new();
                es.push((owned("type"), Json::String(owned("VARIABLE_ALIAS"))));
                es.push((owned("id"), Json::String(var_id)));
                let r = Json::Object(es);
                proof {
                    assert(crate::json::entries_view(es@) =~= (alias_object(var_id@))->Object_0);
                }
                Some(r)
            } else {
                None
            }
        },
        _ => None,
    }
}

} // verus!
