//! The components, styles and component sets of a document, by GUID text.
use vstd::prelude::*;
use crate::json::{
    entries_find, entries_get, entries_has, entries_insert, entries_put, entries_view, jget, obool, ostr, ou64, u64_or, Entries, Json, JsonV,
};
use crate::schema::transformations::type_alignment::bool_or;
use crate::text::{guid_string, guid_text, owned, str_eq};

verus! {

/// A member as the REST API shows it: its `value` where it has one.
pub open spec fn unwrapped(v: JsonV) -> JsonV {
    match jget(v, "value"@) {
        Some(i) => i,
        None => v,
    }
}

/// `m` with member `k` of `es`, unwrapped, where `es` has it.
pub open spec fn copy_member(m: Entries, es: Entries, k: Seq<char>) -> Entries {
    match entries_get(es, k) {
        Some(v) => entries_insert(m, k, unwrapped(v)),
        None => m,
    }
}

/// The metadata of a node: its `name`, `description`, `key`, `remote` and
/// `styleType`, unwrapped, with an empty `description` where it has none.
pub open spec fn metadata(node: JsonV) -> JsonV {
    match node {
        JsonV::Object(es) => {
            let m1 = copy_member(Seq::empty(), es, "name"@);
            let m2 = copy_member(m1, es, "description"@);
            let m3 = copy_member(m2, es, "key"@);
            let m4 = copy_member(m3, es, "remote"@);
            let m5 = copy_member(m4, es, "styleType"@);
            JsonV::Object(
                if entries_has(m5, "description"@) {
                    m5
                } else {
                    entries_insert(m5, "description"@, JsonV::Str(""@))
                },
            )
        },
        _ => JsonV::Object(Seq::empty()),
    }
}

fn copy_member_exec(m: &mut Vec<(String, Json)>, es: &Vec<(String, Json)>, k: &str)
    ensures
        entries_view(final(m)@) == copy_member(entries_view(old(m)@), entries_view(es@), k@),
{
    if let Some(val) = entries_find(es, k) {
        match val.get("value") {
            Some(inner) => entries_put(m, owned(k), inner.deep_clone()),
            None => entries_put(m, owned(k), val.deep_clone()),
        }
    }
}

/// The metadata of a node.
pub fn refine_metadata(node: &Json) -> (r: Json)
    ensures
        r@ == metadata(node@),
{
    let mut m: Vec<(String, Json)> = Vec::new();
    proof {
        assert(entries_view(m@) =~= Seq::<(Seq<char>, JsonV)>::empty());
    }
    match node {
        Json::Object(es) => {
            copy_member_exec(&mut m, es, "name");
            copy_member_exec(&mut m, es, "description");
            copy_member_exec(&mut m, es, "key");
            copy_member_exec(&mut m, es, "remote");
            copy_member_exec(&mut m, es, "styleType");
            if !crate::json::entries_contains(&m, "description") {
                proof {
                    reveal_strlit("");
                }
                entries_put(&mut m, owned("description"), Json::String(owned("")));
            }
        },
        _ => {},
    }
    Json::Object(m)
}

/// The GUID text of a node, its members defaulting to 0; `None` where the
/// node has no `guid`.
pub open spec fn catalog_guid(es: Entries) -> Option<Seq<char>> {
    match entries_get(es, "guid"@) {
        Some(g) => Some(guid_text(u64_or(ou64(jget(g, "sessionID"@)), 0), u64_or(ou64(jget(g, "localID"@)), 0))),
        None => None,
    }
}

/// Components, styles and component sets, each by GUID text.
pub struct Catalog {
    pub components: Entries,
    pub styles: Entries,
    pub component_sets: Entries,
}

/// One node change added to the catalog.
pub open spec fn catalog_step(c: Catalog, node: JsonV) -> Catalog {
    match node {
        JsonV::Object(es) => match catalog_guid(es) {
            None => c,
            Some(guid) => {
                let c1 = match entries_get(es, "type"@) {
                    Some(t) => {
                        let node_type = crate::json::str_or(ostr(jget(t, "value"@)), ""@);
                        let is_state_group = bool_or(obool(entries_get(es, "isStateGroup"@)), false);
                        if node_type == "SYMBOL"@ {
                            Catalog { components: entries_insert(c.components, guid, metadata(node)), ..c }
                        } else if node_type == "COMPONENT_SET"@ || (node_type == "FRAME"@ && is_state_group) {
                            Catalog { component_sets: entries_insert(c.component_sets, guid, metadata(node)), ..c }
                        } else {
                            c
                        }
                    },
                    None => c,
                };
                match entries_get(es, "styleType"@) {
                    Some(st) => if jget(st, "value"@) is Some {
                        Catalog { styles: entries_insert(c1.styles, guid, metadata(node)), ..c1 }
                    } else {
                        c1
                    },
                    None => c1,
                }
            },
        },
        _ => c,
    }
}

/// The catalog of the node changes, taken in order.
pub open spec fn catalog(nodes: Seq<JsonV>) -> Catalog
    decreases nodes.len(),
{
    if nodes.len() == 0 {
        Catalog { components: Seq::empty(), styles: Seq::empty(), component_sets: Seq::empty() }
    } else {
        catalog_step(catalog(nodes.drop_last()), nodes.last())
    }
}

fn u64_member_or_zero(v: &Json, key: &str) -> (r: u64)
    ensures
        r == u64_or(ou64(jget(v@, key@)), 0),
{
    match v.get(key) {
        Some(x) => match x.as_u64() {
            Some(u) => u,
            None => 0,
        },
        None => 0,
    }
}

fn type_value_is(t: &Json, name: &str) -> (r: bool)
    ensures
        r == (crate::json::str_or(ostr(jget(t@, "value"@)), ""@) == name@),
{
    proof {
        reveal_strlit("");
    }
    match t.get("value") {
        Some(Json::String(s)) => str_eq(s.as_str(), name),
        _ => str_eq("", name),
    }
}

/// The components, styles and component sets among the node changes.
pub fn extract_components_and_styles(node_changes: &[Json]) -> (r: (Json, Json, Json))
    ensures
        r.0@ == JsonV::Object(catalog(node_changes@.map_values(|n: Json| n@)).components),
        r.1@ == JsonV::Object(catalog(node_changes@.map_values(|n: Json| n@)).styles),
        r.2@ == JsonV::Object(catalog(node_changes@.map_values(|n: Json| n@)).component_sets),
{
    let ghost nv = node_changes@.map_values(|n: Json| n@);
    let mut components: Vec<(String, Json)> = Vec::new();
    let mut styles: Vec<(String, Json)> = Vec::new();
    let mut component_sets: Vec<(String, Json)> = Vec::new();
    proof {
        assert(entries_view(components@) =~= Seq::<(Seq<char>, JsonV)>::empty());
        assert(entries_view(styles@) =~= Seq::<(Seq<char>, JsonV)>::empty());
        assert(entries_view(component_sets@) =~= Seq::<(Seq<char>, JsonV)>::empty());
        assert(nv.take(0) =~= Seq::<JsonV>::empty());
    }
    let mut i: usize = 0;
    while i < node_changes.len()
        invariant
            0 <= i <= node_changes@.len(),
            nv == node_changes@.map_values(|n: Json| n@),
            catalog(nv.take(i as int)) == (Catalog {
                components: entries_view(components@),
                styles: entries_view(styles@),
                component_sets: entries_view(component_sets@),
            }),
        decreases node_changes@.len() - i,
    {
        let ghost t1 = nv.take(i + 1);
        assert(t1.drop_last() =~= nv.take(i as int));
        assert(t1.last() == node_changes@[i as int]@);
        let node = &node_changes[i];
        match node {
            Json::Object(obj) => {
                let guid = match entries_find(obj, "guid") {
                    Some(g) => guid_string(u64_member_or_zero(g, "sessionID"), u64_member_or_zero(g, "localID")),
                    None => {
                        i = i + 1;
                        continue;
                    },
                };
                match entries_find(obj, "type") {
                    Some(t) => {
                        let is_state_group = match entries_find(obj, "isStateGroup") {
                            Some(b) => match b.as_bool() {
                                Some(x) => x,
                                None => false,
                            },
                            None => false,
                        };
                        if type_value_is(t, "SYMBOL") {
                            entries_put(&mut components, guid.clone(), refine_metadata(node));
                        } else if type_value_is(t, "COMPONENT_SET") || (type_value_is(t, "FRAME") && is_state_group) {
                            entries_put(&mut component_sets, guid.clone(), refine_metadata(node));
                        }
                    },
                    None => {},
                }
                match entries_find(obj, "styleType") {
                    Some(st) => {
                        if st.get("value").is_some() {
                            entries_put(&mut styles, guid, refine_metadata(node));
                        }
                    },
                    None => {},
                }
            },
            _ => {},
        }
        i = i + 1;
    }
    proof {
        assert(nv.take(i as int) =~= nv);
    }
    (Json::Object(components), Json::Object(styles), Json::Object(component_sets))
}

} // verus!

verus! {

/// An object with a `description` member.
pub open spec fn described(v: JsonV) -> bool {
    v is Object && entries_has(v->Object_0, "description"@)
}

pub open spec fn described_fn() -> spec_fn(JsonV) -> bool {
    |v: JsonV| described(v)
}

/// The metadata of an object always has a `description`.
pub proof fn lemma_metadata_described(node: JsonV)
    requires
        node is Object,
    ensures
        described(metadata(node)),
{
    let es = node->Object_0;
    let m1 = copy_member(Seq::empty(), es, "name"@);
    let m2 = copy_member(m1, es, "description"@);
    let m3 = copy_member(m2, es, "key"@);
    let m4 = copy_member(m3, es, "remote"@);
    let m5 = copy_member(m4, es, "styleType"@);
    if !entries_has(m5, "description"@) {
        crate::json::lemma_has_insert(m5, "description"@, JsonV::Str(""@), "description"@);
    }
}

/// Every component, style and component set of the catalog is listed with a
/// `description`.
pub proof fn lemma_catalog_described(nodes: Seq<JsonV>)
    ensures
        crate::json::all_values(catalog(nodes).components, described_fn()),
        crate::json::all_values(catalog(nodes).styles, described_fn()),
        crate::json::all_values(catalog(nodes).component_sets, described_fn()),
    decreases nodes.len(),
{
    if nodes.len() > 0 {
        lemma_catalog_described(nodes.drop_last());
        let c = catalog(nodes.drop_last());
        let node = nodes.last();
        if let JsonV::Object(es) = node {
            if let Some(guid) = catalog_guid(es) {
                lemma_metadata_described(node);
                let f = described_fn();
                assert(f(metadata(node)));
                crate::json::lemma_all_values_insert(c.components, guid, metadata(node), f);
                crate::json::lemma_all_values_insert(c.component_sets, guid, metadata(node), f);
                let c1 = match entries_get(es, "type"@) {
                    Some(t) => {
                        let node_type = crate::json::str_or(ostr(jget(t, "value"@)), ""@);
                        let is_state_group = bool_or(obool(entries_get(es, "isStateGroup"@)), false);
                        if node_type == "SYMBOL"@ {
                            Catalog { components: entries_insert(c.components, guid, metadata(node)), ..c }
                        } else if node_type == "COMPONENT_SET"@ || (node_type == "FRAME"@ && is_state_group) {
                            Catalog { component_sets: entries_insert(c.component_sets, guid, metadata(node)), ..c }
                        } else {
                            c
                        }
                    },
                    None => c,
                };
                crate::json::lemma_all_values_insert(c1.styles, guid, metadata(node), f);
            }
        }
    }
}

} // verus!

verus! {

/// The GUID text of a node change whose type has the value `SYMBOL`, its
/// GUID members defaulting to 0; `None` for any other node change.
pub open spec fn symbol_guid(n: JsonV) -> Option<Seq<char>> {
    match n {
        JsonV::Object(es) => match entries_get(es, "guid"@) {
            Some(g) => match entries_get(es, "type"@) {
                Some(t) => if jget(t, "value"@) == Some(JsonV::Str("SYMBOL"@)) {
                    Some(
                        crate::text::guid_text(
                            u64_or(ou64(jget(g, "sessionID"@)), 0),
                            u64_or(ou64(jget(g, "localID"@)), 0),
                        ),
                    )
                } else {
                    None
                },
                None => None,
            },
            None => None,
        },
        _ => None,
    }
}

proof fn lemma_step_components(c: Catalog, node: JsonV)
    ensures
        catalog_step(c, node).components == match symbol_guid(node) {
            Some(g) => entries_insert(c.components, g, metadata(node)),
            None => c.components,
        },
{
    reveal_strlit("SYMBOL");
    reveal_strlit("");
    assert("SYMBOL"@.len() == 6);
    if let JsonV::Object(es) = node {
        if let Some(t) = entries_get(es, "type"@) {
            let x = jget(t, "value"@);
            assert((crate::json::str_or(ostr(x), ""@) == "SYMBOL"@) <==> x == Some(JsonV::Str("SYMBOL"@)));
        }
    }
}

/// A GUID is listed among the components exactly when some node change with
/// that GUID has the type value `SYMBOL`, and it is listed with the metadata
/// of the last such node change.
#[verifier::spinoff_prover]
#[verifier::rlimit(40)]
pub proof fn lemma_components_are_symbols(nodes: Seq<JsonV>, k: Seq<char>)
    ensures
        entries_has(catalog(nodes).components, k) <==> exists|i: int|
            0 <= i < nodes.len() && #[trigger] symbol_guid(nodes[i]) == Some(k),
        forall|i: int|
            0 <= i < nodes.len() && #[trigger] symbol_guid(nodes[i]) == Some(k) && (forall|j: int|
                i < j < nodes.len() ==> #[trigger] symbol_guid(nodes[j]) != Some(k)) ==> entries_get(
                catalog(nodes).components,
                k,
            ) == Some(metadata(nodes[i])),
    decreases nodes.len(),
{
    if nodes.len() > 0 {
        let d = nodes.drop_last();
        let last = nodes.last();
        let n = nodes.len() - 1;
        lemma_components_are_symbols(d, k);
        let c = catalog(d);
        lemma_step_components(c, last);
        assert(nodes[n] == last);
        assert forall|i: int| 0 <= i < n implies #[trigger] nodes[i] == d[i] by {}
        if let Some(g) = symbol_guid(last) {
            crate::json::lemma_insert_get(c.components, g, metadata(last), k);
        }
        if exists|i: int| 0 <= i < nodes.len() && #[trigger] symbol_guid(nodes[i]) == Some(k) {
            let i = choose|i: int| 0 <= i < nodes.len() && #[trigger] symbol_guid(nodes[i]) == Some(k);
            if i < n {
                assert(symbol_guid(d[i]) == Some(k));
            }
        }
        if exists|i: int| 0 <= i < d.len() && #[trigger] symbol_guid(d[i]) == Some(k) {
            let i = choose|i: int| 0 <= i < d.len() && #[trigger] symbol_guid(d[i]) == Some(k);
            assert(symbol_guid(nodes[i]) == Some(k));
        }
        assert forall|i: int|
            0 <= i < nodes.len() && #[trigger] symbol_guid(nodes[i]) == Some(k) && (forall|j: int|
                i < j < nodes.len() ==> #[trigger] symbol_guid(nodes[j]) != Some(k)) implies entries_get(
            catalog(nodes).components,
            k,
        ) == Some(metadata(nodes[i])) by {
            if i < n {
                assert(symbol_guid(nodes[n]) != Some(k));
                assert(symbol_guid(d[i]) == Some(k));
                assert forall|j: int| i < j < d.len() implies #[trigger] symbol_guid(d[j]) != Some(k) by {
                    assert(nodes[j] == d[j]);
                }
            }
        }
    }
}

} // verus!

verus! {

/// The GUID text of a node change, its members defaulting to 0.
pub open spec fn change_guid(es: Entries) -> Option<Seq<char>> {
    match entries_get(es, "guid"@) {
        Some(g) => Some(crate::text::guid_text(u64_or(ou64(jget(g, "sessionID"@)), 0), u64_or(ou64(jget(g, "localID"@)), 0))),
        None => None,
    }
}

/// The GUID text of a node change that is a component set: its type value
/// is `COMPONENT_SET`, or `FRAME` with `isStateGroup` true.
pub open spec fn set_guid(n: JsonV) -> Option<Seq<char>> {
    match n {
        JsonV::Object(es) => match entries_get(es, "type"@) {
            Some(t) => if jget(t, "value"@) == Some(JsonV::Str("COMPONENT_SET"@)) || (jget(t, "value"@) == Some(
                JsonV::Str("FRAME"@),
            ) && entries_get(es, "isStateGroup"@) == Some(JsonV::Bool(true))) {
                change_guid(es)
            } else {
                None
            },
            None => None,
        },
        _ => None,
    }
}

/// The GUID text of a node change whose `styleType` has a `value` member.
pub open spec fn style_guid(n: JsonV) -> Option<Seq<char>> {
    match n {
        JsonV::Object(es) => match entries_get(es, "styleType"@) {
            Some(st) => if jget(st, "value"@) is Some {
                change_guid(es)
            } else {
                None
            },
            None => None,
        },
        _ => None,
    }
}

proof fn lemma_step_sets_styles(c: Catalog, node: JsonV)
    ensures
        catalog_step(c, node).component_sets == match set_guid(node) {
            Some(g) => entries_insert(c.component_sets, g, metadata(node)),
            None => c.component_sets,
        },
        catalog_step(c, node).styles == match style_guid(node) {
            Some(g) => entries_insert(c.styles, g, metadata(node)),
            None => c.styles,
        },
{
    reveal_strlit("SYMBOL");
    reveal_strlit("COMPONENT_SET");
    reveal_strlit("FRAME");
    reveal_strlit("");
    assert("SYMBOL"@.len() == 6 && "COMPONENT_SET"@.len() == 13 && "FRAME"@.len() == 5);
    if let JsonV::Object(es) = node {
        if let Some(t) = entries_get(es, "type"@) {
            let x = jget(t, "value"@);
            assert((crate::json::str_or(ostr(x), ""@) == "COMPONENT_SET"@) <==> x == Some(JsonV::Str("COMPONENT_SET"@)));
            assert((crate::json::str_or(ostr(x), ""@) == "FRAME"@) <==> x == Some(JsonV::Str("FRAME"@)));
            assert((bool_or(obool(entries_get(es, "isStateGroup"@)), false)) <==> entries_get(es, "isStateGroup"@) == Some(JsonV::Bool(true)));
        }
    }
}

/// A GUID is listed among the component sets exactly when some node change
/// with that GUID is a component set, with the metadata of the last such
/// change; and among the styles exactly when some node change with that
/// GUID has a `styleType` with a `value`, with the metadata of the last such
/// change.
#[verifier::spinoff_prover]
#[verifier::rlimit(40)]
pub proof fn lemma_sets_and_styles(nodes: Seq<JsonV>, k: Seq<char>)
    ensures
        entries_has(catalog(nodes).component_sets, k) <==> exists|i: int|
            0 <= i < nodes.len() && #[trigger] set_guid(nodes[i]) == Some(k),
        forall|i: int|
            0 <= i < nodes.len() && #[trigger] set_guid(nodes[i]) == Some(k) && (forall|j: int|
                i < j < nodes.len() ==> #[trigger] set_guid(nodes[j]) != Some(k)) ==> entries_get(
                catalog(nodes).component_sets,
                k,
            ) == Some(metadata(nodes[i])),
        entries_has(catalog(nodes).styles, k) <==> exists|i: int|
            0 <= i < nodes.len() && #[trigger] style_guid(nodes[i]) == Some(k),
        forall|i: int|
            0 <= i < nodes.len() && #[trigger] style_guid(nodes[i]) == Some(k) && (forall|j: int|
                i < j < nodes.len() ==> #[trigger] style_guid(nodes[j]) != Some(k)) ==> entries_get(
                catalog(nodes).styles,
                k,
            ) == Some(metadata(nodes[i])),
    decreases nodes.len(),
{
    if nodes.len() > 0 {
        let d = nodes.drop_last();
        let last = nodes.last();
        let n = nodes.len() - 1;
        lemma_sets_and_styles(d, k);
        let c = catalog(d);
        lemma_step_sets_styles(c, last);
        assert(nodes[n] == last);
        assert forall|i: int| 0 <= i < n implies #[trigger] nodes[i] == d[i] by {}
        if let Some(g) = set_guid(last) {
            crate::json::lemma_insert_get(c.component_sets, g, metadata(last), k);
        }
        if let Some(g) = style_guid(last) {
            crate::json::lemma_insert_get(c.styles, g, metadata(last), k);
        }
        if exists|i: int| 0 <= i < nodes.len() && #[trigger] set_guid(nodes[i]) == Some(k) {
            let i = choose|i: int| 0 <= i < nodes.len() && #[trigger] set_guid(nodes[i]) == Some(k);
            if i < n {
                assert(set_guid(d[i]) == Some(k));
            }
        }
        if exists|i: int| 0 <= i < d.len() && #[trigger] set_guid(d[i]) == Some(k) {
            let i = choose|i: int| 0 <= i < d.len() && #[trigger] set_guid(d[i]) == Some(k);
            assert(set_guid(nodes[i]) == Some(k));
        }
        if exists|i: int| 0 <= i < nodes.len() && #[trigger] style_guid(nodes[i]) == Some(k) {
            let i = choose|i: int| 0 <= i < nodes.len() && #[trigger] style_guid(nodes[i]) == Some(k);
            if i < n {
                assert(style_guid(d[i]) == Some(k));
            }
        }
        if exists|i: int| 0 <= i < d.len() && #[trigger] style_guid(d[i]) == Some(k) {
            let i = choose|i: int| 0 <= i < d.len() && #[trigger] style_guid(d[i]) == Some(k);
            assert(style_guid(nodes[i]) == Some(k));
        }
        assert forall|i: int|
            0 <= i < nodes.len() && #[trigger] set_guid(nodes[i]) == Some(k) && (forall|j: int|
                i < j < nodes.len() ==> #[trigger] set_guid(nodes[j]) != Some(k)) implies entries_get(
            catalog(nodes).component_sets,
            k,
        ) == Some(metadata(nodes[i])) by {
            if i < n {
                assert(set_guid(nodes[n]) != Some(k));
                assert(set_guid(d[i]) == Some(k));
                assert forall|j: int| i < j < d.len() implies #[trigger] set_guid(d[j]) != Some(k) by {
                    assert(nodes[j] == d[j]);
                }
            }
        }
        assert forall|i: int|
            0 <= i < nodes.len() && #[trigger] style_guid(nodes[i]) == Some(k) && (forall|j: int|
                i < j < nodes.len() ==> #[trigger] style_guid(nodes[j]) != Some(k)) implies entries_get(
            catalog(nodes).styles,
            k,
        ) == Some(metadata(nodes[i])) by {
            if i < n {
                assert(style_guid(nodes[n]) != Some(k));
                assert(style_guid(d[i]) == Some(k));
                assert forall|j: int| i < j < d.len() implies #[trigger] style_guid(d[j]) != Some(k) by {
                    assert(nodes[j] == d[j]);
                }
            }
        }
    }
}

} // verus!
