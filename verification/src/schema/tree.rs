//! The document tree, built from the flat list of node changes.
use vstd::prelude::*;
use crate::error::FigError;
use crate::json::{
    entries_get, entries_has, entries_insert, entries_remove, jget, oget, ostr, ou64, str_or, u64_or,
    Entries, Json, JsonV,
};
use crate::text::{guid_text, lemma_text_le_total, lemma_text_le_trans, text_le};
use std::collections::HashMap;

verus! {

/// A GUID as its session and local id.
pub type Guid = (u64, u64);

pub open spec fn gtext(g: Guid) -> Seq<char> {
    guid_text(g.0, g.1)
}

/// The GUID of a node change, or the message of the error that reading it gives.
pub open spec fn guid_of(node: JsonV) -> Result<Guid, Seq<char>> {
    match jget(node, "guid"@) {
        None => Err("Node missing guid field"@),
        Some(g) => match ou64(jget(g, "sessionID"@)) {
            None => Err("Invalid sessionID in guid"@),
            Some(s) => match ou64(jget(g, "localID"@)) {
                None => Err("Invalid localID in guid"@),
                Some(l) => Ok((s, l)),
            },
        },
    }
}

/// The GUID of the parent that a `parentIndex` names, or the message of the
/// error that reading it gives.
pub open spec fn parent_guid_of(pi: JsonV) -> Result<Guid, Seq<char>> {
    match jget(pi, "guid"@) {
        None => Err("parentIndex missing guid field"@),
        Some(g) => match ou64(jget(g, "sessionID"@)) {
            None => Err("Invalid sessionID in parentIndex"@),
            Some(s) => match ou64(jget(g, "localID"@)) {
                None => Err("Invalid localID in parentIndex"@),
                Some(l) => Ok((s, l)),
            },
        },
    }
}

pub open spec fn key_of(node: JsonV) -> Guid {
    match guid_of(node) {
        Ok(g) => g,
        Err(_) => (0, 0),
    }
}

/// The error of the first node change whose GUID cannot be read.
pub open spec fn guid_error(nodes: Seq<JsonV>) -> Option<Seq<char>>
    decreases nodes.len(),
{
    if nodes.len() == 0 {
        None
    } else {
        match guid_error(nodes.drop_last()) {
            Some(e) => Some(e),
            None => match guid_of(nodes.last()) {
                Err(m) => Some(m),
                Ok(_) => None,
            },
        }
    }
}

/// The error of the first node change whose parent GUID cannot be read.
pub open spec fn parent_error(nodes: Seq<JsonV>) -> Option<Seq<char>>
    decreases nodes.len(),
{
    if nodes.len() == 0 {
        None
    } else {
        match parent_error(nodes.drop_last()) {
            Some(e) => Some(e),
            None => match jget(nodes.last(), "parentIndex"@) {
                Some(pi) => match parent_guid_of(pi) {
                    Err(m) => Some(m),
                    Ok(_) => None,
                },
                None => None,
            },
        }
    }
}

/// The index of the last node change with GUID `g`.
pub open spec fn last_index(nodes: Seq<JsonV>, g: Guid) -> Option<int>
    decreases nodes.len(),
{
    if nodes.len() == 0 {
        None
    } else if guid_of(nodes.last()) == Ok::<Guid, Seq<char>>(g) {
        Some(nodes.len() - 1)
    } else {
        last_index(nodes.drop_last(), g)
    }
}

/// The node with GUID `g`: the last node change that has it.
pub open spec fn lookup(nodes: Seq<JsonV>, g: Guid) -> Option<JsonV> {
    match last_index(nodes, g) {
        Some(i) => Some(nodes[i]),
        None => None,
    }
}

/// The position of a child in its parent: the `position` string, or `""`.
pub open spec fn position_of(pi: JsonV) -> Seq<char> {
    str_or(ostr(jget(pi, "position"@)), ""@)
}

/// A child of a parent: its position and its GUID.
pub type ChildEntry = (Seq<char>, Guid);

/// `x` placed into `s` after every entry whose position is not greater than
/// its own: one step of a stable sort by position.
pub open spec fn insert_by_position(s: Seq<ChildEntry>, x: ChildEntry) -> Seq<ChildEntry>
    decreases s.len(),
{
    if s.len() == 0 {
        seq![x]
    } else if text_le(s.last().0, x.0) {
        s.push(x)
    } else {
        insert_by_position(s.drop_last(), x).push(s.last())
    }
}

/// The children of `p`, in the order of their positions, children of equal
/// position in the order of the node changes.
pub open spec fn child_entries(nodes: Seq<JsonV>, p: Guid) -> Seq<ChildEntry>
    decreases nodes.len(),
{
    if nodes.len() == 0 {
        Seq::empty()
    } else {
        let r = child_entries(nodes.drop_last(), p);
        match jget(nodes.last(), "parentIndex"@) {
            Some(pi) => if parent_guid_of(pi) == Ok::<Guid, Seq<char>>(p) {
                insert_by_position(r, (position_of(pi), key_of(nodes.last())))
            } else {
                r
            },
            None => r,
        }
    }
}

/// The type name of a node: a string, or the `value` string under it.
pub open spec fn node_type(es: Entries) -> Seq<char> {
    match entries_get(es, "type"@) {
        Some(JsonV::Str(s)) => s,
        Some(x) => str_or(ostr(jget(x, "value"@)), ""@),
        None => ""@,
    }
}

/// The GUID of the symbol an `INSTANCE` node refers to.
pub open spec fn instance_symbol(es: Entries) -> Option<Guid> {
    if node_type(es) == "INSTANCE"@ {
        match oget(entries_get(es, "symbolData"@), "symbolID"@) {
            Some(sid) => Some(
                (u64_or(ou64(jget(sid, "sessionID"@)), 0), u64_or(ou64(jget(sid, "localID"@)), 0)),
            ),
            None => None,
        }
    } else {
        None
    }
}

/// The id of a node built under `prefix`.
pub open spec fn node_id(prefix: Option<Seq<char>>, g: Guid) -> Seq<char> {
    match prefix {
        Some(p) => p + ";"@ + gtext(g),
        None => gtext(g),
    }
}

/// The prefix of the nodes an instance expands to.
pub open spec fn expansion_prefix(prefix: Option<Seq<char>>, g: Guid) -> Seq<char> {
    match prefix {
        Some(p) => p + ";"@ + gtext(g),
        None => "I"@ + gtext(g),
    }
}

/// The nesting of the nodes a build made: for each, those it made as its children.
pub struct Shape {
    pub kids: Seq<Shape>,
}

pub open spec fn not_found_message(g: Guid) -> Seq<char> {
    "Node "@ + gtext(g) + " not found"@
}

pub open spec fn nesting_message(g: Guid) -> Seq<char> {
    "Node "@ + gtext(g) + " lies below itself"@
}

pub open spec fn firsts(rs: Seq<(JsonV, Shape)>) -> Seq<JsonV> {
    Seq::new(rs.len(), |i: int| rs[i].0)
}

pub open spec fn seconds(rs: Seq<(JsonV, Shape)>) -> Seq<Shape> {
    Seq::new(rs.len(), |i: int| rs[i].1)
}

/// The node `g` with its children, built under `prefix`; `fuel` bounds the
/// depth of the nesting.
pub open spec fn build(nodes: Seq<JsonV>, g: Guid, prefix: Option<Seq<char>>, fuel: nat) -> Result<(JsonV, Shape), Seq<char>>
    decreases fuel, 0nat,
{
    match lookup(nodes, g) {
        None => Err(not_found_message(g)),
        Some(node) => if fuel == 0 {
            Err(nesting_message(g))
        } else {
            match node {
                JsonV::Object(es) => {
                    let es1 = entries_remove(es, "parentIndex"@);
                    let es2 = entries_insert(es1, "id"@, JsonV::Str(node_id(prefix, g)));
                    let inst = match instance_symbol(es2) {
                        Some(sk) => build_all(nodes, child_entries(nodes, sk), Some(expansion_prefix(prefix, g)), (fuel - 1) as nat),
                        None => Ok(Seq::empty()),
                    };
                    match inst {
                        Err(e) => Err(e),
                        Ok(a) => match build_all(nodes, child_entries(nodes, g), prefix, (fuel - 1) as nat) {
                            Err(e) => Err(e),
                            Ok(b) => {
                                let all = a + b;
                                let tree = if all.len() > 0 {
                                    JsonV::Object(entries_insert(es2, "children"@, JsonV::Array(firsts(all))))
                                } else {
                                    JsonV::Object(es2)
                                };
                                Ok((tree, Shape { kids: seconds(all) }))
                            },
                        },
                    }
                },
                _ => Ok((node, Shape { kids: Seq::empty() })),
            }
        },
    }
}

/// The children `list` built in order; the first error stops the build.
pub open spec fn build_all(nodes: Seq<JsonV>, list: Seq<ChildEntry>, prefix: Option<Seq<char>>, fuel: nat) -> Result<Seq<(JsonV, Shape)>, Seq<char>>
    decreases fuel, list.len(),
{
    if list.len() == 0 {
        Ok(Seq::empty())
    } else {
        match build_all(nodes, list.drop_last(), prefix, fuel) {
            Err(e) => Err(e),
            Ok(rs) => match build(nodes, list.last().1, prefix, fuel) {
                Err(e) => Err(e),
                Ok(r) => Ok(rs.push(r)),
            },
        }
    }
}

/// The document tree of the node changes, rooted at GUID `0:0`.
pub open spec fn tree_of(nodes: Seq<JsonV>) -> Result<(JsonV, Shape), Seq<char>> {
    match guid_error(nodes) {
        Some(m) => Err(m),
        None => match parent_error(nodes) {
            Some(m) => Err(m),
            None => build(nodes, (0, 0), None, nodes.len()),
        },
    }
}

} // verus!

verus! {

broadcast use vstd::std_specs::hash::group_hash_axioms;

/// The key under which the maps of a build keep GUID `(s, l)`.
pub open spec fn pack(s: u64, l: u64) -> u128 {
    (s as int * 0x1_0000_0000_0000_0000int + l as int) as u128
}

pub proof fn lemma_pack_injective(s1: u64, l1: u64, s2: u64, l2: u64)
    ensures
        pack(s1, l1) == pack(s2, l2) ==> s1 == s2 && l1 == l2,
{
    let a = s1 as int * 0x1_0000_0000_0000_0000int + l1 as int;
    let b = s2 as int * 0x1_0000_0000_0000_0000int + l2 as int;
    assert(0 <= a < 0x1_0000_0000_0000_0000_0000_0000_0000_0000int) by (nonlinear_arith)
        requires a == s1 as int * 0x1_0000_0000_0000_0000int + l1 as int, 0 <= s1 < 0x1_0000_0000_0000_0000int, 0 <= l1 < 0x1_0000_0000_0000_0000int;
    assert(0 <= b < 0x1_0000_0000_0000_0000_0000_0000_0000_0000int) by (nonlinear_arith)
        requires b == s2 as int * 0x1_0000_0000_0000_0000int + l2 as int, 0 <= s2 < 0x1_0000_0000_0000_0000int, 0 <= l2 < 0x1_0000_0000_0000_0000int;
    if a == b {
        assert(s1 == s2 && l1 == l2) by (nonlinear_arith)
            requires a == s1 as int * 0x1_0000_0000_0000_0000int + l1 as int, b == s2 as int * 0x1_0000_0000_0000_0000int + l2 as int, a == b, 0 <= l1 < 0x1_0000_0000_0000_0000int, 0 <= l2 < 0x1_0000_0000_0000_0000int, 0 <= s1, 0 <= s2;
    }
}

fn pack_exec(s: u64, l: u64) -> (r: u128)
    ensures
        r == pack(s, l),
{
    assert((s as int) * 0x1_0000_0000_0000_0000int + (l as int) <= 0xffff_ffff_ffff_ffff_ffff_ffff_ffff_ffffint) by (nonlinear_arith)
        requires 0 <= s < 0x1_0000_0000_0000_0000int, 0 <= l < 0x1_0000_0000_0000_0000int;
    (s as u128) * 0x1_0000_0000_0000_0000u128 + (l as u128)
}

pub open spec fn guid_result_view(r: Result<Guid, FigError>) -> Result<Guid, Seq<char>> {
    match r {
        Ok(g) => Ok(g),
        Err(e) => Err(crate::error::error_message(e)),
    }
}

fn zip_error(m: &str) -> (r: FigError)
    ensures
        crate::error::error_message(r) == m@,
{
    FigError::ZipError(crate::text::owned(m))
}

fn guid_pair(g: &Json, missing_session: &str, missing_local: &str) -> (r: Result<Guid, FigError>)
    ensures
        guid_result_view(r) == (match ou64(jget(g@, "sessionID"@)) {
            None => Err(missing_session@),
            Some(s) => match ou64(jget(g@, "localID"@)) {
                None => Err(missing_local@),
                Some(l) => Ok((s, l)),
            },
        }),
{
    let session = match g.get("sessionID") {
        Some(v) => match v.as_u64() {
            Some(u) => u,
            None => return Err(zip_error(missing_session)),
        },
        None => return Err(zip_error(missing_session)),
    };
    let local = match g.get("localID") {
        Some(v) => match v.as_u64() {
            Some(u) => u,
            None => return Err(zip_error(missing_local)),
        },
        None => return Err(zip_error(missing_local)),
    };
    Ok((session, local))
}

/// Format a GUID from a node object
pub fn format_guid(node: &Json) -> (r: Result<Guid, FigError>)
    ensures
        guid_result_view(r) == guid_of(node@),
{
    match node.get("guid") {
        Some(g) => guid_pair(g, "Invalid sessionID in guid", "Invalid localID in guid"),
        None => Err(zip_error("Node missing guid field")),
    }
}

/// Format a GUID from a parentIndex's guid field
pub fn format_parent_guid(parent_index: &Json) -> (r: Result<Guid, FigError>)
    ensures
        guid_result_view(r) == parent_guid_of(parent_index@),
{
    match parent_index.get("guid") {
        Some(g) => guid_pair(g, "Invalid sessionID in parentIndex", "Invalid localID in parentIndex"),
        None => Err(zip_error("parentIndex missing guid field")),
    }
}

/// The nesting of the nodes a build made.
pub struct Layout {
    pub children: Vec<Layout>,
}

pub open spec fn layout_view(l: Layout) -> Shape
    decreases l,
{
    Shape { kids: layouts_view(l.children@) }
}

pub open spec fn layouts_view(s: Seq<Layout>) -> Seq<Shape>
    decreases s,
{
    Seq::new(s.len(), |i: int| if 0 <= i < s.len() { layout_view(s[i]) } else { Shape { kids: Seq::empty() } })
}

impl View for Layout {
    type V = Shape;

    open spec fn view(&self) -> Shape {
        layout_view(*self)
    }
}

/// The children as the build keeps them: position, then GUID.
pub open spec fn children_view(v: Seq<(String, u64, u64)>) -> Seq<ChildEntry> {
    Seq::new(v.len(), |i: int| (v[i].0@, (v[i].1, v[i].2)))
}

proof fn lemma_children_view_push(v: Seq<(String, u64, u64)>, e: (String, u64, u64))
    ensures
        children_view(v.push(e)) == children_view(v).push((e.0@, (e.1, e.2))),
{
    assert(children_view(v.push(e)) =~= children_view(v).push((e.0@, (e.1, e.2))));
}

/// Places `x` after every child whose position is not greater than its own.
fn insert_child(list: &mut Vec<(String, u64, u64)>, x: (String, u64, u64))
    ensures
        children_view(final(list)@) == insert_by_position(children_view(old(list)@), (x.0@, (x.1, x.2))),
{
    let ghost xv = (x.0@, (x.1, x.2));
    let ghost l0 = children_view(list@);
    let mut stack: Vec<(String, u64, u64)> = Vec::new();
    proof {
        assert(children_view(stack@).reverse() =~= Seq::<ChildEntry>::empty());
        assert(l0 =~= children_view(list@) + children_view(stack@).reverse());
    }
    while list.len() > 0 && !crate::text::str_le(list[list.len() - 1].0.as_str(), x.0.as_str())
        invariant
            l0 == children_view(list@) + children_view(stack@).reverse(),
            insert_by_position(l0, xv) == insert_by_position(children_view(list@), xv) + children_view(stack@).reverse(),
            xv == (x.0@, (x.1, x.2)),
        decreases list@.len(),
    {
        let ghost before = children_view(list@);
        let ghost sb = children_view(stack@);
        let e = list.pop().unwrap();
        proof {
            assert(before.last() == (e.0@, (e.1, e.2)));
            assert(before.drop_last() =~= children_view(list@));
            lemma_children_view_push(stack@, e);
            assert(children_view(stack@.push(e)).reverse() =~= seq![(e.0@, (e.1, e.2))] + sb.reverse());
        }
        stack.push(e);
        proof {
            assert(l0 =~= children_view(list@) + children_view(stack@).reverse());
            assert(insert_by_position(before, xv) == insert_by_position(children_view(list@), xv).push((e.0@, (e.1, e.2))));
            assert(insert_by_position(l0, xv) =~= insert_by_position(children_view(list@), xv) + children_view(stack@).reverse());
        }
    }
    let ghost mid = children_view(list@);
    proof {
        if mid.len() == 0 {
            assert(insert_by_position(mid, xv) == seq![xv]);
        } else {
            assert(mid.last() == (list@[list@.len() - 1].0@, (list@[list@.len() - 1].1, list@[list@.len() - 1].2)));
            assert(insert_by_position(mid, xv) == mid.push(xv));
        }
        lemma_children_view_push(list@, x);
    }
    list.push(x);
    proof {
        assert(children_view(list@) == insert_by_position(mid, xv));
    }
    while stack.len() > 0
        invariant
            insert_by_position(l0, xv) == children_view(list@) + children_view(stack@).reverse(),
        decreases stack@.len(),
    {
        let ghost sb = children_view(stack@);
        let ghost lb = children_view(list@);
        let e = stack.pop().unwrap();
        proof {
            assert(sb.last() == (e.0@, (e.1, e.2)));
            assert(sb.drop_last() =~= children_view(stack@));
            lemma_children_view_push(list@, e);
            assert(sb.reverse() =~= seq![(e.0@, (e.1, e.2))] + children_view(stack@).reverse());
        }
        list.push(e);
        proof {
            assert(children_view(list@) + children_view(stack@).reverse() =~= lb + sb.reverse());
        }
    }
    proof {
        assert(children_view(stack@).reverse() =~= Seq::<ChildEntry>::empty());
        assert(children_view(list@) =~= children_view(list@) + children_view(stack@).reverse());
    }
}

} // verus!

verus! {

pub proof fn lemma_last_index(nodes: Seq<JsonV>, g: Guid)
    ensures
        last_index(nodes, g) matches Some(i) ==> 0 <= i < nodes.len() && guid_of(nodes[i]) == Ok::<Guid, Seq<char>>(g),
    decreases nodes.len(),
{
    if nodes.len() > 0 {
        lemma_last_index(nodes.drop_last(), g);
    }
}

proof fn lemma_guid_error_prefix(nodes: Seq<JsonV>, k: int)
    requires
        0 <= k <= nodes.len(),
        guid_error(nodes.take(k)) is Some,
    ensures
        guid_error(nodes) == guid_error(nodes.take(k)),
    decreases nodes.len() - k,
{
    if k < nodes.len() {
        assert(nodes.drop_last().take(k) =~= nodes.take(k));
        lemma_guid_error_prefix(nodes.drop_last(), k);
    } else {
        assert(nodes.take(k) =~= nodes);
    }
}

proof fn lemma_parent_error_prefix(nodes: Seq<JsonV>, k: int)
    requires
        0 <= k <= nodes.len(),
        parent_error(nodes.take(k)) is Some,
    ensures
        parent_error(nodes) == parent_error(nodes.take(k)),
    decreases nodes.len() - k,
{
    if k < nodes.len() {
        assert(nodes.drop_last().take(k) =~= nodes.take(k));
        lemma_parent_error_prefix(nodes.drop_last(), k);
    } else {
        assert(nodes.take(k) =~= nodes);
    }
}

/// The GUIDs of the node changes, with the index of the last change of each.
fn index_guids(nodes: &Vec<Json>) -> (r: Result<(Vec<Guid>, HashMap<u128, usize>), FigError>)
    ensures
        match r {
            Err(e) => guid_error(crate::json::items_view(nodes@)) == Some(crate::error::error_message(e)),
            Ok((keys, by_guid)) => {
                let nv = crate::json::items_view(nodes@);
                &&& guid_error(nv) is None
                &&& keys@.len() == nv.len()
                &&& forall|j: int| 0 <= j < nv.len() ==> guid_of(#[trigger] nv[j]) == Ok::<Guid, Seq<char>>(keys@[j])
                &&& forall|s: u64, l: u64| #![trigger pack(s, l)] (by_guid@.contains_key(pack(s, l)) <==> last_index(nv, (s, l)) is Some)
                        && (by_guid@.contains_key(pack(s, l)) ==> by_guid@[pack(s, l)] as int == last_index(nv, (s, l))->0)
            },
        },
{
    let ghost nv = crate::json::items_view(nodes@);
    let n = nodes.len();
    let mut keys: Vec<Guid> = Vec::new();
    let mut by_guid: HashMap<u128, usize> = HashMap::new();
    assert(nv.take(0) =~= Seq::<JsonV>::empty());
    let mut i: usize = 0;
    while i < n
        invariant
            n == nodes@.len(),
            nv == crate::json::items_view(nodes@),
            0 <= i <= n,
            guid_error(nv.take(i as int)) is None,
            keys@.len() == i,
            forall|j: int| 0 <= j < i ==> guid_of(#[trigger] nv[j]) == Ok::<Guid, Seq<char>>(keys@[j]),
            forall|s: u64, l: u64| #![trigger pack(s, l)] (by_guid@.contains_key(pack(s, l)) <==> last_index(nv.take(i as int), (s, l)) is Some)
                && (by_guid@.contains_key(pack(s, l)) ==> by_guid@[pack(s, l)] as int == last_index(nv.take(i as int), (s, l))->0),
        decreases n - i,
    {
        assert(nv.take(i + 1).drop_last() =~= nv.take(i as int));
        assert(nv.take(i + 1).last() == nv[i as int]);
        assert(nv[i as int] == nodes@[i as int]@);
        match format_guid(&nodes[i]) {
            Err(e) => {
                proof {
                    lemma_guid_error_prefix(nv, i + 1);
                }
                return Err(e);
            },
            Ok(g) => {
                let k = pack_exec(g.0, g.1);
                by_guid.insert(k, i);
                keys.push(g);
                proof {
                    assert forall|s: u64, l: u64| #![trigger pack(s, l)] (by_guid@.contains_key(pack(s, l)) <==> last_index(nv.take(i + 1), (s, l)) is Some)
                        && (by_guid@.contains_key(pack(s, l)) ==> by_guid@[pack(s, l)] as int == last_index(nv.take(i + 1), (s, l))->0) by {
                        lemma_pack_injective(s, l, g.0, g.1);
                    }
                }
            },
        }
        i = i + 1;
    }
    proof {
        assert(nv.take(n as int) =~= nv);
    }
    Ok((keys, by_guid))
}

/// The children of each parent, in the order of their positions.
fn index_children(nodes: &Vec<Json>, keys: &Vec<Guid>) -> (r: Result<HashMap<u128, Vec<(String, u64, u64)>>, FigError>)
    requires
        keys@.len() == nodes@.len(),
        forall|j: int| 0 <= j < nodes@.len() ==> guid_of(#[trigger] crate::json::items_view(nodes@)[j]) == Ok::<Guid, Seq<char>>(keys@[j]),
    ensures
        match r {
            Err(e) => parent_error(crate::json::items_view(nodes@)) == Some(crate::error::error_message(e)),
            Ok(children) => {
                let nv = crate::json::items_view(nodes@);
                &&& parent_error(nv) is None
                &&& forall|s: u64, l: u64| #![trigger pack(s, l)] (children@.contains_key(pack(s, l)) ==> children_view(children@[pack(s, l)]@) == child_entries(nv, (s, l)))
                        && (!children@.contains_key(pack(s, l)) ==> child_entries(nv, (s, l)).len() == 0)
            },
        },
{
    let ghost nv = crate::json::items_view(nodes@);
    let n = nodes.len();
    let mut children: HashMap<u128, Vec<(String, u64, u64)>> = HashMap::new();
    assert(nv.take(0) =~= Seq::<JsonV>::empty());
    let mut i: usize = 0;
    while i < n
        invariant
            n == nodes@.len(),
            keys@.len() == n,
            nv == crate::json::items_view(nodes@),
            forall|j: int| 0 <= j < nodes@.len() ==> guid_of(#[trigger] nv[j]) == Ok::<Guid, Seq<char>>(keys@[j]),
            0 <= i <= n,
            parent_error(nv.take(i as int)) is None,
            forall|s: u64, l: u64| #![trigger pack(s, l)] (children@.contains_key(pack(s, l)) ==> children_view(children@[pack(s, l)]@) == child_entries(nv.take(i as int), (s, l)))
                && (!children@.contains_key(pack(s, l)) ==> child_entries(nv.take(i as int), (s, l)).len() == 0),
        decreases n - i,
    {
        let ghost t1 = nv.take(i + 1);
        assert(t1.drop_last() =~= nv.take(i as int));
        assert(t1.last() == nv[i as int]);
        assert(nv[i as int] == nodes@[i as int]@);
        assert(key_of(nv[i as int]) == keys@[i as int]);
        match nodes[i].get("parentIndex") {
            Some(pi) => {
                let pg = match format_parent_guid(pi) {
                    Ok(pg) => pg,
                    Err(e) => {
                        proof {
                            lemma_parent_error_prefix(nv, i + 1);
                        }
                        return Err(e);
                    },
                };
                let position = match pi.get("position") {
                    Some(Json::String(p)) => p.clone(),
                    _ => {
                        proof {
                            reveal_strlit("");
                        }
                        crate::text::owned("")
                    },
                };
                let k = pack_exec(pg.0, pg.1);
                let mut list = match children.remove(&k) {
                    Some(l) => l,
                    None => {
                        let l: Vec<(String, u64, u64)> = Vec::new();
                        proof {
                            assert(children_view(l@) =~= child_entries(nv.take(i as int), pg));
                        }
                        l
                    },
                };
                let ghost before = children@;
                insert_child(&mut list, (position, keys[i].0, keys[i].1));
                children.insert(k, list);
                proof {
                    assert forall|s: u64, l: u64| #![trigger pack(s, l)] (children@.contains_key(pack(s, l)) ==> children_view(children@[pack(s, l)]@) == child_entries(t1, (s, l)))
                        && (!children@.contains_key(pack(s, l)) ==> child_entries(t1, (s, l)).len() == 0) by {
                        lemma_pack_injective(s, l, pg.0, pg.1);
                    }
                }
            },
            None => {},
        }
        i = i + 1;
    }
    proof {
        assert(nv.take(n as int) =~= nv);
    }
    Ok(children)
}

} // verus!

verus! {

/// What a build reads: the node changes, the index of the last change of each
/// GUID, and the ordered children of each parent.
struct NodeIndex {
    nodes: Vec<Json>,
    by_guid: HashMap<u128, usize>,
    children: HashMap<u128, Vec<(String, u64, u64)>>,
}

impl NodeIndex {
    spec fn nodes_view(&self) -> Seq<JsonV> {
        crate::json::items_view(self.nodes@)
    }

    spec fn well_formed(&self) -> bool {
        let nv = self.nodes_view();
        &&& forall|s: u64, l: u64| #![trigger pack(s, l)] (self.by_guid@.contains_key(pack(s, l)) <==> last_index(nv, (s, l)) is Some)
                && (self.by_guid@.contains_key(pack(s, l)) ==> self.by_guid@[pack(s, l)] as int == last_index(nv, (s, l))->0)
        &&& forall|s: u64, l: u64| #![trigger pack(s, l)] (self.children@.contains_key(pack(s, l)) ==> children_view(self.children@[pack(s, l)]@) == child_entries(nv, (s, l)))
                && (!self.children@.contains_key(pack(s, l)) ==> child_entries(nv, (s, l)).len() == 0)
    }
}

pub open spec fn build_result_view(r: Result<(Json, Layout), FigError>) -> Result<(JsonV, Shape), Seq<char>> {
    match r {
        Ok((t, l)) => Ok((t@, l@)),
        Err(e) => Err(crate::error::error_message(e)),
    }
}

pub open spec fn opt_text(p: Option<String>) -> Option<Seq<char>> {
    match p {
        Some(s) => Some(s@),
        None => None,
    }
}

proof fn lemma_firsts_push(rs: Seq<(JsonV, Shape)>, r: (JsonV, Shape))
    ensures
        firsts(rs.push(r)) == firsts(rs).push(r.0),
        seconds(rs.push(r)) == seconds(rs).push(r.1),
{
    assert(firsts(rs.push(r)) =~= firsts(rs).push(r.0));
    assert(seconds(rs.push(r)) =~= seconds(rs).push(r.1));
}

proof fn lemma_firsts_add(a: Seq<(JsonV, Shape)>, b: Seq<(JsonV, Shape)>)
    ensures
        firsts(a + b) == firsts(a) + firsts(b),
        seconds(a + b) == seconds(a) + seconds(b),
{
    assert(firsts(a + b) =~= firsts(a) + firsts(b));
    assert(seconds(a + b) =~= seconds(a) + seconds(b));
}

fn text_of_guid(g: Guid) -> (r: String)
    ensures
        r@ == gtext(g),
{
    crate::text::guid_string(g.0, g.1)
}

fn node_id_of(prefix: &Option<String>, g: Guid) -> (r: String)
    ensures
        r@ == node_id(opt_text(*prefix), g),
{
    let t = text_of_guid(g);
    match prefix {
        Some(p) => {
            proof {
                reveal_strlit(";");
            }
            let mut s = crate::text::concat(p.as_str(), ";");
            s.append(t.as_str());
            proof {
                assert(s@ =~= p@ + ";"@ + gtext(g));
            }
            s
        },
        None => t,
    }
}

fn expansion_prefix_of(prefix: &Option<String>, g: Guid) -> (r: String)
    ensures
        r@ == expansion_prefix(opt_text(*prefix), g),
{
    match prefix {
        Some(_) => node_id_of(prefix, g),
        None => crate::text::concat("I", text_of_guid(g).as_str()),
    }
}

fn message_with_guid(before: &str, g: Guid, after: &str) -> (r: FigError)
    ensures
        crate::error::error_message(r) == before@ + gtext(g) + after@,
{
    let mut s = crate::text::owned(before);
    s.append(text_of_guid(g).as_str());
    s.append(after);
    proof {
        assert(s@ =~= before@ + gtext(g) + after@);
    }
    FigError::ZipError(s)
}

fn node_type_is_instance(es: &Vec<(String, Json)>) -> (r: bool)
    ensures
        r == (node_type(crate::json::entries_view(es@)) == "INSTANCE"@),
{
    proof {
        reveal_strlit("");
        reveal_strlit("INSTANCE");
        assert(""@ != "INSTANCE"@) by {
            assert(""@.len() == 0);
        }
    }
    match crate::json::entries_find(es, "type") {
        Some(Json::String(t)) => crate::text::str_eq(t.as_str(), "INSTANCE"),
        Some(x) => match x.get("value") {
            Some(Json::String(t)) => crate::text::str_eq(t.as_str(), "INSTANCE"),
            _ => false,
        },
        None => false,
    }
}

fn u64_member_or_zero(v: &Json, key: &str) -> (r: u64)
    ensures
        r == u64_or(ou64(jget(v@, key@)), 0),
{
    match v.get(key) {
        Some(x) => match x.as_u64() {
            Some(u) => u,
            None => 0,
        },
        None => 0,
    }
}

fn instance_symbol_of(es: &Vec<(String, Json)>) -> (r: Option<Guid>)
    ensures
        r == instance_symbol(crate::json::entries_view(es@)),
{
    if node_type_is_instance(es) {
        match crate::json::entries_find(es, "symbolData") {
            Some(sd) => match sd.get("symbolID") {
                Some(sid) => Some((u64_member_or_zero(sid, "sessionID"), u64_member_or_zero(sid, "localID"))),
                None => None,
            },
            None => None,
        }
    } else {
        None
    }
}

/// Builds the children `list` in order, appending each to `out` and its
/// nesting to `kids`.
fn build_children(
    ix: &NodeIndex,
    list: &Vec<(String, u64, u64)>,
    prefix: &Option<String>,
    fuel: usize,
    out: &mut Vec<Json>,
    kids: &mut Vec<Layout>,
) -> (r: Result<(), FigError>)
    requires
        ix.well_formed(),
    ensures
        match build_all(ix.nodes_view(), children_view(list@), opt_text(*prefix), fuel as nat) {
            Ok(rs) => r is Ok && crate::json::items_view(final(out)@) == crate::json::items_view(old(out)@) + firsts(rs)
                && layouts_view(final(kids)@) == layouts_view(old(kids)@) + seconds(rs),
            Err(m) => r matches Err(e) && crate::error::error_message(e) == m,
        },
    decreases fuel, 1nat,
{
    let ghost lv = children_view(list@);
    let ghost o0 = crate::json::items_view(out@);
    let ghost k0 = layouts_view(kids@);
    let ghost nv = ix.nodes_view();
    let ghost p = opt_text(*prefix);
    let mut i: usize = 0;
    proof {
        assert(lv.take(0) =~= Seq::<ChildEntry>::empty());
        assert(firsts(Seq::<(JsonV, Shape)>::empty()) =~= Seq::<JsonV>::empty());
        assert(seconds(Seq::<(JsonV, Shape)>::empty()) =~= Seq::<Shape>::empty());
        assert(o0 + Seq::<JsonV>::empty() =~= o0);
        assert(k0 + Seq::<Shape>::empty() =~= k0);
    }
    while i < list.len()
        invariant
            ix.well_formed(),
            lv == children_view(list@),
            nv == ix.nodes_view(),
            p == opt_text(*prefix),
            0 <= i <= list@.len(),
            build_all(nv, lv.take(i as int), p, fuel as nat) matches Ok(rs)
                && crate::json::items_view(out@) == o0 + firsts(rs)
                && layouts_view(kids@) == k0 + seconds(rs),
        decreases list@.len() - i,
    {
        let ghost t1 = lv.take(i + 1);
        assert(t1.drop_last() =~= lv.take(i as int));
        assert(t1.last() == lv[i as int]);
        let ghost rs = build_all(nv, lv.take(i as int), p, fuel as nat)->Ok_0;
        let g: Guid = (list[i].1, list[i].2);
        match build_node(ix, g, prefix, fuel) {
            Err(e) => {
                proof {
                    lemma_build_all_prefix_err(nv, lv, p, fuel as nat, i + 1);
                }
                return Err(e);
            },
            Ok((t, l)) => {
                let ghost tv = t@;
                let ghost lw = l@;
                proof {
                    crate::json::lemma_items_view_push(out@, t);
                    lemma_layouts_view_push(kids@, l);
                    lemma_firsts_push(rs, (tv, lw));
                }
                out.push(t);
                kids.push(l);
                proof {
                    assert(crate::json::items_view(out@) =~= o0 + firsts(rs.push((tv, lw))));
                    assert(layouts_view(kids@) =~= k0 + seconds(rs.push((tv, lw))));
                }
            },
        }
        i = i + 1;
    }
    proof {
        assert(lv.take(i as int) =~= lv);
    }
    Ok(())
}

proof fn lemma_layouts_view_push(s: Seq<Layout>, l: Layout)
    ensures
        layouts_view(s.push(l)) == layouts_view(s).push(l@),
{
    assert(layouts_view(s.push(l)) =~= layouts_view(s).push(l@));
}

proof fn lemma_build_all_prefix_err(nodes: Seq<JsonV>, list: Seq<ChildEntry>, prefix: Option<Seq<char>>, fuel: nat, k: int)
    requires
        0 <= k <= list.len(),
        build_all(nodes, list.take(k), prefix, fuel) is Err,
    ensures
        build_all(nodes, list, prefix, fuel) == build_all(nodes, list.take(k), prefix, fuel),
    decreases list.len() - k,
{
    if k < list.len() {
        assert(list.drop_last().take(k) =~= list.take(k));
        lemma_build_all_prefix_err(nodes, list.drop_last(), prefix, fuel, k);
    } else {
        assert(list.take(k) =~= list);
    }
}

/// Recursively build a node with its children
fn build_node(ix: &NodeIndex, g: Guid, prefix: &Option<String>, fuel: usize) -> (r: Result<(Json, Layout), FigError>)
    requires
        ix.well_formed(),
    ensures
        build_result_view(r) == build(ix.nodes_view(), g, opt_text(*prefix), fuel as nat),
    decreases fuel, 0nat,
{
    let ghost nv = ix.nodes_view();
    proof {
        lemma_last_index(nv, g);
    }
    let k = pack_exec(g.0, g.1);
    let idx = match ix.by_guid.get(&k) {
        Some(i) => *i,
        None => {
            proof {
                reveal_strlit("Node ");
                reveal_strlit(" not found");
            }
            return Err(message_with_guid("Node ", g, " not found"));
        },
    };
    if fuel == 0 {
        return Err(message_with_guid("Node ", g, " lies below itself"));
    }
    assert(nv[idx as int] == ix.nodes@[idx as int]@);
    let node = ix.nodes[idx].deep_clone();
    match node {
        Json::Object(es) => {
            let mut es = es;
            let ghost es0 = crate::json::entries_view(es@);
            let _ = crate::json::entries_take(&mut es, "parentIndex");
            let current_id = node_id_of(prefix, g);
            crate::json::entries_put(&mut es, crate::text::owned("id"), Json::String(current_id));
            let ghost es2 = crate::json::entries_view(es@);
            let mut children: Vec<Json> = Vec::new();
            let mut kids: Vec<Layout> = Vec::new();
            proof {
                assert(crate::json::items_view(children@) =~= Seq::<JsonV>::empty());
                assert(layouts_view(kids@) =~= Seq::<Shape>::empty());
            }
            let ghost p = opt_text(*prefix);
            let ghost inst: Result<Seq<(JsonV, Shape)>, Seq<char>> = match instance_symbol(es2) {
                Some(sk) => build_all(nv, child_entries(nv, sk), Some(expansion_prefix(p, g)), (fuel - 1) as nat),
                None => Ok(Seq::empty()),
            };
            match instance_symbol_of(&es) {
                Some(sk) => {
                    let sk128 = pack_exec(sk.0, sk.1);
                    let next_prefix = Some(expansion_prefix_of(prefix, g));
                    match ix.children.get(&sk128) {
                        Some(list) => {
                            build_children(ix, list, &next_prefix, fuel - 1, &mut children, &mut kids)?;
                        },
                        None => {
                            proof {
                                assert(child_entries(nv, sk).len() == 0);
                                assert(child_entries(nv, sk) =~= Seq::<ChildEntry>::empty());
                            }
                        },
                    }
                },
                None => {},
            }
            let ghost a = inst->Ok_0;
            proof {
                assert(crate::json::items_view(children@) == firsts(a)) by {
                    assert(Seq::<JsonV>::empty() + firsts(a) =~= firsts(a));
                }
                assert(layouts_view(kids@) == seconds(a)) by {
                    assert(Seq::<Shape>::empty() + seconds(a) =~= seconds(a));
                }
            }
            match ix.children.get(&k) {
                Some(list) => {
                    build_children(ix, list, prefix, fuel - 1, &mut children, &mut kids)?;
                },
                None => {
                    proof {
                        assert(child_entries(nv, g) =~= Seq::<ChildEntry>::empty());
                        assert(firsts(a) + firsts(Seq::<(JsonV, Shape)>::empty()) =~= firsts(a));
                        assert(seconds(a) + seconds(Seq::<(JsonV, Shape)>::empty()) =~= seconds(a));
                    }
                },
            }
            let ghost b = build_all(nv, child_entries(nv, g), p, (fuel - 1) as nat)->Ok_0;
            proof {
                lemma_firsts_add(a, b);
            }
            if children.len() > 0 {
                crate::json::entries_put(&mut es, crate::text::owned("children"), Json::Array(children));
            } else {
                proof {
                    assert(firsts(a + b).len() == 0);
                }
            }
            Ok((Json::Object(es), Layout { children: kids }))
        },
        other => Ok((other, Layout { children: Vec::new() })),
    }
}

/// The tree and the nesting of the built nodes, for the node changes.
pub fn build_tree_layout(node_changes: Vec<Json>) -> (r: Result<(Json, Layout), FigError>)
    ensures
        build_result_view(r) == tree_of(crate::json::items_view(node_changes@)),
{
    let (keys, by_guid) = index_guids(&node_changes)?;
    let children = index_children(&node_changes, &keys)?;
    let n = node_changes.len();
    let ix = NodeIndex { nodes: node_changes, by_guid, children };
    build_node(&ix, (0, 0), &None, n)
}

/// The document tree of the flat list of node changes, rooted at node `0:0`:
/// each node without its `parentIndex`, with its `id` and its `children`
/// ordered by position, instances expanded. Absolute bounding boxes are
/// floating-point arithmetic and are left to the caller, which adds
/// `absoluteBoundingBox` to each node along the nesting that
/// `build_tree_layout` reports.
///
/// Fails with "Node s:l not found" where a node to be built has no node
/// change, and with "Node s:l lies below itself" where the nesting leads
/// from a node back to itself, so that building it would descend without
/// end; a build nests no deeper than there are node changes otherwise.
pub fn build_tree(node_changes: Vec<Json>) -> (r: Result<Json, FigError>)
    ensures
        match r {
            Ok(t) => tree_of(crate::json::items_view(node_changes@)) matches Ok(p) && t@ == p.0,
            Err(e) => tree_of(crate::json::items_view(node_changes@)) == Err::<(JsonV, Shape), Seq<char>>(crate::error::error_message(e)),
        },
{
    match build_tree_layout(node_changes) {
        Ok((t, _)) => Ok(t),
        Err(e) => Err(e),
    }
}

} // verus!

verus! {

/// The children of `p` in the order of the node changes.
pub open spec fn parent_links(nodes: Seq<JsonV>, p: Guid) -> Seq<ChildEntry>
    decreases nodes.len(),
{
    if nodes.len() == 0 {
        Seq::empty()
    } else {
        let r = parent_links(nodes.drop_last(), p);
        match jget(nodes.last(), "parentIndex"@) {
            Some(pi) => if parent_guid_of(pi) == Ok::<Guid, Seq<char>>(p) {
                r.push((position_of(pi), key_of(nodes.last())))
            } else {
                r
            },
            None => r,
        }
    }
}

/// Children ordered by position.
pub open spec fn sorted_by_position(s: Seq<ChildEntry>) -> bool {
    forall|i: int, j: int| 0 <= i < j < s.len() ==> text_le(#[trigger] s[i].0, #[trigger] s[j].0)
}

proof fn lemma_insert_bounded(s: Seq<ChildEntry>, x: ChildEntry, b: Seq<char>)
    requires
        forall|i: int| 0 <= i < s.len() ==> text_le(#[trigger] s[i].0, b),
        text_le(x.0, b),
    ensures
        forall|i: int| 0 <= i < insert_by_position(s, x).len() ==> text_le(
            #[trigger] insert_by_position(s, x)[i].0,
            b,
        ),
        insert_by_position(s, x).len() == s.len() + 1,
    decreases s.len(),
{
    if s.len() > 0 && !text_le(s.last().0, x.0) {
        let t = s.drop_last();
        assert forall|i: int| 0 <= i < t.len() implies text_le(#[trigger] t[i].0, b) by {
            assert(t[i] == s[i]);
        }
        lemma_insert_bounded(t, x, b);
        let r = insert_by_position(t, x);
        assert forall|i: int| 0 <= i < r.push(s.last()).len() implies text_le(
            #[trigger] r.push(s.last())[i].0,
            b,
        ) by {
            if i < r.len() {
                assert(r.push(s.last())[i] == r[i]);
            }
        }
    } else if s.len() > 0 {
        assert forall|i: int| 0 <= i < s.push(x).len() implies text_le(#[trigger] s.push(x)[i].0, b) by {
            if i < s.len() {
                assert(s.push(x)[i] == s[i]);
            }
        }
    }
}

/// Insertion by position keeps the children ordered, and loses and adds
/// nothing but the new child.
pub proof fn lemma_insert_by_position(s: Seq<ChildEntry>, x: ChildEntry)
    requires
        sorted_by_position(s),
    ensures
        sorted_by_position(insert_by_position(s, x)),
        insert_by_position(s, x).to_multiset() == s.to_multiset().insert(x),
    decreases s.len(),
{
    broadcast use vstd::seq_lib::group_to_multiset_ensures;
    if s.len() == 0 {
        assert(seq![x] =~= Seq::<ChildEntry>::empty().push(x));
    } else if text_le(s.last().0, x.0) {
        let r = s.push(x);
        assert forall|i: int, j: int| 0 <= i < j < r.len() implies text_le(
            #[trigger] r[i].0,
            #[trigger] r[j].0,
        ) by {
            if j == s.len() {
                if i < s.len() - 1 {
                    lemma_text_le_trans(s[i].0, s.last().0, x.0);
                }
            }
        }
    } else {
        let t = s.drop_last();
        assert(sorted_by_position(t)) by {
            assert forall|i: int, j: int| 0 <= i < j < t.len() implies text_le(
                #[trigger] t[i].0,
                #[trigger] t[j].0,
            ) by {
                assert(t[i] == s[i] && t[j] == s[j]);
            }
        }
        lemma_insert_by_position(t, x);
        lemma_text_le_total(s.last().0, x.0);
        assert forall|i: int| 0 <= i < t.len() implies text_le(#[trigger] t[i].0, s.last().0) by {
            assert(t[i] == s[i]);
        }
        lemma_insert_bounded(t, x, s.last().0);
        let u = insert_by_position(t, x);
        let r = u.push(s.last());
        assert forall|i: int, j: int| 0 <= i < j < r.len() implies text_le(
            #[trigger] r[i].0,
            #[trigger] r[j].0,
        ) by {
            if j < u.len() {
                assert(r[i] == u[i] && r[j] == u[j]);
            } else {
                assert(r[i] == u[i]);
            }
        }
        assert(t.push(s.last()) =~= s);
        assert(s.to_multiset() == t.to_multiset().insert(s.last()));
        assert(r.to_multiset() =~= s.to_multiset().insert(x));
    }
}

/// The children of every parent are ordered by position, and are exactly
/// the node changes that name it as their parent.
pub proof fn lemma_children_sorted(nodes: Seq<JsonV>, p: Guid)
    ensures
        sorted_by_position(child_entries(nodes, p)),
        child_entries(nodes, p).to_multiset() == parent_links(nodes, p).to_multiset(),
    decreases nodes.len(),
{
    broadcast use vstd::seq_lib::group_to_multiset_ensures;
    if nodes.len() > 0 {
        lemma_children_sorted(nodes.drop_last(), p);
        let r = child_entries(nodes.drop_last(), p);
        if let Some(pi) = jget(nodes.last(), "parentIndex"@) {
            if parent_guid_of(pi) == Ok::<Guid, Seq<char>>(p) {
                lemma_insert_by_position(r, (position_of(pi), key_of(nodes.last())));
            }
        }
    } else {
        assert(Seq::<ChildEntry>::empty().to_multiset() =~= vstd::multiset::Multiset::empty());
    }
}

} // verus!

verus! {

/// Where the node changes make a document, its root is the node `0:0`, and
/// where that node is an object, its `id` is `"0:0"`.
pub proof fn lemma_root_id(nodes: Seq<JsonV>)
    requires
        tree_of(nodes) is Ok,
        lookup(nodes, (0, 0)) matches Some(JsonV::Object(_)),
    ensures
        jget(tree_of(nodes)->Ok_0.0, "id"@) == Some(JsonV::Str("0:0"@)),
{
    lemma_last_index(nodes, (0, 0));
    let g: Guid = (0, 0);
    let es = lookup(nodes, g)->0->Object_0;
    let es1 = entries_remove(es, "parentIndex"@);
    let id = JsonV::Str(node_id(None, g));
    let es2 = entries_insert(es1, "id"@, id);
    crate::json::lemma_insert_get(es1, "id"@, id, "id"@);
    reveal_strlit("0:0");
    reveal_strlit("id");
    reveal_strlit("children");
    assert(crate::text::decimal(0) == seq!['0']);
    assert(gtext(g) =~= "0:0"@);
    let t = tree_of(nodes)->Ok_0.0;
    if t != JsonV::Object(es2) {
        let kids = t->Object_0;
        assert(kids == entries_insert(es2, "children"@, kids.last().1));
        crate::json::lemma_insert_get(es2, "children"@, kids.last().1, "id"@);
        assert("children"@.len() != "id"@.len());
    }
}

} // verus!

verus! {

/// The build stopped at a node nested below itself.
pub open spec fn stopped_for_depth<T>(r: Result<T, Seq<char>>) -> bool {
    exists|h: Guid| r == Err::<T, Seq<char>>(#[trigger] nesting_message(h))
}

/// More depth changes nothing of a build that did not stop for depth.
pub proof fn lemma_build_more_fuel(
    nodes: Seq<JsonV>,
    g: Guid,
    prefix: Option<Seq<char>>,
    fuel: nat,
    more: nat,
)
    requires
        fuel <= more,
        !stopped_for_depth(build(nodes, g, prefix, fuel)),
    ensures
        build(nodes, g, prefix, more) == build(nodes, g, prefix, fuel),
    decreases fuel, 0nat,
{
    if let Some(node) = lookup(nodes, g) {
        if fuel == 0 {
            assert(build(nodes, g, prefix, fuel) == Err::<(JsonV, Shape), Seq<char>>(nesting_message(g)));
        } else if let JsonV::Object(es) = node {
            let es1 = entries_remove(es, "parentIndex"@);
            let es2 = entries_insert(es1, "id"@, JsonV::Str(node_id(prefix, g)));
            let f1 = (fuel - 1) as nat;
            let m1 = (more - 1) as nat;
            if let Some(sk) = instance_symbol(es2) {
                let p2 = Some(expansion_prefix(prefix, g));
                let ce = child_entries(nodes, sk);
                if let Err(e) = build_all(nodes, ce, p2, f1) {
                    assert(build(nodes, g, prefix, fuel) == Err::<(JsonV, Shape), Seq<char>>(e));
                }
                lemma_build_all_more_fuel(nodes, ce, p2, f1, m1);
            }
            let inst = match instance_symbol(es2) {
                Some(sk) => build_all(nodes, child_entries(nodes, sk), Some(expansion_prefix(prefix, g)), f1),
                None => Ok(Seq::empty()),
            };
            if inst is Ok {
                let ce = child_entries(nodes, g);
                if let Err(e) = build_all(nodes, ce, prefix, f1) {
                    assert(build(nodes, g, prefix, fuel) == Err::<(JsonV, Shape), Seq<char>>(e));
                }
                lemma_build_all_more_fuel(nodes, ce, prefix, f1, m1);
            }
        }
    }
}

pub proof fn lemma_build_all_more_fuel(
    nodes: Seq<JsonV>,
    list: Seq<ChildEntry>,
    prefix: Option<Seq<char>>,
    fuel: nat,
    more: nat,
)
    requires
        fuel <= more,
        !stopped_for_depth(build_all(nodes, list, prefix, fuel)),
    ensures
        build_all(nodes, list, prefix, more) == build_all(nodes, list, prefix, fuel),
    decreases fuel, list.len(),
{
    if list.len() > 0 {
        let front = build_all(nodes, list.drop_last(), prefix, fuel);
        if let Err(e) = front {
            assert(build_all(nodes, list, prefix, fuel) == Err::<Seq<(JsonV, Shape)>, Seq<char>>(e));
        }
        lemma_build_all_more_fuel(nodes, list.drop_last(), prefix, fuel, more);
        if front is Ok {
            let last = build(nodes, list.last().1, prefix, fuel);
            if let Err(e) = last {
                assert(build_all(nodes, list, prefix, fuel) == Err::<Seq<(JsonV, Shape)>, Seq<char>>(e));
            }
            lemma_build_more_fuel(nodes, list.last().1, prefix, fuel, more);
        }
    }
}

/// A document that did not stop for depth is the same however deep the
/// build may go: the bound of one level per node change only ever cuts off
/// a build that would have gone on.
pub proof fn lemma_tree_depth_bound(nodes: Seq<JsonV>, more: nat)
    requires
        nodes.len() <= more,
        guid_error(nodes) is None,
        parent_error(nodes) is None,
        !stopped_for_depth(tree_of(nodes)),
    ensures
        build(nodes, (0, 0), None, more) == tree_of(nodes),
{
    lemma_build_more_fuel(nodes, (0, 0), None, nodes.len(), more);
}

} // verus!

verus! {

/// The nodes that a node lists as its `children`.
pub open spec fn children_of(t: JsonV) -> Seq<JsonV> {
    match jget(t, "children"@) {
        Some(JsonV::Array(cs)) => cs,
        _ => Seq::empty(),
    }
}

/// A node that is an object has an `id` and no `parentIndex`.
pub open spec fn node_cleaned(t: JsonV) -> bool {
    t is Object ==> entries_has(t->Object_0, "id"@) && !entries_has(t->Object_0, "parentIndex"@)
}

/// `t` and every node below it, along the nesting `s`, is cleaned.
pub open spec fn tree_cleaned(t: JsonV, s: Shape) -> bool
    decreases s, 0nat,
{
    node_cleaned(t) && kids_cleaned(children_of(t), s.kids)
}

pub open spec fn kids_cleaned(cs: Seq<JsonV>, ks: Seq<Shape>) -> bool
    decreases ks, ks.len(),
{
    if ks.len() == 0 {
        true
    } else {
        cs.len() == ks.len() && kids_cleaned(cs.drop_last(), ks.drop_last()) && tree_cleaned(
            cs.last(),
            ks.last(),
        )
    }
}

proof fn lemma_kids_cleaned(rs: Seq<(JsonV, Shape)>)
    requires
        forall|i: int| 0 <= i < rs.len() ==> tree_cleaned(#[trigger] rs[i].0, rs[i].1),
    ensures
        kids_cleaned(firsts(rs), seconds(rs)),
    decreases rs.len(),
{
    if rs.len() > 0 {
        let t = rs.drop_last();
        assert forall|i: int| 0 <= i < t.len() implies tree_cleaned(#[trigger] t[i].0, t[i].1) by {
            assert(t[i] == rs[i]);
        }
        lemma_kids_cleaned(t);
        assert(firsts(rs).drop_last() =~= firsts(t));
        assert(seconds(rs).drop_last() =~= seconds(t));
        assert(rs[rs.len() - 1] == rs.last());
    }
}

proof fn lemma_build_cleaned(nodes: Seq<JsonV>, g: Guid, prefix: Option<Seq<char>>, fuel: nat)
    requires
        build(nodes, g, prefix, fuel) is Ok,
    ensures
        tree_cleaned(build(nodes, g, prefix, fuel)->Ok_0.0, build(nodes, g, prefix, fuel)->Ok_0.1),
    decreases fuel, 0nat,
{
    let node = lookup(nodes, g)->0;
    if let JsonV::Object(es) = node {
        let es1 = entries_remove(es, "parentIndex"@);
        let es2 = entries_insert(es1, "id"@, JsonV::Str(node_id(prefix, g)));
        let f1 = (fuel - 1) as nat;
        let inst = match instance_symbol(es2) {
            Some(sk) => build_all(nodes, child_entries(nodes, sk), Some(expansion_prefix(prefix, g)), f1),
            None => Ok(Seq::empty()),
        };
        if let Some(sk) = instance_symbol(es2) {
            lemma_build_all_cleaned(nodes, child_entries(nodes, sk), Some(expansion_prefix(prefix, g)), f1);
        }
        let a = inst->Ok_0;
        let b = build_all(nodes, child_entries(nodes, g), prefix, f1)->Ok_0;
        lemma_build_all_cleaned(nodes, child_entries(nodes, g), prefix, f1);
        let all = a + b;
        assert forall|i: int| 0 <= i < all.len() implies tree_cleaned(#[trigger] all[i].0, all[i].1) by {
            if i < a.len() {
                assert(all[i] == a[i]);
            } else {
                assert(all[i] == b[i - a.len()]);
            }
        }
        lemma_kids_cleaned(all);
        reveal_strlit("id");
        reveal_strlit("parentIndex");
        reveal_strlit("children");
        assert("id"@.len() != "parentIndex"@.len());
        assert("children"@.len() != "parentIndex"@.len());
        assert("children"@.len() != "id"@.len());
        crate::json::lemma_has_remove(es, "parentIndex"@, "parentIndex"@);
        crate::json::lemma_has_insert(es1, "id"@, JsonV::Str(node_id(prefix, g)), "parentIndex"@);
        crate::json::lemma_has_insert(es1, "id"@, JsonV::Str(node_id(prefix, g)), "id"@);
        if all.len() > 0 {
            let kids = JsonV::Array(firsts(all));
            crate::json::lemma_has_insert(es2, "children"@, kids, "parentIndex"@);
            crate::json::lemma_has_insert(es2, "children"@, kids, "id"@);
            crate::json::lemma_insert_get(es2, "children"@, kids, "children"@);
        }
    }
}

proof fn lemma_build_all_cleaned(nodes: Seq<JsonV>, list: Seq<ChildEntry>, prefix: Option<Seq<char>>, fuel: nat)
    requires
        build_all(nodes, list, prefix, fuel) is Ok,
    ensures
        forall|i: int|
            0 <= i < build_all(nodes, list, prefix, fuel)->Ok_0.len() ==> tree_cleaned(
                #[trigger] build_all(nodes, list, prefix, fuel)->Ok_0[i].0,
                build_all(nodes, list, prefix, fuel)->Ok_0[i].1,
            ),
    decreases fuel, list.len(),
{
    if list.len() > 0 {
        lemma_build_all_cleaned(nodes, list.drop_last(), prefix, fuel);
        lemma_build_cleaned(nodes, list.last().1, prefix, fuel);
        let rs = build_all(nodes, list.drop_last(), prefix, fuel)->Ok_0;
        let r = build(nodes, list.last().1, prefix, fuel)->Ok_0;
        assert forall|i: int| 0 <= i < rs.push(r).len() implies tree_cleaned(
            #[trigger] rs.push(r)[i].0,
            rs.push(r)[i].1,
        ) by {
            if i < rs.len() {
                assert(rs.push(r)[i] == rs[i]);
            }
        }
    }
}

/// Every node of the document tree, along the nesting that the build
/// reports, has an `id` and no `parentIndex`.
pub proof fn lemma_tree_cleaned(nodes: Seq<JsonV>)
    requires
        tree_of(nodes) is Ok,
    ensures
        tree_cleaned(tree_of(nodes)->Ok_0.0, tree_of(nodes)->Ok_0.1),
{
    lemma_build_cleaned(nodes, (0, 0), None, nodes.len());
}

} // verus!

verus! {

/// Some child in `list` is `h`.
pub open spec fn lists(list: Seq<ChildEntry>, h: Guid) -> bool {
    exists|k: int| 0 <= k < list.len() && #[trigger] list[k].1 == h
}

/// The build of node `g` builds node `h` right below it: `h` is a child of
/// `g`, or, where `g` is an instance, a child of its symbol.
pub open spec fn builds_below(nodes: Seq<JsonV>, g: Guid, h: Guid) -> bool {
    match lookup(nodes, g) {
        Some(JsonV::Object(es)) => lists(child_entries(nodes, g), h) || match instance_symbol(es) {
            Some(sk) => lists(child_entries(nodes, sk), h),
            None => false,
        },
        _ => false,
    }
}

proof fn lemma_instance_symbol_kept(es: Entries, x: JsonV)
    ensures
        instance_symbol(entries_insert(entries_remove(es, "parentIndex"@), "id"@, x)) == instance_symbol(es),
{
    let es1 = entries_remove(es, "parentIndex"@);
    let es2 = entries_insert(es1, "id"@, x);
    reveal_strlit("parentIndex");
    reveal_strlit("id");
    reveal_strlit("type");
    reveal_strlit("symbolData");
    assert("type"@.len() == 4 && "symbolData"@.len() == 10);
    assert("parentIndex"@.len() == 11 && "id"@.len() == 2);
    crate::json::lemma_remove_other(es, "parentIndex"@, "type"@);
    crate::json::lemma_remove_other(es, "parentIndex"@, "symbolData"@);
    crate::json::lemma_insert_get(es1, "id"@, x, "type"@);
    crate::json::lemma_insert_get(es1, "id"@, x, "symbolData"@);
    assert(node_type(es2) == node_type(es));
}

/// The messages of a missing node and of a node below itself differ.
proof fn lemma_not_found_is_no_stop(g: Guid)
    ensures
        !stopped_for_depth(Err::<(JsonV, Shape), Seq<char>>(not_found_message(g))),
{
    reveal_strlit(" not found");
    reveal_strlit(" lies below itself");
    assert forall|h: Guid| Err::<(JsonV, Shape), Seq<char>>(not_found_message(g)) != Err::<
        (JsonV, Shape),
        Seq<char>,
    >(#[trigger] nesting_message(h)) by {
        let a = not_found_message(g);
        let b = nesting_message(h);
        assert(a.last() == 'd');
        assert(b.last() == 'f');
    }
}

/// A build of a list in which some child's build fails fails.
proof fn lemma_member_err(nodes: Seq<JsonV>, list: Seq<ChildEntry>, prefix: Option<Seq<char>>, fuel: nat, k: int)
    requires
        0 <= k < list.len(),
        build(nodes, list[k].1, prefix, fuel) is Err,
    ensures
        build_all(nodes, list, prefix, fuel) is Err,
    decreases list.len(),
{
    if k < list.len() - 1 {
        assert(list.drop_last()[k] == list[k]);
        lemma_member_err(nodes, list.drop_last(), prefix, fuel, k);
    }
}

/// Where every build of `h` one level less deep fails, so does the build
/// of a node that builds `h` right below it.
proof fn lemma_err_from_below(nodes: Seq<JsonV>, g: Guid, h: Guid, prefix: Option<Seq<char>>, fuel: nat)
    requires
        fuel > 0,
        builds_below(nodes, g, h),
        forall|q: Option<Seq<char>>| #[trigger] build(nodes, h, q, (fuel - 1) as nat) is Err,
    ensures
        build(nodes, g, prefix, fuel) is Err,
{
    let es = lookup(nodes, g)->0->Object_0;
    let es1 = entries_remove(es, "parentIndex"@);
    let es2 = entries_insert(es1, "id"@, JsonV::Str(node_id(prefix, g)));
    lemma_instance_symbol_kept(es, JsonV::Str(node_id(prefix, g)));
    let f1 = (fuel - 1) as nat;
    let ce = child_entries(nodes, g);
    if lists(ce, h) {
        let k = choose|k: int| 0 <= k < ce.len() && #[trigger] ce[k].1 == h;
        assert(build(nodes, ce[k].1, prefix, f1) is Err);
        lemma_member_err(nodes, ce, prefix, f1, k);
    } else {
        let sk = instance_symbol(es)->0;
        let se = child_entries(nodes, sk);
        let p2 = Some(expansion_prefix(prefix, g));
        let k = choose|k: int| 0 <= k < se.len() && #[trigger] se[k].1 == h;
        assert(build(nodes, se[k].1, p2, f1) is Err);
        lemma_member_err(nodes, se, p2, f1, k);
    }
}

/// A chain of nodes each built right below the one before.
pub open spec fn is_chain(nodes: Seq<JsonV>, c: Seq<Guid>) -> bool {
    forall|k: int| 0 <= k < c.len() - 1 ==> builds_below(nodes, #[trigger] c[k], c[k + 1])
}

/// No build of a node on a cycle completes, however deep it may go.
proof fn lemma_cycle_never_completes(nodes: Seq<JsonV>, c: Seq<Guid>, fuel: nat)
    requires
        c.len() >= 2,
        c[0] == c[c.len() - 1],
        is_chain(nodes, c),
    ensures
        forall|k: int, q: Option<Seq<char>>| 0 <= k < c.len() ==> #[trigger] build(nodes, c[k], q, fuel) is Err,
    decreases fuel,
{
    assert forall|k: int, q: Option<Seq<char>>| 0 <= k < c.len() implies #[trigger] build(nodes, c[k], q, fuel) is Err by {
        let kk = if k == c.len() - 1 { 0 } else { k };
        assert(c[kk] == c[k]);
        assert(builds_below(nodes, c[kk], c[kk + 1]));
        if fuel == 0 {
        } else {
            lemma_cycle_never_completes(nodes, c, (fuel - 1) as nat);
            assert forall|q2: Option<Seq<char>>| #[trigger] build(nodes, c[kk + 1], q2, (fuel - 1) as nat) is Err by {
            }
            lemma_err_from_below(nodes, c[kk], c[kk + 1], q, fuel);
        }
    }
}

/// Where a build stops for depth, the chain of nodes down to the node where
/// it stopped.
proof fn lemma_stop_chain(nodes: Seq<JsonV>, g: Guid, prefix: Option<Seq<char>>, fuel: nat) -> (c: Seq<Guid>)
    requires
        stopped_for_depth(build(nodes, g, prefix, fuel)),
    ensures
        c.len() == fuel + 1,
        c[0] == g,
        is_chain(nodes, c),
        forall|k: int| 0 <= k < c.len() ==> #[trigger] lookup(nodes, c[k]) is Some,
    decreases fuel, 0nat,
{
    if lookup(nodes, g) is None {
        lemma_not_found_is_no_stop(g);
    }
    let node = lookup(nodes, g)->0;
    if fuel == 0 {
        seq![g]
    } else {
        let es = node->Object_0;
        let es1 = entries_remove(es, "parentIndex"@);
        let es2 = entries_insert(es1, "id"@, JsonV::Str(node_id(prefix, g)));
        lemma_instance_symbol_kept(es, JsonV::Str(node_id(prefix, g)));
        let f1 = (fuel - 1) as nat;
        let inst = match instance_symbol(es2) {
            Some(sk) => build_all(nodes, child_entries(nodes, sk), Some(expansion_prefix(prefix, g)), f1),
            None => Ok(Seq::empty()),
        };
        let rest = if inst is Err {
            let sk = instance_symbol(es2)->0;
            assert(build(nodes, g, prefix, fuel) == Err::<(JsonV, Shape), Seq<char>>(inst->Err_0));
            lemma_stop_chain_all(nodes, child_entries(nodes, sk), Some(expansion_prefix(prefix, g)), f1)
        } else {
            let b = build_all(nodes, child_entries(nodes, g), prefix, f1);
            assert(b is Err);
            assert(build(nodes, g, prefix, fuel) == Err::<(JsonV, Shape), Seq<char>>(b->Err_0));
            lemma_stop_chain_all(nodes, child_entries(nodes, g), prefix, f1)
        };
        let c = seq![g] + rest;
        assert forall|k: int| 0 <= k < c.len() - 1 implies builds_below(nodes, #[trigger] c[k], c[k + 1]) by {
            if k > 0 {
                assert(c[k] == rest[k - 1] && c[k + 1] == rest[k]);
            } else {
                assert(c[1] == rest[0]);
            }
        }
        assert forall|k: int| 0 <= k < c.len() implies #[trigger] lookup(nodes, c[k]) is Some by {
            if k > 0 {
                assert(c[k] == rest[k - 1]);
            }
        }
        c
    }
}

proof fn lemma_stop_chain_all(nodes: Seq<JsonV>, list: Seq<ChildEntry>, prefix: Option<Seq<char>>, fuel: nat) -> (c: Seq<Guid>)
    requires
        stopped_for_depth(build_all(nodes, list, prefix, fuel)),
    ensures
        c.len() == fuel + 1,
        lists(list, c[0]),
        is_chain(nodes, c),
        forall|k: int| 0 <= k < c.len() ==> #[trigger] lookup(nodes, c[k]) is Some,
    decreases fuel, list.len(),
{
    let front = build_all(nodes, list.drop_last(), prefix, fuel);
    if front is Err {
        assert(build_all(nodes, list, prefix, fuel) == Err::<Seq<(JsonV, Shape)>, Seq<char>>(front->Err_0));
        let c = lemma_stop_chain_all(nodes, list.drop_last(), prefix, fuel);
        let k = choose|k: int| 0 <= k < list.drop_last().len() && #[trigger] list.drop_last()[k].1 == c[0];
        assert(list[k] == list.drop_last()[k]);
        c
    } else {
        let last = build(nodes, list.last().1, prefix, fuel);
        assert(build_all(nodes, list, prefix, fuel) == Err::<Seq<(JsonV, Shape)>, Seq<char>>(last->Err_0));
        let c = lemma_stop_chain(nodes, list.last().1, prefix, fuel);
        assert(list[list.len() - 1].1 == c[0]);
        c
    }
}

} // verus!

verus! {

/// A chain longer than the node changes are many names some node twice.
proof fn lemma_chain_repeats(nodes: Seq<JsonV>, c: Seq<Guid>) -> (ij: (int, int))
    requires
        c.len() > nodes.len(),
        forall|k: int| 0 <= k < c.len() ==> #[trigger] lookup(nodes, c[k]) is Some,
    ensures
        0 <= ij.0 < ij.1 < c.len(),
        c[ij.0] == c[ij.1],
{
    let n = nodes.len() as int;
    let s = Seq::new(c.len(), |k: int| last_index(nodes, c[k])->0);
    assert forall|k: int| 0 <= k < s.len() implies 0 <= #[trigger] s[k] < n && guid_of(nodes[s[k]])
        == Ok::<Guid, Seq<char>>(c[k]) by {
        assert(lookup(nodes, c[k]) is Some);
        assert(last_index(nodes, c[k]) is Some);
        lemma_last_index(nodes, c[k]);
    }
    if s.no_duplicates() {
        s.unique_seq_to_set();
        vstd::set_lib::lemma_int_range(0, n);
        assert(s.to_set().subset_of(vstd::set_lib::set_int_range(0, n))) by {
            assert forall|x: int| s.to_set().contains(x) implies vstd::set_lib::set_int_range(0, n).contains(x) by {
                let k = choose|k: int| 0 <= k < s.len() && s[k] == x;
                assert(0 <= s[k] < n);
            }
        }
        vstd::set_lib::lemma_len_subset(s.to_set(), vstd::set_lib::set_int_range(0, n));
        assert(false);
    }
    let (i, j) = choose|i: int, j: int| 0 <= i < s.len() && 0 <= j < s.len() && i != j && s[i] == s[j];
    assert(guid_of(nodes[s[i]]) == Ok::<Guid, Seq<char>>(c[i]));
    assert(guid_of(nodes[s[j]]) == Ok::<Guid, Seq<char>>(c[j]));
    if i < j {
        (i, j)
    } else {
        (j, i)
    }
}

proof fn lemma_err_up_the_chain(nodes: Seq<JsonV>, c: Seq<Guid>, m: int, top: int)
    requires
        0 <= m <= top < c.len(),
        is_chain(nodes, c),
        forall|k: int| 0 <= k < c.len() ==> #[trigger] lookup(nodes, c[k]) is Some,
        forall|f: nat, q: Option<Seq<char>>| #[trigger] build(nodes, c[top], q, f) is Err,
    ensures
        forall|f: nat, q: Option<Seq<char>>| #[trigger] build(nodes, c[m], q, f) is Err,
    decreases top - m,
{
    if m < top {
        lemma_err_up_the_chain(nodes, c, m + 1, top);
        assert forall|f: nat, q: Option<Seq<char>>| #[trigger] build(nodes, c[m], q, f) is Err by {
            assert(lookup(nodes, c[m]) is Some);
            if f > 0 {
                assert(builds_below(nodes, c[m], c[m + 1]));
                assert forall|q2: Option<Seq<char>>| #[trigger] build(nodes, c[m + 1], q2, (f - 1) as nat) is Err by {}
                lemma_err_from_below(nodes, c[m], c[m + 1], q, f);
            }
        }
    }
}

/// A build that stops for depth although it may go one level deeper for
/// each node change has met a node nested below itself: however deep it
/// were allowed to go, it would not complete.
pub proof fn lemma_depth_stop_never_completes(
    nodes: Seq<JsonV>,
    g: Guid,
    prefix: Option<Seq<char>>,
    fuel: nat,
    more: nat,
)
    requires
        nodes.len() <= fuel,
        stopped_for_depth(build(nodes, g, prefix, fuel)),
    ensures
        build(nodes, g, prefix, more) is Err,
{
    let c = lemma_stop_chain(nodes, g, prefix, fuel);
    let (i, j) = lemma_chain_repeats(nodes, c);
    let cyc = c.subrange(i, j + 1);
    assert(is_chain(nodes, cyc)) by {
        assert forall|k: int| 0 <= k < cyc.len() - 1 implies builds_below(nodes, #[trigger] cyc[k], cyc[k + 1]) by {
            assert(cyc[k] == c[i + k] && cyc[k + 1] == c[i + k + 1]);
        }
    }
    assert forall|f: nat, q: Option<Seq<char>>| #[trigger] build(nodes, c[i], q, f) is Err by {
        lemma_cycle_never_completes(nodes, cyc, f);
        assert(cyc[0] == c[i]);
    }
    lemma_err_up_the_chain(nodes, c, 0, i);
    assert(build(nodes, c[0], prefix, more) is Err);
}

proof fn lemma_guid_error_is_no_stop(nodes: Seq<JsonV>)
    ensures
        guid_error(nodes) matches Some(m) ==> m.last() == 'd',
        parent_error(nodes) matches Some(m) ==> m.last() == 'd' || m.last() == 'x',
    decreases nodes.len(),
{
    reveal_strlit("Node missing guid field");
    reveal_strlit("Invalid sessionID in guid");
    reveal_strlit("Invalid localID in guid");
    reveal_strlit("parentIndex missing guid field");
    reveal_strlit("Invalid sessionID in parentIndex");
    reveal_strlit("Invalid localID in parentIndex");
    if nodes.len() > 0 {
        lemma_guid_error_is_no_stop(nodes.drop_last());
    }
}

/// Where the document tree stops for depth, no depth would let it complete.
pub proof fn lemma_tree_stop_never_completes(nodes: Seq<JsonV>, more: nat)
    requires
        stopped_for_depth(tree_of(nodes)),
    ensures
        build(nodes, (0, 0), None, more) is Err,
{
    lemma_guid_error_is_no_stop(nodes);
    reveal_strlit(" lies below itself");
    let h = choose|h: Guid| tree_of(nodes) == Err::<(JsonV, Shape), Seq<char>>(#[trigger] nesting_message(h));
    assert(nesting_message(h).last() == 'f');
    lemma_depth_stop_never_completes(nodes, (0, 0), None, nodes.len(), more);
}

} // verus!
