//! The nesting that a build reports, held against the tree it built.
use vstd::prelude::*;
use crate::json::{entries_insert, entries_remove, JsonV};
use crate::schema::tree::{
    build, build_all, child_entries, children_of, expansion_prefix, firsts, instance_symbol, last_index,
    lemma_last_index, lookup, node_id, seconds, tree_of, ChildEntry, Guid, Shape,
};

verus! {

/// The nesting `s` matches the node `t`: one kid per node that `t` lists as
/// its `children`, in order, each matching its node, at every depth.
pub open spec fn shape_fits(t: JsonV, s: Shape) -> bool
    decreases s,
{
    &&& children_of(t).len() == s.kids.len()
    &&& forall|i: int| #![trigger s.kids[i]] 0 <= i < s.kids.len() ==> shape_fits(children_of(t)[i], s.kids[i])
}

/// No node change lists `children` of its own.
pub open spec fn flat_changes(nodes: Seq<JsonV>) -> bool {
    forall|i: int| 0 <= i < nodes.len() ==> #[trigger] children_of(nodes[i]).len() == 0
}

proof fn lemma_build_fits(nodes: Seq<JsonV>, g: Guid, prefix: Option<Seq<char>>, fuel: nat)
    requires
        flat_changes(nodes),
        build(nodes, g, prefix, fuel) is Ok,
    ensures
        shape_fits(build(nodes, g, prefix, fuel)->Ok_0.0, build(nodes, g, prefix, fuel)->Ok_0.1),
    decreases fuel, 0nat,
{
    lemma_last_index(nodes, g);
    let ix = last_index(nodes, g)->0;
    let node = lookup(nodes, g)->0;
    assert(node == nodes[ix]);
    assert(children_of(nodes[ix]).len() == 0);
    if let JsonV::Object(es) = node {
        let es1 = entries_remove(es, "parentIndex"@);
        let es2 = entries_insert(es1, "id"@, JsonV::Str(node_id(prefix, g)));
        let f1 = (fuel - 1) as nat;
        let inst = match instance_symbol(es2) {
            Some(sk) => build_all(nodes, child_entries(nodes, sk), Some(expansion_prefix(prefix, g)), f1),
            None => Ok(Seq::empty()),
        };
        if let Some(sk) = instance_symbol(es2) {
            lemma_build_all_fits(nodes, child_entries(nodes, sk), Some(expansion_prefix(prefix, g)), f1);
        }
        let a = inst->Ok_0;
        let b = build_all(nodes, child_entries(nodes, g), prefix, f1)->Ok_0;
        lemma_build_all_fits(nodes, child_entries(nodes, g), prefix, f1);
        let all = a + b;
        reveal_strlit("id");
        reveal_strlit("parentIndex");
        reveal_strlit("children");
        assert("children"@.len() != "parentIndex"@.len());
        assert("children"@.len() != "id"@.len());
        crate::json::lemma_remove_other(es, "parentIndex"@, "children"@);
        crate::json::lemma_insert_get(es1, "id"@, JsonV::Str(node_id(prefix, g)), "children"@);
        if all.len() > 0 {
            let kids = JsonV::Array(firsts(all));
            crate::json::lemma_insert_get(es2, "children"@, kids, "children"@);
            let r = build(nodes, g, prefix, fuel)->Ok_0;
            assert(children_of(r.0) == firsts(all));
            assert(r.1.kids == seconds(all));
            assert forall|i: int| #![trigger r.1.kids[i]] 0 <= i < r.1.kids.len() implies shape_fits(
                children_of(r.0)[i],
                r.1.kids[i],
            ) by {
                if i < a.len() {
                    assert(all[i] == a[i]);
                } else {
                    assert(all[i] == b[i - a.len()]);
                }
            }
        }
    }
}

proof fn lemma_build_all_fits(nodes: Seq<JsonV>, list: Seq<ChildEntry>, prefix: Option<Seq<char>>, fuel: nat)
    requires
        flat_changes(nodes),
        build_all(nodes, list, prefix, fuel) is Ok,
    ensures
        forall|i: int|
            0 <= i < build_all(nodes, list, prefix, fuel)->Ok_0.len() ==> shape_fits(
                #[trigger] build_all(nodes, list, prefix, fuel)->Ok_0[i].0,
                build_all(nodes, list, prefix, fuel)->Ok_0[i].1,
            ),
    decreases fuel, list.len(),
{
    if list.len() > 0 {
        lemma_build_all_fits(nodes, list.drop_last(), prefix, fuel);
        lemma_build_fits(nodes, list.last().1, prefix, fuel);
        let rs = build_all(nodes, list.drop_last(), prefix, fuel)->Ok_0;
        let r = build(nodes, list.last().1, prefix, fuel)->Ok_0;
        assert forall|i: int| 0 <= i < rs.push(r).len() implies shape_fits(
            #[trigger] rs.push(r)[i].0,
            rs.push(r)[i].1,
        ) by {
            if i < rs.len() {
                assert(rs.push(r)[i] == rs[i]);
            }
        }
    }
}

/// The nesting reported with the document tree matches the tree: where no
/// node change lists `children` of its own, every node of the tree, the
/// copies that expand an instance included, has one entry in the nesting
/// per node in its `children`, in the same order, at every depth.
pub proof fn lemma_tree_shape_fits(nodes: Seq<JsonV>)
    requires
        flat_changes(nodes),
        tree_of(nodes) is Ok,
    ensures
        shape_fits(tree_of(nodes)->Ok_0.0, tree_of(nodes)->Ok_0.1),
{
    lemma_build_fits(nodes, (0, 0), None, nodes.len());
}

} // verus!
