//! The layer list: every node of every page in depth-first order, and whether
//! a node can move among its siblings.
use std::collections::HashMap;
use vstd::prelude::*;

use crate::document::{find_first, has_parent, is_parent, lemma_find_first, Document, Node, Page};
use crate::export::{kid_bound, kids_below};
use crate::walk::{ends_from, kids_in, ranked_on};
use crate::ids::NodeId;
use crate::style::kind_icon;

verus! {

broadcast use vstd::std_specs::hash::group_hash_axioms;

/// One row of the layer list.
#[derive(Debug, Clone)]
pub struct LayerItem {
    pub id: NodeId,
    pub depth: u32,
    pub name: String,
    pub icon: &'static str,
}

/// `item` shows the stored node `id` at `depth`: its id, depth, name and icon.
pub open spec fn item_matches(item: LayerItem, nodes: Map<u128, Node>, row: (NodeId, u32)) -> bool {
    &&& item.id == row.0
    &&& item.depth == row.1
    &&& item.name == nodes[row.0.0].name
    &&& item.icon@ == kind_icon(nodes[row.0.0].kind)
}

/// `items` shows `rows`, one item per row.
pub open spec fn items_match(items: Seq<LayerItem>, nodes: Map<u128, Node>, rows: Seq<(NodeId, u32)>) -> bool {
    &&& items.len() == rows.len()
    &&& forall|i: int| 0 <= i < items.len() ==> item_matches(#[trigger] items[i], nodes, rows[i])
}

/// The (id, depth) rows of `id` at `depth` and of its stored descendants,
/// depth first, for a node whose stored children rank below `b`.
pub open spec fn rows_of(nodes: Map<u128, Node>, rank: Map<u128, nat>, id: NodeId, depth: u32, b: nat) -> Seq<(NodeId, u32)>
    decreases b, 1nat, 0nat,
{
    if !nodes.contains_key(id.0) {
        Seq::empty()
    } else {
        seq![(id, depth)] + rows_of_kids(nodes, rank, nodes[id.0].children@, (depth + 1) as u32, b)
    }
}

/// The rows of each child in `kids` (those with rank below `b`), in order.
pub open spec fn rows_of_kids(nodes: Map<u128, Node>, rank: Map<u128, nat>, kids: Seq<NodeId>, depth: u32, b: nat) -> Seq<(NodeId, u32)>
    decreases b, 0nat, kids.len(),
{
    if kids.len() == 0 {
        Seq::empty()
    } else {
        let rest = rows_of_kids(nodes, rank, kids.drop_last(), depth, b);
        let k = kids.last();
        if nodes.contains_key(k.0) && rank[k.0] < b {
            rest + rows_of(nodes, rank, k, depth, rank[k.0])
        } else {
            rest
        }
    }
}

fn collect_items(
    nodes: &HashMap<u128, Node>,
    id: NodeId,
    depth: u32,
    out: &mut Vec<LayerItem>,
    Ghost(rank): Ghost<Map<u128, nat>>,
    Ghost(s): Ghost<Set<u128>>,
    Ghost(b): Ghost<nat>,
)
    requires
        ranked_on(nodes@, true, rank, s),
        nodes@.contains_key(id.0) ==> s.contains(id.0) && kids_below(nodes@, rank, nodes@[id.0].children@, b),
    ensures
        final(out)@.len() >= old(out)@.len(),
        final(out)@.subrange(0, old(out)@.len() as int) == old(out)@,
        items_match(
            final(out)@.subrange(old(out)@.len() as int, final(out)@.len() as int),
            nodes@,
            rows_of(nodes@, rank, id, depth, b),
        ),
    decreases b,
{
    let ghost start = out@;
    match nodes.get(&id.0) {
        None => {
            assert(out@.subrange(start.len() as int, out@.len() as int) =~= Seq::<LayerItem>::empty());
            assert(out@.subrange(0, start.len() as int) =~= start);
        },
        Some(node) => {
            out.push(LayerItem { id, depth, name: node.name.clone(), icon: node.kind.icon() });
            let next = depth.wrapping_add(1);
            assert(next == (depth + 1) as u32) by (bit_vector)
                requires
                    next == if depth == 0xffff_ffffu32 { 0u32 } else { (depth + 1) as u32 },
            ;
            let ghost first = out@;
            let mut i: usize = 0;
            while i < node.children.len()
                invariant
                    i <= node.children@.len(),
                    *node == nodes@[id.0],
                    nodes@.contains_key(id.0),
                    s.contains(id.0),
                    ranked_on(nodes@, true, rank, s),
                    kids_below(nodes@, rank, node.children@, b),
                    first.len() == start.len() + 1,
                    first.subrange(0, start.len() as int) == start,
                    item_matches(first[start.len() as int], nodes@, (id, depth)),
                    out@.len() >= first.len(),
                    out@.subrange(0, first.len() as int) == first,
                    items_match(
                        out@.subrange(first.len() as int, out@.len() as int),
                        nodes@,
                        rows_of_kids(nodes@, rank, node.children@.take(i as int), next, b),
                    ),
                decreases node.children@.len() - i,
            {
                let cid = node.children[i];
                proof {
                    let t = node.children@.take(i + 1);
                    assert(t.drop_last() =~= node.children@.take(i as int));
                    assert(t.last() == cid);
                }
                let ghost mid = out@;
                if nodes.contains_key(&cid.0) {
                    assert(rank[cid.0] < b);
                    assert(node.children@[i as int] == cid);
                    assert(s.contains(cid.0));
                    assert(kids_below(nodes@, rank, nodes@[cid.0].children@, rank[cid.0]));
                    collect_items(nodes, cid, next, out, Ghost(rank), Ghost(s), Ghost(rank[cid.0]));
                    proof {
                        let old_rows = rows_of_kids(nodes@, rank, node.children@.take(i as int), next, b);
                        let new_rows = rows_of(nodes@, rank, cid, next, rank[cid.0]);
                        assert(out@.subrange(0, first.len() as int) =~= first);
                        let a = out@.subrange(first.len() as int, mid.len() as int);
                        let c = out@.subrange(mid.len() as int, out@.len() as int);
                        assert(a =~= mid.subrange(first.len() as int, mid.len() as int));
                        assert(out@.subrange(first.len() as int, out@.len() as int) =~= a + c);
                        assert(items_match(a + c, nodes@, old_rows + new_rows));
                    }
                } else {
                }
                i = i + 1;
            }
            proof {
                assert(node.children@.take(i as int) =~= node.children@);
                let rows = rows_of(nodes@, rank, id, depth, b);
                let kid_rows = rows_of_kids(nodes@, rank, node.children@, next, b);
                assert(rows == seq![(id, depth)] + kid_rows);
                assert(out@.subrange(0, start.len() as int) =~= start);
                let whole = out@.subrange(start.len() as int, out@.len() as int);
                assert(whole =~= seq![first[start.len() as int]] + out@.subrange(first.len() as int, out@.len() as int));
                assert(items_match(whole, nodes@, rows));
            }
        },
    }
}

/// The rows of a page: its root (if stored) at depth 0 and all below it.
pub open spec fn page_rows(nodes: Map<u128, Node>, rank: Map<u128, nat>, root: NodeId) -> Seq<(NodeId, u32)> {
    if nodes.contains_key(root.0) {
        rows_of(nodes, rank, root, 0, kid_bound(nodes, rank, nodes[root.0].children@))
    } else {
        Seq::empty()
    }
}

/// The rows of every page in `pages`, page after page.
pub open spec fn pages_rows(nodes: Map<u128, Node>, rank: Map<u128, nat>, pages: Seq<Page>) -> Seq<(NodeId, u32)>
    decreases pages.len(),
{
    if pages.len() == 0 {
        Seq::empty()
    } else {
        pages_rows(nodes, rank, pages.drop_last()) + page_rows(nodes, rank, pages.last().root_node)
    }
}

/// The layer rows of a document: for each page in order, its root and then
/// its descendants depth first, children in order.
pub open spec fn layer_rows(doc: Document) -> Seq<(NodeId, u32)> {
    let (rank, s) = choose|rank: Map<u128, nat>, s: Set<u128>|
        ranked_on(doc.nodes@, true, rank, s) && kids_in(doc.nodes@, page_roots(doc.pages@), s);
    pages_rows(doc.nodes@, rank, doc.pages@)
}

/// The root node ids of the pages, in order.
pub open spec fn page_roots(pages: Seq<Page>) -> Seq<NodeId> {
    pages.map_values(|p: Page| p.root_node)
}

/// Every node reachable from a page root, with its depth below that root,
/// page after page in depth-first order. Only cycles reachable from a page
/// root matter.
pub fn flatten_tree(doc: &Document) -> (items: Vec<LayerItem>)
    requires
        ends_from(doc.nodes@, true, page_roots(doc.pages@)),
    ensures
        items_match(items@, doc.nodes@, layer_rows(*doc)),
{
    let ghost (rank, s) = choose|rank: Map<u128, nat>, s: Set<u128>|
        ranked_on(doc.nodes@, true, rank, s) && kids_in(doc.nodes@, page_roots(doc.pages@), s);
    let mut items: Vec<LayerItem> = Vec::new();
    let mut p: usize = 0;
    while p < doc.pages.len()
        invariant
            p <= doc.pages@.len(),
            ranked_on(doc.nodes@, true, rank, s),
            kids_in(doc.nodes@, page_roots(doc.pages@), s),
            items_match(items@, doc.nodes@, pages_rows(doc.nodes@, rank, doc.pages@.take(p as int))),
        decreases doc.pages@.len() - p,
    {
        let root = doc.pages[p].root_node;
        proof {
            let t = doc.pages@.take(p + 1);
            assert(t.drop_last() =~= doc.pages@.take(p as int));
            assert(t.last() == doc.pages@[p as int]);
        }
        let ghost before = items@;
        let ghost b: nat = if doc.nodes@.contains_key(root.0) {
            kid_bound(doc.nodes@, rank, doc.nodes@[root.0].children@)
        } else {
            0
        };
        proof {
            if doc.nodes@.contains_key(root.0) {
                crate::export::lemma_kid_bound(doc.nodes@, rank, doc.nodes@[root.0].children@);
            }
        }
        proof {
            if doc.nodes@.contains_key(root.0) {
                assert(page_roots(doc.pages@)[p as int] == root);
            }
        }
        collect_items(&doc.nodes, root, 0, &mut items, Ghost(rank), Ghost(s), Ghost(b));
        proof {
            assert(items@.subrange(0, before.len() as int) =~= before);
            let c = items@.subrange(before.len() as int, items@.len() as int);
            assert(items@ =~= before + c);
            if !doc.nodes@.contains_key(root.0) {
                assert(rows_of(doc.nodes@, rank, root, 0, b) =~= Seq::<(NodeId, u32)>::empty());
            }
        }
        p = p + 1;
    }
    assert(doc.pages@.take(p as int) =~= doc.pages@);
    items
}

/// `child`'s first position among the children of its parent `p`.
pub open spec fn index_under(nodes: Map<u128, Node>, p: u128, child: NodeId) -> int {
    match find_first(nodes[p].children@, child, 0) {
        Some(i) => i,
        None => -1,
    }
}

/// `r` is the position of `child` among the children of `p`, and their count.
pub open spec fn placed(nodes: Map<u128, Node>, p: u128, child: NodeId, r: Option<(usize, usize)>) -> bool {
    r matches Some((i, n)) && i < n && i as int == index_under(nodes, p, child) && n as int == nodes[p].children@.len()
}

/// The position of `child` among the children of the node that `parent_of`
/// names, with their count.
fn place_of(doc: &Document, child: NodeId) -> (r: Option<(usize, usize)>)
    ensures
        !has_parent(doc.nodes@, child) ==> r.is_none(),
        has_parent(doc.nodes@, child) ==> exists|p: u128| #[trigger] is_parent(doc.nodes@, p, child) && placed(doc.nodes@, p, child, r),
{
    let pid = match doc.parent_of(child) {
        Some(p) => p,
        None => return None,
    };
    let parent = doc.nodes.get(&pid.0).unwrap();
    let len = parent.children.len();
    let ghost p = pid.0;
    proof { lemma_find_first(parent.children@, child, 0); }
    match crate::document::position(&parent.children, child) {
        Some(i) => {
            assert(is_parent(doc.nodes@, p, child));
            assert(placed(doc.nodes@, p, child, Some((i, len))));
            Some((i, len))
        },
        None => {
            proof {
                let j = choose|j: int| 0 <= j < parent.children@.len() && parent.children@[j] == child;
                assert(find_first(parent.children@, child, 0).is_none());
            }
            None
        },
    }
}

/// Whether the layer list offers "move up" for a node: it has a parent and is
/// not its first child.
pub fn can_move_up(doc: &Document, id: NodeId) -> (r: bool)
    ensures
        !has_parent(doc.nodes@, id) ==> !r,
        has_parent(doc.nodes@, id) ==> exists|p: u128| #[trigger] is_parent(doc.nodes@, p, id) && r == (index_under(doc.nodes@, p, id) > 0),
{
    let r = place_of(doc, id);
    proof {
        if has_parent(doc.nodes@, id) {
            let p = choose|p: u128| #[trigger] is_parent(doc.nodes@, p, id) && placed(doc.nodes@, p, id, r);
            assert(is_parent(doc.nodes@, p, id));
        }
    }
    match r {
        Some((i, _len)) => i > 0,
        None => false,
    }
}

/// Whether the layer list offers "move down" for a node: it has a parent and
/// is not its last child.
pub fn can_move_down(doc: &Document, id: NodeId) -> (r: bool)
    ensures
        !has_parent(doc.nodes@, id) ==> !r,
        has_parent(doc.nodes@, id) ==> exists|p: u128| #[trigger] is_parent(doc.nodes@, p, id) && r == (
        index_under(doc.nodes@, p, id) + 1 < doc.nodes@[p].children@.len()),
{
    let r = place_of(doc, id);
    proof {
        if has_parent(doc.nodes@, id) {
            let p = choose|p: u128| #[trigger] is_parent(doc.nodes@, p, id) && placed(doc.nodes@, p, id, r);
            assert(is_parent(doc.nodes@, p, id));
        }
    }
    match r {
        Some((i, len)) => i + 1 < len,
        None => false,
    }
}

} // verus!
