//! Walks along child links: when following them from given nodes always
//! ends, and a test of it. The layer list follows every stored child; the
//! exporter only the children of visible boxes.
use std::collections::HashMap;
use vstd::prelude::*;

use crate::document::{key_list, Node};
use crate::export::{acyclic, ranked};
use crate::ids::NodeId;
use crate::style::NodeKind;

verus! {

broadcast use vstd::std_specs::hash::group_hash_axioms;

/// A visible section, stack or container: the exporter renders its children.
pub open spec fn expands(n: Node) -> bool {
    n.visible && (n.kind == NodeKind::Section || n.kind == NodeKind::Stack || n.kind == NodeKind::Container)
}

/// The walk goes on from `n` to its children: always when following every
/// link (`all`), else only from a node that expands.
pub open spec fn follows(all: bool, n: Node) -> bool {
    all || expands(n)
}

/// Every node of `s` is stored and ranked, and from each node the walk goes
/// on from, its stored children are in `s` with a lower rank.
pub open spec fn ranked_on(nodes: Map<u128, Node>, all: bool, rank: Map<u128, nat>, s: Set<u128>) -> bool {
    forall|k: u128| #[trigger] s.contains(k) ==> {
        &&& nodes.contains_key(k)
        &&& rank.contains_key(k)
        &&& follows(all, nodes[k]) ==> forall|j: int|
            0 <= j < nodes[k].children@.len() && nodes.contains_key(#[trigger] nodes[k].children@[j].0) ==> s.contains(
                nodes[k].children@[j].0,
            ) && rank[nodes[k].children@[j].0] < rank[k]
    }
}

/// The stored nodes among `kids` are in `s`.
pub open spec fn kids_in(nodes: Map<u128, Node>, kids: Seq<NodeId>, s: Set<u128>) -> bool {
    forall|j: int| 0 <= j < kids.len() && nodes.contains_key(#[trigger] kids[j].0) ==> s.contains(kids[j].0)
}

/// Walking from the stored nodes among `kids` always ends: no cycle can be
/// reached from them.
pub open spec fn ends_from(nodes: Map<u128, Node>, all: bool, kids: Seq<NodeId>) -> bool {
    exists|rank: Map<u128, nat>, s: Set<u128>| ranked_on(nodes, all, rank, s) && kids_in(nodes, kids, s)
}

/// Exporting `n` ends: it does not expand, or no cycle of expanding nodes
/// can be reached from its children.
pub open spec fn export_ends(nodes: Map<u128, Node>, n: Node) -> bool {
    expands(n) ==> ends_from(nodes, false, n.children@)
}

/// When no node of the map is its own descendant, every walk ends.
pub proof fn law_acyclic_ends(nodes: Map<u128, Node>, all: bool, kids: Seq<NodeId>)
    requires
        acyclic(nodes),
    ensures
        ends_from(nodes, all, kids),
{
    let rank = choose|rank: Map<u128, nat>| ranked(nodes, rank);
    let s = nodes.dom();
    assert(ranked_on(nodes, all, rank, s));
    assert(kids_in(nodes, kids, s));
}

/// Every stored child of `n` has a rank below `round` in `rank`.
pub open spec fn kids_ranked_below(nodes: Map<u128, Node>, rank: Map<u128, usize>, n: Node, round: usize) -> bool {
    forall|j: int|
        0 <= j < n.children@.len() && nodes.contains_key(#[trigger] n.children@[j].0) ==> rank.contains_key(
            n.children@[j].0,
        ) && rank[n.children@[j].0] < round
}

/// The ranks assigned so far fit: each ranked node is stored, and if the walk
/// goes on from it, its stored children are ranked lower.
pub open spec fn partial_ranks(nodes: Map<u128, Node>, all: bool, rank: Map<u128, usize>) -> bool {
    forall|k: u128| #[trigger] rank.contains_key(k) ==> nodes.contains_key(k) && (follows(all, nodes[k]) ==> kids_ranked_below(
        nodes,
        rank,
        nodes[k],
        rank[k],
    ))
}

fn kids_below_round(node: &Node, nodes: &HashMap<u128, Node>, rank: &HashMap<u128, usize>, round: usize) -> (r: bool)
    ensures
        r == kids_ranked_below(nodes@, rank@, *node, round),
{
    let mut i: usize = 0;
    while i < node.children.len()
        invariant
            i <= node.children@.len(),
            forall|j: int|
                0 <= j < i && nodes@.contains_key(#[trigger] node.children@[j].0) ==> rank@.contains_key(
                    node.children@[j].0,
                ) && rank@[node.children@[j].0] < round,
        decreases node.children@.len() - i,
    {
        let c = node.children[i].0;
        if nodes.contains_key(&c) {
            match rank.get(&c) {
                Some(r) => {
                    if *r >= round {
                        return false;
                    }
                },
                None => {
                    return false;
                },
            }
        }
        i = i + 1;
    }
    true
}

/// The set `s` holds, with each node the walk goes on from, its stored
/// children.
pub open spec fn closed_under(nodes: Map<u128, Node>, all: bool, s: Set<u128>) -> bool {
    forall|k: u128| #[trigger] s.contains(k) ==> nodes.contains_key(k) && (follows(all, nodes[k]) ==> forall|j: int|
        0 <= j < nodes[k].children@.len() && nodes.contains_key(#[trigger] nodes[k].children@[j].0) ==> s.contains(
            nodes[k].children@[j].0,
        ))
}

/// `k` lies in every closed set that holds the stored nodes of `kids`: the
/// walk from `kids` reaches it.
pub open spec fn forced(nodes: Map<u128, Node>, all: bool, kids: Seq<NodeId>, k: u128) -> bool {
    forall|s: Set<u128>| closed_under(nodes, all, s) && kids_in(nodes, kids, s) ==> #[trigger] s.contains(k)
}

/// The walk goes on from the stored node `k` of `r` only to nodes of `r`.
pub open spec fn closed_at(nodes: Map<u128, Node>, all: bool, r: Seq<u128>, k: u128) -> bool {
    follows(all, nodes[k]) ==> forall|j: int|
        0 <= j < nodes[k].children@.len() && nodes.contains_key(#[trigger] nodes[k].children@[j].0) ==> r.contains(
            nodes[k].children@[j].0,
        )
}

/// Every node of `stuck` lies in `s` and has, among the stored children the
/// walk goes on to, one in `stuck`: then no rank is ever below `n` there.
proof fn lemma_stuck_ranks(
    nodes: Map<u128, Node>,
    all: bool,
    rank: Map<u128, nat>,
    s: Set<u128>,
    stuck: Set<u128>,
    n: nat,
)
    requires
        ranked_on(nodes, all, rank, s),
        forall|u: u128| #[trigger] stuck.contains(u) ==> s.contains(u) && follows(all, nodes[u]) && exists|j: int|
            0 <= j < nodes[u].children@.len() && nodes.contains_key(nodes[u].children@[j].0) && stuck.contains(
                nodes[u].children@[j].0,
            ),
    ensures
        forall|u: u128| #[trigger] stuck.contains(u) ==> rank[u] >= n,
    decreases n,
{
    if n > 0 {
        lemma_stuck_ranks(nodes, all, rank, s, stuck, (n - 1) as nat);
        assert forall|u: u128| #[trigger] stuck.contains(u) implies rank[u] >= n by {
            let j = choose|j: int|
                0 <= j < nodes[u].children@.len() && nodes.contains_key(nodes[u].children@[j].0) && stuck.contains(
                    nodes[u].children@[j].0,
                );
            let c = nodes[u].children@[j].0;
            assert(s.contains(u));
            assert(rank[c] < rank[u]);
            assert(stuck.contains(c));
        }
    }
}

/// A ranking makes its set closed.
proof fn lemma_ranked_closed(nodes: Map<u128, Node>, all: bool, rank: Map<u128, nat>, s: Set<u128>)
    requires
        ranked_on(nodes, all, rank, s),
    ensures
        closed_under(nodes, all, s),
{
}

/// A list without repeats whose items all occur in `b` is no longer than `b`.
proof fn lemma_sub_len(a: Seq<u128>, b: Seq<u128>)
    requires
        a.no_duplicates(),
        forall|i: int| 0 <= i < a.len() ==> b.contains(#[trigger] a[i]),
    ensures
        a.len() <= b.len(),
{
    a.unique_seq_to_set();
    b.lemma_cardinality_of_set();
    vstd::seq_lib::seq_to_set_is_finite(b);
    assert(a.to_set().subset_of(b.to_set())) by {
        assert forall|x: u128| a.to_set().contains(x) implies b.to_set().contains(x) by {
            let i = choose|i: int| 0 <= i < a.len() && a[i] == x;
            assert(b.contains(a[i]));
        }
    }
    vstd::set_lib::lemma_len_subset(a.to_set(), b.to_set());
}

/// Whether `x` occurs in `v`.
fn seq_has(v: &Vec<u128>, x: u128) -> (r: bool)
    ensures
        r == v@.contains(x),
{
    let mut i: usize = 0;
    while i < v.len()
        invariant
            i <= v@.len(),
            forall|j: int| 0 <= j < i ==> v@[j] != x,
        decreases v@.len() - i,
    {
        if v[i] == x {
            assert(v@[i as int] == x);
            return true;
        }
        i = i + 1;
    }
    false
}

/// Whether the exporter renders the children of `n`.
pub fn expands_node(n: &Node) -> (r: bool)
    ensures
        r == expands(*n),
{
    n.visible && match n.kind {
        NodeKind::Section | NodeKind::Stack | NodeKind::Container => true,
        _ => false,
    }
}

/// Appends `c` to `reach` when it is stored, forced and not yet there,
/// keeping what the walk's first phase keeps.
fn add_reached(
    nodes: &HashMap<u128, Node>,
    all: bool,
    kids: &Vec<NodeId>,
    keys: &Vec<u128>,
    reach: &mut Vec<u128>,
    c: u128,
)
    requires
        old(reach)@.no_duplicates(),
        forall|k: u128| nodes@.contains_key(k) <==> keys@.contains(k),
        forall|x: int| 0 <= x < old(reach)@.len() ==> nodes@.contains_key(#[trigger] old(reach)@[x]) && forced(
            nodes@,
            all,
            kids@,
            old(reach)@[x],
        ),
        nodes@.contains_key(c) ==> forced(nodes@, all, kids@, c),
    ensures
        final(reach)@.no_duplicates(),
        forall|x: int| 0 <= x < final(reach)@.len() ==> nodes@.contains_key(#[trigger] final(reach)@[x]) && forced(
            nodes@,
            all,
            kids@,
            final(reach)@[x],
        ),
        final(reach)@.len() <= keys@.len(),
        nodes@.contains_key(c) ==> final(reach)@.contains(c),
        forall|x: u128| old(reach)@.contains(x) ==> final(reach)@.contains(x),
        forall|x: int| 0 <= x < old(reach)@.len() ==> final(reach)@[x] == old(reach)@[x],
        final(reach)@.len() >= old(reach)@.len(),
{
    let ghost before = reach@;
    if nodes.contains_key(&c) && !seq_has(reach, c) {
        reach.push(c);
        assert(reach@[before.len() as int] == c);
        assert forall|x: u128| before.contains(x) implies reach@.contains(x) by {
            let i = choose|i: int| 0 <= i < before.len() && before[i] == x;
            assert(reach@[i] == x);
        }
    } else if nodes.contains_key(&c) {
    }
    proof {
        assert forall|i: int| 0 <= i < reach@.len() implies keys@.contains(#[trigger] reach@[i]) by {
            assert(nodes@.contains_key(reach@[i]));
        }
        lemma_sub_len(reach@, keys@);
    }
}

/// Whether walking from the stored nodes among `kids` always ends, as
/// `ends_from` states. The nodes the walk reaches are gathered first; then
/// they are ranked in rounds: a node gets the round's number once the walk
/// stops at it or all its stored children have lower ranks. When a round
/// ranks nothing, the reached nodes left over form a cycle.
pub fn walk_ends(nodes: &HashMap<u128, Node>, all: bool, kids: &Vec<NodeId>) -> (r: bool)
    ensures
        r == ends_from(nodes@, all, kids@),
{
    let keys = key_list(nodes);
    let mut reach: Vec<u128> = Vec::new();
    let mut j: usize = 0;
    while j < kids.len()
        invariant
            j <= kids@.len(),
            keys@.no_duplicates(),
            forall|k: u128| nodes@.contains_key(k) <==> keys@.contains(k),
            reach@.no_duplicates(),
            forall|x: int| 0 <= x < reach@.len() ==> nodes@.contains_key(#[trigger] reach@[x]) && forced(
                nodes@,
                all,
                kids@,
                reach@[x],
            ),
            reach@.len() <= keys@.len(),
            forall|x: int| 0 <= x < j && nodes@.contains_key(#[trigger] kids@[x].0) ==> reach@.contains(kids@[x].0),
        decreases kids@.len() - j,
    {
        let c = kids[j].0;
        proof {
            if nodes@.contains_key(c) {
                assert forall|s: Set<u128>| closed_under(nodes@, all, s) && kids_in(nodes@, kids@, s) implies #[trigger] s.contains(
                    c,
                ) by {
                    assert(nodes@.contains_key(kids@[j as int].0));
                }
            }
        }
        let ghost before = reach@;
        add_reached(nodes, all, kids, &keys, &mut reach, c);
        j = j + 1;
    }
    let mut i: usize = 0;
    while i < reach.len()
        invariant
            keys@.no_duplicates(),
            forall|k: u128| nodes@.contains_key(k) <==> keys@.contains(k),
            reach@.no_duplicates(),
            forall|x: int| 0 <= x < reach@.len() ==> nodes@.contains_key(#[trigger] reach@[x]) && forced(
                nodes@,
                all,
                kids@,
                reach@[x],
            ),
            reach@.len() <= keys@.len(),
            forall|x: int| 0 <= x < kids@.len() && nodes@.contains_key(#[trigger] kids@[x].0) ==> reach@.contains(kids@[x].0),
            i <= reach@.len(),
            forall|x: int| 0 <= x < i ==> #[trigger] closed_at(nodes@, all, reach@, reach@[x]),
        decreases keys@.len() - i,
    {
        let k = reach[i];
        let node = nodes.get(&k).unwrap();
        if all || expands_node(node) {
            let mut t: usize = 0;
            while t < node.children.len()
                invariant
                    keys@.no_duplicates(),
                    forall|k: u128| nodes@.contains_key(k) <==> keys@.contains(k),
                    reach@.no_duplicates(),
                    forall|x: int| 0 <= x < reach@.len() ==> nodes@.contains_key(#[trigger] reach@[x]) && forced(
                        nodes@,
                        all,
                        kids@,
                        reach@[x],
                    ),
                    reach@.len() <= keys@.len(),
                    forall|x: int| 0 <= x < kids@.len() && nodes@.contains_key(#[trigger] kids@[x].0) ==> reach@.contains(
                        kids@[x].0,
                    ),
                    i < reach@.len(),
                    reach@[i as int] == k,
                    *node == nodes@[k],
                    follows(all, *node),
                    t <= node.children@.len(),
                    forall|x: int| 0 <= x < i ==> #[trigger] closed_at(nodes@, all, reach@, reach@[x]),
                    forall|y: int| 0 <= y < t && nodes@.contains_key(#[trigger] node.children@[y].0) ==> reach@.contains(
                        node.children@[y].0,
                    ),
                decreases node.children@.len() - t,
            {
                let c = node.children[t].0;
                proof {
                    assert(forced(nodes@, all, kids@, reach@[i as int]));
                    if nodes@.contains_key(c) {
                        assert forall|s: Set<u128>| closed_under(nodes@, all, s) && kids_in(nodes@, kids@, s) implies #[trigger] s.contains(
                            c,
                        ) by {
                            assert(s.contains(k));
                            assert(nodes@[k].children@[t as int].0 == c);
                            assert(nodes@.contains_key(nodes@[k].children@[t as int].0));
                        }
                    }
                }
                let ghost before = reach@;
                add_reached(nodes, all, kids, &keys, &mut reach, c);
                proof {
                    assert forall|x: int| 0 <= x < i implies #[trigger] closed_at(nodes@, all, reach@, reach@[x]) by {
                        assert(closed_at(nodes@, all, before, before[x]));
                    }
                }
                t = t + 1;
            }
            assert(closed_at(nodes@, all, reach@, reach@[i as int]));
        } else {
            assert(closed_at(nodes@, all, reach@, reach@[i as int]));
        }
        i = i + 1;
    }
    let ghost rs = reach@.to_set();
    proof {
        assert(closed_under(nodes@, all, rs)) by {
            assert forall|k: u128| #[trigger] rs.contains(k) implies nodes@.contains_key(k) && (follows(all, nodes@[k])
                ==> forall|j: int|
                0 <= j < nodes@[k].children@.len() && nodes@.contains_key(#[trigger] nodes@[k].children@[j].0)
                    ==> rs.contains(nodes@[k].children@[j].0)) by {
                let x = choose|x: int| 0 <= x < reach@.len() && reach@[x] == k;
                assert(closed_at(nodes@, all, reach@, reach@[x]));
            }
        }
    }
    rank_reached(nodes, all, kids, &reach)
}

/// The predicate "has no rank in `rank`".
pub open spec fn not_ranked(rank: Map<u128, usize>) -> spec_fn(u128) -> bool {
    |k: u128| !rank.contains_key(k)
}

proof fn lemma_filter_step(keys: Seq<u128>, rank: Map<u128, usize>)
    requires
        keys.len() > 0,
    ensures
        keys.filter(not_ranked(rank)) == if not_ranked(rank)(keys.last()) {
            keys.drop_last().filter(not_ranked(rank)).push(keys.last())
        } else {
            keys.drop_last().filter(not_ranked(rank))
        },
{
    reveal_with_fuel(Seq::filter, 1);
}

/// With nothing ranked, every key is unranked.
proof fn lemma_none_ranked(keys: Seq<u128>, rank: Map<u128, usize>)
    requires
        rank.dom().len() == 0,
        rank.dom().finite(),
    ensures
        keys.filter(not_ranked(rank)).len() == keys.len(),
    decreases keys.len(),
{
    if keys.len() > 0 {
        lemma_none_ranked(keys.drop_last(), rank);
        lemma_filter_step(keys, rank);
        if rank.contains_key(keys.last()) {
            assert(rank.dom().contains(keys.last()));
        }
    }
}

/// Ranking one more key of `keys` leaves one fewer unranked.
proof fn lemma_rank_one(keys: Seq<u128>, rank: Map<u128, usize>, k: u128, v: usize)
    requires
        keys.no_duplicates(),
        keys.contains(k),
        !rank.contains_key(k),
    ensures
        keys.filter(not_ranked(rank.insert(k, v))).len() + 1 == keys.filter(not_ranked(rank)).len(),
    decreases keys.len(),
{
    let t = keys.drop_last();
    lemma_filter_step(keys, rank);
    lemma_filter_step(keys, rank.insert(k, v));
    if keys.last() == k {
        assert(!t.contains(k)) by {
            if t.contains(k) {
                let j = choose|j: int| 0 <= j < t.len() && t[j] == k;
                assert(keys[j] == keys[keys.len() - 1]);
            }
        }
        lemma_rank_other(t, rank, k, v);
    } else {
        assert(t.no_duplicates()) by {
            assert forall|a: int, b: int| 0 <= a < t.len() && 0 <= b < t.len() && a != b implies t[a] != t[b] by {
                assert(keys[a] != keys[b]);
            }
        }
        assert(t.contains(k)) by {
            let j = choose|j: int| 0 <= j < keys.len() && keys[j] == k;
            assert(t[j] == k);
        }
        lemma_rank_one(t, rank, k, v);
    }
}

/// Ranking a key outside `keys` changes nothing among them.
proof fn lemma_rank_other(keys: Seq<u128>, rank: Map<u128, usize>, k: u128, v: usize)
    requires
        !keys.contains(k),
    ensures
        keys.filter(not_ranked(rank.insert(k, v))) == keys.filter(not_ranked(rank)),
    decreases keys.len(),
{
    if keys.len() > 0 {
        let t = keys.drop_last();
        assert(!t.contains(k)) by {
            if t.contains(k) {
                let j = choose|j: int| 0 <= j < t.len() && t[j] == k;
                assert(keys[j] == k);
            }
        }
        lemma_rank_other(t, rank, k, v);
        lemma_filter_step(keys, rank);
        lemma_filter_step(keys, rank.insert(k, v));
        assert(keys.last() != k) by {
            assert(keys[keys.len() - 1] == keys.last());
        }
    }
}

/// With no key unranked, every key is ranked; with some unranked, one is.
proof fn lemma_unranked_count(keys: Seq<u128>, rank: Map<u128, usize>)
    ensures
        keys.filter(not_ranked(rank)).len() == 0 ==> forall|j: int| 0 <= j < keys.len() ==> rank.contains_key(#[trigger] keys[j]),
        keys.filter(not_ranked(rank)).len() > 0 ==> exists|j: int| 0 <= j < keys.len() && !rank.contains_key(#[trigger] keys[j]),
    decreases keys.len(),
{
    if keys.len() > 0 {
        let t = keys.drop_last();
        lemma_unranked_count(t, rank);
        lemma_filter_step(keys, rank);
        if keys.filter(not_ranked(rank)).len() == 0 {
            assert forall|j: int| 0 <= j < keys.len() implies rank.contains_key(#[trigger] keys[j]) by {
                if j < keys.len() - 1 {
                    assert(keys[j] == t[j]);
                }
            }
        }
        if keys.filter(not_ranked(rank)).len() > 0 {
            if rank.contains_key(keys.last()) {
                let j = choose|j: int| 0 <= j < t.len() && !rank.contains_key(#[trigger] t[j]);
                assert(keys[j] == t[j]);
            } else {
                assert(!rank.contains_key(keys[keys.len() - 1]));
            }
        }
    }
}

/// The ranking rounds over the reached nodes `reach` (see `walk_ends`).
fn rank_reached(nodes: &HashMap<u128, Node>, all: bool, kids: &Vec<NodeId>, reach: &Vec<u128>) -> (r: bool)
    requires
        reach@.no_duplicates(),
        forall|x: int| 0 <= x < reach@.len() ==> nodes@.contains_key(#[trigger] reach@[x]) && forced(
            nodes@,
            all,
            kids@,
            reach@[x],
        ),
        forall|x: int| 0 <= x < kids@.len() && nodes@.contains_key(#[trigger] kids@[x].0) ==> reach@.contains(kids@[x].0),
        forall|x: int| 0 <= x < reach@.len() ==> #[trigger] closed_at(nodes@, all, reach@, reach@[x]),
    ensures
        r == ends_from(nodes@, all, kids@),
{
    let keys = reach;
    let n = keys.len();
    let mut rank: HashMap<u128, usize> = HashMap::new();
    proof {
        assert(rank@.dom() =~= Set::<u128>::empty());
        lemma_none_ranked(keys@, rank@);
    }
    let mut left: usize = n;
    let mut round: usize = 1;
    let mut stalled = false;
    while left > 0 && !stalled
        invariant
            n == keys@.len(),
            keys@.no_duplicates(),
            forall|x: int| 0 <= x < keys@.len() ==> nodes@.contains_key(#[trigger] keys@[x]),
            partial_ranks(nodes@, all, rank@),
            left > 0 ==> forall|k: u128| #[trigger] rank@.contains_key(k) ==> rank@[k] < round,
            left == keys@.filter(not_ranked(rank@)).len(),
            left <= n,
            1 <= round,
            round + left <= n + 1,
            stalled ==> forall|j: int| 0 <= j < n ==> rank@.contains_key(#[trigger] keys@[j]) || (follows(all, nodes@[keys@[j]]) && !kids_ranked_below(
                nodes@,
                rank@,
                nodes@[keys@[j]],
                round,
            )),
        decreases (if stalled { 0 } else { left + 1 }),
    {
        let mut progress = false;
        let ghost start = rank@;
        let ghost start_left = left;
        let mut i: usize = 0;
        while i < n
            invariant
                n == keys@.len(),
                keys@.no_duplicates(),
                forall|x: int| 0 <= x < keys@.len() ==> nodes@.contains_key(#[trigger] keys@[x]),
                i <= n,
                partial_ranks(nodes@, all, rank@),
                forall|k: u128| #[trigger] start.contains_key(k) ==> rank@.contains_key(k) && rank@[k] < round,
                forall|k: u128| #[trigger] rank@.contains_key(k) ==> rank@[k] <= round,
                forall|k: u128| #[trigger] rank@.contains_key(k) && rank@[k] < round ==> start.contains_key(k),
                !progress ==> rank@ == start,
                left == keys@.filter(not_ranked(rank@)).len(),
                progress ==> left < start_left,
                !progress ==> left == start_left,
                forall|j: int| 0 <= j < i ==> rank@.contains_key(#[trigger] keys@[j]) || (follows(all, nodes@[keys@[j]]) && !kids_ranked_below(
                    nodes@,
                    rank@,
                    nodes@[keys@[j]],
                    round,
                )),
            decreases n - i,
        {
            let k = keys[i];
            assert(keys@.contains(k)) by {
                assert(keys@[i as int] == k);
            }
            if !rank.contains_key(&k) {
                let node = nodes.get(&k).unwrap();
                let goes_on = all || expands_node(node);
                if !goes_on || kids_below_round(node, nodes, &rank, round) {
                    proof {
                        lemma_rank_one(keys@, rank@, k, round);
                    }
                    let ghost before = rank@;
                    rank.insert(k, round);
                    left = left - 1;
                    progress = true;
                    assert(partial_ranks(nodes@, all, rank@)) by {
                        assert forall|x: u128| #[trigger] rank@.contains_key(x) implies nodes@.contains_key(x) && (follows(
                            all,
                            nodes@[x],
                        ) ==> kids_ranked_below(nodes@, rank@, nodes@[x], rank@[x])) by {
                            let m = nodes@[x];
                            let bound = rank@[x];
                            if x == k {
                                assert(nodes@.contains_key(keys@[i as int]));
                                if follows(all, m) {
                                    assert(kids_ranked_below(nodes@, before, m, round));
                                }
                            } else {
                                assert(before.contains_key(x));
                                if follows(all, m) {
                                    assert(kids_ranked_below(nodes@, before, m, bound));
                                }
                            }
                            if follows(all, m) {
                                assert forall|j: int|
                                    0 <= j < m.children@.len() && nodes@.contains_key(#[trigger] m.children@[j].0)
                                        implies rank@.contains_key(m.children@[j].0) && rank@[m.children@[j].0] < bound by {
                                    let c = m.children@[j].0;
                                    assert(before.contains_key(c));
                                }
                            }
                        }
                    }
                    assert forall|j: int| 0 <= j < i implies rank@.contains_key(#[trigger] keys@[j]) || (follows(
                        all,
                        nodes@[keys@[j]],
                    ) && !kids_ranked_below(nodes@, rank@, nodes@[keys@[j]], round)) by {
                        if !before.contains_key(keys@[j]) {
                            let m = nodes@[keys@[j]];
                            assert(!kids_ranked_below(nodes@, before, m, round));
                            let w = choose|w: int|
                                0 <= w < m.children@.len() && nodes@.contains_key(#[trigger] m.children@[w].0) && !(
                                before.contains_key(m.children@[w].0) && before[m.children@[w].0] < round);
                            let c = m.children@[w].0;
                            if rank@.contains_key(c) && rank@[c] < round {
                                assert(c != k);
                                assert(before.contains_key(c));
                            }
                        }
                    }
                }
            }
            i = i + 1;
        }
        if !progress {
            stalled = true;
        } else if left > 0 {
            round = round + 1;
        }
    }
    if left == 0 {
        proof {
            lemma_unranked_count(keys@, rank@);
            let r = Map::<u128, nat>::new(|k: u128| rank@.contains_key(k), |k: u128| rank@[k] as nat);
            let s = keys@.to_set();
            assert forall|k: u128| #[trigger] s.contains(k) implies {
                &&& nodes@.contains_key(k)
                &&& r.contains_key(k)
                &&& follows(all, nodes@[k]) ==> forall|j: int|
                    0 <= j < nodes@[k].children@.len() && nodes@.contains_key(#[trigger] nodes@[k].children@[j].0)
                        ==> s.contains(nodes@[k].children@[j].0) && r[nodes@[k].children@[j].0] < r[k]
            } by {
                let j0 = choose|j: int| 0 <= j < keys@.len() && keys@[j] == k;
                assert(nodes@.contains_key(keys@[j0]));
                assert(rank@.contains_key(keys@[j0]));
                assert(closed_at(nodes@, all, keys@, keys@[j0]));
                if follows(all, nodes@[k]) {
                    assert(kids_ranked_below(nodes@, rank@, nodes@[k], rank@[k]));
                }
            }
            assert(ranked_on(nodes@, all, r, s));
            assert(kids_in(nodes@, kids@, s));
        }
        true
    } else {
        proof {
            lemma_unranked_count(keys@, rank@);
            let j0 = choose|j: int| 0 <= j < keys@.len() && !rank@.contains_key(#[trigger] keys@[j]);
            let stuck = Set::<u128>::new(|k: u128| keys@.contains(k) && !rank@.contains_key(k));
            assert(stuck.contains(keys@[j0]));
            if ends_from(nodes@, all, kids@) {
                let (r2, s2) = choose|r2: Map<u128, nat>, s2: Set<u128>|
                    ranked_on(nodes@, all, r2, s2) && kids_in(nodes@, kids@, s2);
                lemma_ranked_closed(nodes@, all, r2, s2);
                assert forall|u: u128| #[trigger] stuck.contains(u) implies s2.contains(u) && follows(all, nodes@[u])
                    && exists|j: int|
                    0 <= j < nodes@[u].children@.len() && nodes@.contains_key(nodes@[u].children@[j].0)
                        && stuck.contains(nodes@[u].children@[j].0) by {
                    let ju = choose|j: int| 0 <= j < keys@.len() && keys@[j] == u;
                    assert(forced(nodes@, all, kids@, keys@[ju]));
                    assert(s2.contains(u));
                    assert(!rank@.contains_key(keys@[ju]));
                    let m = nodes@[u];
                    assert(!kids_ranked_below(nodes@, rank@, m, round));
                    let w = choose|w: int|
                        0 <= w < m.children@.len() && nodes@.contains_key(#[trigger] m.children@[w].0) && !(
                        rank@.contains_key(m.children@[w].0) && rank@[m.children@[w].0] < round);
                    assert(closed_at(nodes@, all, keys@, keys@[ju]));
                    assert(keys@.contains(m.children@[w].0));
                    assert(stuck.contains(m.children@[w].0));
                }
                lemma_stuck_ranks(nodes@, all, r2, s2, stuck, r2[keys@[j0]] + 1);
            }
        }
        false
    }
}

} // verus!
