//! Dependency graphs over node indices and their topological ordering.
//!
//! A graph is a table with one row per node. Each slot of a row names the node
//! that an arc leads to. A slot that is empty, or names no node of the table,
//! is no arc.

use vstd::prelude::*;

verus! {

/// The table of a graph, as the contracts see it.
pub type Table = Seq<Vec<Option<usize>>>;

/// Node `a` has an arc to node `b`.
pub open spec fn arc(g: Table, a: int, b: int) -> bool {
    0 <= a < g.len() && 0 <= b < g.len() && exists|k: int|
        0 <= k < g[a].len() && leads(#[trigger] g[a][k], b)
}

/// The slot names node `b`.
pub open spec fn leads(slot: Option<usize>, b: int) -> bool {
    slot is Some && slot.unwrap() == b
}

/// The slot names a node of a table of `n` nodes.
pub open spec fn points(slot: Option<usize>, n: nat) -> bool {
    slot is Some && slot.unwrap() < n
}

/// `p` is a closed walk: each node has an arc to the next, the last to the first.
pub open spec fn is_cycle(g: Table, p: Seq<int>) -> bool {
    &&& p.len() > 0
    &&& forall|t: int| 0 <= t < p.len() - 1 ==> arc(g, #[trigger] p[t], p[t + 1])
    &&& arc(g, p.last(), p[0])
}

/// Some closed walk exists.
pub open spec fn has_cycle(g: Table) -> bool {
    exists|p: Seq<int>| is_cycle(g, p)
}

/// `order` lists every node once, and each node after all nodes it has an arc to.
pub open spec fn is_topological(g: Table, order: Seq<usize>) -> bool {
    &&& order.len() == g.len()
    &&& forall|i: int| 0 <= i < order.len() ==> (#[trigger] order[i]) < g.len()
    &&& forall|i: int, j: int| 0 <= i < j < order.len() ==> order[i] != order[j]
    &&& forall|x: usize| x < g.len() ==> #[trigger] order.contains(x)
    &&& forall|i: int, j: int|
        0 <= i < order.len() && 0 <= j < order.len() && arc(g, order[i] as int, order[j] as int)
            ==> j < i
}

/// The progress of the search at one node.
#[derive(Clone, Copy, PartialEq, Eq, Structural)]
enum Mark {
    Unseen,
    Active,
    Done,
}

/// How many nodes carry the mark `m`.
spec fn count(marks: Seq<Mark>, m: Mark) -> nat
    decreases marks.len(),
{
    if marks.len() == 0 {
        0
    } else {
        count(marks.drop_last(), m) + if marks.last() == m {
            1nat
        } else {
            0nat
        }
    }
}

proof fn lemma_count_update(marks: Seq<Mark>, i: int, new: Mark, m: Mark)
    requires
        0 <= i < marks.len(),
    ensures
        count(marks.update(i, new), m) + (if marks[i] == m { 1int } else { 0int })
            == count(marks, m) + (if new == m { 1int } else { 0int }),
    decreases marks.len(),
{
    let after = marks.update(i, new);
    if i == marks.len() - 1 {
        assert(after.drop_last() =~= marks.drop_last());
    } else {
        assert(after.drop_last() =~= marks.drop_last().update(i, new));
        lemma_count_update(marks.drop_last(), i, new, m);
    }
}

proof fn lemma_count_all(marks: Seq<Mark>, m: Mark)
    requires
        forall|i: int| 0 <= i < marks.len() ==> marks[i] == m,
    ensures
        count(marks, m) == marks.len(),
    decreases marks.len(),
{
    if marks.len() > 0 {
        lemma_count_all(marks.drop_last(), m);
    }
}

proof fn lemma_count_none(marks: Seq<Mark>, m: Mark)
    requires
        forall|i: int| 0 <= i < marks.len() ==> marks[i] != m,
    ensures
        count(marks, m) == 0,
    decreases marks.len(),
{
    if marks.len() > 0 {
        lemma_count_none(marks.drop_last(), m);
    }
}

/// What the search has placed so far: `order` holds the finished nodes, each
/// at the position its rank names and after every node it has an arc to.
#[verifier::opaque]
spec fn settled(g: Table, marks: Seq<Mark>, rank: Seq<usize>, order: Seq<usize>) -> bool {
    &&& marks.len() == g.len()
    &&& rank.len() == g.len()
    &&& order.len() == count(marks, Mark::Done)
    &&& forall|i: int|
        0 <= i < order.len() ==> (#[trigger] order[i]) < g.len() && marks[order[i] as int]
            == Mark::Done && rank[order[i] as int] == i
    &&& forall|x: int|
        0 <= x < g.len() && (#[trigger] marks[x]) == Mark::Done ==> rank[x] < order.len()
            && order[rank[x] as int] == x
    &&& forall|a: int, k: int|
        0 <= a < g.len() && marks[a] == Mark::Done && 0 <= k < g[a].len() && points(
            #[trigger] g[a][k],
            g.len(),
        ) ==> marks[g[a][k].unwrap() as int] == Mark::Done && rank[g[a][k].unwrap() as int]
            < rank[a]
}

/// The nodes under way lie on `trail`, each at the depth its rank names, and
/// `trail` is a walk.
#[verifier::opaque]
spec fn trailing(g: Table, marks: Seq<Mark>, rank: Seq<usize>, trail: Seq<int>) -> bool {
    &&& forall|x: int|
        0 <= x < g.len() && (#[trigger] marks[x]) == Mark::Active ==> rank[x] < trail.len()
            && trail[rank[x] as int] == x
    &&& forall|t: int| 0 <= t < trail.len() - 1 ==> arc(g, #[trigger] trail[t], trail[t + 1])
}

proof fn lemma_walk_descends(g: Table, rank: Seq<usize>, p: Seq<int>, t: int)
    requires
        rank.len() == g.len(),
        forall|a: int, k: int|
            0 <= a < g.len() && 0 <= k < g[a].len() && points(#[trigger] g[a][k], g.len())
                ==> rank[g[a][k].unwrap() as int] < rank[a],
        is_cycle(g, p),
        0 <= t < p.len(),
    ensures
        0 <= p[t] < g.len(),
        rank[p[t]] + t <= rank[p[0]],
    decreases t,
{
    if t == 0 {
        if p.len() == 1 {
            assert(arc(g, p.last(), p[0]));
        } else {
            assert(arc(g, p[0], p[1]));
        }
    } else {
        lemma_walk_descends(g, rank, p, t - 1);
        assert(arc(g, p[t - 1], p[t]));
        let k = choose|k: int| 0 <= k < g[p[t - 1]].len() && leads(#[trigger] g[p[t - 1]][k], p[t]);
        assert(points(g[p[t - 1]][k], g.len()));
    }
}

proof fn lemma_count_bounded(marks: Seq<Mark>, m: Mark)
    ensures
        count(marks, m) <= marks.len(),
    decreases marks.len(),
{
    if marks.len() > 0 {
        lemma_count_bounded(marks.drop_last(), m);
    }
}

/// No more nodes are placed than the graph has.
proof fn lemma_order_bounded(g: Table, marks: Seq<Mark>, rank: Seq<usize>, order: Seq<usize>)
    requires
        settled(g, marks, rank, order),
    ensures
        order.len() <= g.len(),
{
    reveal(settled);
    lemma_count_bounded(marks, Mark::Done);
}

/// A graph whose arcs all lead to a node of lower rank has no closed walk.
proof fn lemma_ranked_is_acyclic(g: Table, rank: Seq<usize>)
    requires
        rank.len() == g.len(),
        forall|a: int, k: int|
            0 <= a < g.len() && 0 <= k < g[a].len() && points(#[trigger] g[a][k], g.len())
                ==> rank[g[a][k].unwrap() as int] < rank[a],
    ensures
        !has_cycle(g),
{
    assert forall|p: Seq<int>| is_cycle(g, p) implies false by {
        let last = p.len() - 1;
        lemma_walk_descends(g, rank, p, last);
        lemma_walk_descends(g, rank, p, 0);
        assert(arc(g, p[last], p[0]));
        let k = choose|k: int| 0 <= k < g[p[last]].len() && leads(#[trigger] g[p[last]][k], p[0]);
        assert(points(g[p[last]][k], g.len()));
    }
}

/// Marking an unseen node as under way extends the trail by that node.
proof fn lemma_enter(
    g: Table,
    marks: Seq<Mark>,
    rank: Seq<usize>,
    order: Seq<usize>,
    trail: Seq<int>,
    node: int,
)
    requires
        0 <= node < g.len(),
        settled(g, marks, rank, order),
        trailing(g, marks, rank, trail),
        marks.len() == g.len(),
        marks[node] == Mark::Unseen,
        trail.len() <= usize::MAX,
        trail.len() > 0 ==> arc(g, trail.last(), node),
    ensures
        settled(
            g,
            marks.update(node, Mark::Active),
            rank.update(node, trail.len() as usize),
            order,
        ),
        trailing(
            g,
            marks.update(node, Mark::Active),
            rank.update(node, trail.len() as usize),
            trail.push(node),
        ),
        count(marks.update(node, Mark::Active), Mark::Unseen) + 1 == count(marks, Mark::Unseen),
{
    reveal(settled);
    reveal(trailing);
    lemma_count_update(marks, node, Mark::Active, Mark::Unseen);
    lemma_count_update(marks, node, Mark::Active, Mark::Done);
    let inner = trail.push(node);
    assert forall|t: int| 0 <= t < inner.len() - 1 implies arc(g, #[trigger] inner[t], inner[t + 1]) by {
        if t < trail.len() - 1 {
            assert(arc(g, trail[t], trail[t + 1]));
        }
    }
}

/// An arc from the end of the trail to a node under way closes a walk.
proof fn lemma_closing(g: Table, marks: Seq<Mark>, rank: Seq<usize>, inner: Seq<int>, next: int)
    requires
        trailing(g, marks, rank, inner),
        inner.len() > 0,
        0 <= next < g.len(),
        marks.len() == g.len(),
        marks[next] == Mark::Active,
        arc(g, inner.last(), next),
    ensures
        has_cycle(g),
{
    reveal(trailing);
    let from = rank[next] as int;
    let p = inner.subrange(from, inner.len() as int);
    assert forall|t: int| 0 <= t < p.len() - 1 implies arc(g, #[trigger] p[t], p[t + 1]) by {
        assert(arc(g, inner[from + t], inner[from + t + 1]));
    }
    assert(is_cycle(g, p));
}

/// Once all that a node leads to is placed, the node is placed next.
proof fn lemma_leave(
    g: Table,
    marks: Seq<Mark>,
    rank: Seq<usize>,
    order: Seq<usize>,
    trail: Seq<int>,
    node: int,
)
    requires
        0 <= node < g.len(),
        settled(g, marks, rank, order),
        trailing(g, marks, rank, trail.push(node)),
        marks.len() == g.len(),
        marks[node] == Mark::Active,
        g.len() <= usize::MAX,
        forall|j: int|
            0 <= j < g[node].len() && points(#[trigger] g[node][j], g.len())
                ==> marks[g[node][j].unwrap() as int] == Mark::Done,
    ensures
        settled(
            g,
            marks.update(node, Mark::Done),
            rank.update(node, order.len() as usize),
            order.push(node as usize),
        ),
        trailing(
            g,
            marks.update(node, Mark::Done),
            rank.update(node, order.len() as usize),
            trail,
        ),
        count(marks.update(node, Mark::Done), Mark::Unseen) == count(marks, Mark::Unseen),
{
    reveal(settled);
    reveal(trailing);
    lemma_count_update(marks, node, Mark::Done, Mark::Unseen);
    lemma_count_update(marks, node, Mark::Done, Mark::Done);
    lemma_count_bounded(marks.update(node, Mark::Done), Mark::Done);
    let inner = trail.push(node);
    let marks2 = marks.update(node, Mark::Done);
    let rank2 = rank.update(node, order.len() as usize);
    let order2 = order.push(node as usize);
    assert forall|t: int| 0 <= t < trail.len() - 1 implies arc(g, #[trigger] trail[t], trail[t + 1]) by {
        assert(arc(g, inner[t], inner[t + 1]));
    }
    assert forall|x: int| 0 <= x < g.len() && (#[trigger] marks2[x]) == Mark::Active implies rank2[x]
        < trail.len() && trail[rank2[x] as int] == x by {
        assert(marks[x] == Mark::Active);
        assert(inner[rank[x] as int] == x);
    }
    assert forall|i: int| 0 <= i < order2.len() implies (#[trigger] order2[i]) < g.len()
        && marks2[order2[i] as int] == Mark::Done && rank2[order2[i] as int] == i by {
        if i < order.len() {
            assert(order[i] < g.len() && marks[order[i] as int] == Mark::Done);
        }
    }
    assert forall|x: int| 0 <= x < g.len() && (#[trigger] marks2[x]) == Mark::Done implies rank2[x]
        < order2.len() && order2[rank2[x] as int] == x by {
        if x != node {
            assert(marks[x] == Mark::Done);
        }
    }
    assert forall|a: int, k: int|
        0 <= a < g.len() && marks2[a] == Mark::Done && 0 <= k < g[a].len() && points(
            #[trigger] g[a][k],
            g.len(),
        ) implies marks2[g[a][k].unwrap() as int] == Mark::Done && rank2[g[a][k].unwrap() as int]
        < rank2[a] by {
        let b = g[a][k].unwrap() as int;
        if a == node {
            assert(marks[b] == Mark::Done);
        } else {
            assert(marks[a] == Mark::Done);
            assert(marks[b] == Mark::Done);
        }
    }
}

/// Searches from `node`, which is unseen, and places it after all it leads to.
/// `false` is returned as soon as an arc closes a walk.
fn visit(
    g: &Vec<Vec<Option<usize>>>,
    node: usize,
    marks: &mut Vec<Mark>,
    rank: &mut Vec<usize>,
    order: &mut Vec<usize>,
    depth: usize,
    Ghost(trail): Ghost<Seq<int>>,
) -> (acyclic: bool)
    requires
        node < g.len(),
        old(marks).len() == g.len(),
        old(rank).len() == g.len(),
        old(order).len() <= g.len(),
        settled(g@, old(marks)@, old(rank)@, old(order)@),
        trailing(g@, old(marks)@, old(rank)@, trail),
        old(marks)[node as int] == Mark::Unseen,
        depth == trail.len(),
        trail.len() > 0 ==> arc(g@, trail.last(), node as int),
        trail.len() + count(old(marks)@, Mark::Unseen) <= g.len(),
    ensures
        !acyclic ==> has_cycle(g@),
        acyclic ==> {
            &&& final(marks).len() == g.len()
            &&& final(rank).len() == g.len()
            &&& final(order).len() <= g.len()
            &&& settled(g@, final(marks)@, final(rank)@, final(order)@)
            &&& trailing(g@, final(marks)@, final(rank)@, trail)
            &&& final(marks)[node as int] == Mark::Done
            &&& count(final(marks)@, Mark::Unseen) < count(old(marks)@, Mark::Unseen)
            &&& forall|x: int|
                #![trigger old(marks)[x]]
                #![trigger final(marks)[x]]
                0 <= x < g.len() && old(marks)[x] == Mark::Done ==> final(marks)[x] == Mark::Done
            &&& forall|x: int|
                #![trigger old(marks)[x]]
                #![trigger final(marks)[x]]
                0 <= x < g.len() && old(marks)[x] == Mark::Active ==> final(marks)[x]
                    == Mark::Active
        },
    decreases count(old(marks)@, Mark::Unseen),
{
    proof {
        lemma_enter(g@, marks@, rank@, order@, trail, node as int);
    }
    marks.set(node, Mark::Active);
    rank.set(node, depth);
    let ghost inner = trail.push(node as int);
    let mut k: usize = 0;
    while k < g[node].len()
        invariant
            node < g.len(),
            k <= g[node as int].len(),
            marks.len() == g.len(),
            rank.len() == g.len(),
            order.len() <= g.len(),
            settled(g@, marks@, rank@, order@),
            trailing(g@, marks@, rank@, inner),
            marks[node as int] == Mark::Active,
            inner == trail.push(node as int),
            depth == trail.len(),
            inner.len() + count(marks@, Mark::Unseen) <= g.len(),
            count(marks@, Mark::Unseen) < count(old(marks)@, Mark::Unseen),
            forall|j: int|
                0 <= j < k && points(#[trigger] g[node as int][j], g@.len())
                    ==> marks[g[node as int][j].unwrap() as int] == Mark::Done,
            forall|x: int|
                #![trigger old(marks)[x]]
                #![trigger marks[x]]
                0 <= x < g.len() && old(marks)[x] == Mark::Done ==> marks[x] == Mark::Done,
            forall|x: int|
                #![trigger old(marks)[x]]
                #![trigger marks[x]]
                0 <= x < g.len() && old(marks)[x] == Mark::Active ==> marks[x] == Mark::Active,
        decreases g[node as int].len() - k,
    {
        match g[node][k] {
            Some(next) => {
                if next < g.len() {
                    assert(leads(g[node as int][k as int], next as int));
                    assert(arc(g@, node as int, next as int));
                    let seen = marks[next];
                    if seen == Mark::Active {
                        proof {
                            lemma_closing(g@, marks@, rank@, inner, next as int);
                        }
                        return false;
                    }
                    if seen == Mark::Unseen {
                        let below = visit(g, next, marks, rank, order, depth + 1, Ghost(inner));
                        if !below {
                            return false;
                        }
                    }
                }
            },
            None => {},
        }
        k += 1;
    }
    proof {
        lemma_leave(g@, marks@, rank@, order@, trail, node as int);
        lemma_order_bounded(g@, marks@.update(node as int, Mark::Done), rank@.update(node as int, order.len()), order@.push(node));
    }
    marks.set(node, Mark::Done);
    rank.set(node, order.len());
    order.push(node);
    true
}

/// Orders the nodes so that each comes after all nodes it has an arc to, or
/// returns `None` where a closed walk makes that impossible.
pub fn topological_order(g: &Vec<Vec<Option<usize>>>) -> (r: Option<Vec<usize>>)
    ensures
        r is None <==> has_cycle(g@),
        r matches Some(order) ==> is_topological(g@, order@),
{
    let n = g.len();
    let mut marks: Vec<Mark> = Vec::new();
    let mut rank: Vec<usize> = Vec::new();
    let mut i: usize = 0;
    while i < n
        invariant
            i <= n,
            marks.len() == i,
            rank.len() == i,
            forall|x: int| 0 <= x < i ==> marks[x] == Mark::Unseen,
        decreases n - i,
    {
        marks.push(Mark::Unseen);
        rank.push(0);
        i += 1;
    }
    let mut order: Vec<usize> = Vec::new();
    proof {
        lemma_count_all(marks@, Mark::Unseen);
        lemma_count_none(marks@, Mark::Done);
        reveal(settled);
        reveal(trailing);
    }
    let mut node: usize = 0;
    while node < n
        invariant
            n == g.len(),
            node <= n,
            marks.len() == n,
            rank.len() == n,
            order.len() <= n,
            settled(g@, marks@, rank@, order@),
            trailing(g@, marks@, rank@, Seq::empty()),
            forall|x: int| 0 <= x < node ==> (#[trigger] marks[x]) == Mark::Done,
            count(marks@, Mark::Unseen) <= n,
        decreases n - node,
    {
        if marks[node] == Mark::Unseen {
            let acyclic = visit(g, node, &mut marks, &mut rank, &mut order, 0, Ghost(Seq::empty()));
            if !acyclic {
                return None;
            }
        } else {
            proof {
                reveal(trailing);
            }
        }
        node += 1;
    }
    proof {
        reveal(settled);
        lemma_count_all(marks@, Mark::Done);
        lemma_ranked_is_acyclic(g@, rank@);
        assert forall|i: int, j: int|
            0 <= i < order.len() && 0 <= j < order.len() && arc(
                g@,
                order[i] as int,
                order[j] as int,
            ) implies j < i by {
            let a = order[i] as int;
            let k = choose|k: int| 0 <= k < g[a].len() && leads(#[trigger] g[a][k], order[j] as int);
            assert(points(g[a][k], g@.len()));
        }
        assert forall|x: usize| x < g.len() implies #[trigger] order@.contains(x) by {
            assert(marks[x as int] == Mark::Done);
            assert(order@[rank[x as int] as int] == x);
        }
    }
    Some(order)
}

} // verus!
