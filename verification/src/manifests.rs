//! Manifests and the order in which they run.

use crate::actions::Actions;
use crate::errors::LoadError;
use crate::graph::{arc, has_cycle, is_cycle, is_topological, leads, topological_order, Table};
use vstd::prelude::*;

verus! {

/// A named group of actions, with the manifests that must run before it.
#[derive(Debug)]
pub struct Manifest {
    /// The name by which other manifests refer to this one.
    pub name: String,
    /// The names of the manifests that must run first.
    pub depends: Vec<String>,
    /// The actions, in the order in which they run.
    pub actions: Vec<Actions>,
    /// The variables that hold for this manifest only.
    pub variables: Vec<(String, String)>,
}

/// Some manifest of the set has this name.
pub open spec fn known(ms: Seq<Manifest>, name: Seq<char>) -> bool {
    exists|i: int| 0 <= i < ms.len() && (#[trigger] ms[i]).name@ == name
}

/// Manifest `i` is the one that `name` refers to: the first with that name.
pub open spec fn is_named(ms: Seq<Manifest>, name: Seq<char>, i: int) -> bool {
    &&& 0 <= i < ms.len()
    &&& ms[i].name@ == name
    &&& forall|j: int| 0 <= j < i ==> (#[trigger] ms[j]).name@ != name
}

/// Manifest `a` names manifest `b` among its dependencies.
pub open spec fn depends_on(ms: Seq<Manifest>, a: int, b: int) -> bool {
    0 <= a < ms.len() && exists|k: int|
        0 <= k < ms[a].depends.len() && is_named(ms, (#[trigger] ms[a].depends[k])@, b)
}

/// The dependencies lead from each manifest of `p` to the next, and from the
/// last back to the first.
pub open spec fn is_dependency_cycle(ms: Seq<Manifest>, p: Seq<int>) -> bool {
    &&& p.len() > 0
    &&& forall|t: int| 0 <= t < p.len() - 1 ==> depends_on(ms, #[trigger] p[t], p[t + 1])
    &&& depends_on(ms, p.last(), p[0])
}

/// Some manifests depend on each other in a circle.
pub open spec fn has_dependency_cycle(ms: Seq<Manifest>) -> bool {
    exists|p: Seq<int>| is_dependency_cycle(ms, p)
}

/// Dependency `k` of manifest `a` names no manifest of the set.
pub open spec fn unknown_at(ms: Seq<Manifest>, a: int, k: int) -> bool {
    0 <= a < ms.len() && 0 <= k < ms[a].depends.len() && !known(ms, ms[a].depends[k]@)
}

/// Dependency `k` of manifest `a` is the first, in declared order, that names
/// no manifest of the set.
pub open spec fn first_unknown_at(ms: Seq<Manifest>, a: int, k: int) -> bool {
    &&& unknown_at(ms, a, k)
    &&& forall|a2: int, k2: int| #[trigger]
        unknown_at(ms, a2, k2) ==> a < a2 || (a == a2 && k <= k2)
}

/// `order` lists every manifest once, each after all manifests it depends on.
pub open spec fn is_ordering(ms: Seq<Manifest>, order: Seq<usize>) -> bool {
    &&& order.len() == ms.len()
    &&& forall|i: int| 0 <= i < order.len() ==> (#[trigger] order[i]) < ms.len()
    &&& forall|i: int, j: int| 0 <= i < j < order.len() ==> order[i] != order[j]
    &&& forall|x: usize| x < ms.len() ==> #[trigger] order.contains(x)
    &&& forall|i: int, j: int|
        0 <= i < order.len() && 0 <= j < order.len() && depends_on(
            ms,
            order[i] as int,
            order[j] as int,
        ) ==> j < i
}

/// The table holds, for every dependency of every manifest, the manifest it
/// refers to, or nothing where it refers to none.
spec fn linked(ms: Seq<Manifest>, g: Table) -> bool {
    &&& g.len() == ms.len()
    &&& forall|a: int| 0 <= a < g.len() ==> (#[trigger] g[a]).len() == ms[a].depends.len()
    &&& forall|a: int, k: int|
        0 <= a < g.len() && 0 <= k < g[a].len() ==> match #[trigger] g[a][k] {
            Some(b) => is_named(ms, ms[a].depends[k]@, b as int),
            None => !known(ms, ms[a].depends[k]@),
        }
}

proof fn lemma_linked_arcs(ms: Seq<Manifest>, g: Table)
    requires
        linked(ms, g),
    ensures
        forall|a: int, b: int| arc(g, a, b) <==> depends_on(ms, a, b),
{
    assert forall|a: int, b: int| arc(g, a, b) <==> depends_on(ms, a, b) by {
        if arc(g, a, b) {
            let k = choose|k: int| 0 <= k < g[a].len() && leads(#[trigger] g[a][k], b);
            assert(is_named(ms, ms[a].depends[k]@, b));
        }
        if depends_on(ms, a, b) {
            let k = choose|k: int|
                0 <= k < ms[a].depends.len() && is_named(ms, (#[trigger] ms[a].depends[k])@, b);
            assert(g[a].len() == ms[a].depends.len());
            match g[a][k] {
                Some(c) => {
                    assert(is_named(ms, ms[a].depends[k]@, c as int));
                    assert(c == b);
                },
                None => {
                    assert(ms[b].name@ == ms[a].depends[k]@);
                },
            }
            assert(leads(g[a][k], b));
        }
    }
}

proof fn lemma_linked_cycles(ms: Seq<Manifest>, g: Table)
    requires
        linked(ms, g),
    ensures
        has_cycle(g) <==> has_dependency_cycle(ms),
        forall|order: Seq<usize>| is_topological(g, order) <==> is_ordering(ms, order),
{
    lemma_linked_arcs(ms, g);
    assert forall|p: Seq<int>| is_cycle(g, p) <==> is_dependency_cycle(ms, p) by {}
    if has_cycle(g) {
        let p = choose|p: Seq<int>| is_cycle(g, p);
        assert(is_dependency_cycle(ms, p));
    }
    if has_dependency_cycle(ms) {
        let p = choose|p: Seq<int>| is_dependency_cycle(ms, p);
        assert(is_cycle(g, p));
    }
}

/// Along dependencies, the place in an ordering goes down.
proof fn lemma_places_descend(ms: Seq<Manifest>, order: Seq<usize>, p: Seq<int>, t: int)
    requires
        ms.len() <= usize::MAX,
        is_ordering(ms, order),
        is_dependency_cycle(ms, p),
        0 <= t < p.len(),
    ensures
        0 <= p[t] < ms.len(),
        order.contains(p[t] as usize),
        order.index_of(p[t] as usize) + t <= order.index_of(p[0] as usize),
    decreases t,
{
    if t == 0 {
        if p.len() == 1 {
            assert(depends_on(ms, p.last(), p[0]));
        } else {
            assert(depends_on(ms, p[0], p[1]));
        }
        assert(order.contains(p[0] as usize));
    } else {
        lemma_places_descend(ms, order, p, t - 1);
        assert(depends_on(ms, p[t - 1], p[t]));
        law_dependencies_come_first(ms, order, p[t - 1], p[t]);
    }
}

/// Only manifests that do not depend on each other in a circle can be put in
/// order: where an ordering exists, there is no circle.
pub proof fn law_ordered_manifests_have_no_cycle(ms: Seq<Manifest>, order: Seq<usize>)
    requires
        ms.len() <= usize::MAX,
        is_ordering(ms, order),
    ensures
        !has_dependency_cycle(ms),
{
    assert forall|p: Seq<int>| is_dependency_cycle(ms, p) implies false by {
        let last = p.len() - 1;
        lemma_places_descend(ms, order, p, last);
        lemma_places_descend(ms, order, p, 0);
        law_dependencies_come_first(ms, order, p[last], p[0]);
    }
}

/// In an ordering, whatever a manifest depends on has its place before it.
pub proof fn law_dependencies_come_first(ms: Seq<Manifest>, order: Seq<usize>, a: int, b: int)
    requires
        ms.len() <= usize::MAX,
        is_ordering(ms, order),
        depends_on(ms, a, b),
    ensures
        order.contains(a as usize),
        order.contains(b as usize),
        order.index_of(b as usize) < order.index_of(a as usize),
{
    let k = choose|k: int|
        0 <= k < ms[a].depends.len() && is_named(ms, (#[trigger] ms[a].depends[k])@, b);
    assert(0 <= b < ms.len());
    assert(order.contains(a as usize));
    assert(order.contains(b as usize));
    let i = order.index_of(a as usize);
    let j = order.index_of(b as usize);
    assert(order[i] as int == a && order[j] as int == b);
    assert(depends_on(ms, order[i] as int, order[j] as int));
}

/// Finds the manifest that `name` refers to.
pub fn find(manifests: &Vec<Manifest>, name: &String) -> (r: Option<usize>)
    ensures
        match r {
            Some(i) => is_named(manifests@, name@, i as int),
            None => !known(manifests@, name@),
        },
{
    let mut i: usize = 0;
    while i < manifests.len()
        invariant
            i <= manifests.len(),
            forall|j: int| 0 <= j < i ==> (#[trigger] manifests@[j]).name@ != name@,
        decreases manifests.len() - i,
    {
        if manifests[i].name == *name {
            return Some(i);
        }
        i += 1;
    }
    None
}

/// Resolves every dependency of every manifest.
fn link(manifests: &Vec<Manifest>) -> (g: Vec<Vec<Option<usize>>>)
    ensures
        linked(manifests@, g@),
{
    let mut g: Vec<Vec<Option<usize>>> = Vec::new();
    let mut a: usize = 0;
    while a < manifests.len()
        invariant
            a <= manifests.len(),
            g.len() == a,
            forall|x: int| 0 <= x < a ==> (#[trigger] g[x]).len() == manifests[x].depends.len(),
            forall|x: int, k: int|
                0 <= x < a && 0 <= k < g[x].len() ==> match #[trigger] g[x][k] {
                    Some(b) => is_named(manifests@, manifests[x].depends[k]@, b as int),
                    None => !known(manifests@, manifests[x].depends[k]@),
                },
        decreases manifests.len() - a,
    {
        let mut row: Vec<Option<usize>> = Vec::new();
        let mut k: usize = 0;
        while k < manifests[a].depends.len()
            invariant
                a < manifests.len(),
                k <= manifests[a as int].depends.len(),
                row.len() == k,
                forall|j: int|
                    0 <= j < k ==> match #[trigger] row[j] {
                        Some(b) => is_named(manifests@, manifests[a as int].depends[j]@, b as int),
                        None => !known(manifests@, manifests[a as int].depends[j]@),
                    },
            decreases manifests[a as int].depends.len() - k,
        {
            let target = find(manifests, &manifests[a].depends[k]);
            row.push(target);
            k += 1;
        }
        g.push(row);
        a += 1;
    }
    g
}

/// Finds the first dependency, in declared order, that names no manifest.
fn first_unknown(manifests: &Vec<Manifest>, g: &Vec<Vec<Option<usize>>>) -> (r: Option<
    (usize, usize),
>)
    requires
        linked(manifests@, g@),
    ensures
        match r {
            Some((a, k)) => first_unknown_at(manifests@, a as int, k as int),
            None => forall|a: int, k: int| !unknown_at(manifests@, a, k),
        },
{
    let mut a: usize = 0;
    while a < g.len()
        invariant
            linked(manifests@, g@),
            a <= g.len(),
            forall|x: int, k: int| 0 <= x < a ==> !unknown_at(manifests@, x, k),
        decreases g.len() - a,
    {
        let mut k: usize = 0;
        while k < g[a].len()
            invariant
                linked(manifests@, g@),
                a < g.len(),
                k <= g[a as int].len(),
                forall|x: int, j: int| 0 <= x < a ==> !unknown_at(manifests@, x, j),
                forall|j: int| 0 <= j < k ==> !unknown_at(manifests@, a as int, j),
            decreases g[a as int].len() - k,
        {
            if g[a][k].is_none() {
                assert(g@[a as int][k as int] is None);
                return Some((a, k));
            }
            assert(g@[a as int][k as int] is Some);
            assert(known(manifests@, manifests[a as int].depends[k as int]@));
            k += 1;
        }
        a += 1;
    }
    None
}

/// Puts the manifests in an order in which each runs after all manifests it
/// depends on.
///
/// A circle of dependencies is reported before anything else. Where there is
/// none, the first dependency that names no manifest is reported. The order
/// is returned exactly when neither is found.
pub fn resolve(manifests: &Vec<Manifest>) -> (r: Result<Vec<usize>, LoadError>)
    ensures
        has_dependency_cycle(manifests@) ==> r matches Err(LoadError::DependencyCycle),
        match r {
            Ok(order) => {
                &&& !has_dependency_cycle(manifests@)
                &&& forall|a: int, k: int| !unknown_at(manifests@, a, k)
                &&& is_ordering(manifests@, order@)
            },
            Err(LoadError::DependencyCycle) => has_dependency_cycle(manifests@),
            Err(LoadError::UnknownDependency { manifest, dependency }) => {
                &&& !has_dependency_cycle(manifests@)
                &&& exists|a: int, k: int|
                    {
                        &&& #[trigger] first_unknown_at(manifests@, a, k)
                        &&& manifest@ == manifests[a].name@
                        &&& dependency@ == manifests[a].depends[k]@
                    }
            },
        },
{
    let g = link(manifests);
    proof {
        lemma_linked_cycles(manifests@, g@);
        lemma_linked_arcs(manifests@, g@);
    }
    match topological_order(&g) {
        None => Err(LoadError::DependencyCycle),
        Some(order) => match first_unknown(manifests, &g) {
            Some((a, k)) => {
                let manifest = manifests[a].name.clone();
                let dependency = manifests[a].depends[k].clone();
                assert(first_unknown_at(manifests@, a as int, k as int));
                Err(LoadError::UnknownDependency { manifest, dependency })
            },
            None => Ok(order),
        },
    }
}

} // verus!
