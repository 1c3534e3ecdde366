//! What can be reached along directed edges.
use crate::collections::{Key, VecSet};
use vstd::prelude::*;

verus! {

/// Whether `n` steps along `next` lead from one node to another.
pub open spec fn path<A>(next: spec_fn(A) -> Seq<A>, from: A, to: A, n: nat) -> bool
    decreases n,
{
    if n == 0 {
        from == to
    } else {
        exists|i: int| 0 <= i < next(from).len() && path(next, #[trigger] next(from)[i], to, (n - 1) as nat)
    }
}

/// Whether a node is one of `roots` or lies on a path from one.
pub open spec fn reachable<A>(next: spec_fn(A) -> Seq<A>, roots: Seq<A>, to: A) -> bool {
    exists|i: int, n: nat| 0 <= i < roots.len() && #[trigger] path(next, roots[i], to, n)
}

proof fn lemma_path_further<A>(next: spec_fn(A) -> Seq<A>, from: A, to: A, n: nat, j: int)
    requires
        path(next, from, to, n),
        0 <= j < next(to).len(),
    ensures
        path(next, from, next(to)[j], n + 1),
    decreases n,
{
    if n == 0 {
        assert(path(next, next(from)[j], next(to)[j], 0));
    } else {
        let i = choose|i: int| 0 <= i < next(from).len() && path(next, #[trigger] next(from)[i], to, (n - 1) as nat);
        lemma_path_further(next, next(from)[i], to, (n - 1) as nat, j);
        assert(path(next, next(from)[i], next(to)[j], ((n + 1) - 1) as nat));
    }
}

/// The nodes after a reachable one are reachable.
pub proof fn lemma_reachable_further<A>(next: spec_fn(A) -> Seq<A>, roots: Seq<A>, to: A, j: int)
    requires
        reachable(next, roots, to),
        0 <= j < next(to).len(),
    ensures
        reachable(next, roots, next(to)[j]),
{
    let (i, n) = choose|i: int, n: nat| 0 <= i < roots.len() && #[trigger] path(next, roots[i], to, n);
    lemma_path_further(next, roots[i], to, n, j);
    assert(path(next, roots[i], next(to)[j], n + 1));
}

pub proof fn lemma_roots_reachable<A>(next: spec_fn(A) -> Seq<A>, roots: Seq<A>, i: int)
    requires
        0 <= i < roots.len(),
    ensures
        reachable(next, roots, roots[i]),
{
    assert(path(next, roots[i], roots[i], 0));
}

/// What is reachable from several roots is reachable from one of them.
pub proof fn lemma_reachable_from_one<A>(next: spec_fn(A) -> Seq<A>, roots: Seq<A>, to: A)
    ensures
        reachable(next, roots, to) <==> exists|i: int| 0 <= i < roots.len() && reachable(next, seq![#[trigger] roots[i]], to),
{
    if reachable(next, roots, to) {
        let (i, n) = choose|i: int, n: nat| 0 <= i < roots.len() && #[trigger] path(next, roots[i], to, n);
        assert(seq![roots[i]][0] == roots[i]);
        assert(path(next, seq![roots[i]][0], to, n));
        assert(reachable(next, seq![roots[i]], to));
    }
    if exists|i: int| 0 <= i < roots.len() && reachable(next, seq![#[trigger] roots[i]], to) {
        let i = choose|i: int| 0 <= i < roots.len() && reachable(next, seq![#[trigger] roots[i]], to);
        let (j, n) = choose|j: int, n: nat| 0 <= j < seq![roots[i]].len() && #[trigger] path(next, seq![roots[i]][j], to, n);
        assert(path(next, roots[i], to, n));
    }
}

proof fn lemma_closed_path<A>(next: spec_fn(A) -> Seq<A>, closed: Set<A>, from: A, to: A, n: nat)
    requires
        closed.contains(from),
        forall|a: A, i: int| closed.contains(a) && 0 <= i < next(a).len() ==> closed.contains(#[trigger] next(a)[i]),
        path(next, from, to, n),
    ensures
        closed.contains(to),
    decreases n,
{
    if n > 0 {
        let i = choose|i: int| 0 <= i < next(from).len() && path(next, #[trigger] next(from)[i], to, (n - 1) as nat);
        lemma_closed_path(next, closed, next(from)[i], to, (n - 1) as nat);
    }
}

/// A set that holds the roots and what follows each of its members holds all
/// that is reachable.
pub proof fn lemma_closed_holds_reachable<A>(next: spec_fn(A) -> Seq<A>, roots: Seq<A>, closed: Set<A>, to: A)
    requires
        forall|i: int| 0 <= i < roots.len() ==> closed.contains(#[trigger] roots[i]),
        forall|a: A, i: int| closed.contains(a) && 0 <= i < next(a).len() ==> closed.contains(#[trigger] next(a)[i]),
        reachable(next, roots, to),
    ensures
        closed.contains(to),
{
    let (i, n) = choose|i: int, n: nat| 0 <= i < roots.len() && #[trigger] path(next, roots[i], to, n);
    lemma_closed_path(next, closed, roots[i], to, n);
}

/// How many of `keys` have not been visited.
pub open spec fn unvisited<A>(keys: Seq<A>, visited: Set<A>) -> nat
    decreases keys.len(),
{
    if keys.len() == 0 {
        0
    } else {
        unvisited(keys.drop_last(), visited) + (if visited.contains(keys.last()) {
            0nat
        } else {
            1nat
        })
    }
}

/// A visit never adds to what is unvisited, and the first visit of a key
/// takes from it.
pub proof fn lemma_unvisited<A>(keys: Seq<A>, visited: Set<A>, a: A)
    ensures
        unvisited(keys, visited.insert(a)) <= unvisited(keys, visited),
        keys.contains(a) && !visited.contains(a) ==> unvisited(keys, visited.insert(a)) < unvisited(keys, visited),
    decreases keys.len(),
{
    if keys.len() > 0 {
        lemma_unvisited(keys.drop_last(), visited, a);
        if keys.contains(a) && !visited.contains(a) && keys.last() != a {
            let i = choose|i: int| 0 <= i < keys.len() && keys[i] == a;
            assert(keys.drop_last()[i] == a);
        }
    }
}

/// The nodes reachable from `roots`. Only members of `keys` have successors.
pub(crate) fn reach<A: Key, F: Fn(&A) -> Vec<A>>(
    roots: Vec<A>,
    f: F,
    Ghost(next): Ghost<spec_fn(A::V) -> Seq<A::V>>,
    Ghost(keys): Ghost<Seq<A::V>>,
) -> (r: VecSet<A>)
    requires
        forall|a: &A| f.requires((a,)),
        forall|a: &A, v: Vec<A>| f.ensures((a,), v) ==> v.deep_view() == next(a.deep_view()),
        forall|a: A::V| #[trigger] next(a).len() > 0 ==> keys.contains(a),
    ensures
        forall|t: A::V| #[trigger] r@.contains(t) <==> reachable(next, roots.deep_view(), t),
{
    let ghost start = roots.deep_view();
    let mut pending = roots;
    let mut visited: VecSet<A> = VecSet::new();
    proof {
        assert forall|i: int| 0 <= i < pending.deep_view().len() implies reachable(next, start, #[trigger] pending.deep_view()[i]) by {
            lemma_roots_reachable(next, start, i);
        }
        assert forall|i: int| 0 <= i < start.len() implies pending.deep_view().contains(#[trigger] start[i]) by {
            assert(pending.deep_view()[i] == start[i]);
        }
    }
    while pending.len() > 0
        invariant
            forall|a: &A| f.requires((a,)),
            forall|a: &A, v: Vec<A>| f.ensures((a,), v) ==> v.deep_view() == next(a.deep_view()),
            forall|a: A::V| #[trigger] next(a).len() > 0 ==> keys.contains(a),
            forall|t: A::V| #[trigger] visited@.contains(t) ==> reachable(next, start, t),
            forall|i: int| 0 <= i < pending.deep_view().len() ==> reachable(next, start, #[trigger] pending.deep_view()[i]),
            forall|i: int| 0 <= i < start.len() ==> visited@.contains(#[trigger] start[i]) || pending.deep_view().contains(start[i]),
            forall|a: A::V, i: int|
                visited@.contains(a) && 0 <= i < next(a).len() ==> visited@.contains(#[trigger] next(a)[i]) || pending.deep_view().contains(
                    next(a)[i],
                ),
        decreases unvisited(keys, visited@), pending.len(),
    {
        let ghost before = pending.deep_view();
        let ghost seen = visited@;
        match pending.pop() {
            None => {
                assert(false);
            },
            Some(node) => {
                let ghost a = node.deep_view();
                proof {
                    assert(before.last() == a);
                    assert(pending.deep_view() =~= before.drop_last());
                    assert(reachable(next, start, before[before.len() - 1]));
                    assert forall|x: A::V| before.contains(x) && x != a implies pending.deep_view().contains(x) by {
                        let j = choose|j: int| 0 <= j < before.len() && before[j] == x;
                        assert(pending.deep_view()[j] == x);
                    }
                    assert forall|i: int| 0 <= i < pending.deep_view().len() implies reachable(next, start, #[trigger] pending.deep_view()[i]) by {
                        assert(before[i] == pending.deep_view()[i]);
                    }
                }
                if !visited.contains(&node) {
                    let more = f(&node);
                    let ghost added = more.deep_view();
                    let ghost rest = pending.deep_view();
                    visited.insert(node);
                    let mut more = more;
                    pending.append(&mut more);
                    proof {
                        lemma_unvisited(keys, seen, a);
                        assert(pending.deep_view() =~= rest + added);
                        assert forall|i: int| 0 <= i < pending.deep_view().len() implies reachable(
                            next,
                            start,
                            #[trigger] pending.deep_view()[i],
                        ) by {
                            if i < rest.len() {
                                assert(rest[i] == pending.deep_view()[i]);
                            } else {
                                lemma_reachable_further(next, start, a, i - rest.len());
                            }
                        }
                        assert forall|x: A::V| rest.contains(x) implies pending.deep_view().contains(x) by {
                            let j = choose|j: int| 0 <= j < rest.len() && rest[j] == x;
                            assert(pending.deep_view()[j] == x);
                        }
                        assert forall|b: A::V, i: int| visited@.contains(b) && 0 <= i < next(b).len() implies visited@.contains(
                            #[trigger] next(b)[i],
                        ) || pending.deep_view().contains(next(b)[i]) by {
                            if b == a {
                                assert(pending.deep_view()[rest.len() + i] == added[i]);
                            } else {
                                assert(seen.contains(b));
                            }
                        }
                        if added.len() == 0 {
                            assert(pending.deep_view() =~= rest);
                        }
                    }
                }
            },
        }
    }
    proof {
        assert(pending.deep_view() =~= Seq::<A::V>::empty());
        assert forall|t: A::V| reachable(next, start, t) implies #[trigger] visited@.contains(t) by {
            lemma_closed_holds_reachable(next, start, visited@, t);
        }
    }
    visited
}

} // verus!
