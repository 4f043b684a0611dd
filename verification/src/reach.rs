//! Reachability over dependency maps: walks, paths and acyclicity, with the
//! lemmas that the ticket graph relies on.
use vstd::prelude::*;

verus! {

/// A dependency map sends each ticket id to the set of ids it depends on.
pub type DepMap = Map<Seq<char>, Set<Seq<char>>>;

/// The direct successors of `x` (what `x` depends on); empty for unknown ids.
pub open spec fn succ(m: DepMap, x: Seq<char>) -> Set<Seq<char>> {
    if m.dom().contains(x) {
        m[x]
    } else {
        Set::empty()
    }
}

/// Step `i` of `p` follows an edge of `m`.
pub open spec fn step(m: DepMap, p: Seq<Seq<char>>, i: int) -> bool {
    succ(m, p[i]).contains(p[i + 1])
}

/// `p` is a non-empty sequence of ids in which each id depends on its predecessor's successor.
pub open spec fn is_walk(m: DepMap, p: Seq<Seq<char>>) -> bool {
    &&& p.len() >= 1
    &&& forall|i: int| 0 <= i < p.len() - 1 ==> #[trigger] step(m, p, i)
}

/// `b` can be reached from `a` by following zero or more dependency edges.
pub open spec fn reaches(m: DepMap, a: Seq<char>, b: Seq<char>) -> bool {
    exists|p: Seq<Seq<char>>| #[trigger] is_walk(m, p) && p[0] == a && p.last() == b
}

/// No edge `a -> b` can be closed into a cycle by a walk from `b` back to `a`.
pub open spec fn acyclic(m: DepMap) -> bool {
    forall|a: Seq<char>, b: Seq<char>| #[trigger] succ(m, a).contains(b) ==> !reaches(m, b, a)
}

/// Every successor in `m2` is a successor in `m1`.
pub open spec fn edges_within(m2: DepMap, m1: DepMap) -> bool {
    forall|x: Seq<char>, y: Seq<char>| #[trigger] succ(m2, x).contains(y) ==> succ(m1, x).contains(y)
}

/// `c` is closed under the successor relation.
pub open spec fn closed_under_succ(m: DepMap, c: Set<Seq<char>>) -> bool {
    forall|x: Seq<char>, y: Seq<char>| c.contains(x) && #[trigger] succ(m, x).contains(y) ==> c.contains(y)
}

/// The one-element walk.
pub proof fn lemma_reaches_refl(m: DepMap, a: Seq<char>)
    ensures
        reaches(m, a, a),
{
    let p = seq![a];
    assert(is_walk(m, p));
}

/// A single edge is a walk.
pub proof fn lemma_edge_reaches(m: DepMap, a: Seq<char>, b: Seq<char>)
    requires
        succ(m, a).contains(b),
    ensures
        reaches(m, a, b),
{
    let p = seq![a, b];
    assert(step(m, p, 0));
    assert(is_walk(m, p));
}

/// Walks compose.
pub proof fn lemma_reaches_trans(m: DepMap, a: Seq<char>, b: Seq<char>, c: Seq<char>)
    requires
        reaches(m, a, b),
        reaches(m, b, c),
    ensures
        reaches(m, a, c),
{
    let p = choose|p: Seq<Seq<char>>| #[trigger] is_walk(m, p) && p[0] == a && p.last() == b;
    let q = choose|q: Seq<Seq<char>>| #[trigger] is_walk(m, q) && q[0] == b && q.last() == c;
    let r = p + q.drop_first();
    assert forall|i: int| 0 <= i < r.len() - 1 implies #[trigger] step(m, r, i) by {
        if i < p.len() - 1 {
            assert(step(m, p, i));
        } else if i == p.len() - 1 {
            assert(step(m, q, 0));
        } else {
            assert(step(m, q, i - p.len() + 1));
        }
    }
    assert(is_walk(m, r));
    if q.len() == 1 {
        assert(r.last() == p.last());
    } else {
        assert(r.last() == q.last());
    }
}

/// An edge followed by a walk.
pub proof fn lemma_edge_then_reaches(m: DepMap, a: Seq<char>, b: Seq<char>, c: Seq<char>)
    requires
        succ(m, a).contains(b),
        reaches(m, b, c),
    ensures
        reaches(m, a, c),
{
    lemma_edge_reaches(m, a, b);
    lemma_reaches_trans(m, a, b, c);
}

/// A set closed under successors that holds `a` holds everything reachable from `a`.
pub proof fn lemma_closed_set_holds_reachable(m: DepMap, c: Set<Seq<char>>, a: Seq<char>, b: Seq<char>)
    requires
        closed_under_succ(m, c),
        c.contains(a),
        reaches(m, a, b),
    ensures
        c.contains(b),
{
    let p = choose|p: Seq<Seq<char>>| #[trigger] is_walk(m, p) && p[0] == a && p.last() == b;
    assert forall|i: int| 0 <= i < p.len() implies c.contains(#[trigger] p[i]) by {
        lemma_walk_prefix_in_closed_set(m, c, p, i);
    }
    assert(c.contains(p[p.len() - 1]));
}

proof fn lemma_walk_prefix_in_closed_set(m: DepMap, c: Set<Seq<char>>, p: Seq<Seq<char>>, i: int)
    requires
        closed_under_succ(m, c),
        is_walk(m, p),
        c.contains(p[0]),
        0 <= i < p.len(),
    ensures
        c.contains(p[i]),
    decreases i,
{
    if i > 0 {
        lemma_walk_prefix_in_closed_set(m, c, p, i - 1);
        assert(step(m, p, i - 1));
    }
}

/// Walks of a map with fewer edges are walks of the larger one.
pub proof fn lemma_reaches_within(m2: DepMap, m1: DepMap, a: Seq<char>, b: Seq<char>)
    requires
        edges_within(m2, m1),
        reaches(m2, a, b),
    ensures
        reaches(m1, a, b),
{
    let p = choose|p: Seq<Seq<char>>| #[trigger] is_walk(m2, p) && p[0] == a && p.last() == b;
    assert forall|i: int| 0 <= i < p.len() - 1 implies #[trigger] step(m1, p, i) by {
        assert(step(m2, p, i));
    }
    assert(is_walk(m1, p));
}

/// Taking edges away never creates a cycle.
pub proof fn lemma_acyclic_within(m2: DepMap, m1: DepMap)
    requires
        edges_within(m2, m1),
        acyclic(m1),
    ensures
        acyclic(m2),
{
    assert forall|a: Seq<char>, b: Seq<char>| #[trigger] succ(m2, a).contains(b) implies !reaches(m2, b, a) by {
        if reaches(m2, b, a) {
            lemma_reaches_within(m2, m1, b, a);
            assert(succ(m1, a).contains(b));
        }
    }
}

/// The map with the edge `a -> b` added.
pub open spec fn with_edge(m: DepMap, a: Seq<char>, b: Seq<char>) -> DepMap {
    m.insert(a, succ(m, a).insert(b))
}

/// A walk in the map with the extra edge `a -> b` (when `b` does not reach `a`)
/// either is a walk of the original map, or passes through the new edge once.
proof fn lemma_walk_with_edge(m: DepMap, a: Seq<char>, b: Seq<char>, p: Seq<Seq<char>>)
    requires
        is_walk(with_edge(m, a, b), p),
        !reaches(m, b, a),
    ensures
        reaches(m, p[0], p.last()) || (reaches(m, p[0], a) && reaches(m, b, p.last())),
    decreases p.len(),
{
    let m2 = with_edge(m, a, b);
    if p.len() == 1 {
        lemma_reaches_refl(m, p[0]);
    } else {
        let rest = p.drop_first();
        assert forall|i: int| 0 <= i < rest.len() - 1 implies #[trigger] step(m2, rest, i) by {
            assert(step(m2, p, i + 1));
        }
        lemma_walk_with_edge(m, a, b, rest);
        assert(step(m2, p, 0));
        let u = p[0];
        let w = p[1];
        assert(rest[0] == w);
        assert(rest.last() == p.last());
        if succ(m, u).contains(w) {
            if reaches(m, w, p.last()) {
                lemma_edge_then_reaches(m, u, w, p.last());
            } else {
                lemma_edge_then_reaches(m, u, w, a);
            }
        } else {
            assert(u == a && w == b);
            lemma_reaches_refl(m, a);
            if !reaches(m, b, p.last()) {
                assert(reaches(m, w, a));
            }
        }
    }
}

/// Adding an edge `a -> b` keeps the map acyclic when `b` does not already reach `a`.
pub proof fn lemma_add_edge_keeps_acyclic(m: DepMap, a: Seq<char>, b: Seq<char>)
    requires
        acyclic(m),
        !reaches(m, b, a),
    ensures
        acyclic(with_edge(m, a, b)),
{
    let m2 = with_edge(m, a, b);
    assert forall|x: Seq<char>, y: Seq<char>| #[trigger] succ(m2, x).contains(y) implies !reaches(m2, y, x) by {
        if reaches(m2, y, x) {
            let p = choose|p: Seq<Seq<char>>| #[trigger] is_walk(m2, p) && p[0] == y && p.last() == x;
            lemma_walk_with_edge(m, a, b, p);
            if succ(m, x).contains(y) {
                if reaches(m, y, x) {
                    assert(!reaches(m, y, x));
                } else {
                    // b reaches x, x -> y, y reaches a
                    lemma_edge_then_reaches(m, x, y, a);
                    lemma_reaches_trans(m, b, x, a);
                }
            } else {
                assert(x == a && y == b);
                if !reaches(m, y, x) {
                    lemma_reaches_trans(m, b, x, a);
                }
            }
        }
    }
}


/// `dents` holds exactly the reversed edges of `deps`.
pub open spec fn mirrored(deps: DepMap, dents: DepMap) -> bool {
    forall|a: Seq<char>, b: Seq<char>| #[trigger] succ(deps, a).contains(b) <==> #[trigger] succ(dents, b).contains(a)
}

/// Adding an edge and its reverse keeps two maps mirrored.
pub proof fn lemma_mirrored_with_edge(deps: DepMap, dents: DepMap, a: Seq<char>, b: Seq<char>)
    requires
        mirrored(deps, dents),
    ensures
        mirrored(with_edge(deps, a, b), with_edge(dents, b, a)),
{
    let d2 = with_edge(deps, a, b);
    let r2 = with_edge(dents, b, a);
    assert forall|x: Seq<char>, y: Seq<char>| #[trigger] succ(d2, x).contains(y) <==> #[trigger] succ(r2, y).contains(x) by {
        assert(succ(d2, x).contains(y) == (succ(deps, x).contains(y) || (x == a && y == b)));
        assert(succ(r2, y).contains(x) == (succ(dents, y).contains(x) || (y == b && x == a)));
    }
}

/// The map with the edge `a -> b` removed.
pub open spec fn without_edge(m: DepMap, a: Seq<char>, b: Seq<char>) -> DepMap {
    if m.dom().contains(a) {
        m.insert(a, m[a].remove(b))
    } else {
        m
    }
}

/// Removing an edge and its reverse keeps two maps mirrored.
pub proof fn lemma_mirrored_without_edge(deps: DepMap, dents: DepMap, a: Seq<char>, b: Seq<char>)
    requires
        mirrored(deps, dents),
    ensures
        mirrored(without_edge(deps, a, b), without_edge(dents, b, a)),
{
    let d2 = without_edge(deps, a, b);
    let r2 = without_edge(dents, b, a);
    assert forall|x: Seq<char>, y: Seq<char>| #[trigger] succ(d2, x).contains(y) <==> #[trigger] succ(r2, y).contains(x) by {
        if x == a && y == b {
            assert(!succ(d2, x).contains(y));
            assert(!succ(r2, y).contains(x));
        } else {
            assert(succ(d2, x).contains(y) == succ(deps, x).contains(y));
            assert(succ(r2, y).contains(x) == succ(dents, y).contains(x));
        }
    }
}

/// Adding an unreferenced id without edges keeps two maps mirrored.
pub proof fn lemma_mirrored_fresh(deps: DepMap, dents: DepMap, k: Seq<char>)
    requires
        mirrored(deps, dents),
        !deps.dom().contains(k),
        !dents.dom().contains(k),
    ensures
        mirrored(deps.insert(k, Set::empty()), dents.insert(k, Set::empty())),
{
    let d2 = deps.insert(k, Set::empty());
    let r2 = dents.insert(k, Set::empty());
    assert forall|x: Seq<char>, y: Seq<char>| #[trigger] succ(d2, x).contains(y) <==> #[trigger] succ(r2, y).contains(x) by {
        if succ(d2, x).contains(y) {
            assert(succ(deps, x).contains(y));
            assert(succ(dents, y).contains(x));
        }
        if succ(r2, y).contains(x) {
            assert(succ(dents, y).contains(x));
            assert(succ(deps, x).contains(y));
        }
    }
}

/// Removing an edge that was just added (and was not there before) restores the map.
pub proof fn lemma_without_with_edge(m: DepMap, a: Seq<char>, b: Seq<char>)
    requires
        m.dom().contains(a),
        !m[a].contains(b),
    ensures
        without_edge(with_edge(m, a, b), a, b) == m,
{
    let m2 = with_edge(m, a, b);
    assert(m2.dom().contains(a));
    assert(m2[a] == m[a].insert(b));
    assert(m2[a].remove(b) =~= m[a]);
    assert(without_edge(m2, a, b) == m2.insert(a, m2[a].remove(b)));
    assert(without_edge(m2, a, b) =~= m);
}

} // verus!
