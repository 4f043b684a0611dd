//! Story graphs: nodes joined by directed edges from a root, and the
//! queries that walk them (paths, depth, children, parents, leaves).
use vstd::prelude::*;
use vstd::set_lib::*;
use crate::types::{NodeState, NodeType};

verus! {

/// An option offered at a node, with the node it leads to once linked.
#[derive(Debug, Clone)]
pub struct Choice {
    pub description: String,
    pub target_node_id: Option<u128>,
}

/// A situation in a story, identified by a 128-bit identifier.
#[derive(Debug, Clone)]
pub struct StoryNode {
    pub id: u128,
    pub node_type: NodeType,
    pub situation: String,
    pub choices: Vec<Choice>,
    pub state: NodeState,
}

/// A directed link from one node to another.
#[derive(Debug, Clone, Copy, PartialEq, Eq, Structural)]
pub struct StoryEdge {
    pub from_node_id: u128,
    pub to_node_id: u128,
}

/// A story: its nodes, the edges between them, where it starts and where the
/// reader currently is.
#[derive(Debug, Clone)]
pub struct StoryGraph {
    pub title: String,
    pub description: Option<String>,
    pub nodes: Vec<StoryNode>,
    pub edges: Vec<StoryEdge>,
    pub root_node_id: Option<u128>,
    pub current_node_id: Option<u128>,
}

impl Default for StoryGraph {
    /// An untitled story with no nodes or edges, no root and no current node.
    fn default() -> (g: StoryGraph)
        ensures
            g.title@.len() == 0,
            g.description is None,
            g.nodes@.len() == 0,
            g.edges@.len() == 0,
            g.root_node_id is None,
            g.current_node_id is None,
    {
        StoryGraph {
            title: String::new(),
            description: None,
            nodes: Vec::new(),
            edges: Vec::new(),
            root_node_id: None,
            current_node_id: None,
        }
    }
}

/// Some edge goes from `a` to `b`.
pub open spec fn has_edge(edges: Seq<StoryEdge>, a: u128, b: u128) -> bool {
    exists|j: int| 0 <= j < edges.len() && #[trigger] edges[j] == StoryEdge { from_node_id: a, to_node_id: b }
}

/// Position `i` of `p` is joined to position `i + 1` by an edge.
pub open spec fn step_ok(edges: Seq<StoryEdge>, p: Seq<u128>, i: int) -> bool {
    has_edge(edges, p[i], p[i + 1])
}

/// `p` is a non-empty sequence of nodes, each joined to the next by an edge.
pub open spec fn is_story_walk(edges: Seq<StoryEdge>, p: Seq<u128>) -> bool {
    &&& p.len() >= 1
    &&& forall|i: int| 0 <= i < p.len() - 1 ==> #[trigger] step_ok(edges, p, i)
}

/// `p` is a walk that starts at `a` and ends at `b`.
pub open spec fn walk_between(edges: Seq<StoryEdge>, p: Seq<u128>, a: u128, b: u128) -> bool {
    is_story_walk(edges, p) && p[0] == a && p.last() == b
}

/// `b` can be reached from `a` by following edges (in zero or more steps).
pub open spec fn story_reaches(edges: Seq<StoryEdge>, a: u128, b: u128) -> bool {
    exists|p: Seq<u128>| #[trigger] walk_between(edges, p, a, b)
}

/// No walk of one or more steps returns to where it started.
pub open spec fn story_acyclic(edges: Seq<StoryEdge>) -> bool {
    forall|p: Seq<u128>| #[trigger] is_story_walk(edges, p) && p.len() >= 2 ==> p[0] != p.last()
}

/// The targets of the edges leaving `id`, in edge order.
pub open spec fn children_of(edges: Seq<StoryEdge>, id: u128) -> Seq<u128>
    decreases edges.len(),
{
    if edges.len() == 0 {
        Seq::empty()
    } else {
        children_of(edges.drop_last(), id) + if edges.last().from_node_id == id {
            seq![edges.last().to_node_id]
        } else {
            Seq::empty()
        }
    }
}

/// The sources of the edges entering `id`, in edge order.
pub open spec fn parents_of(edges: Seq<StoryEdge>, id: u128) -> Seq<u128>
    decreases edges.len(),
{
    if edges.len() == 0 {
        Seq::empty()
    } else {
        parents_of(edges.drop_last(), id) + if edges.last().to_node_id == id {
            seq![edges.last().from_node_id]
        } else {
            Seq::empty()
        }
    }
}

/// Some edge leaves `id`.
pub open spec fn has_outgoing(edges: Seq<StoryEdge>, id: u128) -> bool {
    exists|j: int| 0 <= j < edges.len() && #[trigger] edges[j].from_node_id == id
}

/// The identifiers of the nodes that no edge leaves, in node order.
pub open spec fn leaf_ids(nodes: Seq<StoryNode>, edges: Seq<StoryEdge>) -> Seq<u128>
    decreases nodes.len(),
{
    if nodes.len() == 0 {
        Seq::empty()
    } else {
        leaf_ids(nodes.drop_last(), edges) + if has_outgoing(edges, nodes.last().id) {
            Seq::empty()
        } else {
            seq![nodes.last().id]
        }
    }
}

/// Edge indices whose target is not yet on the path, plus the root's slot
/// (index `edges.len()`) while the root is not on the path.
spec fn unvisited(edges: Seq<StoryEdge>, root: u128, path: Seq<u128>) -> Set<int> {
    Set::new(
        |j: int|
            0 <= j <= edges.len() && !path.contains(
                if j == edges.len() {
                    root
                } else {
                    edges[j].to_node_id
                },
            ),
    )
}

proof fn lemma_unvisited_shrinks(edges: Seq<StoryEdge>, root: u128, path: Seq<u128>, cur: u128)
    requires
        !path.contains(cur),
        cur == root || exists|j: int| 0 <= j < edges.len() && #[trigger] edges[j].to_node_id == cur,
    ensures
        unvisited(edges, root, path.push(cur)).len() < unvisited(edges, root, path).len(),
{
    let n = edges.len() as int;
    let u1 = unvisited(edges, root, path);
    let u2 = unvisited(edges, root, path.push(cur));
    let k: int = if cur == root {
        n
    } else {
        choose|j: int| 0 <= j < edges.len() && #[trigger] edges[j].to_node_id == cur
    };
    lemma_int_range(0, n + 1);
    assert(u1.subset_of(set_int_range(0, n + 1)));
    lemma_len_subset(u1, set_int_range(0, n + 1));
    assert(path.push(cur)[path.len() as int] == cur);
    assert(u1.contains(k));
    assert forall|j: int| u2.contains(j) implies u1.remove(k).contains(j) by {
        let v = if j == n { root } else { edges[j].to_node_id };
        if path.contains(v) {
            let i = choose|i: int| 0 <= i < path.len() && path[i] == v;
            assert(path.push(cur)[i] == v);
        }
    }
    lemma_len_subset(u2, u1.remove(k));
}

/// A walk in an acyclic graph never visits a node twice; in particular the
/// last node of a walk does not occur earlier in it.
proof fn lemma_walk_last_fresh(edges: Seq<StoryEdge>, p: Seq<u128>)
    requires
        story_acyclic(edges),
        is_story_walk(edges, p),
    ensures
        !p.drop_last().contains(p.last()),
{
    if p.drop_last().contains(p.last()) {
        let i = choose|i: int| 0 <= i < p.drop_last().len() && p.drop_last()[i] == p.last();
        let q = p.subrange(i, p.len() as int);
        assert forall|k: int| 0 <= k < q.len() - 1 implies #[trigger] step_ok(edges, q, k) by {
            assert(step_ok(edges, p, i + k));
        }
        assert(is_story_walk(edges, q));
        assert(q[0] == q.last());
    }
}

/// A walk that leaves `a` for somewhere else does so through one of `a`'s
/// edges, from whose target the rest of the walk continues.
proof fn lemma_walk_first_step(edges: Seq<StoryEdge>, p: Seq<u128>, a: u128, b: u128)
    requires
        walk_between(edges, p, a, b),
        a != b,
    ensures
        exists|j: int|
            0 <= j < edges.len() && #[trigger] edges[j].from_node_id == a && story_reaches(
                edges,
                edges[j].to_node_id,
                b,
            ),
{
    assert(p.len() >= 2);
    assert(step_ok(edges, p, 0));
    let j = choose|j: int|
        0 <= j < edges.len() && #[trigger] edges[j] == StoryEdge { from_node_id: p[0], to_node_id: p[1] };
    let q = p.drop_first();
    assert forall|k: int| 0 <= k < q.len() - 1 implies #[trigger] step_ok(edges, q, k) by {
        assert(step_ok(edges, p, k + 1));
    }
    assert(walk_between(edges, q, edges[j].to_node_id, b));
    assert(edges[j].from_node_id == a);
}

/// A walk followed by one more edge is a walk.
proof fn lemma_walk_push(edges: Seq<StoryEdge>, p: Seq<u128>, j: int)
    requires
        is_story_walk(edges, p),
        0 <= j < edges.len(),
        edges[j].from_node_id == p.last(),
    ensures
        is_story_walk(edges, p.push(edges[j].to_node_id)),
{
    let q = p.push(edges[j].to_node_id);
    assert forall|i: int| 0 <= i < q.len() - 1 implies #[trigger] step_ok(edges, q, i) by {
        if i < p.len() - 1 {
            assert(step_ok(edges, p, i));
        } else {
            assert(edges[j] == StoryEdge { from_node_id: q[i], to_node_id: q[i + 1] });
        }
    }
}

/// Queries over a story graph's edges.
pub struct StoryGraphUtils;

impl StoryGraphUtils {
    /// Depth-first search from `current_id` for `target_id`, extending `path`
    /// (the walk from the root that led to `current_id`).
    fn dfs_path(graph: &StoryGraph, current_id: u128, target_id: u128, path: &mut Vec<u128>) -> (r:
        Option<Vec<u128>>)
        requires
            story_acyclic(graph.edges@),
            graph.root_node_id is Some,
            is_story_walk(graph.edges@, old(path)@.push(current_id)),
            old(path)@.push(current_id)[0] == graph.root_node_id->0,
            current_id == graph.root_node_id->0 || exists|j: int|
                0 <= j < graph.edges@.len() && #[trigger] graph.edges@[j].to_node_id == current_id,
        ensures
            r is None ==> final(path)@ == old(path)@,
            r is None ==> !story_reaches(graph.edges@, current_id, target_id),
            r matches Some(p) ==> {
                &&& p@.len() > old(path)@.len()
                &&& p@.subrange(0, old(path)@.len() as int) == old(path)@
                &&& walk_between(
                    graph.edges@,
                    p@.subrange(old(path)@.len() as int, p@.len() as int),
                    current_id,
                    target_id,
                )
            },
        decreases unvisited(graph.edges@, graph.root_node_id->0, old(path)@).len(),
    {
        let ghost edges = graph.edges@;
        let ghost root = graph.root_node_id->0;
        let ghost start = path@;
        proof {
            lemma_walk_last_fresh(edges, start.push(current_id));
            assert(start.push(current_id).drop_last() =~= start);
            lemma_unvisited_shrinks(edges, root, start, current_id);
        }
        path.push(current_id);
        if current_id == target_id {
            let found = path.clone();
            proof {
                let q = found@.subrange(start.len() as int, found@.len() as int);
                assert(q =~= seq![current_id]);
                assert(is_story_walk(edges, q));
                assert(found@.subrange(0, start.len() as int) =~= start);
            }
            return Some(found);
        }
        let n = graph.edges.len();
        for j in 0..n
            invariant
                n == graph.edges@.len(),
                edges == graph.edges@,
                root == graph.root_node_id->0,
                graph.root_node_id is Some,
                story_acyclic(edges),
                path@ == start.push(current_id),
                start == old(path)@,
                is_story_walk(edges, start.push(current_id)),
                start.push(current_id)[0] == root,
                current_id != target_id,
                unvisited(edges, root, path@).len() < unvisited(edges, root, start).len(),
                forall|k: int|
                    0 <= k < j && #[trigger] edges[k].from_node_id == current_id ==> !story_reaches(
                        edges,
                        edges[k].to_node_id,
                        target_id,
                    ),
        {
            let e = graph.edges[j];
            if e.from_node_id == current_id {
                proof {
                    lemma_walk_push(edges, path@, j as int);
                    assert(path@.push(e.to_node_id)[0] == root);
                }
                let sub = Self::dfs_path(graph, e.to_node_id, target_id, path);
                match sub {
                    Some(p) => {
                        proof {
                            let m = start.len() as int;
                            let q = p@.subrange(m + 1, p@.len() as int);
                            let w = p@.subrange(m, p@.len() as int);
                            assert(p@.subrange(0, m + 1) == start.push(current_id));
                            assert(w =~= seq![current_id] + q);
                            assert forall|i: int| 0 <= i < w.len() - 1 implies #[trigger] step_ok(
                                edges,
                                w,
                                i,
                            ) by {
                                if i == 0 {
                                    assert(edges[j as int] == StoryEdge {
                                        from_node_id: w[0],
                                        to_node_id: w[1],
                                    });
                                } else {
                                    assert(step_ok(edges, q, i - 1));
                                }
                            }
                            assert(p@.subrange(0, m) =~= start) by {
                                assert(p@.subrange(0, m) =~= p@.subrange(0, m + 1).subrange(0, m));
                                assert(start.push(current_id).subrange(0, m) =~= start);
                            }
                        }
                        return Some(p);
                    },
                    None => {},
                }
            }
        }
        path.pop();
        proof {
            assert(path@ =~= start);
            if story_reaches(edges, current_id, target_id) {
                let w = choose|w: Seq<u128>| #[trigger] walk_between(edges, w, current_id, target_id);
                lemma_walk_first_step(edges, w, current_id, target_id);
            }
        }
        None
    }

    /// A walk from the root to `target_node_id`, when the graph has a root and
    /// the target can be reached from it.
    pub fn find_path_to_node(graph: &StoryGraph, target_node_id: u128) -> (r: Option<Vec<u128>>)
        requires
            story_acyclic(graph.edges@),
        ensures
            r is Some <==> (graph.root_node_id matches Some(root) && story_reaches(
                graph.edges@,
                root,
                target_node_id,
            )),
            r matches Some(p) ==> walk_between(
                graph.edges@,
                p@,
                graph.root_node_id->0,
                target_node_id,
            ),
    {
        match graph.root_node_id {
            Some(root_id) => {
                let mut path: Vec<u128> = Vec::new();
                proof {
                    assert(path@.push(root_id) =~= seq![root_id]);
                }
                let r = Self::dfs_path(graph, root_id, target_node_id, &mut path);
                proof {
                    if r is Some {
                        let p = r->0;
                        assert(p@.subrange(0, p@.len() as int) =~= p@);
                        assert(walk_between(graph.edges@, p@, root_id, target_node_id));
                    }
                }
                r
            },
            None => None,
        }
    }

    /// The identifiers of the nodes that no edge leaves, in node order.
    pub fn get_leaf_nodes(graph: &StoryGraph) -> (r: Vec<u128>)
        ensures
            r@ == leaf_ids(graph.nodes@, graph.edges@),
    {
        let mut leaves: Vec<u128> = Vec::new();
        let n = graph.nodes.len();
        for i in 0..n
            invariant
                n == graph.nodes@.len(),
                leaves@ == leaf_ids(graph.nodes@.take(i as int), graph.edges@),
        {
            let id = graph.nodes[i].id;
            let mut outgoing = false;
            let m = graph.edges.len();
            for j in 0..m
                invariant
                    m == graph.edges@.len(),
                    outgoing <==> exists|k: int| 0 <= k < j && #[trigger] graph.edges@[k].from_node_id == id,
            {
                if graph.edges[j].from_node_id == id {
                    outgoing = true;
                }
            }
            proof {
                assert(graph.nodes@.take(i + 1).drop_last() =~= graph.nodes@.take(i as int));
            }
            if !outgoing {
                leaves.push(id);
            }
        }
        proof {
            assert(graph.nodes@.take(n as int) =~= graph.nodes@);
        }
        leaves
    }

    /// The number of edges on the path `find_path_to_node` finds, as a `u32`
    /// (wrapping as the conversion does); `None` where it finds none.
    pub fn calculate_node_depth(graph: &StoryGraph, node_id: u128) -> (r: Option<u32>)
        requires
            story_acyclic(graph.edges@),
        ensures
            r is Some <==> (graph.root_node_id matches Some(root) && story_reaches(
                graph.edges@,
                root,
                node_id,
            )),
            r matches Some(d) ==> exists|p: Seq<u128>|
                #[trigger] walk_between(graph.edges@, p, graph.root_node_id->0, node_id) && d == (
                p.len() - 1) as u32,
    {
        if graph.root_node_id.is_some() {
            match Self::find_path_to_node(graph, node_id) {
                Some(path) => {
                    let d = (path.len() - 1) as u32;
                    proof {
                        assert(walk_between(graph.edges@, path@, graph.root_node_id->0, node_id));
                    }
                    return Some(d);
                },
                None => {},
            }
        }
        None
    }

    /// The targets of the edges leaving `node_id`, in edge order.
    pub fn get_node_children(graph: &StoryGraph, node_id: u128) -> (r: Vec<u128>)
        ensures
            r@ == children_of(graph.edges@, node_id),
    {
        let mut out: Vec<u128> = Vec::new();
        let n = graph.edges.len();
        for j in 0..n
            invariant
                n == graph.edges@.len(),
                out@ == children_of(graph.edges@.take(j as int), node_id),
        {
            proof {
                assert(graph.edges@.take(j + 1).drop_last() =~= graph.edges@.take(j as int));
            }
            if graph.edges[j].from_node_id == node_id {
                out.push(graph.edges[j].to_node_id);
            }
        }
        proof {
            assert(graph.edges@.take(n as int) =~= graph.edges@);
        }
        out
    }

    /// The sources of the edges entering `node_id`, in edge order.
    pub fn get_node_parents(graph: &StoryGraph, node_id: u128) -> (r: Vec<u128>)
        ensures
            r@ == parents_of(graph.edges@, node_id),
    {
        let mut out: Vec<u128> = Vec::new();
        let n = graph.edges.len();
        for j in 0..n
            invariant
                n == graph.edges@.len(),
                out@ == parents_of(graph.edges@.take(j as int), node_id),
        {
            proof {
                assert(graph.edges@.take(j + 1).drop_last() =~= graph.edges@.take(j as int));
            }
            if graph.edges[j].to_node_id == node_id {
                out.push(graph.edges[j].from_node_id);
            }
        }
        proof {
            assert(graph.edges@.take(n as int) =~= graph.edges@);
        }
        out
    }
}

} // verus!
