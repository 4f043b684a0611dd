//! What the planner shows of a story: the nodes in identifier order with
//! their status, and the tree drawn down from the root.
use vstd::prelude::*;
use crate::adventure::{lemma_lookup_absent, node_lookup};
use crate::ids::{id_text, write_id};
use crate::story::{StoryEdge, StoryGraph, StoryNode};
use crate::text::{append_str, chars_of, decimal, decimal_string, prefix, prefix_string, utf8_len};

verus! {

broadcast use vstd::seq_lib::to_multiset_insert, vstd::seq_lib::to_multiset_build;

/// The identifiers of some nodes, in order.
pub open spec fn ids_of(nodes: Seq<StoryNode>) -> Seq<u128> {
    nodes.map_values(|n: StoryNode| n.id)
}

/// The identifiers are in increasing order (ties allowed).
pub open spec fn ascending(s: Seq<u128>) -> bool {
    forall|i: int, j: int| 0 <= i < j < s.len() ==> s[i] <= s[j]
}

/// The identifiers of a story's nodes in increasing order, each as often as
/// it occurs, as the navigation list shows them.
pub fn navigation_order(g: &StoryGraph) -> (r: Vec<u128>)
    ensures
        ascending(r@),
        r@.to_multiset() == ids_of(g.nodes@).to_multiset(),
{
    let mut r: Vec<u128> = Vec::new();
    let n = g.nodes.len();
    proof {
        assert(ids_of(g.nodes@).take(0) =~= r@);
    }
    for i in 0..n
        invariant
            n == g.nodes@.len(),
            ascending(r@),
            r@.to_multiset() == ids_of(g.nodes@).take(i as int).to_multiset(),
    {
        let x = g.nodes[i].id;
        let mut j: usize = 0;
        while j < r.len() && r[j] <= x
            invariant
                j <= r@.len(),
                forall|k: int| 0 <= k < j ==> r@[k] <= x,
            decreases r@.len() - j,
        {
            j = j + 1;
        }
        let ghost before = r@;
        r.insert(j, x);
        proof {
            assert(r@ == before.insert(j as int, x));
            assert forall|a: int, b: int| 0 <= a < b < r@.len() implies r@[a] <= r@[b] by {
                if b < j {
                } else if b == j {
                    assert(r@[a] == before[a]);
                } else if a < j {
                    assert(r@[b] == before[b - 1]);
                    assert(before[j as int] > x);
                    assert(before[a] <= before[j as int]);
                } else if a == j {
                    assert(r@[b] == before[b - 1]);
                    assert(before[j as int] > x);
                    assert(before[j as int] <= before[b - 1]);
                } else {
                    assert(r@[a] == before[a - 1]);
                    assert(r@[b] == before[b - 1]);
                }
            }
            assert(ids_of(g.nodes@).take(i + 1) =~= ids_of(g.nodes@).take(i as int).push(x));
        }
    }
    proof {
        assert(ids_of(g.nodes@).take(n as int) =~= ids_of(g.nodes@));
    }
    r
}

/// How a node is marked in the navigation list.
#[derive(Debug, Clone, Copy, PartialEq, Eq, Structural)]
pub enum NodeStatus {
    Current,
    Root,
    Visited,
    Unvisited,
}

/// The mark of node `id`: current first, then the root, then whether it was
/// visited.
pub open spec fn status_of(id: u128, current: Option<u128>, root: Option<u128>, visited: Seq<u128>) -> NodeStatus {
    if current == Some(id) {
        NodeStatus::Current
    } else if root == Some(id) {
        NodeStatus::Root
    } else if visited.contains(id) {
        NodeStatus::Visited
    } else {
        NodeStatus::Unvisited
    }
}

fn is_visited(visited: &Vec<u128>, id: u128) -> (r: bool)
    ensures
        r == visited@.contains(id),
{
    let n = visited.len();
    for i in 0..n
        invariant
            n == visited@.len(),
            forall|k: int| 0 <= k < i ==> visited@[k] != id,
    {
        if visited[i] == id {
            return true;
        }
    }
    false
}

/// The mark of a node in the navigation list.
pub fn node_status(id: u128, current: Option<u128>, root: Option<u128>, visited: &Vec<u128>) -> (s: NodeStatus)
    ensures
        s == status_of(id, current, root, visited@),
{
    if current == Some(id) {
        NodeStatus::Current
    } else if root == Some(id) {
        NodeStatus::Root
    } else if is_visited(visited, id) {
        NodeStatus::Visited
    } else {
        NodeStatus::Unvisited
    }
}

/// How a mark is written.
pub open spec fn status_label(s: NodeStatus) -> Seq<char> {
    match s {
        NodeStatus::Current => "👉 CURRENT"@,
        NodeStatus::Root => "🌱 ROOT"@,
        NodeStatus::Visited => "✅ VISITED"@,
        NodeStatus::Unvisited => "⭕ UNVISITED"@,
    }
}

/// A text cut to its first `n` characters, followed by "..." when it takes
/// more than `n` bytes.
pub open spec fn shortened(s: Seq<char>, n: nat) -> Seq<char> {
    prefix(s, n as int) + if vstd::utf8::encode_utf8(s).len() > n {
        "..."@
    } else {
        ""@
    }
}

/// Computes `shortened`.
pub fn shorten(s: &str, n: usize) -> (r: String)
    ensures
        r@ == shortened(s@, n as nat),
{
    let mut r = prefix_string(s, n);
    if utf8_len(&chars_of(s)) > n {
        append_str(&mut r, "...");
    } else {
        proof {
            reveal_strlit("");
            assert(r@ + ""@ =~= r@);
        }
    }
    r
}

/// The `k`-th line (counting from one) of the navigation list: the mark, the
/// first eight characters of the node's identifier and the start of its
/// situation.
pub open spec fn navigation_line(k: nat, status: NodeStatus, id: u128, situation: Seq<char>) -> Seq<char> {
    decimal(k) + ". "@ + status_label(status) + " | "@ + id_text(id).take(8) + " | "@ + shortened(situation, 50)
}

/// Builds a line of the navigation list.
pub fn build_navigation_line(k: usize, status: NodeStatus, id: u128, situation: &str) -> (r: String)
    ensures
        r@ == navigation_line(k as nat, status, id, situation@),
{
    let mut r = decimal_string(k);
    append_str(&mut r, ". ");
    append_str(
        &mut r,
        match status {
            NodeStatus::Current => "👉 CURRENT",
            NodeStatus::Root => "🌱 ROOT",
            NodeStatus::Visited => "✅ VISITED",
            NodeStatus::Unvisited => "⭕ UNVISITED",
        },
    );
    append_str(&mut r, " | ");
    let text = write_id(id);
    proof {
        crate::ids::lemma_id_text_len(id);
    }
    append_str(&mut r, prefix_string(text.as_str(), 8).as_str());
    append_str(&mut r, " | ");
    append_str(&mut r, shorten(situation, 50).as_str());
    r
}

proof fn lemma_lookup_first(s: Seq<StoryNode>, i: int, id: u128)
    requires
        0 <= i < s.len(),
        s[i].id == id,
        forall|j: int| 0 <= j < i ==> s[j].id != id,
    ensures
        node_lookup(s, id) == Some(s[i]),
    decreases i,
{
    if i > 0 {
        lemma_lookup_first(s.drop_first(), i - 1, id);
    }
}

/// The position of the first node carrying `id`, if any.
pub fn find_node(g: &StoryGraph, id: u128) -> (r: Option<usize>)
    ensures
        match r {
            Some(i) => i < g.nodes@.len() && node_lookup(g.nodes@, id) == Some(g.nodes@[i as int]),
            None => node_lookup(g.nodes@, id) is None,
        },
{
    let n = g.nodes.len();
    for i in 0..n
        invariant
            n == g.nodes@.len(),
            forall|j: int| 0 <= j < i ==> g.nodes@[j].id != id,
    {
        if g.nodes[i].id == id {
            proof {
                lemma_lookup_first(g.nodes@, i as int, id);
            }
            return Some(i);
        }
    }
    proof {
        lemma_lookup_absent(g.nodes@, id);
    }
    None
}

/// The mark of a node in the tree: current, visited or not yet visited.
pub open spec fn tree_mark(id: u128, current: Option<u128>, visited: Seq<u128>) -> Seq<char> {
    if current == Some(id) {
        "👉"@
    } else if visited.contains(id) {
        "✅"@
    } else {
        "⭕"@
    }
}

/// Two spaces for each level of depth.
pub open spec fn indent(depth: nat) -> Seq<char>
    decreases depth,
{
    if depth == 0 {
        Seq::empty()
    } else {
        indent((depth - 1) as nat) + "  "@
    }
}

/// The line of a node at depth `depth` of the tree.
pub open spec fn tree_line(n: StoryNode, depth: nat, current: Option<u128>, visited: Seq<u128>) -> Seq<char> {
    indent(depth) + tree_mark(n.id, current, visited) + " "@ + shortened(n.situation@, 40)
}

/// The lines of the tree drawn from node `id` at depth `depth`, down to
/// depth `max`: the node's line, then the trees of the nodes its edges lead
/// to, in edge order. A node that is not in the story draws nothing.
pub open spec fn subtree_lines(
    g: StoryGraph,
    current: Option<u128>,
    visited: Seq<u128>,
    id: u128,
    depth: nat,
    max: nat,
) -> Seq<Seq<char>>
    decreases max + 1 - depth, g.edges@.len() + 1,
{
    if depth > max {
        Seq::empty()
    } else {
        match node_lookup(g.nodes@, id) {
            None => Seq::empty(),
            Some(n) => seq![tree_line(n, depth, current, visited)] + children_lines(
                g,
                current,
                visited,
                id,
                g.edges@.len(),
                depth,
                max,
            ),
        }
    }
}

/// The trees, one level below `depth`, of the nodes that the first `k`
/// edges lead to from node `from`.
pub open spec fn children_lines(
    g: StoryGraph,
    current: Option<u128>,
    visited: Seq<u128>,
    from: u128,
    k: nat,
    depth: nat,
    max: nat,
) -> Seq<Seq<char>>
    decreases max + 1 - depth, k,
{
    if k == 0 || k > g.edges@.len() || depth >= max {
        Seq::empty()
    } else {
        let e = g.edges@[k - 1];
        children_lines(g, current, visited, from, (k - 1) as nat, depth, max) + if e.from_node_id == from {
            subtree_lines(g, current, visited, e.to_node_id, depth + 1, max)
        } else {
            Seq::empty()
        }
    }
}

/// The texts of some strings.
pub open spec fn line_texts(v: Seq<String>) -> Seq<Seq<char>> {
    v.map_values(|s: String| s@)
}

fn push_line(out: &mut Vec<String>, line: String)
    ensures
        line_texts(final(out)@) == line_texts(old(out)@).push(line@),
{
    let ghost before = out@;
    out.push(line);
    proof {
        assert(line_texts(out@) =~= line_texts(before).push(line@));
    }
}

fn draw_subtree(
    g: &StoryGraph,
    current: Option<u128>,
    visited: &Vec<u128>,
    id: u128,
    depth: usize,
    max: usize,
    out: &mut Vec<String>,
)
    requires
        max < usize::MAX,
    ensures
        line_texts(final(out)@) == line_texts(old(out)@) + subtree_lines(*g, current, visited@, id, depth as nat, max as nat),
    decreases max + 1 - depth, g.edges@.len() + 1,
{
    let ghost start = line_texts(out@);
    if depth > max {
        proof {
            assert(line_texts(out@) =~= start + Seq::<Seq<char>>::empty());
        }
        return;
    }
    match find_node(g, id) {
        None => {
            proof {
                assert(line_texts(out@) =~= start + Seq::<Seq<char>>::empty());
            }
        },
        Some(i) => {
            let node = &g.nodes[i];
            let mut line = String::new();
            let mut d: usize = 0;
            while d < depth
                invariant
                    d <= depth,
                    line@ == indent(d as nat),
                decreases depth - d,
            {
                append_str(&mut line, "  ");
                d = d + 1;
            }
            let mark = if current == Some(node.id) {
                "👉"
            } else if is_visited(visited, node.id) {
                "✅"
            } else {
                "⭕"
            };
            append_str(&mut line, mark);
            append_str(&mut line, " ");
            append_str(&mut line, shorten(node.situation.as_str(), 40).as_str());
            push_line(out, line);
            let ghost mid = line_texts(out@);
            draw_children(g, current, visited, id, g.edges.len(), depth, max, out);
            proof {
                assert(line_texts(out@) =~= start + subtree_lines(*g, current, visited@, id, depth as nat, max as nat));
            }
        },
    }
}

fn draw_children(
    g: &StoryGraph,
    current: Option<u128>,
    visited: &Vec<u128>,
    from: u128,
    k: usize,
    depth: usize,
    max: usize,
    out: &mut Vec<String>,
)
    requires
        max < usize::MAX,
        depth <= max,
        k <= g.edges@.len(),
    ensures
        line_texts(final(out)@) == line_texts(old(out)@) + children_lines(
            *g,
            current,
            visited@,
            from,
            k as nat,
            depth as nat,
            max as nat,
        ),
    decreases max + 1 - depth, k,
{
    let ghost start = line_texts(out@);
    if k == 0 || depth >= max {
        proof {
            assert(line_texts(out@) =~= start + Seq::<Seq<char>>::empty());
        }
        return;
    }
    draw_children(g, current, visited, from, k - 1, depth, max, out);
    let ghost mid = line_texts(out@);
    let e = g.edges[k - 1];
    if e.from_node_id == from {
        draw_subtree(g, current, visited, e.to_node_id, depth + 1, max, out);
        proof {
            assert(line_texts(out@) =~= start + children_lines(*g, current, visited@, from, k as nat, depth as nat, max as nat));
        }
    } else {
        proof {
            assert(line_texts(out@) =~= start + children_lines(*g, current, visited@, from, k as nat, depth as nat, max as nat));
        }
    }
}

/// The lines of the tree drawn from node `id` down to depth `max`.
pub fn tree_lines(g: &StoryGraph, current: Option<u128>, visited: &Vec<u128>, id: u128, max: usize) -> (r: Vec<String>)
    requires
        max < usize::MAX,
    ensures
        line_texts(r@) == subtree_lines(*g, current, visited@, id, 0, max as nat),
{
    let mut out: Vec<String> = Vec::new();
    draw_subtree(g, current, visited, id, 0, max, &mut out);
    proof {
        assert(line_texts(out@) =~= Seq::<Seq<char>>::empty() + subtree_lines(*g, current, visited@, id, 0, max as nat));
    }
    out
}

/// How many of the nodes were visited.
pub open spec fn visited_count(nodes: Seq<StoryNode>, visited: Seq<u128>) -> nat
    decreases nodes.len(),
{
    if nodes.len() == 0 {
        0
    } else {
        visited_count(nodes.drop_last(), visited) + if visited.contains(nodes.last().id) {
            1nat
        } else {
            0nat
        }
    }
}

/// How many nodes of the story were visited, and how many were not.
pub fn visit_counts(g: &StoryGraph, visited: &Vec<u128>) -> (r: (usize, usize))
    ensures
        r.0 == visited_count(g.nodes@, visited@),
        r.0 + r.1 == g.nodes@.len(),
{
    let mut seen: usize = 0;
    let mut unseen: usize = 0;
    let n = g.nodes.len();
    for i in 0..n
        invariant
            n == g.nodes@.len(),
            seen == visited_count(g.nodes@.take(i as int), visited@),
            seen + unseen == i,
    {
        proof {
            assert(g.nodes@.take(i + 1).drop_last() =~= g.nodes@.take(i as int));
        }
        if is_visited(visited, g.nodes[i].id) {
            seen = seen + 1;
        } else {
            unseen = unseen + 1;
        }
    }
    proof {
        assert(g.nodes@.take(n as int) =~= g.nodes@);
    }
    (seen, unseen)
}

/// How many of the edges end at node `id`.
pub open spec fn incoming_count(edges: Seq<StoryEdge>, id: u128) -> nat
    decreases edges.len(),
{
    if edges.len() == 0 {
        0
    } else {
        incoming_count(edges.drop_last(), id) + if edges.last().to_node_id == id {
            1nat
        } else {
            0nat
        }
    }
}

/// How many of the edges start at node `id`.
pub open spec fn outgoing_count(edges: Seq<StoryEdge>, id: u128) -> nat
    decreases edges.len(),
{
    if edges.len() == 0 {
        0
    } else {
        outgoing_count(edges.drop_last(), id) + if edges.last().from_node_id == id {
            1nat
        } else {
            0nat
        }
    }
}

/// The numbers of connections into and out of node `id`, as its history
/// shows them.
pub fn connection_counts(g: &StoryGraph, id: u128) -> (r: (usize, usize))
    ensures
        r.0 == incoming_count(g.edges@, id),
        r.1 == outgoing_count(g.edges@, id),
{
    let mut incoming: usize = 0;
    let mut outgoing: usize = 0;
    let n = g.edges.len();
    for i in 0..n
        invariant
            n == g.edges@.len(),
            incoming == incoming_count(g.edges@.take(i as int), id),
            outgoing == outgoing_count(g.edges@.take(i as int), id),
            incoming <= i,
            outgoing <= i,
    {
        proof {
            assert(g.edges@.take(i + 1).drop_last() =~= g.edges@.take(i as int));
        }
        let e = g.edges[i];
        if e.to_node_id == id {
            incoming = incoming + 1;
        }
        if e.from_node_id == id {
            outgoing = outgoing + 1;
        }
    }
    proof {
        assert(g.edges@.take(n as int) =~= g.edges@);
    }
    (incoming, outgoing)
}

} // verus!
