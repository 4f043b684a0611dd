//! Ticket decompositions, their identifiers, the dependency graph between
//! tickets, projects, and the project index.
use vstd::prelude::*;
use vstd::std_specs::cmp::PartialEqSpecImpl;
use crate::digest::{content_id, content_id_of};
use crate::text::{owned, str_eq, concat3, eq_lit, push_char, append_str, chars_of};
use crate::reach::{
    DepMap, reaches, acyclic, with_edge, edges_within, succ, closed_under_succ, lemma_reaches_refl,
    lemma_edge_then_reaches, lemma_closed_set_holds_reachable, lemma_add_edge_keeps_acyclic,
    lemma_acyclic_within, without_edge, mirrored, lemma_mirrored_with_edge, lemma_mirrored_without_edge,
    lemma_mirrored_fresh, lemma_without_with_edge,
};
use vstd::set_lib::{set_int_range, lemma_int_range, lemma_len_subset};

verus! {

/// Lifecycle state of a decomposed ticket.
#[derive(Debug, Clone, Copy, PartialEq, Eq, Structural)]
pub enum TicketStatus {
    AwaitingRefinement,
    InProgress,
    UnderReview,
    Complete,
    Blocked,
}

/// Importance of a ticket.
#[derive(Debug, Clone, Copy, PartialEq, Eq, Structural)]
pub enum Priority {
    Low,
    Medium,
    High,
    Critical,
}

/// Estimated effort of a ticket.
#[derive(Debug, Clone, Copy, PartialEq, Eq, Structural)]
pub enum Complexity {
    Low,
    Medium,
    MediumHigh,
    High,
    VeryHigh,
}

/// Urgency of a term that needs refinement.
#[derive(Debug, Clone, Copy, PartialEq, Eq, Structural)]
pub enum RefinementPriority {
    Low,
    Medium,
    High,
    Critical,
}

/// The ticket as the user wrote it.
#[derive(Debug, Clone)]
pub struct OriginalTicket {
    pub title: String,
    pub raw_input: String,
}

/// Where the validation results of a ticket live.
#[derive(Debug, Clone)]
pub struct ValidationResults {
    pub mime: String,
    pub url: String,
}

/// Bookkeeping attached to a decomposed ticket.
#[derive(Debug, Clone)]
pub struct TicketMetadata {
    pub status: TicketStatus,
    pub priority: Priority,
    pub estimated_complexity: Complexity,
    pub processed_at: String,
    pub engine_version: String,
}

/// A term of a ticket that is too vague and needs its own ticket.
#[derive(Debug, Clone)]
pub struct RefinementRequest {
    pub term: String,
    pub context: String,
    pub reason: String,
    pub priority: RefinementPriority,
}

/// The structured breakdown of a ticket. `terms` pairs each defined term with
/// its definition, in the order in which they were given.
#[derive(Debug, Clone)]
pub struct DecomposedTicket {
    pub terms: Vec<(String, String)>,
    pub terms_needing_refinement: Vec<RefinementRequest>,
    pub open_questions: Vec<String>,
    pub engine_questions: Vec<String>,
    pub validation_method: Vec<String>,
    pub validation_results: ValidationResults,
    pub metadata: TicketMetadata,
}

/// A ticket together with its decomposition.
#[derive(Debug, Clone)]
pub struct TicketDecomposition {
    pub original_ticket: OriginalTicket,
    pub decomposed_ticket: DecomposedTicket,
}

/// Content-derived identifier of a ticket.
#[derive(Debug, Eq, Hash)]
pub struct TicketId(String);

impl View for TicketId {
    type V = Seq<char>;

    closed spec fn view(&self) -> Seq<char> {
        self.0@
    }
}

impl Clone for TicketId {
    fn clone(&self) -> (r: Self)
        ensures
            r == *self,
    {
        TicketId(self.0.clone())
    }
}

impl PartialEq for TicketId {
    fn eq(&self, other: &Self) -> (r: bool) {
        self.0 == other.0
    }
}

impl PartialEqSpecImpl for TicketId {
    open spec fn obeys_eq_spec() -> bool {
        true
    }

    open spec fn eq_spec(&self, other: &Self) -> bool {
        self@ == other@
    }
}

impl TicketId {
    /// The identifier of a ticket whose serialized form is `serialized_ticket`:
    /// the first sixteen hex digits of the SHA-256 digest of that text.
    pub fn generate(serialized_ticket: &str) -> (id: TicketId)
        ensures
            id@ == content_id(serialized_ticket@),
            id@.len() == 16,
    {
        TicketId(content_id_of(serialized_ticket))
    }

    /// An identifier with the given text, as found in a stored project.
    pub fn from_text(text: &str) -> (id: TicketId)
        ensures
            id@ == text@,
    {
        TicketId(owned(text))
    }

    /// The identifier's text.
    pub fn as_str(&self) -> (s: &str)
        ensures
            s@ == self@,
    {
        self.0.as_str()
    }

    /// The identifier's text, as a `String` (what `Display` prints).
    pub fn to_string(&self) -> (s: String)
        ensures
            s@ == self@,
    {
        self.0.clone()
    }

    /// Whether two identifiers are equal.
    pub fn same_as(&self, other: &TicketId) -> (r: bool)
        ensures
            r == (self@ == other@),
    {
        self.0 == other.0
    }
}


/// The current time as RFC 3339 text, through `chrono::Utc::now().to_rfc3339()`.
/// Trusted: the text is not empty (chrono always writes at least the date,
/// `T`, the time and the offset). Which time it names is not stated: it
/// depends on the clock.
#[verifier::external_body]
pub(crate) fn now_rfc3339() -> (r: String)
    ensures
        r@.len() > 0,
{
    chrono::Utc::now().to_rfc3339()
}

/// Some element of `v` has the text `k`.
pub open spec fn has_id(v: Seq<TicketId>, k: Seq<char>) -> bool {
    exists|i: int| 0 <= i < v.len() && #[trigger] v[i]@ == k
}

/// The set of texts of the identifiers in `v`.
pub open spec fn id_set(v: Seq<TicketId>) -> Set<Seq<char>> {
    Set::new(|k: Seq<char>| has_id(v, k))
}

/// No identifier occurs twice in `v`.
pub open spec fn no_dup_ids(v: Seq<TicketId>) -> bool {
    forall|i: int, j: int| 0 <= i < j < v.len() ==> (#[trigger] v[i])@ != (#[trigger] v[j])@
}

/// Position of `id` in `v`, if any.
pub fn find_id(v: &Vec<TicketId>, id: &TicketId) -> (r: Option<usize>)
    ensures
        match r {
            Some(i) => i < v@.len() && v@[i as int]@ == id@,
            None => !has_id(v@, id@),
        },
{
    let n = v.len();
    for i in 0..n
        invariant
            n == v@.len(),
            forall|j: int| 0 <= j < i ==> v@[j]@ != id@,
    {
        if v[i].same_as(id) {
            return Some(i);
        }
    }
    None
}

/// Adds `id` to a duplicate-free list unless it is already there.
pub fn insert_id(v: &mut Vec<TicketId>, id: TicketId)
    requires
        no_dup_ids(old(v)@),
    ensures
        no_dup_ids(final(v)@),
        id_set(final(v)@) == id_set(old(v)@).insert(id@),
{
    match find_id(v, &id) {
        Some(_) => {
            assert(id_set(v@) =~= id_set(v@).insert(id@));
        },
        None => {
            let ghost k = id@;
            let ghost before = v@;
            v.push(id);
            proof {
                assert(v@ == before.push(id));
                assert forall|x: Seq<char>| has_id(v@, x) == (has_id(before, x) || x == k) by {
                    if has_id(v@, x) {
                        let i = choose|i: int| 0 <= i < v@.len() && #[trigger] v@[i]@ == x;
                        if i < before.len() {
                            assert(before[i]@ == x);
                        }
                    }
                    if has_id(before, x) {
                        let i = choose|i: int| 0 <= i < before.len() && #[trigger] before[i]@ == x;
                        assert(v@[i]@ == x);
                    }
                    if x == k {
                        assert(v@[before.len() as int]@ == x);
                    }
                }
                assert(id_set(v@) =~= id_set(before).insert(k));
            }
        },
    }
}

/// Removes `id` from a duplicate-free list, if it is there.
pub fn remove_id(v: &mut Vec<TicketId>, id: &TicketId)
    requires
        no_dup_ids(old(v)@),
    ensures
        no_dup_ids(final(v)@),
        id_set(final(v)@) == id_set(old(v)@).remove(id@),
{
    match find_id(v, id) {
        Some(i) => {
            let ghost before = v@;
            let ghost k = id@;
            v.remove(i);
            proof {
                assert(v@ == before.remove(i as int));
                assert forall|x: Seq<char>| has_id(v@, x) == (has_id(before, x) && x != k) by {
                    if has_id(v@, x) {
                        let j = choose|j: int| 0 <= j < v@.len() && #[trigger] v@[j]@ == x;
                        if j < i {
                            assert(before[j]@ == x);
                            assert(before[j]@ != before[i as int]@);
                        } else {
                            assert(before[j + 1]@ == x);
                            assert(before[j + 1]@ != before[i as int]@);
                        }
                    }
                    if has_id(before, x) && x != k {
                        let j = choose|j: int| 0 <= j < before.len() && #[trigger] before[j]@ == x;
                        if j < i {
                            assert(v@[j]@ == x);
                        } else {
                            assert(j != i);
                            assert(v@[j - 1]@ == x);
                        }
                    }
                }
                assert(id_set(v@) =~= id_set(before).remove(k));
            }
        },
        None => {
            assert(id_set(v@) =~= id_set(v@).remove(id@));
        },
    }
}

/// A ticket in a graph, with the identifiers it depends on and those that depend on it.
#[derive(Debug)]
pub struct TicketNode {
    pub id: TicketId,
    pub ticket: TicketDecomposition,
    pub dependencies: Vec<TicketId>,
    pub dependents: Vec<TicketId>,
    pub created_at: String,
    pub updated_at: String,
}

impl TicketNode {
    /// Neither list holds an identifier twice (they stand for sets).
    pub open spec fn wf(&self) -> bool {
        no_dup_ids(self.dependencies@) && no_dup_ids(self.dependents@)
    }

    /// What this ticket depends on.
    pub open spec fn dependency_set(&self) -> Set<Seq<char>> {
        id_set(self.dependencies@)
    }

    /// What depends on this ticket.
    pub open spec fn dependent_set(&self) -> Set<Seq<char>> {
        id_set(self.dependents@)
    }

    /// A node for `ticket`, named by the digest of its serialized form, with no edges.
    pub fn new(ticket: TicketDecomposition, serialized_ticket: &str) -> (n: TicketNode)
        ensures
            n.wf(),
            n.id@ == content_id(serialized_ticket@),
            n.ticket == ticket,
            n.dependencies@.len() == 0,
            n.dependents@.len() == 0,
    {
        let id = TicketId::generate(serialized_ticket);
        let now = now_rfc3339();
        TicketNode {
            id,
            ticket,
            dependencies: Vec::new(),
            dependents: Vec::new(),
            created_at: now.clone(),
            updated_at: now,
        }
    }

    /// Records that this ticket depends on `dependency_id`.
    pub fn add_dependency(&mut self, dependency_id: TicketId)
        requires
            old(self).wf(),
        ensures
            final(self).wf(),
            final(self).dependency_set() == old(self).dependency_set().insert(dependency_id@),
            final(self).dependents == old(self).dependents,
            final(self).id == old(self).id,
            final(self).ticket == old(self).ticket,
    {
        insert_id(&mut self.dependencies, dependency_id);
        self.updated_at = now_rfc3339();
    }

    /// Records that `dependent_id` depends on this ticket.
    pub fn add_dependent(&mut self, dependent_id: TicketId)
        requires
            old(self).wf(),
        ensures
            final(self).wf(),
            final(self).dependent_set() == old(self).dependent_set().insert(dependent_id@),
            final(self).dependencies == old(self).dependencies,
            final(self).id == old(self).id,
            final(self).ticket == old(self).ticket,
    {
        insert_id(&mut self.dependents, dependent_id);
        self.updated_at = now_rfc3339();
    }

    /// Forgets that this ticket depends on `dependency_id`.
    pub fn remove_dependency(&mut self, dependency_id: &TicketId)
        requires
            old(self).wf(),
        ensures
            final(self).wf(),
            final(self).dependency_set() == old(self).dependency_set().remove(dependency_id@),
            final(self).dependents == old(self).dependents,
            final(self).id == old(self).id,
            final(self).ticket == old(self).ticket,
    {
        remove_id(&mut self.dependencies, dependency_id);
        self.updated_at = now_rfc3339();
    }

    /// Forgets that `dependent_id` depends on this ticket.
    pub fn remove_dependent(&mut self, dependent_id: &TicketId)
        requires
            old(self).wf(),
        ensures
            final(self).wf(),
            final(self).dependent_set() == old(self).dependent_set().remove(dependent_id@),
            final(self).dependencies == old(self).dependencies,
            final(self).id == old(self).id,
            final(self).ticket == old(self).ticket,
    {
        remove_id(&mut self.dependents, dependent_id);
        self.updated_at = now_rfc3339();
    }
}


/// The dependency graph between the tickets of a project. Each node is kept
/// once; `nodes` is in insertion order.
#[derive(Debug)]
pub struct TicketGraph {
    pub nodes: Vec<TicketNode>,
    pub created_at: String,
    pub updated_at: String,
}

impl TicketGraph {
    /// Identifiers are unique and every node is well formed.
    pub open spec fn wf(&self) -> bool {
        &&& forall|i: int, j: int| 0 <= i < j < self.nodes@.len() ==> (#[trigger] self.nodes@[i]).id@ != (#[trigger] self.nodes@[j]).id@
        &&& forall|i: int| 0 <= i < self.nodes@.len() ==> (#[trigger] self.nodes@[i]).wf()
    }

    /// The graph holds a ticket with identifier `k`.
    pub open spec fn has(&self, k: Seq<char>) -> bool {
        exists|i: int| 0 <= i < self.nodes@.len() && (#[trigger] self.nodes@[i]).id@ == k
    }

    /// The position of the ticket with identifier `k`.
    pub open spec fn index_of(&self, k: Seq<char>) -> int {
        choose|i: int| 0 <= i < self.nodes@.len() && (#[trigger] self.nodes@[i]).id@ == k
    }

    /// The ticket with identifier `k`.
    pub open spec fn node(&self, k: Seq<char>) -> TicketNode {
        self.nodes@[self.index_of(k)]
    }

    /// Each ticket's identifier mapped to the identifiers it depends on.
    pub open spec fn dep_map(&self) -> DepMap {
        Map::new(|k: Seq<char>| self.has(k), |k: Seq<char>| self.node(k).dependency_set())
    }

    /// Each ticket's identifier mapped to the identifiers that depend on it.
    pub open spec fn dependent_map(&self) -> DepMap {
        Map::new(|k: Seq<char>| self.has(k), |k: Seq<char>| self.node(k).dependent_set())
    }

    /// The identifiers in node order.
    pub open spec fn ids(&self) -> Seq<Seq<char>> {
        self.nodes@.map_values(|n: TicketNode| n.id@)
    }

    /// In a well-formed graph, the node at position `i` is the one found for its identifier.
    pub proof fn lemma_index_of(&self, i: int)
        requires
            self.wf(),
            0 <= i < self.nodes@.len(),
        ensures
            self.has(self.nodes@[i].id@),
            self.index_of(self.nodes@[i].id@) == i,
    {
        let k = self.nodes@[i].id@;
        assert(self.has(k));
        let j = self.index_of(k);
        if j != i {
            if j < i {
                assert(self.nodes@[j].id@ != self.nodes@[i].id@);
            } else {
                assert(self.nodes@[i].id@ != self.nodes@[j].id@);
            }
        }
    }

    /// An empty graph, created and updated at the same moment: the current
    /// time as RFC 3339 text.
    pub fn new() -> (g: TicketGraph)
        ensures
            g.wf(),
            g.nodes@.len() == 0,
            g.created_at@.len() > 0,
            g.updated_at == g.created_at,
            g.dep_map() == Map::<Seq<char>, Set<Seq<char>>>::empty(),
            g.dependent_map() == Map::<Seq<char>, Set<Seq<char>>>::empty(),
    {
        let now = now_rfc3339();
        let g = TicketGraph { nodes: Vec::new(), created_at: now.clone(), updated_at: now };
        assert(g.dep_map() =~= Map::<Seq<char>, Set<Seq<char>>>::empty());
        assert(g.dependent_map() =~= Map::<Seq<char>, Set<Seq<char>>>::empty());
        g
    }

    /// Position of the ticket with identifier `id`.
    pub fn find(&self, id: &TicketId) -> (r: Option<usize>)
        requires
            self.wf(),
        ensures
            match r {
                Some(i) => i < self.nodes@.len() && self.nodes@[i as int].id@ == id@ && self.has(id@)
                    && self.index_of(id@) == i,
                None => !self.has(id@),
            },
    {
        let n = self.nodes.len();
        for i in 0..n
            invariant
                n == self.nodes@.len(),
                self.wf(),
                forall|j: int| 0 <= j < i ==> self.nodes@[j].id@ != id@,
        {
            if self.nodes[i].id.same_as(id) {
                proof {
                    self.lemma_index_of(i as int);
                }
                return Some(i);
            }
        }
        None
    }

    /// The ticket with identifier `id`, if the graph holds one.
    pub fn get_ticket(&self, id: &TicketId) -> (r: Option<&TicketNode>)
        requires
            self.wf(),
        ensures
            match r {
                Some(n) => self.has(id@) && *n == self.node(id@),
                None => !self.has(id@),
            },
    {
        match self.find(id) {
            Some(i) => Some(&self.nodes[i]),
            None => None,
        }
    }

    /// What the ticket `id` depends on, if the graph holds it.
    pub fn get_dependencies(&self, id: &TicketId) -> (r: Option<&Vec<TicketId>>)
        requires
            self.wf(),
        ensures
            match r {
                Some(d) => self.has(id@) && *d == self.node(id@).dependencies
                    && id_set(d@) == self.dep_map()[id@],
                None => !self.has(id@),
            },
    {
        match self.find(id) {
            Some(i) => Some(&self.nodes[i].dependencies),
            None => None,
        }
    }

    /// What depends on the ticket `id`, if the graph holds it.
    pub fn get_dependents(&self, id: &TicketId) -> (r: Option<&Vec<TicketId>>)
        requires
            self.wf(),
        ensures
            match r {
                Some(d) => self.has(id@) && *d == self.node(id@).dependents
                    && id_set(d@) == self.dependent_map()[id@],
                None => !self.has(id@),
            },
    {
        match self.find(id) {
            Some(i) => Some(&self.nodes[i].dependents),
            None => None,
        }
    }
}


/// Pushing an identifier adds its text to the set.
pub proof fn lemma_id_set_push(v: Seq<TicketId>, t: TicketId)
    ensures
        id_set(v.push(t)) == id_set(v).insert(t@),
{
    let w = v.push(t);
    assert forall|x: Seq<char>| has_id(w, x) == (has_id(v, x) || x == t@) by {
        if has_id(w, x) {
            let i = choose|i: int| 0 <= i < w.len() && #[trigger] w[i]@ == x;
            if i < v.len() {
                assert(v[i]@ == x);
            }
        }
        if has_id(v, x) {
            let i = choose|i: int| 0 <= i < v.len() && #[trigger] v[i]@ == x;
            assert(w[i]@ == x);
        }
        if x == t@ {
            assert(w[v.len() as int]@ == x);
        }
    }
    assert(id_set(w) =~= id_set(v).insert(t@));
}

impl TicketGraph {
    /// Positions of the nodes whose identifier is not in `vis`.
    pub open spec fn pending(&self, vis: Set<Seq<char>>) -> Set<int> {
        Set::new(|i: int| 0 <= i < self.nodes@.len() && !vis.contains(self.nodes@[i].id@))
    }

    proof fn lemma_pending_decreases(&self, v1: Set<Seq<char>>, v2: Set<Seq<char>>, k: int)
        requires
            0 <= k < self.nodes@.len(),
            !v1.contains(self.nodes@[k].id@),
            v2.contains(self.nodes@[k].id@),
            v1.subset_of(v2),
        ensures
            self.pending(v2).len() < self.pending(v1).len(),
    {
        let n = self.nodes@.len() as int;
        let p1 = self.pending(v1);
        let p2 = self.pending(v2);
        lemma_int_range(0, n);
        assert(p1.subset_of(set_int_range(0, n)));
        lemma_len_subset(p1, set_int_range(0, n));
        assert(p1.contains(k));
        assert(p2.subset_of(p1.remove(k)));
        lemma_len_subset(p2, p1.remove(k));
    }

    /// Depth-first search along dependencies from `from`, skipping identifiers
    /// already in `visited`; true when `to` is reached.
    fn has_path_to(&self, from: &TicketId, to: &TicketId, visited: &mut Vec<TicketId>) -> (r: bool)
        requires
            self.wf(),
            !id_set(old(visited)@).contains(to@),
        ensures
            id_set(old(visited)@).subset_of(id_set(final(visited)@)),
            r ==> reaches(self.dep_map(), from@, to@),
            !r ==> {
                &&& id_set(final(visited)@).contains(from@)
                &&& !id_set(final(visited)@).contains(to@)
                &&& forall|x: Seq<char>, y: Seq<char>|
                    id_set(final(visited)@).contains(x) && !id_set(old(visited)@).contains(x)
                        && #[trigger] succ(self.dep_map(), x).contains(y) ==> id_set(final(visited)@).contains(y)
            },
        decreases self.pending(id_set(old(visited)@)).len(),
    {
        if from.same_as(to) {
            proof {
                lemma_reaches_refl(self.dep_map(), from@);
            }
            return true;
        }
        if find_id(visited, from).is_some() {
            return false;
        }
        let ghost v0 = id_set(visited@);
        let ghost f = from@;
        let c = from.clone();
        proof {
            lemma_id_set_push(visited@, c);
        }
        visited.push(c);
        match self.find(from) {
            None => {
                false
            },
            Some(i) => {
                let node = &self.nodes[i];
                let n = node.dependencies.len();
                for j in 0..n
                    invariant
                        self.wf(),
                        i < self.nodes@.len(),
                        *node == self.nodes@[i as int],
                        node.id@ == f,
                        self.has(f),
                        self.index_of(f) == i,
                        n == node.dependencies@.len(),
                        !v0.contains(f),
                        v0 == id_set(old(visited)@),
                        f == from@,
                        f != to@,
                        v0.subset_of(id_set(visited@)),
                        id_set(visited@).contains(f),
                        !id_set(visited@).contains(to@),
                        forall|jj: int| 0 <= jj < j ==> id_set(visited@).contains(#[trigger] node.dependencies@[jj]@),
                        forall|x: Seq<char>, y: Seq<char>|
                            id_set(visited@).contains(x) && !v0.contains(x) && x != f
                                && #[trigger] succ(self.dep_map(), x).contains(y) ==> id_set(visited@).contains(y),
                {
                    let dep = &node.dependencies[j];
                    let ghost before = id_set(visited@);
                    proof {
                        self.lemma_pending_decreases(v0, before, i as int);
                    }
                    if self.has_path_to(dep, to, visited) {
                        proof {
                            assert(has_id(node.dependencies@, dep@));
                            assert(self.dep_map()[f] == node.dependency_set());
                            lemma_edge_then_reaches(self.dep_map(), f, dep@, to@);
                        }
                        return true;
                    }
                    proof {
                        assert forall|jj: int| 0 <= jj < j + 1 implies id_set(visited@).contains(#[trigger] node.dependencies@[jj]@) by {
                            if jj < j {
                                assert(before.contains(node.dependencies@[jj]@));
                            }
                        }
                    }
                }
                proof {
                    assert(self.dep_map()[f] == node.dependency_set());
                    assert forall|y: Seq<char>| #[trigger] succ(self.dep_map(), f).contains(y) implies id_set(visited@).contains(y) by {
                        assert(has_id(node.dependencies@, y));
                        let jj = choose|jj: int| 0 <= jj < node.dependencies@.len() && #[trigger] node.dependencies@[jj]@ == y;
                        assert(id_set(visited@).contains(node.dependencies@[jj]@));
                    }
                }
                false
            },
        }
    }

    /// Whether adding "`dependent_id` depends on `dependency_id`" would close a cycle:
    /// true exactly when `dependency_id` already reaches `dependent_id` along dependencies
    /// (in particular when the two are the same).
    pub fn would_create_cycle(&self, dependent_id: &TicketId, dependency_id: &TicketId) -> (r: bool)
        requires
            self.wf(),
        ensures
            r == reaches(self.dep_map(), dependency_id@, dependent_id@),
    {
        let mut visited: Vec<TicketId> = Vec::new();
        proof {
            assert(id_set(visited@) =~= Set::<Seq<char>>::empty());
        }
        let r = self.has_path_to(dependency_id, dependent_id, &mut visited);
        proof {
            if !r && reaches(self.dep_map(), dependency_id@, dependent_id@) {
                assert(closed_under_succ(self.dep_map(), id_set(visited@)));
                lemma_closed_set_holds_reachable(self.dep_map(), id_set(visited@), dependency_id@, dependent_id@);
            }
        }
        r
    }
}


/// Identifiers of the nodes that depend on nothing, in node order.
pub open spec fn root_ids(s: Seq<TicketNode>) -> Seq<Seq<char>>
    decreases s.len(),
{
    if s.len() == 0 {
        Seq::empty()
    } else {
        root_ids(s.drop_last()) + if s.last().dependencies@.len() == 0 {
            seq![s.last().id@]
        } else {
            Seq::empty()
        }
    }
}

/// Identifiers of the nodes that nothing depends on, in node order.
pub open spec fn leaf_ids(s: Seq<TicketNode>) -> Seq<Seq<char>>
    decreases s.len(),
{
    if s.len() == 0 {
        Seq::empty()
    } else {
        leaf_ids(s.drop_last()) + if s.last().dependents@.len() == 0 {
            seq![s.last().id@]
        } else {
            Seq::empty()
        }
    }
}

/// The texts of a sequence of borrowed identifiers.
pub open spec fn ref_ids(v: Seq<&TicketId>) -> Seq<Seq<char>> {
    v.map_values(|t: &TicketId| t@)
}

/// The message `add_dependency` fails with, or `None` when it succeeds.
pub open spec fn add_dependency_error(g: TicketGraph, a: Seq<char>, b: Seq<char>) -> Option<Seq<char>> {
    if !g.has(a) {
        Some("Dependent ticket "@ + a + " not found"@)
    } else if !g.has(b) {
        Some("Dependency ticket "@ + b + " not found"@)
    } else if reaches(g.dep_map(), b, a) {
        Some("Adding this dependency would create a cycle"@)
    } else {
        None
    }
}

/// Two well-formed graphs with the same identifiers at the same positions find
/// each identifier at the same position.
pub proof fn lemma_same_ids(g1: TicketGraph, g2: TicketGraph)
    requires
        g1.wf(),
        g2.wf(),
        g1.nodes@.len() == g2.nodes@.len(),
        forall|i: int| 0 <= i < g1.nodes@.len() ==> (#[trigger] g1.nodes@[i]).id@ == g2.nodes@[i].id@,
    ensures
        forall|k: Seq<char>| #[trigger] g1.has(k) == g2.has(k),
        forall|k: Seq<char>| #[trigger] g1.has(k) ==> g1.index_of(k) == g2.index_of(k),
{
    assert forall|k: Seq<char>| #[trigger] g1.has(k) == g2.has(k) by {
        if g1.has(k) {
            let i = choose|i: int| 0 <= i < g1.nodes@.len() && (#[trigger] g1.nodes@[i]).id@ == k;
            assert(g2.nodes@[i].id@ == k);
        }
        if g2.has(k) {
            let i = choose|i: int| 0 <= i < g2.nodes@.len() && (#[trigger] g2.nodes@[i]).id@ == k;
            assert(g1.nodes@[i].id@ == k);
        }
    }
    assert forall|k: Seq<char>| #[trigger] g1.has(k) implies g1.index_of(k) == g2.index_of(k) by {
        let i = g1.index_of(k);
        g1.lemma_index_of(i);
        assert(g2.nodes@[i].id@ == k);
        g2.lemma_index_of(i);
    }
}

impl TicketGraph {
    /// Adds a ticket, named by the digest of `serialized_ticket`. A ticket with the
    /// same identifier is replaced by a fresh node without edges; otherwise the node
    /// is appended.
    #[verifier::spinoff_prover]
    pub fn add_ticket(&mut self, ticket: TicketDecomposition, serialized_ticket: &str) -> (id: TicketId)
        requires
            old(self).wf(),
        ensures
            final(self).wf(),
            id@ == content_id(serialized_ticket@),
            final(self).has(id@),
            final(self).node(id@).ticket == ticket,
            final(self).node(id@).dependencies@.len() == 0,
            final(self).node(id@).dependents@.len() == 0,
            final(self).nodes@.len() == if old(self).has(id@) {
                old(self).nodes@.len()
            } else {
                old(self).nodes@.len() + 1
            },
            forall|i: int| 0 <= i < old(self).nodes@.len() && old(self).nodes@[i].id@ != id@
                ==> final(self).nodes@[i] == old(self).nodes@[i],
            final(self).dep_map() == old(self).dep_map().insert(id@, Set::empty()),
            final(self).dependent_map() == old(self).dependent_map().insert(id@, Set::empty()),
            acyclic(old(self).dep_map()) ==> acyclic(final(self).dep_map()),
            mirrored(old(self).dep_map(), old(self).dependent_map()) && !old(self).has(id@)
                ==> mirrored(final(self).dep_map(), final(self).dependent_map()),
    {
        let node = TicketNode::new(ticket, serialized_ticket);
        let id = node.id.clone();
        self.updated_at = now_rfc3339();
        let ghost g0 = *self;
        let ghost k = id@;
        proof {
            assert(g0.nodes == old(self).nodes);
            assert(g0.dep_map() =~= old(self).dep_map());
            assert(g0.dependent_map() =~= old(self).dependent_map());
        }
        proof {
            assert(node.dependency_set() =~= Set::empty());
            assert(node.dependent_set() =~= Set::empty());
        }
        match self.find(&id) {
            Some(i) => {
                self.nodes.set(i, node);
                proof {
                    assert forall|p: int, q: int| 0 <= p < q < self.nodes@.len() implies (#[trigger] self.nodes@[p]).id@ != (#[trigger] self.nodes@[q]).id@ by {
                        assert(g0.nodes@[p].id@ != g0.nodes@[q].id@);
                    }
                    lemma_same_ids(g0, *self);
                    self.lemma_index_of(i as int);
                    assert forall|x: Seq<char>| #[trigger] self.has(x) && x != k implies self.node(x) == g0.node(x) by {
                        let j = g0.index_of(x);
                        g0.lemma_index_of(j);
                        assert(j != i);
                    }
                    assert(self.dep_map() =~= g0.dep_map().insert(k, Set::empty()));
                    assert(self.dependent_map() =~= g0.dependent_map().insert(k, Set::empty()));
                }
            },
            None => {
                self.nodes.push(node);
                proof {
                    let n0 = g0.nodes@.len() as int;
                    assert forall|p: int, q: int| 0 <= p < q < self.nodes@.len() implies (#[trigger] self.nodes@[p]).id@ != (#[trigger] self.nodes@[q]).id@ by {
                        if q < n0 {
                            assert(g0.nodes@[p].id@ != g0.nodes@[q].id@);
                        } else {
                            assert(g0.nodes@[p].id@ != k);
                        }
                    }
                    self.lemma_index_of(n0);
                    assert forall|x: Seq<char>| #[trigger] self.has(x) == (g0.has(x) || x == k) by {
                        if self.has(x) {
                            let p = choose|p: int| 0 <= p < self.nodes@.len() && (#[trigger] self.nodes@[p]).id@ == x;
                            if p < n0 {
                                assert(g0.nodes@[p].id@ == x);
                            }
                        }
                        if g0.has(x) {
                            let p = choose|p: int| 0 <= p < g0.nodes@.len() && (#[trigger] g0.nodes@[p]).id@ == x;
                            assert(self.nodes@[p].id@ == x);
                        }
                    }
                    assert forall|x: Seq<char>| g0.has(x) implies #[trigger] self.index_of(x) == g0.index_of(x) by {
                        let p = g0.index_of(x);
                        g0.lemma_index_of(p);
                        self.lemma_index_of(p);
                    }
                    assert(self.dep_map() =~= g0.dep_map().insert(k, Set::empty()));
                    assert(self.dependent_map() =~= g0.dependent_map().insert(k, Set::empty()));
                }
            },
        }
        proof {
            assert(edges_within(self.dep_map(), g0.dep_map()));
            if acyclic(g0.dep_map()) {
                lemma_acyclic_within(self.dep_map(), g0.dep_map());
            }
            if mirrored(g0.dep_map(), g0.dependent_map()) && !g0.has(k) {
                assert(!g0.dep_map().dom().contains(k));
                assert(!g0.dependent_map().dom().contains(k));
                lemma_mirrored_fresh(g0.dep_map(), g0.dependent_map(), k);
                assert(mirrored(self.dep_map(), self.dependent_map()));
            }
        }
        id
    }
}


impl TicketGraph {
    /// Records that `dependent_id` depends on `dependency_id`. Fails, leaving the
    /// graph unchanged, when either ticket is missing or when the new edge would
    /// close a cycle.
    pub fn add_dependency(&mut self, dependent_id: &TicketId, dependency_id: &TicketId) -> (r: Result<(), String>)
        requires
            old(self).wf(),
        ensures
            final(self).wf(),
            r is Ok <==> add_dependency_error(*old(self), dependent_id@, dependency_id@) is None,
            match r {
                Err(e) => add_dependency_error(*old(self), dependent_id@, dependency_id@) == Some(e@)
                    && *final(self) == *old(self),
                Ok(_) => {
                    &&& final(self).dep_map() == with_edge(old(self).dep_map(), dependent_id@, dependency_id@)
                    &&& final(self).dependent_map() == with_edge(old(self).dependent_map(), dependency_id@, dependent_id@)
                    &&& final(self).ids() == old(self).ids()
                    &&& forall|i: int| 0 <= i < old(self).nodes@.len()
                        ==> (#[trigger] final(self).nodes@[i]).ticket == old(self).nodes@[i].ticket
                },
            },
            acyclic(old(self).dep_map()) ==> acyclic(final(self).dep_map()),
            mirrored(old(self).dep_map(), old(self).dependent_map())
                ==> mirrored(final(self).dep_map(), final(self).dependent_map()),
    {
        let ia = match self.find(dependent_id) {
            Some(i) => i,
            None => {
                return Err(concat3("Dependent ticket ", dependent_id.as_str(), " not found"));
            },
        };
        let ib = match self.find(dependency_id) {
            Some(i) => i,
            None => {
                return Err(concat3("Dependency ticket ", dependency_id.as_str(), " not found"));
            },
        };
        if self.would_create_cycle(dependent_id, dependency_id) {
            return Err(owned("Adding this dependency would create a cycle"));
        }
        let ghost g0 = *self;
        let ghost a = dependent_id@;
        let ghost b = dependency_id@;
        proof {
            if a == b {
                lemma_reaches_refl(g0.dep_map(), a);
            }
        }
        self.nodes[ia].add_dependency(dependency_id.clone());
        self.nodes[ib].add_dependent(dependent_id.clone());
        self.updated_at = now_rfc3339();
        proof {
            assert(ia != ib);
            assert forall|p: int, q: int| 0 <= p < q < self.nodes@.len() implies (#[trigger] self.nodes@[p]).id@ != (#[trigger] self.nodes@[q]).id@ by {
                assert(g0.nodes@[p].id@ != g0.nodes@[q].id@);
            }
            lemma_same_ids(g0, *self);
            assert forall|x: Seq<char>| #[trigger] self.has(x) implies self.node(x).dependency_set() == (if x == a {
                g0.node(x).dependency_set().insert(b)
            } else {
                g0.node(x).dependency_set()
            }) && self.node(x).dependent_set() == (if x == b {
                g0.node(x).dependent_set().insert(a)
            } else {
                g0.node(x).dependent_set()
            }) by {
                let j = g0.index_of(x);
                g0.lemma_index_of(j);
            }
            assert(self.dep_map() =~= with_edge(g0.dep_map(), a, b));
            assert(self.dependent_map() =~= with_edge(g0.dependent_map(), b, a));
            assert(self.ids() =~= g0.ids());
            if acyclic(g0.dep_map()) {
                lemma_add_edge_keeps_acyclic(g0.dep_map(), a, b);
            }
            if mirrored(g0.dep_map(), g0.dependent_map()) {
                lemma_mirrored_with_edge(g0.dep_map(), g0.dependent_map(), a, b);
            }
        }
        Ok(())
    }

    /// Forgets that `dependent_id` depends on `dependency_id`, on whichever of the
    /// two tickets the graph holds.
    pub fn remove_dependency(&mut self, dependent_id: &TicketId, dependency_id: &TicketId)
        requires
            old(self).wf(),
        ensures
            final(self).wf(),
            final(self).dep_map() == without_edge(old(self).dep_map(), dependent_id@, dependency_id@),
            final(self).dependent_map() == without_edge(old(self).dependent_map(), dependency_id@, dependent_id@),
            final(self).ids() == old(self).ids(),
            forall|i: int| 0 <= i < old(self).nodes@.len()
                ==> (#[trigger] final(self).nodes@[i]).ticket == old(self).nodes@[i].ticket,
            acyclic(old(self).dep_map()) ==> acyclic(final(self).dep_map()),
            mirrored(old(self).dep_map(), old(self).dependent_map())
                ==> mirrored(final(self).dep_map(), final(self).dependent_map()),
    {
        let ghost g0 = *self;
        let ghost a = dependent_id@;
        let ghost b = dependency_id@;
        let fa = self.find(dependent_id);
        let fb = self.find(dependency_id);
        if let Some(ia) = fa {
            self.nodes[ia].remove_dependency(dependency_id);
        }
        if let Some(ib) = fb {
            self.nodes[ib].remove_dependent(dependent_id);
        }
        self.updated_at = now_rfc3339();
        proof {
            assert forall|p: int, q: int| 0 <= p < q < self.nodes@.len() implies (#[trigger] self.nodes@[p]).id@ != (#[trigger] self.nodes@[q]).id@ by {
                assert(g0.nodes@[p].id@ != g0.nodes@[q].id@);
            }
            lemma_same_ids(g0, *self);
            assert forall|x: Seq<char>| #[trigger] self.has(x) implies self.node(x).dependency_set() == (if x == a {
                g0.node(x).dependency_set().remove(b)
            } else {
                g0.node(x).dependency_set()
            }) && self.node(x).dependent_set() == (if x == b {
                g0.node(x).dependent_set().remove(a)
            } else {
                g0.node(x).dependent_set()
            }) by {
                let j = g0.index_of(x);
                g0.lemma_index_of(j);
            }
            assert(self.dep_map() =~= without_edge(g0.dep_map(), a, b));
            assert(self.dependent_map() =~= without_edge(g0.dependent_map(), b, a));
            assert(self.ids() =~= g0.ids());
            assert(edges_within(self.dep_map(), g0.dep_map()));
            if acyclic(g0.dep_map()) {
                lemma_acyclic_within(self.dep_map(), g0.dep_map());
            }
            if mirrored(g0.dep_map(), g0.dependent_map()) {
                lemma_mirrored_without_edge(g0.dep_map(), g0.dependent_map(), a, b);
            }
        }
    }

    /// Identifiers of the tickets that depend on nothing, in node order.
    pub fn get_root_tickets(&self) -> (r: Vec<&TicketId>)
        ensures
            ref_ids(r@) == root_ids(self.nodes@),
    {
        let mut r: Vec<&TicketId> = Vec::new();
        let n = self.nodes.len();
        for i in 0..n
            invariant
                n == self.nodes@.len(),
                ref_ids(r@) == root_ids(self.nodes@.take(i as int)),
        {
            proof {
                assert(self.nodes@.take(i + 1).drop_last() =~= self.nodes@.take(i as int));
            }
            if self.nodes[i].dependencies.len() == 0 {
                r.push(&self.nodes[i].id);
            }
            proof {
                assert(ref_ids(r@) =~= root_ids(self.nodes@.take(i + 1)));
            }
        }
        proof {
            assert(self.nodes@.take(n as int) =~= self.nodes@);
        }
        r
    }

    /// Identifiers of the tickets that nothing depends on, in node order.
    pub fn get_leaf_tickets(&self) -> (r: Vec<&TicketId>)
        ensures
            ref_ids(r@) == leaf_ids(self.nodes@),
    {
        let mut r: Vec<&TicketId> = Vec::new();
        let n = self.nodes.len();
        for i in 0..n
            invariant
                n == self.nodes@.len(),
                ref_ids(r@) == leaf_ids(self.nodes@.take(i as int)),
        {
            proof {
                assert(self.nodes@.take(i + 1).drop_last() =~= self.nodes@.take(i as int));
            }
            if self.nodes[i].dependents.len() == 0 {
                r.push(&self.nodes[i].id);
            }
            proof {
                assert(ref_ids(r@) =~= leaf_ids(self.nodes@.take(i + 1)));
            }
        }
        proof {
            assert(self.nodes@.take(n as int) =~= self.nodes@);
        }
        r
    }
}


impl TicketGraph {
    /// The ticket with identifier `id`, for changing it in place.
    pub fn get_ticket_mut(&mut self, id: &TicketId) -> (r: Option<&mut TicketNode>)
        requires
            old(self).wf(),
        ensures
            match r {
                Some(n) => {
                    &&& old(self).has(id@)
                    &&& *n == old(self).node(id@)
                    &&& final(self).nodes@ == old(self).nodes@.update(old(self).index_of(id@), *final(n))
                },
                None => !old(self).has(id@) && *final(self) == *old(self),
            },
    {
        match self.find(id) {
            Some(i) => Some(&mut self.nodes[i]),
            None => None,
        }
    }
}

impl Default for TicketGraph {
    fn default() -> (g: TicketGraph)
        ensures
            g.wf(),
            g.nodes@.len() == 0,
    {
        TicketGraph::new()
    }
}

/// Removing a dependency right after adding it restores both maps, when the
/// edge was not there before.
pub proof fn law_remove_undoes_add(
    before: TicketGraph,
    added: TicketGraph,
    removed: TicketGraph,
    a: Seq<char>,
    b: Seq<char>,
)
    requires
        before.wf(),
        before.has(a),
        before.has(b),
        mirrored(before.dep_map(), before.dependent_map()),
        !before.dep_map()[a].contains(b),
        added.dep_map() == with_edge(before.dep_map(), a, b),
        added.dependent_map() == with_edge(before.dependent_map(), b, a),
        removed.dep_map() == without_edge(added.dep_map(), a, b),
        removed.dependent_map() == without_edge(added.dependent_map(), b, a),
    ensures
        removed.dep_map() == before.dep_map(),
        removed.dependent_map() == before.dependent_map(),
{
    lemma_without_with_edge(before.dep_map(), a, b);
    assert(!succ(before.dependent_map(), b).contains(a));
    lemma_without_with_edge(before.dependent_map(), b, a);
}

/// Every operation on a graph keeps it free of dependency cycles: adding a
/// ticket, adding an accepted dependency, and removing a dependency.
pub proof fn law_operations_keep_acyclic(g: TicketGraph, a: Seq<char>, b: Seq<char>, k: Seq<char>)
    requires
        g.wf(),
        acyclic(g.dep_map()),
    ensures
        add_dependency_error(g, a, b) is None ==> acyclic(with_edge(g.dep_map(), a, b)),
        acyclic(without_edge(g.dep_map(), a, b)),
        acyclic(g.dep_map().insert(k, Set::empty())),
{
    if add_dependency_error(g, a, b) is None {
        lemma_add_edge_keeps_acyclic(g.dep_map(), a, b);
    }
    assert(edges_within(without_edge(g.dep_map(), a, b), g.dep_map()));
    lemma_acyclic_within(without_edge(g.dep_map(), a, b), g.dep_map());
    assert(edges_within(g.dep_map().insert(k, Set::empty()), g.dep_map()));
    lemma_acyclic_within(g.dep_map().insert(k, Set::empty()), g.dep_map());
}


/// The request to refine one term of a parent ticket.
#[derive(Debug)]
pub struct RefinementContext {
    pub parent_ticket_id: TicketId,
    pub term_being_refined: String,
    pub original_context: String,
    pub additional_context: Vec<TicketId>,
}

/// A named collection of tickets and their dependencies.
#[derive(Debug)]
pub struct Project {
    pub name: String,
    pub description: String,
    pub graph: TicketGraph,
    pub created_at: String,
    pub updated_at: String,
}

impl Project {
    /// A project with no tickets, created and updated at the same moment: the
    /// current time as RFC 3339 text.
    pub fn new(name: String, description: String) -> (p: Project)
        ensures
            p.name == name,
            p.description == description,
            p.created_at@.len() > 0,
            p.updated_at == p.created_at,
            p.graph.wf(),
            p.graph.nodes@.len() == 0,
            p.graph.dep_map() == Map::<Seq<char>, Set<Seq<char>>>::empty(),
    {
        let now = now_rfc3339();
        Project { name, description, graph: TicketGraph::new(), created_at: now.clone(), updated_at: now }
    }

    /// Adds a ticket to the project's graph (see `TicketGraph::add_ticket`).
    pub fn add_ticket(&mut self, ticket: TicketDecomposition, serialized_ticket: &str) -> (id: TicketId)
        requires
            old(self).graph.wf(),
        ensures
            final(self).graph.wf(),
            final(self).name == old(self).name,
            final(self).description == old(self).description,
            id@ == content_id(serialized_ticket@),
            final(self).graph.has(id@),
            final(self).graph.node(id@).ticket == ticket,
            final(self).graph.node(id@).dependencies@.len() == 0,
            final(self).graph.node(id@).dependents@.len() == 0,
            final(self).graph.nodes@.len() == if old(self).graph.has(id@) {
                old(self).graph.nodes@.len()
            } else {
                old(self).graph.nodes@.len() + 1
            },
            forall|i: int| 0 <= i < old(self).graph.nodes@.len() && old(self).graph.nodes@[i].id@ != id@
                ==> final(self).graph.nodes@[i] == old(self).graph.nodes@[i],
            final(self).graph.dep_map() == old(self).graph.dep_map().insert(id@, Set::empty()),
            final(self).graph.dependent_map() == old(self).graph.dependent_map().insert(id@, Set::empty()),
    {
        self.updated_at = now_rfc3339();
        self.graph.add_ticket(ticket, serialized_ticket)
    }

    /// Identifiers of the project's tickets that depend on nothing.
    pub fn get_root_tickets(&self) -> (r: Vec<&TicketId>)
        ensures
            ref_ids(r@) == root_ids(self.graph.nodes@),
    {
        self.graph.get_root_tickets()
    }
}

/// The file name a project is stored under: spaces and slashes become
/// underscores, then `.json` is appended.
pub open spec fn project_file_name(name: Seq<char>) -> Seq<char> {
    name.map_values(|c: char| if c == ' ' || c == '/' { '_' } else { c }) + ".json"@
}

/// A relative path component appended to a directory, as `Path::join` does for a
/// component without separators: nothing is added to an empty directory, and no
/// second separator after a trailing one.
pub open spec fn join_path(dir: Seq<char>, file: Seq<char>) -> Seq<char> {
    if dir.len() == 0 {
        file
    } else if dir.last() == '/' {
        dir + file
    } else {
        dir + seq!['/'] + file
    }
}

/// Computes `project_file_name`.
pub fn sanitized_file_name(name: &str) -> (r: String)
    ensures
        r@ == project_file_name(name@),
{
    let cs = chars_of(name);
    let mut r = String::new();
    let n = cs.len();
    for i in 0..n
        invariant
            n == cs@.len(),
            cs@ == name@,
            r@ == name@.take(i as int).map_values(|c: char| if c == ' ' || c == '/' { '_' } else { c }),
    {
        let c = cs[i];
        push_char(&mut r, if c == ' ' || c == '/' { '_' } else { c });
        proof {
            assert(name@.take(i + 1).map_values(|c: char| if c == ' ' || c == '/' { '_' } else { c })
                =~= name@.take(i as int).map_values(|c: char| if c == ' ' || c == '/' { '_' } else { c }).push(
                if c == ' ' || c == '/' { '_' } else { c }));
        }
    }
    proof {
        assert(name@.take(n as int) =~= name@);
    }
    append_str(&mut r, ".json");
    r
}

/// Computes `join_path`.
pub fn join(dir: &str, file: &str) -> (r: String)
    ensures
        r@ == join_path(dir@, file@),
{
    let d = chars_of(dir);
    let mut r = owned(dir);
    if d.len() > 0 && d[d.len() - 1] != '/' {
        push_char(&mut r, '/');
    }
    append_str(&mut r, file);
    r
}

/// The index of the projects of a workspace: each project name with the path of
/// its file, in the order of registration.
#[derive(Debug)]
pub struct ProjectManager {
    pub projects: Vec<(String, String)>,
    pub workspace_dir: String,
}

/// The texts of the project names of an index.
pub open spec fn project_names(v: Seq<(String, String)>) -> Seq<Seq<char>> {
    v.map_values(|e: (String, String)| e.0@)
}

/// The message for a project name that is not in the index.
pub open spec fn not_found_message(name: Seq<char>) -> Seq<char> {
    "Project '"@ + name + "' not found"@
}

impl ProjectManager {
    /// No project name occurs twice.
    pub open spec fn wf(&self) -> bool {
        forall|i: int, j: int| 0 <= i < j < self.projects@.len() ==> (#[trigger] self.projects@[i]).0@ != (#[trigger] self.projects@[j]).0@
    }

    /// The index as a map from project names to file paths.
    pub open spec fn index(&self) -> Map<Seq<char>, Seq<char>> {
        Map::new(
            |k: Seq<char>| exists|i: int| 0 <= i < self.projects@.len() && (#[trigger] self.projects@[i]).0@ == k,
            |k: Seq<char>| self.projects@[choose|i: int| 0 <= i < self.projects@.len() && (#[trigger] self.projects@[i]).0@ == k].1@,
        )
    }

    proof fn lemma_index_at(&self, i: int)
        requires
            self.wf(),
            0 <= i < self.projects@.len(),
        ensures
            self.index().contains_key(self.projects@[i].0@),
            self.index()[self.projects@[i].0@] == self.projects@[i].1@,
    {
        let k = self.projects@[i].0@;
        assert(exists|j: int| 0 <= j < self.projects@.len() && (#[trigger] self.projects@[j]).0@ == k);
        let j = choose|j: int| 0 <= j < self.projects@.len() && (#[trigger] self.projects@[j]).0@ == k;
        if j != i {
            if j < i {
                assert(self.projects@[j].0@ != self.projects@[i].0@);
            } else {
                assert(self.projects@[i].0@ != self.projects@[j].0@);
            }
        }
    }

    /// An empty index for the workspace directory `workspace_dir`.
    pub fn new(workspace_dir: &str) -> (m: ProjectManager)
        ensures
            m.wf(),
            m.workspace_dir@ == workspace_dir@,
            m.projects@.len() == 0,
            m.index() == Map::<Seq<char>, Seq<char>>::empty(),
    {
        let m = ProjectManager { projects: Vec::new(), workspace_dir: owned(workspace_dir) };
        assert(m.index() =~= Map::<Seq<char>, Seq<char>>::empty());
        m
    }

    /// Position of the project `name` in the index.
    pub fn position(&self, name: &str) -> (r: Option<usize>)
        requires
            self.wf(),
        ensures
            match r {
                Some(i) => i < self.projects@.len() && self.projects@[i as int].0@ == name@
                    && self.index().contains_key(name@) && self.index()[name@] == self.projects@[i as int].1@,
                None => !self.index().contains_key(name@),
            },
    {
        let n = self.projects.len();
        for i in 0..n
            invariant
                n == self.projects@.len(),
                self.wf(),
                forall|j: int| 0 <= j < i ==> self.projects@[j].0@ != name@,
        {
            if str_eq(self.projects[i].0.as_str(), name) {
                proof {
                    self.lemma_index_at(i as int);
                }
                return Some(i);
            }
        }
        None
    }

    /// Records `name` with the file `path`, replacing an earlier entry for the same name.
    pub fn register_project(&mut self, name: String, path: String)
        requires
            old(self).wf(),
        ensures
            final(self).wf(),
            final(self).workspace_dir == old(self).workspace_dir,
            final(self).index() == old(self).index().insert(name@, path@),
    {
        let ghost m0 = *self;
        let ghost k = name@;
        let ghost pv = path@;
        match self.position(name.as_str()) {
            Some(i) => {
                self.projects.set(i, (name, path));
                proof {
                    assert forall|p: int, q: int| 0 <= p < q < self.projects@.len() implies (#[trigger] self.projects@[p]).0@ != (#[trigger] self.projects@[q]).0@ by {
                        assert(m0.projects@[p].0@ != m0.projects@[q].0@);
                    }
                    assert forall|x: Seq<char>| #[trigger] self.index().contains_key(x) == m0.index().insert(k, pv).contains_key(x) by {
                        if self.index().contains_key(x) {
                            let j = choose|j: int| 0 <= j < self.projects@.len() && (#[trigger] self.projects@[j]).0@ == x;
                            if j != i {
                                assert(m0.projects@[j].0@ == x);
                            }
                        }
                        if m0.index().contains_key(x) {
                            let j = choose|j: int| 0 <= j < m0.projects@.len() && (#[trigger] m0.projects@[j]).0@ == x;
                            if j != i {
                                assert(self.projects@[j].0@ == x);
                            }
                        }
                        if x == k {
                            assert(self.projects@[i as int].0@ == x);
                        }
                    }
                    assert forall|x: Seq<char>| #[trigger] self.index().contains_key(x) implies self.index()[x] == m0.index().insert(k, pv)[x] by {
                        let j = choose|j: int| 0 <= j < self.projects@.len() && (#[trigger] self.projects@[j]).0@ == x;
                        self.lemma_index_at(j);
                        if j != i {
                            m0.lemma_index_at(j);
                        }
                    }
                    assert(self.index() =~= m0.index().insert(k, pv));
                }
            },
            None => {
                self.projects.push((name, path));
                proof {
                    let n0 = m0.projects@.len() as int;
                    assert forall|p: int, q: int| 0 <= p < q < self.projects@.len() implies (#[trigger] self.projects@[p]).0@ != (#[trigger] self.projects@[q]).0@ by {
                        if q < n0 {
                            assert(m0.projects@[p].0@ != m0.projects@[q].0@);
                        } else {
                            assert(!m0.index().contains_key(k));
                            assert(m0.projects@[p].0@ != k);
                        }
                    }
                    assert forall|x: Seq<char>| #[trigger] self.index().contains_key(x) == m0.index().insert(k, pv).contains_key(x) by {
                        if self.index().contains_key(x) {
                            let j = choose|j: int| 0 <= j < self.projects@.len() && (#[trigger] self.projects@[j]).0@ == x;
                            if j < n0 {
                                assert(m0.projects@[j].0@ == x);
                            }
                        }
                        if m0.index().contains_key(x) {
                            let j = choose|j: int| 0 <= j < m0.projects@.len() && (#[trigger] m0.projects@[j]).0@ == x;
                            assert(self.projects@[j].0@ == x);
                        }
                        if x == k {
                            assert(self.projects@[n0].0@ == x);
                        }
                    }
                    assert forall|x: Seq<char>| #[trigger] self.index().contains_key(x) implies self.index()[x] == m0.index().insert(k, pv)[x] by {
                        let j = choose|j: int| 0 <= j < self.projects@.len() && (#[trigger] self.projects@[j]).0@ == x;
                        self.lemma_index_at(j);
                        if j < n0 {
                            m0.lemma_index_at(j);
                        }
                    }
                    assert(self.index() =~= m0.index().insert(k, pv));
                }
            },
        }
    }
}


impl ProjectManager {
    /// Where the project `name` is stored: its sanitized file name in the workspace.
    pub fn project_path(&self, name: &str) -> (r: String)
        ensures
            r@ == join_path(self.workspace_dir@, project_file_name(name@)),
    {
        let file = sanitized_file_name(name);
        join(self.workspace_dir.as_str(), file.as_str())
    }

    /// Where the index of the workspace is stored.
    pub fn index_path(&self) -> (r: String)
        ensures
            r@ == join_path(self.workspace_dir@, "projects.json"@),
    {
        join(self.workspace_dir.as_str(), "projects.json")
    }

    /// The checks made before a project is created: its name must be new. On
    /// success, the path its file is to be written to.
    pub fn plan_new_project(&self, name: &str) -> (r: Result<String, String>)
        requires
            self.wf(),
        ensures
            match r {
                Ok(path) => !self.index().contains_key(name@)
                    && path@ == join_path(self.workspace_dir@, project_file_name(name@)),
                Err(e) => self.index().contains_key(name@) && e@ == "Project '"@ + name@ + "' already exists"@,
            },
    {
        match self.position(name) {
            Some(_) => Err(concat3("Project '", name, "' already exists")),
            None => Ok(self.project_path(name)),
        }
    }

    /// The file of the project `name`, to load it from.
    pub fn load_project_path(&self, name: &str) -> (r: Result<&String, String>)
        requires
            self.wf(),
        ensures
            match r {
                Ok(path) => self.index().contains_key(name@) && path@ == self.index()[name@],
                Err(e) => !self.index().contains_key(name@) && e@ == not_found_message(name@),
            },
    {
        match self.position(name) {
            Some(i) => Ok(&self.projects[i].1),
            None => Err(concat3("Project '", name, "' not found")),
        }
    }

    /// The file of `project`, to save it to; the project must be in the index.
    pub fn save_project_path(&self, project: &Project) -> (r: Result<&String, String>)
        requires
            self.wf(),
        ensures
            match r {
                Ok(path) => self.index().contains_key(project.name@) && path@ == self.index()[project.name@],
                Err(e) => !self.index().contains_key(project.name@)
                    && e@ == "Project '"@ + project.name@ + "' not found in index"@,
            },
    {
        match self.position(project.name.as_str()) {
            Some(i) => Ok(&self.projects[i].1),
            None => Err(concat3("Project '", project.name.as_str(), "' not found in index")),
        }
    }

    /// The names of the indexed projects, in the order of registration.
    pub fn list_projects(&self) -> (r: Vec<&String>)
        ensures
            r@.map_values(|s: &String| s@) == project_names(self.projects@),
    {
        let mut r: Vec<&String> = Vec::new();
        let n = self.projects.len();
        for i in 0..n
            invariant
                n == self.projects@.len(),
                r@.map_values(|s: &String| s@) == project_names(self.projects@).take(i as int),
        {
            let ghost r0 = r@;
            r.push(&self.projects[i].0);
            proof {
                assert(r@ == r0.push(&self.projects@[i as int].0));
                assert(r@.map_values(|s: &String| s@) =~= r0.map_values(|s: &String| s@).push(self.projects@[i as int].0@));
                assert(r@.map_values(|s: &String| s@) =~= project_names(self.projects@).take(i + 1));
            }
        }
        proof {
            assert(project_names(self.projects@).take(n as int) =~= project_names(self.projects@));
        }
        r
    }

    /// Removes the project `name` from the index and gives back the path of its file.
    pub fn unregister_project(&mut self, name: &str) -> (r: Result<String, String>)
        requires
            old(self).wf(),
        ensures
            final(self).wf(),
            final(self).workspace_dir == old(self).workspace_dir,
            match r {
                Ok(path) => old(self).index().contains_key(name@) && path@ == old(self).index()[name@]
                    && final(self).index() == old(self).index().remove(name@),
                Err(e) => !old(self).index().contains_key(name@) && e@ == not_found_message(name@)
                    && *final(self) == *old(self),
            },
    {
        match self.position(name) {
            None => Err(concat3("Project '", name, "' not found")),
            Some(i) => {
                let ghost m0 = *self;
                let ghost k = name@;
                let entry = self.projects.remove(i);
                proof {
                    assert(self.projects@ == m0.projects@.remove(i as int));
                    assert forall|p: int, q: int| 0 <= p < q < self.projects@.len() implies (#[trigger] self.projects@[p]).0@ != (#[trigger] self.projects@[q]).0@ by {
                        let pp = if p < i { p } else { p + 1 };
                        let qq = if q < i { q } else { q + 1 };
                        assert(self.projects@[p] == m0.projects@[pp]);
                        assert(self.projects@[q] == m0.projects@[qq]);
                        assert(m0.projects@[pp].0@ != m0.projects@[qq].0@);
                    }
                    assert forall|x: Seq<char>| #[trigger] self.index().contains_key(x) == m0.index().remove(k).contains_key(x) by {
                        if self.index().contains_key(x) {
                            let j = choose|j: int| 0 <= j < self.projects@.len() && (#[trigger] self.projects@[j]).0@ == x;
                            let jj = if j < i { j } else { j + 1 };
                            assert(m0.projects@[jj].0@ == x);
                            assert(m0.projects@[jj].0@ != m0.projects@[i as int].0@);
                        }
                        if m0.index().contains_key(x) && x != k {
                            let j = choose|j: int| 0 <= j < m0.projects@.len() && (#[trigger] m0.projects@[j]).0@ == x;
                            assert(j != i);
                            let jj = if j < i { j } else { j - 1 };
                            assert(self.projects@[jj].0@ == x);
                        }
                    }
                    assert forall|x: Seq<char>| #[trigger] self.index().contains_key(x) implies self.index()[x] == m0.index().remove(k)[x] by {
                        let j = choose|j: int| 0 <= j < self.projects@.len() && (#[trigger] self.projects@[j]).0@ == x;
                        self.lemma_index_at(j);
                        let jj = if j < i { j } else { j + 1 };
                        m0.lemma_index_at(jj);
                    }
                    assert(self.index() =~= m0.index().remove(k));
                }
                Ok(entry.1)
            },
        }
    }

    /// An index read back from storage: the entries are registered in order, a
    /// later entry for the same name replacing an earlier one.
    pub fn load_index(workspace_dir: &str, entries: Vec<(String, String)>) -> (m: ProjectManager)
        ensures
            m.wf(),
            m.workspace_dir@ == workspace_dir@,
            m.index() == index_of_entries(entries@),
    {
        let mut m = ProjectManager::new(workspace_dir);
        let n = entries.len();
        let mut rest = entries;
        let ghost all = rest@;
        let mut i: usize = 0;
        while rest.len() > 0
            invariant
                m.wf(),
                m.workspace_dir@ == workspace_dir@,
                rest@ == all.skip(i as int),
                n == all.len(),
                i <= all.len(),
                m.index() == index_of_entries(all.take(i as int)),
            decreases rest@.len(),
        {
            let e = rest.remove(0);
            proof {
                assert(all.take(i + 1).drop_last() =~= all.take(i as int));
                assert(all.take(i + 1).last() == e);
                assert(rest@ =~= all.skip(i + 1));
            }
            m.register_project(e.0, e.1);
            i = i + 1;
        }
        proof {
            assert(all.take(i as int) =~= all);
        }
        m
    }
}

/// The map built by inserting the entries in order.
pub open spec fn index_of_entries(v: Seq<(String, String)>) -> Map<Seq<char>, Seq<char>>
    decreases v.len(),
{
    if v.len() == 0 {
        Map::empty()
    } else {
        index_of_entries(v.drop_last()).insert(v.last().0@, v.last().1@)
    }
}


/// The key of a stored refinement request field.
#[derive(Debug, Clone, Copy, PartialEq, Eq, Structural)]
pub enum RefinementKey {
    Term,
    Context,
    Reason,
    Priority,
    Other,
}

/// Why a stored refinement request could not be read.
#[derive(Debug, Clone, Copy, PartialEq, Eq)]
pub enum RefinementRequestError {
    /// A field was given twice (its name is carried).
    DuplicateField(&'static str),
    /// A required field was not given (its name is carried).
    MissingField(&'static str),
}

/// The key named by a field name of a stored refinement request.
pub open spec fn key_of(name: Seq<char>) -> RefinementKey {
    if name == "term"@ {
        RefinementKey::Term
    } else if name == "context"@ {
        RefinementKey::Context
    } else if name == "reason"@ {
        RefinementKey::Reason
    } else if name == "priority"@ {
        RefinementKey::Priority
    } else {
        RefinementKey::Other
    }
}

/// Computes `key_of`.
pub fn classify_key(name: &str) -> (k: RefinementKey)
    ensures
        k == key_of(name@),
{
    if eq_lit(name, "term") {
        RefinementKey::Term
    } else if eq_lit(name, "context") {
        RefinementKey::Context
    } else if eq_lit(name, "reason") {
        RefinementKey::Reason
    } else if eq_lit(name, "priority") {
        RefinementKey::Priority
    } else {
        RefinementKey::Other
    }
}

impl RefinementRequest {
    /// The request stored in the older format, as a bare term: the context and
    /// reason say so and the priority is medium.
    pub fn from_legacy_term(value: &str) -> (r: RefinementRequest)
        ensures
            r.term@ == value@,
            r.context@ == "Legacy format - context not specified"@,
            r.reason@ == "Needs refinement (converted from legacy string format)"@,
            r.priority == RefinementPriority::Medium,
    {
        RefinementRequest {
            term: owned(value),
            context: owned("Legacy format - context not specified"),
            reason: owned("Needs refinement (converted from legacy string format)"),
            priority: RefinementPriority::Medium,
        }
    }
}

/// The fields of a stored refinement request read so far.
#[derive(Debug)]
pub struct RefinementRequestBuilder {
    pub term: Option<String>,
    pub context: Option<String>,
    pub reason: Option<String>,
    pub priority: Option<RefinementPriority>,
}

/// The field `key` has been read already.
pub open spec fn key_taken(b: RefinementRequestBuilder, key: RefinementKey) -> bool {
    match key {
        RefinementKey::Term => b.term is Some,
        RefinementKey::Context => b.context is Some,
        RefinementKey::Reason => b.reason is Some,
        RefinementKey::Priority => b.priority is Some,
        RefinementKey::Other => false,
    }
}

/// The field name of a key.
pub open spec fn key_name(key: RefinementKey) -> Seq<char> {
    match key {
        RefinementKey::Term => "term"@,
        RefinementKey::Context => "context"@,
        RefinementKey::Reason => "reason"@,
        RefinementKey::Priority => "priority"@,
        RefinementKey::Other => Seq::empty(),
    }
}

impl RefinementRequestBuilder {
    /// Nothing read yet.
    pub fn new() -> (b: RefinementRequestBuilder)
        ensures
            b.term is None && b.context is None && b.reason is None && b.priority is None,
    {
        RefinementRequestBuilder { term: None, context: None, reason: None, priority: None }
    }

    /// Whether a value for `key` may be read now: a field may be given once;
    /// other keys are ignored.
    pub fn check_key(&self, key: RefinementKey) -> (r: Result<(), RefinementRequestError>)
        ensures
            match r {
                Ok(_) => !key_taken(*self, key),
                Err(RefinementRequestError::DuplicateField(name)) => key_taken(*self, key) && name@ == key_name(key)
                    && name == key_name_str(key),
                Err(_) => false,
            },
    {
        match key {
            RefinementKey::Term => if self.term.is_some() {
                Err(RefinementRequestError::DuplicateField("term"))
            } else {
                Ok(())
            },
            RefinementKey::Context => if self.context.is_some() {
                Err(RefinementRequestError::DuplicateField("context"))
            } else {
                Ok(())
            },
            RefinementKey::Reason => if self.reason.is_some() {
                Err(RefinementRequestError::DuplicateField("reason"))
            } else {
                Ok(())
            },
            RefinementKey::Priority => if self.priority.is_some() {
                Err(RefinementRequestError::DuplicateField("priority"))
            } else {
                Ok(())
            },
            RefinementKey::Other => Ok(()),
        }
    }

    /// Records the term.
    pub fn set_term(&mut self, value: String)
        ensures
            final(self).term == Some(value),
            final(self).context == old(self).context,
            final(self).reason == old(self).reason,
            final(self).priority == old(self).priority,
    {
        self.term = Some(value);
    }

    /// Records the context.
    pub fn set_context(&mut self, value: String)
        ensures
            final(self).context == Some(value),
            final(self).term == old(self).term,
            final(self).reason == old(self).reason,
            final(self).priority == old(self).priority,
    {
        self.context = Some(value);
    }

    /// Records the reason.
    pub fn set_reason(&mut self, value: String)
        ensures
            final(self).reason == Some(value),
            final(self).term == old(self).term,
            final(self).context == old(self).context,
            final(self).priority == old(self).priority,
    {
        self.reason = Some(value);
    }

    /// Records the priority.
    pub fn set_priority(&mut self, value: RefinementPriority)
        ensures
            final(self).priority == Some(value),
            final(self).term == old(self).term,
            final(self).context == old(self).context,
            final(self).reason == old(self).reason,
    {
        self.priority = Some(value);
    }

    /// The request read: the term is required; a missing context, reason or
    /// priority takes its default.
    pub fn finish(self) -> (r: Result<RefinementRequest, RefinementRequestError>)
        ensures
            match r {
                Ok(req) => {
                    &&& self.term == Some(req.term)
                    &&& req.context@ == match self.context {
                        Some(c) => c@,
                        None => "Context not specified"@,
                    }
                    &&& req.reason@ == match self.reason {
                        Some(c) => c@,
                        None => "Needs refinement"@,
                    }
                    &&& req.priority == match self.priority {
                        Some(p) => p,
                        None => RefinementPriority::Medium,
                    }
                },
                Err(e) => self.term is None && e == RefinementRequestError::MissingField("term"),
            },
    {
        let term = match self.term {
            Some(t) => t,
            None => {
                return Err(RefinementRequestError::MissingField("term"));
            },
        };
        let context = match self.context {
            Some(c) => c,
            None => owned("Context not specified"),
        };
        let reason = match self.reason {
            Some(c) => c,
            None => owned("Needs refinement"),
        };
        let priority = match self.priority {
            Some(p) => p,
            None => RefinementPriority::Medium,
        };
        Ok(RefinementRequest { term, context, reason, priority })
    }
}


/// A field value of a stored refinement request, read as its key asks.
#[derive(Debug)]
pub enum FieldValue {
    Text(String),
    Priority(RefinementPriority),
    Ignored,
}

/// The builder after reading `value` under `key`: a duplicate field is an
/// error; a text goes to the term, context or reason, a priority to the
/// priority; a value of another kind, or under another key, is ignored.
pub open spec fn accept_field(
    b: RefinementRequestBuilder,
    key: RefinementKey,
    value: FieldValue,
) -> Result<RefinementRequestBuilder, RefinementRequestError> {
    if key_taken(b, key) {
        Err(RefinementRequestError::DuplicateField(key_name_str(key)))
    } else {
        Ok(
            match (key, value) {
                (RefinementKey::Term, FieldValue::Text(t)) => RefinementRequestBuilder { term: Some(t), ..b },
                (RefinementKey::Context, FieldValue::Text(t)) => RefinementRequestBuilder { context: Some(t), ..b },
                (RefinementKey::Reason, FieldValue::Text(t)) => RefinementRequestBuilder { reason: Some(t), ..b },
                (RefinementKey::Priority, FieldValue::Priority(p)) => RefinementRequestBuilder {
                    priority: Some(p),
                    ..b
                },
                _ => b,
            },
        )
    }
}

/// The name a duplicate-field error carries for `key`.
pub open spec fn key_name_str(key: RefinementKey) -> &'static str {
    match key {
        RefinementKey::Term => "term",
        RefinementKey::Context => "context",
        RefinementKey::Reason => "reason",
        RefinementKey::Priority => "priority",
        RefinementKey::Other => "",
    }
}

/// The builder after reading the fields in order, or the first error.
pub open spec fn accept_fields(
    b: RefinementRequestBuilder,
    fields: Seq<(String, FieldValue)>,
) -> Result<RefinementRequestBuilder, RefinementRequestError>
    decreases fields.len(),
{
    if fields.len() == 0 {
        Ok(b)
    } else {
        match accept_field(b, key_of(fields[0].0@), fields[0].1) {
            Err(e) => Err(e),
            Ok(next) => accept_fields(next, fields.drop_first()),
        }
    }
}

/// The builder with nothing read.
pub open spec fn empty_builder() -> RefinementRequestBuilder {
    RefinementRequestBuilder { term: None, context: None, reason: None, priority: None }
}

impl RefinementRequestBuilder {
    /// Reads `value` under `key` (`accept_field`).
    pub fn accept(&mut self, key: RefinementKey, value: FieldValue) -> (r: Result<(), RefinementRequestError>)
        ensures
            match accept_field(*old(self), key, value) {
                Ok(b) => r is Ok && *final(self) == b,
                Err(e) => r == Err::<(), RefinementRequestError>(e) && *final(self) == *old(self),
            },
    {
        match self.check_key(key) {
            Err(e) => {
                return Err(e);
            },
            Ok(()) => {},
        }
        match (key, value) {
            (RefinementKey::Term, FieldValue::Text(t)) => self.set_term(t),
            (RefinementKey::Context, FieldValue::Text(t)) => self.set_context(t),
            (RefinementKey::Reason, FieldValue::Text(t)) => self.set_reason(t),
            (RefinementKey::Priority, FieldValue::Priority(p)) => self.set_priority(p),
            _ => {},
        }
        Ok(())
    }
}

/// Reads a stored refinement request from its fields, in order: the first
/// duplicate field is an error; then the term is required and a missing
/// context, reason or priority takes its default.
pub fn request_from_fields(fields: Vec<(String, FieldValue)>) -> (r: Result<RefinementRequest, RefinementRequestError>)
    ensures
        match accept_fields(empty_builder(), fields@) {
            Err(e) => r == Err::<RefinementRequest, RefinementRequestError>(e),
            Ok(b) => match r {
                Ok(req) => {
                    &&& b.term == Some(req.term)
                    &&& req.context@ == match b.context {
                        Some(c) => c@,
                        None => "Context not specified"@,
                    }
                    &&& req.reason@ == match b.reason {
                        Some(c) => c@,
                        None => "Needs refinement"@,
                    }
                    &&& req.priority == match b.priority {
                        Some(p) => p,
                        None => RefinementPriority::Medium,
                    }
                },
                Err(e) => b.term is None && e == RefinementRequestError::MissingField("term"),
            },
        },
{
    let mut b = RefinementRequestBuilder::new();
    let mut rest = fields;
    while rest.len() > 0
        invariant
            accept_fields(empty_builder(), fields@) == accept_fields(b, rest@),
        decreases rest@.len(),
    {
        let ghost before = rest@;
        let (name, value) = rest.remove(0);
        proof {
            assert(rest@ =~= before.drop_first());
        }
        let key = classify_key(name.as_str());
        match b.accept(key, value) {
            Err(e) => {
                return Err(e);
            },
            Ok(()) => {},
        }
    }
    b.finish()
}

/// The definition of the first term named `key`.
pub open spec fn term_lookup(terms: Seq<(String, String)>, key: Seq<char>) -> Option<Seq<char>>
    decreases terms.len(),
{
    if terms.len() == 0 {
        None
    } else if terms[0].0@ == key {
        Some(terms[0].1@)
    } else {
        term_lookup(terms.drop_first(), key)
    }
}

impl DecomposedTicket {
    /// The definition of the term `key`, if the ticket defines it.
    pub fn term_definition(&self, key: &str) -> (r: Option<&String>)
        ensures
            match r {
                Some(d) => term_lookup(self.terms@, key@) == Some(d@),
                None => term_lookup(self.terms@, key@) is None,
            },
    {
        let n = self.terms.len();
        proof {
            assert(self.terms@.skip(0) =~= self.terms@);
        }
        for i in 0..n
            invariant
                n == self.terms@.len(),
                term_lookup(self.terms@, key@) == term_lookup(self.terms@.skip(i as int), key@),
        {
            proof {
                let t = self.terms@.skip(i as int);
                assert(t.drop_first() =~= self.terms@.skip(i + 1));
                assert(t[0] == self.terms@[i as int]);
            }
            if str_eq(self.terms[i].0.as_str(), key) {
                return Some(&self.terms[i].1);
            }
        }
        None
    }

    /// Whether the ticket defines the term `key`.
    pub fn has_term(&self, key: &str) -> (r: bool)
        ensures
            r == term_lookup(self.terms@, key@) is Some,
    {
        self.term_definition(key).is_some()
    }
}


/// A project file name never contains a space or a slash, and ends in
/// `.json`.
pub proof fn law_file_names_are_flat(name: Seq<char>)
    ensures
        !project_file_name(name).contains(' '),
        !project_file_name(name).contains('/'),
        project_file_name(name).len() == name.len() + 5,
        project_file_name(name).skip(name.len() as int) == ".json"@,
{
    let f = project_file_name(name);
    reveal_strlit(".json");
    assert forall|i: int| 0 <= i < f.len() implies f[i] != ' ' && f[i] != '/' by {
        if i >= name.len() {
            assert(f[i] == ".json"@[i - name.len()]);
        }
    }
    assert(f.skip(name.len() as int) =~= ".json"@);
}

/// The projects listed are the names in the index, each once.
pub proof fn law_listed_projects_are_the_index_names(m: ProjectManager)
    requires
        m.wf(),
    ensures
        project_names(m.projects@).no_duplicates(),
        project_names(m.projects@).to_set() == m.index().dom(),
{
    let names = project_names(m.projects@);
    assert forall|i: int, j: int| 0 <= i < names.len() && 0 <= j < names.len() && i != j implies names[i]
        != names[j] by {
        if i < j {
            assert(m.projects@[i].0@ != m.projects@[j].0@);
        } else {
            assert(m.projects@[j].0@ != m.projects@[i].0@);
        }
    }
    assert forall|k: Seq<char>| names.to_set().contains(k) <==> m.index().dom().contains(k) by {
        if names.to_set().contains(k) {
            let i = choose|i: int| 0 <= i < names.len() && names[i] == k;
            assert(m.projects@[i].0@ == k);
        }
        if m.index().dom().contains(k) {
            let i = choose|i: int| 0 <= i < m.projects@.len() && (#[trigger] m.projects@[i]).0@ == k;
            assert(names[i] == k);
        }
    }
    assert(names.to_set() =~= m.index().dom());
}

/// Registering a project under a name that was free makes a later lookup of
/// that name find its file and a second creation under it be refused, and
/// leaves every other name as it was; unregistering it makes lookups fail
/// again.
pub proof fn law_registered_project_is_found(
    before: ProjectManager,
    after: ProjectManager,
    removed: ProjectManager,
    name: Seq<char>,
    path: Seq<char>,
)
    requires
        before.wf(),
        !before.index().contains_key(name),
        after.index() == before.index().insert(name, path),
        removed.index() == after.index().remove(name),
    ensures
        after.index().contains_key(name),
        after.index()[name] == path,
        forall|k: Seq<char>|
            k != name ==> (after.index().contains_key(k) == before.index().contains_key(k)),
        !removed.index().contains_key(name),
        removed.index() == before.index(),
{
    assert(removed.index() =~= before.index());
}

} // verus!
