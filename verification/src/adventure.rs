//! Playing through a story: following a choice to the node it leads to,
//! attaching a freshly expanded node, keeping the node states, and reading
//! the player's answers.
use vstd::prelude::*;
use crate::qa::number_between;
use crate::story::{Choice, StoryEdge, StoryGraph, StoryNode};
use crate::text::{
    append_str, chars_of, concat3, lowercase_text, prefix, prefix_string, str_eq, string_from_chars,
    to_lowercase, trim_chars, trimmed,
};
use crate::types::NodeState;

verus! {

/// The first node carrying identifier `id`, if any.
pub open spec fn node_lookup(nodes: Seq<StoryNode>, id: u128) -> Option<StoryNode>
    decreases nodes.len(),
{
    if nodes.len() == 0 {
        None
    } else if nodes[0].id == id {
        Some(nodes[0])
    } else {
        node_lookup(nodes.drop_first(), id)
    }
}

proof fn lemma_lookup_update(s: Seq<StoryNode>, i: int, e: StoryNode, k: u128)
    requires
        0 <= i < s.len(),
        s[i].id == e.id,
        forall|j: int| 0 <= j < i ==> s[j].id != e.id,
    ensures
        node_lookup(s.update(i, e), k) == if k == e.id {
            Some(e)
        } else {
            node_lookup(s, k)
        },
    decreases i,
{
    let u = s.update(i, e);
    if i > 0 {
        assert(u[0] == s[0]);
        assert(u.drop_first() =~= s.drop_first().update(i - 1, e));
        lemma_lookup_update(s.drop_first(), i - 1, e, k);
    } else {
        assert(u[0] == e);
        assert(u.drop_first() =~= s.drop_first());
    }
}

proof fn lemma_lookup_push(s: Seq<StoryNode>, e: StoryNode, k: u128)
    requires
        forall|j: int| 0 <= j < s.len() ==> s[j].id != e.id,
    ensures
        node_lookup(s.push(e), k) == if k == e.id {
            Some(e)
        } else {
            node_lookup(s, k)
        },
    decreases s.len(),
{
    if s.len() == 0 {
        assert(s.push(e)[0] == e);
        assert(s.push(e).drop_first() =~= Seq::<StoryNode>::empty());
        assert(node_lookup(s.push(e).drop_first(), k) is None);
    } else {
        assert(s.push(e)[0] == s[0]);
        assert(s.push(e).drop_first() =~= s.drop_first().push(e));
        lemma_lookup_push(s.drop_first(), e, k);
    }
}

pub(crate) proof fn lemma_lookup_absent(s: Seq<StoryNode>, k: u128)
    requires
        forall|j: int| 0 <= j < s.len() ==> s[j].id != k,
    ensures
        node_lookup(s, k) is None,
    decreases s.len(),
{
    if s.len() > 0 {
        lemma_lookup_absent(s.drop_first(), k);
    }
}

proof fn lemma_lookup_found(s: Seq<StoryNode>, i: int, k: u128)
    requires
        0 <= i < s.len(),
        s[i].id == k,
    ensures
        node_lookup(s, k) is Some,
    decreases s.len(),
{
    if s[0].id != k {
        lemma_lookup_found(s.drop_first(), i - 1, k);
    }
}

/// `after` is `before` with every node carrying `id` current and every other
/// node visited, nothing else changed.
pub open spec fn states_marked(before: Seq<StoryNode>, after: Seq<StoryNode>, id: u128) -> bool {
    &&& after.len() == before.len()
    &&& forall|i: int|
        0 <= i < after.len() ==> {
            &&& (#[trigger] after[i]).id == before[i].id
            &&& after[i].node_type == before[i].node_type
            &&& after[i].situation == before[i].situation
            &&& after[i].choices@ == before[i].choices@
            &&& after[i].state == if before[i].id == id {
                NodeState::Current
            } else {
                NodeState::Visited
            }
        }
}

impl StoryGraph {
    /// Whether some node carries identifier `id`.
    pub fn has_node(&self, id: u128) -> (r: bool)
        ensures
            r == (node_lookup(self.nodes@, id) is Some),
    {
        let n = self.nodes.len();
        for i in 0..n
            invariant
                n == self.nodes@.len(),
                forall|j: int| 0 <= j < i ==> self.nodes@[j].id != id,
        {
            if self.nodes[i].id == id {
                proof {
                    lemma_lookup_found(self.nodes@, i as int, id);
                }
                return true;
            }
        }
        proof {
            lemma_lookup_absent(self.nodes@, id);
        }
        false
    }

    /// Makes the node `node_id` the current one and every other node visited.
    pub fn update_node_state(&mut self, node_id: u128)
        ensures
            states_marked(old(self).nodes@, final(self).nodes@, node_id),
            final(self).edges == old(self).edges,
            final(self).root_node_id == old(self).root_node_id,
            final(self).current_node_id == old(self).current_node_id,
            final(self).title == old(self).title,
    {
        let n = self.nodes.len();
        let ghost before = self.nodes@;
        for i in 0..n
            invariant
                n == self.nodes@.len(),
                before.len() == n,
                self.edges == old(self).edges,
                self.root_node_id == old(self).root_node_id,
                self.current_node_id == old(self).current_node_id,
                self.title == old(self).title,
                before == old(self).nodes@,
                forall|j: int|
                    i <= j < n ==> #[trigger] self.nodes@[j] == before[j],
                forall|j: int|
                    0 <= j < i ==> {
                        &&& (#[trigger] self.nodes@[j]).id == before[j].id
                        &&& self.nodes@[j].node_type == before[j].node_type
                        &&& self.nodes@[j].situation == before[j].situation
                        &&& self.nodes@[j].choices@ == before[j].choices@
                        &&& self.nodes@[j].state == if before[j].id == node_id {
                            NodeState::Current
                        } else {
                            NodeState::Visited
                        }
                    },
        {
            let old_node = &self.nodes[i];
            let state = if old_node.id == node_id {
                NodeState::Current
            } else {
                NodeState::Visited
            };
            let updated = StoryNode {
                id: old_node.id,
                node_type: old_node.node_type,
                situation: old_node.situation.clone(),
                choices: clone_choices(&old_node.choices),
                state,
            };
            self.nodes.set(i, updated);
        }
    }

    /// Adds a node, replacing the node that carried its identifier, if any.
    pub fn insert_node(&mut self, node: StoryNode)
        ensures
            forall|k: u128|
                #[trigger] node_lookup(final(self).nodes@, k) == if k == node.id {
                    Some(node)
                } else {
                    node_lookup(old(self).nodes@, k)
                },
            final(self).edges == old(self).edges,
            final(self).root_node_id == old(self).root_node_id,
            final(self).current_node_id == old(self).current_node_id,
    {
        let n = self.nodes.len();
        let ghost before = self.nodes@;
        for i in 0..n
            invariant
                n == self.nodes@.len(),
                self.nodes@ == before,
                before == old(self).nodes@,
                self.edges == old(self).edges,
                self.root_node_id == old(self).root_node_id,
                self.current_node_id == old(self).current_node_id,
                forall|j: int| 0 <= j < i ==> before[j].id != node.id,
        {
            if self.nodes[i].id == node.id {
                proof {
                    assert forall|k: u128| #[trigger] node_lookup(before.update(i as int, node), k) == (if k
                        == node.id {
                        Some(node)
                    } else {
                        node_lookup(before, k)
                    }) by {
                        lemma_lookup_update(before, i as int, node, k);
                    }
                }
                self.nodes.set(i, node);
                return;
            }
        }
        proof {
            assert forall|k: u128| #[trigger] node_lookup(before.push(node), k) == (if k == node.id {
                Some(node)
            } else {
                node_lookup(before, k)
            }) by {
                lemma_lookup_push(before, node, k);
            }
        }
        self.nodes.push(node);
    }

    /// Follows a choice that leads to a node of the story: that node becomes
    /// the current one (and the others visited). Answers false, changing
    /// nothing, when the choice leads nowhere known, so that a new node must
    /// be expanded from it.
    pub fn follow_choice(&mut self, choice: &Choice) -> (moved: bool)
        ensures
            moved == (choice.target_node_id matches Some(t) && node_lookup(old(self).nodes@, t) is Some),
            moved ==> final(self).current_node_id == choice.target_node_id && states_marked(
                old(self).nodes@,
                final(self).nodes@,
                choice.target_node_id->0,
            ) && final(self).edges == old(self).edges,
            !moved ==> *final(self) == *old(self),
    {
        match choice.target_node_id {
            Some(t) => {
                if self.has_node(t) {
                    self.current_node_id = Some(t);
                    self.update_node_state(t);
                    true
                } else {
                    false
                }
            },
            None => false,
        }
    }

    /// Attaches a node expanded from a choice at node `from`: the node joins
    /// the story (replacing one with its identifier), an edge leads to it, and
    /// it becomes the current node, every other node visited.
    pub fn attach_expansion(&mut self, from: u128, node: StoryNode)
        ensures
            final(self).edges@ == old(self).edges@.push(StoryEdge { from_node_id: from, to_node_id: node.id }),
            final(self).current_node_id == Some(node.id),
            final(self).nodes@.len() >= 1,
            exists|mid: Seq<StoryNode>|
                (forall|k: u128|
                    #[trigger] node_lookup(mid, k) == if k == node.id {
                        Some(node)
                    } else {
                        node_lookup(old(self).nodes@, k)
                    }) && states_marked(mid, final(self).nodes@, node.id),
    {
        let id = node.id;
        self.insert_node(node);
        let ghost mid = self.nodes@;
        self.edges.push(StoryEdge { from_node_id: from, to_node_id: id });
        self.current_node_id = Some(id);
        self.update_node_state(id);
        proof {
            if mid.len() == 0 {
                lemma_lookup_absent(mid, id);
            }
        }
    }
}

/// Copies a list of choices.
fn clone_choices(v: &Vec<Choice>) -> (r: Vec<Choice>)
    ensures
        r@ == v@,
{
    let mut out: Vec<Choice> = Vec::new();
    let n = v.len();
    for i in 0..n
        invariant
            n == v@.len(),
            out@ == v@.take(i as int),
    {
        let c = &v[i];
        out.push(Choice { description: c.description.clone(), target_node_id: c.target_node_id });
        proof {
            assert(v@.take(i + 1) =~= v@.take(i as int).push(*c));
        }
    }
    proof {
        assert(v@.take(n as int) =~= v@);
    }
    out
}

/// The history line of a decision: the start of the situation it was taken
/// in (fifty characters) and the choice.
pub open spec fn decision_record(situation: Seq<char>, description: Seq<char>) -> Seq<char> {
    "From '"@ + prefix(situation, 50) + "...' → Decided: '"@ + description + "'"@
}

/// The history line of a decision.
pub fn record_decision(situation: &str, description: &str) -> (r: String)
    ensures
        r@ == decision_record(situation@, description@),
{
    let head = prefix_string(situation, 50);
    let mut r = concat3("From '", head.as_str(), "...' → Decided: '");
    append_str(&mut r, description);
    append_str(&mut r, "'");
    r
}

/// An answer at the adventure prompt.
#[derive(Debug, Clone, Copy, PartialEq, Eq, Structural)]
pub enum PlayerAction {
    ShowHistory,
    NewAdventure,
    Quit,
    MadeChoice(usize),
    InvalidNumber,
    InvalidInput,
}

/// The action an answer names, given the answer trimmed and in lower case:
/// `h`/`history`, `n`/`new`, `q`/`quit`, or a choice number from 1 to
/// `count` (given as its position from zero); another number is an invalid
/// choice, anything else invalid input.
pub open spec fn player_action_for(lowered: Seq<char>, count: int) -> PlayerAction {
    if lowered == "h"@ || lowered == "history"@ {
        PlayerAction::ShowHistory
    } else if lowered == "n"@ || lowered == "new"@ {
        PlayerAction::NewAdventure
    } else if lowered == "q"@ || lowered == "quit"@ {
        PlayerAction::Quit
    } else {
        match number_between(lowered, count) {
            Some(k) => PlayerAction::MadeChoice((k - 1) as usize),
            None => if number_between(lowered, usize::MAX as int) is Some || is_zero_number(lowered) {
                PlayerAction::InvalidNumber
            } else {
                PlayerAction::InvalidInput
            },
        }
    }
}

/// The text reads as the number zero.
pub open spec fn is_zero_number(t: Seq<char>) -> bool {
    let d = crate::planner::unsigned_digits(t);
    d.len() > 0 && crate::planner::all_digits(d) && crate::planner::digits_value(d) == 0
}

fn read_zero(t: &Vec<char>) -> (r: bool)
    ensures
        r == is_zero_number(t@),
{
    let start: usize = if t.len() > 0 && t[0] == '+' {
        1
    } else {
        0
    };
    let ghost d = crate::planner::unsigned_digits(t@);
    proof {
        assert(d =~= t@.subrange(start as int, t@.len() as int));
    }
    if start >= t.len() {
        return false;
    }
    let n = t.len();
    for i in start..n
        invariant
            n == t@.len(),
            start < n,
            d == t@.subrange(start as int, n as int),
            d == crate::planner::unsigned_digits(t@),
            forall|j: int| 0 <= j < i - start ==> #[trigger] d[j] == '0',
            crate::planner::digits_value(d.take(i - start)) == 0,
    {
        proof {
            assert(d.take(i - start + 1).drop_last() =~= d.take(i - start));
        }
        if t[i] != '0' {
            proof {
                assert(d[i - start] == t@[i as int]);
                if crate::planner::all_digits(d) {
                    assert(d.take(i - start + 1).last() == d[i - start]);
                    assert('0' <= d[i - start] <= '9');
                    assert(crate::planner::digits_value(d.take(i - start + 1)) > 0);
                    lemma_value_positive_stays(d, i - start + 1);
                }
            }
            return false;
        }
    }
    proof {
        assert(d.take(n - start) =~= d);
        assert forall|j: int| 0 <= j < d.len() implies '0' <= #[trigger] d[j] <= '9' by {
            assert(d[j] == '0');
        }
    }
    true
}

proof fn lemma_value_positive_stays(s: Seq<char>, k: int)
    requires
        0 <= k <= s.len(),
        crate::planner::all_digits(s),
        crate::planner::digits_value(s.take(k)) > 0,
    ensures
        crate::planner::digits_value(s) > 0,
    decreases s.len() - k,
{
    if k < s.len() {
        assert(s.take(k + 1).drop_last() =~= s.take(k));
        assert(crate::planner::digits_value(s.take(k + 1)) >= crate::planner::digits_value(s.take(k))
            * 10);
        lemma_value_positive_stays(s, k + 1);
    } else {
        assert(s.take(k) =~= s);
    }
}

/// The action an answer names, given the answer trimmed and in lower case.
pub fn player_action_from_lowered(lowered: &str, count: usize) -> (r: PlayerAction)
    ensures
        r == player_action_for(lowered@, count as int),
{
    if str_eq(lowered, "h") || str_eq(lowered, "history") {
        PlayerAction::ShowHistory
    } else if str_eq(lowered, "n") || str_eq(lowered, "new") {
        PlayerAction::NewAdventure
    } else if str_eq(lowered, "q") || str_eq(lowered, "quit") {
        PlayerAction::Quit
    } else {
        let t = chars_of(lowered);
        match crate::qa::read_number_up_to(&t, count) {
            Some(k) => PlayerAction::MadeChoice(k - 1),
            None => {
                let any = crate::qa::read_number_up_to(&t, usize::MAX);
                if any.is_some() || read_zero(&t) {
                    PlayerAction::InvalidNumber
                } else {
                    PlayerAction::InvalidInput
                }
            },
        }
    }
}

/// The action an answer at the adventure prompt names (surrounding
/// whitespace ignored, in any case).
pub fn player_action(input: &str, count: usize) -> (r: PlayerAction)
    ensures
        r == player_action_for(lowercase_text(trimmed(input@)), count as int),
{
    let t = string_from_chars(trim_chars(chars_of(input).as_slice()).as_slice());
    let lowered = to_lowercase(t.as_str());
    player_action_from_lowered(lowered.as_str(), count)
}


/// After a move, a node is current exactly when it carries the identifier
/// moved to; every other node is visited.
pub proof fn law_only_the_reached_node_is_current(before: Seq<StoryNode>, after: Seq<StoryNode>, id: u128)
    requires
        states_marked(before, after, id),
    ensures
        forall|i: int|
            0 <= i < after.len() ==> ((#[trigger] after[i]).state == NodeState::Current) == (after[i].id
                == id),
        forall|i: int|
            0 <= i < after.len() && after[i].id != id ==> (#[trigger] after[i]).state
                == NodeState::Visited,
{
}

/// What the game does next with a story: it is over when no node is
/// current; the current node may be missing; a current node without choices
/// is a milestone; otherwise the player chooses at the current node (the
/// positions are those of the node in the story's list).
#[derive(Debug, Clone, Copy, PartialEq, Eq, Structural)]
pub enum Turn {
    Finished,
    NodeMissing,
    Milestone(usize),
    Choose(usize),
}

/// The next turn of the game on `g`.
pub fn turn_of(g: &StoryGraph) -> (t: Turn)
    ensures
        match g.current_node_id {
            None => t == Turn::Finished,
            Some(id) => match node_lookup(g.nodes@, id) {
                None => t == Turn::NodeMissing,
                Some(n) => match t {
                    Turn::Milestone(i) => i < g.nodes@.len() && g.nodes@[i as int] == n && n.choices@.len() == 0,
                    Turn::Choose(i) => i < g.nodes@.len() && g.nodes@[i as int] == n && n.choices@.len() > 0,
                    _ => false,
                },
            },
        },
{
    match g.current_node_id {
        None => Turn::Finished,
        Some(id) => match crate::tree_view::find_node(g, id) {
            None => Turn::NodeMissing,
            Some(i) => if g.nodes[i].choices.len() == 0 {
                Turn::Milestone(i)
            } else {
                Turn::Choose(i)
            },
        },
    }
}

/// At a milestone, whether the answer asks for a new journey ("1",
/// surrounding whitespace ignored); any other answer quits.
pub fn milestone_starts_over(input: &str) -> (r: bool)
    ensures
        r == (trimmed(input@) == "1"@),
{
    crate::planner::trimmed_is(input, "1")
}

} // verus!
