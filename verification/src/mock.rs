//! The offline story engine: a small library of predefined adventures, picked
//! by keywords in the prompt and unfolded into story graphs.
use vstd::prelude::*;
use rand::Rng;
use crate::engines::{asks, build_clarification_text, clarification_text, flag_option, flag_option_of, multiple_choice, CoherenceReport, Question, UncertaintyContext};
use crate::ids::fresh_id;
use crate::qa::texts_of;
use crate::story::{Choice, StoryEdge, StoryGraph, StoryNode};
use crate::text::{concat2, contains, contains_text, lowercase_text, owned, str_eq, to_lowercase};
use crate::types::{NodeState, NodeType, ProjectConstraints};

verus! {

/// One situation of a predefined story and the options it offers.
#[derive(Debug, Clone)]
pub struct NodeTemplate {
    pub situation: String,
    pub node_type: NodeType,
    pub choices: Vec<String>,
}

/// The nodes of a predefined story and the links between them: each link is
/// (index of the source node, index of the target node, text of the choice
/// that leads there).
#[derive(Debug, Clone)]
pub struct StoryTemplate {
    pub nodes: Vec<NodeTemplate>,
    pub connections: Vec<(usize, usize, String)>,
}

/// A story the engine can tell without outside help.
#[derive(Debug, Clone)]
pub struct PredefinedStory {
    pub title: String,
    pub description: String,
    pub starting_situation: String,
    pub story_template: StoryTemplate,
}

/// The offline engine: its stories, each under a keyword.
pub struct MockStoryEngine {
    pub predefined_stories: Vec<(String, PredefinedStory)>,
}

/// The story filed under `key`; a later entry under the same key hides an
/// earlier one.
pub open spec fn story_for(entries: Seq<(String, PredefinedStory)>, key: Seq<char>) -> Option<
    PredefinedStory,
>
    decreases entries.len(),
{
    if entries.len() == 0 {
        None
    } else if entries.last().0@ == key {
        Some(entries.last().1)
    } else {
        story_for(entries.drop_last(), key)
    }
}

/// The node kinds of a template, in node order.
pub open spec fn node_types(t: StoryTemplate) -> Seq<NodeType> {
    t.nodes@.map_values(|n: NodeTemplate| n.node_type)
}

/// How many choices each node of a template offers, in node order.
pub open spec fn choice_counts(t: StoryTemplate) -> Seq<int> {
    t.nodes@.map_values(|n: NodeTemplate| n.choices@.len() as int)
}

/// The (source, target) node indices of a template's links, in link order.
pub open spec fn link_ends(t: StoryTemplate) -> Seq<(int, int)> {
    t.connections@.map_values(|c: (usize, usize, String)| (c.0 as int, c.1 as int))
}

/// Link `j` of the template carries the text of choice `k` of its source node.
pub open spec fn link_follows(t: StoryTemplate, j: int, k: int) -> bool {
    &&& 0 <= j < t.connections@.len()
    &&& t.connections@[j].0 < t.nodes@.len()
    &&& 0 <= k < t.nodes@[t.connections@[j].0 as int].choices@.len()
    &&& t.connections@[j].2@ == t.nodes@[t.connections@[j].0 as int].choices@[k]@
}

/// A node template as plain values: its kind, situation and choice texts.
pub open spec fn node_content(n: NodeTemplate) -> (NodeType, Seq<char>, Seq<Seq<char>>) {
    (n.node_type, n.situation@, n.choices@.map_values(|c: String| c@))
}

/// The nodes of a template as plain values, in node order.
pub open spec fn template_nodes(t: StoryTemplate) -> Seq<(NodeType, Seq<char>, Seq<Seq<char>>)> {
    t.nodes@.map_values(|n: NodeTemplate| node_content(n))
}

/// The links of a template as plain values, in link order.
pub open spec fn template_links(t: StoryTemplate) -> Seq<(int, int, Seq<char>)> {
    t.connections@.map_values(|c: (usize, usize, String)| (c.0 as int, c.1 as int, c.2@))
}

/// The nodes of the cave story: kind, situation and choices.
pub open spec fn cave_nodes() -> Seq<(NodeType, Seq<char>, Seq<Seq<char>>)> {
    seq![
        (NodeType::Start, "You stand before the entrance of a dark, mysterious cave. Strange sounds echo from within, and you can see flickering light deep inside."@, seq!["Enter the cave boldly"@, "Look for a torch first"@, "Call out to see if anyone responds"@]),
        (NodeType::Decision, "You stride confidently into the cave. The darkness swallows you, but your eyes gradually adjust. You see two tunnels ahead."@, seq!["Take the left tunnel (you hear water dripping)"@, "Take the right tunnel (you feel a warm breeze)"@, "Go back to the entrance"@]),
        (NodeType::Action, "You find some dry branches and create a makeshift torch. The cave is now illuminated, revealing ancient drawings on the walls."@, seq!["Examine the drawings closely"@, "Continue deeper into the cave"@, "Try to understand what the drawings mean"@]),
        (NodeType::Decision, "Your voice echoes through the cave. After a moment, you hear a faint response: 'Help... trapped...'"@, seq!["Rush in to help immediately"@, "Ask who they are first"@, "Go get help from the village"@]),
        (NodeType::Outcome, "The left tunnel leads to an underground lake. The water is crystal clear, and you can see something glittering at the bottom."@, seq!["Dive down to retrieve the glittering object"@, "Look for another way around the lake"@, "Return to explore the other tunnel"@]),
        (NodeType::Outcome, "The right tunnel grows warmer as you walk. You discover it leads to a chamber with a dragon sleeping on a pile of treasure!"@, seq!["Try to sneak past and grab some treasure"@, "Slowly back away"@, "Try to wake the dragon and talk to it"@]),
        (NodeType::End, "The ancient drawings tell the story of a lost civilization that once lived in these caves. You realize this could be a major archaeological discovery!"@, seq!["Return to the surface to report your discovery"@]),
    ]
}

/// The links of the cave story: source, target and the choice that leads there.
pub open spec fn cave_links() -> Seq<(int, int, Seq<char>)> {
    seq![
        (0int, 1int, "Enter the cave boldly"@),
        (0int, 2int, "Look for a torch first"@),
        (0int, 3int, "Call out to see if anyone responds"@),
        (1int, 4int, "Take the left tunnel (you hear water dripping)"@),
        (1int, 5int, "Take the right tunnel (you feel a warm breeze)"@),
        (2int, 6int, "Examine the drawings closely"@),
    ]
}

/// The nodes of the space story: kind, situation and choices.
pub open spec fn space_nodes() -> Seq<(NodeType, Seq<char>, Seq<Seq<char>>)> {
    seq![
        (NodeType::Start, "Alarms are blaring throughout Space Station Alpha. The lights flicker ominously as you float through the corridor in zero gravity."@, seq!["Head to the control room"@, "Check the life support systems"@, "Look for other crew members"@]),
        (NodeType::Decision, "The control room is in chaos. Multiple screens show system failures, and you can see Earth through the viewport, looking surprisingly close."@, seq!["Try to stabilize the failing systems"@, "Send a distress signal to Earth"@, "Check the navigation computer"@]),
        (NodeType::Action, "The life support bay is filling with smoke. You can see that one of the oxygen recyclers has malfunctioned and is sparking dangerously."@, seq!["Try to repair the recycler"@, "Shut down the malfunctioning unit"@, "Evacuate the area and seal it off"@]),
    ]
}

/// The links of the space story: source, target and the choice that leads there.
pub open spec fn space_links() -> Seq<(int, int, Seq<char>)> {
    seq![
        (0int, 1int, "Head to the control room"@),
        (0int, 2int, "Check the life support systems"@),
    ]
}

/// "The Mysterious Cave": its title, description and starting situation,
/// every node and every link as `cave_nodes` and `cave_links` give them.
pub open spec fn is_cave_story(s: PredefinedStory) -> bool {
    let t = s.story_template;
    &&& s.title@ == "The Mysterious Cave"@
    &&& s.description@ == "A classic adventure where you explore a mysterious cave"@
    &&& t.nodes@.len() == 7
    &&& s.starting_situation@ == t.nodes@[0].situation@
    &&& node_types(t) == seq![
        NodeType::Start,
        NodeType::Decision,
        NodeType::Action,
        NodeType::Decision,
        NodeType::Outcome,
        NodeType::Outcome,
        NodeType::End,
    ]
    &&& choice_counts(t) == seq![3int, 3, 3, 3, 3, 3, 1]
    &&& link_ends(t) == seq![(0int, 1int), (0, 2), (0, 3), (1, 4), (1, 5), (2, 6)]
    &&& link_follows(t, 0, 0) && link_follows(t, 1, 1) && link_follows(t, 2, 2)
    &&& link_follows(t, 3, 0) && link_follows(t, 4, 1) && link_follows(t, 5, 0)
    &&& template_nodes(t) == cave_nodes()
    &&& template_links(t) == cave_links()
}

/// "Emergency on Station Alpha": its title, description and starting
/// situation, every node and every link as `space_nodes` and `space_links`
/// give them.
pub open spec fn is_space_story(s: PredefinedStory) -> bool {
    let t = s.story_template;
    &&& s.title@ == "Emergency on Station Alpha"@
    &&& s.description@ == "A sci-fi adventure aboard a space station in crisis"@
    &&& t.nodes@.len() == 3
    &&& s.starting_situation@ == t.nodes@[0].situation@
    &&& node_types(t) == seq![NodeType::Start, NodeType::Decision, NodeType::Action]
    &&& choice_counts(t) == seq![3int, 3, 3]
    &&& link_ends(t) == seq![(0int, 1int), (0, 2)]
    &&& link_follows(t, 0, 0) && link_follows(t, 1, 1)
    &&& template_nodes(t) == space_nodes()
    &&& template_links(t) == space_links()
}

/// Replacing the last entry under a key changes what that key finds and
/// nothing else.
proof fn lemma_story_for_update(
    s: Seq<(String, PredefinedStory)>,
    i: int,
    e: (String, PredefinedStory),
    k: Seq<char>,
)
    requires
        0 <= i < s.len(),
        s[i].0@ == e.0@,
        forall|j: int| i < j < s.len() ==> s[j].0@ != e.0@,
    ensures
        story_for(s.update(i, e), k) == if k == e.0@ {
            Some(e.1)
        } else {
            story_for(s, k)
        },
    decreases s.len(),
{
    let u = s.update(i, e);
    if i == s.len() - 1 {
        assert(u.drop_last() =~= s.drop_last());
    } else {
        assert(u.drop_last() =~= s.drop_last().update(i, e));
        lemma_story_for_update(s.drop_last(), i, e, k);
    }
}

fn node_template(situation: &str, node_type: NodeType, choices: Vec<String>) -> (t: NodeTemplate)
    ensures
        t.situation@ == situation@,
        t.node_type == node_type,
        t.choices@ == choices@,
{
    NodeTemplate { situation: owned(situation), node_type, choices }
}

fn link(from: usize, to: usize, choice: &str) -> (c: (usize, usize, String))
    ensures
        c.0 == from,
        c.1 == to,
        c.2@ == choice@,
{
    (from, to, owned(choice))
}

fn cave_story() -> (s: PredefinedStory)
    ensures
        is_cave_story(s),
{
    let start = "You stand before the entrance of a dark, mysterious cave. Strange sounds echo from within, and you can see flickering light deep inside.";
    let n0 = node_template(
        start,
        NodeType::Start,
        vec![
            owned("Enter the cave boldly"),
            owned("Look for a torch first"),
            owned("Call out to see if anyone responds"),
        ],
    );
    let n1 = node_template(
        "You stride confidently into the cave. The darkness swallows you, but your eyes gradually adjust. You see two tunnels ahead.",
        NodeType::Decision,
        vec![
            owned("Take the left tunnel (you hear water dripping)"),
            owned("Take the right tunnel (you feel a warm breeze)"),
            owned("Go back to the entrance"),
        ],
    );
    let n2 = node_template(
        "You find some dry branches and create a makeshift torch. The cave is now illuminated, revealing ancient drawings on the walls.",
        NodeType::Action,
        vec![
            owned("Examine the drawings closely"),
            owned("Continue deeper into the cave"),
            owned("Try to understand what the drawings mean"),
        ],
    );
    let n3 = node_template(
        "Your voice echoes through the cave. After a moment, you hear a faint response: 'Help... trapped...'",
        NodeType::Decision,
        vec![
            owned("Rush in to help immediately"),
            owned("Ask who they are first"),
            owned("Go get help from the village"),
        ],
    );
    let n4 = node_template(
        "The left tunnel leads to an underground lake. The water is crystal clear, and you can see something glittering at the bottom.",
        NodeType::Outcome,
        vec![
            owned("Dive down to retrieve the glittering object"),
            owned("Look for another way around the lake"),
            owned("Return to explore the other tunnel"),
        ],
    );
    let n5 = node_template(
        "The right tunnel grows warmer as you walk. You discover it leads to a chamber with a dragon sleeping on a pile of treasure!",
        NodeType::Outcome,
        vec![
            owned("Try to sneak past and grab some treasure"),
            owned("Slowly back away"),
            owned("Try to wake the dragon and talk to it"),
        ],
    );
    let n6 = node_template(
        "The ancient drawings tell the story of a lost civilization that once lived in these caves. You realize this could be a major archaeological discovery!",
        NodeType::End,
        vec![owned("Return to the surface to report your discovery")],
    );
    let nodes = vec![n0, n1, n2, n3, n4, n5, n6];
    let connections = vec![
        link(0, 1, "Enter the cave boldly"),
        link(0, 2, "Look for a torch first"),
        link(0, 3, "Call out to see if anyone responds"),
        link(1, 4, "Take the left tunnel (you hear water dripping)"),
        link(1, 5, "Take the right tunnel (you feel a warm breeze)"),
        link(2, 6, "Examine the drawings closely"),
    ];
    let s = PredefinedStory {
        title: owned("The Mysterious Cave"),
        description: owned("A classic adventure where you explore a mysterious cave"),
        starting_situation: owned(start),
        story_template: StoryTemplate { nodes, connections },
    };
    proof {
        let t = s.story_template;
        assert(node_types(t) =~= seq![
            NodeType::Start,
            NodeType::Decision,
            NodeType::Action,
            NodeType::Decision,
            NodeType::Outcome,
            NodeType::Outcome,
            NodeType::End,
        ]);
        assert(choice_counts(t) =~= seq![3int, 3, 3, 3, 3, 3, 1]);
        assert(link_ends(t) =~= seq![(0int, 1int), (0, 2), (0, 3), (1, 4), (1, 5), (2, 6)]);
        assert forall|i: int| 0 <= i < 7 implies #[trigger] template_nodes(t)[i] == cave_nodes()[i] by {
            assert(t.nodes@[i].choices@.map_values(|c: String| c@) =~= cave_nodes()[i].2);
        }
        assert(template_nodes(t) =~= cave_nodes());
        assert(template_links(t) =~= cave_links());
    }
    s
}

fn space_story() -> (s: PredefinedStory)
    ensures
        is_space_story(s),
{
    let start = "Alarms are blaring throughout Space Station Alpha. The lights flicker ominously as you float through the corridor in zero gravity.";
    let n0 = node_template(
        start,
        NodeType::Start,
        vec![
            owned("Head to the control room"),
            owned("Check the life support systems"),
            owned("Look for other crew members"),
        ],
    );
    let n1 = node_template(
        "The control room is in chaos. Multiple screens show system failures, and you can see Earth through the viewport, looking surprisingly close.",
        NodeType::Decision,
        vec![
            owned("Try to stabilize the failing systems"),
            owned("Send a distress signal to Earth"),
            owned("Check the navigation computer"),
        ],
    );
    let n2 = node_template(
        "The life support bay is filling with smoke. You can see that one of the oxygen recyclers has malfunctioned and is sparking dangerously.",
        NodeType::Action,
        vec![
            owned("Try to repair the recycler"),
            owned("Shut down the malfunctioning unit"),
            owned("Evacuate the area and seal it off"),
        ],
    );
    let nodes = vec![n0, n1, n2];
    let connections = vec![
        link(0, 1, "Head to the control room"),
        link(0, 2, "Check the life support systems"),
    ];
    let s = PredefinedStory {
        title: owned("Emergency on Station Alpha"),
        description: owned("A sci-fi adventure aboard a space station in crisis"),
        starting_situation: owned(start),
        story_template: StoryTemplate { nodes, connections },
    };
    proof {
        let t = s.story_template;
        assert(node_types(t) =~= seq![NodeType::Start, NodeType::Decision, NodeType::Action]);
        assert(choice_counts(t) =~= seq![3int, 3, 3]);
        assert(link_ends(t) =~= seq![(0int, 1int), (0, 2)]);
        assert forall|i: int| 0 <= i < 3 implies #[trigger] template_nodes(t)[i] == space_nodes()[i] by {
            assert(t.nodes@[i].choices@.map_values(|c: String| c@) =~= space_nodes()[i].2);
        }
        assert(template_nodes(t) =~= space_nodes());
        assert(template_links(t) =~= space_links());
    }
    s
}

impl MockStoryEngine {
    /// The engine with its two stories: "cave" and "space".
    pub fn new() -> (e: MockStoryEngine)
        ensures
            story_for(e.predefined_stories@, "cave"@) matches Some(s) && is_cave_story(s),
            story_for(e.predefined_stories@, "space"@) matches Some(s) && is_space_story(s),
            forall|k: Seq<char>|
                k != "cave"@ && k != "space"@ ==> story_for(e.predefined_stories@, k) is None,
    {
        let mut engine = MockStoryEngine { predefined_stories: Vec::new() };
        engine.load_default_stories();
        engine
    }

    /// Files `story` under `key`, replacing what was filed there.
    fn insert_story(&mut self, key: String, story: PredefinedStory)
        ensures
            forall|k: Seq<char>|
                story_for(final(self).predefined_stories@, k) == if k == key@ {
                    Some(story)
                } else {
                    story_for(old(self).predefined_stories@, k)
                },
    {
        let n = self.predefined_stories.len();
        let mut found: Option<usize> = None;
        for i in 0..n
            invariant
                n == self.predefined_stories@.len(),
                found matches Some(f) ==> f < i && self.predefined_stories@[f as int].0@ == key@,
                forall|j: int|
                    (match found {
                        Some(f) => f < j,
                        None => 0 <= j,
                    }) && j < i ==> self.predefined_stories@[j].0@ != key@,
        {
            if self.predefined_stories[i].0 == key {
                found = Some(i);
            }
        }
        let ghost before = self.predefined_stories@;
        match found {
            Some(f) => {
                let entry = (key, story);
                proof {
                    assert forall|k: Seq<char>| #[trigger]
                        story_for(before.update(f as int, entry), k) == (if k == entry.0@ {
                            Some(entry.1)
                        } else {
                            story_for(before, k)
                        }) by {
                        lemma_story_for_update(before, f as int, entry, k);
                    }
                }
                self.predefined_stories.set(f, entry);
            },
            None => {
                let ghost kv = key@;
                self.predefined_stories.push((key, story));
                proof {
                    assert(self.predefined_stories@.drop_last() =~= before);
                }
            },
        }
    }

    /// Files the two built-in stories, "The Mysterious Cave" under "cave" and
    /// "Emergency on Station Alpha" under "space".
    pub fn load_default_stories(&mut self)
        ensures
            story_for(final(self).predefined_stories@, "cave"@) matches Some(s) && is_cave_story(s),
            story_for(final(self).predefined_stories@, "space"@) matches Some(s) && is_space_story(s),
            forall|k: Seq<char>|
                k != "cave"@ && k != "space"@ ==> story_for(final(self).predefined_stories@, k)
                    == story_for(old(self).predefined_stories@, k),
    {
        let cave = cave_story();
        let space = space_story();
        let cave_key = owned("cave");
        let space_key = owned("space");
        proof {
            if "cave"@ == "space"@ {
                reveal_strlit("cave");
                reveal_strlit("space");
                assert("cave"@[1] == "space"@[1]);
            }
        }
        self.insert_story(cave_key, cave);
        self.insert_story(space_key, space);
    }
}


/// The keyword of the story told for a prompt, given the prompt in lower case:
/// "cave" for caves and adventures, "space" for space and stations, "cave"
/// otherwise.
pub open spec fn story_key_for(lowered: Seq<char>) -> Seq<char> {
    if contains_text(lowered, "cave"@) || contains_text(lowered, "adventure"@) {
        "cave"@
    } else if contains_text(lowered, "space"@) || contains_text(lowered, "station"@) {
        "space"@
    } else {
        "cave"@
    }
}

/// The texts of a node template's choices.
pub open spec fn choice_texts(n: NodeTemplate) -> Seq<Seq<char>> {
    n.choices@.map_values(|c: String| c@)
}

/// `k` is the first position of `d` among `texts`.
pub open spec fn is_first_match(texts: Seq<Seq<char>>, d: Seq<char>, k: int) -> bool {
    &&& 0 <= k < texts.len()
    &&& texts[k] == d
    &&& forall|j: int| 0 <= j < k ==> texts[j] != d
}

/// Link `j` of the template names two existing nodes.
pub open spec fn link_valid(t: StoryTemplate, j: int) -> bool {
    t.connections@[j].0 < t.nodes@.len() && t.connections@[j].1 < t.nodes@.len()
}

/// Where choice `k` of node `i` leads after the first `upto` links are laid:
/// the target of the last valid link from node `i` whose text first occurs
/// among that node's choices at position `k`.
pub open spec fn choice_target(t: StoryTemplate, ids: Seq<u128>, i: int, k: int, upto: int) -> Option<
    u128,
>
    decreases upto,
{
    if upto <= 0 {
        None
    } else {
        let c = t.connections@[upto - 1];
        if link_valid(t, upto - 1) && c.0 == i && is_first_match(
            choice_texts(t.nodes@[i]),
            c.2@,
            k,
        ) {
            Some(ids[c.1 as int])
        } else {
            choice_target(t, ids, i, k, upto - 1)
        }
    }
}

/// The edges laid by the first `upto` links of a template, valid links only.
pub open spec fn template_edges(t: StoryTemplate, ids: Seq<u128>, upto: int) -> Seq<StoryEdge>
    decreases upto,
{
    if upto <= 0 {
        Seq::empty()
    } else {
        let c = t.connections@[upto - 1];
        template_edges(t, ids, upto - 1) + if link_valid(t, upto - 1) {
            seq![StoryEdge { from_node_id: ids[c.0 as int], to_node_id: ids[c.1 as int] }]
        } else {
            Seq::empty()
        }
    }
}

/// Node `n` is template node `i` given identifier `ids[i]`, current when it
/// is the first node, with its choices linked as the template's links say.
pub open spec fn node_from_template(n: StoryNode, t: StoryTemplate, ids: Seq<u128>, i: int) -> bool {
    let nt = t.nodes@[i];
    &&& n.id == ids[i]
    &&& n.node_type == nt.node_type
    &&& n.situation@ == nt.situation@
    &&& n.state == if i == 0 {
        NodeState::Current
    } else {
        NodeState::Unvisited
    }
    &&& n.choices@.len() == nt.choices@.len()
    &&& forall|k: int|
        0 <= k < n.choices@.len() ==> {
            &&& (#[trigger] n.choices@[k]).description@ == nt.choices@[k]@
            &&& n.choices@[k].target_node_id == choice_target(t, ids, i, k, t.connections@.len() as int)
        }
}

/// `g` is the story `s` unfolded with node identifiers `ids`.
pub open spec fn graph_from_template(g: StoryGraph, s: PredefinedStory, ids: Seq<u128>) -> bool {
    let t = s.story_template;
    &&& ids.len() == t.nodes@.len()
    &&& g.title@ == s.title@
    &&& g.description matches Some(d) && d@ == s.description@
    &&& g.nodes@.len() == ids.len()
    &&& forall|i: int| 0 <= i < ids.len() ==> #[trigger] node_from_template(g.nodes@[i], t, ids, i)
    &&& g.root_node_id == if ids.len() > 0 {
        Some(ids[0])
    } else {
        None
    }
    &&& g.current_node_id == g.root_node_id
    &&& g.edges@ == template_edges(t, ids, t.connections@.len() as int)
}

/// The identifiers of a graph's nodes, in node order.
pub open spec fn node_ids(g: StoryGraph) -> Seq<u128> {
    g.nodes@.map_values(|n: StoryNode| n.id)
}

/// The message for a prompt whose story is not filed.
pub open spec fn no_template_message(prompt: Seq<char>) -> Seq<char> {
    "No story template found for prompt: "@ + prompt
}

/// The four ways an expanded choice may continue.
pub open spec fn situation_ending(k: int) -> Seq<char> {
    if k == 0 {
        "You find yourself in a new situation that requires careful consideration."@
    } else if k == 1 {
        "The path ahead is unclear, but you must make a decision."@
    } else if k == 2 {
        "Something unexpected happens, changing everything."@
    } else {
        "You discover something that wasn't there before."@
    }
}

/// The situation reached by taking a choice, with the given ending.
pub open spec fn expansion_situation(description: Seq<char>, k: int) -> Seq<char> {
    "After choosing to '"@ + description + "', "@ + situation_ending(k)
}

/// A random index below `n` (`rand::Rng::gen_range` on `0..n` with the thread
/// generator, which panics on an empty range). Only the bound is stated.
#[verifier::external_body]
fn random_below(n: usize) -> (r: usize)
    requires
        n > 0,
    ensures
        r < n,
{
    rand::thread_rng().gen_range(0..n)
}

/// Position of the first choice whose text is `d`, or the number of choices.
fn first_match(choices: &Vec<String>, d: &String) -> (r: usize)
    ensures
        r <= choices@.len(),
        r < choices@.len() ==> is_first_match(choices@.map_values(|c: String| c@), d@, r as int),
        r == choices@.len() ==> forall|j: int| 0 <= j < choices@.len() ==> choices@[j]@ != d@,
{
    let n = choices.len();
    for i in 0..n
        invariant
            n == choices@.len(),
            forall|j: int| 0 <= j < i ==> choices@[j]@ != d@,
    {
        if str_eq(choices[i].as_str(), d.as_str()) {
            return i;
        }
    }
    n
}

/// Whether no identifier occurs twice.
fn all_distinct(v: &Vec<u128>) -> (r: bool)
    ensures
        r == v@.no_duplicates(),
{
    let n = v.len();
    for i in 0..n
        invariant
            n == v@.len(),
            forall|a: int, b: int| 0 <= a < b < i ==> v@[a] != v@[b],
    {
        for j in 0..i
            invariant
                n == v@.len(),
                i < n,
                forall|a: int, b: int| 0 <= a < b < i ==> v@[a] != v@[b],
                forall|a: int| 0 <= a < j ==> v@[a] != v@[i as int],
        {
            if v[j] == v[i] {
                return false;
            }
        }
    }
    true
}

impl MockStoryEngine {
    /// The keyword of the story for a prompt already in lower case.
    pub fn story_key_from_lowered(lowered: &str) -> (k: &'static str)
        ensures
            k@ == story_key_for(lowered@),
    {
        if contains(lowered, "cave") || contains(lowered, "adventure") {
            "cave"
        } else if contains(lowered, "space") || contains(lowered, "station") {
            "space"
        } else {
            "cave"
        }
    }

    /// The keyword of the story for a prompt, matched without regard to case.
    pub fn story_key(prompt: &str) -> (k: &'static str)
        ensures
            k@ == story_key_for(lowercase_text(prompt@)),
    {
        let lowered = to_lowercase(prompt);
        Self::story_key_from_lowered(lowered.as_str())
    }

    /// The story filed under `key`.
    pub fn find_story(&self, key: &str) -> (r: Option<&PredefinedStory>)
        ensures
            match r {
                Some(s) => story_for(self.predefined_stories@, key@) == Some(*s),
                None => story_for(self.predefined_stories@, key@) is None,
            },
    {
        let n = self.predefined_stories.len();
        let mut i = n;
        proof {
            assert(self.predefined_stories@.take(n as int) =~= self.predefined_stories@);
        }
        while i > 0
            invariant
                n == self.predefined_stories@.len(),
                i <= n,
                story_for(self.predefined_stories@, key@) == story_for(
                    self.predefined_stories@.take(i as int),
                    key@,
                ),
            decreases i,
        {
            proof {
                assert(self.predefined_stories@.take(i as int).drop_last()
                    =~= self.predefined_stories@.take(i - 1));
            }
            if str_eq(self.predefined_stories[i - 1].0.as_str(), key) {
                return Some(&self.predefined_stories[i - 1].1);
            }
            i = i - 1;
        }
        None
    }

    /// Where choice `k` of node `i` leads once all the template's links are laid.
    fn target_for(t: &StoryTemplate, ids: &Vec<u128>, i: usize, k: usize) -> (r: Option<u128>)
        requires
            i < t.nodes@.len(),
            k < t.nodes@[i as int].choices@.len(),
            ids@.len() == t.nodes@.len(),
        ensures
            r == choice_target(*t, ids@, i as int, k as int, t.connections@.len() as int),
    {
        let n = t.nodes.len();
        let c = t.connections.len();
        let mut r: Option<u128> = None;
        for j in 0..c
            invariant
                n == t.nodes@.len(),
                c == t.connections@.len(),
                i < n,
                k < t.nodes@[i as int].choices@.len(),
                ids@.len() == n,
                r == choice_target(*t, ids@, i as int, k as int, j as int),
        {
            let conn = &t.connections[j];
            if conn.0 < n && conn.1 < n && conn.0 == i {
                let m = first_match(&t.nodes[i].choices, &conn.2);
                proof {
                    assert(choice_texts(t.nodes@[i as int]) == t.nodes@[i as int].choices@.map_values(
                        |c: String| c@,
                    ));
                    if is_first_match(choice_texts(t.nodes@[i as int]), conn.2@, k as int) && m != k {
                        if m < k {
                            assert(choice_texts(t.nodes@[i as int])[m as int] == conn.2@);
                        }
                    }
                }
                if m == k {
                    r = Some(ids[conn.1]);
                }
            }
        }
        r
    }

    /// Unfolds a predefined story into a graph whose nodes carry the given
    /// identifiers, one per template node: the first node becomes the root
    /// and the current node, each valid link becomes an edge and points the
    /// first choice with its text at the link's target.
    pub fn create_story_from_template(&self, template: &PredefinedStory, ids: &Vec<u128>) -> (g:
        StoryGraph)
        requires
            ids@.len() == template.story_template.nodes@.len(),
            ids@.no_duplicates(),
        ensures
            graph_from_template(g, *template, ids@),
    {
        let t = &template.story_template;
        let n = t.nodes.len();
        let mut nodes: Vec<StoryNode> = Vec::new();
        for i in 0..n
            invariant
                n == t.nodes@.len(),
                ids@.len() == n,
                *t == template.story_template,
                nodes@.len() == i,
                forall|i2: int| 0 <= i2 < i ==> #[trigger] node_from_template(nodes@[i2], *t, ids@, i2),
        {
            let nt = &t.nodes[i];
            let m = nt.choices.len();
            let mut choices: Vec<Choice> = Vec::new();
            for k in 0..m
                invariant
                    n == t.nodes@.len(),
                    ids@.len() == n,
                    i < n,
                    *nt == t.nodes@[i as int],
                    m == nt.choices@.len(),
                    choices@.len() == k,
                    forall|k2: int|
                        0 <= k2 < k ==> {
                            &&& (#[trigger] choices@[k2]).description@ == nt.choices@[k2]@
                            &&& choices@[k2].target_node_id == choice_target(
                                *t,
                                ids@,
                                i as int,
                                k2,
                                t.connections@.len() as int,
                            )
                        },
            {
                let target = Self::target_for(t, ids, i, k);
                choices.push(Choice { description: nt.choices[k].clone(), target_node_id: target });
            }
            let state = if i == 0 {
                NodeState::Current
            } else {
                NodeState::Unvisited
            };
            let node = StoryNode {
                id: ids[i],
                node_type: nt.node_type,
                situation: nt.situation.clone(),
                choices,
                state,
            };
            proof {
                assert(node_from_template(node, *t, ids@, i as int));
            }
            nodes.push(node);
            proof {
                assert forall|i2: int| 0 <= i2 < i + 1 implies #[trigger] node_from_template(
                    nodes@[i2],
                    *t,
                    ids@,
                    i2,
                ) by {
                    if i2 < i {
                        assert(nodes@[i2] == nodes@.drop_last()[i2]);
                    }
                }
            }
        }
        let c = t.connections.len();
        let mut edges: Vec<StoryEdge> = Vec::new();
        for j in 0..c
            invariant
                n == t.nodes@.len(),
                c == t.connections@.len(),
                ids@.len() == n,
                edges@ == template_edges(*t, ids@, j as int),
        {
            let conn = &t.connections[j];
            if conn.0 < n && conn.1 < n {
                edges.push(StoryEdge { from_node_id: ids[conn.0], to_node_id: ids[conn.1] });
            }
        }
        let root = if n > 0 {
            Some(ids[0])
        } else {
            None
        };
        StoryGraph {
            title: template.title.clone(),
            description: Some(template.description.clone()),
            nodes,
            edges,
            root_node_id: root,
            current_node_id: root,
        }
    }

    /// The story `template` unfolded with the node identifiers `ids`, one per
    /// template node; fails when two of the identifiers are equal.
    pub fn story_from_ids(&self, template: &PredefinedStory, ids: &Vec<u128>) -> (r: Result<StoryGraph, String>)
        requires
            ids@.len() == template.story_template.nodes@.len(),
        ensures
            ids@.no_duplicates() ==> (r matches Ok(g) && graph_from_template(g, *template, ids@)),
            !ids@.no_duplicates() ==> (r matches Err(e) && e@ == "Generated node identifiers collided"@),
    {
        if !all_distinct(ids) {
            return Err(owned("Generated node identifiers collided"));
        }
        Ok(self.create_story_from_template(template, ids))
    }

    /// The story for a prompt, unfolded with fresh random node identifiers.
    /// Fails when no story is filed under the prompt's keyword; otherwise the
    /// outcome is `story_from_ids` on the identifiers drawn, which fails only
    /// when they happen to repeat; a story of at most one node, where no two
    /// identifiers are drawn, always unfolds.
    pub fn generate_initial_story(&self, prompt: &str, _constraints: ProjectConstraints) -> (r: Result<
        StoryGraph,
        String,
    >)
        ensures
            match story_for(self.predefined_stories@, story_key_for(lowercase_text(prompt@))) {
                None => r matches Err(e) && e@ == no_template_message(prompt@),
                Some(s) => {
                    &&& match r {
                        Ok(g) => graph_from_template(g, s, node_ids(g)) && node_ids(g).no_duplicates(),
                        Err(e) => e@ == "Generated node identifiers collided"@,
                    }
                    &&& s.story_template.nodes@.len() <= 1 ==> r is Ok
                },
            },
    {
        let key = Self::story_key(prompt);
        match self.find_story(key) {
            None => Err(concat2("No story template found for prompt: ", prompt)),
            Some(template) => {
                let n = template.story_template.nodes.len();
                let mut ids: Vec<u128> = Vec::new();
                for i in 0..n
                    invariant
                        ids@.len() == i,
                {
                    ids.push(fresh_id());
                }
                proof {
                    if ids@.len() <= 1 {
                        assert(ids@.no_duplicates());
                    }
                }
                let r = self.story_from_ids(template, &ids);
                proof {
                    if r is Ok {
                        let g = r->Ok_0;
                        assert(node_ids(g) =~= ids@) by {
                            assert forall|i: int| 0 <= i < ids@.len() implies node_ids(g)[i] == ids@[i] by {
                                assert(node_from_template(g.nodes@[i], template.story_template, ids@, i));
                            }
                        }
                    }
                }
                r
            },
        }
    }

    /// The choices offered at a node, as they stand.
    pub fn generate_choices(&self, current_node: &StoryNode) -> (r: Vec<Choice>)
        ensures
            r@ == current_node.choices@,
    {
        let mut out: Vec<Choice> = Vec::new();
        let n = current_node.choices.len();
        for i in 0..n
            invariant
                n == current_node.choices@.len(),
                out@ == current_node.choices@.take(i as int),
        {
            let c = &current_node.choices[i];
            out.push(Choice { description: c.description.clone(), target_node_id: c.target_node_id });
            proof {
                assert(current_node.choices@.take(i + 1) =~= current_node.choices@.take(i as int).push(
                    *c,
                ));
            }
        }
        proof {
            assert(current_node.choices@.take(n as int) =~= current_node.choices@);
        }
        out
    }

    /// The situation reached by taking a choice described by `description`,
    /// with ending number `ending` (below four).
    pub fn expansion_for(description: &str, ending: usize) -> (r: String)
        requires
            ending < 4,
        ensures
            r@ == expansion_situation(description@, ending as int),
    {
        let tail = if ending == 0 {
            "You find yourself in a new situation that requires careful consideration."
        } else if ending == 1 {
            "The path ahead is unclear, but you must make a decision."
        } else if ending == 2 {
            "Something unexpected happens, changing everything."
        } else {
            "You discover something that wasn't there before."
        };
        let mut r = concat2("After choosing to '", description);
        crate::text::append_str(&mut r, "', ");
        crate::text::append_str(&mut r, tail);
        r
    }

    /// The node reached by taking `choice`: a current decision node with a
    /// randomly chosen ending to its situation and three fresh choices
    /// ("Continue forward", "Look around carefully", "Go back") that lead
    /// nowhere yet.
    pub fn expand_choice(&self, choice: &Choice) -> (r: StoryNode)
        ensures
            exists|k: int| 0 <= k < 4 && r.situation@ == expansion_situation(choice.description@, k),
            r.node_type == NodeType::Decision,
            r.state == NodeState::Current,
            r.choices@.len() == 3,
            r.choices@[0].description@ == "Continue forward"@,
            r.choices@[1].description@ == "Look around carefully"@,
            r.choices@[2].description@ == "Go back"@,
            forall|k: int| 0 <= k < 3 ==> (#[trigger] r.choices@[k]).target_node_id is None,
    {
        let ending = random_below(4);
        let situation = Self::expansion_for(choice.description.as_str(), ending);
        let choices = vec![
            Choice { description: owned("Continue forward"), target_node_id: None },
            Choice { description: owned("Look around carefully"), target_node_id: None },
            Choice { description: owned("Go back"), target_node_id: None },
        ];
        StoryNode {
            id: fresh_id(),
            node_type: NodeType::Decision,
            situation,
            choices,
            state: NodeState::Current,
        }
    }
}


impl MockStoryEngine {
    /// The verdict on any continuation: coherent, with confidence 90 in a
    /// hundred, no issues and one encouraging remark.
    pub fn validate_coherence(&self, _proposed_node: &StoryNode, _existing_graph: &StoryGraph) -> (r: CoherenceReport)
        ensures
            r.is_coherent,
            r.confidence_percent == 90,
            r.issues@.len() == 0,
            r.suggestions@.len() == 1,
            r.suggestions@[0]@ == "Story flow looks good!"@,
    {
        CoherenceReport {
            is_coherent: true,
            confidence_percent: 90,
            issues: Vec::new(),
            suggestions: vec![owned("Story flow looks good!")],
        }
    }

    /// A yes-or-no question about what `uncertainty` lacks, under a fresh
    /// random identifier.
    pub fn ask_clarification_question(&self, uncertainty: &UncertaintyContext) -> (q: Question)
        ensures
            asks(q, clarification_text(uncertainty.missing_context@), texts_of(uncertainty.missing_context@)),
            q.options matches Some(os) && os.len() == 2
                && flag_option(os[0], "yes"@, "Yes, continue"@, true, "Proceed with the current approach"@)
                && flag_option(os[1], "no"@, "No, try something else"@, false, "Take a different approach"@),
    {
        let prompt = build_clarification_text(&uncertainty.missing_context);
        let options = vec![
            flag_option_of("yes", "Yes, continue", true, "Proceed with the current approach"),
            flag_option_of("no", "No, try something else", false, "Take a different approach"),
        ];
        multiple_choice(prompt, options, &uncertainty.missing_context, fresh_id())
    }
}

/// Whatever the prompt, an engine holding the two built-in stories has a
/// story for it.
pub proof fn law_every_prompt_has_a_story(entries: Seq<(String, PredefinedStory)>, lowered: Seq<char>)
    requires
        story_for(entries, "cave"@) is Some,
        story_for(entries, "space"@) is Some,
    ensures
        story_for(entries, story_key_for(lowered)) is Some,
{
}

/// In a story unfolded from a template, every edge joins two of its nodes.
pub proof fn law_unfolded_edges_join_nodes(g: StoryGraph, s: PredefinedStory, ids: Seq<u128>)
    requires
        graph_from_template(g, s, ids),
    ensures
        forall|j: int|
            0 <= j < g.edges@.len() ==> node_ids(g).contains((#[trigger] g.edges@[j]).from_node_id)
                && node_ids(g).contains(g.edges@[j].to_node_id),
{
    let t = s.story_template;
    assert(node_ids(g) =~= ids) by {
        assert forall|i: int| 0 <= i < ids.len() implies node_ids(g)[i] == ids[i] by {
            assert(node_from_template(g.nodes@[i], t, ids, i));
        }
    }
    lemma_template_edges_in_ids(t, ids, t.connections@.len() as int);
}

proof fn lemma_template_edges_in_ids(t: StoryTemplate, ids: Seq<u128>, upto: int)
    requires
        ids.len() == t.nodes@.len(),
        upto <= t.connections@.len(),
    ensures
        forall|j: int|
            0 <= j < template_edges(t, ids, upto).len() ==> ids.contains(
                (#[trigger] template_edges(t, ids, upto)[j]).from_node_id,
            ) && ids.contains(template_edges(t, ids, upto)[j].to_node_id),
    decreases upto,
{
    if upto > 0 {
        lemma_template_edges_in_ids(t, ids, upto - 1);
        let e = template_edges(t, ids, upto);
        let prev = template_edges(t, ids, upto - 1);
        assert forall|j: int| 0 <= j < e.len() implies ids.contains((#[trigger] e[j]).from_node_id)
            && ids.contains(e[j].to_node_id) by {
            if j < prev.len() {
                assert(e[j] == prev[j]);
            } else {
                let c = t.connections@[upto - 1];
                assert(ids[c.0 as int] == e[j].from_node_id);
                assert(ids[c.1 as int] == e[j].to_node_id);
            }
        }
    }
}

} // verus!
