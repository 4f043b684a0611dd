//! The language-model story engines' side of a story: the prompts they send,
//! the stories, nodes and choices they build from the model's replies, how
//! they read a coherence verdict, and the clarification questions they ask.
use vstd::prelude::*;
use crate::ids::fresh_id;
use crate::prompts::{experience_label, experience_text, join, joined, or_not_specified};
use crate::planner::{parse_u32, trimmed_is, u32_of};
use crate::qa::texts_of;
use crate::reply::{openai_fallback, parse_openai_story_response, parse_planning_story_response, parsed_reply, planning_fallback};
use crate::story::{Choice, StoryGraph, StoryNode};
use crate::text::{append_str, contains, contains_text, decimal, decimal_string, lowercase_text, owned, to_lowercase, trimmed};
use crate::types::{CoherenceIssueType, IssueSeverity, NodeState, NodeType, ProjectConstraints, QuestionType, ValidationRules};

verus! {

/// The two language-model engines: one tells an adventure, the other plans a
/// project as a conversation with its user.
#[derive(Debug, Clone, Copy, PartialEq, Eq, Structural)]
pub enum EngineStyle {
    Adventure,
    Planning,
}

/// A team size, or zero when none is given.
pub open spec fn team_or_zero(t: Option<u32>) -> nat {
    match t {
        Some(n) => n as nat,
        None => 0,
    }
}

/// The texts of a list of strings joined by ", ".
pub open spec fn comma_list(v: Seq<String>) -> Seq<char> {
    joined(v.map_values(|p: String| p@), ", "@)
}

/// The prompt that opens a story about `prompt`.
pub open spec fn initial_story_prompt(style: EngineStyle, prompt: Seq<char>, c: ProjectConstraints) -> Seq<char> {
    match style {
        EngineStyle::Adventure => "Create the beginning of an interactive adventure story based on: '"@ + prompt
            + "'\n            \n            Experience level: "@ + experience_label(c.experience_level)
            + "\n            \n            Please format your response as:\n            SITUATION: [A compelling opening situation in 2-3 sentences]\n            CHOICES:\n            1. [First choice]\n            2. [Second choice] \n            3. [Third choice]"@,
        EngineStyle::Planning => "Let's start planning together for: '"@ + prompt
            + "'\n            \n            Here's what I know about the project:\n            - Timeline: "@
            + or_not_specified(c.timeline) + "\n            - Team Size: "@ + decimal(team_or_zero(c.team_size))
            + "\n            - Experience Level: "@ + experience_label(c.experience_level) + "\n            - Budget: "@
            + or_not_specified(c.budget) + "\n            - Technical Constraints: "@ + comma_list(
            c.technical_constraints@,
        ) + "\n            - Business Constraints: "@ + comma_list(c.business_constraints@)
            + "\n            \n            I'd like to have a collaborative conversation about how we should approach this. Think about what questions we need to answer and what areas we should investigate first.\n            \n            Please format your response as:\n            SITUATION: [A conversational assessment of where we are with this project and what we need to figure out - speak directly to me as a collaborator]\n            CHOICES:\n            1. [What if we started by investigating...]\n            2. [Should we first look into...]\n            3. [It might be worth exploring...]\n            4. [We could begin by analyzing...]"@,
    }
}

fn append_optional(p: &mut String, t: &Option<String>)
    ensures
        final(p)@ == old(p)@ + or_not_specified(*t),
{
    match t {
        Some(s) => append_str(p, s.as_str()),
        None => append_str(p, "Not specified"),
    }
}

/// Builds the prompt that opens a story about `prompt`.
pub fn build_initial_story_prompt(style: EngineStyle, prompt: &str, constraints: &ProjectConstraints) -> (r: String)
    ensures
        r@ == initial_story_prompt(style, prompt@, *constraints),
{
    match style {
        EngineStyle::Adventure => {
            let mut p = owned("Create the beginning of an interactive adventure story based on: '");
            append_str(&mut p, prompt);
            append_str(&mut p, "'\n            \n            Experience level: ");
            append_str(&mut p, experience_text(constraints.experience_level));
            append_str(&mut p, "\n            \n            Please format your response as:\n            SITUATION: [A compelling opening situation in 2-3 sentences]\n            CHOICES:\n            1. [First choice]\n            2. [Second choice] \n            3. [Third choice]");
            p
        },
        EngineStyle::Planning => {
            let mut p = owned("Let's start planning together for: '");
            append_str(&mut p, prompt);
            append_str(&mut p, "'\n            \n            Here's what I know about the project:\n            - Timeline: ");
            append_optional(&mut p, &constraints.timeline);
            append_str(&mut p, "\n            - Team Size: ");
            let team: u32 = match constraints.team_size {
                Some(n) => n,
                None => 0,
            };
            append_str(&mut p, decimal_string(team as usize).as_str());
            append_str(&mut p, "\n            - Experience Level: ");
            append_str(&mut p, experience_text(constraints.experience_level));
            append_str(&mut p, "\n            - Budget: ");
            append_optional(&mut p, &constraints.budget);
            append_str(&mut p, "\n            - Technical Constraints: ");
            append_str(&mut p, join(&constraints.technical_constraints, ", ").as_str());
            append_str(&mut p, "\n            - Business Constraints: ");
            append_str(&mut p, join(&constraints.business_constraints, ", ").as_str());
            append_str(&mut p, "\n            \n            I'd like to have a collaborative conversation about how we should approach this. Think about what questions we need to answer and what areas we should investigate first.\n            \n            Please format your response as:\n            SITUATION: [A conversational assessment of where we are with this project and what we need to figure out - speak directly to me as a collaborator]\n            CHOICES:\n            1. [What if we started by investigating...]\n            2. [Should we first look into...]\n            3. [It might be worth exploring...]\n            4. [We could begin by analyzing...]");
            p
        },
    }
}

/// The prompt that asks for new choices at a node whose situation is
/// `situation`, after `made` earlier choices.
pub open spec fn choices_prompt(style: EngineStyle, situation: Seq<char>, made: nat) -> Seq<char> {
    match style {
        EngineStyle::Adventure => "Given this situation: '"@ + situation + "'\n            \n            Previous choices made: "@
            + decimal(made)
            + "\n            \n            Generate 3 new choices for what the player can do next. Format as:\n            CHOICES:\n            1. [Choice 1]\n            2. [Choice 2]\n            3. [Choice 3]"@,
        EngineStyle::Planning => "We're continuing our planning conversation. Here's where we are: '"@ + situation
            + "'\n            \n            We've made "@ + decimal(made)
            + " planning decisions so far. What should we investigate next?\n            \n            Please suggest 4 different directions we could explore, framed as collaborative questions or suggestions.\n            \n            Format as:\n            CHOICES:\n            1. [What if we...]\n            2. [Should we look into...]\n            3. [It might be worth investigating...]\n            4. [We could also consider...]"@,
    }
}

/// Builds the prompt that asks for new choices at a node.
pub fn build_choices_prompt(style: EngineStyle, situation: &str, previous_choices: usize) -> (r: String)
    ensures
        r@ == choices_prompt(style, situation@, previous_choices as nat),
{
    let made = decimal_string(previous_choices);
    match style {
        EngineStyle::Adventure => {
            let mut p = owned("Given this situation: '");
            append_str(&mut p, situation);
            append_str(&mut p, "'\n            \n            Previous choices made: ");
            append_str(&mut p, made.as_str());
            append_str(&mut p, "\n            \n            Generate 3 new choices for what the player can do next. Format as:\n            CHOICES:\n            1. [Choice 1]\n            2. [Choice 2]\n            3. [Choice 3]");
            p
        },
        EngineStyle::Planning => {
            let mut p = owned("We're continuing our planning conversation. Here's where we are: '");
            append_str(&mut p, situation);
            append_str(&mut p, "'\n            \n            We've made ");
            append_str(&mut p, made.as_str());
            append_str(&mut p, " planning decisions so far. What should we investigate next?\n            \n            Please suggest 4 different directions we could explore, framed as collaborative questions or suggestions.\n            \n            Format as:\n            CHOICES:\n            1. [What if we...]\n            2. [Should we look into...]\n            3. [It might be worth investigating...]\n            4. [We could also consider...]");
            p
        },
    }
}

/// The prompt that asks what follows the choice described by `description`,
/// after `made` earlier choices.
pub open spec fn expand_prompt(style: EngineStyle, description: Seq<char>, made: nat) -> Seq<char> {
    match style {
        EngineStyle::Adventure => "The player chose: '"@ + description + "'\n            \n            Previous story context: "@
            + decimal(made)
            + " previous choices made\n            \n            What happens next? Create a new situation and 3 choices. Format as:\n            SITUATION: [New situation in 2-3 sentences]\n            CHOICES:\n            1. [Choice 1]\n            2. [Choice 2]\n            3. [Choice 3]"@,
        EngineStyle::Planning => "Great choice! You decided: '"@ + description
            + "'\n            \n            Now that we've made this decision (and "@ + decimal(made)
            + " others before it), let's think about what this reveals and what we should tackle next.\n            \n            Please respond as a collaborative partner - what questions does this decision raise? What should we investigate now?\n            \n            Format as:\n            SITUATION: [A conversational response about what this decision means and what we need to figure out next - speak directly to me]\n            CHOICES:\n            1. [What if we now looked at...]\n            2. [Should we investigate...]\n            3. [This makes me wonder about...]\n            4. [We should probably explore...]"@,
    }
}

/// Builds the prompt that asks what follows a choice.
pub fn build_expand_prompt(style: EngineStyle, description: &str, previous_choices: usize) -> (r: String)
    ensures
        r@ == expand_prompt(style, description@, previous_choices as nat),
{
    let made = decimal_string(previous_choices);
    match style {
        EngineStyle::Adventure => {
            let mut p = owned("The player chose: '");
            append_str(&mut p, description);
            append_str(&mut p, "'\n            \n            Previous story context: ");
            append_str(&mut p, made.as_str());
            append_str(&mut p, " previous choices made\n            \n            What happens next? Create a new situation and 3 choices. Format as:\n            SITUATION: [New situation in 2-3 sentences]\n            CHOICES:\n            1. [Choice 1]\n            2. [Choice 2]\n            3. [Choice 3]");
            p
        },
        EngineStyle::Planning => {
            let mut p = owned("Great choice! You decided: '");
            append_str(&mut p, description);
            append_str(&mut p, "'\n            \n            Now that we've made this decision (and ");
            append_str(&mut p, made.as_str());
            append_str(&mut p, " others before it), let's think about what this reveals and what we should tackle next.\n            \n            Please respond as a collaborative partner - what questions does this decision raise? What should we investigate now?\n            \n            Format as:\n            SITUATION: [A conversational response about what this decision means and what we need to figure out next - speak directly to me]\n            CHOICES:\n            1. [What if we now looked at...]\n            2. [Should we investigate...]\n            3. [This makes me wonder about...]\n            4. [We should probably explore...]");
            p
        },
    }
}

/// The prompt that asks whether a new situation fits a story titled `title`
/// that has `node_count` nodes.
pub open spec fn coherence_prompt(style: EngineStyle, title: Seq<char>, node_count: nat, situation: Seq<char>) -> Seq<char> {
    match style {
        EngineStyle::Adventure => "Evaluate the coherence of this story continuation:\n            \n            Story title: "@ + title
            + "\n            New situation: '"@ + situation
            + "'\n            \n            Does this fit well with the existing story? Rate coherence from 0.0 to 1.0 and explain."@,
        EngineStyle::Planning => "As my planning collaborator, does this next step make sense in our conversation?\n            \n            Project: "@
            + title + "\n            We've explored "@ + decimal(node_count)
            + " different planning areas so far\n            New topic: '"@ + situation
            + "'\n            \n            From a collaborative planning perspective:\n            - Does this follow naturally from our previous discussions?\n            - Are we maintaining focus on the right priorities?\n            - Does this seem like a logical next step in our planning process?\n            \n            Give me your honest assessment - should we continue down this path or refocus?"@,
    }
}

/// Builds the prompt that asks whether `proposed_node` fits `existing_graph`.
pub fn build_coherence_prompt(style: EngineStyle, proposed_node: &StoryNode, existing_graph: &StoryGraph) -> (r: String)
    ensures
        r@ == coherence_prompt(style, existing_graph.title@, existing_graph.nodes@.len(), proposed_node.situation@),
{
    match style {
        EngineStyle::Adventure => {
            let mut p = owned("Evaluate the coherence of this story continuation:\n            \n            Story title: ");
            append_str(&mut p, existing_graph.title.as_str());
            append_str(&mut p, "\n            New situation: '");
            append_str(&mut p, proposed_node.situation.as_str());
            append_str(&mut p, "'\n            \n            Does this fit well with the existing story? Rate coherence from 0.0 to 1.0 and explain.");
            p
        },
        EngineStyle::Planning => {
            let mut p = owned("As my planning collaborator, does this next step make sense in our conversation?\n            \n            Project: ");
            append_str(&mut p, existing_graph.title.as_str());
            append_str(&mut p, "\n            We've explored ");
            append_str(&mut p, decimal_string(existing_graph.nodes.len()).as_str());
            append_str(&mut p, " different planning areas so far\n            New topic: '");
            append_str(&mut p, proposed_node.situation.as_str());
            append_str(&mut p, "'\n            \n            From a collaborative planning perspective:\n            - Does this follow naturally from our previous discussions?\n            - Are we maintaining focus on the right priorities?\n            - Does this seem like a logical next step in our planning process?\n            \n            Give me your honest assessment - should we continue down this path or refocus?");
            p
        },
    }
}

/// The situation and choices an engine reads from a reply: the adventure
/// engine's choices are numbered up to three, the planning engine's up to
/// four, each with its own fallback choices.
pub open spec fn reply_of(style: EngineStyle, response: Seq<char>) -> (Seq<char>, Seq<Seq<char>>) {
    match style {
        EngineStyle::Adventure => parsed_reply(response, 3, openai_fallback()),
        EngineStyle::Planning => parsed_reply(response, 4, planning_fallback()),
    }
}

/// Reads the situation and choices of a reply.
pub fn parse_story_response(style: EngineStyle, response: &str) -> (r: (String, Vec<String>))
    ensures
        (r.0@, texts_of(r.1@)) == reply_of(style, response@),
{
    match style {
        EngineStyle::Adventure => parse_openai_story_response(response),
        EngineStyle::Planning => parse_planning_story_response(response),
    }
}

/// `cs` offers the choices described by `descriptions`, in order, none of
/// them leading to a node yet.
pub open spec fn unlinked_choices(cs: Seq<Choice>, descriptions: Seq<Seq<char>>) -> bool {
    &&& cs.len() == descriptions.len()
    &&& forall|i: int|
        0 <= i < cs.len() ==> (#[trigger] cs[i]).description@ == descriptions[i] && cs[i].target_node_id is None
}

/// The choices described by `descriptions`, none leading to a node yet.
pub fn choices_from_descriptions(descriptions: Vec<String>) -> (r: Vec<Choice>)
    ensures
        unlinked_choices(r@, texts_of(descriptions@)),
{
    let mut r: Vec<Choice> = Vec::new();
    let n = descriptions.len();
    for i in 0..n
        invariant
            n == descriptions@.len(),
            unlinked_choices(r@, texts_of(descriptions@).take(i as int)),
    {
        r.push(Choice { description: descriptions[i].clone(), target_node_id: None });
    }
    proof {
        assert(texts_of(descriptions@).take(n as int) =~= texts_of(descriptions@));
    }
    r
}

/// The title of a story an engine opens about `prompt`.
pub open spec fn story_title(style: EngineStyle, prompt: Seq<char>) -> Seq<char> {
    match style {
        EngineStyle::Adventure => "Adventure: "@ + prompt,
        EngineStyle::Planning => "Planning Session: "@ + prompt,
    }
}

/// The description of a story an engine opens.
pub open spec fn story_description(style: EngineStyle) -> Seq<char> {
    match style {
        EngineStyle::Adventure => "An AI-generated interactive adventure"@,
        EngineStyle::Planning => "Collaborative planning conversation"@,
    }
}

/// `g` is the story an engine opens about `prompt` from a reply with the given
/// situation and choices: one current start node, identified by `root`, where
/// the story starts and the reader stands, and no edges.
pub open spec fn opened_story(
    g: StoryGraph,
    style: EngineStyle,
    prompt: Seq<char>,
    situation: Seq<char>,
    choices: Seq<Seq<char>>,
    root: u128,
) -> bool {
    &&& g.title@ == story_title(style, prompt)
    &&& g.description matches Some(d) && d@ == story_description(style)
    &&& g.nodes@.len() == 1
    &&& g.nodes@[0].id == root
    &&& g.nodes@[0].node_type == NodeType::Start
    &&& g.nodes@[0].state == NodeState::Current
    &&& g.nodes@[0].situation@ == situation
    &&& unlinked_choices(g.nodes@[0].choices@, choices)
    &&& g.edges@.len() == 0
    &&& g.root_node_id == Some(root)
    &&& g.current_node_id == Some(root)
}

/// The story an engine opens about `prompt` from a reply's situation and
/// choices, its node identified by `root`.
pub fn open_story(style: EngineStyle, prompt: &str, situation: String, choices: Vec<String>, root: u128) -> (g:
    StoryGraph)
    ensures
        opened_story(g, style, prompt@, situation@, texts_of(choices@), root),
{
    let (title, description) = match style {
        EngineStyle::Adventure => (owned("Adventure: "), owned("An AI-generated interactive adventure")),
        EngineStyle::Planning => (owned("Planning Session: "), owned("Collaborative planning conversation")),
    };
    let mut title = title;
    append_str(&mut title, prompt);
    let node = StoryNode {
        id: root,
        node_type: NodeType::Start,
        situation,
        choices: choices_from_descriptions(choices),
        state: NodeState::Current,
    };
    StoryGraph {
        title,
        description: Some(description),
        nodes: vec![node],
        edges: Vec::new(),
        root_node_id: Some(root),
        current_node_id: Some(root),
    }
}

/// The story an engine opens about `prompt` from the model's reply to the
/// opening prompt; its node gets a fresh random identifier.
pub fn story_from_response(style: EngineStyle, prompt: &str, response: &str) -> (g: StoryGraph)
    ensures
        g.root_node_id matches Some(root) && opened_story(
            g,
            style,
            prompt@,
            reply_of(style, response@).0,
            reply_of(style, response@).1,
            root,
        ),
{
    let (situation, choices) = parse_story_response(style, response);
    open_story(style, prompt, situation, choices, fresh_id())
}

/// The choices an engine offers from the model's reply to a choices prompt.
pub fn choices_from_response(style: EngineStyle, response: &str) -> (r: Vec<Choice>)
    ensures
        unlinked_choices(r@, reply_of(style, response@).1),
{
    let (_, choices) = parse_story_response(style, response);
    choices_from_descriptions(choices)
}

/// `n` is the node a choice leads to, read from a reply with the given
/// situation and choices: a current decision node identified by `id`.
pub open spec fn continued_node(n: StoryNode, situation: Seq<char>, choices: Seq<Seq<char>>, id: u128) -> bool {
    &&& n.id == id
    &&& n.node_type == NodeType::Decision
    &&& n.state == NodeState::Current
    &&& n.situation@ == situation
    &&& unlinked_choices(n.choices@, choices)
}

/// The node a choice leads to, from a reply's situation and choices.
pub fn continue_story(situation: String, choices: Vec<String>, id: u128) -> (n: StoryNode)
    ensures
        continued_node(n, situation@, texts_of(choices@), id),
{
    StoryNode {
        id,
        node_type: NodeType::Decision,
        situation,
        choices: choices_from_descriptions(choices),
        state: NodeState::Current,
    }
}

/// The node a choice leads to, from the model's reply to an expand prompt;
/// it gets a fresh random identifier.
pub fn node_from_response(style: EngineStyle, response: &str) -> (n: StoryNode)
    ensures
        continued_node(n, reply_of(style, response@).0, reply_of(style, response@).1, n.id),
{
    let (situation, choices) = parse_story_response(style, response);
    continue_story(situation, choices, fresh_id())
}

/// Something found wrong with a story continuation.
#[derive(Debug, Clone)]
pub struct CoherenceIssue {
    pub issue_type: CoherenceIssueType,
    pub description: String,
    pub severity: IssueSeverity,
    pub affected_nodes: Vec<u128>,
}

/// A verdict on whether a continuation fits its story, with the engine's
/// confidence as a whole percentage.
#[derive(Debug, Clone)]
pub struct CoherenceReport {
    pub is_coherent: bool,
    pub confidence_percent: u32,
    pub issues: Vec<CoherenceIssue>,
    pub suggestions: Vec<String>,
}

/// The confidence an engine reads from the lower-cased text of a coherence
/// reply: high when it speaks well of the continuation, low when it finds
/// it inconsistent, middling otherwise.
pub open spec fn coherence_percent(style: EngineStyle, lowered: Seq<char>) -> u32 {
    match style {
        EngineStyle::Adventure => if contains_text(lowered, "good"@) || contains_text(lowered, "coherent"@) {
            80
        } else if contains_text(lowered, "poor"@) || contains_text(lowered, "inconsistent"@) {
            30
        } else {
            60
        },
        EngineStyle::Planning => if contains_text(lowered, "coherent"@) || contains_text(lowered, "logical"@)
            || contains_text(lowered, "makes sense"@) {
            85
        } else if contains_text(lowered, "inconsistent"@) || contains_text(lowered, "unrealistic"@) {
            30
        } else {
            60
        },
    }
}

/// How the planning engine judges a reply about coherence: one that calls
/// the step coherent, logical or sensible is coherent with confidence 85;
/// otherwise one that calls it inconsistent or unrealistic is not coherent,
/// with confidence 30; any other reply is coherent with confidence 60.
pub proof fn law_planning_coherence_verdicts(response: Seq<char>, r: CoherenceReport)
    requires
        reported(r, coherence_percent(EngineStyle::Planning, lowercase_text(response)), response),
    ensures
        ({
            let l = lowercase_text(response);
            let praised = contains_text(l, "coherent"@) || contains_text(l, "logical"@) || contains_text(
                l,
                "makes sense"@,
            );
            let faulted = contains_text(l, "inconsistent"@) || contains_text(l, "unrealistic"@);
            &&& praised ==> r.is_coherent && r.confidence_percent == 85
            &&& !praised && faulted ==> !r.is_coherent && r.confidence_percent == 30
            &&& !praised && !faulted ==> r.is_coherent && r.confidence_percent == 60
        }),
{
}

/// How the adventure engine judges a reply about coherence: one that calls
/// the node good or coherent is coherent with confidence 80; otherwise one
/// that calls it poor or inconsistent is not coherent, with confidence 30;
/// any other reply is coherent with confidence 60.
pub proof fn law_adventure_coherence_verdicts(response: Seq<char>, r: CoherenceReport)
    requires
        reported(r, coherence_percent(EngineStyle::Adventure, lowercase_text(response)), response),
    ensures
        ({
            let l = lowercase_text(response);
            let praised = contains_text(l, "good"@) || contains_text(l, "coherent"@);
            let faulted = contains_text(l, "poor"@) || contains_text(l, "inconsistent"@);
            &&& praised ==> r.is_coherent && r.confidence_percent == 80
            &&& !praised && faulted ==> !r.is_coherent && r.confidence_percent == 30
            &&& !praised && !faulted ==> r.is_coherent && r.confidence_percent == 60
        }),
{
}

/// The confidence read from the lower-cased text of a coherence reply.
pub fn coherence_percent_from_lowered(style: EngineStyle, lowered: &str) -> (r: u32)
    ensures
        r == coherence_percent(style, lowered@),
{
    match style {
        EngineStyle::Adventure => if contains(lowered, "good") || contains(lowered, "coherent") {
            80
        } else if contains(lowered, "poor") || contains(lowered, "inconsistent") {
            30
        } else {
            60
        },
        EngineStyle::Planning => if contains(lowered, "coherent") || contains(lowered, "logical") || contains(
            lowered,
            "makes sense",
        ) {
            85
        } else if contains(lowered, "inconsistent") || contains(lowered, "unrealistic") {
            30
        } else {
            60
        },
    }
}

/// `r` reports the confidence `percent`, coherent when above one half, with
/// no issues and the reply `response` as its one suggestion.
pub open spec fn reported(r: CoherenceReport, percent: u32, response: Seq<char>) -> bool {
    &&& r.confidence_percent == percent
    &&& r.is_coherent == (percent > 50)
    &&& r.issues@.len() == 0
    &&& r.suggestions@.len() == 1
    &&& r.suggestions@[0]@ == response
}

/// The report an engine makes of a coherence reply, given the reply's
/// lower-cased text.
pub fn coherence_report_from_lowered(style: EngineStyle, lowered: &str, response: String) -> (r: CoherenceReport)
    ensures
        reported(r, coherence_percent(style, lowered@), response@),
{
    let percent = coherence_percent_from_lowered(style, lowered);
    CoherenceReport { is_coherent: percent > 50, confidence_percent: percent, issues: Vec::new(), suggestions: vec![response] }
}

/// The report an engine makes of the model's reply to a coherence prompt.
pub fn coherence_report(style: EngineStyle, response: String) -> (r: CoherenceReport)
    ensures
        reported(r, coherence_percent(style, lowercase_text(response@)), response@),
{
    let lowered = to_lowercase(response.as_str());
    coherence_report_from_lowered(style, lowered.as_str(), response)
}

/// What an option of a question stands for.
#[derive(Debug, Clone)]
pub enum OptionValue {
    Text(String),
    Flag(bool),
}

/// One answer offered by a multiple-choice question.
#[derive(Debug, Clone)]
pub struct QuestionOption {
    pub id: String,
    pub label: String,
    pub value: OptionValue,
    pub description: Option<String>,
}

/// Why a question is asked.
#[derive(Debug, Clone)]
pub struct QuestionContext {
    pub uncertainty_areas: Vec<String>,
    pub missing_context: Vec<String>,
    pub conflicting_choices: Vec<u128>,
    pub priority_level: u32,
}

/// A question an engine asks its user.
#[derive(Debug, Clone)]
pub struct Question {
    pub id: u128,
    pub question_type: QuestionType,
    pub prompt: String,
    pub options: Option<Vec<QuestionOption>>,
    pub validation_rules: ValidationRules,
    pub context: QuestionContext,
}

/// What an engine is unsure of.
#[derive(Debug, Clone)]
pub struct UncertaintyContext {
    pub missing_context: Vec<String>,
    pub conflicting_choices: Vec<Choice>,
    pub ambiguous_requirements: Vec<String>,
}

/// `o` is the option `id`, labelled `label`, standing for the text `id`.
pub open spec fn text_option(o: QuestionOption, id: Seq<char>, label: Seq<char>, description: Seq<char>) -> bool {
    &&& o.id@ == id
    &&& o.label@ == label
    &&& o.value matches OptionValue::Text(t) && t@ == id
    &&& o.description matches Some(d) && d@ == description
}

/// `o` is the option `id`, labelled `label`, standing for the flag `flag`.
pub open spec fn flag_option(o: QuestionOption, id: Seq<char>, label: Seq<char>, flag: bool, description: Seq<char>) -> bool {
    &&& o.id@ == id
    &&& o.label@ == label
    &&& o.value matches OptionValue::Flag(b) && b == flag
    &&& o.description matches Some(d) && d@ == description
}

/// `q` is a multiple-choice question asking `prompt` about the missing
/// context `missing`, with no rules on its answer and priority one.
pub open spec fn asks(q: Question, prompt: Seq<char>, missing: Seq<Seq<char>>) -> bool {
    &&& q.question_type == QuestionType::MultipleChoice
    &&& q.prompt@ == prompt
    &&& !q.validation_rules.required
    &&& q.validation_rules.min_length is None
    &&& q.validation_rules.max_length is None
    &&& q.validation_rules.pattern is None
    &&& q.validation_rules.custom_validator is None
    &&& texts_of(q.context.uncertainty_areas@) == missing
    &&& q.context.missing_context@.len() == 0
    &&& q.context.conflicting_choices@.len() == 0
    &&& q.context.priority_level == 1
}

/// The options each engine offers with a clarification question.
pub open spec fn engine_options(style: EngineStyle, os: Seq<QuestionOption>) -> bool {
    match style {
        EngineStyle::Adventure => os.len() == 2 && text_option(
            os[0],
            "continue"@,
            "Continue as planned"@,
            "Proceed with the current story direction"@,
        ) && text_option(os[1], "clarify"@, "Provide more details"@, "Give more context about what you want"@),
        EngineStyle::Planning => os.len() == 3 && text_option(
            os[0],
            "detailed"@,
            "Provide detailed requirements"@,
            "Give more specific technical and business requirements"@,
        ) && text_option(os[1], "simple"@, "Keep it simple for now"@, "Proceed with minimal viable approach"@)
            && text_option(
            os[2],
            "research"@,
            "Research options first"@,
            "Investigate existing solutions and best practices"@,
        ),
    }
}

fn text_option_of(id: &str, label: &str, description: &str) -> (o: QuestionOption)
    ensures
        text_option(o, id@, label@, description@),
{
    QuestionOption { id: owned(id), label: owned(label), value: OptionValue::Text(owned(id)), description: Some(owned(description)) }
}

/// An option standing for a flag.
pub(crate) fn flag_option_of(id: &str, label: &str, flag: bool, description: &str) -> (o: QuestionOption)
    ensures
        flag_option(o, id@, label@, flag, description@),
{
    QuestionOption { id: owned(id), label: owned(label), value: OptionValue::Flag(flag), description: Some(owned(description)) }
}

fn clone_texts(v: &Vec<String>) -> (r: Vec<String>)
    ensures
        r@ == v@,
{
    let mut out: Vec<String> = Vec::new();
    let n = v.len();
    for i in 0..n
        invariant
            n == v@.len(),
            out@ == v@.take(i as int),
    {
        out.push(v[i].clone());
        proof {
            assert(v@.take(i + 1) =~= v@.take(i as int).push(v@[i as int]));
        }
    }
    proof {
        assert(v@.take(n as int) =~= v@);
    }
    out
}

/// A multiple-choice question `id` asking `prompt` with the given options,
/// about the missing context `missing`.
pub(crate) fn multiple_choice(prompt: String, options: Vec<QuestionOption>, missing: &Vec<String>, id: u128) -> (q: Question)
    ensures
        q.id == id,
        asks(q, prompt@, texts_of(missing@)),
        q.options == Some(options),
{
    Question {
        id,
        question_type: QuestionType::MultipleChoice,
        prompt,
        options: Some(options),
        validation_rules: ValidationRules::default(),
        context: QuestionContext {
            uncertainty_areas: clone_texts(missing),
            missing_context: Vec::new(),
            conflicting_choices: Vec::new(),
            priority_level: 1,
        },
    }
}

/// The clarification question `id` an engine asks with the prompt `prompt`
/// about the missing context `missing`.
pub fn clarification_question(style: EngineStyle, prompt: String, missing: &Vec<String>, id: u128) -> (q: Question)
    ensures
        q.id == id,
        asks(q, prompt@, texts_of(missing@)),
        q.options matches Some(os) && engine_options(style, os@),
{
    let options = match style {
        EngineStyle::Adventure => vec![
            text_option_of("continue", "Continue as planned", "Proceed with the current story direction"),
            text_option_of("clarify", "Provide more details", "Give more context about what you want"),
        ],
        EngineStyle::Planning => vec![
            text_option_of("detailed", "Provide detailed requirements", "Give more specific technical and business requirements"),
            text_option_of("simple", "Keep it simple for now", "Proceed with minimal viable approach"),
            text_option_of("research", "Research options first", "Investigate existing solutions and best practices"),
        ],
    };
    multiple_choice(prompt, options, missing, id)
}

/// The request for clarification about the missing context `missing`.
pub open spec fn clarification_text(missing: Seq<String>) -> Seq<char> {
    "I need clarification about: "@ + comma_list(missing)
}

/// Builds the request for clarification about the missing context.
pub fn build_clarification_text(missing: &Vec<String>) -> (r: String)
    ensures
        r@ == clarification_text(missing@),
{
    let mut p = owned("I need clarification about: ");
    append_str(&mut p, join(missing, ", ").as_str());
    p
}

/// The adventure engine's clarification question about what `uncertainty`
/// lacks, under a fresh random identifier.
pub fn adventure_clarification_question(uncertainty: &UncertaintyContext) -> (q: Question)
    ensures
        asks(q, clarification_text(uncertainty.missing_context@), texts_of(uncertainty.missing_context@)),
        q.options matches Some(os) && engine_options(EngineStyle::Adventure, os@),
{
    let prompt = build_clarification_text(&uncertainty.missing_context);
    clarification_question(EngineStyle::Adventure, prompt, &uncertainty.missing_context, fresh_id())
}

/// The descriptions of a list of choices.
pub open spec fn choice_descriptions(cs: Seq<Choice>) -> Seq<Seq<char>> {
    cs.map_values(|c: Choice| c.description@)
}

/// The prompt with which the planning engine asks the model what to ask its
/// user about an uncertainty.
pub open spec fn planning_clarification_prompt(u: UncertaintyContext) -> Seq<char> {
    "I'm a bit unclear on some aspects of our planning discussion. Can you help me understand?\n            \n            I'm missing context on: "@
        + comma_list(u.missing_context@) + "\n            I see some conflicting ideas around: "@ + joined(
        choice_descriptions(u.conflicting_choices@),
        ", "@,
    ) + "\n            These requirements seem ambiguous: "@ + comma_list(u.ambiguous_requirements@)
        + "\n            \n            As my planning partner, what question should I ask you to get clarity on the most important uncertainty?"@
}

/// Builds the planning engine's clarification prompt.
pub fn build_planning_clarification_prompt(uncertainty: &UncertaintyContext) -> (r: String)
    ensures
        r@ == planning_clarification_prompt(*uncertainty),
{
    let mut descriptions: Vec<String> = Vec::new();
    let n = uncertainty.conflicting_choices.len();
    for i in 0..n
        invariant
            n == uncertainty.conflicting_choices@.len(),
            descriptions@.map_values(|p: String| p@) == choice_descriptions(uncertainty.conflicting_choices@.take(i as int)),
    {
        let ghost before = descriptions@;
        descriptions.push(uncertainty.conflicting_choices[i].description.clone());
        proof {
            assert(descriptions@ == before.push(uncertainty.conflicting_choices@[i as int].description));
            assert(descriptions@.map_values(|p: String| p@) =~= before.map_values(|p: String| p@).push(
                uncertainty.conflicting_choices@[i as int].description@,
            ));
            assert(uncertainty.conflicting_choices@.take(i + 1) =~= uncertainty.conflicting_choices@.take(i as int).push(
                uncertainty.conflicting_choices@[i as int],
            ));
            assert(choice_descriptions(uncertainty.conflicting_choices@.take(i + 1)) =~= choice_descriptions(
                uncertainty.conflicting_choices@.take(i as int),
            ).push(uncertainty.conflicting_choices@[i as int].description@));
        }
    }
    proof {
        assert(uncertainty.conflicting_choices@.take(n as int) =~= uncertainty.conflicting_choices@);
    }
    let mut p = owned("I'm a bit unclear on some aspects of our planning discussion. Can you help me understand?\n            \n            I'm missing context on: ");
    append_str(&mut p, join(&uncertainty.missing_context, ", ").as_str());
    append_str(&mut p, "\n            I see some conflicting ideas around: ");
    append_str(&mut p, join(&descriptions, ", ").as_str());
    append_str(&mut p, "\n            These requirements seem ambiguous: ");
    append_str(&mut p, join(&uncertainty.ambiguous_requirements, ", ").as_str());
    append_str(&mut p, "\n            \n            As my planning partner, what question should I ask you to get clarity on the most important uncertainty?");
    p
}

/// The planning engine's clarification question: the model's reply to the
/// clarification prompt, asked under a fresh random identifier.
pub fn planning_clarification_question(uncertainty: &UncertaintyContext, response: String) -> (q: Question)
    ensures
        asks(q, response@, texts_of(uncertainty.missing_context@)),
        q.options matches Some(os) && engine_options(EngineStyle::Planning, os@),
{
    clarification_question(EngineStyle::Planning, response, &uncertainty.missing_context, fresh_id())
}

/// The engines a story can be told by: the built-in stories, or one of the
/// two language-model engines.
#[derive(Debug, Clone, Copy, PartialEq, Eq, Structural)]
pub enum EngineKind {
    Mock,
    Adventure,
    Planning,
}

/// An answer to the engine menu.
#[derive(Debug, Clone, Copy, PartialEq, Eq, Structural)]
pub enum EngineMenuChoice {
    Mock,
    Adventure,
    Planning,
    FromSetting,
}

/// The menu entry picked by a trimmed answer: "2", "3" and "4" pick the
/// adventure engine, the planning engine and the default-engine setting;
/// anything else picks the built-in stories.
pub open spec fn menu_choice_for(t: Seq<char>) -> EngineMenuChoice {
    if t == "2"@ {
        EngineMenuChoice::Adventure
    } else if t == "3"@ {
        EngineMenuChoice::Planning
    } else if t == "4"@ {
        EngineMenuChoice::FromSetting
    } else {
        EngineMenuChoice::Mock
    }
}

/// The engine menu entry picked by an answer (surrounding whitespace ignored).
pub fn engine_menu_choice(input: &str) -> (c: EngineMenuChoice)
    ensures
        c == menu_choice_for(trimmed(input@)),
{
    if trimmed_is(input, "2") {
        EngineMenuChoice::Adventure
    } else if trimmed_is(input, "3") {
        EngineMenuChoice::Planning
    } else if trimmed_is(input, "4") {
        EngineMenuChoice::FromSetting
    } else {
        EngineMenuChoice::Mock
    }
}

/// The engine wanted for a menu entry; for the entry that defers to the
/// default-engine setting, `from_setting`, the engine that setting names.
pub fn wanted_engine(choice: EngineMenuChoice, from_setting: EngineKind) -> (k: EngineKind)
    ensures
        k == match choice {
            EngineMenuChoice::Mock => EngineKind::Mock,
            EngineMenuChoice::Adventure => EngineKind::Adventure,
            EngineMenuChoice::Planning => EngineKind::Planning,
            EngineMenuChoice::FromSetting => from_setting,
        },
{
    match choice {
        EngineMenuChoice::Mock => EngineKind::Mock,
        EngineMenuChoice::Adventure => EngineKind::Adventure,
        EngineMenuChoice::Planning => EngineKind::Planning,
        EngineMenuChoice::FromSetting => from_setting,
    }
}

/// The engine that tells the story: the one wanted when it could be set up,
/// else the built-in stories.
pub fn engine_in_use(wanted: EngineKind, set_up: bool) -> (k: EngineKind)
    ensures
        k == if set_up {
            wanted
        } else {
            EngineKind::Mock
        },
{
    if set_up {
        wanted
    } else {
        EngineKind::Mock
    }
}

/// What the adventure engine is set up with.
#[derive(Debug, Clone)]
pub struct AdventureEngineConfig {
    pub api_key: String,
    pub model: String,
}

/// What the planning engine is set up with (its sampling temperature aside).
#[derive(Debug, Clone)]
pub struct PlanningEngineConfig {
    pub api_key: String,
    pub model: String,
    pub max_tokens: u32,
}

/// The adventure engine's set-up from its key setting: it needs a key, and
/// talks to the model "gpt-3.5-turbo".
pub fn adventure_engine_config(api_key: Option<String>) -> (r: Result<AdventureEngineConfig, String>)
    ensures
        match api_key {
            None => r matches Err(e) && e@ == "OPENAI_API_KEY environment variable not set"@,
            Some(k) => r matches Ok(c) && c.api_key == k && c.model@ == "gpt-3.5-turbo"@,
        },
{
    match api_key {
        None => Err(owned("OPENAI_API_KEY environment variable not set")),
        Some(k) => Ok(AdventureEngineConfig { api_key: k, model: owned("gpt-3.5-turbo") }),
    }
}

/// The planning engine's token limit from its setting: the setting read as a
/// number, else 2048.
pub open spec fn max_tokens_of(setting: Option<String>) -> u32 {
    match setting {
        Some(s) => match u32_of(s@) {
            Some(n) => n,
            None => 2048,
        },
        None => 2048,
    }
}

/// The planning engine's set-up from its settings: it needs a key; `model`
/// is the model it talks to, and the token limit defaults to 2048.
pub fn planning_engine_config(api_key: Option<String>, model: String, max_tokens: Option<String>) -> (r: Result<
    PlanningEngineConfig,
    String,
>)
    ensures
        match api_key {
            None => r matches Err(e) && e@ == "ANTHROPIC_API_KEY environment variable not set"@,
            Some(k) => r matches Ok(c) && c.api_key == k && c.model == model && c.max_tokens == max_tokens_of(max_tokens),
        },
{
    match api_key {
        None => Err(owned("ANTHROPIC_API_KEY environment variable not set")),
        Some(k) => {
            let limit: u32 = match &max_tokens {
                Some(s) => match parse_u32(s.as_str()) {
                    Some(n) => n,
                    None => 2048,
                },
                None => 2048,
            };
            Ok(PlanningEngineConfig { api_key: k, model, max_tokens: limit })
        },
    }
}

/// Whatever the model replies, a story an engine opens from the reply starts
/// at a node that offers at least one choice (the engine's own choices stand
/// in when the reply names none), and that node is the one found under the
/// story's root.
pub proof fn law_opened_story_offers_a_choice(
    g: StoryGraph,
    style: EngineStyle,
    prompt: Seq<char>,
    response: Seq<char>,
    root: u128,
)
    requires
        opened_story(g, style, prompt, reply_of(style, response).0, reply_of(style, response).1, root),
    ensures
        crate::adventure::node_lookup(g.nodes@, root) == Some(g.nodes@[0]),
        g.nodes@[0].choices@.len() > 0,
{
    assert(openai_fallback().len() == 3);
    assert(planning_fallback().len() == 4);
}

} // verus!
