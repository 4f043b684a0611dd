//! The prompts sent to the language model: decomposing a user's request into
//! a ticket, and refining a vague term of a ticket into a ticket of its own.
use vstd::prelude::*;
use crate::text::{append_str, decimal, decimal_string, owned};
use crate::types::{ExperienceLevel, ProjectConstraints};
use crate::ticket::{RefinementContext, RefinementPriority, RefinementRequest};

verus! {

/// How a refinement priority is printed for debugging (its variant name).
pub open spec fn refinement_priority_label(p: RefinementPriority) -> Seq<char> {
    match p {
        RefinementPriority::Critical => "Critical"@,
        RefinementPriority::High => "High"@,
        RefinementPriority::Medium => "Medium"@,
        RefinementPriority::Low => "Low"@,
    }
}

fn refinement_priority_text(p: RefinementPriority) -> (r: &'static str)
    ensures
        r@ == refinement_priority_label(p),
{
    match p {
        RefinementPriority::Critical => "Critical",
        RefinementPriority::High => "High",
        RefinementPriority::Medium => "Medium",
        RefinementPriority::Low => "Low",
    }
}

/// The lines that place a refinement within its parent ticket, when known.
pub open spec fn context_info(ctx: Option<RefinementContext>) -> Seq<char> {
    match ctx {
        Some(c) => "\n\nContext Information:\n- Parent Ticket ID: "@ + c.parent_ticket_id@ + "\n- Original Context: "@ + c.original_context@
            + "\n- Term Being Refined: "@ + c.term_being_refined@,
        None => Seq::empty(),
    }
}

/// The prompt asking for a ticket that refines a vague term: the character
/// instructions, the term with its context, reason and priority, where it
/// comes from, and what to produce.
pub open spec fn refinement_prompt(
    character_instructions: Seq<char>,
    r: RefinementRequest,
    ctx: Option<RefinementContext>,
) -> Seq<char> {
    character_instructions + "\n\n## REFINEMENT REQUEST MODE\n\nYou are now in REFINEMENT MODE. Your task is to create a focused ticket that clarifies and refines a specific term that was identified as needing refinement in a previous ticket decomposition.\n\n### Term to Refine:\n**Term:** "@ + r.term@ + "\n**Context:** "@ + r.context@ + "\n**Reason for Refinement:** "@
        + r.reason@ + "\n**Priority:** "@ + refinement_priority_label(r.priority) + context_info(ctx)
        + "\n\n### Instructions:\n1. Create a NEW ticket specifically focused on clarifying this term\n2. The ticket should explore all possible interpretations of the term\n3. Provide specific questions to disambiguate the term\n4. Include technical specification requirements\n5. Consider platform, technology, scale, and implementation constraints\n6. The resulting ticket should enable clear decision-making about this term\n\n### Expected Output:\nCreate a complete TicketDecomposition JSON structure that focuses specifically on refining \""@ + r.term@ + "\". The title should clearly indicate this is a refinement ticket for the specific term.\n\nRespond with ONLY the JSON structure, no additional text or explanations."@
}

/// Builds the prompt that refines a term of a ticket.
pub fn build_refinement_prompt(
    character_instructions: &str,
    refinement_request: &RefinementRequest,
    context: Option<&RefinementContext>,
) -> (r: String)
    ensures
        r@ == refinement_prompt(
            character_instructions@,
            *refinement_request,
            match context {
                Some(c) => Some(*c),
                None => None,
            },
        ),
{
    let mut p = owned(character_instructions);
    append_str(&mut p, "\n\n## REFINEMENT REQUEST MODE\n\nYou are now in REFINEMENT MODE. Your task is to create a focused ticket that clarifies and refines a specific term that was identified as needing refinement in a previous ticket decomposition.\n\n### Term to Refine:\n**Term:** ");
    append_str(&mut p, refinement_request.term.as_str());
    append_str(&mut p, "\n**Context:** ");
    append_str(&mut p, refinement_request.context.as_str());
    append_str(&mut p, "\n**Reason for Refinement:** ");
    append_str(&mut p, refinement_request.reason.as_str());
    append_str(&mut p, "\n**Priority:** ");
    append_str(&mut p, refinement_priority_text(refinement_request.priority));
    match context {
        Some(c) => {
            append_str(&mut p, "\n\nContext Information:\n- Parent Ticket ID: ");
            append_str(&mut p, c.parent_ticket_id.as_str());
            append_str(&mut p, "\n- Original Context: ");
            append_str(&mut p, c.original_context.as_str());
            append_str(&mut p, "\n- Term Being Refined: ");
            append_str(&mut p, c.term_being_refined.as_str());
        },
        None => {},
    }
    append_str(&mut p, "\n\n### Instructions:\n1. Create a NEW ticket specifically focused on clarifying this term\n2. The ticket should explore all possible interpretations of the term\n3. Provide specific questions to disambiguate the term\n4. Include technical specification requirements\n5. Consider platform, technology, scale, and implementation constraints\n6. The resulting ticket should enable clear decision-making about this term\n\n### Expected Output:\nCreate a complete TicketDecomposition JSON structure that focuses specifically on refining \"");
    append_str(&mut p, refinement_request.term.as_str());
    append_str(&mut p, "\". The title should clearly indicate this is a refinement ticket for the specific term.\n\nRespond with ONLY the JSON structure, no additional text or explanations.");
    p
}

/// The prompt asking to decompose a user's request into a ticket.
pub open spec fn decomposition_prompt(character_instructions: Seq<char>, user_input: Seq<char>) -> Seq<
    char,
> {
    character_instructions + "\n\nPlease decompose the following user input into a structured ticket using the exact JSON format specified in the instructions:\n\nUser Input: \""@ + user_input + "\"\n\nRespond with ONLY the JSON structure, no additional text or explanations."@
}

/// Builds the prompt that decomposes a user's request.
pub fn build_decomposition_prompt(character_instructions: &str, user_input: &str) -> (r: String)
    ensures
        r@ == decomposition_prompt(character_instructions@, user_input@),
{
    let mut p = owned(character_instructions);
    append_str(&mut p, "\n\nPlease decompose the following user input into a structured ticket using the exact JSON format specified in the instructions:\n\nUser Input: \"");
    append_str(&mut p, user_input);
    append_str(&mut p, "\"\n\nRespond with ONLY the JSON structure, no additional text or explanations.");
    p
}


/// The items of `parts` with `sep` between each two.
pub open spec fn joined(parts: Seq<Seq<char>>, sep: Seq<char>) -> Seq<char>
    decreases parts.len(),
{
    if parts.len() == 0 {
        Seq::empty()
    } else if parts.len() == 1 {
        parts[0]
    } else {
        joined(parts.drop_last(), sep) + sep + parts.last()
    }
}

/// Joins strings with a separator between each two (`slice::join`).
pub fn join(parts: &Vec<String>, sep: &str) -> (r: String)
    ensures
        r@ == joined(parts@.map_values(|p: String| p@), sep@),
{
    let mut r = String::new();
    let n = parts.len();
    for i in 0..n
        invariant
            n == parts@.len(),
            r@ == joined(parts@.take(i as int).map_values(|p: String| p@), sep@),
    {
        proof {
            assert(parts@.take(i + 1).map_values(|p: String| p@).drop_last() =~= parts@.take(
                i as int,
            ).map_values(|p: String| p@));
        }
        if i > 0 {
            append_str(&mut r, sep);
        }
        append_str(&mut r, parts[i].as_str());
        proof {
            if i == 0 {
                assert(r@ =~= parts@.take(1).map_values(|p: String| p@)[0]);
            }
        }
    }
    proof {
        assert(parts@.take(n as int) =~= parts@);
    }
    r
}

/// How an experience level is printed for debugging (its variant name).
pub open spec fn experience_label(l: ExperienceLevel) -> Seq<char> {
    match l {
        ExperienceLevel::Beginner => "Beginner"@,
        ExperienceLevel::Intermediate => "Intermediate"@,
        ExperienceLevel::Advanced => "Advanced"@,
        ExperienceLevel::Expert => "Expert"@,
    }
}

pub(crate) fn experience_text(l: ExperienceLevel) -> (r: &'static str)
    ensures
        r@ == experience_label(l),
{
    match l {
        ExperienceLevel::Beginner => "Beginner",
        ExperienceLevel::Intermediate => "Intermediate",
        ExperienceLevel::Advanced => "Advanced",
        ExperienceLevel::Expert => "Expert",
    }
}

/// An optional text, or "Not specified".
pub open spec fn or_not_specified(t: Option<String>) -> Seq<char> {
    match t {
        Some(s) => s@,
        None => "Not specified"@,
    }
}

/// The prompt that opens a planning session about a project.
pub open spec fn initial_questions_prompt(project: Seq<char>, c: ProjectConstraints) -> Seq<char> {
    "I'm starting a planning session for: '"@ + project + "'\n            \n            Project context:\n            - Timeline: "@ + or_not_specified(c.timeline) + "\n            - Team size: "@ + decimal(
        match c.team_size {
            Some(n) => n as nat,
            None => 0,
        },
    ) + "\n            - Experience level: "@ + experience_label(c.experience_level) + "\n            - Budget: "@ + or_not_specified(c.budget)
        + "\n            \n            As my planning partner, what are the most important questions we should answer together? \n            Just give me 4-6 critical questions that will help us understand and plan this project effectively.\n            \n            Please respond naturally - I'll extract the questions from whatever format feels right to you."@
}

/// Builds the prompt that opens a planning session.
pub fn build_initial_questions_prompt(project_description: &str, constraints: &ProjectConstraints) -> (r:
    String)
    ensures
        r@ == initial_questions_prompt(project_description@, *constraints),
{
    let mut p = owned("I'm starting a planning session for: '");
    append_str(&mut p, project_description);
    append_str(&mut p, "'\n            \n            Project context:\n            - Timeline: ");
    match &constraints.timeline {
        Some(t) => append_str(&mut p, t.as_str()),
        None => append_str(&mut p, "Not specified"),
    }
    append_str(&mut p, "\n            - Team size: ");
    let team: u32 = match constraints.team_size {
        Some(n) => n,
        None => 0,
    };
    append_str(&mut p, decimal_string(team as usize).as_str());
    append_str(&mut p, "\n            - Experience level: ");
    append_str(&mut p, experience_text(constraints.experience_level));
    append_str(&mut p, "\n            - Budget: ");
    match &constraints.budget {
        Some(b) => append_str(&mut p, b.as_str()),
        None => append_str(&mut p, "Not specified"),
    }
    append_str(&mut p, "\n            \n            As my planning partner, what are the most important questions we should answer together? \n            Just give me 4-6 critical questions that will help us understand and plan this project effectively.\n            \n            Please respond naturally - I'll extract the questions from whatever format feels right to you.");
    p
}

/// The prompt that explores a planning question.
pub open spec fn explore_question_prompt(question: Seq<char>, context: Seq<char>) -> Seq<char> {
    "Let's explore this planning question together: '"@ + question + "'\n            \n            Context: "@ + context + "\n            \n            As my collaborative planning partner, what are different ways we could approach answering this question? \n            Give me 3-4 different perspectives or approaches we could take. Just respond naturally with your ideas."@
}

/// Builds the prompt that explores a planning question.
pub fn build_explore_question_prompt(question: &str, context: &str) -> (r: String)
    ensures
        r@ == explore_question_prompt(question@, context@),
{
    let mut p = owned("Let's explore this planning question together: '");
    append_str(&mut p, question);
    append_str(&mut p, "'\n            \n            Context: ");
    append_str(&mut p, context);
    append_str(&mut p, "\n            \n            As my collaborative planning partner, what are different ways we could approach answering this question? \n            Give me 3-4 different perspectives or approaches we could take. Just respond naturally with your ideas.");
    p
}

/// The prompt that deepens an answer, with its notes joined by commas.
pub open spec fn deepen_answer_prompt(answer: Seq<char>, question: Seq<char>, notes: Seq<Seq<char>>) -> Seq<
    char,
> {
    "We're deepening our exploration of this approach: '"@ + answer + "'\n            \n            Original question: "@ + question + "\n            Our current thinking: "@ + joined(notes, ", "@) + "\n            \n            Let's dig deeper into this. What specific details, considerations, or implications should we explore?\n            What questions does this approach raise? What would we need to figure out to make this work?\n            \n            Share your detailed thoughts on this approach."@
}

/// Builds the prompt that deepens an answer.
pub fn build_deepen_answer_prompt(answer: &str, question: &str, notes: &Vec<String>) -> (r: String)
    ensures
        r@ == deepen_answer_prompt(answer@, question@, notes@.map_values(|n: String| n@)),
{
    let mut p = owned("We're deepening our exploration of this approach: '");
    append_str(&mut p, answer);
    append_str(&mut p, "'\n            \n            Original question: ");
    append_str(&mut p, question);
    append_str(&mut p, "\n            Our current thinking: ");
    append_str(&mut p, join(notes, ", ").as_str());
    append_str(&mut p, "\n            \n            Let's dig deeper into this. What specific details, considerations, or implications should we explore?\n            What questions does this approach raise? What would we need to figure out to make this work?\n            \n            Share your detailed thoughts on this approach.");
    p
}

/// The prompt that asks for follow-up questions, with the notes one per line.
pub open spec fn follow_up_prompt(answer: Seq<char>, question: Seq<char>, notes: Seq<Seq<char>>) -> Seq<
    char,
> {
    "Based on our exploration of '"@ + answer + "'\n            \n            Original question: "@ + question + "\n            Our current answer: "@ + answer + "\n            Exploration notes: "@ + joined(
        notes,
        "\n"@,
    ) + "\n            \n            What new questions does this raise? What do we need to investigate next to build on this understanding? \n            \n            Just give me 2-4 follow-up questions that would help us go deeper."@
}

/// Builds the prompt that asks for follow-up questions.
pub fn build_follow_up_prompt(answer: &str, question: &str, notes: &Vec<String>) -> (r: String)
    ensures
        r@ == follow_up_prompt(answer@, question@, notes@.map_values(|n: String| n@)),
{
    let mut p = owned("Based on our exploration of '");
    append_str(&mut p, answer);
    append_str(&mut p, "'\n            \n            Original question: ");
    append_str(&mut p, question);
    append_str(&mut p, "\n            Our current answer: ");
    append_str(&mut p, answer);
    append_str(&mut p, "\n            Exploration notes: ");
    append_str(&mut p, join(notes, "\n").as_str());
    append_str(&mut p, "\n            \n            What new questions does this raise? What do we need to investigate next to build on this understanding? \n            \n            Just give me 2-4 follow-up questions that would help us go deeper.");
    p
}

} // verus!
