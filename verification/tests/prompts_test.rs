use control_flow::prompts::{build_decomposition_prompt, build_refinement_prompt};
use control_flow::ticket::{RefinementContext, RefinementPriority, RefinementRequest, TicketId};

const CHARACTER: &str = "You are a careful planning assistant.";

fn create_test_refinement_request() -> RefinementRequest {
    RefinementRequest {
        term: "user-friendly".to_string(),
        context: "create a user-friendly interface".to_string(),
        reason: "ambiguous - could mean accessible, intuitive, minimalist, or mobile-responsive".to_string(),
        priority: RefinementPriority::High,
    }
}

#[test]
fn test_refinement_prompt_building() {
    let refinement_request = create_test_refinement_request();
    let prompt = build_refinement_prompt(CHARACTER, &refinement_request, None);

    assert!(prompt.contains("user-friendly"));
    assert!(prompt.contains("create a user-friendly interface"));
    assert!(prompt.contains("ambiguous - could mean accessible"));
    assert!(prompt.contains("REFINEMENT MODE"));
}

#[test]
fn test_refinement_prompt_with_context() {
    let refinement_request = create_test_refinement_request();
    let parent_id = TicketId::generate("{\"title\":\"Parent Ticket\",\"raw_input\":\"Original input\"}");
    let context = RefinementContext {
        parent_ticket_id: parent_id.clone(),
        term_being_refined: "user-friendly".to_string(),
        original_context: "UI design requirements".to_string(),
        additional_context: vec![],
    };

    let prompt = build_refinement_prompt(CHARACTER, &refinement_request, Some(&context));

    assert!(prompt.contains("user-friendly"));
    assert!(prompt.contains("Parent Ticket ID"));
    assert!(prompt.contains("UI design requirements"));
}

#[test]
fn refinement_prompt_layout() {
    let r = RefinementRequest {
        term: "fast".to_string(),
        context: "a fast app".to_string(),
        reason: "no target".to_string(),
        priority: RefinementPriority::Critical,
    };
    let ctx = RefinementContext {
        parent_ticket_id: TicketId::from_text("abc123"),
        term_being_refined: "fast".to_string(),
        original_context: "perf".to_string(),
        additional_context: vec![],
    };
    let prompt = build_refinement_prompt("CHAR", &r, Some(&ctx));
    assert!(prompt.starts_with("CHAR\n\n## REFINEMENT REQUEST MODE\n\n"));
    assert!(prompt.contains(
        "### Term to Refine:\n**Term:** fast\n**Context:** a fast app\n**Reason for Refinement:** no target\n**Priority:** Critical\n\nContext Information:\n- Parent Ticket ID: abc123\n- Original Context: perf\n- Term Being Refined: fast\n\n### Instructions:\n1. Create"
    ));
    assert!(prompt.contains("focuses specifically on refining \"fast\". The title"));
    assert!(prompt.ends_with("Respond with ONLY the JSON structure, no additional text or explanations."));
    let plain = build_refinement_prompt("CHAR", &r, None);
    assert!(plain.contains("**Priority:** Critical\n\n### Instructions:"));
}

#[test]
fn decomposition_prompt_layout() {
    assert_eq!(
        build_decomposition_prompt("CHAR", "make a todo app"),
        "CHAR\n\nPlease decompose the following user input into a structured ticket using the exact JSON format specified in the instructions:\n\nUser Input: \"make a todo app\"\n\nRespond with ONLY the JSON structure, no additional text or explanations."
    );
}

use control_flow::prompts::{
    build_deepen_answer_prompt, build_explore_question_prompt, build_follow_up_prompt,
    build_initial_questions_prompt, join,
};
use control_flow::types::{ExperienceLevel, ProjectConstraints};

#[test]
fn planning_prompts_fill_their_slots() {
    let mut c = ProjectConstraints::default();
    c.team_size = Some(4);
    c.budget = Some("$10k".to_string());
    let p = build_initial_questions_prompt("todo app", &c);
    assert!(p.starts_with("I'm starting a planning session for: 'todo app'\n            \n            Project context:\n            - Timeline: Not specified\n            - Team size: 4\n            - Experience level: Intermediate\n            - Budget: $10k\n"));
    assert!(p.ends_with("whatever format feels right to you."));
    c.experience_level = ExperienceLevel::Expert;
    c.team_size = None;
    let p = build_initial_questions_prompt("x", &c);
    assert!(p.contains("- Team size: 0\n"));
    assert!(p.contains("- Experience level: Expert\n"));

    let e = build_explore_question_prompt("Which DB?", "storage");
    assert!(e.starts_with("Let's explore this planning question together: 'Which DB?'\n            \n            Context: storage\n"));
    let notes = vec!["fast".to_string(), "cheap".to_string()];
    let d = build_deepen_answer_prompt("Postgres", "Which DB?", &notes);
    assert!(d.contains("Our current thinking: fast, cheap\n"));
    let f = build_follow_up_prompt("Postgres", "Which DB?", &notes);
    assert!(f.starts_with("Based on our exploration of 'Postgres'\n"));
    assert!(f.contains("Our current answer: Postgres\n            Exploration notes: fast\ncheap\n"));
    assert_eq!(join(&vec![], ", "), "");
    assert_eq!(join(&vec!["a".to_string()], ", "), "a");
}
