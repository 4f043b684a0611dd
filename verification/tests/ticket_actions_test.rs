use control_flow::ticket::{
    Complexity, DecomposedTicket, OriginalTicket, Priority, Project, RefinementPriority, TicketDecomposition, TicketId,
    TicketMetadata, TicketStatus, ValidationResults,
};
use control_flow::ticket_actions::{
    answer_question_input, dependency_candidates, dependency_selection_state, file_refinement,
    refinement_filed_notice, related_references, related_terms_state, term_refinement_context,
    term_refinement_context_for, term_refinement_request, ticket_filed_notice,
};
use control_flow::ticket_actions::{
    action_notice, answered_state, copy_field, details_view_pick, field_action_kind, field_edit_state,
    field_selection_state, input_route, next_match, pick_field_action, quick_refine_step, ticket_list_pick,
    DetailsPick, FieldActionKind, InputRoute, QuickRefineStep,
};
use control_flow::tui::{AppState, EditType, InputState, SearchMatch, SearchState, TicketField};

fn ticket(title: &str, raw: &str, terms: Vec<(&str, &str)>) -> TicketDecomposition {
    TicketDecomposition {
        original_ticket: OriginalTicket { title: title.to_string(), raw_input: raw.to_string() },
        decomposed_ticket: DecomposedTicket {
            terms: terms.into_iter().map(|(t, d)| (t.to_string(), d.to_string())).collect(),
            terms_needing_refinement: vec![],
            open_questions: vec!["Which users?".to_string()],
            engine_questions: vec!["Which database?".to_string()],
            validation_method: vec![],
            validation_results: ValidationResults { mime: "text/plain".to_string(), url: "pending".to_string() },
            metadata: TicketMetadata {
                status: TicketStatus::InProgress,
                priority: Priority::Medium,
                estimated_complexity: Complexity::Low,
                processed_at: "2024-01-01T00:00:00Z".to_string(),
                engine_version: "1.0".to_string(),
            },
        },
    }
}

fn project() -> (Project, TicketId, TicketId, TicketId) {
    let mut p = Project::new("p".to_string(), "d".to_string());
    let a = p.add_ticket(ticket("Todo app", "make a todo app", vec![("Task", "A thing to do")]), "one");
    let b = p.add_ticket(ticket("Sync", "keep TASKS in sync", vec![("Tasker", "runs things"), ("Cloud", "remote")]), "two");
    let c = p.add_ticket(ticket("Login", "let users in", vec![("sk", "short")]), "three");
    (p, a, b, c)
}

#[test]
fn questions_open_an_answer_prompt() {
    let (p, a, _, _) = project();
    let s = answer_question_input(Some(&p), "p".to_string(), &a, &TicketField::OpenQuestion(0)).unwrap();
    assert_eq!(s.title, "Answer Question");
    assert_eq!(s.prompt, "Question: Which users?\n\nEnter your answer:");
    assert!(s.input.is_empty());
    assert!(matches!(&*s.return_state, AppState::TicketDetailsView(n, id) if n == "p" && id.as_str() == a.as_str()));
    let e = answer_question_input(Some(&p), "p".to_string(), &a, &TicketField::EngineQuestion(0)).unwrap();
    assert_eq!(e.prompt, "Question: Which database?\n\nEnter your answer:");
    assert_eq!(
        answer_question_input(Some(&p), "p".to_string(), &a, &TicketField::OpenQuestion(4)).unwrap_err(),
        "Question not found"
    );
    assert_eq!(
        answer_question_input(None, "p".to_string(), &a, &TicketField::OpenQuestion(0)).unwrap_err(),
        "Question not found"
    );
    assert_eq!(
        answer_question_input(Some(&p), "p".to_string(), &a, &TicketField::Title).unwrap_err(),
        "Invalid field for question answering"
    );
}

#[test]
fn a_term_refinement_starts_from_its_context() {
    let (p, a, _, _) = project();
    let (term, context) = term_refinement_context(Some(&p), &a, &TicketField::Terms("Task".to_string())).unwrap();
    assert_eq!(term, "Task");
    assert_eq!(
        context,
        "Context from parent ticket 'Todo app': make a todo app\n\nTerm being refined: Task\nCurrent definition: A thing to do\n\nPlease provide a more detailed definition for this term."
    );
    let (_, missing) = term_refinement_context(Some(&p), &a, &TicketField::Terms("Nope".to_string())).unwrap();
    assert!(missing.contains("Current definition: Definition not found\n"));
    assert_eq!(term_refinement_context(None, &a, &TicketField::Terms("Task".to_string())).unwrap_err(), "No project loaded");
    let ghost = TicketId::from_text("0000");
    assert_eq!(
        term_refinement_context(Some(&p), &ghost, &TicketField::Terms("Task".to_string())).unwrap_err(),
        "Ticket not found"
    );
    assert_eq!(
        term_refinement_context(Some(&p), &a, &TicketField::Status).unwrap_err(),
        "Invalid field for term refinement"
    );
    let r = term_refinement_request("Task".to_string(), "ctx".to_string());
    assert_eq!(r.reason, "Term 'Task' needs refinement for clarity");
    assert_eq!(r.priority, RefinementPriority::Medium);
    let c = term_refinement_context_for(a.clone(), "Task".to_string(), "ctx".to_string());
    assert_eq!(c.parent_ticket_id.as_str(), a.as_str());
    assert!(c.additional_context.is_empty());
}

#[test]
fn a_filed_refinement_depends_on_its_parent() {
    let (mut p, a, _, _) = project();
    let id = file_refinement(&mut p, &a, ticket("Refine Task", "more", vec![]), "four").unwrap();
    assert_eq!(p.graph.nodes.len(), 4);
    let deps = p.graph.get_dependencies(&id).unwrap();
    assert_eq!(deps.len(), 1);
    assert_eq!(deps[0].as_str(), a.as_str());
    assert_eq!(p.graph.get_dependents(&a).unwrap()[0].as_str(), id.as_str());
    let ghost = TicketId::from_text("0000");
    let err = file_refinement(&mut p, &ghost, ticket("Orphan", "x", vec![]), "five").unwrap_err();
    assert_eq!(err, "Failed to link refinement dependency: Dependency ticket 0000 not found");
    assert_eq!(p.graph.nodes.len(), 5);
    assert_eq!(refinement_filed_notice("Task", &id), format!("✅ Refinement ticket created for term 'Task': {}", id.as_str()));
    assert_eq!(ticket_filed_notice(&id), format!("✅ Ticket created successfully! ID: {}", id.as_str()));
}

#[test]
fn references_to_a_term_are_found_in_other_tickets() {
    let (p, a, b, c) = project();
    let refs = related_references(&p, &a, "Task");
    assert_eq!(
        refs,
        vec![
            format!("🎫 {}: Tasker = runs things", b.as_str()),
            format!("🎫 {}: Sync (in content)", b.as_str()),
            format!("🎫 {}: sk = short", c.as_str()),
        ]
    );
    match related_terms_state(Some(&p), &a, &TicketField::Terms("Task".to_string())) {
        AppState::Loading(m) => assert_eq!(m, "✅ Found 3 related references to 'Task' across project"),
        _ => panic!("expected a notice"),
    }
    match related_terms_state(Some(&p), &a, &TicketField::Terms("zebra".to_string())) {
        AppState::Loading(m) => assert_eq!(m, "No related terms found for 'zebra'"),
        _ => panic!("expected a notice"),
    }
    assert!(matches!(related_terms_state(None, &a, &TicketField::Terms("x".to_string())), AppState::Error(e) if e == "No project loaded"));
    assert!(matches!(related_terms_state(Some(&p), &a, &TicketField::Title), AppState::Error(e) if e == "Invalid field for term search"));
}

#[test]
fn dependency_candidates_are_the_other_tickets() {
    let (p, a, b, c) = project();
    let cands = dependency_candidates(&p, &b);
    assert_eq!(cands.len(), 2);
    assert_eq!((cands[0].0.as_str(), cands[0].1.as_str()), (a.as_str(), "Todo app"));
    assert_eq!((cands[1].0.as_str(), cands[1].1.as_str()), (c.as_str(), "Login"));
    match dependency_selection_state(&p, &b) {
        AppState::Loading(m) => assert_eq!(
            m,
            "Select a ticket to add as a dependency to 'Sync'\n\nPress number to select, or ESC to cancel:\n\n1. Todo app\n2. Login\n\n(Dependency selection interface - press ESC to return)"
        ),
        _ => panic!("expected the list"),
    }
    let mut lone = Project::new("l".to_string(), "d".to_string());
    let only = lone.add_ticket(ticket("Only", "x", vec![]), "x");
    assert!(matches!(dependency_selection_state(&lone, &only), AppState::Error(e) if e == "No other tickets available to create dependencies"));
}

#[test]
fn field_edits_start_from_the_current_value() {
    let (p, a, _, _) = project();
    let e = field_edit_state(Some(&p), &a, &TicketField::Title).unwrap();
    assert_eq!(e.current_value, "Todo app");
    assert_eq!(e.original_value, "Todo app");
    assert_eq!(e.edit_type, EditType::TextEdit);
    assert!(!e.is_modified);
    let s = field_selection_state(Some(&p), &a, &TicketField::Priority).unwrap();
    assert_eq!(s.edit_type, EditType::PrioritySelect);
    assert_eq!(s.current_value, "Medium");
    assert_eq!(field_selection_state(Some(&p), &a, &TicketField::Title).unwrap_err(), "Field does not support selection");
    assert_eq!(field_edit_state(None, &a, &TicketField::Title).unwrap_err(), "No project loaded");
    assert_eq!(field_edit_state(Some(&p), &a, &TicketField::Dependencies).unwrap_err(), "Field type not supported for editing");
    assert!(matches!(copy_field(&TicketField::Terms("x".to_string())), TicketField::Terms(t) if t == "x"));
}

#[test]
fn field_actions_are_read_from_their_labels() {
    assert_eq!(field_action_kind("Edit definition"), FieldActionKind::Edit);
    assert_eq!(field_action_kind("View full definition"), FieldActionKind::View);
    assert_eq!(field_action_kind("Change status"), FieldActionKind::Change);
    assert_eq!(field_action_kind("Create refinement ticket"), FieldActionKind::RefineTerm);
    assert_eq!(field_action_kind("Find related terms"), FieldActionKind::FindRelated);
    assert_eq!(field_action_kind("Answer question"), FieldActionKind::AnswerQuestion);
    assert_eq!(field_action_kind("Add new dependency"), FieldActionKind::AddDependency);
    assert_eq!(field_action_kind("Copy term and definition"), FieldActionKind::Copy);
    assert_eq!(field_action_kind("Create research ticket"), FieldActionKind::ResearchTicket);
    assert_eq!(field_action_kind("Mark as resolved"), FieldActionKind::MarkResolved);
    assert_eq!(field_action_kind("Navigate to dependency"), FieldActionKind::NavigateRelated);
    assert_eq!(field_action_kind("Remove dependency"), FieldActionKind::Other);
    let actions = vec!["Edit title".to_string(), "Copy title".to_string()];
    assert_eq!(pick_field_action(&actions, 1), Ok(FieldActionKind::Copy));
    assert_eq!(pick_field_action(&actions, 2), Err("Invalid action selected".to_string()));
    assert_eq!(action_notice(FieldActionKind::View, "View", "Title").unwrap(), "Viewing full content of Title");
    assert_eq!(action_notice(FieldActionKind::MarkResolved, "x", "Open Q #1").unwrap(), "✅ Marked as resolved (Open Q #1)");
    assert_eq!(action_notice(FieldActionKind::Other, "Remove dependency", "Dependencies").unwrap(), "Executing: Remove dependency on Dependencies");
    assert!(action_notice(FieldActionKind::Edit, "Edit", "Title").is_none());
}

#[test]
fn details_search_quick_refine_and_input_steps() {
    assert_eq!(details_view_pick(9, 10, 7), DetailsPick::BackToList);
    assert_eq!(details_view_pick(8, 10, 7), DetailsPick::ActionsMenu);
    assert_eq!(details_view_pick(3, 10, 7), DetailsPick::Field(3));
    assert_eq!(details_view_pick(7, 10, 7), DetailsPick::Nothing);

    let m = |i: usize| SearchMatch { field: TicketField::Title, text: format!("m{}", i), match_start: 0, match_end: 1 };
    let s = SearchState { query: "m".to_string(), matches: vec![m(0), m(1), m(2)], current_match: 2 };
    assert_eq!(next_match(s).current_match, 0);
    let s = SearchState { query: "m".to_string(), matches: vec![m(0), m(1)], current_match: 0 };
    assert_eq!(next_match(s).current_match, 1);
    let none = SearchState { query: "z".to_string(), matches: vec![], current_match: 0 };
    assert_eq!(next_match(none).current_match, 0);

    let mut p = Project::new("p".to_string(), "d".to_string());
    let mut t = ticket("T", "r", vec![]);
    t.decomposed_ticket.terms_needing_refinement = vec![control_flow::ticket::RefinementRequest::from_legacy_term("fast")];
    let id = p.add_ticket(t, "t");
    assert_eq!(quick_refine_step(Some(&p), &id, 0), QuickRefineStep::Refining("Creating refinement ticket for 'fast'...".to_string()));
    assert_eq!(quick_refine_step(Some(&p), &id, 1), QuickRefineStep::Back);
    assert_eq!(quick_refine_step(Some(&p), &id, 2), QuickRefineStep::Stay);
    assert_eq!(quick_refine_step(None, &id, 0), QuickRefineStep::Stay);

    let input = |title: &str, back: AppState| InputState {
        title: title.to_string(),
        prompt: String::new(),
        input: String::new(),
        return_state: Box::new(back),
    };
    assert_eq!(input_route(&input("Project name", AppState::CreateProject)), InputRoute::ProjectName);
    assert_eq!(input_route(&input("Project description", AppState::CreateProject)), InputRoute::ProjectDescription);
    assert_eq!(input_route(&input("New ticket", AppState::CreateTicket("p".to_string()))), InputRoute::TicketDescription);
    assert_eq!(
        input_route(&input("Answer Question", AppState::TicketDetailsView("p".to_string(), id.clone()))),
        InputRoute::QuestionAnswer
    );
    assert_eq!(input_route(&input("Other", AppState::MainMenu)), InputRoute::ReturnToPrevious);

    assert!(matches!(answered_state("  \n"), AppState::Error(e) if e == "Answer cannot be empty"));
    assert!(matches!(answered_state("Web and mobile"), AppState::Loading(m) if m == "✅ Question answered: 'Web and mobile'"));
    let long = "a".repeat(60);
    assert!(matches!(answered_state(&long), AppState::Loading(m) if m == format!("✅ Question answered: '{}'", "a".repeat(50))));
}

#[test]
fn the_ticket_list_picks_root_tickets() {
    let (mut p, a, b, _) = project();
    p.graph.add_dependency(&b, &a).unwrap();
    let first = ticket_list_pick(&p, 0).unwrap();
    assert_eq!(first.as_str(), a.as_str());
    assert!(ticket_list_pick(&p, 2).is_none());
}
