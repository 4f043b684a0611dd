use control_flow::screens::{
    copy_notice, edit_ticket_field, field_copy_text, quick_refine_items, set_term, text_match,
    ticket_actions_for, ticket_details_view, ticket_list_items, update_search_matches,
};
use control_flow::ticket::{
    Complexity, DecomposedTicket, OriginalTicket, Priority, Project, RefinementPriority,
    RefinementRequest, TicketDecomposition, TicketMetadata, TicketStatus, ValidationResults,
};
use control_flow::tui::{SearchState, TicketField};

fn request(term: &str, reason: &str, priority: RefinementPriority) -> RefinementRequest {
    RefinementRequest {
        term: term.to_string(),
        context: format!("{} context", term),
        reason: reason.to_string(),
        priority,
    }
}

fn ticket(title: &str) -> TicketDecomposition {
    TicketDecomposition {
        original_ticket: OriginalTicket {
            title: title.to_string(),
            raw_input: "Build a Fast app".to_string(),
        },
        decomposed_ticket: DecomposedTicket {
            terms: vec![("responsive".to_string(), "Adapts to screens".to_string())],
            terms_needing_refinement: vec![
                request("intuitive", "needs UX guidelines", RefinementPriority::High),
                request("fast", "unclear targets", RefinementPriority::Critical),
            ],
            open_questions: vec!["What platforms?".to_string()],
            engine_questions: vec![],
            validation_method: vec!["User testing".to_string(), "Benchmarks".to_string()],
            validation_results: ValidationResults { mime: "text/plain".to_string(), url: "pending".to_string() },
            metadata: TicketMetadata {
                status: TicketStatus::AwaitingRefinement,
                priority: Priority::High,
                estimated_complexity: Complexity::Medium,
                processed_at: "2024-01-01T00:00:00Z".to_string(),
                engine_version: "1.0".to_string(),
            },
        },
    }
}

#[test]
fn quick_refine_lists_requests() {
    let t = ticket("T");
    let items = quick_refine_items(&t.decomposed_ticket.terms_needing_refinement).unwrap();
    assert_eq!(
        items,
        vec!["1. 🟥 intuitive - needs UX guidelines", "2. 🔥 fast - unclear targets", "← Back"]
    );
    assert_eq!(quick_refine_items(&vec![]).unwrap_err(), "No terms need refinement in this ticket.");
}

#[test]
fn details_view_lists_fields() {
    let mut project = Project::new("p".to_string(), "d".to_string());
    let a = project.add_ticket(ticket("First"), "first");
    let b = project.add_ticket(ticket("Second"), "second");
    project.graph.add_dependency(&b, &a).unwrap();
    let node = project.graph.get_ticket(&a).unwrap();
    let (fields, items) = ticket_details_view(node);
    assert_eq!(fields.len(), 5 + 1 + 2 + 1 + 0 + 2 + 1);
    assert!(matches!(fields[5], TicketField::Terms(ref t) if t == "responsive"));
    assert!(matches!(fields[7], TicketField::ValidationMethod(1)));
    assert!(matches!(fields[11], TicketField::Dependents));
    assert_eq!(
        items,
        vec![
            "📋 Title: First",
            "📝 Raw Input",
            "📊 Status: AwaitingRefinement",
            "🎯 Priority: High",
            "⚡ Complexity: Medium",
            "📚 Term: responsive",
            "✅ Validation Method #1",
            "✅ Validation Method #2",
            "❓ Open Question #1",
            "🔍 🟥 Refinement: intuitive",
            "🔍 🔥 Refinement: fast",
            "⬆️ Dependents (1)",
            "⚙️ Ticket Actions Menu",
            "← Back to ticket list",
        ]
    );
    let actions = ticket_actions_for(Some(node));
    assert_eq!(actions[1], "View refinement requests (2)");
    assert_eq!(actions[4], "View dependents (1)");
    let list = ticket_list_items(&project);
    assert_eq!(list, vec![format!("1. First ({})", a.as_str()), "← Back".to_string()]);
    let empty = Project::new("e".to_string(), "d".to_string());
    assert_eq!(ticket_list_items(&empty), vec!["No tickets found. Create a new ticket.", "← Back"]);
}

#[test]
fn copy_texts_per_field() {
    let mut project = Project::new("p".to_string(), "d".to_string());
    let a = project.add_ticket(ticket("First"), "first");
    let node = project.graph.get_ticket(&a).unwrap();
    assert_eq!(field_copy_text(node, &TicketField::Title), "First");
    assert_eq!(field_copy_text(node, &TicketField::Priority), "High");
    assert_eq!(field_copy_text(node, &TicketField::Terms("responsive".to_string())), "responsive: Adapts to screens");
    assert_eq!(field_copy_text(node, &TicketField::Terms("x".to_string())), "x: [No definition]");
    assert_eq!(field_copy_text(node, &TicketField::ValidationMethod(5)), "[Method not found]");
    assert_eq!(field_copy_text(node, &TicketField::EngineQuestion(0)), "[Question not found]");
    assert_eq!(
        field_copy_text(node, &TicketField::RefinementRequest(1)),
        "Term: fast | Reason: unclear targets"
    );
    assert_eq!(field_copy_text(node, &TicketField::Dependencies), "Dependencies: 0");
    assert_eq!(copy_notice("Title", true, "First"), "✅ Title content copied to clipboard");
    assert_eq!(copy_notice("Title", false, "First"), "📋 Title content (copy manually):\n\nFirst");
}

#[test]
fn edits_apply_to_their_field() {
    let mut t = ticket("T");
    assert!(edit_ticket_field(&mut t, &TicketField::Title, &"New title".to_string()));
    assert_eq!(t.original_ticket.title, "New title");
    assert!(edit_ticket_field(&mut t, &TicketField::Status, &"done".to_string()));
    assert_eq!(t.decomposed_ticket.metadata.status, TicketStatus::Complete);
    assert!(edit_ticket_field(&mut t, &TicketField::Status, &"someday".to_string()));
    assert_eq!(t.decomposed_ticket.metadata.status, TicketStatus::Complete);
    assert!(edit_ticket_field(&mut t, &TicketField::Complexity, &"very high".to_string()));
    assert_eq!(t.decomposed_ticket.metadata.estimated_complexity, Complexity::VeryHigh);
    assert!(edit_ticket_field(&mut t, &TicketField::Terms("responsive".to_string()), &"Fits".to_string()));
    assert!(edit_ticket_field(&mut t, &TicketField::Terms("secure".to_string()), &"Safe".to_string()));
    assert_eq!(
        t.decomposed_ticket.terms,
        vec![("responsive".to_string(), "Fits".to_string()), ("secure".to_string(), "Safe".to_string())]
    );
    assert!(edit_ticket_field(&mut t, &TicketField::ValidationMethod(1), &"Load tests".to_string()));
    assert_eq!(t.decomposed_ticket.validation_method[1], "Load tests");
    assert!(edit_ticket_field(&mut t, &TicketField::OpenQuestion(7), &"ignored".to_string()));
    assert_eq!(t.decomposed_ticket.open_questions, vec!["What platforms?"]);
    assert!(!edit_ticket_field(&mut t, &TicketField::Dependencies, &"x".to_string()));
    assert!(!edit_ticket_field(&mut t, &TicketField::RefinementRequest(0), &"x".to_string()));

    let mut terms = vec![("a".to_string(), "1".to_string())];
    set_term(&mut terms, &"a".to_string(), &"2".to_string());
    assert_eq!(terms, vec![("a".to_string(), "2".to_string())]);
}

#[test]
fn search_finds_title_raw_input_and_terms() {
    let t = ticket("Fast Checkout");
    let mut s = SearchState { query: "FAST".to_string(), matches: vec![], current_match: 5 };
    update_search_matches(Some(&t), &mut s);
    assert_eq!(s.matches.len(), 2);
    assert!(matches!(s.matches[0].field, TicketField::Title));
    assert_eq!((s.matches[0].match_start, s.matches[0].match_end), (0, 4));
    assert!(matches!(s.matches[1].field, TicketField::RawInput));
    assert_eq!((s.matches[1].match_start, s.matches[1].match_end), (8, 12));
    assert_eq!(s.current_match, 0);

    let mut s = SearchState { query: "screens".to_string(), matches: vec![], current_match: 0 };
    update_search_matches(Some(&t), &mut s);
    assert_eq!(s.matches.len(), 1);
    assert_eq!(s.matches[0].text, "responsive: Adapts to screens");
    assert_eq!((s.matches[0].match_start, s.matches[0].match_end), (0, 7));

    let mut s = SearchState { query: String::new(), matches: vec![], current_match: 3 };
    update_search_matches(Some(&t), &mut s);
    assert!(s.matches.is_empty());
    assert_eq!(s.current_match, 0);

    let mut s = SearchState { query: "x".to_string(), matches: vec![], current_match: 3 };
    update_search_matches(None, &mut s);
    assert!(s.matches.is_empty());
    assert_eq!(s.current_match, 3);

    let m = text_match(TicketField::Title, &"Ünïcode fast".to_string(), "ünïcode fast", "fast").unwrap();
    assert_eq!((m.match_start, m.match_end), (10, 14));
}

use control_flow::screens::build_ticket_lines_with_highlight;

#[test]
fn details_panel_highlights_the_selected_field() {
    let mut project = Project::new("p".to_string(), "d".to_string());
    let a = project.add_ticket(ticket("First"), "first");
    let b = project.add_ticket(ticket("Second"), "second");
    project.graph.add_dependency(&b, &a).unwrap();
    let node = project.graph.get_ticket(&a).unwrap();
    let (fields, _) = ticket_details_view(node);
    let lines = build_ticket_lines_with_highlight(node, 5, &fields);
    let texts: Vec<&str> = lines.iter().map(|l| l.text.as_str()).collect();
    assert_eq!(
        texts,
        vec![
            "📋 Title: First",
            "📝 Raw Input",
            "📊 Status: AwaitingRefinement",
            "🎯 Priority: High",
            "⚡ Complexity: Medium",
            "",
            "📚 Term: responsive = Adapts to screens",
            "",
            "✅ Validation #1: User testing",
            "✅ Validation #2: Benchmarks",
            "",
            "❓ Open Question #1: What platforms?",
            "",
            "🔍 🟥 Refinement #1: intuitive - needs UX guidelines",
            "🔍 🔥 Refinement #2: fast - unclear targets",
            "",
            "⬆️ Dependents (1)",
        ]
    );
    let marked: Vec<usize> = lines.iter().enumerate().filter(|(_, l)| l.highlighted).map(|(i, _)| i).collect();
    assert_eq!(marked, vec![6]);
    let lines = build_ticket_lines_with_highlight(node, 11, &fields);
    let marked: Vec<usize> = lines.iter().enumerate().filter(|(_, l)| l.highlighted).map(|(i, _)| i).collect();
    assert_eq!(marked, vec![16]);
    let wrong_kind = vec![TicketField::Title; 6];
    let lines = build_ticket_lines_with_highlight(node, 5, &wrong_kind);
    assert!(lines.iter().all(|l| !l.highlighted));
    let lines = build_ticket_lines_with_highlight(node, 40, &fields);
    assert!(lines.iter().all(|l| !l.highlighted));
}
