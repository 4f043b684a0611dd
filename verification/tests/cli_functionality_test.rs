use control_flow::ticket::{
    Complexity, DecomposedTicket, OriginalTicket, Priority, Project, RefinementPriority, RefinementRequest,
    TicketDecomposition, TicketMetadata, TicketStatus, ValidationResults,
};

fn create_todo_app_ticket() -> TicketDecomposition {
    let terms = vec![
        ("todo".to_string(), "A task or item that needs to be completed".to_string()),
        ("CRUD".to_string(), "Create, Read, Update, Delete - basic data operations".to_string()),
        ("responsive".to_string(), "User interface that adapts to different screen sizes".to_string()),
    ];

    let refinement_requests = vec![
        RefinementRequest {
            term: "user-friendly".to_string(),
            context: "create a user-friendly todo app".to_string(),
            reason: "ambiguous - could mean intuitive interface, accessibility, or minimal design".to_string(),
            priority: RefinementPriority::High,
        },
        RefinementRequest {
            term: "modern".to_string(),
            context: "with modern design".to_string(),
            reason: "vague aesthetic requirement - needs specific design guidelines".to_string(),
            priority: RefinementPriority::Medium,
        },
        RefinementRequest {
            term: "efficient".to_string(),
            context: "efficient task management".to_string(),
            reason: "unclear if referring to performance, UX workflow, or data structure efficiency".to_string(),
            priority: RefinementPriority::Critical,
        },
    ];

    TicketDecomposition {
        original_ticket: OriginalTicket {
            title: "Create Todo App".to_string(),
            raw_input: "Create a user-friendly todo app with modern design and efficient task management".to_string(),
        },
        decomposed_ticket: DecomposedTicket {
            terms,
            terms_needing_refinement: refinement_requests,
            open_questions: vec![
                "What platforms should the app support? (web, mobile, desktop)".to_string(),
                "Should users be able to share todo lists with others?".to_string(),
                "What authentication method is preferred?".to_string(),
                "Are there any specific accessibility requirements?".to_string(),
                "What is the expected number of concurrent users?".to_string(),
            ],
            engine_questions: vec![
                "Would you like to use any specific frontend framework?".to_string(),
                "Do you have preferences for the backend technology stack?".to_string(),
            ],
            validation_method: vec![
                "User can create, edit, and delete todo items".to_string(),
                "Interface is responsive on mobile and desktop".to_string(),
                "App loads within 2 seconds on standard connection".to_string(),
            ],
            validation_results: ValidationResults {
                mime: "text/plain".to_string(),
                url: "pending".to_string(),
            },
            metadata: TicketMetadata {
                status: TicketStatus::AwaitingRefinement,
                priority: Priority::High,
                estimated_complexity: Complexity::Medium,
                processed_at: "2024-01-01T00:00:00Z".to_string(),
                engine_version: "1.0".to_string(),
            },
        },
    }
}

fn create_refinement_ticket_for_user_friendly() -> TicketDecomposition {
    let terms = vec![
        ("intuitive".to_string(), "Easy to understand and use without extensive learning".to_string()),
        ("accessibility".to_string(), "Design that accommodates users with disabilities".to_string()),
        ("usability".to_string(), "How effectively and efficiently users can accomplish tasks".to_string()),
    ];

    let refinement_requests = vec![
        RefinementRequest {
            term: "intuitive".to_string(),
            context: "intuitive interface design".to_string(),
            reason: "needs specific UI/UX guidelines and patterns".to_string(),
            priority: RefinementPriority::High,
        },
    ];

    TicketDecomposition {
        original_ticket: OriginalTicket {
            title: "Define User-Friendly Requirements".to_string(),
            raw_input: "Context from parent ticket 'Create Todo App': Create a user-friendly todo app with modern design and efficient task management\n\nTerm being refined: user-friendly\nReason for refinement: ambiguous - could mean intuitive interface, accessibility, or minimal design\nAdditional context: create a user-friendly todo app".to_string(),
        },
        decomposed_ticket: DecomposedTicket {
            terms,
            terms_needing_refinement: refinement_requests,
            open_questions: vec![
                "What accessibility standards should be followed (WCAG 2.1)?".to_string(),
                "Should the interface support keyboard navigation only?".to_string(),
                "What is the target user demographic and technical skill level?".to_string(),
            ],
            engine_questions: vec![
                "Do you have any existing brand guidelines for UI design?".to_string(),
            ],
            validation_method: vec![
                "Interface passes WCAG 2.1 AA accessibility audit".to_string(),
                "User testing shows 90% task completion rate".to_string(),
                "Average time to complete basic tasks under 30 seconds".to_string(),
            ],
            validation_results: ValidationResults {
                mime: "text/plain".to_string(),
                url: "pending".to_string(),
            },
            metadata: TicketMetadata {
                status: TicketStatus::AwaitingRefinement,
                priority: Priority::High,
                estimated_complexity: Complexity::Medium,
                processed_at: "2024-01-01T00:00:00Z".to_string(),
                engine_version: "1.0".to_string(),
            },
        },
    }
}

fn serialized(t: &TicketDecomposition) -> String {
    format!("{:?}|{:?}", t.original_ticket.title, t.original_ticket.raw_input)
}

#[test]
fn test_todo_app_ticket_structure() {
    let ticket = create_todo_app_ticket();

    assert_eq!(ticket.original_ticket.title, "Create Todo App");
    assert!(ticket.original_ticket.raw_input.contains("user-friendly"));
    assert!(ticket.original_ticket.raw_input.contains("modern"));
    assert!(ticket.original_ticket.raw_input.contains("efficient"));

    assert_eq!(ticket.decomposed_ticket.terms.len(), 3);
    assert!(ticket.decomposed_ticket.has_term("todo"));
    assert!(ticket.decomposed_ticket.has_term("CRUD"));
    assert!(ticket.decomposed_ticket.has_term("responsive"));

    assert_eq!(ticket.decomposed_ticket.terms_needing_refinement.len(), 3);

    let refinement_terms: Vec<&str> = ticket.decomposed_ticket.terms_needing_refinement
        .iter()
        .map(|r| r.term.as_str())
        .collect();

    assert!(refinement_terms.contains(&"user-friendly"));
    assert!(refinement_terms.contains(&"modern"));
    assert!(refinement_terms.contains(&"efficient"));

    let critical_terms: Vec<&str> = ticket.decomposed_ticket.terms_needing_refinement
        .iter()
        .filter(|r| matches!(r.priority, RefinementPriority::Critical))
        .map(|r| r.term.as_str())
        .collect();

    assert_eq!(critical_terms.len(), 1);
    assert!(critical_terms.contains(&"efficient"));

    assert!(ticket.decomposed_ticket.open_questions.len() >= 5);
    assert!(ticket.decomposed_ticket.engine_questions.len() >= 2);
    assert!(ticket.decomposed_ticket.validation_method.len() >= 3);
}

#[test]
fn test_refinement_requests_display_format() {
    let ticket = create_todo_app_ticket();

    for (i, request) in ticket.decomposed_ticket.terms_needing_refinement.iter().enumerate() {
        let priority_emoji = match request.priority {
            RefinementPriority::Critical => "🔥",
            RefinementPriority::High => "🟥",
            RefinementPriority::Medium => "🟨",
            RefinementPriority::Low => "🟩",
        };

        let display_line = format!("{}. {} {} - {}",
            i + 1,
            priority_emoji,
            request.term,
            request.reason
        );

        assert!(display_line.contains(&request.term));
        assert!(display_line.contains(&request.reason));
        assert!(display_line.starts_with(&format!("{}.", i + 1)));

        if !request.context.is_empty() && request.context != "Legacy format - context not specified" {
            assert!(!request.context.is_empty());
        }
    }
}

#[test]
fn test_project_with_todo_ticket() {
    let mut project = Project::new("todo_app".to_string(), "making a todo app".to_string());

    let ticket = create_todo_app_ticket();
    let s = serialized(&ticket);
    let ticket_id = project.add_ticket(ticket, &s);

    assert_eq!(project.graph.nodes.len(), 1);

    let stored_node = project.graph.get_ticket(&ticket_id).unwrap();
    assert_eq!(stored_node.ticket.original_ticket.title, "Create Todo App");

    let refinement_count = stored_node.ticket.decomposed_ticket.terms_needing_refinement.len();
    assert_eq!(refinement_count, 3);

    assert_eq!(stored_node.ticket.decomposed_ticket.terms_needing_refinement.len(), 3);

    let root_tickets = project.get_root_tickets();
    assert_eq!(root_tickets.len(), 1);
    assert_eq!(root_tickets[0], &ticket_id);
}

#[test]
fn test_refinement_context_generation() {
    let ticket = create_todo_app_ticket();

    let refinement_request = &ticket.decomposed_ticket.terms_needing_refinement[0];

    let refinement_context = format!(
        "Context from parent ticket '{}': {}\n\nTerm being refined: {}\nReason for refinement: {}\nAdditional context: {}",
        ticket.original_ticket.title,
        ticket.original_ticket.raw_input,
        refinement_request.term,
        refinement_request.reason,
        refinement_request.context
    );

    assert!(refinement_context.contains("Create Todo App"));
    assert!(refinement_context.contains("user-friendly todo app"));
    assert!(refinement_context.contains("user-friendly"));
    assert!(refinement_context.contains("ambiguous - could mean intuitive interface"));
    assert!(refinement_context.contains("create a user-friendly todo app"));
}

#[test]
fn test_refinement_workflow_simulation() {
    let mut project = Project::new("todo_app".to_string(), "making a todo app".to_string());

    let original_ticket = create_todo_app_ticket();
    let s = serialized(&original_ticket);
    let parent_ticket_id = project.add_ticket(original_ticket, &s);

    let parent_node = project.graph.get_ticket(&parent_ticket_id).unwrap();
    let refinement_request = &parent_node.ticket.decomposed_ticket.terms_needing_refinement[0];

    assert_eq!(refinement_request.term, "user-friendly");
    assert_eq!(refinement_request.priority, RefinementPriority::High);

    let refinement_context = format!(
        "Context from parent ticket '{}': {}\n\nTerm being refined: {}\nReason for refinement: {}\nAdditional context: {}",
        parent_node.ticket.original_ticket.title,
        parent_node.ticket.original_ticket.raw_input,
        refinement_request.term,
        refinement_request.reason,
        refinement_request.context
    );

    assert!(refinement_context.contains("Create Todo App"));
    assert!(refinement_context.contains("user-friendly"));
    assert!(refinement_context.contains("ambiguous - could mean intuitive interface"));

    let refinement_ticket = create_refinement_ticket_for_user_friendly();
    let s = serialized(&refinement_ticket);
    let refinement_ticket_id = project.add_ticket(refinement_ticket, &s);

    let dependency_result = project.graph.add_dependency(&refinement_ticket_id, &parent_ticket_id);
    assert!(dependency_result.is_ok());

    let dependencies = project.graph.get_dependencies(&refinement_ticket_id).unwrap();
    assert!(dependencies.contains(&parent_ticket_id));

    let dependents = project.graph.get_dependents(&parent_ticket_id).unwrap();
    assert!(dependents.contains(&refinement_ticket_id));

    assert_eq!(project.graph.nodes.len(), 2);

    let root_tickets = project.get_root_tickets();
    assert_eq!(root_tickets.len(), 1);
    assert_eq!(root_tickets[0], &parent_ticket_id);
}

#[test]
fn test_all_cli_options_with_todo_app() {
    let mut project = Project::new("todo_app".to_string(), "making a todo app".to_string());
    let ticket = create_todo_app_ticket();
    let s = serialized(&ticket);
    let ticket_id = project.add_ticket(ticket, &s);

    let node = project.graph.get_ticket(&ticket_id).unwrap();

    assert_eq!(node.ticket.decomposed_ticket.terms.len(), 3);
    assert_eq!(node.ticket.decomposed_ticket.terms_needing_refinement.len(), 3);

    let mut critical_count = 0;
    let mut high_count = 0;
    let mut medium_count = 0;
    let mut low_count = 0;

    for request in node.ticket.decomposed_ticket.terms_needing_refinement.iter() {
        match request.priority {
            RefinementPriority::Critical => critical_count += 1,
            RefinementPriority::High => high_count += 1,
            RefinementPriority::Medium => medium_count += 1,
            RefinementPriority::Low => low_count += 1,
        };
    }

    assert_eq!(critical_count, 1, "Should have exactly 1 critical term");
    assert_eq!(high_count, 1, "Should have exactly 1 high priority term");
    assert_eq!(medium_count, 1, "Should have exactly 1 medium priority term");
    assert_eq!(low_count, 0, "Should have 0 low priority terms");

    assert_eq!(node.dependencies.len(), 0, "Root ticket should have no dependencies");
    assert_eq!(node.dependents.len(), 0, "New ticket should have no dependents yet");
}
