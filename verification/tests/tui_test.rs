use control_flow::ticket::{
    Complexity, DecomposedTicket, OriginalTicket, Priority, Project, RefinementPriority,
    RefinementRequest, TicketDecomposition, TicketId, TicketMetadata, TicketStatus, ValidationResults,
};
use control_flow::tui::{
    get_field_actions_with_content, get_field_current_value, get_field_display_name, parse_complexity,
    parse_priority, parse_status, priority_emoji, EditType, LogCollector, LogEntry, TicketField, TuiLayer,
};

#[test]
fn test_tui_navigation_logic() {
    let mut selected_index: usize = 0;
    let mut _scroll_offset: usize = 0;
    let items = vec!["Item 1", "Item 2", "Item 3", "Item 4", "Item 5"];

    selected_index += 1;
    assert_eq!(selected_index, 1);

    selected_index = selected_index.saturating_sub(1);
    assert_eq!(selected_index, 0);

    selected_index = selected_index.saturating_sub(1);
    assert_eq!(selected_index, 0);

    let max_index = items.len().saturating_sub(1);
    selected_index = max_index + 1;
    if selected_index > max_index {
        selected_index = max_index;
    }
    assert_eq!(selected_index, 4);
}

#[test]
fn test_tui_scroll_logic() {
    const VISIBLE_ITEMS: usize = 3;
    let mut selected_index: usize;
    let mut scroll_offset: usize = 0;
    let total_items = 10;

    for i in 0..total_items {
        selected_index = i;

        if selected_index < scroll_offset {
            scroll_offset = selected_index;
        } else if selected_index >= scroll_offset + VISIBLE_ITEMS {
            scroll_offset = selected_index + 1 - VISIBLE_ITEMS;
        }

        assert!(scroll_offset <= selected_index);
        assert!(selected_index < scroll_offset + VISIBLE_ITEMS || selected_index < VISIBLE_ITEMS);
    }
}

#[test]
fn test_refinement_priority_display() {
    let test_cases = vec![
        (RefinementPriority::Critical, "🔥"),
        (RefinementPriority::High, "🟥"),
        (RefinementPriority::Medium, "🟨"),
        (RefinementPriority::Low, "🟩"),
    ];

    for (priority, expected_emoji) in test_cases {
        let emoji = match priority {
            RefinementPriority::Critical => "🔥",
            RefinementPriority::High => "🟥",
            RefinementPriority::Medium => "🟨",
            RefinementPriority::Low => "🟩",
        };
        assert_eq!(emoji, expected_emoji);
        assert_eq!(priority_emoji(priority), expected_emoji);
    }
}

#[test]
fn test_tui_menu_item_formatting() {
    let refinement_request = RefinementRequest {
        term: "user-friendly".to_string(),
        context: "create a user-friendly todo app".to_string(),
        reason: "ambiguous - could mean intuitive interface, accessibility, or minimal design".to_string(),
        priority: RefinementPriority::High,
    };

    let priority_emoji = match refinement_request.priority {
        RefinementPriority::Critical => "🔥",
        RefinementPriority::High => "🟥",
        RefinementPriority::Medium => "🟨",
        RefinementPriority::Low => "🟩",
    };

    let formatted_item = format!("{}. {} {} - {}",
        1,
        priority_emoji,
        refinement_request.term,
        refinement_request.reason
    );

    assert!(formatted_item.contains("🟥"));
    assert!(formatted_item.contains("user-friendly"));
    assert!(formatted_item.contains("ambiguous"));
    assert_eq!(formatted_item, "1. 🟥 user-friendly - ambiguous - could mean intuitive interface, accessibility, or minimal design");
}

#[test]
fn test_tui_state_transitions() {
    #[derive(Debug, Clone, PartialEq)]
    enum TestAppState {
        MainMenu,
        ProjectMenu(String),
        TicketList(String),
        TicketDetail(String, String),
        QuickRefine(String, String),
    }

    let mut state;

    state = TestAppState::ProjectMenu("todo_app".to_string());
    assert_eq!(state, TestAppState::ProjectMenu("todo_app".to_string()));

    state = TestAppState::TicketList("todo_app".to_string());
    assert_eq!(state, TestAppState::TicketList("todo_app".to_string()));

    state = TestAppState::TicketDetail("todo_app".to_string(), "ticket123".to_string());
    assert_eq!(state, TestAppState::TicketDetail("todo_app".to_string(), "ticket123".to_string()));

    state = TestAppState::QuickRefine("todo_app".to_string(), "ticket123".to_string());
    assert_eq!(state, TestAppState::QuickRefine("todo_app".to_string(), "ticket123".to_string()));

    state = TestAppState::MainMenu;
    assert_eq!(state, TestAppState::MainMenu);
}

#[test]
fn test_menu_counts_display() {
    let refinement_count = 3;
    let dependencies_count = 0;
    let dependents_count = 2;

    let menu_items = vec![
        "View ticket details".to_string(),
        format!("View refinement requests ({})", refinement_count),
        format!("Quick refine - show all terms ({})", refinement_count),
        format!("View dependencies ({})", dependencies_count),
        format!("View dependents ({})", dependents_count),
        "← Back".to_string(),
    ];

    assert_eq!(menu_items[1], "View refinement requests (3)");
    assert_eq!(menu_items[2], "Quick refine - show all terms (3)");
    assert_eq!(menu_items[3], "View dependencies (0)");
    assert_eq!(menu_items[4], "View dependents (2)");
}

fn sample_ticket() -> TicketDecomposition {
    TicketDecomposition {
        original_ticket: OriginalTicket {
            title: "TUI Test Ticket".to_string(),
            raw_input: "Create an intuitive and fast application that works well on every screen size".to_string(),
        },
        decomposed_ticket: DecomposedTicket {
            terms: vec![("responsive".to_string(), "Adapts to different screen sizes".to_string())],
            terms_needing_refinement: vec![
                RefinementRequest {
                    term: "intuitive".to_string(),
                    context: "intuitive design".to_string(),
                    reason: "needs UX guidelines".to_string(),
                    priority: RefinementPriority::High,
                },
                RefinementRequest {
                    term: "fast".to_string(),
                    context: "fast performance".to_string(),
                    reason: "unclear performance targets".to_string(),
                    priority: RefinementPriority::Critical,
                },
            ],
            open_questions: vec!["What platforms?".to_string()],
            engine_questions: vec!["Preferred framework?".to_string()],
            validation_method: vec!["User testing".to_string()],
            validation_results: ValidationResults { mime: "text/plain".to_string(), url: "pending".to_string() },
            metadata: TicketMetadata {
                status: TicketStatus::AwaitingRefinement,
                priority: Priority::High,
                estimated_complexity: Complexity::Medium,
                processed_at: "2024-01-01T00:00:00Z".to_string(),
                engine_version: "1.0".to_string(),
            },
        },
    }
}

#[test]
fn field_names_values_and_actions() {
    let mut project = Project::new("p".to_string(), "d".to_string());
    let id = project.add_ticket(sample_ticket(), "sample");

    assert_eq!(get_field_display_name(&TicketField::Terms("x".to_string())), "Term: x");
    assert_eq!(get_field_display_name(&TicketField::ValidationMethod(9)), "Validation #10");
    assert_eq!(get_field_display_name(&TicketField::EngineQuestion(0)), "Engine Q #1");

    let (v, k) = get_field_current_value(Some(&project), &id, &TicketField::Status).unwrap();
    assert_eq!(v, "AwaitingRefinement");
    assert_eq!(k, EditType::StatusSelect);
    let (v, _) = get_field_current_value(Some(&project), &id, &TicketField::RefinementRequest(1)).unwrap();
    assert_eq!(v, "fast - unclear performance targets");
    let (v, _) = get_field_current_value(Some(&project), &id, &TicketField::Terms("nope".to_string())).unwrap();
    assert_eq!(v, "Definition not found");
    assert_eq!(
        get_field_current_value(Some(&project), &id, &TicketField::Dependencies).unwrap_err(),
        "Field type not supported for editing"
    );
    assert_eq!(get_field_current_value(None, &id, &TicketField::Title).unwrap_err(), "No project loaded");
    assert_eq!(
        get_field_current_value(Some(&project), &TicketId::from_text("x"), &TicketField::Title).unwrap_err(),
        "Ticket not found"
    );

    let (actions, context) = get_field_actions_with_content(Some(&project), &id, &TicketField::RawInput);
    assert_eq!(actions, vec!["View full content", "Edit raw input", "Re-decompose ticket", "Copy to clipboard"]);
    assert_eq!(context, "Raw Input: Create an intuitive and fast application that work...");
    let (_, context) = get_field_actions_with_content(Some(&project), &id, &TicketField::RefinementRequest(1));
    assert_eq!(context, "🔥 Refinement #2: fast - unclear performance targets");
    let (actions, context) = get_field_actions_with_content(Some(&project), &id, &TicketField::OpenQuestion(3));
    assert_eq!(actions, vec!["Question not found"]);
    assert_eq!(context, "Open Question #4");
    let (_, context) = get_field_actions_with_content(Some(&project), &id, &TicketField::Dependents);
    assert_eq!(context, "Dependents (0)");
    let (actions, context) = get_field_actions_with_content(None, &id, &TicketField::Title);
    assert_eq!(actions, vec!["No project loaded"]);
    assert_eq!(context, "Unknown");
}

#[test]
fn parsing_edited_values() {
    assert_eq!(parse_status("in progress").unwrap(), TicketStatus::InProgress);
    assert_eq!(parse_status("Done").unwrap(), TicketStatus::Complete);
    assert_eq!(parse_status("later").unwrap_err(), "Invalid status: later");
    assert_eq!(parse_priority("crit").unwrap(), Priority::Critical);
    assert_eq!(parse_priority("urgent").unwrap_err(), "Invalid priority: urgent");
    assert_eq!(parse_complexity("med high").unwrap(), Complexity::MediumHigh);
    assert_eq!(parse_complexity("very").unwrap(), Complexity::VeryHigh);
    assert_eq!(parse_complexity("huge").unwrap_err(), "Invalid complexity: huge");
}

fn entry(m: &str) -> LogEntry {
    LogEntry { timestamp: "00:00:00".to_string(), level: "INFO".to_string(), message: m.to_string(), target: None }
}

#[test]
fn log_collector_keeps_the_most_recent_entries() {
    let mut c = LogCollector::new(2);
    c.add_entry(entry("a"));
    c.add_entry(entry("b"));
    c.add_entry(entry("c"));
    let msgs: Vec<String> = c.get_entries().into_iter().map(|e| e.message).collect();
    assert_eq!(msgs, vec!["b", "c"]);
    c.clear();
    assert!(c.get_entries().is_empty());

    let mut none = LogCollector::new(0);
    none.add_entry(entry("a"));
    assert!(none.get_entries().is_empty());
}

#[test]
fn tui_layer_records_events() {
    let mut layer = TuiLayer::new(LogCollector::new(10));
    layer.record("t".to_string(), "INFO".to_string(), "hello".to_string(), "".to_string());
    layer.record("t".to_string(), "WARN".to_string(), "there".to_string(), "app".to_string());
    let es = layer.collector.get_entries();
    assert_eq!(es.len(), 2);
    assert_eq!(es[0].target, None);
    assert_eq!(es[1].target, Some("app".to_string()));
}
