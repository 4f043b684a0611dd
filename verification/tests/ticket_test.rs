use control_flow::ticket::{
    DecomposedTicket, OriginalTicket, Priority, Project, RefinementKey, RefinementPriority,
    RefinementRequest, RefinementRequestBuilder, RefinementRequestError, TicketDecomposition,
    TicketGraph, TicketId, TicketMetadata, TicketStatus, Complexity, ValidationResults, classify_key,
};

fn create_test_ticket() -> TicketDecomposition {
    TicketDecomposition {
        original_ticket: OriginalTicket {
            title: "Test Ticket".to_string(),
            raw_input: "Create a test ticket".to_string(),
        },
        decomposed_ticket: DecomposedTicket {
            terms: vec![],
            terms_needing_refinement: vec![],
            open_questions: vec![],
            engine_questions: vec![],
            validation_method: vec![],
            validation_results: ValidationResults {
                mime: "text/plain".to_string(),
                url: "placeholder".to_string(),
            },
            metadata: TicketMetadata {
                status: TicketStatus::AwaitingRefinement,
                priority: Priority::Medium,
                estimated_complexity: Complexity::Low,
                processed_at: "2024-01-01T00:00:00Z".to_string(),
                engine_version: "1.0".to_string(),
            },
        },
    }
}

/// The serialized form the ticket's identifier is computed from.
fn serialized(t: &TicketDecomposition) -> String {
    format!(
        "{{\"originalTicket\":{{\"title\":{:?},\"rawInput\":{:?}}}}}",
        t.original_ticket.title, t.original_ticket.raw_input
    )
}

fn add(graph: &mut TicketGraph, t: TicketDecomposition) -> TicketId {
    let s = serialized(&t);
    graph.add_ticket(t, &s)
}

#[test]
fn test_ticket_id_generation() {
    let ticket1 = create_test_ticket();
    let ticket2 = create_test_ticket();

    let id1 = TicketId::generate(&serialized(&ticket1));
    let id2 = TicketId::generate(&serialized(&ticket2));

    assert_eq!(id1, id2);
    assert_eq!(id1.as_str().len(), 16);
}

#[test]
fn test_ticket_graph_operations() {
    let mut graph = TicketGraph::new();

    let ticket1 = create_test_ticket();
    let ticket2 = create_test_ticket();

    let id1 = add(&mut graph, ticket1);
    let id2 = add(&mut graph, ticket2);

    assert_eq!(graph.nodes.len(), 1);
    assert!(graph.get_ticket(&id1).is_some());
    assert_eq!(id1, id2);
}

#[test]
fn test_dependencies() {
    let mut graph = TicketGraph::new();

    let mut ticket1 = create_test_ticket();
    ticket1.original_ticket.title = "Ticket 1".to_string();

    let mut ticket2 = create_test_ticket();
    ticket2.original_ticket.title = "Ticket 2".to_string();

    let id1 = add(&mut graph, ticket1);
    let id2 = add(&mut graph, ticket2);

    assert!(graph.add_dependency(&id2, &id1).is_ok());

    let deps = graph.get_dependencies(&id2).unwrap();
    assert!(deps.contains(&id1));

    let dependents = graph.get_dependents(&id1).unwrap();
    assert!(dependents.contains(&id2));
}

#[test]
fn test_cycle_detection() {
    let mut graph = TicketGraph::new();

    let mut ticket1 = create_test_ticket();
    ticket1.original_ticket.title = "Ticket 1".to_string();

    let mut ticket2 = create_test_ticket();
    ticket2.original_ticket.title = "Ticket 2".to_string();

    let id1 = add(&mut graph, ticket1);
    let id2 = add(&mut graph, ticket2);

    assert!(graph.add_dependency(&id2, &id1).is_ok());
    assert!(graph.add_dependency(&id1, &id2).is_err());
}

#[test]
fn test_project_creation() {
    let project = Project::new("Test Project".to_string(), "A test project".to_string());

    assert_eq!(project.name, "Test Project");
    assert_eq!(project.description, "A test project");
    assert_eq!(project.graph.nodes.len(), 0);
}

#[test]
fn test_refinement_request() {
    let refinement = RefinementRequest {
        term: "API".to_string(),
        context: "Web service context".to_string(),
        reason: "Need technical specification".to_string(),
        priority: RefinementPriority::High,
    };

    assert_eq!(refinement.term, "API");
    assert_eq!(refinement.context, "Web service context");
    assert!(matches!(refinement.priority, RefinementPriority::High));
}

#[test]
fn test_refinement_request_deserialization_from_string() {
    let refinement = RefinementRequest::from_legacy_term("user interface");

    assert_eq!(refinement.term, "user interface");
    assert_eq!(refinement.context, "Legacy format - context not specified");
    assert_eq!(refinement.reason, "Needs refinement (converted from legacy string format)");
    assert!(matches!(refinement.priority, RefinementPriority::Medium));
}

/// Reads a stored request given as (key, value) pairs, the way the storage
/// layer feeds the builder.
fn read_fields(fields: &[(&str, &str)]) -> Result<RefinementRequest, RefinementRequestError> {
    let mut b = RefinementRequestBuilder::new();
    for (k, v) in fields {
        let key = classify_key(k);
        b.check_key(key)?;
        match key {
            RefinementKey::Term => b.set_term(v.to_string()),
            RefinementKey::Context => b.set_context(v.to_string()),
            RefinementKey::Reason => b.set_reason(v.to_string()),
            RefinementKey::Priority => b.set_priority(match *v {
                "LOW" => RefinementPriority::Low,
                "HIGH" => RefinementPriority::High,
                "CRITICAL" => RefinementPriority::Critical,
                _ => RefinementPriority::Medium,
            }),
            RefinementKey::Other => {}
        }
    }
    b.finish()
}

#[test]
fn test_refinement_request_deserialization_from_object() {
    let refinement = read_fields(&[
        ("term", "user-friendly"),
        ("context", "create a user-friendly interface"),
        ("reason", "ambiguous - could mean accessible, intuitive, minimalist, or mobile-responsive"),
        ("priority", "HIGH"),
    ])
    .unwrap();

    assert_eq!(refinement.term, "user-friendly");
    assert_eq!(refinement.context, "create a user-friendly interface");
    assert_eq!(refinement.reason, "ambiguous - could mean accessible, intuitive, minimalist, or mobile-responsive");
    assert!(matches!(refinement.priority, RefinementPriority::High));
}

#[test]
fn test_refinement_request_partial_object() {
    let refinement = read_fields(&[("term", "scalable")]).unwrap();

    assert_eq!(refinement.term, "scalable");
    assert_eq!(refinement.context, "Context not specified");
    assert_eq!(refinement.reason, "Needs refinement");
    assert!(matches!(refinement.priority, RefinementPriority::Medium));
}

#[test]
fn test_mixed_refinement_formats_in_array() {
    let refinements = vec![
        RefinementRequest::from_legacy_term("legacy string term"),
        read_fields(&[
            ("term", "structured term"),
            ("context", "in the requirements"),
            ("reason", "needs clarification"),
            ("priority", "LOW"),
        ])
        .unwrap(),
    ];
    assert_eq!(refinements.len(), 2);

    assert_eq!(refinements[0].term, "legacy string term");
    assert_eq!(refinements[0].context, "Legacy format - context not specified");

    assert_eq!(refinements[1].term, "structured term");
    assert_eq!(refinements[1].context, "in the requirements");
    assert_eq!(refinements[1].reason, "needs clarification");
    assert!(matches!(refinements[1].priority, RefinementPriority::Low));
}

#[test]
fn refinement_request_missing_term_is_refused() {
    let r = read_fields(&[("context", "somewhere"), ("unknown", "ignored")]);
    assert_eq!(r.unwrap_err(), RefinementRequestError::MissingField("term"));
}

#[test]
fn refinement_request_duplicate_field_is_refused() {
    let r = read_fields(&[("term", "a"), ("reason", "b"), ("reason", "c")]);
    assert_eq!(r.unwrap_err(), RefinementRequestError::DuplicateField("reason"));
}

#[test]
fn ticket_id_is_sixteen_hex_digits_of_the_digest() {
    // SHA-256 of the empty text starts with e3b0c44298fc1c14.
    assert_eq!(TicketId::generate("").as_str(), "e3b0c44298fc1c14");
    // SHA-256 of "abc" starts with ba7816bf8f01cfea.
    assert_eq!(TicketId::generate("abc").as_str(), "ba7816bf8f01cfea");
}

#[test]
fn dependency_errors_name_the_missing_ticket() {
    let mut graph = TicketGraph::new();
    let id1 = add(&mut graph, create_test_ticket());
    let missing = TicketId::from_text("0000000000000000");
    assert_eq!(
        graph.add_dependency(&missing, &id1).unwrap_err(),
        "Dependent ticket 0000000000000000 not found"
    );
    assert_eq!(
        graph.add_dependency(&id1, &missing).unwrap_err(),
        "Dependency ticket 0000000000000000 not found"
    );
    assert_eq!(
        graph.add_dependency(&id1, &id1).unwrap_err(),
        "Adding this dependency would create a cycle"
    );
}

#[test]
fn longer_cycles_are_refused_and_removal_restores() {
    let mut graph = TicketGraph::new();
    let mut ids = Vec::new();
    for i in 0..4 {
        let mut t = create_test_ticket();
        t.original_ticket.title = format!("Ticket {}", i);
        ids.push(add(&mut graph, t));
    }
    // 0 -> 1 -> 2 -> 3
    assert!(graph.add_dependency(&ids[0], &ids[1]).is_ok());
    assert!(graph.add_dependency(&ids[1], &ids[2]).is_ok());
    assert!(graph.add_dependency(&ids[2], &ids[3]).is_ok());
    assert!(graph.would_create_cycle(&ids[3], &ids[0]));
    assert!(graph.add_dependency(&ids[3], &ids[0]).is_err());
    assert!(!graph.would_create_cycle(&ids[0], &ids[3]));
    assert!(graph.add_dependency(&ids[0], &ids[3]).is_ok());

    // Only ticket 3 depends on nothing; only ticket 0 has no dependents.
    let roots: Vec<String> = graph.get_root_tickets().iter().map(|t| t.as_str().to_string()).collect();
    assert_eq!(roots, vec![ids[3].as_str().to_string()]);
    let leaves: Vec<String> = graph.get_leaf_tickets().iter().map(|t| t.as_str().to_string()).collect();
    assert_eq!(leaves, vec![ids[0].as_str().to_string()]);

    graph.remove_dependency(&ids[2], &ids[3]);
    assert!(!graph.get_dependencies(&ids[2]).unwrap().contains(&ids[3]));
    assert!(!graph.get_dependents(&ids[3]).unwrap().contains(&ids[2]));
    assert!(graph.add_dependency(&ids[3], &ids[2]).is_ok());
}

#[test]
fn re_adding_a_ticket_resets_its_edges() {
    let mut graph = TicketGraph::new();
    let mut t1 = create_test_ticket();
    t1.original_ticket.title = "A".to_string();
    let mut t2 = create_test_ticket();
    t2.original_ticket.title = "B".to_string();
    let a = add(&mut graph, t1.clone());
    let b = add(&mut graph, t2);
    assert!(graph.add_dependency(&a, &b).is_ok());
    let a2 = add(&mut graph, t1);
    assert_eq!(a, a2);
    assert_eq!(graph.nodes.len(), 2);
    assert!(graph.get_dependencies(&a).unwrap().is_empty());
}

#[test]
fn get_ticket_mut_changes_in_place() {
    let mut graph = TicketGraph::new();
    let a = add(&mut graph, create_test_ticket());
    graph.get_ticket_mut(&a).unwrap().ticket.original_ticket.title = "Renamed".to_string();
    assert_eq!(graph.get_ticket(&a).unwrap().ticket.original_ticket.title, "Renamed");
    assert!(graph.get_ticket_mut(&TicketId::from_text("x")).is_none());
}

#[test]
fn a_new_graph_is_stamped_once() {
    let g = control_flow::ticket::TicketGraph::new();
    assert!(g.nodes.is_empty());
    assert!(!g.created_at.is_empty());
    assert_eq!(g.created_at, g.updated_at);
}

#[test]
fn a_new_project_is_stamped_once() {
    let project = Project::new("Test Project".to_string(), "A test project".to_string());
    assert!(!project.created_at.is_empty());
    assert_eq!(project.created_at, project.updated_at);
}
