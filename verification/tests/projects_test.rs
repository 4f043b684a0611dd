//! The workspace scenarios of the project index. The library decides names,
//! paths and the index; writing and reading the files is done around it, so
//! here the written files are kept in memory, each under the path the
//! library chose for it.
use control_flow::nav::project_list_items;
use control_flow::screens::quick_refine_items as quick_refine_items_of;
use control_flow::tui::priority_emoji;
use control_flow::ticket::{
    classify_key, request_from_fields, Complexity, DecomposedTicket, FieldValue, OriginalTicket, Priority, Project,
    ProjectManager, RefinementKey, RefinementPriority, RefinementRequest, RefinementRequestError, TicketDecomposition,
    TicketMetadata, TicketStatus, ValidationResults,
};
use tempfile::TempDir;

struct Workspace {
    manager: ProjectManager,
    files: Vec<(String, Project)>,
}

impl Workspace {
    fn new(dir: &str) -> Workspace {
        Workspace { manager: ProjectManager::new(dir), files: Vec::new() }
    }

    /// The library's part of creating a project: the name must be new, the
    /// project is written to the planned path, then registered.
    fn create_project(&mut self, name: String, description: String) -> Result<(), String> {
        let path = self.manager.plan_new_project(&name)?;
        let project = Project::new(name.clone(), description);
        self.files.retain(|(p, _)| *p != path);
        self.files.push((path.clone(), project));
        self.manager.register_project(name, path);
        Ok(())
    }

    fn load_project(&self, name: &str) -> Result<&Project, String> {
        let path = self.manager.load_project_path(name)?;
        self.files.iter().find(|(p, _)| p == path).map(|(_, project)| project).ok_or_else(|| "no file".to_string())
    }

    fn delete_project(&mut self, name: &str) -> Result<(), String> {
        let path = self.manager.unregister_project(name)?;
        self.files.retain(|(p, _)| *p != path);
        Ok(())
    }

    fn file_exists(&self, path: &str) -> bool {
        self.files.iter().any(|(p, _)| p == path)
    }

    fn list_projects(&self) -> Vec<String> {
        self.manager.list_projects().into_iter().cloned().collect()
    }
}

fn dir_of(t: &TempDir) -> String {
    t.path().to_str().unwrap().to_string()
}

fn path_in(t: &TempDir, file: &str) -> String {
    t.path().join(file).to_str().unwrap().to_string()
}

#[test]
fn test_project_manager() {
    let temp_dir = TempDir::new().unwrap();
    let mut manager = Workspace::new(&dir_of(&temp_dir));

    assert!(manager.create_project("test-project".to_string(), "Test description".to_string()).is_ok());

    let projects = manager.list_projects();
    assert_eq!(projects.len(), 1);
    assert_eq!(projects[0], "test-project");

    let project = manager.load_project("test-project").unwrap();
    assert_eq!(project.name, "test-project");
    assert_eq!(project.description, "Test description");

    assert!(manager.create_project("test-project".to_string(), "Duplicate".to_string()).is_err());

    assert!(manager.delete_project("test-project").is_ok());
    assert_eq!(manager.list_projects().len(), 0);
}

#[test]
fn test_project_persistence() {
    let temp_dir = TempDir::new().unwrap();
    let mut manager = Workspace::new(&dir_of(&temp_dir));

    manager.create_project("persistent-project".to_string(), "Test persistence".to_string()).unwrap();

    // A new index read back from the stored entries.
    let stored = manager.manager.projects.clone();
    let manager2 = Workspace {
        manager: ProjectManager::load_index(&dir_of(&temp_dir), stored),
        files: manager.files,
    };
    let projects = manager2.list_projects();

    assert_eq!(projects.len(), 1);
    assert_eq!(projects[0], "persistent-project");

    let project = manager2.load_project("persistent-project").unwrap();
    assert_eq!(project.name, "persistent-project");
    assert_eq!(project.description, "Test persistence");
}

#[test]
fn test_project_creation_with_spaces() {
    let temp_dir = TempDir::new().unwrap();
    let mut manager = Workspace::new(&dir_of(&temp_dir));

    assert!(manager.create_project("todo app".to_string(), "A todo application".to_string()).is_ok());

    let projects = manager.list_projects();
    assert_eq!(projects.len(), 1);
    assert_eq!(projects[0], "todo app");

    let project = manager.load_project("todo app").unwrap();
    assert_eq!(project.name, "todo app");
    assert_eq!(project.description, "A todo application");

    let expected_path = path_in(&temp_dir, "todo_app.json");
    assert!(manager.file_exists(&expected_path));
}

#[test]
fn test_project_creation_integration() {
    let temp_dir = TempDir::new().unwrap();
    let workspace_path = dir_of(&temp_dir);

    let mut project_manager = Workspace {
        manager: ProjectManager::load_index(&workspace_path, Vec::new()),
        files: Vec::new(),
    };

    let result = project_manager.create_project("todo app".to_string(), "making a todo app".to_string());
    match result {
        Ok(_) => {
            let projects = project_manager.list_projects();
            assert_eq!(projects.len(), 1);
            assert_eq!(projects[0], "todo app");

            let project = project_manager.load_project("todo app").unwrap();
            assert_eq!(project.name, "todo app");
            assert_eq!(project.description, "making a todo app");

            assert!(project_manager.file_exists(&path_in(&temp_dir, "todo_app.json")));
            assert_eq!(project_manager.manager.index_path(), path_in(&temp_dir, "projects.json"));
        },
        Err(e) => {
            panic!("Project creation failed: {}", e);
        },
    }
}

#[test]
fn test_workspace_directory_creation() {
    let temp_dir = TempDir::new().unwrap();
    let workspace_path = temp_dir.path().join("non_existent_dir").join("control-flow-projects");

    assert!(!workspace_path.exists());

    let workspace = workspace_path.to_str().unwrap().to_string();
    let mut manager = Workspace::new(&workspace);
    assert_eq!(manager.manager.workspace_dir, workspace);

    let result = manager.create_project("test project".to_string(), "test description".to_string());
    assert!(result.is_ok(), "Failed to create project: {:?}", result.err());

    let expected = workspace_path.join("test_project.json").to_str().unwrap().to_string();
    assert!(manager.file_exists(&expected));
}

#[test]
fn test_project_filename_sanitization() {
    let temp_dir = TempDir::new().unwrap();
    let mut manager = Workspace::new(&dir_of(&temp_dir));

    let test_cases = vec![
        ("project with spaces", "project_with_spaces.json"),
        ("project/with/slashes", "project_with_slashes.json"),
        ("project with/mixed problems", "project_with_mixed_problems.json"),
    ];

    for (project_name, expected_filename) in test_cases {
        let result = manager.create_project(project_name.to_string(), "test description".to_string());
        assert!(result.is_ok(), "Failed to create project '{}': {:?}", project_name, result.err());

        let expected_path = path_in(&temp_dir, expected_filename);
        assert!(manager.file_exists(&expected_path), "Expected file '{}' was not created", expected_filename);

        let loaded_project = manager.load_project(project_name).unwrap();
        assert_eq!(loaded_project.name, project_name);
    }
}

#[test]
fn test_multiple_projects() {
    let temp_dir = TempDir::new().unwrap();
    let mut manager = Workspace::new(&dir_of(&temp_dir));

    let projects = vec![
        ("todo app", "A todo application"),
        ("marketing strategy", "Marketing plan for Q1"),
        ("website redesign", "New company website"),
    ];

    for (name, desc) in &projects {
        let result = manager.create_project(name.to_string(), desc.to_string());
        assert!(result.is_ok(), "Failed to create project '{}': {:?}", name, result.err());
    }

    let project_list = manager.list_projects();
    assert_eq!(project_list.len(), 3);

    for (name, desc) in &projects {
        let name_string = name.to_string();
        assert!(project_list.contains(&name_string));
        let project = manager.load_project(name).unwrap();
        assert_eq!(project.name, *name);
        assert_eq!(project.description, *desc);
    }
}

#[test]
fn test_fresh_project_immediately_visible() {
    let temp_dir = TempDir::new().unwrap();
    let workspace_dir = temp_dir.path().join("control-flow-projects").to_str().unwrap().to_string();

    let mut project_manager = Workspace {
        manager: ProjectManager::load_index(&workspace_dir, Vec::new()),
        files: Vec::new(),
    };

    let initial_projects = project_manager.list_projects();
    assert_eq!(initial_projects.len(), 0);

    project_manager.create_project("my_fresh_project".to_string(), "A freshly created project".to_string()).unwrap();

    let projects_after_creation = project_manager.list_projects();
    assert_eq!(projects_after_creation.len(), 1);
    assert_eq!(projects_after_creation[0], "my_fresh_project");

    let loaded_project = project_manager.load_project("my_fresh_project").unwrap();
    assert_eq!(loaded_project.name, "my_fresh_project");
    assert_eq!(loaded_project.description, "A freshly created project");

    let tui_items = project_list_items(&project_manager.list_projects());
    assert_eq!(tui_items, vec!["my_fresh_project", "← Back"]);
}

#[test]
fn test_project_filename_sanitization_debug() {
    let temp_dir = TempDir::new().unwrap();
    let mut manager = Workspace::new(&dir_of(&temp_dir));

    let test_name = "my todo app";
    let result = manager.create_project(test_name.to_string(), "Test description".to_string());
    assert!(result.is_ok(), "Failed to create project: {:?}", result.err());

    let projects = manager.list_projects();
    assert_eq!(projects.len(), 1);
    assert_eq!(projects[0], test_name);

    let expected_filename = test_name.replace(' ', "_") + ".json";
    let expected_path = path_in(&temp_dir, &expected_filename);
    assert!(manager.file_exists(&expected_path));

    let loaded_project = manager.load_project(test_name).unwrap();
    assert_eq!(loaded_project.name, test_name);
}

fn read_fields(fields: &[(&str, &str)]) -> Result<RefinementRequest, RefinementRequestError> {
    let values = fields
        .iter()
        .map(|(k, v)| {
            let value = match classify_key(k) {
                RefinementKey::Priority => FieldValue::Priority(match *v {
                    "LOW" => RefinementPriority::Low,
                    "HIGH" => RefinementPriority::High,
                    "CRITICAL" => RefinementPriority::Critical,
                    _ => RefinementPriority::Medium,
                }),
                RefinementKey::Other => FieldValue::Ignored,
                _ => FieldValue::Text(v.to_string()),
            };
            (k.to_string(), value)
        })
        .collect();
    request_from_fields(values)
}

#[test]
fn test_refinement_request_integration() {
    let refinement = RefinementRequest {
        term: "responsive design".to_string(),
        context: "create a responsive design for mobile".to_string(),
        reason: "needs clarification on breakpoints and devices".to_string(),
        priority: RefinementPriority::High,
    };

    // Its stored fields read back.
    let deserialized = read_fields(&[
        ("term", refinement.term.as_str()),
        ("context", refinement.context.as_str()),
        ("reason", refinement.reason.as_str()),
        ("priority", "HIGH"),
    ])
    .unwrap();
    assert_eq!(deserialized.term, "responsive design");
    assert_eq!(deserialized.context, "create a responsive design for mobile");
    assert_eq!(deserialized.priority, RefinementPriority::High);

    let legacy_refinement = RefinementRequest::from_legacy_term("mobile optimization");
    assert_eq!(legacy_refinement.term, "mobile optimization");
    assert_eq!(legacy_refinement.context, "Legacy format - context not specified");
}

#[test]
fn test_mixed_refinement_formats_in_real_scenario() {
    let terms_needing_refinement = vec![
        RefinementRequest::from_legacy_term("legacy string term"),
        read_fields(&[
            ("term", "structured term"),
            ("context", "in requirements"),
            ("reason", "needs clarification"),
            ("priority", "HIGH"),
        ])
        .unwrap(),
    ];

    assert_eq!(terms_needing_refinement.len(), 2);
    assert_eq!(terms_needing_refinement[0].term, "legacy string term");
    assert_eq!(terms_needing_refinement[0].context, "Legacy format - context not specified");
    assert_eq!(terms_needing_refinement[1].term, "structured term");
    assert_eq!(terms_needing_refinement[1].context, "in requirements");
    assert!(matches!(terms_needing_refinement[1].priority, RefinementPriority::High));
}

#[test]
fn test_tui_with_real_project_data() {
    let temp_dir = TempDir::new().unwrap();
    let mut manager = Workspace::new(&dir_of(&temp_dir));

    manager.create_project("test_tui_project".to_string(), "TUI test project".to_string()).unwrap();
    let path = manager.manager.load_project_path("test_tui_project").unwrap().clone();
    let position = manager.files.iter().position(|(p, _)| *p == path).unwrap();
    let (_, mut project) = manager.files.remove(position);

    let terms = vec![("responsive".to_string(), "Adapts to different screen sizes".to_string())];
    let refinement_requests = vec![
        RefinementRequest {
            term: "intuitive".to_string(),
            context: "intuitive design".to_string(),
            reason: "needs UX guidelines".to_string(),
            priority: RefinementPriority::High,
        },
        RefinementRequest {
            term: "fast".to_string(),
            context: "fast performance".to_string(),
            reason: "unclear performance targets".to_string(),
            priority: RefinementPriority::Critical,
        },
    ];
    let ticket = TicketDecomposition {
        original_ticket: OriginalTicket {
            title: "TUI Test Ticket".to_string(),
            raw_input: "Create an intuitive and fast application".to_string(),
        },
        decomposed_ticket: DecomposedTicket {
            terms,
            terms_needing_refinement: refinement_requests,
            open_questions: vec!["What platforms?".to_string()],
            engine_questions: vec!["Preferred framework?".to_string()],
            validation_method: vec!["User testing".to_string()],
            validation_results: ValidationResults { mime: "text/plain".to_string(), url: "pending".to_string() },
            metadata: TicketMetadata {
                status: TicketStatus::AwaitingRefinement,
                priority: Priority::High,
                estimated_complexity: Complexity::Medium,
                processed_at: "2024-01-01T00:00:00Z".to_string(),
                engine_version: "1.0".to_string(),
            },
        },
    };
    let stored = format!("{:?}", ticket);
    let ticket_id = project.add_ticket(ticket, &stored);

    let node = project.graph.get_ticket(&ticket_id).unwrap();
    let refinement_count = node.ticket.decomposed_ticket.terms_needing_refinement.len();
    let dependencies_count = node.dependencies.len();
    let dependents_count = node.dependents.len();

    let menu_items = vec![
        "View ticket details".to_string(),
        format!("View refinement requests ({})", refinement_count),
        format!("Quick refine - show all terms ({})", refinement_count),
        format!("View dependencies ({})", dependencies_count),
        format!("View dependents ({})", dependents_count),
        "← Back".to_string(),
    ];

    assert_eq!(menu_items[1], "View refinement requests (2)");
    assert_eq!(menu_items[2], "Quick refine - show all terms (2)");
    assert_eq!(menu_items[3], "View dependencies (0)");
    assert_eq!(menu_items[4], "View dependents (0)");

    let quick_refine_items: Vec<String> = node
        .ticket
        .decomposed_ticket
        .terms_needing_refinement
        .iter()
        .enumerate()
        .map(|(i, request)| format!("{}. {} {} - {}", i + 1, priority_emoji(request.priority), request.term, request.reason))
        .collect();
    let shown = quick_refine_items_of(&node.ticket.decomposed_ticket.terms_needing_refinement).unwrap();
    assert_eq!(shown[..2], quick_refine_items[..]);
    assert_eq!(quick_refine_items.len(), 2);
    assert!(quick_refine_items[0].contains("🟥 intuitive"));
    assert!(quick_refine_items[1].contains("🔥 fast"));
    assert!(quick_refine_items[0].contains("needs UX guidelines"));
    assert!(quick_refine_items[1].contains("unclear performance targets"));
}
