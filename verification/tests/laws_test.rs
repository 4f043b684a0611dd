use control_flow::mock::MockStoryEngine;
use control_flow::nav::{handle_key, Key, MenuCursor};
use control_flow::ticket::{sanitized_file_name, ProjectManager};
use control_flow::tui::{AppState, InputState};
use control_flow::types::ProjectConstraints;

#[test]
fn file_names_have_no_spaces_or_slashes() {
    for name in ["project with spaces", "project/with/slashes", "project with/mixed problems", "plain"] {
        let f = sanitized_file_name(name);
        assert!(!f.contains(' ') && !f.contains('/'), "{}", f);
        assert!(f.ends_with(".json"));
    }
    assert_eq!(sanitized_file_name("project with spaces"), "project_with_spaces.json");
    assert_eq!(sanitized_file_name("project/with/slashes"), "project_with_slashes.json");
    assert_eq!(sanitized_file_name("project with/mixed problems"), "project_with_mixed_problems.json");
}

#[test]
fn registered_projects_are_found_until_unregistered() {
    let mut m = ProjectManager::new("/tmp/ws");
    let path = m.plan_new_project("todo app").unwrap();
    assert_eq!(path, "/tmp/ws/todo_app.json");
    m.register_project("todo app".to_string(), path.clone());
    assert_eq!(m.load_project_path("todo app").unwrap(), &path);
    assert_eq!(m.plan_new_project("todo app").unwrap_err(), "Project 'todo app' already exists");
    assert_eq!(m.unregister_project("todo app").unwrap(), path);
    assert_eq!(m.load_project_path("todo app").unwrap_err(), "Project 'todo app' not found");
}

#[test]
fn backspace_undoes_a_typed_character() {
    let mut s = AppState::Input(InputState {
        title: "t".to_string(),
        prompt: "p".to_string(),
        input: "abc".to_string(),
        return_state: Box::new(AppState::MainMenu),
    });
    handle_key(&mut s, Key::Char('é'), 0, 0);
    handle_key(&mut s, Key::Backspace, 0, 0);
    match s {
        AppState::Input(i) => assert_eq!(i.input, "abc"),
        _ => panic!(),
    }
}

#[test]
fn moving_down_then_up_returns() {
    let items: Vec<String> = (0..20).map(|i| i.to_string()).collect();
    let mut c = MenuCursor { items, selected_index: 9, scroll_offset: 0 };
    c.move_down();
    assert_eq!((c.selected_index, c.scroll_offset), (10, 1));
    c.move_up();
    assert_eq!(c.selected_index, 9);
    assert!(c.scroll_offset <= c.selected_index && c.selected_index < c.scroll_offset + 10);
}

#[test]
fn every_prompt_gets_a_story() {
    let engine = MockStoryEngine::new();
    for prompt in ["", "cave", "SPACE", "a garden party", "Station 9", "日本語"] {
        let story = engine.generate_initial_story(prompt, ProjectConstraints::default()).unwrap();
        assert!(!story.nodes.is_empty());
        let ids: Vec<u128> = story.nodes.iter().map(|n| n.id).collect();
        for e in &story.edges {
            assert!(ids.contains(&e.from_node_id) && ids.contains(&e.to_node_id));
        }
    }
}

#[test]
fn an_opened_story_offers_a_choice_at_its_start() {
    for style in [control_flow::engines::EngineStyle::Adventure, control_flow::engines::EngineStyle::Planning] {
        for reply in ["", "nothing useful here", "SITUATION: x\nCHOICES:\n1. go"] {
            let g = control_flow::engines::story_from_response(style, "p", reply);
            assert!(!g.nodes[0].choices.is_empty());
            assert_eq!(control_flow::adventure::turn_of(&g), control_flow::adventure::Turn::Choose(0));
        }
    }
}
