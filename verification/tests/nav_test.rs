use control_flow::nav::{
    back_step, context_step, handle_key, is_back_entry, main_menu_choice, main_menu_items,
    project_list_choice, project_list_items, project_menu_choice, project_menu_items, remembers,
    ticket_actions_items, ticket_menu_choice, ticket_menu_notice, BackStep, ContextStep, Key,
    KeyOutcome, ListChoice, MainMenuChoice, MenuCursor, ProjectMenuChoice, TicketMenuChoice,
};
use control_flow::ticket::TicketId;
use control_flow::tui::{AppState, EditType, FieldEditState, InputState, SearchMatch, SearchState, TicketField};

fn names(n: usize) -> Vec<String> {
    (0..n).map(|i| format!("Item {}", i + 1)).collect()
}

#[test]
fn cursor_moves_and_scrolls() {
    let mut c = MenuCursor::new(names(15));
    c.move_up();
    assert_eq!((c.selected_index, c.scroll_offset), (0, 0));
    for _ in 0..12 {
        c.move_down();
    }
    assert_eq!((c.selected_index, c.scroll_offset), (12, 3));
    for _ in 0..5 {
        c.move_down();
    }
    assert_eq!((c.selected_index, c.scroll_offset), (14, 5));
    for _ in 0..10 {
        c.move_up();
    }
    assert_eq!((c.selected_index, c.scroll_offset), (4, 4));
    c.set_items(names(2));
    assert_eq!((c.selected_index, c.scroll_offset), (0, 0));
    let mut empty = MenuCursor::new(vec![]);
    empty.move_down();
    assert_eq!(empty.selected_index, 0);
}

#[test]
fn adjust_scroll_follows_selection() {
    let mut c = MenuCursor { items: names(30), selected_index: 25, scroll_offset: 0 };
    c.adjust_scroll();
    assert_eq!(c.scroll_offset, 16);
    c.selected_index = 3;
    c.adjust_scroll();
    assert_eq!(c.scroll_offset, 3);
    c.selected_index = 7;
    c.adjust_scroll();
    assert_eq!(c.scroll_offset, 3);
}

#[test]
fn menus_have_their_entries() {
    assert_eq!(
        main_menu_items(),
        vec!["List projects", "Create new project", "Open project", "Delete project", "Exit"]
    );
    assert_eq!(
        project_menu_items(),
        vec!["View tickets", "Create new ticket", "Save project", "← Back to main menu"]
    );
    let items = ticket_actions_items(Some((3, 0, 2)));
    assert_eq!(items[0], "← Back to ticket details");
    assert_eq!(items[1], "View refinement requests (3)");
    assert_eq!(items[2], "Quick refine - show all terms (3)");
    assert_eq!(items[3], "View dependencies (0)");
    assert_eq!(items[4], "View dependents (2)");
    assert_eq!(items[5], "← Back to ticket list");
    assert_eq!(ticket_actions_items(None)[1], "View refinement requests");
    let projects = vec!["alpha".to_string(), "beta".to_string()];
    assert_eq!(project_list_items(&projects), vec!["alpha", "beta", "← Back"]);
}

fn input_state() -> AppState {
    AppState::Input(InputState {
        title: "Create".to_string(),
        prompt: "Name:".to_string(),
        input: String::new(),
        return_state: Box::new(AppState::CreateProject),
    })
}

#[test]
fn typing_edits_the_input_line() {
    let mut s = input_state();
    assert!(matches!(handle_key(&mut s, Key::Char('a'), 0, 0), KeyOutcome::Handled));
    assert!(matches!(handle_key(&mut s, Key::Char('b'), 0, 0), KeyOutcome::Handled));
    assert!(matches!(handle_key(&mut s, Key::Backspace, 0, 0), KeyOutcome::Handled));
    assert!(matches!(handle_key(&mut s, Key::Char('q'), 0, 0), KeyOutcome::Handled));
    match &s {
        AppState::Input(i) => assert_eq!(i.input, "aq"),
        _ => panic!("state changed"),
    }
    assert!(matches!(handle_key(&mut s, Key::Enter, 0, 0), KeyOutcome::Submit));
    assert!(matches!(handle_key(&mut s, Key::Esc, 0, 0), KeyOutcome::GoBack));
    assert!(matches!(handle_key(&mut s, Key::Up, 0, 0), KeyOutcome::Handled));
}

fn hit() -> SearchMatch {
    SearchMatch { field: TicketField::Title, text: "t".to_string(), match_start: 0, match_end: 1 }
}

#[test]
fn search_keys_edit_query_and_cycle_matches() {
    let id = TicketId::from_text("abc");
    let mut s = AppState::TicketSearch(
        "p".to_string(),
        id,
        SearchState { query: "x".to_string(), matches: vec![hit(), hit(), hit()], current_match: 1 },
    );
    handle_key(&mut s, Key::Char('y'), 0, 0);
    handle_key(&mut s, Key::Enter, 0, 0);
    handle_key(&mut s, Key::Enter, 0, 0);
    match &s {
        AppState::TicketSearch(_, _, st) => {
            assert_eq!(st.query, "xy");
            assert_eq!(st.current_match, 0);
        },
        _ => panic!("state changed"),
    }
    match handle_key(&mut s, Key::Esc, 0, 0) {
        KeyOutcome::ShowTicketDetailsView(p, t) => {
            assert_eq!(p, "p");
            assert_eq!(t.as_str(), "abc");
        },
        _ => panic!("expected details view"),
    }
}

#[test]
fn field_edit_keys_track_modification() {
    let edit = |kind: EditType| {
        AppState::TicketFieldEdit(
            "p".to_string(),
            TicketId::from_text("abc"),
            FieldEditState {
                field: TicketField::Title,
                edit_type: kind,
                current_value: "ab".to_string(),
                original_value: "ab".to_string(),
                is_modified: false,
            },
        )
    };
    let mut s = edit(EditType::TextEdit);
    handle_key(&mut s, Key::Char('c'), 0, 0);
    match &s {
        AppState::TicketFieldEdit(_, _, e) => {
            assert_eq!(e.current_value, "abc");
            assert!(e.is_modified);
        },
        _ => panic!(),
    }
    handle_key(&mut s, Key::Backspace, 0, 0);
    match &s {
        AppState::TicketFieldEdit(_, _, e) => {
            assert_eq!(e.current_value, "ab");
            assert!(!e.is_modified);
        },
        _ => panic!(),
    }
    let mut t = edit(EditType::StatusSelect);
    handle_key(&mut t, Key::Char('c'), 0, 0);
    match &t {
        AppState::TicketFieldEdit(_, _, e) => assert_eq!(e.current_value, "ab"),
        _ => panic!(),
    }
    assert!(matches!(handle_key(&mut t, Key::Enter, 0, 0), KeyOutcome::Submit));
}

#[test]
fn global_keys() {
    let mut main = AppState::MainMenu;
    assert!(matches!(handle_key(&mut main, Key::Char('q'), 0, 0), KeyOutcome::Quit));
    assert!(matches!(handle_key(&mut main, Key::Esc, 0, 0), KeyOutcome::Quit));
    let mut loading = AppState::Loading("wait".to_string());
    assert!(matches!(handle_key(&mut loading, Key::Esc, 0, 0), KeyOutcome::ReturnToContext));
    let mut menu = AppState::ProjectMenu("p".to_string());
    assert!(matches!(handle_key(&mut menu, Key::Char('q'), 0, 0), KeyOutcome::GoBack));
    assert!(matches!(handle_key(&mut menu, Key::Char('/'), 0, 0), KeyOutcome::Handled));
    assert!(matches!(handle_key(&mut menu, Key::Char('L'), 0, 0), KeyOutcome::ToggleLogs));
    assert!(matches!(handle_key(&mut menu, Key::Up, 0, 0), KeyOutcome::MoveUp));
    assert!(matches!(handle_key(&mut menu, Key::Down, 0, 0), KeyOutcome::MoveDown));
    assert!(matches!(handle_key(&mut menu, Key::Enter, 0, 0), KeyOutcome::Submit));
    assert!(matches!(handle_key(&mut menu, Key::Char('3'), 0, 5), KeyOutcome::Handled));
    let mut details = AppState::TicketDetailsView("p".to_string(), TicketId::from_text("t1"));
    assert!(matches!(handle_key(&mut details, Key::Char('3'), 1, 5), KeyOutcome::FieldAction(2)));
    assert!(matches!(handle_key(&mut details, Key::Char('3'), 5, 5), KeyOutcome::Handled));
    assert!(matches!(handle_key(&mut details, Key::Char('0'), 1, 5), KeyOutcome::Handled));
    match handle_key(&mut details, Key::Char('/'), 0, 0) {
        KeyOutcome::StartSearch(p, t) => {
            assert_eq!(p, "p");
            assert_eq!(t.as_str(), "t1");
        },
        _ => panic!("expected search"),
    }
}

#[test]
fn going_back_and_returning() {
    let id = TicketId::from_text("t1");
    assert!(matches!(back_step(&AppState::Error("x".to_string())), BackStep::ReturnToContext));
    assert!(matches!(back_step(&AppState::OpenProject), BackStep::MainMenu));
    assert!(matches!(back_step(&AppState::TicketList("p".to_string())), BackStep::ProjectMenu(ref p) if p == "p"));
    assert!(matches!(back_step(&AppState::TicketDetail("p".to_string(), id.clone())), BackStep::TicketList(ref p) if p == "p"));
    assert!(matches!(
        back_step(&AppState::QuickRefine("p".to_string(), id.clone())),
        BackStep::TicketDetailsView(ref p, ref t) if p == "p" && t.as_str() == "t1"
    ));
    assert!(matches!(back_step(&AppState::CreateProject), BackStep::MainMenu));
    assert!(!remembers(&AppState::Loading("x".to_string())));
    assert!(remembers(&AppState::MainMenu));
    assert!(matches!(context_step(&None), ContextStep::GoBack));
    assert!(matches!(
        context_step(&Some(AppState::TicketDetail("p".to_string(), id.clone()))),
        ContextStep::TicketDetailsView(ref p, _) if p == "p"
    ));
    assert!(matches!(context_step(&Some(AppState::CreateProject)), ContextStep::MainMenu));
    assert!(matches!(context_step(&Some(AppState::ListProjects)), ContextStep::Restore));
    assert!(matches!(context_step(&Some(AppState::TicketList("p".to_string()))), ContextStep::TicketList(_)));
}

#[test]
fn menu_choices_by_position() {
    assert_eq!(main_menu_choice(0), MainMenuChoice::ListProjects);
    assert_eq!(main_menu_choice(4), MainMenuChoice::Exit);
    assert_eq!(main_menu_choice(5), MainMenuChoice::Nothing);
    assert_eq!(project_menu_choice(2), ProjectMenuChoice::SaveProject);
    assert_eq!(project_menu_choice(9), ProjectMenuChoice::Nothing);
    assert_eq!(ticket_menu_choice(1), TicketMenuChoice::ViewRefinements);
    assert_eq!(ticket_menu_choice(5), TicketMenuChoice::TicketList);
    assert_eq!(ticket_menu_notice(TicketMenuChoice::ViewDependents), Some("Viewing dependents..."));
    assert_eq!(ticket_menu_notice(TicketMenuChoice::QuickRefine), None);
    assert_eq!(project_list_choice(1, 3), ListChoice::Project(1));
    assert_eq!(project_list_choice(3, 3), ListChoice::Back);
    assert_eq!(project_list_choice(4, 3), ListChoice::Nothing);
    assert!(is_back_entry(2, 3));
    assert!(!is_back_entry(0, 3));
}
