use control_flow::frame::{
    action_lines, actions_title, build_header_title, content_view, edit_header, edit_panel, edit_value_line,
    error_text, footer_instructions, frame_rows, level_color, loading_text, match_counter, search_box_text,
    search_result_lines, spinner_frame, ContentView, LevelColor, RowSize,
};
use control_flow::ticket::TicketId;
use control_flow::tui::{AppState, EditType, FieldEditState, InputState, SearchMatch, SearchState, TicketField};

fn id() -> TicketId {
    TicketId::from_text("abc123")
}

fn edit(edit_type: EditType, modified: bool) -> FieldEditState {
    FieldEditState {
        field: TicketField::Title,
        edit_type,
        current_value: "new".to_string(),
        original_value: "old".to_string(),
        is_modified: modified,
    }
}

#[test]
fn the_frame_has_a_log_row_only_while_logs_are_shown() {
    assert_eq!(frame_rows(false), vec![RowSize::Fixed(3), RowSize::AtLeast(0), RowSize::Fixed(3)]);
    assert_eq!(
        frame_rows(true),
        vec![RowSize::Fixed(3), RowSize::Percent(60), RowSize::Percent(30), RowSize::Fixed(3)]
    );
}

#[test]
fn headers_name_the_screen() {
    assert_eq!(build_header_title(&AppState::MainMenu), "🎫 Control Flow - Main Menu");
    assert_eq!(build_header_title(&AppState::ProjectMenu("todo".to_string())), "📁 Project: todo");
    assert_eq!(build_header_title(&AppState::TicketDetail("todo".to_string(), id())), "🎫 Ticket abc123 in: todo");
    assert_eq!(
        build_header_title(&AppState::TicketFieldEdit("p".to_string(), id(), edit(EditType::TextEdit, false))),
        "✏️ Edit: Ticket abc123 in: p"
    );
    let input = InputState {
        title: "Name it".to_string(),
        prompt: "Name:".to_string(),
        input: String::new(),
        return_state: Box::new(AppState::MainMenu),
    };
    assert_eq!(build_header_title(&AppState::Input(input)), "Name it");
    assert_eq!(build_header_title(&AppState::Loading("Working".to_string())), "Working");
    assert_eq!(build_header_title(&AppState::Error("boom".to_string())), "❌ Error");
}

#[test]
fn each_screen_has_its_view_and_key_help() {
    assert_eq!(content_view(&AppState::Loading("x".to_string())), ContentView::Loading);
    assert_eq!(content_view(&AppState::TicketDetailsView("p".to_string(), id())), ContentView::TicketDetails);
    assert_eq!(content_view(&AppState::ListProjects), ContentView::Menu);
    assert_eq!(footer_instructions(&AppState::ListProjects), "↑↓: Navigate | Enter: Select | L: Toggle Logs | Esc/Q: Back/Quit");
    assert_eq!(
        footer_instructions(&AppState::TicketFieldEdit("p".to_string(), id(), edit(EditType::TextEdit, false))),
        "Type to edit text | Enter: Save | Esc: Cancel"
    );
    assert_eq!(level_color("ERROR"), LevelColor::Red);
    assert_eq!(level_color("WARN"), LevelColor::Yellow);
    assert_eq!(level_color("INFO"), LevelColor::Green);
    assert_eq!(level_color("DEBUG"), LevelColor::Blue);
    assert_eq!(level_color("TRACE"), LevelColor::White);
}

#[test]
fn loading_and_error_texts() {
    assert_eq!(spinner_frame(0), "⠋");
    assert_eq!(spinner_frame(1234), "⠹");
    assert_eq!(spinner_frame(100), "⠙");
    assert_eq!(spinner_frame(999), "⠏");
    assert_eq!(loading_text("Asking AI", "⠋"), "⠋ Asking AI (This may take 10-30 seconds...)");
    assert_eq!(loading_text("Creating ticket...", "⠙"), "⠙ Creating ticket... (This may take 10-30 seconds...)");
    assert_eq!(loading_text("Saving project", "⠙"), "💾 Saving project");
    assert_eq!(loading_text("✅ Done", "⠙"), "✅ Done");
    assert_eq!(loading_text("Loading", "⠹"), "⠹ Loading");
    assert_eq!(error_text("no file"), "❌ no file\n\nPress Esc to go back.");
}

#[test]
fn search_and_edit_panels() {
    let search = SearchState {
        query: "app".to_string(),
        matches: vec![
            SearchMatch { field: TicketField::Title, text: "Todo app".to_string(), match_start: 5, match_end: 8 },
            SearchMatch {
                field: TicketField::Terms("app".to_string()),
                text: "a".repeat(90),
                match_start: 0,
                match_end: 3,
            },
            SearchMatch { field: TicketField::Status, text: "x".to_string(), match_start: 0, match_end: 1 },
        ],
        current_match: 1,
    };
    assert_eq!(search_box_text(&search), "/app");
    assert_eq!(match_counter(&search), "Match 2 of 3 | Enter: Next match");
    let lines = search_result_lines(&search);
    assert_eq!(lines[0], "  Title: Todo app");
    assert_eq!(lines[1], format!("► Term: app: {}", "a".repeat(80)));
    assert_eq!(lines[2], "  Other: x");
    let empty = SearchState { query: String::new(), matches: vec![], current_match: 0 };
    assert_eq!(match_counter(&empty), "No matches found");
    assert!(search_result_lines(&empty).is_empty());

    assert_eq!(edit_header("Title", true), "Editing: Title (MODIFIED)");
    assert_eq!(edit_header("Title", false), "Editing: Title");
    assert_eq!(edit_value_line(&edit(EditType::TextEdit, false)), "new");
    assert_eq!(edit_value_line(&edit(EditType::PrioritySelect, false)), "Current Priority: new");
    assert_eq!(edit_panel(&edit(EditType::StatusSelect, true)), "Original value:\nold");
    assert_eq!(edit_panel(&edit(EditType::ComplexitySelect, false)), "Use arrow keys to select complexity (Coming soon)");
    assert_eq!(
        action_lines(&vec!["Edit".to_string(), "Copy".to_string()]),
        vec!["1. Edit".to_string(), "2. Copy".to_string()]
    );
    assert_eq!(actions_title("Title"), "Actions for: Title");
}
