//! What the terminal frame shows around a screen's content: the rows it is
//! split into, the header title of each screen, which view fills the main
//! area, the footer's key help, and the colour of a log line's level.
use vstd::prelude::*;
use crate::text::{append_str, contains, contains_text, decimal, decimal_string, owned, prefix, prefix_string, str_eq};
use crate::tui::{AppState, EditType, FieldEditState, SearchMatch, SearchState, TicketField};

verus! {

/// The height of a row of the frame.
#[derive(Debug, Clone, Copy, PartialEq, Eq, Structural)]
pub enum RowSize {
    Fixed(u16),
    Percent(u16),
    AtLeast(u16),
}

/// The rows of the frame: a header and a footer of three lines around the
/// content, which shares the height with the log pane while it is shown.
pub open spec fn frame_row_sizes(show_logs: bool) -> Seq<RowSize> {
    if show_logs {
        seq![RowSize::Fixed(3), RowSize::Percent(60), RowSize::Percent(30), RowSize::Fixed(3)]
    } else {
        seq![RowSize::Fixed(3), RowSize::AtLeast(0), RowSize::Fixed(3)]
    }
}

/// The rows of the frame.
pub fn frame_rows(show_logs: bool) -> (r: Vec<RowSize>)
    ensures
        r@ == frame_row_sizes(show_logs),
{
    if show_logs {
        vec![RowSize::Fixed(3), RowSize::Percent(60), RowSize::Percent(30), RowSize::Fixed(3)]
    } else {
        vec![RowSize::Fixed(3), RowSize::AtLeast(0), RowSize::Fixed(3)]
    }
}

/// The title in the header of each screen.
pub open spec fn header_title(s: AppState) -> Seq<char> {
    match s {
        AppState::MainMenu => "🎫 Control Flow - Main Menu"@,
        AppState::ListProjects => "📋 All Projects"@,
        AppState::OpenProject => "📂 Open Project"@,
        AppState::DeleteProject => "🗑️ Delete Project"@,
        AppState::ProjectMenu(name) => "📁 Project: "@ + name@,
        AppState::TicketList(name) => "🎫 Tickets in: "@ + name@,
        AppState::TicketDetail(name, id) => "🎫 Ticket "@ + id@ + " in: "@ + name@,
        AppState::TicketDetailsView(name, id) => "📄 Details: Ticket "@ + id@ + " in: "@ + name@,
        AppState::TicketFieldAction(name, id, _) => "⚡ Actions: Ticket "@ + id@ + " in: "@ + name@,
        AppState::TicketSearch(name, id, _) => "🔍 Search: Ticket "@ + id@ + " in: "@ + name@,
        AppState::TicketFieldEdit(name, id, _) => "✏️ Edit: Ticket "@ + id@ + " in: "@ + name@,
        AppState::CreateProject => "📝 Create New Project"@,
        AppState::CreateTicket(_) => "📝 Create New Ticket"@,
        AppState::QuickRefine(_, _) => "🔍 Quick Refine"@,
        AppState::Input(input) => input.title@,
        AppState::Loading(message) => message@,
        AppState::Error(_) => "❌ Error"@,
    }
}

fn ticket_title(lead: &str, id: &str, name: &str) -> (r: String)
    ensures
        r@ == lead@ + id@ + " in: "@ + name@,
{
    let mut r = owned(lead);
    append_str(&mut r, id);
    append_str(&mut r, " in: ");
    append_str(&mut r, name);
    r
}

/// Builds the header title of a screen.
pub fn build_header_title(state: &AppState) -> (r: String)
    ensures
        r@ == header_title(*state),
{
    match state {
        AppState::MainMenu => owned("🎫 Control Flow - Main Menu"),
        AppState::ListProjects => owned("📋 All Projects"),
        AppState::OpenProject => owned("📂 Open Project"),
        AppState::DeleteProject => owned("🗑️ Delete Project"),
        AppState::ProjectMenu(name) => {
            let mut r = owned("📁 Project: ");
            append_str(&mut r, name.as_str());
            r
        },
        AppState::TicketList(name) => {
            let mut r = owned("🎫 Tickets in: ");
            append_str(&mut r, name.as_str());
            r
        },
        AppState::TicketDetail(name, id) => ticket_title("🎫 Ticket ", id.as_str(), name.as_str()),
        AppState::TicketDetailsView(name, id) => ticket_title("📄 Details: Ticket ", id.as_str(), name.as_str()),
        AppState::TicketFieldAction(name, id, _) => ticket_title("⚡ Actions: Ticket ", id.as_str(), name.as_str()),
        AppState::TicketSearch(name, id, _) => ticket_title("🔍 Search: Ticket ", id.as_str(), name.as_str()),
        AppState::TicketFieldEdit(name, id, _) => ticket_title("✏️ Edit: Ticket ", id.as_str(), name.as_str()),
        AppState::CreateProject => owned("📝 Create New Project"),
        AppState::CreateTicket(_) => owned("📝 Create New Ticket"),
        AppState::QuickRefine(_, _) => owned("🔍 Quick Refine"),
        AppState::Input(input) => input.title.clone(),
        AppState::Loading(message) => message.clone(),
        AppState::Error(_) => owned("❌ Error"),
    }
}

/// The view that fills the main area of a screen.
#[derive(Debug, Clone, Copy, PartialEq, Eq, Structural)]
pub enum ContentView {
    Input,
    Loading,
    Error,
    TicketDetails,
    TicketSearch,
    FieldEdit,
    Menu,
}

/// The view of each screen: its own view for text input, loading, errors,
/// the ticket details, search and editing; the menu for every other screen.
pub open spec fn content_view_of(s: AppState) -> ContentView {
    match s {
        AppState::Input(_) => ContentView::Input,
        AppState::Loading(_) => ContentView::Loading,
        AppState::Error(_) => ContentView::Error,
        AppState::TicketDetailsView(_, _) => ContentView::TicketDetails,
        AppState::TicketSearch(_, _, _) => ContentView::TicketSearch,
        AppState::TicketFieldEdit(_, _, _) => ContentView::FieldEdit,
        _ => ContentView::Menu,
    }
}

/// The view that fills the main area of a screen.
pub fn content_view(state: &AppState) -> (v: ContentView)
    ensures
        v == content_view_of(*state),
{
    match state {
        AppState::Input(_) => ContentView::Input,
        AppState::Loading(_) => ContentView::Loading,
        AppState::Error(_) => ContentView::Error,
        AppState::TicketDetailsView(_, _) => ContentView::TicketDetails,
        AppState::TicketSearch(_, _, _) => ContentView::TicketSearch,
        AppState::TicketFieldEdit(_, _, _) => ContentView::FieldEdit,
        _ => ContentView::Menu,
    }
}

/// The key help in the footer of each screen.
pub open spec fn footer_help(s: AppState) -> Seq<char> {
    match s {
        AppState::Input(_) => "Type to enter text | Enter: Submit | Esc: Cancel | Backspace: Delete"@,
        AppState::TicketDetailsView(_, _) => "↑↓: Navigate | 1-9: Execute action | Enter: Default action | /: Search | L: Logs | Esc: Back"@,
        AppState::TicketSearch(_, _, _) => "Type to search | Enter: Next match | Esc: Exit search"@,
        AppState::TicketFieldEdit(_, _, _) => "Type to edit text | Enter: Save | Esc: Cancel"@,
        _ => "↑↓: Navigate | Enter: Select | L: Toggle Logs | Esc/Q: Back/Quit"@,
    }
}

/// The key help in the footer of a screen.
pub fn footer_instructions(state: &AppState) -> (r: &'static str)
    ensures
        r@ == footer_help(*state),
{
    match state {
        AppState::Input(_) => "Type to enter text | Enter: Submit | Esc: Cancel | Backspace: Delete",
        AppState::TicketDetailsView(_, _) => "↑↓: Navigate | 1-9: Execute action | Enter: Default action | /: Search | L: Logs | Esc: Back",
        AppState::TicketSearch(_, _, _) => "Type to search | Enter: Next match | Esc: Exit search",
        AppState::TicketFieldEdit(_, _, _) => "Type to edit text | Enter: Save | Esc: Cancel",
        _ => "↑↓: Navigate | Enter: Select | L: Toggle Logs | Esc/Q: Back/Quit",
    }
}

/// The colour a log line's level is shown in.
#[derive(Debug, Clone, Copy, PartialEq, Eq, Structural)]
pub enum LevelColor {
    Red,
    Yellow,
    Green,
    Blue,
    White,
}

/// The colour of a level: errors red, warnings yellow, information green,
/// debugging blue, anything else white.
pub open spec fn level_color_of(level: Seq<char>) -> LevelColor {
    if level == "ERROR"@ {
        LevelColor::Red
    } else if level == "WARN"@ {
        LevelColor::Yellow
    } else if level == "INFO"@ {
        LevelColor::Green
    } else if level == "DEBUG"@ {
        LevelColor::Blue
    } else {
        LevelColor::White
    }
}

/// The colour a log line's level is shown in.
pub fn level_color(level: &str) -> (c: LevelColor)
    ensures
        c == level_color_of(level@),
{
    if str_eq(level, "ERROR") {
        LevelColor::Red
    } else if str_eq(level, "WARN") {
        LevelColor::Yellow
    } else if str_eq(level, "INFO") {
        LevelColor::Green
    } else if str_eq(level, "DEBUG") {
        LevelColor::Blue
    } else {
        LevelColor::White
    }
}

/// The frames of the loading spinner.
pub open spec fn spinner_frames() -> Seq<Seq<char>> {
    seq!["⠋"@, "⠙"@, "⠹"@, "⠸"@, "⠼"@, "⠴"@, "⠦"@, "⠧"@, "⠇"@, "⠏"@]
}

/// The spinner frame shown `millis` milliseconds after the epoch: a new
/// frame every tenth of a second, round the ten frames.
pub fn spinner_frame(millis: u128) -> (r: &'static str)
    ensures
        r@ == spinner_frames()[((millis / 100) % 10) as int],
{
    let k = (millis / 100) % 10;
    if k == 0 {
        "⠋"
    } else if k == 1 {
        "⠙"
    } else if k == 2 {
        "⠹"
    } else if k == 3 {
        "⠸"
    } else if k == 4 {
        "⠼"
    } else if k == 5 {
        "⠴"
    } else if k == 6 {
        "⠦"
    } else if k == 7 {
        "⠧"
    } else if k == 8 {
        "⠇"
    } else {
        "⠏"
    }
}

/// The text of the loading view: slow work (a message naming AI or ticket
/// creation) gets the spinner and a note on the wait, saving gets a disk,
/// a success message stands alone, anything else gets the spinner.
pub open spec fn loading_text_of(message: Seq<char>, spinner: Seq<char>) -> Seq<char> {
    if contains_text(message, "AI"@) || contains_text(message, "Creating ticket"@) {
        spinner + " "@ + message + " (This may take 10-30 seconds...)"@
    } else if contains_text(message, "Saving"@) {
        "💾 "@ + message
    } else if contains_text(message, "✅"@) {
        message
    } else {
        spinner + " "@ + message
    }
}

/// The text of the loading view for `message`, with the spinner frame `spinner`.
pub fn loading_text(message: &str, spinner: &str) -> (r: String)
    ensures
        r@ == loading_text_of(message@, spinner@),
{
    if contains(message, "AI") || contains(message, "Creating ticket") {
        let mut r = owned(spinner);
        append_str(&mut r, " ");
        append_str(&mut r, message);
        append_str(&mut r, " (This may take 10-30 seconds...)");
        r
    } else if contains(message, "Saving") {
        let mut r = owned("💾 ");
        append_str(&mut r, message);
        r
    } else if contains(message, "✅") {
        owned(message)
    } else {
        let mut r = owned(spinner);
        append_str(&mut r, " ");
        append_str(&mut r, message);
        r
    }
}

/// The text of the error view.
pub fn error_text(message: &str) -> (r: String)
    ensures
        r@ == "❌ "@ + message@ + "\n\nPress Esc to go back."@,
{
    let mut r = owned("❌ ");
    append_str(&mut r, message);
    append_str(&mut r, "\n\nPress Esc to go back.");
    r
}

/// The search box: the query after a slash.
pub fn search_box_text(search: &SearchState) -> (r: String)
    ensures
        r@ == "/"@ + search.query@,
{
    let mut r = owned("/");
    append_str(&mut r, search.query.as_str());
    r
}

/// The match counter of a search.
pub open spec fn match_counter_of(current: nat, count: nat) -> Seq<char> {
    if count == 0 {
        "No matches found"@
    } else {
        "Match "@ + decimal(current + 1) + " of "@ + decimal(count) + " | Enter: Next match"@
    }
}

/// The match counter of a search.
pub fn match_counter(search: &SearchState) -> (r: String)
    requires
        search.current_match < usize::MAX,
    ensures
        r@ == match_counter_of(search.current_match as nat, search.matches@.len()),
{
    if search.matches.len() == 0 {
        owned("No matches found")
    } else {
        let mut r = owned("Match ");
        append_str(&mut r, decimal_string(search.current_match + 1).as_str());
        append_str(&mut r, " of ");
        append_str(&mut r, decimal_string(search.matches.len()).as_str());
        append_str(&mut r, " | Enter: Next match");
        r
    }
}

/// The name a search result gives its field.
pub open spec fn result_field_name(f: TicketField) -> Seq<char> {
    match f {
        TicketField::Title => "Title"@,
        TicketField::RawInput => "Raw Input"@,
        TicketField::Terms(term) => "Term: "@ + term@,
        _ => "Other"@,
    }
}

/// The line of the `i`-th search result while match `current` is selected:
/// a pointer at the selected one, the field and the start of the text.
pub open spec fn result_line(i: int, current: int, m: SearchMatch) -> Seq<char> {
    (if i == current {
        "► "@
    } else {
        "  "@
    }) + result_field_name(m.field) + ": "@ + prefix(m.text@, 80)
}

/// The result lines of a search.
pub fn search_result_lines(search: &SearchState) -> (r: Vec<String>)
    ensures
        r@.len() == search.matches@.len(),
        forall|i: int|
            0 <= i < r@.len() ==> (#[trigger] r@[i])@ == result_line(
                i,
                search.current_match as int,
                search.matches@[i],
            ),
{
    let mut r: Vec<String> = Vec::new();
    let n = search.matches.len();
    for i in 0..n
        invariant
            n == search.matches@.len(),
            r@.len() == i,
            forall|k: int|
                0 <= k < i ==> (#[trigger] r@[k])@ == result_line(k, search.current_match as int, search.matches@[k]),
    {
        let m = &search.matches[i];
        let mut line = if i == search.current_match {
            owned("► ")
        } else {
            owned("  ")
        };
        match &m.field {
            TicketField::Title => append_str(&mut line, "Title"),
            TicketField::RawInput => append_str(&mut line, "Raw Input"),
            TicketField::Terms(term) => {
                append_str(&mut line, "Term: ");
                append_str(&mut line, term.as_str());
            },
            _ => append_str(&mut line, "Other"),
        }
        append_str(&mut line, ": ");
        append_str(&mut line, prefix_string(m.text.as_str(), 80).as_str());
        r.push(line);
    }
    r
}

/// The header of the edit view.
pub fn edit_header(field_name: &str, is_modified: bool) -> (r: String)
    ensures
        r@ == "Editing: "@ + field_name@ + if is_modified {
            " (MODIFIED)"@
        } else {
            ""@
        },
{
    let mut r = owned("Editing: ");
    append_str(&mut r, field_name);
    if is_modified {
        append_str(&mut r, " (MODIFIED)");
    } else {
        proof {
            reveal_strlit("");
            assert(r@ + ""@ =~= r@);
        }
    }
    r
}

/// What the edit view shows of the value: the text being edited, or for a
/// selection the kind of value and the current one.
pub open spec fn edit_value_text(e: FieldEditState) -> Seq<char> {
    match e.edit_type {
        EditType::TextEdit => e.current_value@,
        EditType::StatusSelect => "Current Status: "@ + e.current_value@,
        EditType::PrioritySelect => "Current Priority: "@ + e.current_value@,
        EditType::ComplexitySelect => "Current Complexity: "@ + e.current_value@,
    }
}

/// What the edit view shows of the value.
pub fn edit_value_line(edit: &FieldEditState) -> (r: String)
    ensures
        r@ == edit_value_text(*edit),
{
    let lead = match edit.edit_type {
        EditType::TextEdit => {
            return edit.current_value.clone();
        },
        EditType::StatusSelect => "Current Status: ",
        EditType::PrioritySelect => "Current Priority: ",
        EditType::ComplexitySelect => "Current Complexity: ",
    };
    let mut r = owned(lead);
    append_str(&mut r, edit.current_value.as_str());
    r
}

/// The lower panel of the edit view: the original value once the field was
/// changed, else help for the kind of edit.
pub open spec fn edit_panel_text(e: FieldEditState) -> Seq<char> {
    if e.is_modified {
        "Original value:\n"@ + e.original_value@
    } else {
        match e.edit_type {
            EditType::TextEdit => "Type to edit the text. Changes will be highlighted."@,
            EditType::StatusSelect => "Use arrow keys to select status (Coming soon)"@,
            EditType::PrioritySelect => "Use arrow keys to select priority (Coming soon)"@,
            EditType::ComplexitySelect => "Use arrow keys to select complexity (Coming soon)"@,
        }
    }
}

/// The lower panel of the edit view.
pub fn edit_panel(edit: &FieldEditState) -> (r: String)
    ensures
        r@ == edit_panel_text(*edit),
{
    if edit.is_modified {
        let mut r = owned("Original value:\n");
        append_str(&mut r, edit.original_value.as_str());
        r
    } else {
        owned(
            match edit.edit_type {
                EditType::TextEdit => "Type to edit the text. Changes will be highlighted.",
                EditType::StatusSelect => "Use arrow keys to select status (Coming soon)",
                EditType::PrioritySelect => "Use arrow keys to select priority (Coming soon)",
                EditType::ComplexitySelect => "Use arrow keys to select complexity (Coming soon)",
            },
        )
    }
}

/// The numbered lines of a field's actions.
pub fn action_lines(actions: &Vec<String>) -> (r: Vec<String>)
    ensures
        r@.len() == actions@.len(),
        forall|i: int|
            0 <= i < r@.len() ==> (#[trigger] r@[i])@ == decimal((i + 1) as nat) + ". "@ + actions@[i]@,
{
    let mut r: Vec<String> = Vec::new();
    let n = actions.len();
    for i in 0..n
        invariant
            n == actions@.len(),
            r@.len() == i,
            forall|k: int| 0 <= k < i ==> (#[trigger] r@[k])@ == decimal((k + 1) as nat) + ". "@ + actions@[k]@,
    {
        let mut line = decimal_string(i + 1);
        append_str(&mut line, ". ");
        append_str(&mut line, actions[i].as_str());
        r.push(line);
    }
    r
}

/// The title of the actions list of a field.
pub fn actions_title(field_context: &str) -> (r: String)
    ensures
        r@ == "Actions for: "@ + field_context@,
{
    let mut r = owned("Actions for: ");
    append_str(&mut r, field_context);
    r
}

} // verus!
