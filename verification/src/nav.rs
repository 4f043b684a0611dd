//! Navigation in the terminal interface: the cursor over a menu, the menus
//! themselves, and what a key press or a menu choice leads to.
use vstd::prelude::*;
use crate::text::{chars_of, concat3, decimal, decimal_string, owned, string_from_chars};
use crate::ticket::TicketId;
use crate::tui::{AppState, EditType};

verus! {

/// How many menu items fit on the screen at once.
pub const VISIBLE_ITEMS: usize = 10;

/// The items of a menu, which one is selected, and the first one shown.
pub struct MenuCursor {
    pub items: Vec<String>,
    pub selected_index: usize,
    pub scroll_offset: usize,
}

/// The first item shown once the view follows the selection: unchanged while
/// the selection is on screen, otherwise the least scrolling that shows it.
pub open spec fn followed_scroll(selected: int, scroll: int) -> int {
    if selected < scroll {
        selected
    } else if selected >= scroll + VISIBLE_ITEMS {
        selected + 1 - VISIBLE_ITEMS
    } else {
        scroll
    }
}

/// Selection and first item shown after a move up.
pub open spec fn after_up(selected: int, scroll: int) -> (int, int) {
    if selected > 0 {
        (selected - 1, followed_scroll(selected - 1, scroll))
    } else {
        (selected, scroll)
    }
}

/// Selection and first item shown after a move down in a menu of `len` items.
pub open spec fn after_down(selected: int, scroll: int, len: int) -> (int, int) {
    if selected + 1 < len {
        (selected + 1, followed_scroll(selected + 1, scroll))
    } else {
        (selected, scroll)
    }
}

/// The selected item is among those shown.
pub open spec fn selection_visible(selected: int, scroll: int) -> bool {
    scroll <= selected < scroll + VISIBLE_ITEMS
}

impl MenuCursor {
    /// A cursor on the first item of a menu.
    pub fn new(items: Vec<String>) -> (c: MenuCursor)
        ensures
            c.items@ == items@,
            c.selected_index == 0,
            c.scroll_offset == 0,
    {
        MenuCursor { items, selected_index: 0, scroll_offset: 0 }
    }

    /// Replaces the menu and puts the cursor back on its first item.
    pub fn set_items(&mut self, items: Vec<String>)
        ensures
            final(self).items@ == items@,
            final(self).selected_index == 0,
            final(self).scroll_offset == 0,
    {
        self.items = items;
        self.selected_index = 0;
        self.scroll_offset = 0;
    }

    /// Scrolls so that the selected item is shown.
    pub fn adjust_scroll(&mut self)
        requires
            old(self).selected_index < usize::MAX,
        ensures
            final(self).scroll_offset == followed_scroll(
                old(self).selected_index as int,
                old(self).scroll_offset as int,
            ),
            final(self).selected_index == old(self).selected_index,
            final(self).items@ == old(self).items@,
            selection_visible(final(self).selected_index as int, final(self).scroll_offset as int),
    {
        if self.selected_index < self.scroll_offset {
            self.scroll_offset = self.selected_index;
        } else if self.scroll_offset <= usize::MAX - VISIBLE_ITEMS && self.selected_index
            >= self.scroll_offset + VISIBLE_ITEMS {
            self.scroll_offset = self.selected_index + 1 - VISIBLE_ITEMS;
        }
    }

    /// Moves the selection one item up, when it is not on the first.
    pub fn move_up(&mut self)
        ensures
            final(self).items@ == old(self).items@,
            (final(self).selected_index as int, final(self).scroll_offset as int) == after_up(
                old(self).selected_index as int,
                old(self).scroll_offset as int,
            ),
            old(self).selected_index < old(self).items@.len() ==> final(self).selected_index
                < final(self).items@.len(),
    {
        if self.selected_index > 0 {
            self.selected_index = self.selected_index - 1;
            self.adjust_scroll();
        }
    }

    /// Moves the selection one item down, when it is not on the last.
    pub fn move_down(&mut self)
        ensures
            final(self).items@ == old(self).items@,
            (final(self).selected_index as int, final(self).scroll_offset as int) == after_down(
                old(self).selected_index as int,
                old(self).scroll_offset as int,
                old(self).items@.len() as int,
            ),
            old(self).selected_index < old(self).items@.len() ==> final(self).selected_index
                < final(self).items@.len(),
    {
        let last = if self.items.len() > 0 {
            self.items.len() - 1
        } else {
            0
        };
        if self.selected_index < last {
            self.selected_index = self.selected_index + 1;
            self.adjust_scroll();
        }
    }
}

/// Following the selection always brings it on screen, whatever was shown
/// before.
pub proof fn law_followed_scroll_shows_selection(selected: int, scroll: int)
    requires
        0 <= selected,
        0 <= scroll,
    ensures
        selection_visible(selected, followed_scroll(selected, scroll)),
{
}

/// The entries of the main menu.
pub open spec fn main_menu_texts() -> Seq<Seq<char>> {
    seq![
        "List projects"@,
        "Create new project"@,
        "Open project"@,
        "Delete project"@,
        "Exit"@,
    ]
}

/// The entries of a project's menu.
pub open spec fn project_menu_texts() -> Seq<Seq<char>> {
    seq!["View tickets"@, "Create new ticket"@, "Save project"@, "← Back to main menu"@]
}

/// The texts of a list of strings.
pub open spec fn views(v: Seq<String>) -> Seq<Seq<char>> {
    v.map_values(|s: String| s@)
}

/// The main menu.
pub fn main_menu_items() -> (r: Vec<String>)
    ensures
        views(r@) == main_menu_texts(),
{
    let r = vec![
        owned("List projects"),
        owned("Create new project"),
        owned("Open project"),
        owned("Delete project"),
        owned("Exit"),
    ];
    proof {
        assert(views(r@) =~= main_menu_texts());
    }
    r
}

/// A project's menu.
pub fn project_menu_items() -> (r: Vec<String>)
    ensures
        views(r@) == project_menu_texts(),
{
    let r = vec![
        owned("View tickets"),
        owned("Create new ticket"),
        owned("Save project"),
        owned("← Back to main menu"),
    ];
    proof {
        assert(views(r@) =~= project_menu_texts());
    }
    r
}

/// `label (n)`.
pub open spec fn counted(label: Seq<char>, n: nat) -> Seq<char> {
    label + " ("@ + decimal(n) + ")"@
}

fn counted_item(label: &str, n: usize) -> (r: String)
    ensures
        r@ == counted(label@, n as nat),
{
    let d = decimal_string(n);
    let mut r = concat3(label, " (", d.as_str());
    crate::text::append_str(&mut r, ")");
    r
}

/// The entries of a ticket's action menu; with the ticket's counts of terms
/// needing refinement, dependencies and dependents when it was found.
pub open spec fn ticket_action_texts(counts: Option<(usize, usize, usize)>) -> Seq<Seq<char>> {
    match counts {
        Some((refine, deps, dependents)) => seq![
            "← Back to ticket details"@,
            counted("View refinement requests"@, refine as nat),
            counted("Quick refine - show all terms"@, refine as nat),
            counted("View dependencies"@, deps as nat),
            counted("View dependents"@, dependents as nat),
            "← Back to ticket list"@,
        ],
        None => seq![
            "← Back to ticket details"@,
            "View refinement requests"@,
            "Quick refine - show all terms"@,
            "View dependencies"@,
            "View dependents"@,
            "← Back to ticket list"@,
        ],
    }
}

/// A ticket's action menu.
pub fn ticket_actions_items(counts: Option<(usize, usize, usize)>) -> (r: Vec<String>)
    ensures
        views(r@) == ticket_action_texts(counts),
{
    let r = match counts {
        Some((refine, deps, dependents)) => vec![
            owned("← Back to ticket details"),
            counted_item("View refinement requests", refine),
            counted_item("Quick refine - show all terms", refine),
            counted_item("View dependencies", deps),
            counted_item("View dependents", dependents),
            owned("← Back to ticket list"),
        ],
        None => vec![
            owned("← Back to ticket details"),
            owned("View refinement requests"),
            owned("Quick refine - show all terms"),
            owned("View dependencies"),
            owned("View dependents"),
            owned("← Back to ticket list"),
        ],
    };
    proof {
        assert(views(r@) =~= ticket_action_texts(counts));
    }
    r
}

/// The project list: the project names followed by "← Back".
pub fn project_list_items(projects: &Vec<String>) -> (r: Vec<String>)
    ensures
        views(r@) == views(projects@).push("← Back"@),
{
    let mut r: Vec<String> = Vec::new();
    let n = projects.len();
    for i in 0..n
        invariant
            n == projects@.len(),
            views(r@) == views(projects@.take(i as int)),
    {
        let ghost before = r@;
        r.push(projects[i].clone());
        proof {
            assert(projects@.take(i + 1) =~= projects@.take(i as int).push(projects@[i as int]));
            assert(r@ =~= before.push(projects@[i as int]));
            assert(views(r@) =~= views(before).push(projects@[i as int]@));
            assert(views(projects@.take(i + 1)) =~= views(projects@.take(i as int)).push(
                projects@[i as int]@,
            ));
        }
    }
    let ghost before = views(r@);
    r.push(owned("← Back"));
    proof {
        assert(projects@.take(n as int) =~= projects@);
        assert(views(r@) =~= before.push("← Back"@));
    }
    r
}

/// A key as the interface reads it.
#[derive(Debug, Clone, Copy, PartialEq, Eq, Structural)]
pub enum Key {
    Char(char),
    Backspace,
    Enter,
    Esc,
    Up,
    Down,
    Other,
}

/// What the interface does after a key: nothing more (the key was used, or
/// ignored), or one of the listed steps.
#[derive(Debug)]
pub enum KeyOutcome {
    Handled,
    Submit,
    Quit,
    ReturnToContext,
    GoBack,
    ToggleLogs,
    MoveUp,
    MoveDown,
    StartSearch(String, TicketId),
    ShowTicketDetailsView(String, TicketId),
    FieldAction(usize),
}

/// `t` after typing `c`, or after a backspace when `c` is `None`.
pub open spec fn edited(t: Seq<char>, c: Option<char>) -> Seq<char> {
    match c {
        Some(ch) => t.push(ch),
        None => if t.len() > 0 {
            t.drop_last()
        } else {
            t
        },
    }
}

/// Removes the last character of a string, if any.
fn pop_char(s: &mut String)
    ensures
        final(s)@ == edited(old(s)@, None),
{
    let cs = chars_of(s.as_str());
    if cs.len() > 0 {
        let head = crate::text::chars_between(cs.as_slice(), 0, cs.len() - 1);
        *s = string_from_chars(head.as_slice());
        proof {
            assert(head@ =~= old(s)@.drop_last());
        }
    }
}

/// The step a key leads to, outside text entry, search and field editing:
/// `q` and Escape quit the main menu, leave a notice or error for the
/// previous screen and go back elsewhere; `/` starts a search in the ticket
/// details view; `l` toggles the log pane; arrows move; Enter submits; a
/// digit from 1 to 9 in the details view runs that action on the selected
/// field when one is selected.
pub open spec fn global_key_outcome(
    state: AppState,
    key: Key,
    selected_index: int,
    field_count: int,
    r: KeyOutcome,
) -> bool {
    match key {
        Key::Char('q') | Key::Esc => if state is MainMenu {
            r is Quit
        } else if state is Loading || state is Error {
            r is ReturnToContext
        } else {
            r is GoBack
        },
        Key::Char('/') => match state {
            AppState::TicketDetailsView(p, t) => r == KeyOutcome::StartSearch(p, t),
            _ => r is Handled,
        },
        Key::Char('l') | Key::Char('L') => r is ToggleLogs,
        Key::Up => r is MoveUp,
        Key::Down => r is MoveDown,
        Key::Enter => r is Submit,
        Key::Char(c) => if state is TicketDetailsView && '1' <= c <= '9' && selected_index
            < field_count {
            r == KeyOutcome::FieldAction(((c as int) - ('1' as int)) as usize)
        } else {
            r is Handled
        },
        _ => r is Handled,
    }
}

/// Handles a key. In text entry, characters and backspace edit the line,
/// Enter submits and Escape goes back; in a search they edit the query,
/// Enter moves to the next match and Escape returns to the details view; in
/// a field edit they edit a free-text value (tracking whether it differs from
/// the original), Enter submits and Escape returns to the details view;
/// other keys are ignored in those screens. Elsewhere see
/// `global_key_outcome`.
pub fn handle_key(state: &mut AppState, key: Key, selected_index: usize, field_count: usize) -> (r:
    KeyOutcome)
    requires
        *old(state) matches AppState::TicketSearch(_, _, s) ==> s.current_match < usize::MAX,
    ensures
        match *old(state) {
            AppState::Input(i) => *final(state) matches AppState::Input(j) && j.title == i.title
                && j.prompt == i.prompt && j.return_state == i.return_state && match key {
                Key::Char(c) => j.input@ == edited(i.input@, Some(c)) && r is Handled,
                Key::Backspace => j.input@ == edited(i.input@, None) && r is Handled,
                Key::Enter => j.input == i.input && r is Submit,
                Key::Esc => j.input == i.input && r is GoBack,
                _ => j.input == i.input && r is Handled,
            },
            AppState::TicketSearch(p, t, s) => *final(state) matches AppState::TicketSearch(p2, t2, s2)
                && p2 == p && t2 == t && s2.matches == s.matches && match key {
                Key::Char(c) => s2.query@ == edited(s.query@, Some(c)) && s2.current_match
                    == s.current_match && r is Handled,
                Key::Backspace => s2.query@ == edited(s.query@, None) && s2.current_match
                    == s.current_match && r is Handled,
                Key::Enter => s2.query == s.query && s2.current_match == (if s.matches@.len() > 0 {
                    ((s.current_match + 1) % (s.matches@.len() as int)) as usize
                } else {
                    s.current_match
                }) && r is Handled,
                Key::Esc => s2.query == s.query && s2.current_match == s.current_match && r
                    == KeyOutcome::ShowTicketDetailsView(p, t),
                _ => s2.query == s.query && s2.current_match == s.current_match && r is Handled,
            },
            AppState::TicketFieldEdit(p, t, e) => *final(state) matches AppState::TicketFieldEdit(
                p2,
                t2,
                e2,
            ) && p2 == p && t2 == t && e2.field == e.field && e2.edit_type == e.edit_type
                && e2.original_value == e.original_value && match key {
                Key::Char(c) => r is Handled && if e.edit_type == EditType::TextEdit {
                    e2.current_value@ == edited(e.current_value@, Some(c)) && e2.is_modified == (
                    e2.current_value@ != e.original_value@)
                } else {
                    e2.current_value == e.current_value && e2.is_modified == e.is_modified
                },
                Key::Backspace => r is Handled && if e.edit_type == EditType::TextEdit {
                    e2.current_value@ == edited(e.current_value@, None) && e2.is_modified == (
                    e2.current_value@ != e.original_value@)
                } else {
                    e2.current_value == e.current_value && e2.is_modified == e.is_modified
                },
                Key::Enter => e2.current_value == e.current_value && e2.is_modified
                    == e.is_modified && r is Submit,
                Key::Esc => e2.current_value == e.current_value && e2.is_modified
                    == e.is_modified && r == KeyOutcome::ShowTicketDetailsView(p, t),
                _ => e2.current_value == e.current_value && e2.is_modified == e.is_modified && r is Handled,
            },
            _ => *final(state) == *old(state) && global_key_outcome(
                *old(state),
                key,
                selected_index as int,
                field_count as int,
                r,
            ),
        },
{
    match state {
        AppState::Input(input_state) => {
            return match key {
                Key::Char(c) => {
                    crate::text::push_char(&mut input_state.input, c);
                    KeyOutcome::Handled
                },
                Key::Backspace => {
                    pop_char(&mut input_state.input);
                    KeyOutcome::Handled
                },
                Key::Enter => KeyOutcome::Submit,
                Key::Esc => KeyOutcome::GoBack,
                _ => KeyOutcome::Handled,
            };
        },
        AppState::TicketSearch(project_name, ticket_id, search_state) => {
            return match key {
                Key::Char(c) => {
                    crate::text::push_char(&mut search_state.query, c);
                    KeyOutcome::Handled
                },
                Key::Backspace => {
                    pop_char(&mut search_state.query);
                    KeyOutcome::Handled
                },
                Key::Enter => {
                    let n = search_state.matches.len();
                    if n > 0 {
                        search_state.current_match = (search_state.current_match + 1) % n;
                    }
                    KeyOutcome::Handled
                },
                Key::Esc => KeyOutcome::ShowTicketDetailsView(project_name.clone(), ticket_id.clone()),
                _ => KeyOutcome::Handled,
            };
        },
        AppState::TicketFieldEdit(project_name, ticket_id, edit_state) => {
            return match key {
                Key::Char(c) => {
                    if edit_state.edit_type == EditType::TextEdit {
                        crate::text::push_char(&mut edit_state.current_value, c);
                        edit_state.is_modified = edit_state.current_value != edit_state.original_value;
                    }
                    KeyOutcome::Handled
                },
                Key::Backspace => {
                    if edit_state.edit_type == EditType::TextEdit {
                        pop_char(&mut edit_state.current_value);
                        edit_state.is_modified = edit_state.current_value != edit_state.original_value;
                    }
                    KeyOutcome::Handled
                },
                Key::Enter => KeyOutcome::Submit,
                Key::Esc => KeyOutcome::ShowTicketDetailsView(project_name.clone(), ticket_id.clone()),
                _ => KeyOutcome::Handled,
            };
        },
        _ => {},
    }
    match key {
        Key::Char('q') | Key::Esc => {
            match state {
                AppState::MainMenu => KeyOutcome::Quit,
                AppState::Loading(_) | AppState::Error(_) => KeyOutcome::ReturnToContext,
                _ => KeyOutcome::GoBack,
            }
        },
        Key::Char('/') => {
            match state {
                AppState::TicketDetailsView(project_name, ticket_id) => KeyOutcome::StartSearch(
                    project_name.clone(),
                    ticket_id.clone(),
                ),
                _ => KeyOutcome::Handled,
            }
        },
        Key::Char('l') | Key::Char('L') => KeyOutcome::ToggleLogs,
        Key::Up => KeyOutcome::MoveUp,
        Key::Down => KeyOutcome::MoveDown,
        Key::Enter => KeyOutcome::Submit,
        Key::Char(c) => {
            match state {
                AppState::TicketDetailsView(_, _) => {
                    if '1' <= c && c <= '9' && selected_index < field_count {
                        KeyOutcome::FieldAction((c as usize) - ('1' as usize))
                    } else {
                        KeyOutcome::Handled
                    }
                },
                _ => KeyOutcome::Handled,
            }
        },
        _ => KeyOutcome::Handled,
    }
}


/// Where going back from a screen leads.
#[derive(Debug)]
pub enum BackStep {
    ReturnToContext,
    MainMenu,
    ProjectMenu(String),
    TicketList(String),
    TicketDetailsView(String, TicketId),
}

/// Going back: notices and errors return to the screen they interrupted;
/// project lists and a project's menu lead to the main menu; a ticket list
/// to its project's menu; a ticket's menu or details to the ticket list;
/// search, field editing and quick refine to the ticket's details; anything
/// else to the main menu.
pub open spec fn back_step_of(state: AppState) -> BackStep {
    match state {
        AppState::Loading(_) => BackStep::ReturnToContext,
        AppState::Error(_) => BackStep::ReturnToContext,
        AppState::TicketList(p) => BackStep::ProjectMenu(p),
        AppState::TicketDetail(p, _) => BackStep::TicketList(p),
        AppState::TicketDetailsView(p, _) => BackStep::TicketList(p),
        AppState::TicketSearch(p, t, _) => BackStep::TicketDetailsView(p, t),
        AppState::TicketFieldEdit(p, t, _) => BackStep::TicketDetailsView(p, t),
        AppState::QuickRefine(p, t) => BackStep::TicketDetailsView(p, t),
        _ => BackStep::MainMenu,
    }
}

/// Where going back from `state` leads.
pub fn back_step(state: &AppState) -> (r: BackStep)
    ensures
        r == back_step_of(*state),
{
    match state {
        AppState::Loading(_) | AppState::Error(_) => BackStep::ReturnToContext,
        AppState::TicketList(p) => BackStep::ProjectMenu(p.clone()),
        AppState::TicketDetail(p, _) => BackStep::TicketList(p.clone()),
        AppState::TicketDetailsView(p, _) => BackStep::TicketList(p.clone()),
        AppState::TicketSearch(p, t, _) => BackStep::TicketDetailsView(p.clone(), t.clone()),
        AppState::TicketFieldEdit(p, t, _) => BackStep::TicketDetailsView(p.clone(), t.clone()),
        AppState::QuickRefine(p, t) => BackStep::TicketDetailsView(p.clone(), t.clone()),
        _ => BackStep::MainMenu,
    }
}

/// Whether the screen is remembered when another one replaces it: every
/// screen but notices and errors.
pub fn remembers(state: &AppState) -> (r: bool)
    ensures
        r == !(state is Loading || state is Error),
{
    match state {
        AppState::Loading(_) | AppState::Error(_) => false,
        _ => true,
    }
}

/// Where returning from a notice or an error leads, given the remembered
/// screen.
#[derive(Debug)]
pub enum ContextStep {
    GoBack,
    TicketDetailsView(String, TicketId),
    TicketList(String),
    ProjectMenu(String),
    MainMenu,
    Restore,
}

/// Returning to the remembered screen: a ticket's menu, details, search or
/// field edit reopen the ticket's details; a ticket list and a project menu
/// are rebuilt; project creation and the main menu give the main menu; other
/// screens are restored as they were; with nothing remembered, go back.
pub open spec fn context_step_of(previous: Option<AppState>) -> ContextStep {
    match previous {
        None => ContextStep::GoBack,
        Some(s) => match s {
            AppState::TicketDetail(p, t) => ContextStep::TicketDetailsView(p, t),
            AppState::TicketDetailsView(p, t) => ContextStep::TicketDetailsView(p, t),
            AppState::TicketSearch(p, t, _) => ContextStep::TicketDetailsView(p, t),
            AppState::TicketFieldEdit(p, t, _) => ContextStep::TicketDetailsView(p, t),
            AppState::TicketList(p) => ContextStep::TicketList(p),
            AppState::ProjectMenu(p) => ContextStep::ProjectMenu(p),
            AppState::CreateProject => ContextStep::MainMenu,
            AppState::MainMenu => ContextStep::MainMenu,
            _ => ContextStep::Restore,
        },
    }
}

/// Where returning to the remembered screen leads.
pub fn context_step(previous: &Option<AppState>) -> (r: ContextStep)
    ensures
        r == context_step_of(*previous),
{
    match previous {
        None => ContextStep::GoBack,
        Some(s) => match s {
            AppState::TicketDetail(p, t) => ContextStep::TicketDetailsView(p.clone(), t.clone()),
            AppState::TicketDetailsView(p, t) => ContextStep::TicketDetailsView(p.clone(), t.clone()),
            AppState::TicketSearch(p, t, _) => ContextStep::TicketDetailsView(p.clone(), t.clone()),
            AppState::TicketFieldEdit(p, t, _) => ContextStep::TicketDetailsView(p.clone(), t.clone()),
            AppState::TicketList(p) => ContextStep::TicketList(p.clone()),
            AppState::ProjectMenu(p) => ContextStep::ProjectMenu(p.clone()),
            AppState::CreateProject | AppState::MainMenu => ContextStep::MainMenu,
            _ => ContextStep::Restore,
        },
    }
}

/// An entry chosen in the main menu.
#[derive(Debug, Clone, Copy, PartialEq, Eq, Structural)]
pub enum MainMenuChoice {
    ListProjects,
    CreateProject,
    OpenProject,
    DeleteProject,
    Exit,
    Nothing,
}

/// The main-menu entry at `index`, in menu order.
pub fn main_menu_choice(index: usize) -> (r: MainMenuChoice)
    ensures
        r == if index == 0 {
            MainMenuChoice::ListProjects
        } else if index == 1 {
            MainMenuChoice::CreateProject
        } else if index == 2 {
            MainMenuChoice::OpenProject
        } else if index == 3 {
            MainMenuChoice::DeleteProject
        } else if index == 4 {
            MainMenuChoice::Exit
        } else {
            MainMenuChoice::Nothing
        },
{
    match index {
        0 => MainMenuChoice::ListProjects,
        1 => MainMenuChoice::CreateProject,
        2 => MainMenuChoice::OpenProject,
        3 => MainMenuChoice::DeleteProject,
        4 => MainMenuChoice::Exit,
        _ => MainMenuChoice::Nothing,
    }
}

/// An entry chosen in a project's menu.
#[derive(Debug, Clone, Copy, PartialEq, Eq, Structural)]
pub enum ProjectMenuChoice {
    ViewTickets,
    CreateTicket,
    SaveProject,
    MainMenu,
    Nothing,
}

/// The project-menu entry at `index`, in menu order.
pub fn project_menu_choice(index: usize) -> (r: ProjectMenuChoice)
    ensures
        r == if index == 0 {
            ProjectMenuChoice::ViewTickets
        } else if index == 1 {
            ProjectMenuChoice::CreateTicket
        } else if index == 2 {
            ProjectMenuChoice::SaveProject
        } else if index == 3 {
            ProjectMenuChoice::MainMenu
        } else {
            ProjectMenuChoice::Nothing
        },
{
    match index {
        0 => ProjectMenuChoice::ViewTickets,
        1 => ProjectMenuChoice::CreateTicket,
        2 => ProjectMenuChoice::SaveProject,
        3 => ProjectMenuChoice::MainMenu,
        _ => ProjectMenuChoice::Nothing,
    }
}

/// An entry chosen in a ticket's action menu.
#[derive(Debug, Clone, Copy, PartialEq, Eq, Structural)]
pub enum TicketMenuChoice {
    DetailsView,
    ViewRefinements,
    QuickRefine,
    ViewDependencies,
    ViewDependents,
    TicketList,
    Nothing,
}

/// The ticket-menu entry at `index`, in menu order.
pub fn ticket_menu_choice(index: usize) -> (r: TicketMenuChoice)
    ensures
        r == if index == 0 {
            TicketMenuChoice::DetailsView
        } else if index == 1 {
            TicketMenuChoice::ViewRefinements
        } else if index == 2 {
            TicketMenuChoice::QuickRefine
        } else if index == 3 {
            TicketMenuChoice::ViewDependencies
        } else if index == 4 {
            TicketMenuChoice::ViewDependents
        } else if index == 5 {
            TicketMenuChoice::TicketList
        } else {
            TicketMenuChoice::Nothing
        },
{
    match index {
        0 => TicketMenuChoice::DetailsView,
        1 => TicketMenuChoice::ViewRefinements,
        2 => TicketMenuChoice::QuickRefine,
        3 => TicketMenuChoice::ViewDependencies,
        4 => TicketMenuChoice::ViewDependents,
        5 => TicketMenuChoice::TicketList,
        _ => TicketMenuChoice::Nothing,
    }
}

/// The notice shown while a ticket-menu entry is being looked at, for the
/// entries that show one.
pub fn ticket_menu_notice(choice: TicketMenuChoice) -> (r: Option<&'static str>)
    ensures
        match choice {
            TicketMenuChoice::ViewRefinements => r matches Some(m) && m@
                == "Viewing refinement requests..."@,
            TicketMenuChoice::ViewDependencies => r matches Some(m) && m@ == "Viewing dependencies..."@,
            TicketMenuChoice::ViewDependents => r matches Some(m) && m@ == "Viewing dependents..."@,
            _ => r is None,
        },
{
    match choice {
        TicketMenuChoice::ViewRefinements => Some("Viewing refinement requests..."),
        TicketMenuChoice::ViewDependencies => Some("Viewing dependencies..."),
        TicketMenuChoice::ViewDependents => Some("Viewing dependents..."),
        _ => None,
    }
}

/// A choice in a list of projects followed by "← Back".
#[derive(Debug, Clone, Copy, PartialEq, Eq, Structural)]
pub enum ListChoice {
    Project(usize),
    Back,
    Nothing,
}

/// The entry at `index` in a list of `count` projects followed by "← Back".
pub fn project_list_choice(index: usize, count: usize) -> (r: ListChoice)
    ensures
        r == if index < count {
            ListChoice::Project(index)
        } else if index == count {
            ListChoice::Back
        } else {
            ListChoice::Nothing
        },
{
    if index < count {
        ListChoice::Project(index)
    } else if index == count {
        ListChoice::Back
    } else {
        ListChoice::Nothing
    }
}

/// Whether the selection in a read-only list of `item_count` entries is its
/// last entry, "← Back" (the list always has it).
pub fn is_back_entry(index: usize, item_count: usize) -> (r: bool)
    requires
        item_count > 0,
    ensures
        r == (index == item_count - 1),
{
    index == item_count - 1
}


/// A backspace right after typing a character gives back the text as it
/// was.
pub proof fn law_backspace_undoes_typing(t: Seq<char>, c: char)
    ensures
        edited(edited(t, Some(c)), None) == t,
{
    assert(t.push(c).drop_last() =~= t);
}

/// Moving the selection down and then up returns to the item it was on,
/// when there was an item below; either move keeps a selection that was
/// inside the menu inside it.
pub proof fn law_down_then_up_returns(selected: int, scroll: int, len: int)
    requires
        0 <= selected < len,
        0 <= scroll,
    ensures
        after_down(selected, scroll, len).0 < len,
        after_up(selected, scroll).0 < len,
        selected + 1 < len ==> after_up(after_down(selected, scroll, len).0, after_down(selected, scroll, len).1).0 == selected,
{
}

} // verus!
