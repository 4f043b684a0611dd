//! The project screens of the terminal interface: opening the lists of
//! projects, a project's ticket list, a ticket's action menu and its quick
//! refine list, and the two steps of creating a project.
use vstd::prelude::*;
use crate::nav::{project_list_items, views};
use crate::text::{append_str, chars_of, owned, string_from_chars, trim_chars, trimmed};
use crate::nav::ticket_action_texts;
use crate::screens::{quick_refine_items, quick_refine_texts, ticket_actions_for, ticket_list_items, ticket_list_texts};
use crate::ticket::{Project, ProjectManager, TicketId};
use crate::tui::{loaded_node, project_ok, AppState, InputState};

verus! {

/// The purpose a list of projects is shown for.
#[derive(Debug, Clone, Copy, PartialEq, Eq, Structural)]
pub enum ProjectListPurpose {
    Browse,
    Open,
    Delete,
}

/// The entries of a list of projects: the names (marked for deletion in
/// the delete list) followed by the way back.
pub open spec fn project_entries(names: Seq<Seq<char>>, purpose: ProjectListPurpose) -> Seq<Seq<char>> {
    match purpose {
        ProjectListPurpose::Delete => names.map_values(|n: Seq<char>| "Delete: "@ + n).push("← Back"@),
        _ => names.push("← Back"@),
    }
}

/// The entries of a list of projects; fails when there is no project.
pub fn project_list_screen(names: &Vec<String>, purpose: ProjectListPurpose) -> (r: Result<Vec<String>, String>)
    ensures
        names@.len() == 0 ==> (r matches Err(e) && e@ == "No projects found."@),
        names@.len() > 0 ==> (r matches Ok(items) && views(items@) == project_entries(views(names@), purpose)),
{
    if names.len() == 0 {
        return Err(owned("No projects found."));
    }
    match purpose {
        ProjectListPurpose::Delete => {
            let mut items: Vec<String> = Vec::new();
            let n = names.len();
            for i in 0..n
                invariant
                    n == names@.len(),
                    views(items@) == views(names@.take(i as int)).map_values(|m: Seq<char>| "Delete: "@ + m),
            {
                let ghost before = items@;
                let mut line = owned("Delete: ");
                append_str(&mut line, names[i].as_str());
                items.push(line);
                proof {
                    assert(views(items@) =~= views(before).push("Delete: "@ + names@[i as int]@));
                    assert(views(names@.take(i + 1)) =~= views(names@.take(i as int)).push(names@[i as int]@));
                    assert(views(names@.take(i + 1)).map_values(|m: Seq<char>| "Delete: "@ + m) =~= views(
                        names@.take(i as int),
                    ).map_values(|m: Seq<char>| "Delete: "@ + m).push("Delete: "@ + names@[i as int]@));
                }
            }
            let ghost before = views(items@);
            items.push(owned("← Back"));
            proof {
                assert(names@.take(n as int) =~= names@);
                assert(views(items@) =~= before.push("← Back"@));
            }
            Ok(items)
        },
        _ => Ok(project_list_items(names)),
    }
}

/// The screen that asks for a new project's name.
pub fn new_project_input() -> (s: InputState)
    ensures
        s.title@ == "Create New Project"@,
        s.prompt@ == "Enter project name:"@,
        s.input@.len() == 0,
        *s.return_state == AppState::CreateProject,
{
    InputState {
        title: owned("Create New Project"),
        prompt: owned("Enter project name:"),
        input: String::new(),
        return_state: Box::new(AppState::CreateProject),
    }
}

/// The screen that asks for a new ticket's description.
pub fn new_ticket_input(project_name: String) -> (s: InputState)
    ensures
        s.title@ == "Create New Ticket"@,
        s.prompt@ == "Enter ticket description:"@,
        s.input@.len() == 0,
        *s.return_state == AppState::CreateTicket(project_name),
{
    InputState {
        title: owned("Create New Ticket"),
        prompt: owned("Enter ticket description:"),
        input: String::new(),
        return_state: Box::new(AppState::CreateTicket(project_name)),
    }
}

/// The first step of creating a project: the name, trimmed, must be given
/// and new; then its description is asked for.
pub fn project_name_step(manager: &ProjectManager, name: &str) -> (r: Result<(String, InputState), String>)
    requires
        manager.wf(),
    ensures
        trimmed(name@).len() == 0 ==> (r matches Err(e) && e@ == "Project name cannot be empty. Please try again."@),
        trimmed(name@).len() > 0 && manager.index().contains_key(trimmed(name@)) ==> (r matches Err(e) && e@
            == "Project '"@ + trimmed(name@) + "' already exists. Please choose a different name."@),
        trimmed(name@).len() > 0 && !manager.index().contains_key(trimmed(name@)) ==> (r matches Ok((n, s))
            && n@ == trimmed(name@) && s.title@ == "Create Project: "@ + trimmed(name@)
            && s.prompt@ == "Enter project description:"@ && s.input@.len() == 0
            && *s.return_state == AppState::CreateProject),
{
    let t = trim_chars(chars_of(name).as_slice());
    let tn = string_from_chars(t.as_slice());
    if t.len() == 0 {
        return Err(owned("Project name cannot be empty. Please try again."));
    }
    if manager.position(tn.as_str()).is_some() {
        let mut e = owned("Project '");
        append_str(&mut e, tn.as_str());
        append_str(&mut e, "' already exists. Please choose a different name.");
        return Err(e);
    }
    let mut title = owned("Create Project: ");
    append_str(&mut title, tn.as_str());
    let s = InputState {
        title,
        prompt: owned("Enter project description:"),
        input: String::new(),
        return_state: Box::new(AppState::CreateProject),
    };
    Ok((tn, s))
}

/// The screen after the second step of creating a project: without a
/// pending name, an error; else a notice of how the creation went.
pub fn project_created_state(pending_name: Option<&str>, outcome: Result<(), String>) -> (s: AppState)
    ensures
        match pending_name {
            None => s matches AppState::Error(e) && e@ == "Project name not found - please try again"@,
            Some(name) => match outcome {
                Ok(_) => s matches AppState::Loading(m) && m@ == "✅ Project '"@ + name@ + "' created successfully!"@,
                Err(why) => s matches AppState::Error(m) && m@ == "Failed to create project '"@ + name@ + "': "@ + why@,
            },
        },
{
    match pending_name {
        None => AppState::Error(owned("Project name not found - please try again")),
        Some(name) => match outcome {
            Ok(_) => {
                let mut m = owned("✅ Project '");
                append_str(&mut m, name);
                append_str(&mut m, "' created successfully!");
                AppState::Loading(m)
            },
            Err(why) => {
                let mut m = owned("Failed to create project '");
                append_str(&mut m, name);
                append_str(&mut m, "': ");
                append_str(&mut m, why.as_str());
                AppState::Error(m)
            },
        },
    }
}

/// A change of screen: the screen shown next (`None`: it stays), the menu
/// items (`None`: they stay), and whether the selection and the scroll go
/// back to the top.
#[derive(Debug)]
pub struct ScreenChange {
    pub state: Option<AppState>,
    pub items: Option<Vec<String>>,
    pub reset_selection: bool,
}

/// The screen of a list of projects opened for a purpose.
pub open spec fn list_state_for(purpose: ProjectListPurpose) -> AppState {
    match purpose {
        ProjectListPurpose::Browse => AppState::ListProjects,
        ProjectListPurpose::Open => AppState::OpenProject,
        ProjectListPurpose::Delete => AppState::DeleteProject,
    }
}

/// Opens a list of the projects `names`: with no project, the error screen
/// "No projects found." and the items as they were; else the list's screen
/// and entries. Either way the selection and the scroll go to the top.
pub fn open_project_list(names: &Vec<String>, purpose: ProjectListPurpose) -> (c: ScreenChange)
    ensures
        c.reset_selection,
        names@.len() == 0 ==> (c.state matches Some(AppState::Error(e)) && e@ == "No projects found."@
            && c.items is None),
        names@.len() > 0 ==> (c.state == Some(list_state_for(purpose)) && (c.items matches Some(items)
            && views(items@) == project_entries(views(names@), purpose))),
{
    match project_list_screen(names, purpose) {
        Err(e) => ScreenChange { state: Some(AppState::Error(e)), items: None, reset_selection: true },
        Ok(items) => {
            let state = match purpose {
                ProjectListPurpose::Browse => AppState::ListProjects,
                ProjectListPurpose::Open => AppState::OpenProject,
                ProjectListPurpose::Delete => AppState::DeleteProject,
            };
            ScreenChange { state: Some(state), items: Some(items), reset_selection: true }
        },
    }
}

/// Opens the ticket list of the loaded project `project_name`.
pub fn open_ticket_list(project: &Project, project_name: String) -> (c: ScreenChange)
    ensures
        c.reset_selection,
        c.state == Some(AppState::TicketList(project_name)),
        c.items matches Some(items) && views(items@) == ticket_list_texts(project.graph.nodes@),
{
    ScreenChange {
        state: Some(AppState::TicketList(project_name)),
        items: Some(ticket_list_items(project)),
        reset_selection: true,
    }
}

/// Opens the action menu of ticket `ticket_id`: its entries with the
/// ticket's counts when the ticket is found, without counts when it is not,
/// and unchanged when no project is loaded; the screen becomes the ticket's
/// menu, with the selection and the scroll at the top.
pub fn open_ticket_actions(project: Option<&Project>, project_name: String, ticket_id: &TicketId) -> (c: ScreenChange)
    requires
        project_ok(project),
    ensures
        c.reset_selection,
        c.state == Some(AppState::TicketDetail(project_name, *ticket_id)),
        project is None ==> c.items is None,
        project is Some ==> (c.items matches Some(items) && views(items@) == ticket_action_texts(
            match loaded_node(project, ticket_id@) {
                Some(n) => Some(
                    (
                        n.ticket.decomposed_ticket.terms_needing_refinement@.len() as usize,
                        n.dependencies@.len() as usize,
                        n.dependents@.len() as usize,
                    ),
                ),
                None => None,
            },
        )),
{
    let items = match project {
        Some(p) => Some(ticket_actions_for(p.graph.get_ticket(ticket_id))),
        None => None,
    };
    ScreenChange {
        state: Some(AppState::TicketDetail(project_name, ticket_id.clone())),
        items,
        reset_selection: true,
    }
}

/// Opens the quick refine list of ticket `ticket_id`: nothing changes when
/// no project is loaded or the ticket is missing; a ticket without
/// refinement requests gives the error screen; otherwise the list of its
/// requests, with the selection and the scroll at the top.
pub fn open_quick_refine(project: Option<&Project>, project_name: String, ticket_id: &TicketId) -> (c: ScreenChange)
    requires
        project_ok(project),
    ensures
        match loaded_node(project, ticket_id@) {
            None => c.state is None && c.items is None && !c.reset_selection,
            Some(n) => if n.ticket.decomposed_ticket.terms_needing_refinement@.len() == 0 {
                c.state matches Some(AppState::Error(e)) && e@ == "No terms need refinement in this ticket."@
                    && c.items is None && !c.reset_selection
            } else {
                c.state == Some(AppState::QuickRefine(project_name, *ticket_id)) && c.reset_selection && (
                c.items matches Some(items) && views(items@) == quick_refine_texts(
                    n.ticket.decomposed_ticket.terms_needing_refinement@,
                ))
            },
        },
{
    let unchanged = ScreenChange { state: None, items: None, reset_selection: false };
    let p = match project {
        Some(p) => p,
        None => {
            return unchanged;
        },
    };
    let node = match p.graph.get_ticket(ticket_id) {
        Some(n) => n,
        None => {
            return unchanged;
        },
    };
    match quick_refine_items(&node.ticket.decomposed_ticket.terms_needing_refinement) {
        Err(e) => ScreenChange { state: Some(AppState::Error(e)), items: None, reset_selection: false },
        Ok(items) => ScreenChange {
            state: Some(AppState::QuickRefine(project_name, ticket_id.clone())),
            items: Some(items),
            reset_selection: true,
        },
    }
}

} // verus!
