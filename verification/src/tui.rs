//! The decisions behind the terminal interface: log collection, screen states,
//! field names, values and actions, and parsing of edited values.
use vstd::prelude::*;
use std::collections::VecDeque;
use crate::ticket::{
    Project, TicketNode, term_lookup, TicketId, TicketDecomposition, TicketStatus, Priority, Complexity, RefinementPriority,
};
use crate::text::{
    owned, eq_lit, to_uppercase, uppercase_text, concat2, concat3, decimal, decimal_string, append_str, prefix,
    prefix_string,
};

verus! {

/// One line of the log pane.
#[derive(Debug)]
pub struct LogEntry {
    pub timestamp: String,
    pub level: String,
    pub message: String,
    pub target: Option<String>,
}

impl Clone for LogEntry {
    fn clone(&self) -> (r: Self)
        ensures
            r == *self,
    {
        LogEntry {
            timestamp: self.timestamp.clone(),
            level: self.level.clone(),
            message: self.message.clone(),
            target: match &self.target {
                Some(t) => Some(t.clone()),
                None => None,
            },
        }
    }
}

/// The most recent log entries, oldest first, never more than `max_entries`.
#[derive(Debug)]
pub struct LogCollector {
    entries: VecDeque<LogEntry>,
    max_entries: usize,
}

impl View for LogCollector {
    type V = Seq<LogEntry>;

    closed spec fn view(&self) -> Seq<LogEntry> {
        self.entries@
    }
}

/// The entries kept after adding `e` to `s` with room for `max`: the oldest one
/// goes when there are too many.
pub open spec fn after_add(s: Seq<LogEntry>, e: LogEntry, max: usize) -> Seq<LogEntry> {
    if s.len() + 1 > max {
        s.push(e).drop_first()
    } else {
        s.push(e)
    }
}

impl LogCollector {
    #[verifier::type_invariant]
    spec fn bounded(&self) -> bool {
        self.entries@.len() <= self.max_entries
    }

    /// How many entries are kept at most.
    pub closed spec fn capacity(&self) -> usize {
        self.max_entries
    }

    /// An empty collector keeping at most `max_entries` entries.
    pub fn new(max_entries: usize) -> (c: LogCollector)
        ensures
            c@ == Seq::<LogEntry>::empty(),
            c.capacity() == max_entries,
    {
        LogCollector { entries: VecDeque::new(), max_entries }
    }

    /// Adds an entry, dropping the oldest one when the collector is full.
    pub fn add_entry(&mut self, entry: LogEntry)
        ensures
            final(self)@ == after_add(old(self)@, entry, old(self).capacity()),
            final(self).capacity() == old(self).capacity(),
            final(self)@.len() <= final(self).capacity(),
    {
        proof {
            use_type_invariant(&*self);
        }
        let mut entries = VecDeque::new();
        std::mem::swap(&mut entries, &mut self.entries);
        entries.push_back(entry);
        if entries.len() > self.max_entries {
            entries.pop_front();
        }
        self.entries = entries;
    }

    /// The kept entries, oldest first.
    pub fn get_entries(&self) -> (r: Vec<LogEntry>)
        ensures
            r@ == self@,
            r@.len() <= self.capacity(),
    {
        proof {
            use_type_invariant(self);
        }
        let mut r: Vec<LogEntry> = Vec::new();
        let n = self.entries.len();
        for i in 0..n
            invariant
                n == self.entries@.len(),
                r@ == self.entries@.take(i as int),
        {
            r.push(self.entries[i].clone());
            proof {
                assert(r@ =~= self.entries@.take(i + 1));
            }
        }
        proof {
            assert(self.entries@.take(n as int) =~= self.entries@);
        }
        r
    }

    /// Drops every entry.
    pub fn clear(&mut self)
        ensures
            final(self)@ == Seq::<LogEntry>::empty(),
            final(self).capacity() == old(self).capacity(),
    {
        let mut entries = VecDeque::new();
        std::mem::swap(&mut entries, &mut self.entries);
        entries.clear();
        self.entries = entries;
    }
}

/// Turns log events into entries of a collector.
#[derive(Debug)]
pub struct TuiLayer {
    pub collector: LogCollector,
}

impl TuiLayer {
    /// A layer feeding `collector`.
    pub fn new(collector: LogCollector) -> (l: TuiLayer)
        ensures
            l.collector == collector,
    {
        TuiLayer { collector }
    }

    /// Records one event: an empty target is recorded as none.
    pub fn record(&mut self, timestamp: String, level: String, message: String, target: String)
        ensures
            final(self).collector@ == after_add(
                old(self).collector@,
                LogEntry {
                    timestamp,
                    level,
                    message,
                    target: if target@.len() == 0 { None } else { Some(target) },
                },
                old(self).collector.capacity(),
            ),
            final(self).collector.capacity() == old(self).collector.capacity(),
    {
        let t = if target.as_str().is_empty() {
            None
        } else {
            Some(target)
        };
        self.collector.add_entry(LogEntry { timestamp, level, message, target: t });
    }
}


/// The outcome of work done in the background.
#[derive(Debug)]
pub enum BackgroundTaskResult {
    RefinementComplete { project_name: String, parent_ticket_id: TicketId, term: String, ticket: TicketDecomposition },
    TicketComplete { project_name: String, ticket: TicketDecomposition },
    TaskError { error: String },
}

/// A field of a ticket shown in the details view.
#[derive(Debug, Clone)]
pub enum TicketField {
    Title,
    RawInput,
    Status,
    Priority,
    Complexity,
    Terms(String),
    ValidationMethod(usize),
    OpenQuestion(usize),
    EngineQuestion(usize),
    RefinementRequest(usize),
    Dependencies,
    Dependents,
}

/// A place where a search query was found.
#[derive(Debug, Clone)]
pub struct SearchMatch {
    pub field: TicketField,
    pub text: String,
    pub match_start: usize,
    pub match_end: usize,
}

/// A search within a ticket.
#[derive(Debug, Clone)]
pub struct SearchState {
    pub query: String,
    pub matches: Vec<SearchMatch>,
    pub current_match: usize,
}

/// How a field is edited.
#[derive(Debug, Clone, Copy, PartialEq, Eq, Structural)]
pub enum EditType {
    TextEdit,
    StatusSelect,
    PrioritySelect,
    ComplexitySelect,
}

/// A field being edited.
#[derive(Debug, Clone)]
pub struct FieldEditState {
    pub field: TicketField,
    pub edit_type: EditType,
    pub current_value: String,
    pub original_value: String,
    pub is_modified: bool,
}

/// A line of text being typed, and the screen to return to.
#[derive(Debug)]
pub struct InputState {
    pub title: String,
    pub prompt: String,
    pub input: String,
    pub return_state: Box<AppState>,
}

/// The screen the interface shows.
#[derive(Debug)]
pub enum AppState {
    MainMenu,
    ListProjects,
    OpenProject,
    DeleteProject,
    ProjectMenu(String),
    TicketList(String),
    TicketDetail(String, TicketId),
    TicketDetailsView(String, TicketId),
    TicketFieldAction(String, TicketId, TicketField),
    TicketSearch(String, TicketId, SearchState),
    TicketFieldEdit(String, TicketId, FieldEditState),
    CreateProject,
    CreateTicket(String),
    QuickRefine(String, TicketId),
    Input(InputState),
    Loading(String),
    Error(String),
}

/// The status an upper-cased text names.
pub open spec fn status_named(u: Seq<char>) -> Option<TicketStatus> {
    if u == "AWAITING_REFINEMENT"@ || u == "AWAITING REFINEMENT"@ || u == "REFINEMENT"@ {
        Some(TicketStatus::AwaitingRefinement)
    } else if u == "IN_PROGRESS"@ || u == "IN PROGRESS"@ || u == "PROGRESS"@ {
        Some(TicketStatus::InProgress)
    } else if u == "UNDER_REVIEW"@ || u == "UNDER REVIEW"@ || u == "REVIEW"@ {
        Some(TicketStatus::UnderReview)
    } else if u == "COMPLETE"@ || u == "COMPLETED"@ || u == "DONE"@ {
        Some(TicketStatus::Complete)
    } else if u == "BLOCKED"@ || u == "BLOCK"@ {
        Some(TicketStatus::Blocked)
    } else {
        None
    }
}

/// The priority an upper-cased text names.
pub open spec fn priority_named(u: Seq<char>) -> Option<Priority> {
    if u == "LOW"@ {
        Some(Priority::Low)
    } else if u == "MEDIUM"@ || u == "MED"@ {
        Some(Priority::Medium)
    } else if u == "HIGH"@ {
        Some(Priority::High)
    } else if u == "CRITICAL"@ || u == "CRIT"@ {
        Some(Priority::Critical)
    } else {
        None
    }
}

/// A typed priority reads back as the priority it shows: when the text's
/// upper-case form is the upper-case form of how priority `p` is shown
/// (e.g. "high", "High" or "HIGH" for high), reading it gives `p`.
pub proof fn law_shown_priority_reads_back(p: Priority, typed: Seq<char>, r: Result<Priority, String>)
    requires
        uppercase_text(typed) == crate::text::ascii_upper(priority_label(p)),
        match r {
            Ok(q) => priority_named(uppercase_text(typed)) == Some(q),
            Err(_) => priority_named(uppercase_text(typed)) is None,
        },
    ensures
        r == Ok::<Priority, String>(p),
{
    reveal_strlit("Low");
    reveal_strlit("Medium");
    reveal_strlit("High");
    reveal_strlit("Critical");
    reveal_strlit("LOW");
    reveal_strlit("MEDIUM");
    reveal_strlit("HIGH");
    reveal_strlit("CRITICAL");
    reveal_strlit("MED");
    reveal_strlit("CRIT");
    let u = crate::text::ascii_upper(priority_label(p));
    match p {
        Priority::Low => {
            assert(u =~= "LOW"@);
            assert(priority_named(u) == Some(Priority::Low));
        },
        Priority::Medium => {
            assert(u =~= "MEDIUM"@);
            assert(priority_named(u) == Some(Priority::Medium));
        },
        Priority::High => {
            assert(u =~= "HIGH"@);
            assert(priority_named(u) == Some(Priority::High));
        },
        Priority::Critical => {
            assert(u =~= "CRITICAL"@);
            assert(priority_named(u) == Some(Priority::Critical));
        },
    }
}

/// The complexity an upper-cased text names.
pub open spec fn complexity_named(u: Seq<char>) -> Option<Complexity> {
    if u == "LOW"@ {
        Some(Complexity::Low)
    } else if u == "MEDIUM"@ || u == "MED"@ {
        Some(Complexity::Medium)
    } else if u == "MEDIUM_HIGH"@ || u == "MEDIUM HIGH"@ || u == "MED HIGH"@ {
        Some(Complexity::MediumHigh)
    } else if u == "HIGH"@ {
        Some(Complexity::High)
    } else if u == "VERY_HIGH"@ || u == "VERY HIGH"@ || u == "VERY"@ {
        Some(Complexity::VeryHigh)
    } else {
        None
    }
}

/// Reads an edited status, in any letter case.
pub fn parse_status(status_str: &str) -> (r: Result<TicketStatus, String>)
    ensures
        match r {
            Ok(st) => status_named(uppercase_text(status_str@)) == Some(st),
            Err(e) => status_named(uppercase_text(status_str@)) is None && e@ == "Invalid status: "@ + status_str@,
        },
{
    let u = to_uppercase(status_str);
    let u = u.as_str();
    if eq_lit(u, "AWAITING_REFINEMENT") || eq_lit(u, "AWAITING REFINEMENT") || eq_lit(u, "REFINEMENT") {
        Ok(TicketStatus::AwaitingRefinement)
    } else if eq_lit(u, "IN_PROGRESS") || eq_lit(u, "IN PROGRESS") || eq_lit(u, "PROGRESS") {
        Ok(TicketStatus::InProgress)
    } else if eq_lit(u, "UNDER_REVIEW") || eq_lit(u, "UNDER REVIEW") || eq_lit(u, "REVIEW") {
        Ok(TicketStatus::UnderReview)
    } else if eq_lit(u, "COMPLETE") || eq_lit(u, "COMPLETED") || eq_lit(u, "DONE") {
        Ok(TicketStatus::Complete)
    } else if eq_lit(u, "BLOCKED") || eq_lit(u, "BLOCK") {
        Ok(TicketStatus::Blocked)
    } else {
        Err(concat2("Invalid status: ", status_str))
    }
}

/// Reads an edited priority, in any letter case.
pub fn parse_priority(priority_str: &str) -> (r: Result<Priority, String>)
    ensures
        match r {
            Ok(p) => priority_named(uppercase_text(priority_str@)) == Some(p),
            Err(e) => priority_named(uppercase_text(priority_str@)) is None && e@ == "Invalid priority: "@ + priority_str@,
        },
{
    let u = to_uppercase(priority_str);
    let u = u.as_str();
    if eq_lit(u, "LOW") {
        Ok(Priority::Low)
    } else if eq_lit(u, "MEDIUM") || eq_lit(u, "MED") {
        Ok(Priority::Medium)
    } else if eq_lit(u, "HIGH") {
        Ok(Priority::High)
    } else if eq_lit(u, "CRITICAL") || eq_lit(u, "CRIT") {
        Ok(Priority::Critical)
    } else {
        Err(concat2("Invalid priority: ", priority_str))
    }
}

/// Reads an edited complexity, in any letter case.
pub fn parse_complexity(complexity_str: &str) -> (r: Result<Complexity, String>)
    ensures
        match r {
            Ok(c) => complexity_named(uppercase_text(complexity_str@)) == Some(c),
            Err(e) => complexity_named(uppercase_text(complexity_str@)) is None
                && e@ == "Invalid complexity: "@ + complexity_str@,
        },
{
    let u = to_uppercase(complexity_str);
    let u = u.as_str();
    if eq_lit(u, "LOW") {
        Ok(Complexity::Low)
    } else if eq_lit(u, "MEDIUM") || eq_lit(u, "MED") {
        Ok(Complexity::Medium)
    } else if eq_lit(u, "MEDIUM_HIGH") || eq_lit(u, "MEDIUM HIGH") || eq_lit(u, "MED HIGH") {
        Ok(Complexity::MediumHigh)
    } else if eq_lit(u, "HIGH") {
        Ok(Complexity::High)
    } else if eq_lit(u, "VERY_HIGH") || eq_lit(u, "VERY HIGH") || eq_lit(u, "VERY") {
        Ok(Complexity::VeryHigh)
    } else {
        Err(concat2("Invalid complexity: ", complexity_str))
    }
}


/// How a status is printed for debugging (its variant name).
pub open spec fn status_label(s: TicketStatus) -> Seq<char> {
    match s {
        TicketStatus::AwaitingRefinement => "AwaitingRefinement"@,
        TicketStatus::InProgress => "InProgress"@,
        TicketStatus::UnderReview => "UnderReview"@,
        TicketStatus::Complete => "Complete"@,
        TicketStatus::Blocked => "Blocked"@,
    }
}

/// How a priority is printed for debugging (its variant name).
pub open spec fn priority_label(p: Priority) -> Seq<char> {
    match p {
        Priority::Low => "Low"@,
        Priority::Medium => "Medium"@,
        Priority::High => "High"@,
        Priority::Critical => "Critical"@,
    }
}

/// How a complexity is printed for debugging (its variant name).
pub open spec fn complexity_label(c: Complexity) -> Seq<char> {
    match c {
        Complexity::Low => "Low"@,
        Complexity::Medium => "Medium"@,
        Complexity::MediumHigh => "MediumHigh"@,
        Complexity::High => "High"@,
        Complexity::VeryHigh => "VeryHigh"@,
    }
}

/// The marker shown before a refinement request of each priority.
pub open spec fn priority_marker(p: RefinementPriority) -> Seq<char> {
    match p {
        RefinementPriority::Critical => "🔥"@,
        RefinementPriority::High => "🟥"@,
        RefinementPriority::Medium => "🟨"@,
        RefinementPriority::Low => "🟩"@,
    }
}

/// Computes `status_label`.
pub fn status_text(s: TicketStatus) -> (r: &'static str)
    ensures
        r@ == status_label(s),
{
    match s {
        TicketStatus::AwaitingRefinement => "AwaitingRefinement",
        TicketStatus::InProgress => "InProgress",
        TicketStatus::UnderReview => "UnderReview",
        TicketStatus::Complete => "Complete",
        TicketStatus::Blocked => "Blocked",
    }
}

/// Computes `priority_label`.
pub fn priority_text(p: Priority) -> (r: &'static str)
    ensures
        r@ == priority_label(p),
{
    match p {
        Priority::Low => "Low",
        Priority::Medium => "Medium",
        Priority::High => "High",
        Priority::Critical => "Critical",
    }
}

/// Computes `complexity_label`.
pub fn complexity_text(c: Complexity) -> (r: &'static str)
    ensures
        r@ == complexity_label(c),
{
    match c {
        Complexity::Low => "Low",
        Complexity::Medium => "Medium",
        Complexity::MediumHigh => "MediumHigh",
        Complexity::High => "High",
        Complexity::VeryHigh => "VeryHigh",
    }
}

/// Computes `priority_marker`.
pub fn priority_emoji(p: RefinementPriority) -> (r: &'static str)
    ensures
        r@ == priority_marker(p),
{
    match p {
        RefinementPriority::Critical => "🔥",
        RefinementPriority::High => "🟥",
        RefinementPriority::Medium => "🟨",
        RefinementPriority::Low => "🟩",
    }
}

/// A numbered field's position counts from one on screen.
pub open spec fn field_index_ok(field: TicketField) -> bool {
    match field {
        TicketField::ValidationMethod(i) => i < usize::MAX,
        TicketField::OpenQuestion(i) => i < usize::MAX,
        TicketField::EngineQuestion(i) => i < usize::MAX,
        TicketField::RefinementRequest(i) => i < usize::MAX,
        _ => true,
    }
}

/// `label` followed by the one-based number of position `i`.
pub open spec fn numbered(label: Seq<char>, i: usize) -> Seq<char> {
    label + decimal((i + 1) as nat)
}

/// The name of a field as shown on screen.
pub open spec fn field_display_name(field: TicketField) -> Seq<char> {
    match field {
        TicketField::Title => "Title"@,
        TicketField::RawInput => "Raw Input"@,
        TicketField::Status => "Status"@,
        TicketField::Priority => "Priority"@,
        TicketField::Complexity => "Complexity"@,
        TicketField::Terms(term) => "Term: "@ + term@,
        TicketField::ValidationMethod(i) => numbered("Validation #"@, i),
        TicketField::OpenQuestion(i) => numbered("Question #"@, i),
        TicketField::EngineQuestion(i) => numbered("Engine Q #"@, i),
        TicketField::RefinementRequest(i) => numbered("Refinement #"@, i),
        TicketField::Dependencies => "Dependencies"@,
        TicketField::Dependents => "Dependents"@,
    }
}

/// Computes `numbered`.
fn numbered_text(label: &str, i: usize) -> (r: String)
    requires
        i < usize::MAX,
    ensures
        r@ == numbered(label@, i),
{
    let d = decimal_string(i + 1);
    concat2(label, d.as_str())
}

/// The name of a field as shown on screen.
pub fn get_field_display_name(field: &TicketField) -> (r: String)
    requires
        field_index_ok(*field),
    ensures
        r@ == field_display_name(*field),
{
    match field {
        TicketField::Title => owned("Title"),
        TicketField::RawInput => owned("Raw Input"),
        TicketField::Status => owned("Status"),
        TicketField::Priority => owned("Priority"),
        TicketField::Complexity => owned("Complexity"),
        TicketField::Terms(term) => concat2("Term: ", term.as_str()),
        TicketField::ValidationMethod(i) => numbered_text("Validation #", *i),
        TicketField::OpenQuestion(i) => numbered_text("Question #", *i),
        TicketField::EngineQuestion(i) => numbered_text("Engine Q #", *i),
        TicketField::RefinementRequest(i) => numbered_text("Refinement #", *i),
        TicketField::Dependencies => owned("Dependencies"),
        TicketField::Dependents => owned("Dependents"),
    }
}

/// The text at position `i`, if there is one.
pub open spec fn nth_text(v: Seq<String>, i: usize) -> Option<Seq<char>> {
    if i < v.len() {
        Some(v[i as int]@)
    } else {
        None
    }
}

/// `found`'s text when there is one, else `missing`.
pub open spec fn text_or(found: Option<Seq<char>>, missing: Seq<char>) -> Seq<char> {
    match found {
        Some(t) => t,
        None => missing,
    }
}

/// The ticket `id` of the loaded project, if any.
pub open spec fn loaded_node(project: Option<&Project>, id: Seq<char>) -> Option<TicketNode> {
    match project {
        Some(p) => if p.graph.has(id) {
            Some(p.graph.node(id))
        } else {
            None
        },
        None => None,
    }
}

/// The project, if any, has a well-formed graph.
pub open spec fn project_ok(project: Option<&Project>) -> bool {
    match project {
        Some(p) => p.graph.wf(),
        None => true,
    }
}

/// The value a field starts editing with, and how it is edited.
pub open spec fn field_value(node: TicketNode, field: TicketField) -> Option<(Seq<char>, EditType)> {
    let t = node.ticket;
    match field {
        TicketField::Title => Some((t.original_ticket.title@, EditType::TextEdit)),
        TicketField::RawInput => Some((t.original_ticket.raw_input@, EditType::TextEdit)),
        TicketField::Status => Some((status_label(t.decomposed_ticket.metadata.status), EditType::StatusSelect)),
        TicketField::Priority => Some((priority_label(t.decomposed_ticket.metadata.priority), EditType::PrioritySelect)),
        TicketField::Complexity => Some(
            (complexity_label(t.decomposed_ticket.metadata.estimated_complexity), EditType::ComplexitySelect),
        ),
        TicketField::Terms(key) => Some(
            (text_or(term_lookup(t.decomposed_ticket.terms@, key@), "Definition not found"@), EditType::TextEdit),
        ),
        TicketField::ValidationMethod(i) => Some(
            (text_or(nth_text(t.decomposed_ticket.validation_method@, i), "Method not found"@), EditType::TextEdit),
        ),
        TicketField::OpenQuestion(i) => Some(
            (text_or(nth_text(t.decomposed_ticket.open_questions@, i), "Question not found"@), EditType::TextEdit),
        ),
        TicketField::EngineQuestion(i) => Some(
            (text_or(nth_text(t.decomposed_ticket.engine_questions@, i), "Question not found"@), EditType::TextEdit),
        ),
        TicketField::RefinementRequest(i) => Some(
            (
                if i < t.decomposed_ticket.terms_needing_refinement@.len() {
                    let req = t.decomposed_ticket.terms_needing_refinement@[i as int];
                    req.term@ + " - "@ + req.reason@
                } else {
                    "Request not found"@
                },
                EditType::TextEdit,
            ),
        ),
        TicketField::Dependencies => None,
        TicketField::Dependents => None,
    }
}

fn text_at_or(v: &Vec<String>, i: usize, missing: &str) -> (r: String)
    ensures
        r@ == text_or(nth_text(v@, i), missing@),
{
    if i < v.len() {
        v[i].clone()
    } else {
        owned(missing)
    }
}

/// The value a field of the ticket `ticket_id` starts editing with, and how it
/// is edited; fails when no project is loaded, the ticket is missing, or the
/// field cannot be edited.
pub fn get_field_current_value(project: Option<&Project>, ticket_id: &TicketId, field: &TicketField) -> (r: Result<(String, EditType), String>)
    requires
        project_ok(project),
    ensures
        match r {
            Ok((v, k)) => loaded_node(project, ticket_id@) matches Some(node)
                && field_value(node, *field) == Some((v@, k)),
            Err(e) => e@ == match project {
                None => "No project loaded"@,
                Some(p) => if !p.graph.has(ticket_id@) {
                    "Ticket not found"@
                } else {
                    "Field type not supported for editing"@
                },
            } && (loaded_node(project, ticket_id@) matches Some(node) ==> field_value(node, *field) is None),
        },
{
    let p = match project {
        Some(p) => p,
        None => {
            return Err(owned("No project loaded"));
        },
    };
    let node = match p.graph.get_ticket(ticket_id) {
        Some(n) => n,
        None => {
            return Err(owned("Ticket not found"));
        },
    };
    let t = &node.ticket;
    match field {
        TicketField::Title => Ok((t.original_ticket.title.clone(), EditType::TextEdit)),
        TicketField::RawInput => Ok((t.original_ticket.raw_input.clone(), EditType::TextEdit)),
        TicketField::Status => Ok(
            (owned(status_text(t.decomposed_ticket.metadata.status)), EditType::StatusSelect),
        ),
        TicketField::Priority => Ok(
            (owned(priority_text(t.decomposed_ticket.metadata.priority)), EditType::PrioritySelect),
        ),
        TicketField::Complexity => Ok(
            (owned(complexity_text(t.decomposed_ticket.metadata.estimated_complexity)), EditType::ComplexitySelect),
        ),
        TicketField::Terms(key) => {
            let d = match t.decomposed_ticket.term_definition(key.as_str()) {
                Some(d) => d.clone(),
                None => owned("Definition not found"),
            };
            Ok((d, EditType::TextEdit))
        },
        TicketField::ValidationMethod(i) => Ok(
            (text_at_or(&t.decomposed_ticket.validation_method, *i, "Method not found"), EditType::TextEdit),
        ),
        TicketField::OpenQuestion(i) => Ok(
            (text_at_or(&t.decomposed_ticket.open_questions, *i, "Question not found"), EditType::TextEdit),
        ),
        TicketField::EngineQuestion(i) => Ok(
            (text_at_or(&t.decomposed_ticket.engine_questions, *i, "Question not found"), EditType::TextEdit),
        ),
        TicketField::RefinementRequest(i) => {
            let text = if *i < t.decomposed_ticket.terms_needing_refinement.len() {
                let req = &t.decomposed_ticket.terms_needing_refinement[*i];
                concat3(req.term.as_str(), " - ", req.reason.as_str())
            } else {
                owned("Request not found")
            };
            Ok((text, EditType::TextEdit))
        },
        TicketField::Dependencies | TicketField::Dependents => Err(owned("Field type not supported for editing")),
    }
}


/// The texts of a list of strings.
pub open spec fn texts(v: Seq<String>) -> Seq<Seq<char>> {
    v.map_values(|s: String| s@)
}

/// The actions offered for a title field.
pub open spec fn title_actions() -> Seq<Seq<char>> {
    seq!["View full title"@, "Edit title"@, "Copy to clipboard"@]
}

/// The actions offered for a raw field.
pub open spec fn raw_actions() -> Seq<Seq<char>> {
    seq!["View full content"@, "Edit raw input"@, "Re-decompose ticket"@, "Copy to clipboard"@]
}

/// The actions offered for a status field.
pub open spec fn status_actions() -> Seq<Seq<char>> {
    seq!["Change status"@, "View status history"@, "Copy status"@]
}

/// The actions offered for a priority field.
pub open spec fn priority_actions() -> Seq<Seq<char>> {
    seq!["Change priority"@, "View priority reasoning"@, "Copy priority"@]
}

/// The actions offered for a complexity field.
pub open spec fn complexity_actions() -> Seq<Seq<char>> {
    seq!["Re-estimate complexity"@, "View complexity breakdown"@, "Copy complexity"@]
}

/// The actions offered for a term field.
pub open spec fn term_actions() -> Seq<Seq<char>> {
    seq!["View full definition"@, "Edit definition"@, "Create refinement ticket"@, "Find related terms"@, "Copy term and definition"@]
}

/// The actions offered for a validation field.
pub open spec fn validation_actions() -> Seq<Seq<char>> {
    seq!["View full method"@, "Execute validation"@, "Edit method"@, "Create validation ticket"@, "Copy method"@]
}

/// The actions offered for a open field.
pub open spec fn open_actions() -> Seq<Seq<char>> {
    seq!["View full question"@, "Answer question"@, "Create research ticket"@, "Mark as resolved"@, "Copy question"@]
}

/// The actions offered for a engine field.
pub open spec fn engine_actions() -> Seq<Seq<char>> {
    seq!["View full question"@, "Provide answer"@, "Create investigation ticket"@, "Escalate to expert"@, "Copy question"@]
}

/// The actions offered for a refinement field.
pub open spec fn refinement_actions() -> Seq<Seq<char>> {
    seq!["View full request"@, "Create refinement ticket"@, "Change priority"@, "Mark as resolved"@, "Research term"@, "Copy request"@]
}

/// The actions offered for a deps field.
pub open spec fn deps_actions() -> Seq<Seq<char>> {
    seq!["View all dependencies"@, "Add new dependency"@, "Remove dependency"@, "Navigate to dependency"@, "Export dependency list"@]
}

/// The actions offered for a dents field.
pub open spec fn dents_actions() -> Seq<Seq<char>> {
    seq!["View all dependents"@, "Navigate to dependent"@, "View dependency graph"@, "Export dependents list"@]
}

fn title_action_list() -> (r: Vec<String>)
    ensures
        texts(r@) == title_actions(),
{
    let mut r: Vec<String> = Vec::new();
    r.push(owned("View full title"));
    r.push(owned("Edit title"));
    r.push(owned("Copy to clipboard"));
    proof {
        assert(texts(r@) =~= title_actions());
    }
    r
}

fn raw_action_list() -> (r: Vec<String>)
    ensures
        texts(r@) == raw_actions(),
{
    let mut r: Vec<String> = Vec::new();
    r.push(owned("View full content"));
    r.push(owned("Edit raw input"));
    r.push(owned("Re-decompose ticket"));
    r.push(owned("Copy to clipboard"));
    proof {
        assert(texts(r@) =~= raw_actions());
    }
    r
}

fn status_action_list() -> (r: Vec<String>)
    ensures
        texts(r@) == status_actions(),
{
    let mut r: Vec<String> = Vec::new();
    r.push(owned("Change status"));
    r.push(owned("View status history"));
    r.push(owned("Copy status"));
    proof {
        assert(texts(r@) =~= status_actions());
    }
    r
}

fn priority_action_list() -> (r: Vec<String>)
    ensures
        texts(r@) == priority_actions(),
{
    let mut r: Vec<String> = Vec::new();
    r.push(owned("Change priority"));
    r.push(owned("View priority reasoning"));
    r.push(owned("Copy priority"));
    proof {
        assert(texts(r@) =~= priority_actions());
    }
    r
}

fn complexity_action_list() -> (r: Vec<String>)
    ensures
        texts(r@) == complexity_actions(),
{
    let mut r: Vec<String> = Vec::new();
    r.push(owned("Re-estimate complexity"));
    r.push(owned("View complexity breakdown"));
    r.push(owned("Copy complexity"));
    proof {
        assert(texts(r@) =~= complexity_actions());
    }
    r
}

fn term_action_list() -> (r: Vec<String>)
    ensures
        texts(r@) == term_actions(),
{
    let mut r: Vec<String> = Vec::new();
    r.push(owned("View full definition"));
    r.push(owned("Edit definition"));
    r.push(owned("Create refinement ticket"));
    r.push(owned("Find related terms"));
    r.push(owned("Copy term and definition"));
    proof {
        assert(texts(r@) =~= term_actions());
    }
    r
}

fn validation_action_list() -> (r: Vec<String>)
    ensures
        texts(r@) == validation_actions(),
{
    let mut r: Vec<String> = Vec::new();
    r.push(owned("View full method"));
    r.push(owned("Execute validation"));
    r.push(owned("Edit method"));
    r.push(owned("Create validation ticket"));
    r.push(owned("Copy method"));
    proof {
        assert(texts(r@) =~= validation_actions());
    }
    r
}

fn open_action_list() -> (r: Vec<String>)
    ensures
        texts(r@) == open_actions(),
{
    let mut r: Vec<String> = Vec::new();
    r.push(owned("View full question"));
    r.push(owned("Answer question"));
    r.push(owned("Create research ticket"));
    r.push(owned("Mark as resolved"));
    r.push(owned("Copy question"));
    proof {
        assert(texts(r@) =~= open_actions());
    }
    r
}

fn engine_action_list() -> (r: Vec<String>)
    ensures
        texts(r@) == engine_actions(),
{
    let mut r: Vec<String> = Vec::new();
    r.push(owned("View full question"));
    r.push(owned("Provide answer"));
    r.push(owned("Create investigation ticket"));
    r.push(owned("Escalate to expert"));
    r.push(owned("Copy question"));
    proof {
        assert(texts(r@) =~= engine_actions());
    }
    r
}

fn refinement_action_list() -> (r: Vec<String>)
    ensures
        texts(r@) == refinement_actions(),
{
    let mut r: Vec<String> = Vec::new();
    r.push(owned("View full request"));
    r.push(owned("Create refinement ticket"));
    r.push(owned("Change priority"));
    r.push(owned("Mark as resolved"));
    r.push(owned("Research term"));
    r.push(owned("Copy request"));
    proof {
        assert(texts(r@) =~= refinement_actions());
    }
    r
}

fn deps_action_list() -> (r: Vec<String>)
    ensures
        texts(r@) == deps_actions(),
{
    let mut r: Vec<String> = Vec::new();
    r.push(owned("View all dependencies"));
    r.push(owned("Add new dependency"));
    r.push(owned("Remove dependency"));
    r.push(owned("Navigate to dependency"));
    r.push(owned("Export dependency list"));
    proof {
        assert(texts(r@) =~= deps_actions());
    }
    r
}

fn dents_action_list() -> (r: Vec<String>)
    ensures
        texts(r@) == dents_actions(),
{
    let mut r: Vec<String> = Vec::new();
    r.push(owned("View all dependents"));
    r.push(owned("Navigate to dependent"));
    r.push(owned("View dependency graph"));
    r.push(owned("Export dependents list"));
    proof {
        assert(texts(r@) =~= dents_actions());
    }
    r
}

fn single(text: &str) -> (r: Vec<String>)
    ensures
        texts(r@) == seq![text@],
{
    let mut r: Vec<String> = Vec::new();
    r.push(owned(text));
    proof {
        assert(texts(r@) =~= seq![text@]);
    }
    r
}

/// A preview: the first `n` characters followed by an ellipsis.
pub open spec fn preview(s: Seq<char>, n: int) -> Seq<char> {
    prefix(s, n) + "..."@
}

/// The actions offered for a field of a ticket, with a line describing the field.
pub open spec fn field_actions(node: TicketNode, field: TicketField) -> (Seq<Seq<char>>, Seq<char>) {
    let t = node.ticket;
    match field {
        TicketField::Title => (title_actions(), "Title: "@ + t.original_ticket.title@),
        TicketField::RawInput => (raw_actions(), "Raw Input: "@ + preview(t.original_ticket.raw_input@, 50)),
        TicketField::Status => (status_actions(), "Status: "@ + status_label(t.decomposed_ticket.metadata.status)),
        TicketField::Priority => (priority_actions(), "Priority: "@ + priority_label(t.decomposed_ticket.metadata.priority)),
        TicketField::Complexity => (
            complexity_actions(),
            "Complexity: "@ + complexity_label(t.decomposed_ticket.metadata.estimated_complexity),
        ),
        TicketField::Terms(key) => match term_lookup(t.decomposed_ticket.terms@, key@) {
            Some(d) => (term_actions(), "Term: "@ + key@ + " = "@ + preview(d, 40)),
            None => (seq!["Term not found"@], "Term: "@ + key@),
        },
        TicketField::ValidationMethod(i) => match nth_text(t.decomposed_ticket.validation_method@, i) {
            Some(m) => (validation_actions(), numbered("Validation #"@, i) + ": "@ + preview(m, 40)),
            None => (seq!["Method not found"@], numbered("Validation #"@, i)),
        },
        TicketField::OpenQuestion(i) => match nth_text(t.decomposed_ticket.open_questions@, i) {
            Some(q) => (open_actions(), numbered("Open Question #"@, i) + ": "@ + preview(q, 40)),
            None => (seq!["Question not found"@], numbered("Open Question #"@, i)),
        },
        TicketField::EngineQuestion(i) => match nth_text(t.decomposed_ticket.engine_questions@, i) {
            Some(q) => (engine_actions(), numbered("Engine Question #"@, i) + ": "@ + preview(q, 40)),
            None => (seq!["Question not found"@], numbered("Engine Question #"@, i)),
        },
        TicketField::RefinementRequest(i) => if i < t.decomposed_ticket.terms_needing_refinement@.len() {
            let req = t.decomposed_ticket.terms_needing_refinement@[i as int];
            (
                refinement_actions(),
                priority_marker(req.priority) + " "@ + numbered("Refinement #"@, i) + ": "@ + req.term@ + " - "@ + req.reason@,
            )
        } else {
            (seq!["Request not found"@], numbered("Refinement #"@, i))
        },
        TicketField::Dependencies => (deps_actions(), "Dependencies ("@ + decimal(node.dependencies@.len()) + ")"@),
        TicketField::Dependents => (dents_actions(), "Dependents ("@ + decimal(node.dependents@.len()) + ")"@),
    }
}

/// Computes `preview`.
fn preview_text(s: &str, n: usize) -> (r: String)
    ensures
        r@ == preview(s@, n as int),
{
    let mut r = prefix_string(s, n);
    append_str(&mut r, "...");
    r
}

/// The actions offered for `field` of the ticket `ticket_id`, with a line
/// describing the field; a single explanatory action when no project is loaded
/// or the ticket is missing.
pub fn get_field_actions_with_content(project: Option<&Project>, ticket_id: &TicketId, field: &TicketField) -> (r: (Vec<String>, String))
    requires
        project_ok(project),
        field_index_ok(*field),
    ensures
        match loaded_node(project, ticket_id@) {
            Some(node) => (texts(r.0@), r.1@) == field_actions(node, *field),
            None => (texts(r.0@), r.1@) == (
                seq![if project is None { "No project loaded"@ } else { "Ticket not found"@ }],
                "Unknown"@,
            ),
        },
{
    let p = match project {
        Some(p) => p,
        None => {
            return (single("No project loaded"), owned("Unknown"));
        },
    };
    let node = match p.graph.get_ticket(ticket_id) {
        Some(n) => n,
        None => {
            return (single("Ticket not found"), owned("Unknown"));
        },
    };
    let t = &node.ticket;
    match field {
        TicketField::Title => (title_action_list(), concat2("Title: ", t.original_ticket.title.as_str())),
        TicketField::RawInput => {
            let pv = preview_text(t.original_ticket.raw_input.as_str(), 50);
            (raw_action_list(), concat2("Raw Input: ", pv.as_str()))
        },
        TicketField::Status => (
            status_action_list(),
            concat2("Status: ", status_text(t.decomposed_ticket.metadata.status)),
        ),
        TicketField::Priority => (
            priority_action_list(),
            concat2("Priority: ", priority_text(t.decomposed_ticket.metadata.priority)),
        ),
        TicketField::Complexity => (
            complexity_action_list(),
            concat2("Complexity: ", complexity_text(t.decomposed_ticket.metadata.estimated_complexity)),
        ),
        TicketField::Terms(key) => match t.decomposed_ticket.term_definition(key.as_str()) {
            Some(d) => {
                let pv = preview_text(d.as_str(), 40);
                let mut c = concat3("Term: ", key.as_str(), " = ");
                append_str(&mut c, pv.as_str());
                (term_action_list(), c)
            },
            None => (single("Term not found"), concat2("Term: ", key.as_str())),
        },
        TicketField::ValidationMethod(i) => {
            let label = numbered_text("Validation #", *i);
            if *i < t.decomposed_ticket.validation_method.len() {
                let pv = preview_text(t.decomposed_ticket.validation_method[*i].as_str(), 40);
                (validation_action_list(), concat3(label.as_str(), ": ", pv.as_str()))
            } else {
                (single("Method not found"), label)
            }
        },
        TicketField::OpenQuestion(i) => {
            let label = numbered_text("Open Question #", *i);
            if *i < t.decomposed_ticket.open_questions.len() {
                let pv = preview_text(t.decomposed_ticket.open_questions[*i].as_str(), 40);
                (open_action_list(), concat3(label.as_str(), ": ", pv.as_str()))
            } else {
                (single("Question not found"), label)
            }
        },
        TicketField::EngineQuestion(i) => {
            let label = numbered_text("Engine Question #", *i);
            if *i < t.decomposed_ticket.engine_questions.len() {
                let pv = preview_text(t.decomposed_ticket.engine_questions[*i].as_str(), 40);
                (engine_action_list(), concat3(label.as_str(), ": ", pv.as_str()))
            } else {
                (single("Question not found"), label)
            }
        },
        TicketField::RefinementRequest(i) => {
            let label = numbered_text("Refinement #", *i);
            if *i < t.decomposed_ticket.terms_needing_refinement.len() {
                let req = &t.decomposed_ticket.terms_needing_refinement[*i];
                let mut c = concat3(priority_emoji(req.priority), " ", label.as_str());
                append_str(&mut c, ": ");
                append_str(&mut c, req.term.as_str());
                append_str(&mut c, " - ");
                append_str(&mut c, req.reason.as_str());
                (refinement_action_list(), c)
            } else {
                (single("Request not found"), label)
            }
        },
        TicketField::Dependencies => {
            let d = decimal_string(node.dependencies.len());
            (deps_action_list(), concat3("Dependencies (", d.as_str(), ")"))
        },
        TicketField::Dependents => {
            let d = decimal_string(node.dependents.len());
            (dents_action_list(), concat3("Dependents (", d.as_str(), ")"))
        },
    }
}

} // verus!
