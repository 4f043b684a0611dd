//! What the ticket screens do with a selected field: open the answer prompt
//! of a question, start refining a term and file the refinement ticket that
//! comes back, find the references to a term across the project, and list
//! the tickets a ticket could depend on.
use vstd::prelude::*;
use crate::text::{
    append_str, chars_of, contains, contains_text, decimal, decimal_string, lowercase_text, owned, prefix, prefix_string,
    to_lowercase, trim_chars, trimmed,
};
use crate::digest::content_id;
use crate::reach::with_edge;
use crate::ticket::{
    add_dependency_error, term_lookup, Project, RefinementContext, RefinementPriority, RefinementRequest,
    TicketDecomposition, TicketId, TicketNode,
};
use crate::tui::{
    field_value, get_field_current_value, loaded_node, nth_text, project_ok, text_or, AppState, EditType, FieldEditState,
    InputState, SearchState, TicketField,
};

verus! {

/// The question a field names in the loaded project, if it names one.
pub open spec fn asked_question(project: Option<&Project>, id: Seq<char>, field: TicketField) -> Option<Seq<char>> {
    match loaded_node(project, id) {
        None => None,
        Some(n) => match field {
            TicketField::OpenQuestion(i) => nth_text(n.ticket.decomposed_ticket.open_questions@, i),
            TicketField::EngineQuestion(i) => nth_text(n.ticket.decomposed_ticket.engine_questions@, i),
            _ => None,
        },
    }
}

/// The field is one of a ticket's questions.
pub open spec fn is_question_field(field: TicketField) -> bool {
    field matches TicketField::OpenQuestion(_) || field matches TicketField::EngineQuestion(_)
}

/// The prompt that asks for the answer to a question.
pub open spec fn answer_prompt(question: Seq<char>) -> Seq<char> {
    "Question: "@ + question + "\n\nEnter your answer:"@
}

/// The input screen that takes the answer to the question a field names, to
/// return to the ticket's details; fails when the field is not a question
/// and when the question is not there.
pub fn answer_question_input(project: Option<&Project>, project_name: String, ticket_id: &TicketId, field: &TicketField) -> (r:
    Result<InputState, String>)
    requires
        project_ok(project),
    ensures
        !is_question_field(*field) ==> (r matches Err(e) && e@ == "Invalid field for question answering"@),
        is_question_field(*field) ==> match asked_question(project, ticket_id@, *field) {
            None => r matches Err(e) && e@ == "Question not found"@,
            Some(q) => r matches Ok(s) && s.title@ == "Answer Question"@ && s.prompt@ == answer_prompt(q)
                && s.input@.len() == 0 && *s.return_state == AppState::TicketDetailsView(project_name, *ticket_id),
        },
{
    let found: Option<&String> = match field {
        TicketField::OpenQuestion(i) => match project {
            Some(p) => match p.graph.get_ticket(ticket_id) {
                Some(n) => if *i < n.ticket.decomposed_ticket.open_questions.len() {
                    Some(&n.ticket.decomposed_ticket.open_questions[*i])
                } else {
                    None
                },
                None => None,
            },
            None => None,
        },
        TicketField::EngineQuestion(i) => match project {
            Some(p) => match p.graph.get_ticket(ticket_id) {
                Some(n) => if *i < n.ticket.decomposed_ticket.engine_questions.len() {
                    Some(&n.ticket.decomposed_ticket.engine_questions[*i])
                } else {
                    None
                },
                None => None,
            },
            None => None,
        },
        _ => {
            return Err(owned("Invalid field for question answering"));
        },
    };
    match found {
        Some(q) => {
            let mut prompt = owned("Question: ");
            append_str(&mut prompt, q.as_str());
            append_str(&mut prompt, "\n\nEnter your answer:");
            Ok(
                InputState {
                    title: owned("Answer Question"),
                    prompt,
                    input: String::new(),
                    return_state: Box::new(AppState::TicketDetailsView(project_name, ticket_id.clone())),
                },
            )
        },
        None => Err(owned("Question not found")),
    }
}

/// The context handed to the refinement of term `term` of a ticket.
pub open spec fn refinement_context_text(node: TicketNode, term: Seq<char>) -> Seq<char> {
    let t = node.ticket;
    "Context from parent ticket '"@ + t.original_ticket.title@ + "': "@ + t.original_ticket.raw_input@
        + "\n\nTerm being refined: "@ + term + "\nCurrent definition: "@ + text_or(
        term_lookup(t.decomposed_ticket.terms@, term),
        "Definition not found"@,
    ) + "\n\nPlease provide a more detailed definition for this term."@
}

/// The term a refinement starts from and its context; fails when the field
/// is not a term, when no project is loaded and when the ticket is missing.
pub fn term_refinement_context(project: Option<&Project>, ticket_id: &TicketId, field: &TicketField) -> (r: Result<
    (String, String),
    String,
>)
    requires
        project_ok(project),
    ensures
        match *field {
            TicketField::Terms(term) => match project {
                None => r matches Err(e) && e@ == "No project loaded"@,
                Some(p) => match loaded_node(project, ticket_id@) {
                    None => r matches Err(e) && e@ == "Ticket not found"@,
                    Some(n) => r matches Ok((t, c)) && t == term && c@ == refinement_context_text(n, term@),
                },
            },
            _ => r matches Err(e) && e@ == "Invalid field for term refinement"@,
        },
{
    let term = match field {
        TicketField::Terms(term) => term,
        _ => {
            return Err(owned("Invalid field for term refinement"));
        },
    };
    let p = match project {
        Some(p) => p,
        None => {
            return Err(owned("No project loaded"));
        },
    };
    let node = match p.graph.get_ticket(ticket_id) {
        Some(n) => n,
        None => {
            return Err(owned("Ticket not found"));
        },
    };
    let t = &node.ticket;
    let mut c = owned("Context from parent ticket '");
    append_str(&mut c, t.original_ticket.title.as_str());
    append_str(&mut c, "': ");
    append_str(&mut c, t.original_ticket.raw_input.as_str());
    append_str(&mut c, "\n\nTerm being refined: ");
    append_str(&mut c, term.as_str());
    append_str(&mut c, "\nCurrent definition: ");
    match t.decomposed_ticket.term_definition(term.as_str()) {
        Some(d) => append_str(&mut c, d.as_str()),
        None => append_str(&mut c, "Definition not found"),
    }
    append_str(&mut c, "\n\nPlease provide a more detailed definition for this term.");
    Ok((term.clone(), c))
}

/// The request sent to refine `term` in `context`: of medium priority, with
/// a reason naming the term.
pub fn term_refinement_request(term: String, context: String) -> (r: RefinementRequest)
    ensures
        r.term == term,
        r.context == context,
        r.reason@ == "Term '"@ + term@ + "' needs refinement for clarity"@,
        r.priority == RefinementPriority::Medium,
{
    let mut reason = owned("Term '");
    append_str(&mut reason, term.as_str());
    append_str(&mut reason, "' needs refinement for clarity");
    RefinementRequest { term, context, reason, priority: RefinementPriority::Medium }
}

/// The refinement context of term `term` of ticket `parent_ticket_id`, with
/// no further context.
pub fn term_refinement_context_for(parent_ticket_id: TicketId, term: String, context: String) -> (r: RefinementContext)
    ensures
        r.parent_ticket_id == parent_ticket_id,
        r.term_being_refined == term,
        r.original_context == context,
        r.additional_context@.len() == 0,
{
    RefinementContext {
        parent_ticket_id,
        term_being_refined: term,
        original_context: context,
        additional_context: Vec::new(),
    }
}

/// Files the refinement ticket that came back for a term of
/// `parent_ticket_id`: the ticket is added, then made to depend on its
/// parent; when that link cannot be made the ticket stays, unlinked, and the
/// reason is given.
pub fn file_refinement(
    project: &mut Project,
    parent_ticket_id: &TicketId,
    ticket: TicketDecomposition,
    serialized_ticket: &str,
) -> (r: Result<TicketId, String>)
    requires
        old(project).graph.wf(),
    ensures
        final(project).graph.wf(),
        final(project).name == old(project).name,
        final(project).graph.has(content_id(serialized_ticket@)),
        final(project).graph.node(content_id(serialized_ticket@)).ticket == ticket,
        match r {
            Ok(id) => id@ == content_id(serialized_ticket@) && final(project).graph.dep_map() == with_edge(
                old(project).graph.dep_map().insert(id@, Set::empty()),
                id@,
                parent_ticket_id@,
            ),
            Err(e) => add_dependency_error(final(project).graph, content_id(serialized_ticket@), parent_ticket_id@)
                matches Some(m) && e@ == "Failed to link refinement dependency: "@ + m
                && final(project).graph.dep_map() == old(project).graph.dep_map().insert(
                content_id(serialized_ticket@),
                Set::empty(),
            ),
        },
{
    let id = project.add_ticket(ticket, serialized_ticket);
    let ghost mid = project.graph;
    match project.graph.add_dependency(&id, parent_ticket_id) {
        Ok(_) => {
            proof {
                let g = project.graph;
                assert(mid.ids().len() == g.ids().len());
                assert forall|i: int| 0 <= i < mid.nodes@.len() implies (#[trigger] mid.nodes@[i]).id@
                    == g.nodes@[i].id@ by {
                    assert(mid.ids()[i] == g.ids()[i]);
                }
                crate::ticket::lemma_same_ids(mid, g);
                let k = content_id(serialized_ticket@);
                assert(g.node(k).ticket == mid.nodes@[mid.index_of(k)].ticket);
            }
            Ok(id)
        },
        Err(e) => {
            let mut m = owned("Failed to link refinement dependency: ");
            append_str(&mut m, e.as_str());
            Err(m)
        },
    }
}

/// The notice shown once a refinement ticket is filed.
pub fn refinement_filed_notice(term: &str, id: &TicketId) -> (r: String)
    ensures
        r@ == "✅ Refinement ticket created for term '"@ + term@ + "': "@ + id@,
{
    let mut r = owned("✅ Refinement ticket created for term '");
    append_str(&mut r, term);
    append_str(&mut r, "': ");
    append_str(&mut r, id.as_str());
    r
}

/// The notice shown once a new ticket is filed.
pub fn ticket_filed_notice(id: &TicketId) -> (r: String)
    ensures
        r@ == "✅ Ticket created successfully! ID: "@ + id@,
{
    let mut r = owned("✅ Ticket created successfully! ID: ");
    append_str(&mut r, id.as_str());
    r
}

/// The line naming a term of ticket `id` that matches a search.
pub open spec fn term_reference(id: Seq<char>, term: Seq<char>, definition: Seq<char>) -> Seq<char> {
    "🎫 "@ + id + ": "@ + term + " = "@ + definition
}

/// A term matches the lower-cased search text `key` when its own lower-cased
/// text or definition contains `key`, or `key` contains the term.
pub open spec fn term_matches(term: Seq<char>, definition: Seq<char>, key: Seq<char>) -> bool {
    contains_text(lowercase_text(term), key) || contains_text(lowercase_text(definition), key) || contains_text(
        key,
        lowercase_text(term),
    )
}

/// The lines for the terms of ticket `id` that match `key`, in order.
pub open spec fn term_references(terms: Seq<(String, String)>, id: Seq<char>, key: Seq<char>) -> Seq<Seq<char>>
    decreases terms.len(),
{
    if terms.len() == 0 {
        Seq::empty()
    } else {
        let rest = term_references(terms.drop_last(), id, key);
        let e = terms.last();
        if term_matches(e.0@, e.1@, key) {
            rest.push(term_reference(id, e.0@, e.1@))
        } else {
            rest
        }
    }
}

/// The lines for a ticket: its matching terms, then the ticket itself when
/// its lower-cased title or raw input contains `key`.
pub open spec fn node_references(n: TicketNode, key: Seq<char>) -> Seq<Seq<char>> {
    let t = n.ticket;
    term_references(t.decomposed_ticket.terms@, n.id@, key) + if contains_text(
        lowercase_text(t.original_ticket.title@),
        key,
    ) || contains_text(lowercase_text(t.original_ticket.raw_input@), key) {
        seq!["🎫 "@ + n.id@ + ": "@ + t.original_ticket.title@ + " (in content)"@]
    } else {
        Seq::empty()
    }
}

/// The lines for all tickets but `skip`, in ticket order.
pub open spec fn project_references(nodes: Seq<TicketNode>, skip: Seq<char>, key: Seq<char>) -> Seq<Seq<char>>
    decreases nodes.len(),
{
    if nodes.len() == 0 {
        Seq::empty()
    } else {
        project_references(nodes.drop_last(), skip, key) + if nodes.last().id@ == skip {
            Seq::empty()
        } else {
            node_references(nodes.last(), key)
        }
    }
}

proof fn lemma_term_references_contain(terms: Seq<(String, String)>, id: Seq<char>, key: Seq<char>, j: int)
    requires
        0 <= j < terms.len(),
        term_matches(terms[j].0@, terms[j].1@, key),
    ensures
        term_references(terms, id, key).contains(term_reference(id, terms[j].0@, terms[j].1@)),
    decreases terms.len(),
{
    let line = term_reference(id, terms[j].0@, terms[j].1@);
    let r = term_references(terms, id, key);
    if j == terms.len() - 1 {
        assert(r.last() == line);
    } else {
        lemma_term_references_contain(terms.drop_last(), id, key, j);
        let prev = term_references(terms.drop_last(), id, key);
        let a = choose|a: int| 0 <= a < prev.len() && prev[a] == line;
        assert(r[a] == line);
    }
}

proof fn lemma_project_references_contain(nodes: Seq<TicketNode>, skip: Seq<char>, key: Seq<char>, i: int, line: Seq<char>)
    requires
        0 <= i < nodes.len(),
        nodes[i].id@ != skip,
        node_references(nodes[i], key).contains(line),
    ensures
        project_references(nodes, skip, key).contains(line),
    decreases nodes.len(),
{
    let prev = project_references(nodes.drop_last(), skip, key);
    let r = project_references(nodes, skip, key);
    if i == nodes.len() - 1 {
        let own = node_references(nodes[i], key);
        let a = choose|a: int| 0 <= a < own.len() && own[a] == line;
        assert(r[prev.len() + a] == line);
    } else {
        lemma_project_references_contain(nodes.drop_last(), skip, key, i, line);
        let a = choose|a: int| 0 <= a < prev.len() && prev[a] == line;
        assert(r[a] == line);
    }
}

/// Every term of another ticket that the search key finds (the key occurs
/// in the lower-case term or in its lower-case definition, or the
/// lower-case term occurs in the key) is listed among the related
/// references, as "🎫 <ticket>: <term> = <definition>".
pub proof fn law_found_terms_are_listed(nodes: Seq<TicketNode>, skip: Seq<char>, key: Seq<char>, i: int, j: int)
    requires
        0 <= i < nodes.len(),
        nodes[i].id@ != skip,
        0 <= j < nodes[i].ticket.decomposed_ticket.terms@.len(),
        ({
            let (term, definition) = nodes[i].ticket.decomposed_ticket.terms@[j];
            contains_text(lowercase_text(term@), key) || contains_text(lowercase_text(definition@), key)
                || contains_text(key, lowercase_text(term@))
        }),
    ensures
        ({
            let (term, definition) = nodes[i].ticket.decomposed_ticket.terms@[j];
            project_references(nodes, skip, key).contains("🎫 "@ + nodes[i].id@ + ": "@ + term@ + " = "@ + definition@)
        }),
{
    let n = nodes[i];
    let terms = n.ticket.decomposed_ticket.terms@;
    lemma_term_references_contain(terms, n.id@, key, j);
    let tr = term_references(terms, n.id@, key);
    let line = term_reference(n.id@, terms[j].0@, terms[j].1@);
    let a = choose|a: int| 0 <= a < tr.len() && tr[a] == line;
    assert(node_references(n, key)[a] == line);
    lemma_project_references_contain(nodes, skip, key, i, line);
}

/// Every other ticket whose lower-case title or raw input contains the
/// search key is listed among the related references, as
/// "🎫 <ticket>: <title> (in content)".
pub proof fn law_found_tickets_are_listed(nodes: Seq<TicketNode>, skip: Seq<char>, key: Seq<char>, i: int)
    requires
        0 <= i < nodes.len(),
        nodes[i].id@ != skip,
        contains_text(lowercase_text(nodes[i].ticket.original_ticket.title@), key) || contains_text(
            lowercase_text(nodes[i].ticket.original_ticket.raw_input@),
            key,
        ),
    ensures
        project_references(nodes, skip, key).contains(
            "🎫 "@ + nodes[i].id@ + ": "@ + nodes[i].ticket.original_ticket.title@ + " (in content)"@,
        ),
{
    let n = nodes[i];
    let line = "🎫 "@ + n.id@ + ": "@ + n.ticket.original_ticket.title@ + " (in content)"@;
    let tr = term_references(n.ticket.decomposed_ticket.terms@, n.id@, key);
    assert(node_references(n, key)[tr.len() as int] == line);
    lemma_project_references_contain(nodes, skip, key, i, line);
}

/// The texts of some strings.
pub open spec fn texts_of(v: Seq<String>) -> Seq<Seq<char>> {
    v.map_values(|s: String| s@)
}

fn push_text(out: &mut Vec<String>, line: String)
    ensures
        texts_of(final(out)@) == texts_of(old(out)@).push(line@),
{
    let ghost before = out@;
    out.push(line);
    proof {
        assert(texts_of(out@) =~= texts_of(before).push(line@));
    }
}

fn collect_node_references(n: &TicketNode, key: &str, out: &mut Vec<String>)
    ensures
        texts_of(final(out)@) == texts_of(old(out)@) + node_references(*n, key@),
{
    let ghost start = texts_of(out@);
    let t = &n.ticket;
    let terms = &t.decomposed_ticket.terms;
    let m = terms.len();
    for j in 0..m
        invariant
            m == terms@.len(),
            texts_of(out@) == start + term_references(terms@.take(j as int), n.id@, key@),
    {
        proof {
            assert(terms@.take(j + 1).drop_last() =~= terms@.take(j as int));
            assert(terms@.take(j + 1).last() == terms@[j as int]);
        }
        let lt = to_lowercase(terms[j].0.as_str());
        let ld = to_lowercase(terms[j].1.as_str());
        if contains(lt.as_str(), key) || contains(ld.as_str(), key) || contains(key, lt.as_str()) {
            let mut line = owned("🎫 ");
            append_str(&mut line, n.id.as_str());
            append_str(&mut line, ": ");
            append_str(&mut line, terms[j].0.as_str());
            append_str(&mut line, " = ");
            append_str(&mut line, terms[j].1.as_str());
            push_text(out, line);
            proof {
                assert(start + term_references(terms@.take(j + 1), n.id@, key@) =~= (start + term_references(
                    terms@.take(j as int),
                    n.id@,
                    key@,
                )).push(term_reference(n.id@, terms@[j as int].0@, terms@[j as int].1@)));
            }
        }
    }
    proof {
        assert(terms@.take(m as int) =~= terms@);
    }
    let lti = to_lowercase(t.original_ticket.title.as_str());
    let lri = to_lowercase(t.original_ticket.raw_input.as_str());
    if contains(lti.as_str(), key) || contains(lri.as_str(), key) {
        let mut line = owned("🎫 ");
        append_str(&mut line, n.id.as_str());
        append_str(&mut line, ": ");
        append_str(&mut line, t.original_ticket.title.as_str());
        append_str(&mut line, " (in content)");
        push_text(out, line);
        proof {
            assert(texts_of(out@) =~= start + node_references(*n, key@));
        }
    } else {
        proof {
            assert(texts_of(out@) =~= start + node_references(*n, key@));
        }
    }
}

/// The references to a term across the other tickets of a project, searched
/// in lower case.
pub fn related_references(project: &Project, ticket_id: &TicketId, term_key: &str) -> (r: Vec<String>)
    ensures
        texts_of(r@) == project_references(project.graph.nodes@, ticket_id@, lowercase_text(term_key@)),
{
    let key = to_lowercase(term_key);
    let mut out: Vec<String> = Vec::new();
    let nodes = &project.graph.nodes;
    let n = nodes.len();
    proof {
        assert(texts_of(out@) =~= project_references(nodes@.take(0), ticket_id@, key@));
    }
    for i in 0..n
        invariant
            n == nodes@.len(),
            texts_of(out@) == project_references(nodes@.take(i as int), ticket_id@, key@),
    {
        proof {
            assert(nodes@.take(i + 1).drop_last() =~= nodes@.take(i as int));
            assert(nodes@.take(i + 1).last() == nodes@[i as int]);
        }
        if nodes[i].id.same_as(ticket_id) {
            proof {
                assert(texts_of(out@) =~= project_references(nodes@.take(i + 1), ticket_id@, key@));
            }
        } else {
            collect_node_references(&nodes[i], key.as_str(), &mut out);
        }
    }
    proof {
        assert(nodes@.take(n as int) =~= nodes@);
    }
    out
}

/// The notice on the references to a term: how many were found.
pub open spec fn references_notice(count: nat, term: Seq<char>) -> Seq<char> {
    if count == 0 {
        "No related terms found for '"@ + term + "'"@
    } else {
        "✅ Found "@ + decimal(count) + " related references to '"@ + term + "' across project"@
    }
}

/// The screen after searching the project for references to the term a
/// field names: a notice of how many were found, or an error when the field
/// is not a term or no project is loaded.
pub fn related_terms_state(project: Option<&Project>, ticket_id: &TicketId, field: &TicketField) -> (s: AppState)
    ensures
        match *field {
            TicketField::Terms(term) => match project {
                None => s matches AppState::Error(e) && e@ == "No project loaded"@,
                Some(p) => s matches AppState::Loading(m) && m@ == references_notice(
                    project_references(p.graph.nodes@, ticket_id@, lowercase_text(term@)).len(),
                    term@,
                ),
            },
            _ => s matches AppState::Error(e) && e@ == "Invalid field for term search"@,
        },
{
    let term = match field {
        TicketField::Terms(term) => term,
        _ => {
            return AppState::Error(owned("Invalid field for term search"));
        },
    };
    let p = match project {
        Some(p) => p,
        None => {
            return AppState::Error(owned("No project loaded"));
        },
    };
    let found = related_references(p, ticket_id, term.as_str());
    proof {
        assert(texts_of(found@).len() == found@.len());
    }
    if found.len() == 0 {
        let mut m = owned("No related terms found for '");
        append_str(&mut m, term.as_str());
        append_str(&mut m, "'");
        AppState::Loading(m)
    } else {
        let mut m = owned("✅ Found ");
        append_str(&mut m, decimal_string(found.len()).as_str());
        append_str(&mut m, " related references to '");
        append_str(&mut m, term.as_str());
        append_str(&mut m, "' across project");
        AppState::Loading(m)
    }
}

/// The tickets but `skip` that a ticket could depend on, with their titles,
/// in ticket order.
pub open spec fn candidates(nodes: Seq<TicketNode>, skip: Seq<char>) -> Seq<(Seq<char>, Seq<char>)>
    decreases nodes.len(),
{
    if nodes.len() == 0 {
        Seq::empty()
    } else {
        let rest = candidates(nodes.drop_last(), skip);
        let n = nodes.last();
        if n.id@ == skip {
            rest
        } else {
            rest.push((n.id@, n.ticket.original_ticket.title@))
        }
    }
}

/// The numbered list of the candidates' titles, one per line.
pub open spec fn candidate_list(c: Seq<(Seq<char>, Seq<char>)>) -> Seq<char>
    decreases c.len(),
{
    if c.len() == 0 {
        Seq::empty()
    } else {
        candidate_list(c.drop_last()) + decimal(c.len()) + ". "@ + c.last().1 + "\n"@
    }
}

/// The tickets a ticket could depend on: every other ticket of the project.
pub fn dependency_candidates(project: &Project, ticket_id: &TicketId) -> (r: Vec<(TicketId, String)>)
    ensures
        r@.map_values(|e: (TicketId, String)| (e.0@, e.1@)) == candidates(project.graph.nodes@, ticket_id@),
{
    let mut r: Vec<(TicketId, String)> = Vec::new();
    let nodes = &project.graph.nodes;
    let n = nodes.len();
    for i in 0..n
        invariant
            n == nodes@.len(),
            r@.map_values(|e: (TicketId, String)| (e.0@, e.1@)) == candidates(nodes@.take(i as int), ticket_id@),
    {
        proof {
            assert(nodes@.take(i + 1).drop_last() =~= nodes@.take(i as int));
            assert(nodes@.take(i + 1).last() == nodes@[i as int]);
        }
        if !nodes[i].id.same_as(ticket_id) {
            let ghost before = r@;
            r.push((nodes[i].id.clone(), nodes[i].ticket.original_ticket.title.clone()));
            proof {
                assert(r@.map_values(|e: (TicketId, String)| (e.0@, e.1@)) =~= before.map_values(
                    |e: (TicketId, String)| (e.0@, e.1@),
                ).push((nodes@[i as int].id@, nodes@[i as int].ticket.original_ticket.title@)));
            }
        }
    }
    proof {
        assert(nodes@.take(n as int) =~= nodes@);
    }
    r
}

/// The message listing the tickets that ticket `title` could depend on.
pub open spec fn dependency_message(title: Seq<char>, c: Seq<(Seq<char>, Seq<char>)>) -> Seq<char> {
    "Select a ticket to add as a dependency to '"@ + title + "'\n\nPress number to select, or ESC to cancel:"@
        + "\n\n"@ + candidate_list(c) + "\n(Dependency selection interface - press ESC to return)"@
}

/// The screen listing the tickets a ticket could depend on, or an error when
/// there is no other ticket.
pub fn dependency_selection_state(project: &Project, ticket_id: &TicketId) -> (s: AppState)
    requires
        project.graph.wf(),
    ensures
        candidates(project.graph.nodes@, ticket_id@).len() == 0 ==> (s matches AppState::Error(e)
            && e@ == "No other tickets available to create dependencies"@),
        candidates(project.graph.nodes@, ticket_id@).len() > 0 ==> (s matches AppState::Loading(m)
            && m@ == dependency_message(
            if project.graph.has(ticket_id@) {
                project.graph.node(ticket_id@).ticket.original_ticket.title@
            } else {
                "Unknown"@
            },
            candidates(project.graph.nodes@, ticket_id@),
        )),
{
    let available = dependency_candidates(project, ticket_id);
    let ghost c = candidates(project.graph.nodes@, ticket_id@);
    proof {
        assert(available@.map_values(|e: (TicketId, String)| (e.0@, e.1@)).len() == available@.len());
    }
    if available.len() == 0 {
        return AppState::Error(owned("No other tickets available to create dependencies"));
    }
    let mut m = owned("Select a ticket to add as a dependency to '");
    match project.graph.get_ticket(ticket_id) {
        Some(node) => append_str(&mut m, node.ticket.original_ticket.title.as_str()),
        None => append_str(&mut m, "Unknown"),
    }
    append_str(&mut m, "'\n\nPress number to select, or ESC to cancel:");
    append_str(&mut m, "\n\n");
    let mut list = String::new();
    let k = available.len();
    for i in 0..k
        invariant
            k == available@.len(),
            available@.map_values(|e: (TicketId, String)| (e.0@, e.1@)) == c,
            list@ == candidate_list(c.take(i as int)),
    {
        proof {
            assert(c.take(i + 1).drop_last() =~= c.take(i as int));
            assert(c.take(i + 1).last() == c[i as int]);
            assert(c[i as int].1 == available@[i as int].1@);
        }
        append_str(&mut list, decimal_string(i + 1).as_str());
        append_str(&mut list, ". ");
        append_str(&mut list, available[i].1.as_str());
        append_str(&mut list, "\n");
    }
    proof {
        assert(c.take(k as int) =~= c);
    }
    append_str(&mut m, list.as_str());
    append_str(&mut m, "\n(Dependency selection interface - press ESC to return)");
    AppState::Loading(m)
}

/// A copy of a field.
pub fn copy_field(field: &TicketField) -> (r: TicketField)
    ensures
        r == *field,
{
    match field {
        TicketField::Title => TicketField::Title,
        TicketField::RawInput => TicketField::RawInput,
        TicketField::Status => TicketField::Status,
        TicketField::Priority => TicketField::Priority,
        TicketField::Complexity => TicketField::Complexity,
        TicketField::Terms(t) => TicketField::Terms(t.clone()),
        TicketField::ValidationMethod(i) => TicketField::ValidationMethod(*i),
        TicketField::OpenQuestion(i) => TicketField::OpenQuestion(*i),
        TicketField::EngineQuestion(i) => TicketField::EngineQuestion(*i),
        TicketField::RefinementRequest(i) => TicketField::RefinementRequest(*i),
        TicketField::Dependencies => TicketField::Dependencies,
        TicketField::Dependents => TicketField::Dependents,
    }
}

/// `e` starts editing `field` from `value` in the given way, unchanged yet.
pub open spec fn fresh_edit(e: FieldEditState, field: TicketField, value: Seq<char>, kind: EditType) -> bool {
    &&& e.field == field
    &&& e.edit_type == kind
    &&& e.current_value@ == value
    &&& e.original_value@ == value
    &&& !e.is_modified
}

/// Why a field's value cannot be read: no project, no such ticket, or a
/// field that is not edited.
pub open spec fn field_value_error(project: Option<&Project>, id: Seq<char>) -> Seq<char> {
    match project {
        None => "No project loaded"@,
        Some(p) => if !p.graph.has(id) {
            "Ticket not found"@
        } else {
            "Field type not supported for editing"@
        },
    }
}

/// The edit of a field, started from its current value; fails as reading the
/// value does.
pub fn field_edit_state(project: Option<&Project>, ticket_id: &TicketId, field: &TicketField) -> (r: Result<
    FieldEditState,
    String,
>)
    requires
        project_ok(project),
    ensures
        match r {
            Ok(e) => loaded_node(project, ticket_id@) matches Some(n) && field_value(n, *field) matches Some(
                (v, k),
            ) && fresh_edit(e, *field, v, k),
            Err(e) => e@ == field_value_error(project, ticket_id@) && (loaded_node(project, ticket_id@) matches Some(n)
                ==> field_value(n, *field) is None),
        },
{
    let (value, kind) = get_field_current_value(project, ticket_id, field)?;
    Ok(
        FieldEditState {
            field: copy_field(field),
            edit_type: kind,
            current_value: value.clone(),
            original_value: value,
            is_modified: false,
        },
    )
}

/// The selection among fixed values that a status, priority or complexity
/// field is changed with, started from its current value; fails for any
/// other field, and as reading the value does.
pub fn field_selection_state(project: Option<&Project>, ticket_id: &TicketId, field: &TicketField) -> (r: Result<
    FieldEditState,
    String,
>)
    requires
        project_ok(project),
    ensures
        !(*field matches TicketField::Status || *field matches TicketField::Priority
            || *field matches TicketField::Complexity) ==> (r matches Err(e) && e@
            == "Field does not support selection"@),
        r matches Ok(e) ==> loaded_node(project, ticket_id@) matches Some(n) && field_value(n, *field) matches Some(
            (v, k),
        ) && fresh_edit(e, *field, v, k),
        (*field matches TicketField::Status || *field matches TicketField::Priority
            || *field matches TicketField::Complexity) ==> (r matches Err(e) ==> e@ == field_value_error(project, ticket_id@)),
{
    match field {
        TicketField::Status | TicketField::Priority | TicketField::Complexity => {},
        _ => {
            return Err(owned("Field does not support selection"));
        },
    }
    field_edit_state(project, ticket_id, field)
}

/// What an action of a field does, read from its label.
#[derive(Debug, Clone, Copy, PartialEq, Eq, Structural)]
pub enum FieldActionKind {
    Edit,
    View,
    Change,
    RefineTerm,
    FindRelated,
    AnswerQuestion,
    AddDependency,
    Copy,
    ResearchTicket,
    MarkResolved,
    NavigateRelated,
    Other,
}

/// The kind of an action label, the first of these that it mentions:
/// editing, viewing, changing, creating a refinement ticket, finding related
/// terms, answering a question, adding a dependency, copying, creating a
/// research ticket, marking resolved, navigating.
pub open spec fn action_kind_of(a: Seq<char>) -> FieldActionKind {
    if contains_text(a, "Edit"@) || contains_text(a, "edit"@) {
        FieldActionKind::Edit
    } else if contains_text(a, "View full"@) || contains_text(a, "View"@) {
        FieldActionKind::View
    } else if contains_text(a, "Change"@) {
        FieldActionKind::Change
    } else if contains_text(a, "Create refinement ticket"@) {
        FieldActionKind::RefineTerm
    } else if contains_text(a, "Find related terms"@) {
        FieldActionKind::FindRelated
    } else if contains_text(a, "Answer question"@) {
        FieldActionKind::AnswerQuestion
    } else if contains_text(a, "Add new dependency"@) {
        FieldActionKind::AddDependency
    } else if contains_text(a, "Copy"@) {
        FieldActionKind::Copy
    } else if contains_text(a, "Create research ticket"@) {
        FieldActionKind::ResearchTicket
    } else if contains_text(a, "Mark as resolved"@) {
        FieldActionKind::MarkResolved
    } else if contains_text(a, "Navigate to"@) {
        FieldActionKind::NavigateRelated
    } else {
        FieldActionKind::Other
    }
}

/// The kind of an action label.
pub fn field_action_kind(action: &str) -> (k: FieldActionKind)
    ensures
        k == action_kind_of(action@),
{
    if contains(action, "Edit") || contains(action, "edit") {
        FieldActionKind::Edit
    } else if contains(action, "View full") || contains(action, "View") {
        FieldActionKind::View
    } else if contains(action, "Change") {
        FieldActionKind::Change
    } else if contains(action, "Create refinement ticket") {
        FieldActionKind::RefineTerm
    } else if contains(action, "Find related terms") {
        FieldActionKind::FindRelated
    } else if contains(action, "Answer question") {
        FieldActionKind::AnswerQuestion
    } else if contains(action, "Add new dependency") {
        FieldActionKind::AddDependency
    } else if contains(action, "Copy") {
        FieldActionKind::Copy
    } else if contains(action, "Create research ticket") {
        FieldActionKind::ResearchTicket
    } else if contains(action, "Mark as resolved") {
        FieldActionKind::MarkResolved
    } else if contains(action, "Navigate to") {
        FieldActionKind::NavigateRelated
    } else {
        FieldActionKind::Other
    }
}

/// The kind of the action at `index` of a field's actions; fails when there
/// is no such action.
pub fn pick_field_action(actions: &Vec<String>, index: usize) -> (r: Result<FieldActionKind, String>)
    ensures
        index < actions@.len() ==> r == Ok::<FieldActionKind, String>(action_kind_of(actions@[index as int]@)),
        index >= actions@.len() ==> (r matches Err(e) && e@ == "Invalid action selected"@),
{
    if index < actions.len() {
        Ok(field_action_kind(actions[index].as_str()))
    } else {
        Err(owned("Invalid action selected"))
    }
}

/// The notice of the actions that only report what they would do, for a
/// field shown as `field_name`; `None` for the actions that do their work.
pub open spec fn action_notice_text(kind: FieldActionKind, action: Seq<char>, field_name: Seq<char>) -> Option<Seq<char>> {
    match kind {
        FieldActionKind::View => Some("Viewing full content of "@ + field_name),
        FieldActionKind::ResearchTicket => Some("✅ Research ticket creation ("@ + field_name + ")"@),
        FieldActionKind::MarkResolved => Some("✅ Marked as resolved ("@ + field_name + ")"@),
        FieldActionKind::NavigateRelated => Some("Navigation to related tickets ("@ + field_name + ")"@),
        FieldActionKind::Other => Some("Executing: "@ + action + " on "@ + field_name),
        _ => None,
    }
}

fn wrapped(lead: &str, middle: &str, tail: &str) -> (r: String)
    ensures
        r@ == lead@ + middle@ + tail@,
{
    let mut r = owned(lead);
    append_str(&mut r, middle);
    append_str(&mut r, tail);
    r
}

/// The notice of an action that only reports what it would do.
pub fn action_notice(kind: FieldActionKind, action: &str, field_name: &str) -> (r: Option<String>)
    ensures
        match r {
            Some(t) => action_notice_text(kind, action@, field_name@) == Some(t@),
            None => action_notice_text(kind, action@, field_name@) is None,
        },
{
    match kind {
        FieldActionKind::View => {
            let mut r = owned("Viewing full content of ");
            append_str(&mut r, field_name);
            Some(r)
        },
        FieldActionKind::ResearchTicket => Some(wrapped("✅ Research ticket creation (", field_name, ")")),
        FieldActionKind::MarkResolved => Some(wrapped("✅ Marked as resolved (", field_name, ")")),
        FieldActionKind::NavigateRelated => Some(wrapped("Navigation to related tickets (", field_name, ")")),
        FieldActionKind::Other => {
            let mut r = owned("Executing: ");
            append_str(&mut r, action);
            append_str(&mut r, " on ");
            append_str(&mut r, field_name);
            Some(r)
        },
        _ => None,
    }
}

/// What Enter picks in the details view, whose last two items are the way
/// back to the ticket list and the ticket's action menu, and whose first
/// items are the ticket's fields.
#[derive(Debug, Clone, Copy, PartialEq, Eq, Structural)]
pub enum DetailsPick {
    BackToList,
    ActionsMenu,
    Field(usize),
    Nothing,
}

/// The details-view item at `selected` among `items` items, the first
/// `fields` of which are fields.
pub fn details_view_pick(selected: usize, items: usize, fields: usize) -> (r: DetailsPick)
    requires
        items >= 2,
    ensures
        r == if selected == items - 1 {
            DetailsPick::BackToList
        } else if selected == items - 2 {
            DetailsPick::ActionsMenu
        } else if selected < fields {
            DetailsPick::Field(selected)
        } else {
            DetailsPick::Nothing
        },
{
    if selected == items - 1 {
        DetailsPick::BackToList
    } else if selected == items - 2 {
        DetailsPick::ActionsMenu
    } else if selected < fields {
        DetailsPick::Field(selected)
    } else {
        DetailsPick::Nothing
    }
}

/// The search with the next match selected, round to the first after the
/// last; unchanged when nothing matches.
pub fn next_match(search: SearchState) -> (r: SearchState)
    requires
        search.current_match < usize::MAX,
    ensures
        r.query == search.query,
        r.matches == search.matches,
        r.current_match == if search.matches@.len() == 0 {
            search.current_match as int
        } else {
            (search.current_match + 1) % (search.matches@.len() as int)
        },
{
    let mut s = search;
    if s.matches.len() > 0 {
        s.current_match = (s.current_match + 1) % s.matches.len();
    }
    s
}

/// What Enter does in the quick refine list of a ticket.
#[derive(Debug, Clone, PartialEq, Eq)]
pub enum QuickRefineStep {
    Refining(String),
    Back,
    Stay,
}

/// The step for the item at `selected` of a ticket's quick refine list: a
/// request starts its refinement, the item after them goes back, anything
/// else, or a missing project or ticket, stays.
pub fn quick_refine_step(project: Option<&Project>, ticket_id: &TicketId, selected: usize) -> (r: QuickRefineStep)
    requires
        project_ok(project),
    ensures
        match loaded_node(project, ticket_id@) {
            None => r == QuickRefineStep::Stay,
            Some(n) => {
                let reqs = n.ticket.decomposed_ticket.terms_needing_refinement@;
                if selected < reqs.len() {
                    r matches QuickRefineStep::Refining(m) && m@ == "Creating refinement ticket for '"@
                        + reqs[selected as int].term@ + "'..."@
                } else if selected == reqs.len() {
                    r == QuickRefineStep::Back
                } else {
                    r == QuickRefineStep::Stay
                }
            },
        },
{
    let p = match project {
        Some(p) => p,
        None => {
            return QuickRefineStep::Stay;
        },
    };
    let node = match p.graph.get_ticket(ticket_id) {
        Some(n) => n,
        None => {
            return QuickRefineStep::Stay;
        },
    };
    let reqs = &node.ticket.decomposed_ticket.terms_needing_refinement;
    if selected < reqs.len() {
        QuickRefineStep::Refining(wrapped("Creating refinement ticket for '", reqs[selected].term.as_str(), "'..."))
    } else if selected == reqs.len() {
        QuickRefineStep::Back
    } else {
        QuickRefineStep::Stay
    }
}

/// Where the text typed in an input screen goes, by the screen it returns
/// to and its title.
#[derive(Debug, Clone, Copy, PartialEq, Eq, Structural)]
pub enum InputRoute {
    ProjectName,
    ProjectDescription,
    TicketDescription,
    QuestionAnswer,
    ReturnToPrevious,
}

/// The route of an input screen: creating a project takes its name (when
/// the title mentions "name") then its description; creating a ticket takes
/// its description; the details view takes answers to questions; anything
/// else returns where it came from.
pub open spec fn input_route_of(input: InputState) -> InputRoute {
    match *input.return_state {
        AppState::CreateProject => if contains_text(input.title@, "name"@) {
            InputRoute::ProjectName
        } else {
            InputRoute::ProjectDescription
        },
        AppState::CreateTicket(_) => InputRoute::TicketDescription,
        AppState::TicketDetailsView(_, _) => if contains_text(input.title@, "Answer Question"@) {
            InputRoute::QuestionAnswer
        } else {
            InputRoute::ReturnToPrevious
        },
        _ => InputRoute::ReturnToPrevious,
    }
}

/// Where the text typed in an input screen goes.
pub fn input_route(input: &InputState) -> (r: InputRoute)
    ensures
        r == input_route_of(*input),
{
    match &*input.return_state {
        AppState::CreateProject => if contains(input.title.as_str(), "name") {
            InputRoute::ProjectName
        } else {
            InputRoute::ProjectDescription
        },
        AppState::CreateTicket(_) => InputRoute::TicketDescription,
        AppState::TicketDetailsView(_, _) => if contains(input.title.as_str(), "Answer Question") {
            InputRoute::QuestionAnswer
        } else {
            InputRoute::ReturnToPrevious
        },
        _ => InputRoute::ReturnToPrevious,
    }
}

/// The screen after an answer is given: an error for a blank answer, else a
/// notice quoting its first fifty characters.
pub fn answered_state(answer: &str) -> (s: AppState)
    ensures
        trimmed(answer@).len() == 0 ==> (s matches AppState::Error(e) && e@ == "Answer cannot be empty"@),
        trimmed(answer@).len() > 0 ==> (s matches AppState::Loading(m) && m@ == "✅ Question answered: '"@ + prefix(
            answer@,
            50,
        ) + "'"@),
{
    let t = trim_chars(chars_of(answer).as_slice());
    if t.len() == 0 {
        AppState::Error(owned("Answer cannot be empty"))
    } else {
        AppState::Loading(wrapped("✅ Question answered: '", prefix_string(answer, 50).as_str(), "'"))
    }
}

/// The ticket picked in a project's ticket list: the root ticket at
/// `selected`, if there is one.
pub fn ticket_list_pick(project: &Project, selected: usize) -> (r: Option<TicketId>)
    ensures
        match r {
            Some(id) => selected < crate::ticket::root_ids(project.graph.nodes@).len() && id@
                == crate::ticket::root_ids(project.graph.nodes@)[selected as int],
            None => selected >= crate::ticket::root_ids(project.graph.nodes@).len(),
        },
{
    let roots = project.get_root_tickets();
    proof {
        assert(crate::ticket::ref_ids(roots@).len() == roots@.len());
    }
    if selected < roots.len() {
        let id = roots[selected].clone();
        proof {
            assert(crate::ticket::ref_ids(roots@)[selected as int] == roots@[selected as int]@);
        }
        Some(id)
    } else {
        None
    }
}

} // verus!
