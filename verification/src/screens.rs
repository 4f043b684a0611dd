//! What the ticket screens show and change: the details view, the quick
//! refine list, field edits and the search within a ticket.
use vstd::prelude::*;
use crate::nav::{ticket_action_texts, ticket_actions_items, views};
use crate::text::{
    append_str, chars_between, chars_of, concat2, concat3, contains, contains_text, decimal,
    decimal_string, find_text, first_occurrence, lemma_encode_utf8_concat, lemma_first_occurrence,
    lowercase_text, owned, to_lowercase, uppercase_text, utf8_len,
};
use vstd::utf8::encode_utf8;
use crate::ticket::{term_lookup, Project, RefinementRequest, TicketDecomposition, TicketNode};
use crate::tui::{
    complexity_label, complexity_named, complexity_text, nth_text, parse_complexity, parse_priority,
    parse_status, priority_emoji, priority_label, priority_marker, priority_named, priority_text,
    status_label, status_named, status_text, text_or, SearchMatch, SearchState, TicketField,
};

verus! {

proof fn lemma_views_push(v: Seq<String>, s: String)
    ensures
        views(v.push(s)) == views(v).push(s@),
{
    assert(views(v.push(s)) =~= views(v).push(s@));
}

/// `n. marker term - reason`: entry `i` of the quick refine list.
pub open spec fn quick_refine_entry(i: int, r: RefinementRequest) -> Seq<char> {
    decimal((i + 1) as nat) + ". "@ + priority_marker(r.priority) + " "@ + r.term@ + " - "@ + r.reason@
}

/// The quick refine list: one entry per request, then "← Back".
pub open spec fn quick_refine_texts(requests: Seq<RefinementRequest>) -> Seq<Seq<char>> {
    Seq::new(requests.len(), |i: int| quick_refine_entry(i, requests[i])).push("← Back"@)
}

fn quick_refine_item(i: usize, r: &RefinementRequest) -> (s: String)
    requires
        i < usize::MAX,
    ensures
        s@ == quick_refine_entry(i as int, *r),
{
    let mut s = decimal_string(i + 1);
    append_str(&mut s, ". ");
    append_str(&mut s, priority_emoji(r.priority));
    append_str(&mut s, " ");
    append_str(&mut s, r.term.as_str());
    append_str(&mut s, " - ");
    append_str(&mut s, r.reason.as_str());
    s
}

/// The quick refine list of a ticket's refinement requests; an error when
/// there are none.
pub fn quick_refine_items(requests: &Vec<RefinementRequest>) -> (r: Result<Vec<String>, String>)
    ensures
        requests@.len() == 0 <==> r is Err,
        r matches Err(e) ==> e@ == "No terms need refinement in this ticket."@,
        r matches Ok(items) ==> views(items@) == quick_refine_texts(requests@),
{
    let n = requests.len();
    if n == 0 {
        return Err(owned("No terms need refinement in this ticket."));
    }
    let mut items: Vec<String> = Vec::new();
    for i in 0..n
        invariant
            n == requests@.len(),
            views(items@) == Seq::new(i as nat, |j: int| quick_refine_entry(j, requests@[j])),
    {
        let ghost before = items@;
        let line = quick_refine_item(i, &requests[i]);
        items.push(line);
        proof {
            lemma_views_push(before, line);
            assert(views(items@) =~= Seq::new((i + 1) as nat, |j: int| quick_refine_entry(j, requests@[j])));
        }
    }
    let ghost before = items@;
    let back = owned("← Back");
    items.push(back);
    proof {
        lemma_views_push(before, back);
        assert(views(items@) =~= quick_refine_texts(requests@));
    }
    Ok(items)
}

/// The fields offered in a ticket's details view, in screen order: title,
/// raw input, status, priority, complexity, each term, each validation
/// method, open question, engine question and refinement request, then the
/// dependencies and the dependents when there are any.
pub open spec fn detail_fields(node: TicketNode) -> Seq<TicketField> {
    let d = node.ticket.decomposed_ticket;
    seq![
        TicketField::Title,
        TicketField::RawInput,
        TicketField::Status,
        TicketField::Priority,
        TicketField::Complexity,
    ] + d.terms@.map_values(|p: (String, String)| TicketField::Terms(p.0)) + Seq::new(
        d.validation_method@.len(),
        |i: int| TicketField::ValidationMethod(i as usize),
    ) + Seq::new(d.open_questions@.len(), |i: int| TicketField::OpenQuestion(i as usize)) + Seq::new(
        d.engine_questions@.len(),
        |i: int| TicketField::EngineQuestion(i as usize),
    ) + Seq::new(
        d.terms_needing_refinement@.len(),
        |i: int| TicketField::RefinementRequest(i as usize),
    ) + (if node.dependencies@.len() > 0 {
        seq![TicketField::Dependencies]
    } else {
        Seq::empty()
    }) + (if node.dependents@.len() > 0 {
        seq![TicketField::Dependents]
    } else {
        Seq::empty()
    })
}

/// The lines of a ticket's details view: one per field of `detail_fields`,
/// then the way to the action menu and the way back.
pub open spec fn detail_texts(node: TicketNode) -> Seq<Seq<char>> {
    let t = node.ticket;
    let d = t.decomposed_ticket;
    seq![
        "📋 Title: "@ + t.original_ticket.title@,
        "📝 Raw Input"@,
        "📊 Status: "@ + status_label(d.metadata.status),
        "🎯 Priority: "@ + priority_label(d.metadata.priority),
        "⚡ Complexity: "@ + complexity_label(d.metadata.estimated_complexity),
    ] + d.terms@.map_values(|p: (String, String)| "📚 Term: "@ + p.0@) + Seq::new(
        d.validation_method@.len(),
        |i: int| "✅ Validation Method #"@ + decimal((i + 1) as nat),
    ) + Seq::new(
        d.open_questions@.len(),
        |i: int| "❓ Open Question #"@ + decimal((i + 1) as nat),
    ) + Seq::new(
        d.engine_questions@.len(),
        |i: int| "🔧 Engine Question #"@ + decimal((i + 1) as nat),
    ) + Seq::new(
        d.terms_needing_refinement@.len(),
        |i: int|
            "🔍 "@ + priority_marker(d.terms_needing_refinement@[i].priority) + " Refinement: "@
                + d.terms_needing_refinement@[i].term@,
    ) + (if node.dependencies@.len() > 0 {
        seq!["🔗 Dependencies ("@ + decimal(node.dependencies@.len()) + ")"@]
    } else {
        Seq::empty()
    }) + (if node.dependents@.len() > 0 {
        seq!["⬆️ Dependents ("@ + decimal(node.dependents@.len()) + ")"@]
    } else {
        Seq::empty()
    }) + seq!["⚙️ Ticket Actions Menu"@, "← Back to ticket list"@]
}

fn numbered_line(label: &str, i: usize) -> (s: String)
    requires
        i < usize::MAX,
    ensures
        s@ == label@ + decimal((i + 1) as nat),
{
    let d = decimal_string(i + 1);
    concat2(label, d.as_str())
}

fn push_numbered(
    fields: &mut Vec<TicketField>,
    items: &mut Vec<String>,
    count: usize,
    label: &str,
    kind: u8,
)
    requires
        kind < 3,
    ensures
        final(fields)@ == old(fields)@ + Seq::new(
            count as nat,
            |i: int|
                if kind == 0 {
                    TicketField::ValidationMethod(i as usize)
                } else if kind == 1 {
                    TicketField::OpenQuestion(i as usize)
                } else {
                    TicketField::EngineQuestion(i as usize)
                },
        ),
        views(final(items)@) == views(old(items)@) + Seq::new(
            count as nat,
            |i: int| label@ + decimal((i + 1) as nat),
        ),
{
    let ghost f0 = fields@;
    let ghost i0 = views(items@);
    for i in 0..count
        invariant
            kind < 3,
            fields@ == f0 + Seq::new(
                i as nat,
                |j: int|
                    if kind == 0 {
                        TicketField::ValidationMethod(j as usize)
                    } else if kind == 1 {
                        TicketField::OpenQuestion(j as usize)
                    } else {
                        TicketField::EngineQuestion(j as usize)
                    },
            ),
            views(items@) == i0 + Seq::new(i as nat, |j: int| label@ + decimal((j + 1) as nat)),
    {
        let f = if kind == 0 {
            TicketField::ValidationMethod(i)
        } else if kind == 1 {
            TicketField::OpenQuestion(i)
        } else {
            TicketField::EngineQuestion(i)
        };
        fields.push(f);
        let ghost before = items@;
        let line = numbered_line(label, i);
        items.push(line);
        proof {
            lemma_views_push(before, line);
            assert(fields@ =~= f0 + Seq::new(
                (i + 1) as nat,
                |j: int|
                    if kind == 0 {
                        TicketField::ValidationMethod(j as usize)
                    } else if kind == 1 {
                        TicketField::OpenQuestion(j as usize)
                    } else {
                        TicketField::EngineQuestion(j as usize)
                    },
            ));
            assert(views(items@) =~= i0 + Seq::new(
                (i + 1) as nat,
                |j: int| label@ + decimal((j + 1) as nat),
            ));
        }
    }
}

fn push_terms(fields: &mut Vec<TicketField>, items: &mut Vec<String>, terms: &Vec<(String, String)>)
    ensures
        final(fields)@ == old(fields)@ + terms@.map_values(|p: (String, String)| TicketField::Terms(p.0)),
        views(final(items)@) == views(old(items)@) + terms@.map_values(
            |p: (String, String)| "📚 Term: "@ + p.0@,
        ),
{
    let ghost f0 = fields@;
    let ghost i0 = views(items@);
    let n = terms.len();
    for k in 0..n
        invariant
            n == terms@.len(),
            fields@ == f0 + terms@.take(k as int).map_values(
                |p: (String, String)| TicketField::Terms(p.0),
            ),
            views(items@) == i0 + terms@.take(k as int).map_values(
                |p: (String, String)| "📚 Term: "@ + p.0@,
            ),
    {
        let term = &terms[k].0;
        fields.push(TicketField::Terms(term.clone()));
        let ghost before = items@;
        let line = concat2("📚 Term: ", term.as_str());
        items.push(line);
        proof {
            lemma_views_push(before, line);
            assert(terms@.take(k + 1) =~= terms@.take(k as int).push(terms@[k as int]));
            assert(fields@ =~= f0 + terms@.take(k + 1).map_values(
                |p: (String, String)| TicketField::Terms(p.0),
            ));
            assert(views(items@) =~= i0 + terms@.take(k + 1).map_values(
                |p: (String, String)| "📚 Term: "@ + p.0@,
            ));
        }
    }
    proof {
        assert(terms@.take(n as int) =~= terms@);
    }
}

/// The details-view line of refinement request `i`.
pub open spec fn refinement_line(r: RefinementRequest) -> Seq<char> {
    "🔍 "@ + priority_marker(r.priority) + " Refinement: "@ + r.term@
}

fn push_refinements(
    fields: &mut Vec<TicketField>,
    items: &mut Vec<String>,
    reqs: &Vec<RefinementRequest>,
)
    ensures
        final(fields)@ == old(fields)@ + Seq::new(
            reqs@.len(),
            |i: int| TicketField::RefinementRequest(i as usize),
        ),
        views(final(items)@) == views(old(items)@) + Seq::new(
            reqs@.len(),
            |i: int| refinement_line(reqs@[i]),
        ),
{
    let ghost f1 = fields@;
    let ghost i1 = views(items@);
    let m = reqs.len();
    for k in 0..m
        invariant
            m == reqs@.len(),
            fields@ == f1 + Seq::new(k as nat, |i: int| TicketField::RefinementRequest(i as usize)),
            views(items@) == i1 + Seq::new(k as nat, |i: int| refinement_line(reqs@[i])),
    {
        let req = &reqs[k];
        fields.push(TicketField::RefinementRequest(k));
        let mut line = concat2("🔍 ", priority_emoji(req.priority));
        append_str(&mut line, " Refinement: ");
        append_str(&mut line, req.term.as_str());
        let ghost before = items@;
        items.push(line);
        proof {
            lemma_views_push(before, line);
            assert(fields@ =~= f1 + Seq::new(
                (k + 1) as nat,
                |i: int| TicketField::RefinementRequest(i as usize),
            ));
            assert(views(items@) =~= i1 + Seq::new((k + 1) as nat, |i: int| refinement_line(reqs@[i])));
        }
    }
}

fn count_line(label: &str, n: usize) -> (s: String)
    ensures
        s@ == label@ + decimal(n as nat) + ")"@,
{
    let mut line = concat2(label, decimal_string(n).as_str());
    append_str(&mut line, ")");
    line
}

/// The fields and lines of a ticket's details view.
#[verifier::rlimit(40)]
pub fn ticket_details_view(node: &TicketNode) -> (r: (Vec<TicketField>, Vec<String>))
    ensures
        r.0@ == detail_fields(*node),
        views(r.1@) == detail_texts(*node),
{
    let t = &node.ticket;
    let d = &t.decomposed_ticket;
    let mut fields: Vec<TicketField> = vec![
        TicketField::Title,
        TicketField::RawInput,
        TicketField::Status,
        TicketField::Priority,
        TicketField::Complexity,
    ];
    let mut items: Vec<String> = vec![
        concat2("📋 Title: ", t.original_ticket.title.as_str()),
        owned("📝 Raw Input"),
        concat2("📊 Status: ", status_text(d.metadata.status)),
        concat2("🎯 Priority: ", priority_text(d.metadata.priority)),
        concat2("⚡ Complexity: ", complexity_text(d.metadata.estimated_complexity)),
    ];
    let ghost i_head = views(items@);
    push_terms(&mut fields, &mut items, &d.terms);
    push_numbered(&mut fields, &mut items, d.validation_method.len(), "✅ Validation Method #", 0);
    push_numbered(&mut fields, &mut items, d.open_questions.len(), "❓ Open Question #", 1);
    push_numbered(&mut fields, &mut items, d.engine_questions.len(), "🔧 Engine Question #", 2);
    push_refinements(&mut fields, &mut items, &d.terms_needing_refinement);
    let ghost f2 = fields@;
    let ghost i2 = views(items@);
    if node.dependencies.len() > 0 {
        fields.push(TicketField::Dependencies);
        let ghost before = items@;
        let line = count_line("🔗 Dependencies (", node.dependencies.len());
        items.push(line);
        proof {
            lemma_views_push(before, line);
        }
    }
    let ghost f3 = fields@;
    let ghost i3 = views(items@);
    if node.dependents.len() > 0 {
        fields.push(TicketField::Dependents);
        let ghost before = items@;
        let line = count_line("⬆️ Dependents (", node.dependents.len());
        items.push(line);
        proof {
            lemma_views_push(before, line);
        }
    }
    let ghost i4 = items@;
    let menu = owned("⚙️ Ticket Actions Menu");
    items.push(menu);
    let ghost i5 = items@;
    let back = owned("← Back to ticket list");
    items.push(back);
    proof {
        lemma_views_push(i4, menu);
        lemma_views_push(i5, back);
        assert(i_head =~= seq![
            "📋 Title: "@ + t.original_ticket.title@,
            "📝 Raw Input"@,
            "📊 Status: "@ + status_label(d.metadata.status),
            "🎯 Priority: "@ + priority_label(d.metadata.priority),
            "⚡ Complexity: "@ + complexity_label(d.metadata.estimated_complexity),
        ]);
        assert(Seq::new(
            d.terms_needing_refinement@.len(),
            |i: int| refinement_line(d.terms_needing_refinement@[i]),
        ) =~= Seq::new(
            d.terms_needing_refinement@.len(),
            |i: int|
                "🔍 "@ + priority_marker(d.terms_needing_refinement@[i].priority) + " Refinement: "@
                    + d.terms_needing_refinement@[i].term@,
        ));
        assert(fields@ =~= detail_fields(*node));
        assert(views(items@) =~= detail_texts(*node));
    }
    (fields, items)
}


/// The text copied from a field of a ticket.
pub open spec fn copy_text(node: TicketNode, field: TicketField) -> Seq<char> {
    let t = node.ticket;
    let d = t.decomposed_ticket;
    match field {
        TicketField::Title => t.original_ticket.title@,
        TicketField::RawInput => t.original_ticket.raw_input@,
        TicketField::Status => status_label(d.metadata.status),
        TicketField::Priority => priority_label(d.metadata.priority),
        TicketField::Complexity => complexity_label(d.metadata.estimated_complexity),
        TicketField::Terms(k) => match term_lookup(d.terms@, k@) {
            Some(def) => k@ + ": "@ + def,
            None => k@ + ": [No definition]"@,
        },
        TicketField::ValidationMethod(i) => text_or(nth_text(d.validation_method@, i), "[Method not found]"@),
        TicketField::OpenQuestion(i) => text_or(nth_text(d.open_questions@, i), "[Question not found]"@),
        TicketField::EngineQuestion(i) => text_or(nth_text(d.engine_questions@, i), "[Question not found]"@),
        TicketField::RefinementRequest(i) => if i < d.terms_needing_refinement@.len() {
            "Term: "@ + d.terms_needing_refinement@[i as int].term@ + " | Reason: "@
                + d.terms_needing_refinement@[i as int].reason@
        } else {
            "[Request not found]"@
        },
        TicketField::Dependencies => "Dependencies: "@ + decimal(node.dependencies@.len()),
        TicketField::Dependents => "Dependents: "@ + decimal(node.dependents@.len()),
    }
}

fn text_at_or(v: &Vec<String>, i: usize, missing: &str) -> (r: String)
    ensures
        r@ == text_or(nth_text(v@, i), missing@),
{
    if i < v.len() {
        v[i].clone()
    } else {
        owned(missing)
    }
}

/// The text to copy from a field of a ticket.
pub fn field_copy_text(node: &TicketNode, field: &TicketField) -> (r: String)
    ensures
        r@ == copy_text(*node, *field),
{
    let t = &node.ticket;
    let d = &t.decomposed_ticket;
    match field {
        TicketField::Title => t.original_ticket.title.clone(),
        TicketField::RawInput => t.original_ticket.raw_input.clone(),
        TicketField::Status => owned(status_text(d.metadata.status)),
        TicketField::Priority => owned(priority_text(d.metadata.priority)),
        TicketField::Complexity => owned(complexity_text(d.metadata.estimated_complexity)),
        TicketField::Terms(k) => match d.term_definition(k.as_str()) {
            Some(def) => concat3(k.as_str(), ": ", def.as_str()),
            None => concat2(k.as_str(), ": [No definition]"),
        },
        TicketField::ValidationMethod(i) => text_at_or(&d.validation_method, *i, "[Method not found]"),
        TicketField::OpenQuestion(i) => text_at_or(&d.open_questions, *i, "[Question not found]"),
        TicketField::EngineQuestion(i) => text_at_or(&d.engine_questions, *i, "[Question not found]"),
        TicketField::RefinementRequest(i) => {
            if *i < d.terms_needing_refinement.len() {
                let req = &d.terms_needing_refinement[*i];
                let mut r = concat2("Term: ", req.term.as_str());
                append_str(&mut r, " | Reason: ");
                append_str(&mut r, req.reason.as_str());
                r
            } else {
                owned("[Request not found]")
            }
        },
        TicketField::Dependencies => concat2(
            "Dependencies: ",
            decimal_string(node.dependencies.len()).as_str(),
        ),
        TicketField::Dependents => concat2("Dependents: ", decimal_string(node.dependents.len()).as_str()),
    }
}

/// The notice after copying a field: that it was copied, or, when the
/// clipboard could not be reached, the content itself for copying by hand.
pub fn copy_notice(field_name: &str, copied: bool, content: &str) -> (r: String)
    ensures
        r@ == if copied {
            "✅ "@ + field_name@ + " content copied to clipboard"@
        } else {
            "📋 "@ + field_name@ + " content (copy manually):\n\n"@ + content@
        },
{
    if copied {
        concat3("✅ ", field_name, " content copied to clipboard")
    } else {
        let mut r = concat3("📋 ", field_name, " content (copy manually):\n\n");
        append_str(&mut r, content);
        r
    }
}

proof fn lemma_term_lookup_update(s: Seq<(String, String)>, i: int, e: (String, String), k: Seq<char>)
    requires
        0 <= i < s.len(),
        s[i].0@ == e.0@,
        forall|j: int| 0 <= j < i ==> s[j].0@ != e.0@,
    ensures
        term_lookup(s.update(i, e), k) == if k == e.0@ {
            Some(e.1@)
        } else {
            term_lookup(s, k)
        },
    decreases i,
{
    let u = s.update(i, e);
    if i > 0 {
        assert(u[0] == s[0]);
        assert(u.drop_first() =~= s.drop_first().update(i - 1, e));
        lemma_term_lookup_update(s.drop_first(), i - 1, e, k);
    } else {
        assert(u[0] == e);
        assert(u.drop_first() =~= s.drop_first());
    }
}

proof fn lemma_term_lookup_push(s: Seq<(String, String)>, e: (String, String), k: Seq<char>)
    requires
        forall|j: int| 0 <= j < s.len() ==> s[j].0@ != e.0@,
    ensures
        term_lookup(s.push(e), k) == if k == e.0@ {
            Some(e.1@)
        } else {
            term_lookup(s, k)
        },
    decreases s.len(),
{
    if s.len() == 0 {
        assert(s.push(e)[0] == e);
        assert(s.push(e).drop_first() =~= Seq::<(String, String)>::empty());
        assert(term_lookup(s.push(e).drop_first(), k) is None);
    } else {
        assert(s.push(e)[0] == s[0]);
        assert(s.push(e).drop_first() =~= s.drop_first().push(e));
        lemma_term_lookup_push(s.drop_first(), e, k);
    }
}

/// Gives the term `key` the definition `value`, replacing the definition it
/// had, if any.
pub fn set_term(terms: &mut Vec<(String, String)>, key: &String, value: &String)
    ensures
        forall|k: Seq<char>|
            term_lookup(final(terms)@, k) == if k == key@ {
                Some(value@)
            } else {
                term_lookup(old(terms)@, k)
            },
{
    let n = terms.len();
    for i in 0..n
        invariant
            n == terms@.len(),
            *terms == *old(terms),
            forall|j: int| 0 <= j < i ==> terms@[j].0@ != key@,
    {
        if terms[i].0 == *key {
            let ghost before = terms@;
            let e = (key.clone(), value.clone());
            proof {
                assert forall|k: Seq<char>| #[trigger] term_lookup(before.update(i as int, e), k) == (if k
                    == key@ {
                    Some(value@)
                } else {
                    term_lookup(before, k)
                }) by {
                    lemma_term_lookup_update(before, i as int, e, k);
                }
            }
            terms.set(i, e);
            return;
        }
    }
    let ghost before = terms@;
    let e = (key.clone(), value.clone());
    proof {
        assert forall|k: Seq<char>| #[trigger] term_lookup(before.push(e), k) == (if k == key@ {
            Some(value@)
        } else {
            term_lookup(before, k)
        }) by {
            lemma_term_lookup_push(before, e, k);
        }
    }
    terms.push(e);
}

/// Writes an edited value into a field of a ticket. Title and raw input take
/// the value; status, priority and complexity take it when it names one (in
/// any case), and stay otherwise; a term gets it as its definition; a
/// validation method or question at an existing position is replaced.
/// Refinement requests, dependencies and dependents cannot be edited: for
/// them nothing changes and the answer is false.
pub fn edit_ticket_field(ticket: &mut TicketDecomposition, field: &TicketField, value: &String) -> (r:
    bool)
    ensures
        r == !(field is RefinementRequest || field is Dependencies || field is Dependents),
        !r ==> *final(ticket) == *old(ticket),
        final(ticket).decomposed_ticket.terms_needing_refinement
            == old(ticket).decomposed_ticket.terms_needing_refinement,
        final(ticket).original_ticket.title@ == if field is Title {
            value@
        } else {
            old(ticket).original_ticket.title@
        },
        final(ticket).original_ticket.raw_input@ == if field is RawInput {
            value@
        } else {
            old(ticket).original_ticket.raw_input@
        },
        final(ticket).decomposed_ticket.metadata.status == if field is Status && status_named(
            uppercase_text(value@),
        ) is Some {
            status_named(uppercase_text(value@))->0
        } else {
            old(ticket).decomposed_ticket.metadata.status
        },
        final(ticket).decomposed_ticket.metadata.priority == if field is Priority && priority_named(
            uppercase_text(value@),
        ) is Some {
            priority_named(uppercase_text(value@))->0
        } else {
            old(ticket).decomposed_ticket.metadata.priority
        },
        final(ticket).decomposed_ticket.metadata.estimated_complexity == if field is Complexity
            && complexity_named(uppercase_text(value@)) is Some {
            complexity_named(uppercase_text(value@))->0
        } else {
            old(ticket).decomposed_ticket.metadata.estimated_complexity
        },
        forall|k: Seq<char>|
            term_lookup(final(ticket).decomposed_ticket.terms@, k) == match *field {
                TicketField::Terms(key) => if k == key@ {
                    Some(value@)
                } else {
                    term_lookup(old(ticket).decomposed_ticket.terms@, k)
                },
                _ => term_lookup(old(ticket).decomposed_ticket.terms@, k),
            },
        final(ticket).decomposed_ticket.validation_method@ == match *field {
            TicketField::ValidationMethod(i) => if i < old(
                ticket,
            ).decomposed_ticket.validation_method@.len() {
                old(ticket).decomposed_ticket.validation_method@.update(i as int, *value)
            } else {
                old(ticket).decomposed_ticket.validation_method@
            },
            _ => old(ticket).decomposed_ticket.validation_method@,
        },
        final(ticket).decomposed_ticket.open_questions@ == match *field {
            TicketField::OpenQuestion(i) => if i < old(ticket).decomposed_ticket.open_questions@.len() {
                old(ticket).decomposed_ticket.open_questions@.update(i as int, *value)
            } else {
                old(ticket).decomposed_ticket.open_questions@
            },
            _ => old(ticket).decomposed_ticket.open_questions@,
        },
        final(ticket).decomposed_ticket.engine_questions@ == match *field {
            TicketField::EngineQuestion(i) => if i < old(ticket).decomposed_ticket.engine_questions@.len() {
                old(ticket).decomposed_ticket.engine_questions@.update(i as int, *value)
            } else {
                old(ticket).decomposed_ticket.engine_questions@
            },
            _ => old(ticket).decomposed_ticket.engine_questions@,
        },
{
    match field {
        TicketField::Title => {
            ticket.original_ticket.title = value.clone();
            true
        },
        TicketField::RawInput => {
            ticket.original_ticket.raw_input = value.clone();
            true
        },
        TicketField::Status => {
            match parse_status(value.as_str()) {
                Ok(st) => {
                    ticket.decomposed_ticket.metadata.status = st;
                },
                Err(_) => {},
            }
            true
        },
        TicketField::Priority => {
            match parse_priority(value.as_str()) {
                Ok(p) => {
                    ticket.decomposed_ticket.metadata.priority = p;
                },
                Err(_) => {},
            }
            true
        },
        TicketField::Complexity => {
            match parse_complexity(value.as_str()) {
                Ok(c) => {
                    ticket.decomposed_ticket.metadata.estimated_complexity = c;
                },
                Err(_) => {},
            }
            true
        },
        TicketField::Terms(key) => {
            set_term(&mut ticket.decomposed_ticket.terms, key, value);
            true
        },
        TicketField::ValidationMethod(i) => {
            if *i < ticket.decomposed_ticket.validation_method.len() {
                ticket.decomposed_ticket.validation_method.set(*i, value.clone());
            }
            true
        },
        TicketField::OpenQuestion(i) => {
            if *i < ticket.decomposed_ticket.open_questions.len() {
                ticket.decomposed_ticket.open_questions.set(*i, value.clone());
            }
            true
        },
        TicketField::EngineQuestion(i) => {
            if *i < ticket.decomposed_ticket.engine_questions.len() {
                ticket.decomposed_ticket.engine_questions.set(*i, value.clone());
            }
            true
        },
        _ => false,
    }
}


/// What a search hit records: the field, the text shown, and where the match
/// starts and ends, in bytes of the lower-case text.
pub open spec fn hit_view(m: SearchMatch) -> (TicketField, Seq<char>, int, int) {
    (m.field, m.text@, m.match_start as int, m.match_end as int)
}

/// The records of a list of hits.
pub open spec fn hit_views(ms: Seq<SearchMatch>) -> Seq<(TicketField, Seq<char>, int, int)> {
    ms.map_values(|m: SearchMatch| hit_view(m))
}

/// The hit of a lower-case query in a field's text (given also in lower
/// case), from the first occurrence to its end, counted in bytes; none when
/// the query does not occur.
pub open spec fn text_hit(field: TicketField, text: Seq<char>, lowered: Seq<char>, lq: Seq<char>) -> Seq<
    (TicketField, Seq<char>, int, int),
> {
    if contains_text(lowered, lq) {
        let s = encode_utf8(lowered.take(first_occurrence(lowered, lq))).len() as int;
        seq![(field, text, s, s + encode_utf8(lq).len())]
    } else {
        Seq::empty()
    }
}

/// The hits of a lower-case query among a ticket's terms: each term whose
/// name or definition contains it, shown as `term: definition`, marked from
/// the start over the query's length.
pub open spec fn term_hits(terms: Seq<(String, String)>, lq: Seq<char>) -> Seq<
    (TicketField, Seq<char>, int, int),
>
    decreases terms.len(),
{
    if terms.len() == 0 {
        Seq::empty()
    } else {
        let p = terms.last();
        term_hits(terms.drop_last(), lq) + if contains_text(lowercase_text(p.0@), lq) || contains_text(
            lowercase_text(p.1@),
            lq,
        ) {
            seq![(TicketField::Terms(p.0), p.0@ + ": "@ + p.1@, 0int, encode_utf8(lq).len() as int)]
        } else {
            Seq::empty()
        }
    }
}

/// All hits of a lower-case query in a ticket: title, raw input, then terms.
pub open spec fn search_hits(t: TicketDecomposition, lq: Seq<char>) -> Seq<
    (TicketField, Seq<char>, int, int),
> {
    text_hit(
        TicketField::Title,
        t.original_ticket.title@,
        lowercase_text(t.original_ticket.title@),
        lq,
    ) + text_hit(
        TicketField::RawInput,
        t.original_ticket.raw_input@,
        lowercase_text(t.original_ticket.raw_input@),
        lq,
    ) + term_hits(t.decomposed_ticket.terms@, lq)
}

/// The hit of a lower-case query in a field's text, given the text and its
/// lower-case form.
pub fn text_match(field: TicketField, text: &String, lowered: &str, lowered_query: &str) -> (r: Option<
    SearchMatch,
>)
    ensures
        match r {
            Some(m) => text_hit(field, text@, lowered@, lowered_query@) == seq![hit_view(m)],
            None => text_hit(field, text@, lowered@, lowered_query@).len() == 0,
        },
{
    let l = chars_of(lowered);
    let q = chars_of(lowered_query);
    match find_text(&l, &q) {
        None => None,
        Some(k) => {
            proof {
                lemma_first_occurrence(l@, q@, k as int);
            }
            let head = chars_between(l.as_slice(), 0, k);
            let start = utf8_len(&head);
            let qlen = utf8_len(&q);
            let total = utf8_len(&l);
            proof {
                let rest = l@.skip(k + q@.len());
                assert(l@ =~= head@ + (q@ + rest));
                lemma_encode_utf8_concat(head@, q@ + rest);
                lemma_encode_utf8_concat(q@, rest);
                assert(head@ =~= lowered@.take(k as int));
            }
            Some(SearchMatch { field, text: text.clone(), match_start: start, match_end: start + qlen })
        },
    }
}

fn term_match(term: &String, definition: &String, lowered_query: &str) -> (r: Option<SearchMatch>)
    ensures
        match r {
            Some(m) => (contains_text(lowercase_text(term@), lowered_query@) || contains_text(
                lowercase_text(definition@),
                lowered_query@,
            )) && hit_view(m) == (
                TicketField::Terms(*term),
                term@ + ": "@ + definition@,
                0int,
                encode_utf8(lowered_query@).len() as int,
            ),
            None => !(contains_text(lowercase_text(term@), lowered_query@) || contains_text(
                lowercase_text(definition@),
                lowered_query@,
            )),
        },
{
    let lt = to_lowercase(term.as_str());
    let ld = to_lowercase(definition.as_str());
    if contains(lt.as_str(), lowered_query) || contains(ld.as_str(), lowered_query) {
        let q = chars_of(lowered_query);
        let qlen = utf8_len(&q);
        Some(
            SearchMatch {
                field: TicketField::Terms(term.clone()),
                text: concat3(term.as_str(), ": ", definition.as_str()),
                match_start: 0,
                match_end: qlen,
            },
        )
    } else {
        None
    }
}

proof fn lemma_hit_views_push(v: Seq<SearchMatch>, m: SearchMatch)
    ensures
        hit_views(v.push(m)) == hit_views(v).push(hit_view(m)),
{
    assert(hit_views(v.push(m)) =~= hit_views(v).push(hit_view(m)));
}

/// Recomputes the hits of a search within a ticket. An empty query has no
/// hits and goes back to the first; otherwise the hits are those of
/// `search_hits` for the query in lower case (none when there is no ticket),
/// and the current hit goes back to the first when it is past the last.
pub fn update_search_matches(ticket: Option<&TicketDecomposition>, search: &mut SearchState)
    ensures
        final(search).query == old(search).query,
        old(search).query@.len() == 0 ==> final(search).matches@.len() == 0
            && final(search).current_match == 0,
        old(search).query@.len() > 0 && ticket is None ==> final(search).matches@.len() == 0
            && final(search).current_match == old(search).current_match,
        old(search).query@.len() > 0 && ticket is Some ==> {
            &&& hit_views(final(search).matches@) == search_hits(
                *ticket->0,
                lowercase_text(old(search).query@),
            )
            &&& final(search).current_match == if old(search).current_match
                >= final(search).matches@.len() {
                0
            } else {
                old(search).current_match
            }
        },
{
    let qc = chars_of(search.query.as_str());
    if qc.len() == 0 {
        search.matches = Vec::new();
        search.current_match = 0;
        return;
    }
    search.matches = Vec::new();
    match ticket {
        None => {},
        Some(t) => {
            let lq = to_lowercase(search.query.as_str());
            let lq = lq.as_str();
            let mut found: Vec<SearchMatch> = Vec::new();
            let title_lower = to_lowercase(t.original_ticket.title.as_str());
            match text_match(TicketField::Title, &t.original_ticket.title, title_lower.as_str(), lq) {
                Some(m) => {
                    found.push(m);
                },
                None => {},
            }
            let raw_lower = to_lowercase(t.original_ticket.raw_input.as_str());
            let ghost after_title = found@;
            match text_match(TicketField::RawInput, &t.original_ticket.raw_input, raw_lower.as_str(), lq) {
                Some(m) => {
                    found.push(m);
                    proof {
                        lemma_hit_views_push(after_title, m);
                    }
                },
                None => {},
            }
            proof {
                assert(hit_views(found@) =~= text_hit(
                    TicketField::Title,
                    t.original_ticket.title@,
                    lowercase_text(t.original_ticket.title@),
                    lq@,
                ) + text_hit(
                    TicketField::RawInput,
                    t.original_ticket.raw_input@,
                    lowercase_text(t.original_ticket.raw_input@),
                    lq@,
                ));
            }
            let ghost head = hit_views(found@);
            let terms = &t.decomposed_ticket.terms;
            let n = terms.len();
            for i in 0..n
                invariant
                    n == terms@.len(),
                    hit_views(found@) == head + term_hits(terms@.take(i as int), lq@),
            {
                proof {
                    assert(terms@.take(i + 1).drop_last() =~= terms@.take(i as int));
                }
                let ghost before = found@;
                match term_match(&terms[i].0, &terms[i].1, lq) {
                    Some(m) => {
                        found.push(m);
                        proof {
                            lemma_hit_views_push(before, m);
                        }
                    },
                    None => {},
                }
            }
            proof {
                assert(terms@.take(n as int) =~= terms@);
            }
            search.matches = found;
            if search.current_match >= search.matches.len() {
                search.current_match = 0;
            }
        },
    }
}


/// The nodes that depend on nothing, in node order.
pub open spec fn root_nodes(s: Seq<TicketNode>) -> Seq<TicketNode>
    decreases s.len(),
{
    if s.len() == 0 {
        Seq::empty()
    } else {
        root_nodes(s.drop_last()) + if s.last().dependencies@.len() == 0 {
            seq![s.last()]
        } else {
            Seq::empty()
        }
    }
}

/// Entry `i` of the ticket list: `n. title (id)`.
pub open spec fn ticket_list_entry(i: int, n: TicketNode) -> Seq<char> {
    decimal((i + 1) as nat) + ". "@ + n.ticket.original_ticket.title@ + " ("@ + n.id@ + ")"@
}

/// The ticket list of a project: its root tickets, numbered, then "← Back";
/// a hint to create one when there are none.
pub open spec fn ticket_list_texts(nodes: Seq<TicketNode>) -> Seq<Seq<char>> {
    let roots = root_nodes(nodes);
    if roots.len() == 0 {
        seq!["No tickets found. Create a new ticket."@, "← Back"@]
    } else {
        Seq::new(roots.len(), |i: int| ticket_list_entry(i, roots[i])).push("← Back"@)
    }
}

proof fn lemma_root_nodes_len(s: Seq<TicketNode>)
    ensures
        root_nodes(s).len() <= s.len(),
    decreases s.len(),
{
    if s.len() > 0 {
        lemma_root_nodes_len(s.drop_last());
    }
}

/// The ticket list shown for a project.
pub fn ticket_list_items(project: &Project) -> (r: Vec<String>)
    ensures
        views(r@) == ticket_list_texts(project.graph.nodes@),
{
    let nodes = &project.graph.nodes;
    let n = nodes.len();
    let mut items: Vec<String> = Vec::new();
    for k in 0..n
        invariant
            n == nodes@.len(),
            views(items@) == Seq::new(
                root_nodes(nodes@.take(k as int)).len(),
                |i: int| ticket_list_entry(i, root_nodes(nodes@.take(k as int))[i]),
            ),
            items@.len() == root_nodes(nodes@.take(k as int)).len(),
    {
        let ghost prev = root_nodes(nodes@.take(k as int));
        proof {
            assert(nodes@.take(k + 1).drop_last() =~= nodes@.take(k as int));
            lemma_root_nodes_len(nodes@.take(k as int));
        }
        let node = &nodes[k];
        if node.dependencies.len() == 0 {
            let i = items.len();
            let mut line = decimal_string(i + 1);
            append_str(&mut line, ". ");
            append_str(&mut line, node.ticket.original_ticket.title.as_str());
            append_str(&mut line, " (");
            append_str(&mut line, node.id.as_str());
            append_str(&mut line, ")");
            let ghost before = items@;
            items.push(line);
            proof {
                lemma_views_push(before, line);
                let now = root_nodes(nodes@.take(k + 1));
                assert(now =~= prev.push(*node));
                assert(views(items@) =~= Seq::new(now.len(), |j: int| ticket_list_entry(j, now[j])));
            }
        } else {
            proof {
                let now = root_nodes(nodes@.take(k + 1));
                assert(now =~= prev);
            }
        }
    }
    proof {
        assert(nodes@.take(n as int) =~= nodes@);
    }
    if items.len() == 0 {
        let r = vec![owned("No tickets found. Create a new ticket."), owned("← Back")];
        proof {
            assert(views(r@) =~= ticket_list_texts(project.graph.nodes@));
        }
        r
    } else {
        let ghost before = items@;
        let back = owned("← Back");
        items.push(back);
        proof {
            lemma_views_push(before, back);
            assert(views(items@) =~= ticket_list_texts(project.graph.nodes@));
        }
        items
    }
}

/// The action menu of a ticket: with its counts when the ticket was found.
pub fn ticket_actions_for(node: Option<&TicketNode>) -> (r: Vec<String>)
    ensures
        views(r@) == ticket_action_texts(
            match node {
                Some(n) => Some(
                    (
                        n.ticket.decomposed_ticket.terms_needing_refinement@.len() as usize,
                        n.dependencies@.len() as usize,
                        n.dependents@.len() as usize,
                    ),
                ),
                None => None,
            },
        ),
{
    match node {
        Some(n) => ticket_actions_items(
            Some(
                (
                    n.ticket.decomposed_ticket.terms_needing_refinement.len(),
                    n.dependencies.len(),
                    n.dependents.len(),
                ),
            ),
        ),
        None => ticket_actions_items(None),
    }
}


/// A line of the ticket details panel, highlighted when it shows the
/// selected field.
#[derive(Debug, Clone)]
pub struct TicketLine {
    pub text: String,
    pub highlighted: bool,
}

/// Two fields are of the same kind (whatever their term or position).
pub open spec fn same_kind(a: TicketField, b: TicketField) -> bool {
    match (a, b) {
        (TicketField::Title, TicketField::Title) => true,
        (TicketField::RawInput, TicketField::RawInput) => true,
        (TicketField::Status, TicketField::Status) => true,
        (TicketField::Priority, TicketField::Priority) => true,
        (TicketField::Complexity, TicketField::Complexity) => true,
        (TicketField::Terms(_), TicketField::Terms(_)) => true,
        (TicketField::ValidationMethod(_), TicketField::ValidationMethod(_)) => true,
        (TicketField::OpenQuestion(_), TicketField::OpenQuestion(_)) => true,
        (TicketField::EngineQuestion(_), TicketField::EngineQuestion(_)) => true,
        (TicketField::RefinementRequest(_), TicketField::RefinementRequest(_)) => true,
        (TicketField::Dependencies, TicketField::Dependencies) => true,
        (TicketField::Dependents, TicketField::Dependents) => true,
        _ => false,
    }
}

fn same_kind_of(a: &TicketField, b: &TicketField) -> (r: bool)
    ensures
        r == same_kind(*a, *b),
{
    match (a, b) {
        (TicketField::Title, TicketField::Title) => true,
        (TicketField::RawInput, TicketField::RawInput) => true,
        (TicketField::Status, TicketField::Status) => true,
        (TicketField::Priority, TicketField::Priority) => true,
        (TicketField::Complexity, TicketField::Complexity) => true,
        (TicketField::Terms(_), TicketField::Terms(_)) => true,
        (TicketField::ValidationMethod(_), TicketField::ValidationMethod(_)) => true,
        (TicketField::OpenQuestion(_), TicketField::OpenQuestion(_)) => true,
        (TicketField::EngineQuestion(_), TicketField::EngineQuestion(_)) => true,
        (TicketField::RefinementRequest(_), TicketField::RefinementRequest(_)) => true,
        (TicketField::Dependencies, TicketField::Dependencies) => true,
        (TicketField::Dependents, TicketField::Dependents) => true,
        _ => false,
    }
}

/// A blank line when the section before it was not empty.
pub open spec fn separator(nonempty: bool) -> Seq<(Seq<char>, Option<TicketField>)> {
    if nonempty {
        seq![(Seq::<char>::empty(), None::<TicketField>)]
    } else {
        Seq::empty()
    }
}

/// The first lines of the details panel: title, raw input, status, priority
/// and complexity, then a blank line.
pub open spec fn panel_head(node: TicketNode) -> Seq<(Seq<char>, Option<TicketField>)> {
    let t = node.ticket;
    let d = t.decomposed_ticket;
    seq![
        ("📋 Title: "@ + t.original_ticket.title@, Some(TicketField::Title)),
        ("📝 Raw Input"@, Some(TicketField::RawInput)),
        ("📊 Status: "@ + status_label(d.metadata.status), Some(TicketField::Status)),
        ("🎯 Priority: "@ + priority_label(d.metadata.priority), Some(TicketField::Priority)),
        (
            "⚡ Complexity: "@ + complexity_label(d.metadata.estimated_complexity),
            Some(TicketField::Complexity),
        ),
        (Seq::<char>::empty(), None::<TicketField>),
    ]
}

/// One line per term, `term = definition`, then a blank line if any.
pub open spec fn term_entries(terms: Seq<(String, String)>) -> Seq<(Seq<char>, Option<TicketField>)> {
    terms.map_values(
        |p: (String, String)| ("📚 Term: "@ + p.0@ + " = "@ + p.1@, Some(TicketField::Terms(p.0))),
    ) + separator(terms.len() > 0)
}

/// The numbered field of kind `kind` (validation method, open question,
/// engine question) at position `i`.
pub open spec fn numbered_field(kind: u8, i: int) -> TicketField {
    if kind == 0 {
        TicketField::ValidationMethod(i as usize)
    } else if kind == 1 {
        TicketField::OpenQuestion(i as usize)
    } else {
        TicketField::EngineQuestion(i as usize)
    }
}

/// A numbered section: one line per item, then a blank line if any.
pub open spec fn numbered_section(label: Seq<char>, items: Seq<String>, kind: u8) -> Seq<
    (Seq<char>, Option<TicketField>),
> {
    Seq::new(items.len(), |i: int| numbered_entry(label, items[i]@, i, numbered_field(kind, i)))
        + separator(items.len() > 0)
}

/// One line per refinement request, then a blank line if any.
pub open spec fn refinement_entries(reqs: Seq<RefinementRequest>) -> Seq<
    (Seq<char>, Option<TicketField>),
> {
    Seq::new(
        reqs.len(),
        |i: int|
            (
                "🔍 "@ + priority_marker(reqs[i].priority) + " Refinement #"@ + decimal((i + 1) as nat)
                    + ": "@ + reqs[i].term@ + " - "@ + reqs[i].reason@,
                Some(TicketField::RefinementRequest(i as usize)),
            ),
    ) + separator(reqs.len() > 0)
}

/// The dependency and dependent counts, for those that are not zero.
pub open spec fn link_entries(node: TicketNode) -> Seq<(Seq<char>, Option<TicketField>)> {
    (if node.dependencies@.len() > 0 {
        seq![
            (
                "🔗 Dependencies ("@ + decimal(node.dependencies@.len()) + ")"@,
                Some(TicketField::Dependencies),
            ),
        ]
    } else {
        Seq::empty()
    }) + (if node.dependents@.len() > 0 {
        seq![("⬆️ Dependents ("@ + decimal(node.dependents@.len()) + ")"@, Some(TicketField::Dependents))]
    } else {
        Seq::empty()
    })
}

/// The lines of the details panel of a ticket, each with the field it shows
/// (none for the blank lines between sections).
pub open spec fn panel_entries(node: TicketNode) -> Seq<(Seq<char>, Option<TicketField>)> {
    let d = node.ticket.decomposed_ticket;
    panel_head(node) + term_entries(d.terms@) + numbered_section(
        "✅ Validation #"@,
        d.validation_method@,
        0,
    ) + numbered_section("❓ Open Question #"@, d.open_questions@, 1) + numbered_section(
        "🔧 Engine Question #"@,
        d.engine_questions@,
        2,
    ) + refinement_entries(d.terms_needing_refinement@) + link_entries(node)
}

/// How many of the lines show a field.
pub open spec fn field_count(entries: Seq<(Seq<char>, Option<TicketField>)>) -> nat
    decreases entries.len(),
{
    if entries.len() == 0 {
        0
    } else {
        field_count(entries.drop_last()) + if entries.last().1 is Some {
            1nat
        } else {
            0nat
        }
    }
}

/// Line `j` is highlighted: it shows a field, it is the field at the
/// selected position, and the field listed there is of the same kind.
pub open spec fn highlighted_at(
    entries: Seq<(Seq<char>, Option<TicketField>)>,
    j: int,
    selected: int,
    fields: Seq<TicketField>,
) -> bool {
    let pos = field_count(entries.take(j)) as int;
    &&& entries[j].1 is Some
    &&& pos == selected
    &&& pos < fields.len()
    &&& same_kind(fields[pos], entries[j].1->0)
}

type Entry = (String, Option<TicketField>);

proof fn lemma_entry_push(v: Seq<Entry>, e: Entry)
    ensures
        v.push(e).map_values(|x: Entry| (x.0@, x.1)) == v.map_values(|x: Entry| (x.0@, x.1)).push(
            (e.0@, e.1),
        ),
{
    assert(v.push(e).map_values(|x: Entry| (x.0@, x.1)) =~= v.map_values(|x: Entry| (x.0@, x.1)).push(
        (e.0@, e.1),
    ));
}

fn push_entry(v: &mut Vec<Entry>, text: String, field: Option<TicketField>)
    ensures
        final(v)@.map_values(|x: Entry| (x.0@, x.1)) == old(v)@.map_values(|x: Entry| (x.0@, x.1)).push(
            (text@, field),
        ),
{
    let ghost before = v@;
    let e = (text, field);
    v.push(e);
    proof {
        lemma_entry_push(before, e);
    }
}

fn push_separator(v: &mut Vec<Entry>, nonempty: bool)
    ensures
        final(v)@.map_values(|x: Entry| (x.0@, x.1)) == old(v)@.map_values(|x: Entry| (x.0@, x.1))
            + separator(nonempty),
{
    let ghost before = v@.map_values(|x: Entry| (x.0@, x.1));
    if nonempty {
        push_entry(v, String::new(), None);
        proof {
            assert(before.push((Seq::<char>::empty(), None::<TicketField>)) =~= before + separator(
                true,
            ));
        }
    } else {
        proof {
            assert(before =~= before + separator(false));
        }
    }
}

/// Entry `i` of a numbered section of the panel.
pub open spec fn numbered_entry(label: Seq<char>, item: Seq<char>, i: int, field: TicketField) -> (
    Seq<char>,
    Option<TicketField>,
) {
    (label + decimal((i + 1) as nat) + ": "@ + item, Some(field))
}

fn push_numbered_section(v: &mut Vec<Entry>, items: &Vec<String>, label: &str, kind: u8)
    requires
        kind < 3,
    ensures
        final(v)@.map_values(|x: Entry| (x.0@, x.1)) == old(v)@.map_values(|x: Entry| (x.0@, x.1))
            + numbered_section(label@, items@, kind),
{
    let ghost start = v@.map_values(|x: Entry| (x.0@, x.1));
    let n = items.len();
    for i in 0..n
        invariant
            kind < 3,
            n == items@.len(),
            v@.map_values(|x: Entry| (x.0@, x.1)) == start + Seq::new(
                i as nat,
                |j: int| numbered_entry(label@, items@[j]@, j, numbered_field(kind, j)),
            ),
    {
        let f = if kind == 0 {
            TicketField::ValidationMethod(i)
        } else if kind == 1 {
            TicketField::OpenQuestion(i)
        } else {
            TicketField::EngineQuestion(i)
        };
        let mut line = concat2(label, decimal_string(i + 1).as_str());
        append_str(&mut line, ": ");
        append_str(&mut line, items[i].as_str());
        push_entry(v, line, Some(f));
        proof {
            assert(v@.map_values(|x: Entry| (x.0@, x.1)) =~= start + Seq::new(
                (i + 1) as nat,
                |j: int| numbered_entry(label@, items@[j]@, j, numbered_field(kind, j)),
            ));
        }
    }
    let ghost body = v@.map_values(|x: Entry| (x.0@, x.1));
    push_separator(v, n > 0);
    proof {
        assert(start + Seq::new(
            n as nat,
            |j: int| numbered_entry(label@, items@[j]@, j, numbered_field(kind, j)),
        ) + separator(n > 0) =~= start + numbered_section(label@, items@, kind));
    }
}

fn push_head(v: &mut Vec<Entry>, node: &TicketNode)
    ensures
        final(v)@.map_values(|x: Entry| (x.0@, x.1)) == old(v)@.map_values(|x: Entry| (x.0@, x.1))
            + panel_head(*node),
{
    let ghost start = v@.map_values(|x: Entry| (x.0@, x.1));
    let t = &node.ticket;
    let d = &t.decomposed_ticket;
    push_entry(v, concat2("📋 Title: ", t.original_ticket.title.as_str()), Some(TicketField::Title));
    push_entry(v, owned("📝 Raw Input"), Some(TicketField::RawInput));
    push_entry(v, concat2("📊 Status: ", status_text(d.metadata.status)), Some(TicketField::Status));
    push_entry(v, concat2("🎯 Priority: ", priority_text(d.metadata.priority)), Some(TicketField::Priority));
    push_entry(
        v,
        concat2("⚡ Complexity: ", complexity_text(d.metadata.estimated_complexity)),
        Some(TicketField::Complexity),
    );
    push_entry(v, String::new(), None);
    proof {
        assert(v@.map_values(|x: Entry| (x.0@, x.1)) =~= start + panel_head(*node));
    }
}

fn push_term_entries(v: &mut Vec<Entry>, terms: &Vec<(String, String)>)
    ensures
        final(v)@.map_values(|x: Entry| (x.0@, x.1)) == old(v)@.map_values(|x: Entry| (x.0@, x.1))
            + term_entries(terms@),
{
    let ghost head = v@.map_values(|x: Entry| (x.0@, x.1));
    let n = terms.len();
    for k in 0..n
        invariant
            n == terms@.len(),
            v@.map_values(|x: Entry| (x.0@, x.1)) == head + terms@.take(k as int).map_values(
                |p: (String, String)| ("📚 Term: "@ + p.0@ + " = "@ + p.1@, Some(TicketField::Terms(p.0))),
            ),
    {
        let term = &terms[k].0;
        let mut line = concat2("📚 Term: ", term.as_str());
        append_str(&mut line, " = ");
        append_str(&mut line, terms[k].1.as_str());
        push_entry(v, line, Some(TicketField::Terms(term.clone())));
        proof {
            assert(terms@.take(k + 1) =~= terms@.take(k as int).push(terms@[k as int]));
            assert(v@.map_values(|x: Entry| (x.0@, x.1)) =~= head + terms@.take(k + 1).map_values(
                |p: (String, String)| ("📚 Term: "@ + p.0@ + " = "@ + p.1@, Some(TicketField::Terms(p.0))),
            ));
        }
    }
    proof {
        assert(terms@.take(n as int) =~= terms@);
    }
    let ghost body = v@.map_values(|x: Entry| (x.0@, x.1));
    push_separator(v, n > 0);
    proof {
        assert(body + separator(n > 0) =~= head + term_entries(terms@));
    }
}

fn push_refinement_entries(v: &mut Vec<Entry>, reqs: &Vec<RefinementRequest>)
    ensures
        final(v)@.map_values(|x: Entry| (x.0@, x.1)) == old(v)@.map_values(|x: Entry| (x.0@, x.1))
            + refinement_entries(reqs@),
{
    let ghost mid = v@.map_values(|x: Entry| (x.0@, x.1));
    let m = reqs.len();
    for k in 0..m
        invariant
            m == reqs@.len(),
            v@.map_values(|x: Entry| (x.0@, x.1)) == mid + Seq::new(
                k as nat,
                |i: int|
                    (
                        "🔍 "@ + priority_marker(reqs@[i].priority) + " Refinement #"@ + decimal(
                            (i + 1) as nat,
                        ) + ": "@ + reqs@[i].term@ + " - "@ + reqs@[i].reason@,
                        Some(TicketField::RefinementRequest(i as usize)),
                    ),
            ),
    {
        let req = &reqs[k];
        let mut line = concat2("🔍 ", priority_emoji(req.priority));
        append_str(&mut line, " Refinement #");
        append_str(&mut line, decimal_string(k + 1).as_str());
        append_str(&mut line, ": ");
        append_str(&mut line, req.term.as_str());
        append_str(&mut line, " - ");
        append_str(&mut line, req.reason.as_str());
        push_entry(v, line, Some(TicketField::RefinementRequest(k)));
        proof {
            assert(v@.map_values(|x: Entry| (x.0@, x.1)) =~= mid + Seq::new(
                (k + 1) as nat,
                |i: int|
                    (
                        "🔍 "@ + priority_marker(reqs@[i].priority) + " Refinement #"@ + decimal(
                            (i + 1) as nat,
                        ) + ": "@ + reqs@[i].term@ + " - "@ + reqs@[i].reason@,
                        Some(TicketField::RefinementRequest(i as usize)),
                    ),
            ));
        }
    }
    let ghost body = v@.map_values(|x: Entry| (x.0@, x.1));
    push_separator(v, m > 0);
    proof {
        assert(body + separator(m > 0) =~= mid + refinement_entries(reqs@));
    }
}

fn push_link_entries(v: &mut Vec<Entry>, node: &TicketNode)
    ensures
        final(v)@.map_values(|x: Entry| (x.0@, x.1)) == old(v)@.map_values(|x: Entry| (x.0@, x.1))
            + link_entries(*node),
{
    let ghost tail0 = v@.map_values(|x: Entry| (x.0@, x.1));
    if node.dependencies.len() > 0 {
        push_entry(v, count_line("🔗 Dependencies (", node.dependencies.len()), Some(TicketField::Dependencies));
    }
    let ghost tail1 = v@.map_values(|x: Entry| (x.0@, x.1));
    if node.dependents.len() > 0 {
        push_entry(v, count_line("⬆️ Dependents (", node.dependents.len()), Some(TicketField::Dependents));
    }
    proof {
        assert(v@.map_values(|x: Entry| (x.0@, x.1)) =~= tail0 + link_entries(*node));
    }
}

/// The lines of a ticket's details panel, each with the field it shows.
pub fn panel_lines(node: &TicketNode) -> (r: Vec<(String, Option<TicketField>)>)
    ensures
        r@.map_values(|x: Entry| (x.0@, x.1)) == panel_entries(*node),
{
    let d = &node.ticket.decomposed_ticket;
    let mut v: Vec<Entry> = Vec::new();
    proof {
        assert(v@.map_values(|x: Entry| (x.0@, x.1)) =~= Seq::<(Seq<char>, Option<TicketField>)>::empty());
    }
    push_head(&mut v, node);
    push_term_entries(&mut v, &d.terms);
    push_numbered_section(&mut v, &d.validation_method, "✅ Validation #", 0);
    push_numbered_section(&mut v, &d.open_questions, "❓ Open Question #", 1);
    push_numbered_section(&mut v, &d.engine_questions, "🔧 Engine Question #", 2);
    push_refinement_entries(&mut v, &d.terms_needing_refinement);
    push_link_entries(&mut v, node);
    proof {
        let e = Seq::<(Seq<char>, Option<TicketField>)>::empty();
        assert(e + panel_head(*node) =~= panel_head(*node));
    }
    v
}

/// Marks the line that shows the field at the selected position, when the
/// field listed at that position is of the same kind.
pub fn highlight_lines(entries: Vec<(String, Option<TicketField>)>, selected_index: usize, ticket_fields: &Vec<TicketField>) -> (r: Vec<TicketLine>)
    ensures
        r@.len() == entries@.len(),
        forall|j: int|
            0 <= j < r@.len() ==> (#[trigger] r@[j]).text@ == entries@[j].0@ && r@[j].highlighted
                == highlighted_at(
                entries@.map_values(|x: Entry| (x.0@, x.1)),
                j,
                selected_index as int,
                ticket_fields@,
            ),
{
    let ghost ev = entries@.map_values(|x: Entry| (x.0@, x.1));
    let n = entries.len();
    let mut out: Vec<TicketLine> = Vec::new();
    let mut pos: usize = 0;
    let mut rest = entries;
    let ghost all = rest@;
    let mut j: usize = 0;
    while j < n
        invariant
            n == all.len(),
            ev == all.map_values(|x: Entry| (x.0@, x.1)),
            j <= n,
            rest@.len() == n,
            rest@ == all,
            out@.len() == j,
            pos == field_count(ev.take(j as int)),
            pos <= j,
            forall|i: int|
                0 <= i < j ==> (#[trigger] out@[i]).text@ == all[i].0@ && out@[i].highlighted
                    == highlighted_at(ev, i, selected_index as int, ticket_fields@),
        decreases n - j,
    {
        proof {
            assert(ev.take(j + 1).drop_last() =~= ev.take(j as int));
            assert(ev.take(j + 1).last() == ev[j as int]);
        }
        let text = rest[j].0.clone();
        let highlighted = match &rest[j].1 {
            Some(f) => pos == selected_index && pos < ticket_fields.len() && same_kind_of(
                &ticket_fields[pos],
                f,
            ),
            None => false,
        };
        let is_field = rest[j].1.is_some();
        out.push(TicketLine { text, highlighted });
        if is_field {
            pos = pos + 1;
        }
        j = j + 1;
    }
    out
}

/// The details panel of a ticket: its lines, with the selected field
/// highlighted.
pub fn build_ticket_lines_with_highlight(node: &TicketNode, selected_index: usize, ticket_fields: &Vec<TicketField>) -> (r: Vec<TicketLine>)
    ensures
        r@.len() == panel_entries(*node).len(),
        forall|j: int|
            0 <= j < r@.len() ==> (#[trigger] r@[j]).text@ == panel_entries(*node)[j].0
                && r@[j].highlighted == highlighted_at(
                panel_entries(*node),
                j,
                selected_index as int,
                ticket_fields@,
            ),
{
    let entries = panel_lines(node);
    let ghost ev = entries@;
    let r = highlight_lines(entries, selected_index, ticket_fields);
    proof {
        assert forall|j: int| 0 <= j < r@.len() implies (#[trigger] r@[j]).text@ == panel_entries(*node)[j].0 by {
            assert(ev.map_values(|x: Entry| (x.0@, x.1))[j] == (ev[j].0@, ev[j].1));
        }
    }
    r
}

} // verus!
