use control_flow::qa::format_request_type;
use control_flow::qa::{
    clean_question_text, extract_questions_from_text, infer_question_type, is_retryable_error,
    question_core_of, questions_from_story, session_title, FailureKind, PlanningQuestionType,
    QuestionPriority, RetryResult,
};
use control_flow::story::{Choice, StoryGraph, StoryNode};
use control_flow::types::{NodeState, NodeType};

fn service(msg: &str) -> FailureKind {
    FailureKind::AiServiceError { message: msg.to_string() }
}

#[test]
fn retry_policy_follows_the_message() {
    assert!(is_retryable_error(&service("Server overloaded, try later")));
    assert!(is_retryable_error(&service("HTTP 429 Too Many Requests")));
    assert!(is_retryable_error(&service("upstream 502")));
    assert!(is_retryable_error(&service("status 503")));
    assert!(is_retryable_error(&service("error 529")));
    assert!(is_retryable_error(&service("request timeout")));
    assert!(!is_retryable_error(&service("invalid api key")));
    assert!(!is_retryable_error(&service("Overloaded")));
    assert!(is_retryable_error(&FailureKind::Timeout { operation: "generate".to_string() }));
    assert!(!is_retryable_error(&FailureKind::Other));
}

#[test]
fn question_kinds_follow_keywords() {
    assert_eq!(infer_question_type("What are the key requirements?"), PlanningQuestionType::Requirements);
    assert_eq!(infer_question_type("How SHOULD it look?"), PlanningQuestionType::Requirements);
    assert_eq!(infer_question_type("What is the Architecture?"), PlanningQuestionType::Architecture);
    assert_eq!(infer_question_type("What depends on the API?"), PlanningQuestionType::Dependencies);
    assert_eq!(infer_question_type("What comes first?"), PlanningQuestionType::Priorities);
    assert_eq!(infer_question_type("Where are the limits?"), PlanningQuestionType::Constraints);
    assert_eq!(infer_question_type("What could go wrong?"), PlanningQuestionType::Risks);
    assert_eq!(infer_question_type("How do we build it?"), PlanningQuestionType::Implementation);
    assert_eq!(infer_question_type("How do we test it?"), PlanningQuestionType::Validation);
    assert_eq!(infer_question_type("Hello there"), PlanningQuestionType::Requirements);
}

#[test]
fn question_texts_are_cleaned() {
    assert_eq!(clean_question_text("1. What is the goal | Requirements"), "What is the goal?");
    assert_eq!(clean_question_text("  Describe the users  "), "Describe the users");
    assert_eq!(clean_question_text("How fast?"), "How fast?");
    assert_eq!(clean_question_text("12. how many users"), "how many users?");
    assert_eq!(clean_question_text("Version 2.0 release"), "Version 2.0 release");
    assert_eq!(clean_question_text(". what"), "what?");
    assert_eq!(clean_question_text("a | b | c"), "a | b");
    assert_eq!(question_core_of(" 3 .  Should we cache? | Risks "), "Should we cache?");
}

#[test]
fn questions_are_found_line_by_line() {
    let text = "1. What is the scope\n2) who are the users\n\nshort";
    assert_eq!(extract_questions_from_text(text), vec!["What is the scope?".to_string()]);
    let text = "Intro line\r\nDo we need an admin panel for this?\r\n";
    assert_eq!(
        extract_questions_from_text(text),
        vec!["Do we need an admin panel for this?".to_string()]
    );
}

#[test]
fn questions_fall_back_to_sentences() {
    let text = "alpha beta gamma\ndelta epsilon. tiny";
    assert_eq!(
        extract_questions_from_text(text),
        vec!["alpha beta gamma\ndelta epsilon".to_string()]
    );
    assert!(extract_questions_from_text("").is_empty());
    assert!(extract_questions_from_text("a. b. c").is_empty());
}

fn story_with_root(choices: Vec<&str>, situation: &str, rooted: bool) -> StoryGraph {
    let node = StoryNode {
        id: 7,
        node_type: NodeType::Start,
        situation: situation.to_string(),
        choices: choices
            .into_iter()
            .map(|d| Choice { description: d.to_string(), target_node_id: None })
            .collect(),
        state: NodeState::Current,
    };
    StoryGraph {
        title: "plan".to_string(),
        description: None,
        nodes: vec![node],
        edges: vec![],
        root_node_id: if rooted { Some(7) } else { None },
        current_node_id: None,
    }
}

#[test]
fn story_choices_become_questions() {
    let story = story_with_root(vec!["1. What stack | Architecture", "Who owns the budget"], "Kickoff", true);
    let drafts = questions_from_story(&story);
    assert_eq!(drafts.len(), 2);
    assert_eq!(drafts[0].question, "What stack?");
    assert_eq!(drafts[0].question_type, PlanningQuestionType::Architecture);
    assert_eq!(drafts[0].context, "Kickoff");
    assert_eq!(drafts[0].priority, QuestionPriority::High);
    assert_eq!(drafts[1].question, "Who owns the budget");
    assert_eq!(drafts[1].question_type, PlanningQuestionType::Constraints);
}

#[test]
fn story_situation_yields_questions_without_choices() {
    let story = story_with_root(vec![], "1. How will we test the release\nok", true);
    let drafts = questions_from_story(&story);
    assert_eq!(drafts.len(), 1);
    assert_eq!(drafts[0].question, "How will we test the release?");
    assert_eq!(drafts[0].question_type, PlanningQuestionType::Validation);
}

#[test]
fn rootless_story_yields_no_questions() {
    let story = story_with_root(vec!["What?"], "x", false);
    assert!(questions_from_story(&story).is_empty());
    let mut other = story_with_root(vec!["What?"], "x", true);
    other.root_node_id = Some(99);
    assert!(questions_from_story(&other).is_empty());
}

#[test]
fn session_titles_name_the_project() {
    assert_eq!(session_title("todo app"), "Planning Session: todo app");
    let r = RetryResult::StillFailing("busy".to_string());
    assert!(matches!(r, RetryResult::StillFailing(ref m) if m == "busy"));
}

use control_flow::qa::{
    add_pending_request, begin_retry, classify_failure, custom_question, finish_retry,
    follow_up_drafts, get_retryable_requests, AttemptOutcome, PendingRequest, RequestType,
};

#[test]
fn pending_requests_are_filed_retried_and_closed() {
    let mut pending: Vec<PendingRequest> = Vec::new();
    let a = add_pending_request(&mut pending, RequestType::InitialQuestions, "ctx".to_string(), None, "boom".to_string());
    let b = add_pending_request(
        &mut pending,
        RequestType::CustomQuestion { question_text: "Why?".to_string() },
        "c2".to_string(),
        Some("input".to_string()),
        "bad".to_string(),
    );
    assert_eq!(pending.len(), 2);
    assert_eq!(get_retryable_requests(&pending).len(), 2);

    let (kind, ctx) = begin_retry(&mut pending, a).unwrap();
    assert!(matches!(kind, RequestType::InitialQuestions));
    assert_eq!(ctx, "ctx");
    begin_retry(&mut pending, a).unwrap();
    begin_retry(&mut pending, a).unwrap();
    let ra = pending.iter().find(|p| p.id == a).unwrap();
    assert_eq!(ra.retry_count, 3);
    let retryable = get_retryable_requests(&pending);
    assert_eq!(retryable.len(), 1);
    assert_eq!(retryable[0].id, b);

    assert_eq!(begin_retry(&mut pending, 12345).unwrap_err(), "Pending request not found");

    let r = finish_retry(&mut pending, a, AttemptOutcome::Failed { retryable: true, message: "overloaded".to_string() });
    assert!(matches!(r, RetryResult::StillFailing(ref m) if m == "overloaded"));
    assert_eq!(pending.iter().find(|p| p.id == a).unwrap().error_message, "overloaded");
    let r = finish_retry(&mut pending, a, AttemptOutcome::Failed { retryable: false, message: "denied".to_string() });
    assert!(matches!(r, RetryResult::PermanentFailure(ref m) if m == "denied"));
    let r = finish_retry(&mut pending, b, AttemptOutcome::MissingAnswer);
    assert!(matches!(r, RetryResult::PermanentFailure(ref m) if m == "Answer not found"));
    let r = finish_retry(&mut pending, a, AttemptOutcome::Succeeded);
    assert!(matches!(r, RetryResult::Success));
    assert_eq!(pending.len(), 1);
    assert_eq!(pending[0].id, b);
}

#[test]
fn failures_are_classified() {
    let o = classify_failure(&service("HTTP 503"), "AI service error: HTTP 503".to_string());
    assert!(matches!(o, AttemptOutcome::Failed { retryable: true, ref message } if message == "AI service error: HTTP 503"));
    let o = classify_failure(&FailureKind::Other, "Invalid input".to_string());
    assert!(matches!(o, AttemptOutcome::Failed { retryable: false, .. }));
}

#[test]
fn follow_ups_and_custom_questions() {
    let choices = vec![
        Choice { description: "What could go wrong at launch?".to_string(), target_node_id: None },
        Choice { description: "Who signs off".to_string(), target_node_id: None },
    ];
    let drafts = follow_up_drafts(&choices, "Use Postgres", 42);
    assert_eq!(drafts[1].dependencies, vec![42u128]);
    assert_eq!(drafts.len(), 2);
    assert_eq!(drafts[0].question, "What could go wrong at launch?");
    assert_eq!(drafts[0].context, "Follow-up from exploring: Use Postgres");
    assert_eq!(drafts[0].question_type, PlanningQuestionType::Risks);
    assert_eq!(drafts[1].priority, QuestionPriority::Medium);
    let q = custom_question("Who are the users?");
    assert_eq!(q.question, "Who are the users?");
    assert_eq!(q.context, "User-generated question");
    assert_eq!(q.question_type, PlanningQuestionType::Requirements);
    assert_eq!(q.priority, QuestionPriority::Medium);
    assert!(q.user_initiated && !q.generated_by_ai);
    assert!(q.dependencies.is_empty());
    assert!(drafts[0].generated_by_ai && !drafts[0].user_initiated);
}

use control_flow::qa::{add_custom_question, retry_request, QuestionDraft, RetryStep};

#[test]
fn retrying_a_custom_question_files_it_and_closes_the_request() {
    let mut pending: Vec<PendingRequest> = Vec::new();
    let mut questions: Vec<(u128, QuestionDraft)> = Vec::new();
    let a = add_pending_request(&mut pending, RequestType::InitialQuestions, "ctx".to_string(), None, "boom".to_string());
    let b = add_pending_request(
        &mut pending,
        RequestType::CustomQuestion { question_text: "What is the budget?".to_string() },
        "c2".to_string(),
        None,
        "bad".to_string(),
    );
    let step = retry_request(&mut questions, &mut pending, b).unwrap();
    assert!(matches!(step, RetryStep::Done(RetryResult::Success)));
    assert_eq!(questions.len(), 1);
    let (_, q) = &questions[0];
    assert_eq!(q.question, "What is the budget?");
    assert_eq!(q.context, "User-generated question");
    assert_eq!(q.priority, QuestionPriority::Medium);
    assert!(q.user_initiated && !q.generated_by_ai);
    assert_eq!(pending.len(), 1);
    assert_eq!(pending[0].id, a);

    let step = retry_request(&mut questions, &mut pending, a).unwrap();
    assert!(matches!(step, RetryStep::AskEngine(RequestType::InitialQuestions, ref c) if c == "ctx"));
    assert_eq!(questions.len(), 1);
    assert_eq!(pending[0].retry_count, 1);
    assert_eq!(retry_request(&mut questions, &mut pending, b).unwrap_err(), "Pending request not found");

    add_custom_question(&mut questions, 7, "Who decides?");
    assert_eq!(questions.len(), 2);
    assert_eq!(questions[1].0, 7);
    assert_eq!(questions[1].1.question, "Who decides?");
}

use control_flow::qa::{explore_menu_choice, format_question_type, questions_to_explore, ExploreChoice};

#[test]
fn exploration_lists_unanswered_by_priority() {
    let qs = vec![
        (1u128, QuestionPriority::Medium),
        (2, QuestionPriority::Critical),
        (3, QuestionPriority::High),
        (4, QuestionPriority::Critical),
        (5, QuestionPriority::Low),
        (6, QuestionPriority::High),
    ];
    assert_eq!(questions_to_explore(&qs, &vec![4, 6]), vec![2, 3, 1, 5]);
    assert_eq!(questions_to_explore(&qs, &vec![1, 2, 3, 4, 5, 6]), Vec::<u128>::new());
    assert_eq!(format_question_type(PlanningQuestionType::Implementation), "Implementation");
}

#[test]
fn exploration_menu_answers() {
    assert_eq!(explore_menu_choice("a\n", 3), ExploreChoice::AddCustom);
    assert_eq!(explore_menu_choice(" r ", 3), ExploreChoice::Review);
    assert_eq!(explore_menu_choice("b", 3), ExploreChoice::Back);
    assert_eq!(explore_menu_choice("2\n", 3), ExploreChoice::Question(2));
    assert_eq!(explore_menu_choice("+3", 3), ExploreChoice::Question(3));
    assert_eq!(explore_menu_choice("003", 3), ExploreChoice::Question(3));
    assert_eq!(explore_menu_choice("4", 3), ExploreChoice::InvalidChoice);
    assert_eq!(explore_menu_choice("0", 3), ExploreChoice::InvalidChoice);
    assert_eq!(explore_menu_choice("x", 3), ExploreChoice::InvalidInput);
    assert_eq!(explore_menu_choice("99999999999999999999999", 3), ExploreChoice::InvalidInput);
    assert_eq!(explore_menu_choice("", 3), ExploreChoice::InvalidInput);
}

#[test]
fn failed_requests_are_described() {
    assert_eq!(format_request_type(&RequestType::InitialQuestions), "Generate Initial Questions");
    let id: u128 = 0xa1a2a3a4b1b2c1c2d1d2d3d4d5d6d7d8;
    assert_eq!(
        format_request_type(&RequestType::ExploreQuestion { question_id: id }),
        "Explore Question a1a2a3a4-b1b2-c1c2-d1d2-d3d4d5d6d7d8"
    );
    assert_eq!(
        format_request_type(&RequestType::DeepenAnswer { answer_id: 1 }),
        "Deepen Answer 00000000-0000-0000-0000-000000000001"
    );
    assert_eq!(
        format_request_type(&RequestType::GenerateFollowUps { answer_id: u128::MAX }),
        "Generate Follow-ups for ffffffff-ffff-ffff-ffff-ffffffffffff"
    );
    assert_eq!(
        format_request_type(&RequestType::CustomQuestion { question_text: "Why?".to_string() }),
        "Custom Question: Why?"
    );
}

use control_flow::qa::{answer_drafts, deepen_answer, finish_with_questions, with_fresh_ids, AnswerMethod, AnswerValidation};

fn draft(text: &str) -> QuestionDraft {
    custom_question(text)
}

#[test]
fn new_questions_are_merged_and_the_request_closed() {
    let mut pending: Vec<PendingRequest> = Vec::new();
    let a = add_pending_request(&mut pending, RequestType::InitialQuestions, "ctx".to_string(), None, "boom".to_string());
    let mut questions: Vec<(u128, QuestionDraft)> = vec![(1, draft("old one")), (2, draft("old two"))];
    let incoming = with_fresh_ids(vec![draft("first"), draft("second")]);
    assert_eq!(incoming.len(), 2);
    assert_eq!(incoming[0].1.question, "first");
    assert_eq!(incoming[1].1.question, "second");
    let r = finish_with_questions(&mut questions, &mut pending, a, vec![(2, draft("replaced")), (3, draft("third"))]);
    assert!(matches!(r, RetryResult::Success));
    assert!(pending.is_empty());
    let texts: Vec<&str> = questions.iter().map(|(_, q)| q.question.as_str()).collect();
    assert_eq!(texts, vec!["old one", "old two", "replaced", "third"]);
    // the later entry under identifier 2 is the one that counts
    let latest = questions.iter().rev().find(|(id, _)| *id == 2).unwrap();
    assert_eq!(latest.1.question, "replaced");
}

#[test]
fn explored_answers_start_tentative_and_deepen_to_discussed() {
    let choices = vec![
        Choice { description: "Use a relational store".to_string(), target_node_id: None },
        Choice { description: "Keep it in files".to_string(), target_node_id: None },
    ];
    let mut answers = answer_drafts(9, &choices);
    assert_eq!(answers.len(), 2);
    assert_eq!(answers[1].answer, "Keep it in files");
    assert_eq!(answers[0].question_id, 9);
    assert_eq!(answers[0].validation_status, AnswerValidation::Tentative);
    assert_eq!(answers[0].answer_method, AnswerMethod::Collaborative);
    assert!(answers[0].exploration_notes.is_empty() && !answers[0].expert_review_needed);
    deepen_answer(&mut answers[0], "Tables for users and orders".to_string());
    assert_eq!(answers[0].exploration_notes, vec!["Tables for users and orders".to_string()]);
    assert_eq!(answers[0].validation_status, AnswerValidation::Discussed);
    assert_eq!(answers[0].answer, "Use a relational store");
}

fn request(id: u128, retry_count: u32, context: &str) -> PendingRequest {
    PendingRequest {
        id,
        request_type: RequestType::InitialQuestions,
        context: context.to_string(),
        user_input: None,
        error_message: "boom".to_string(),
        retry_count,
        created_at: "t".to_string(),
        last_attempt: "t".to_string(),
    }
}

#[test]
fn retryable_requests_are_the_filed_ones_each_once() {
    let pending = vec![request(1, 0, "hidden"), request(2, 3, "spent"), request(1, 1, "filed"), request(3, 2, "third")];
    let r = get_retryable_requests(&pending);
    let seen: Vec<(u128, &str)> = r.iter().map(|p| (p.id, p.context.as_str())).collect();
    assert_eq!(seen, vec![(1, "filed"), (3, "third")]);
}
