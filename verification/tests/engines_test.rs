use control_flow::engines::{
    adventure_clarification_question, build_choices_prompt, build_coherence_prompt, build_expand_prompt,
    build_initial_story_prompt, build_planning_clarification_prompt, choices_from_response,
    coherence_percent_from_lowered, coherence_report, node_from_response, planning_clarification_question,
    story_from_response, EngineStyle, OptionValue, UncertaintyContext,
};
use control_flow::engines::{
    adventure_engine_config, engine_in_use, engine_menu_choice,
    planning_engine_config, wanted_engine, EngineKind, EngineMenuChoice,
};
use control_flow::mock::MockStoryEngine;
use control_flow::story::{Choice, StoryGraph, StoryNode};
use control_flow::types::{ExperienceLevel, NodeState, NodeType, ProjectConstraints, QuestionType};

fn constraints() -> ProjectConstraints {
    ProjectConstraints {
        timeline: Some("3 months".to_string()),
        team_size: Some(4),
        experience_level: ExperienceLevel::Advanced,
        budget: None,
        technical_constraints: vec!["Rust".to_string(), "Postgres".to_string()],
        business_constraints: vec![],
    }
}

fn node(situation: &str) -> StoryNode {
    StoryNode {
        id: 7,
        node_type: NodeType::Decision,
        situation: situation.to_string(),
        choices: vec![],
        state: NodeState::Current,
    }
}

#[test]
fn adventure_opening_prompt_names_prompt_and_level() {
    let p = build_initial_story_prompt(EngineStyle::Adventure, "a haunted lighthouse", &constraints());
    let expected = format!(
        "Create the beginning of an interactive adventure story based on: '{}'
            
            Experience level: {:?}
            
            Please format your response as:
            SITUATION: [A compelling opening situation in 2-3 sentences]
            CHOICES:
            1. [First choice]
            2. [Second choice] 
            3. [Third choice]",
        "a haunted lighthouse", ExperienceLevel::Advanced
    );
    assert_eq!(p, expected);
}

#[test]
fn planning_opening_prompt_lists_the_constraints() {
    let p = build_initial_story_prompt(EngineStyle::Planning, "a ticket tracker", &constraints());
    let expected = format!(
        "Let's start planning together for: '{}'
            
            Here's what I know about the project:
            - Timeline: {}
            - Team Size: {}
            - Experience Level: {:?}
            - Budget: {}
            - Technical Constraints: {}
            - Business Constraints: {}
            
            I'd like to have a collaborative conversation about how we should approach this. Think about what questions we need to answer and what areas we should investigate first.
            
            Please format your response as:
            SITUATION: [A conversational assessment of where we are with this project and what we need to figure out - speak directly to me as a collaborator]
            CHOICES:
            1. [What if we started by investigating...]
            2. [Should we first look into...]
            3. [It might be worth exploring...]
            4. [We could begin by analyzing...]",
        "a ticket tracker", "3 months", 4, ExperienceLevel::Advanced, "Not specified", "Rust, Postgres", ""
    );
    assert_eq!(p, expected);
    let bare = build_initial_story_prompt(EngineStyle::Planning, "x", &ProjectConstraints::default());
    assert!(bare.contains("- Timeline: Not specified\n"));
    assert!(bare.contains("- Team Size: 0\n"));
    assert!(bare.contains("- Experience Level: Intermediate\n"));
}

#[test]
fn choice_and_expand_prompts_count_earlier_choices() {
    let c = build_choices_prompt(EngineStyle::Adventure, "A dark hall", 12);
    assert!(c.starts_with("Given this situation: 'A dark hall'\n            \n            Previous choices made: 12\n"));
    let c = build_choices_prompt(EngineStyle::Planning, "Scoping", 0);
    assert!(c.starts_with("We're continuing our planning conversation. Here's where we are: 'Scoping'\n            \n            We've made 0 planning decisions so far."));
    assert!(c.ends_with("4. [We could also consider...]"));
    let e = build_expand_prompt(EngineStyle::Adventure, "Open the door", 3);
    assert!(e.starts_with("The player chose: 'Open the door'\n            \n            Previous story context: 3 previous choices made\n"));
    let e = build_expand_prompt(EngineStyle::Planning, "Use Rust", 5);
    assert!(e.starts_with("Great choice! You decided: 'Use Rust'\n            \n            Now that we've made this decision (and 5 others before it)"));
}

#[test]
fn coherence_prompts_name_the_story_and_the_situation() {
    let g = MockStoryEngine::new().generate_initial_story("cave", ProjectConstraints::default()).unwrap();
    let a = build_coherence_prompt(EngineStyle::Adventure, &node("A river"), &g);
    assert_eq!(
        a,
        format!(
            "Evaluate the coherence of this story continuation:\n            \n            Story title: {}\n            New situation: 'A river'\n            \n            Does this fit well with the existing story? Rate coherence from 0.0 to 1.0 and explain.",
            g.title
        )
    );
    let p = build_coherence_prompt(EngineStyle::Planning, &node("Hiring"), &g);
    assert!(p.contains(&format!("Project: {}\n            We've explored {} different planning areas so far\n            New topic: 'Hiring'", g.title, g.nodes.len())));
}

#[test]
fn an_opened_story_has_one_current_start_node() {
    let reply = "SITUATION: You stand at a gate.\nCHOICES:\n1. Knock\n2. Climb the wall\n3. Leave";
    let g: StoryGraph = story_from_response(EngineStyle::Adventure, "a castle", reply);
    assert_eq!(g.title, "Adventure: a castle");
    assert_eq!(g.description.as_deref(), Some("An AI-generated interactive adventure"));
    assert_eq!(g.nodes.len(), 1);
    assert!(g.edges.is_empty());
    let root = g.nodes[0].id;
    assert_eq!(g.root_node_id, Some(root));
    assert_eq!(g.current_node_id, Some(root));
    assert_eq!(g.nodes[0].node_type, NodeType::Start);
    assert_eq!(g.nodes[0].state, NodeState::Current);
    assert_eq!(g.nodes[0].situation, "You stand at a gate.");
    let descs: Vec<&str> = g.nodes[0].choices.iter().map(|c| c.description.as_str()).collect();
    assert_eq!(descs, vec!["Knock", "Climb the wall", "Leave"]);
    assert!(g.nodes[0].choices.iter().all(|c| c.target_node_id.is_none()));

    let p = story_from_response(EngineStyle::Planning, "a shop", "Let us think.\nMore thoughts.");
    assert_eq!(p.title, "Planning Session: a shop");
    assert_eq!(p.description.as_deref(), Some("Collaborative planning conversation"));
    assert_eq!(p.nodes[0].situation, "Let us think. More thoughts.");
    assert_eq!(p.nodes[0].choices.len(), 4);
    assert_eq!(p.nodes[0].choices[0].description, "What if we broke this into smaller, more manageable pieces?");
}

#[test]
fn replies_give_choices_and_decision_nodes() {
    let reply = "CHOICES:\n1. A\n2. B\n3. C\n4. D";
    let a = choices_from_response(EngineStyle::Adventure, reply);
    assert_eq!(a.iter().map(|c| c.description.as_str()).collect::<Vec<_>>(), vec!["A", "B", "C"]);
    let p = choices_from_response(EngineStyle::Planning, reply);
    assert_eq!(p.iter().map(|c| c.description.as_str()).collect::<Vec<_>>(), vec!["A", "B", "C", "D"]);
    let n = node_from_response(EngineStyle::Adventure, "SITUATION: Rain falls.\nCHOICES:\n1. Shelter");
    assert_eq!(n.node_type, NodeType::Decision);
    assert_eq!(n.state, NodeState::Current);
    assert_eq!(n.situation, "Rain falls.");
    assert_eq!(n.choices.len(), 1);
    assert_eq!(n.choices[0].description, "Shelter");
}

#[test]
fn coherence_is_read_from_the_reply() {
    assert_eq!(coherence_percent_from_lowered(EngineStyle::Adventure, "this is good"), 80);
    assert_eq!(coherence_percent_from_lowered(EngineStyle::Adventure, "quite poor"), 30);
    assert_eq!(coherence_percent_from_lowered(EngineStyle::Adventure, "hmm"), 60);
    assert_eq!(coherence_percent_from_lowered(EngineStyle::Planning, "that makes sense"), 85);
    assert_eq!(coherence_percent_from_lowered(EngineStyle::Planning, "unrealistic plan"), 30);
    assert_eq!(coherence_percent_from_lowered(EngineStyle::Planning, "good"), 60);
    let r = coherence_report(EngineStyle::Adventure, "Quite INCONSISTENT with before".to_string());
    assert!(!r.is_coherent);
    assert_eq!(r.confidence_percent, 30);
    assert!(r.issues.is_empty());
    assert_eq!(r.suggestions, vec!["Quite INCONSISTENT with before".to_string()]);
    let r = coherence_report(EngineStyle::Planning, "Logical next step".to_string());
    assert!(r.is_coherent);
    assert_eq!(r.confidence_percent, 85);
    let mock = MockStoryEngine::new().validate_coherence(&node("x"), &StoryGraph {
        title: String::new(),
        description: None,
        nodes: vec![],
        edges: vec![],
        root_node_id: None,
        current_node_id: None,
    });
    assert!(mock.is_coherent);
    assert_eq!(mock.confidence_percent, 90);
    assert_eq!(mock.suggestions, vec!["Story flow looks good!".to_string()]);
}

fn uncertainty() -> UncertaintyContext {
    UncertaintyContext {
        missing_context: vec!["budget".to_string(), "deadline".to_string()],
        conflicting_choices: vec![
            Choice { description: "Go north".to_string(), target_node_id: None },
            Choice { description: "Go south".to_string(), target_node_id: Some(3) },
        ],
        ambiguous_requirements: vec!["fast".to_string()],
    }
}

#[test]
fn clarification_questions_ask_about_what_is_missing() {
    let u = uncertainty();
    let q = adventure_clarification_question(&u);
    assert_eq!(q.question_type, QuestionType::MultipleChoice);
    assert_eq!(q.prompt, "I need clarification about: budget, deadline");
    let opts = q.options.as_ref().unwrap();
    assert_eq!(opts.len(), 2);
    assert_eq!(opts[0].id, "continue");
    assert_eq!(opts[1].label, "Provide more details");
    assert!(matches!(&opts[0].value, OptionValue::Text(t) if t == "continue"));
    assert_eq!(q.context.uncertainty_areas, u.missing_context);
    assert!(q.context.missing_context.is_empty());
    assert_eq!(q.context.priority_level, 1);
    assert!(!q.validation_rules.required);

    let m = MockStoryEngine::new().ask_clarification_question(&u);
    assert_eq!(m.prompt, "I need clarification about: budget, deadline");
    let mo = m.options.as_ref().unwrap();
    assert!(matches!(mo[0].value, OptionValue::Flag(true)));
    assert!(matches!(mo[1].value, OptionValue::Flag(false)));
    assert_eq!(mo[1].description.as_deref(), Some("Take a different approach"));

    let prompt = build_planning_clarification_prompt(&u);
    assert!(prompt.contains("I'm missing context on: budget, deadline\n"));
    assert!(prompt.contains("I see some conflicting ideas around: Go north, Go south\n"));
    assert!(prompt.contains("These requirements seem ambiguous: fast\n"));
    let p = planning_clarification_question(&u, "Which matters more?".to_string());
    assert_eq!(p.prompt, "Which matters more?");
    let po = p.options.as_ref().unwrap();
    assert_eq!(po.iter().map(|o| o.id.as_str()).collect::<Vec<_>>(), vec!["detailed", "simple", "research"]);
    assert_ne!(p.id, q.id);
}

#[test]
fn engines_are_picked_by_menu_and_setting() {
    assert_eq!(engine_menu_choice(" 2\n"), EngineMenuChoice::Adventure);
    assert_eq!(engine_menu_choice("3"), EngineMenuChoice::Planning);
    assert_eq!(engine_menu_choice("4"), EngineMenuChoice::FromSetting);
    assert_eq!(engine_menu_choice("1"), EngineMenuChoice::Mock);
    assert_eq!(engine_menu_choice("seven"), EngineMenuChoice::Mock);
    assert_eq!(wanted_engine(EngineMenuChoice::FromSetting, EngineKind::Planning), EngineKind::Planning);
    assert_eq!(wanted_engine(EngineMenuChoice::Adventure, EngineKind::Planning), EngineKind::Adventure);
    assert_eq!(wanted_engine(EngineMenuChoice::Mock, EngineKind::Adventure), EngineKind::Mock);
    assert_eq!(engine_in_use(EngineKind::Planning, false), EngineKind::Mock);
    assert_eq!(engine_in_use(EngineKind::Planning, true), EngineKind::Planning);
}

#[test]
fn engine_settings_need_a_key() {
    assert_eq!(adventure_engine_config(None).unwrap_err(), "OPENAI_API_KEY environment variable not set");
    let a = adventure_engine_config(Some("k1".to_string())).unwrap();
    assert_eq!((a.api_key.as_str(), a.model.as_str()), ("k1", "gpt-3.5-turbo"));
    assert_eq!(
        planning_engine_config(None, "m".to_string(), None).unwrap_err(),
        "ANTHROPIC_API_KEY environment variable not set"
    );
    let p = planning_engine_config(Some("k2".to_string()), "m".to_string(), None).unwrap();
    assert_eq!((p.api_key.as_str(), p.model.as_str(), p.max_tokens), ("k2", "m", 2048));
    let p = planning_engine_config(Some("k2".to_string()), "m".to_string(), Some("512".to_string())).unwrap();
    assert_eq!(p.max_tokens, 512);
    let p = planning_engine_config(Some("k2".to_string()), "m".to_string(), Some("lots".to_string())).unwrap();
    assert_eq!(p.max_tokens, 2048);
}
