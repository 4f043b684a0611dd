use control_flow::adventure::{player_action, record_decision, PlayerAction};
use control_flow::mock::MockStoryEngine;
use control_flow::story::Choice;
use control_flow::types::{NodeState, ProjectConstraints};

#[test]
fn following_a_linked_choice_moves_there() {
    let engine = MockStoryEngine::new();
    let mut story = engine.generate_initial_story("cave", ProjectConstraints::default()).unwrap();
    let first = story.nodes[0].clone();
    let choice = first.choices[1].clone();
    assert!(story.follow_choice(&choice));
    assert_eq!(story.current_node_id, Some(story.nodes[2].id));
    assert_eq!(story.nodes[2].state, NodeState::Current);
    assert!(story.nodes.iter().enumerate().all(|(i, n)| i == 2 || n.state == NodeState::Visited));

    let loose = Choice { description: "Go back to the entrance".to_string(), target_node_id: None };
    let before = story.current_node_id;
    assert!(!story.follow_choice(&loose));
    assert_eq!(story.current_node_id, before);
    let missing = Choice { description: "x".to_string(), target_node_id: Some(42) };
    assert!(!story.follow_choice(&missing));
}

#[test]
fn expanded_nodes_are_attached_and_current() {
    let engine = MockStoryEngine::new();
    let mut story = engine.generate_initial_story("space", ProjectConstraints::default()).unwrap();
    let from = story.nodes[0].id;
    let choice = story.nodes[0].choices[2].clone();
    let node = engine.expand_choice(&choice);
    let new_id = node.id;
    let edges_before = story.edges.len();
    story.attach_expansion(from, node);
    assert_eq!(story.nodes.len(), 4);
    assert_eq!(story.edges.len(), edges_before + 1);
    let e = story.edges.last().unwrap();
    assert_eq!((e.from_node_id, e.to_node_id), (from, new_id));
    assert_eq!(story.current_node_id, Some(new_id));
    assert!(story.has_node(new_id));
    for n in &story.nodes {
        let expected = if n.id == new_id { NodeState::Current } else { NodeState::Visited };
        assert_eq!(n.state, expected);
    }
}

#[test]
fn decisions_are_recorded() {
    let long = "You stand before the entrance of a dark, mysterious cave. Strange sounds echo.";
    assert_eq!(
        record_decision(long, "Enter"),
        "From 'You stand before the entrance of a dark, mysteriou...' → Decided: 'Enter'"
    );
    assert_eq!(record_decision("Short", "Go"), "From 'Short...' → Decided: 'Go'");
}

#[test]
fn player_answers() {
    assert_eq!(player_action(" H\n", 3), PlayerAction::ShowHistory);
    assert_eq!(player_action("History", 3), PlayerAction::ShowHistory);
    assert_eq!(player_action("new", 3), PlayerAction::NewAdventure);
    assert_eq!(player_action("QUIT", 3), PlayerAction::Quit);
    assert_eq!(player_action("2", 3), PlayerAction::MadeChoice(1));
    assert_eq!(player_action("4", 3), PlayerAction::InvalidNumber);
    assert_eq!(player_action("0", 3), PlayerAction::InvalidNumber);
    assert_eq!(player_action("00", 3), PlayerAction::InvalidNumber);
    assert_eq!(player_action("99999999999999999999999999", 3), PlayerAction::InvalidInput);
    assert_eq!(player_action("go", 3), PlayerAction::InvalidInput);
    assert_eq!(player_action("-1", 3), PlayerAction::InvalidInput);
}
