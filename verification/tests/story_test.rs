use control_flow::mock::{MockStoryEngine, NodeTemplate, PredefinedStory, StoryTemplate};
use control_flow::story::{Choice, StoryEdge, StoryGraph, StoryGraphUtils, StoryNode};
use control_flow::types::{ExperienceLevel, NodeState, NodeType, ProjectConstraints};

fn beginner_constraints() -> ProjectConstraints {
    ProjectConstraints {
        timeline: None,
        team_size: None,
        experience_level: ExperienceLevel::Beginner,
        budget: None,
        technical_constraints: vec![],
        business_constraints: vec![],
    }
}

#[test]
fn test_mock_engine_basic_story() {
    let engine = MockStoryEngine::new();
    let result = engine.generate_initial_story("cave adventure", beginner_constraints());
    assert!(result.is_ok());

    let story = result.unwrap();
    assert!(!story.title.is_empty());
    assert!(story.root_node_id.is_some());
    assert!(!story.nodes.is_empty());
}

#[test]
fn test_choice_expansion() {
    let engine = MockStoryEngine::new();
    let choice = Choice { description: "Enter the cave".to_string(), target_node_id: None };

    let new_node = engine.expand_choice(&choice);
    assert!(!new_node.situation.is_empty());
    assert!(!new_node.choices.is_empty());
}

#[test]
fn default_stories_are_filed_under_their_keywords() {
    let engine = MockStoryEngine::new();
    assert_eq!(engine.predefined_stories.len(), 2);
    let cave = engine.find_story("cave").unwrap();
    assert_eq!(cave.title, "The Mysterious Cave");
    assert_eq!(cave.story_template.nodes.len(), 7);
    assert_eq!(cave.story_template.connections.len(), 6);
    assert_eq!(cave.starting_situation, cave.story_template.nodes[0].situation);
    let space = engine.find_story("space").unwrap();
    assert_eq!(space.title, "Emergency on Station Alpha");
    assert_eq!(space.story_template.nodes.len(), 3);
    assert!(engine.find_story("jungle").is_none());
}

#[test]
fn story_keys_follow_prompt_keywords() {
    assert_eq!(MockStoryEngine::story_key("Explore a CAVE"), "cave");
    assert_eq!(MockStoryEngine::story_key("An Adventure"), "cave");
    assert_eq!(MockStoryEngine::story_key("Save the Space Station"), "space");
    assert_eq!(MockStoryEngine::story_key("orbital STATION"), "space");
    assert_eq!(MockStoryEngine::story_key("a quiet afternoon"), "cave");
    assert_eq!(MockStoryEngine::story_key_from_lowered("space"), "space");
}

#[test]
fn space_prompt_unfolds_the_station_story() {
    let engine = MockStoryEngine::new();
    let story = engine.generate_initial_story("space station", ProjectConstraints::default()).unwrap();
    assert_eq!(story.title, "Emergency on Station Alpha");
    assert_eq!(story.description.as_deref(), Some("A sci-fi adventure aboard a space station in crisis"));
    assert_eq!(story.nodes.len(), 3);
    assert_eq!(story.edges.len(), 2);
    assert_eq!(story.root_node_id, Some(story.nodes[0].id));
    assert_eq!(story.current_node_id, story.root_node_id);
    assert_eq!(story.nodes[0].state, NodeState::Current);
    assert_eq!(story.nodes[1].state, NodeState::Unvisited);
    assert_eq!(story.nodes[0].choices[0].target_node_id, Some(story.nodes[1].id));
    assert_eq!(story.nodes[0].choices[1].target_node_id, Some(story.nodes[2].id));
    assert_eq!(story.nodes[0].choices[2].target_node_id, None);
}

#[test]
fn missing_template_is_reported_with_the_prompt() {
    let engine = MockStoryEngine { predefined_stories: vec![] };
    let err = engine.generate_initial_story("deep space", ProjectConstraints::default()).unwrap_err();
    assert_eq!(err, "No story template found for prompt: deep space");
}

#[test]
fn template_unfolds_with_given_identifiers() {
    let engine = MockStoryEngine::new();
    let cave = engine.find_story("cave").unwrap();
    let ids: Vec<u128> = vec![10, 11, 12, 13, 14, 15, 16];
    let g = engine.create_story_from_template(cave, &ids);
    assert_eq!(g.root_node_id, Some(10));
    let pairs: Vec<(u128, u128)> = g.edges.iter().map(|e| (e.from_node_id, e.to_node_id)).collect();
    assert_eq!(pairs, vec![(10, 11), (10, 12), (10, 13), (11, 14), (11, 15), (12, 16)]);
    assert_eq!(g.nodes[2].node_type, NodeType::Action);
    assert_eq!(g.nodes[2].choices[0].target_node_id, Some(16));
    assert_eq!(g.nodes[2].choices[1].target_node_id, None);
    assert_eq!(g.nodes[6].node_type, NodeType::End);
    assert_eq!(StoryGraphUtils::get_leaf_nodes(&g), vec![13, 14, 15, 16]);
    assert_eq!(StoryGraphUtils::find_path_to_node(&g, 16), Some(vec![10, 12, 16]));
    assert_eq!(StoryGraphUtils::calculate_node_depth(&g, 15), Some(2));
}

#[test]
fn expansion_text_names_the_choice() {
    assert_eq!(
        MockStoryEngine::expansion_for("open the door", 2),
        "After choosing to 'open the door', Something unexpected happens, changing everything."
    );
    let engine = MockStoryEngine::new();
    let node = engine.expand_choice(&Choice { description: "jump".to_string(), target_node_id: None });
    assert!(node.situation.starts_with("After choosing to 'jump', "));
    assert_eq!(node.node_type, NodeType::Decision);
    let texts: Vec<&str> = node.choices.iter().map(|c| c.description.as_str()).collect();
    assert_eq!(texts, vec!["Continue forward", "Look around carefully", "Go back"]);
}

fn node(id: u128) -> StoryNode {
    StoryNode {
        id,
        node_type: NodeType::Decision,
        situation: String::new(),
        choices: vec![],
        state: NodeState::Unvisited,
    }
}

fn edge(a: u128, b: u128) -> StoryEdge {
    StoryEdge { from_node_id: a, to_node_id: b }
}

fn diamond() -> StoryGraph {
    StoryGraph {
        title: "diamond".to_string(),
        description: None,
        nodes: vec![node(1), node(2), node(3), node(4), node(5)],
        edges: vec![edge(1, 2), edge(1, 3), edge(2, 4), edge(3, 4)],
        root_node_id: Some(1),
        current_node_id: Some(1),
    }
}

#[test]
fn graph_queries_on_a_diamond() {
    let g = diamond();
    assert_eq!(StoryGraphUtils::get_node_children(&g, 1), vec![2, 3]);
    assert_eq!(StoryGraphUtils::get_node_parents(&g, 4), vec![2, 3]);
    assert_eq!(StoryGraphUtils::get_node_children(&g, 4), Vec::<u128>::new());
    assert_eq!(StoryGraphUtils::get_leaf_nodes(&g), vec![4, 5]);
    assert_eq!(StoryGraphUtils::find_path_to_node(&g, 4), Some(vec![1, 2, 4]));
    assert_eq!(StoryGraphUtils::find_path_to_node(&g, 1), Some(vec![1]));
    assert_eq!(StoryGraphUtils::find_path_to_node(&g, 5), None);
    assert_eq!(StoryGraphUtils::calculate_node_depth(&g, 4), Some(2));
    assert_eq!(StoryGraphUtils::calculate_node_depth(&g, 1), Some(0));
    assert_eq!(StoryGraphUtils::calculate_node_depth(&g, 5), None);
}

#[test]
fn rootless_graph_has_no_paths() {
    let mut g = diamond();
    g.root_node_id = None;
    assert_eq!(StoryGraphUtils::find_path_to_node(&g, 1), None);
    assert_eq!(StoryGraphUtils::calculate_node_depth(&g, 1), None);
}

#[test]
fn generated_choices_are_the_node_choices() {
    let engine = MockStoryEngine::new();
    let story = engine.generate_initial_story("cave", ProjectConstraints::default()).unwrap();
    let choices = engine.generate_choices(&story.nodes[0]);
    assert_eq!(choices.len(), 3);
    assert_eq!(choices[0].description, "Enter the cave boldly");
    assert_eq!(choices[0].target_node_id, Some(story.nodes[1].id));
}

#[test]
fn a_default_story_is_empty() {
    let g = StoryGraph::default();
    assert!(g.title.is_empty() && g.description.is_none());
    assert!(g.nodes.is_empty() && g.edges.is_empty());
    assert!(g.root_node_id.is_none() && g.current_node_id.is_none());
}

#[test]
fn stories_unfold_from_given_identifiers() {
    let engine = control_flow::mock::MockStoryEngine::new();
    let cave = engine.find_story("cave").unwrap();
    let g = engine.story_from_ids(cave, &vec![11, 12, 13, 14, 15, 16, 17]).unwrap();
    assert_eq!(g.title, "The Mysterious Cave");
    assert_eq!(g.nodes.len(), 7);
    assert_eq!(g.root_node_id, Some(11));
    assert_eq!(g.current_node_id, Some(11));
    assert_eq!(g.nodes[1].choices[2].description, "Go back to the entrance");
    assert_eq!(
        engine.story_from_ids(cave, &vec![1, 2, 3, 4, 5, 6, 1]).unwrap_err(),
        "Generated node identifiers collided"
    );
    let space = engine.find_story("space").unwrap();
    assert_eq!(space.story_template.connections[0].2, "Head to the control room");
    assert_eq!(space.story_template.connections[1].2, "Check the life support systems");
}

#[test]
fn a_filed_story_of_one_node_always_unfolds() {
    let story = PredefinedStory {
        title: "Tiny".to_string(),
        description: "One room".to_string(),
        starting_situation: "A room".to_string(),
        story_template: StoryTemplate {
            nodes: vec![NodeTemplate { situation: "A room".to_string(), node_type: NodeType::Decision, choices: vec![] }],
            connections: vec![],
        },
    };
    let engine = MockStoryEngine { predefined_stories: vec![("space".to_string(), story)] };
    let g = engine.generate_initial_story("space station", ProjectConstraints::default()).unwrap();
    assert_eq!(g.title, "Tiny");
    assert_eq!(g.nodes.len(), 1);
    assert_eq!(g.root_node_id, g.current_node_id);
    assert_eq!(
        engine.generate_initial_story("a cave", ProjectConstraints::default()).unwrap_err(),
        "No story template found for prompt: a cave"
    );
}
