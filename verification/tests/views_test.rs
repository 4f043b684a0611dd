use control_flow::adventure::{milestone_starts_over, turn_of, Turn};
use control_flow::planner::{
    list_pick, navigation_pick, node_action, parse_usize, planner_menu_choice, storytelling_constraints, ListPick,
    NavigationPick, NodeAction, PlannerMenuChoice,
};
use control_flow::qa::{
    pending_menu_choice, session_menu_choice, tally_retries, PendingMenuChoice, RetryResult, SessionMenuChoice,
};
use control_flow::saves::{name_for_save, safe_title_of, saved_file_name};
use control_flow::story::{Choice, StoryEdge, StoryGraph, StoryNode};
use control_flow::tree_view::{
    build_navigation_line, connection_counts, navigation_order, node_status, shorten, tree_lines, visit_counts, NodeStatus,
};
use control_flow::types::{ExperienceLevel, NodeState, NodeType};

fn node(id: u128, situation: &str, choices: usize) -> StoryNode {
    StoryNode {
        id,
        node_type: NodeType::Decision,
        situation: situation.to_string(),
        choices: (0..choices).map(|i| Choice { description: format!("c{}", i), target_node_id: None }).collect(),
        state: NodeState::Unvisited,
    }
}

fn graph() -> StoryGraph {
    StoryGraph {
        title: "T".to_string(),
        description: None,
        nodes: vec![node(30, "root", 2), node(10, "left", 0), node(20, "right", 1), node(40, "deep", 0)],
        edges: vec![
            StoryEdge { from_node_id: 30, to_node_id: 10 },
            StoryEdge { from_node_id: 30, to_node_id: 20 },
            StoryEdge { from_node_id: 20, to_node_id: 40 },
            StoryEdge { from_node_id: 40, to_node_id: 30 },
        ],
        root_node_id: Some(30),
        current_node_id: Some(20),
    }
}

#[test]
fn saved_names_come_from_the_title_or_the_answer() {
    assert_eq!(safe_title_of("Adventure: A Cave!"), "adventure_a_cave");
    assert_eq!(saved_file_name("", "My Plan", "", "20240101_120000"), "my_plan-20240101_120000.json");
    assert_eq!(saved_file_name("qa_", "My Plan", "  \n", "S"), "qa_my_plan-S.json");
    assert_eq!(saved_file_name("", "ignored", " notes ", "S"), "notes.json");
    assert_eq!(saved_file_name("", "ignored", "notes.json\n", "S"), "notes.json");
    let long = "x".repeat(60);
    assert_eq!(safe_title_of(&long), "x".repeat(50));
    assert_eq!(safe_title_of("é".repeat(30).as_str()), "é".repeat(30));
    assert_eq!(safe_title_of("É".repeat(30).as_str()), "é".repeat(30));
    let auto = name_for_save("qa_", "Big Idea", "");
    assert!(auto.starts_with("qa_big_idea-") && auto.ends_with(".json"));
    assert_eq!(auto.len(), "qa_big_idea-".len() + 15 + ".json".len());
}

#[test]
fn the_navigation_list_is_in_identifier_order() {
    let g = graph();
    assert_eq!(navigation_order(&g), vec![10, 20, 30, 40]);
    let visited = vec![10u128];
    assert_eq!(node_status(20, g.current_node_id, g.root_node_id, &visited), NodeStatus::Current);
    assert_eq!(node_status(30, g.current_node_id, g.root_node_id, &visited), NodeStatus::Root);
    assert_eq!(node_status(10, g.current_node_id, g.root_node_id, &visited), NodeStatus::Visited);
    assert_eq!(node_status(40, g.current_node_id, g.root_node_id, &visited), NodeStatus::Unvisited);
    let id: u128 = 0xa1a2a3a4b1b2c1c2d1d2d3d4d5d6d7d8;
    assert_eq!(build_navigation_line(3, NodeStatus::Root, id, "short"), "3. 🌱 ROOT | a1a2a3a4 | short");
    let long = "y".repeat(51);
    assert_eq!(
        build_navigation_line(1, NodeStatus::Unvisited, 5, &long),
        format!("1. ⭕ UNVISITED | 00000000 | {}...", "y".repeat(50))
    );
    assert_eq!(shorten("ab", 2), "ab");
    assert_eq!(shorten("éé", 2), "éé...");
}

#[test]
fn the_tree_is_drawn_down_to_its_depth_limit() {
    let g = graph();
    let lines = tree_lines(&g, g.current_node_id, &vec![10], 30, 2);
    assert_eq!(lines, vec!["⭕ root", "  ✅ left", "  👉 right", "    ⭕ deep"]);
    let shallow = tree_lines(&g, None, &vec![], 30, 0);
    assert_eq!(shallow, vec!["⭕ root"]);
    let deeper = tree_lines(&g, None, &vec![], 20, 3);
    assert_eq!(deeper, vec!["⭕ right", "  ⭕ deep", "    ⭕ root", "      ⭕ left", "      ⭕ right"]);
    assert!(tree_lines(&g, None, &vec![], 99, 2).is_empty());
    assert_eq!(visit_counts(&g, &vec![10, 20, 77]), (2, 2));
    assert_eq!(connection_counts(&g, 30), (1, 2));
    assert_eq!(connection_counts(&g, 10), (1, 0));
    assert_eq!(connection_counts(&g, 99), (0, 0));
}

#[test]
fn planner_menus_read_the_answers() {
    assert_eq!(planner_menu_choice(" 4 \n"), PlannerMenuChoice::NavigateTree);
    assert_eq!(planner_menu_choice("8"), PlannerMenuChoice::Quit);
    assert_eq!(planner_menu_choice("9"), PlannerMenuChoice::Invalid);
    assert_eq!(list_pick("2\n", 3), ListPick::Entry(1));
    assert_eq!(list_pick("+3", 3), ListPick::Entry(2));
    assert_eq!(list_pick("0", 3), ListPick::OutOfRange);
    assert_eq!(list_pick("4", 3), ListPick::OutOfRange);
    assert_eq!(list_pick("two", 3), ListPick::NotANumber);
    assert_eq!(list_pick("99999999999999999999999", 3), ListPick::NotANumber);
    assert_eq!(node_action("c", 2), NodeAction::OwnDirection);
    assert_eq!(node_action(" r ", 2), NodeAction::NewOptions);
    assert_eq!(node_action("h", 2), NodeAction::History);
    assert_eq!(node_action("b", 2), NodeAction::Back);
    assert_eq!(node_action("2", 2), NodeAction::Listed(ListPick::Entry(1)));
    assert_eq!(node_action("x", 2), NodeAction::Listed(ListPick::NotANumber));
    assert_eq!(navigation_pick("back\n", 4), NavigationPick::Back);
    assert_eq!(navigation_pick("5", 4), NavigationPick::Listed(ListPick::OutOfRange));
    assert_eq!(parse_usize("42"), Some(42));
    assert_eq!(parse_usize("-1"), None);
    assert_eq!(parse_usize(""), None);
    let c = storytelling_constraints(ExperienceLevel::Expert);
    assert_eq!(c.timeline.as_deref(), Some("Open-ended"));
    assert_eq!(c.team_size, Some(1));
    assert_eq!(c.experience_level, ExperienceLevel::Expert);
    assert!(c.budget.is_none() && c.technical_constraints.is_empty() && c.business_constraints.is_empty());
}

#[test]
fn session_menus_and_retry_rounds() {
    assert_eq!(session_menu_choice("7"), SessionMenuChoice::PendingRequests);
    assert_eq!(session_menu_choice(" 1"), SessionMenuChoice::NewSession);
    assert_eq!(session_menu_choice("quit"), SessionMenuChoice::Invalid);
    assert_eq!(pending_menu_choice("2"), PendingMenuChoice::RetryOne);
    assert_eq!(pending_menu_choice("4"), PendingMenuChoice::Back);
    let t = tally_retries(&vec![
        Some(RetryResult::Success),
        Some(RetryResult::StillFailing("x".to_string())),
        None,
        Some(RetryResult::PermanentFailure("y".to_string())),
        Some(RetryResult::Success),
    ]);
    assert_eq!((t.succeeded, t.still_failing, t.permanent), (2, 1, 2));
}

#[test]
fn the_game_turn_follows_the_current_node() {
    let mut g = graph();
    assert_eq!(turn_of(&g), Turn::Choose(2));
    g.current_node_id = Some(10);
    assert_eq!(turn_of(&g), Turn::Milestone(1));
    g.current_node_id = Some(5);
    assert_eq!(turn_of(&g), Turn::NodeMissing);
    g.current_node_id = None;
    assert_eq!(turn_of(&g), Turn::Finished);
    assert!(milestone_starts_over(" 1\n"));
    assert!(!milestone_starts_over("2"));
}
