use control_flow::reply::{parse_planning_story_response, parse_openai_story_response};

#[test]
fn structured_replies_are_read() {
    let reply = "Here you go.\nSITUATION: You wake up in a lab.\nThe lights flicker.\n\nCHOICES:\n1. Open the door\n2. Check the console\n3.   Hide  \n4. Not read by the OpenAI reader\n";
    let (situation, choices) = parse_openai_story_response(reply);
    assert_eq!(situation, "You wake up in a lab. The lights flicker.");
    assert_eq!(choices, vec!["Open the door", "Check the console", "Hide"]);
    let (_, choices) = parse_planning_story_response(reply);
    assert_eq!(choices, vec!["Open the door", "Check the console", "Hide", "Not read by the OpenAI reader"]);
}

#[test]
fn marker_case_and_numbering_outside_choices() {
    let reply = "situation: lower case marker\n1. numbered before choices\nChoices:\n2. second";
    let (situation, choices) = parse_openai_story_response(reply);
    assert_eq!(situation, "situation: lower case marker");
    assert_eq!(choices, vec!["second"]);
}

#[test]
fn unstructured_replies_fall_back() {
    let reply = "line one\nline two\r\nline three\nline four";
    let (situation, choices) = parse_openai_story_response(reply);
    assert_eq!(situation, "line one line two\r line three");
    assert_eq!(choices, vec!["Continue the adventure", "Look around carefully", "Try a different approach"]);
    let (situation, choices) = parse_planning_story_response("just one line");
    assert_eq!(situation, "just one line");
    assert_eq!(choices.len(), 4);
    assert_eq!(choices[0], "What if we broke this into smaller, more manageable pieces?");
    let (situation, _) = parse_planning_story_response("");
    assert_eq!(situation, "");
}
