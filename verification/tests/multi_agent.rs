use crablet::agents::MessageType;
use crablet::team::{
    assignment_data, assignments_from_reply, decompose_prompt, final_output, find_agent, find_coordinator,
    integrated_result, integration_prompt, review_from_reply, review_prompt, specialist_ids, specialist_prompt,
    specialist_result, task_message, team_step, work_for, AgentMessage, AgentWork, Delivery, MessageContent, TeamAction,
    TeamEvent, TeamFailure, TeamState,
};
use crablet::agents::{current_timestamp, extract_json, AgentRole};

#[test]
fn test_agent_role_display() {
    assert_eq!(AgentRole::Coordinator.to_string(), "Coordinator");
    assert_eq!(AgentRole::Specialist.to_string(), "Specialist");
    assert_eq!(AgentRole::Critic.to_string(), "Critic");
    assert_eq!(AgentRole::Integrator.to_string(), "Integrator");
    assert_eq!(AgentRole::Monitor.to_string(), "Monitor");
}

#[test]
fn test_extract_json() {
    let text = "Result: {\"key\": \"value\"}";
    let json = extract_json(text);
    assert_eq!(json, Some("{\"key\": \"value\"}"));
}

#[test]
fn test_current_timestamp() {
    let ts1 = current_timestamp();
    let ts2 = current_timestamp();
    assert!(ts2 >= ts1);
}

#[test]
fn extract_json_prefers_arrays_and_balances_nesting() {
    let text = "x {\"a\": 1} then [{\"b\": [2]}, 3] tail";
    assert_eq!(extract_json(text), Some("[{\"b\": [2]}, 3]"));
    assert_eq!(extract_json("obj {\"a\": {\"b\": 1}} end"), Some("{\"a\": {\"b\": 1}}"));
}

#[test]
fn extract_json_falls_back_to_object_when_array_unbalanced() {
    assert_eq!(extract_json("[1, 2 and {\"k\": 1}"), Some("{\"k\": 1}"));
    // Square and curly brackets are counted together.
    assert_eq!(extract_json("{\"k\": [1} ]"), Some("[1}"));
    assert_eq!(extract_json("no json here"), None);
    assert_eq!(extract_json("unbalanced { ["), None);
}

#[test]
fn extract_json_counts_characters() {
    assert_eq!(extract_json("结果：{\"名\": \"值\"}"), Some("{\"名\": \"值\"}"));
}


#[test]
fn test_message_content_variants() {
    let task = MessageContent::Task {
        task_id: "t1".to_string(),
        description: "Test task".to_string(),
        subtasks: vec![],
        priority: 5,
    };
    match task {
        MessageContent::Task { task_id, .. } => {
            assert_eq!(task_id, "t1");
        }
        _ => panic!("Expected Task variant"),
    }
}

fn team() -> Vec<(String, AgentRole)> {
    vec![
        ("specialist_1".to_string(), AgentRole::Specialist),
        ("coordinator_0".to_string(), AgentRole::Coordinator),
        ("integrator".to_string(), AgentRole::Integrator),
        ("specialist_2".to_string(), AgentRole::Specialist),
    ]
}

fn text_to(receiver: Option<&str>) -> AgentMessage {
    AgentMessage {
        id: "m".to_string(),
        sender: "x".to_string(),
        receiver: receiver.map(|r| r.to_string()),
        msg_type: MessageType::Coordination,
        content: MessageContent::Text("hi".to_string()),
        timestamp: 0,
    }
}

#[test]
fn team_finds_members() {
    assert_eq!(find_coordinator(&team()), Some(1));
    assert_eq!(find_agent(&team(), "integrator"), Some(2));
    assert_eq!(find_agent(&team(), "nobody"), None);
    assert_eq!(specialist_ids(&team()), vec!["specialist_1".to_string(), "specialist_2".to_string()]);
    assert_eq!(find_coordinator(&vec![("a".to_string(), AgentRole::Critic)]), None);
}

#[test]
fn team_steps_deliver_finish_and_fail() {
    let start = || TeamState { agents: team(), done: false };
    let (s, a) = team_step(start(), &TeamEvent::Started);
    assert!(!s.done);
    assert!(matches!(a, TeamAction::Deliver(Delivery::To(1))));
    let (_, a) = team_step(start(), &TeamEvent::Delivered(text_to(Some("integrator"))));
    assert!(matches!(a, TeamAction::Deliver(Delivery::To(2))));
    let (_, a) = team_step(start(), &TeamEvent::Delivered(text_to(Some("ghost"))));
    assert!(matches!(a, TeamAction::Deliver(Delivery::Nobody)));
    let (_, a) = team_step(start(), &TeamEvent::Delivered(text_to(None)));
    assert!(matches!(a, TeamAction::Deliver(Delivery::Everyone)));
    let done = integrated_result("integrator".to_string(), "all done".to_string(), "i".to_string(), 1);
    assert_eq!(final_output(&done), Some("all done".to_string()));
    let (s, a) = team_step(start(), &TeamEvent::Delivered(done));
    assert!(s.done);
    assert!(matches!(a, TeamAction::Finish(Delivery::Everyone, ref o) if o == "all done"));
    let (_, a) = team_step(start(), &TeamEvent::TimedOut);
    assert!(matches!(a, TeamAction::Fail(TeamFailure::Unfinished)));
    let lonely = TeamState { agents: vec![("s".to_string(), AgentRole::Specialist)], done: false };
    let (_, a) = team_step(lonely, &TeamEvent::Started);
    assert!(matches!(a, TeamAction::Fail(TeamFailure::NoCoordinator)));
    assert_eq!(TeamFailure::NoCoordinator.message(), "No coordinator found");
    assert_eq!(TeamFailure::Unfinished.message(), "Task execution failed or timed out");
    let partial = specialist_result("s".to_string(), "main".to_string(), "x".to_string(), "r".to_string(), 2);
    assert_eq!(final_output(&partial), None);
    assert_eq!(partial.receiver, Some("coordinator".to_string()));
}

#[test]
fn roles_choose_their_work() {
    let task = task_message("write docs".to_string(), "t".to_string(), 0);
    assert_eq!(task.sender, "system");
    assert!(matches!(work_for(&AgentRole::Coordinator, &task, 0), AgentWork::Decompose { ref description, .. } if description == "write docs"));
    assert!(matches!(work_for(&AgentRole::Specialist, &task, 0), AgentWork::Execute { ref task_id, .. } if task_id == "main"));
    assert!(matches!(work_for(&AgentRole::Critic, &task, 0), AgentWork::Idle));
    let result = specialist_result("s".to_string(), "main".to_string(), "out".to_string(), "r".to_string(), 2);
    assert!(matches!(work_for(&AgentRole::Coordinator, &result, 0), AgentWork::RequestIntegration));
    assert!(matches!(work_for(&AgentRole::Coordinator, &result, 1), AgentWork::Idle));
    assert!(matches!(work_for(&AgentRole::Critic, &result, 0), AgentWork::ReviewResult { ref output, .. } if output == "out"));
    assert!(matches!(work_for(&AgentRole::Integrator, &text_to(None), 0), AgentWork::Integrate));
    assert!(matches!(work_for(&AgentRole::Monitor, &task, 0), AgentWork::Idle));
}

#[test]
fn coordinator_reply_is_read_as_assignments() {
    let ids = vec!["s1".to_string()];
    let items = assignments_from_reply("Plan: [{\"specialist_id\": \"s1\", \"subtask\": \"a\"}, 2] ok", "task", &ids);
    assert_eq!(items, vec!["{\"specialist_id\":\"s1\",\"subtask\":\"a\"}".to_string(), "2".to_string()]);
    let fallback = assignments_from_reply("no list", "say \"hi\"", &vec![]);
    assert_eq!(fallback, vec!["{\"description\":\"say \\\"hi\\\"\",\"specialist_id\":\"specialist_1\",\"subtask\":\"main\"}".to_string()]);
    let first = assignments_from_reply("{\"not\": \"a list\"}", "t", &ids);
    assert_eq!(first, vec!["{\"description\":\"t\",\"specialist_id\":\"s1\",\"subtask\":\"main\"}".to_string()]);
    assert_eq!(assignment_data(&vec!["1".to_string(), "2".to_string()]), "{\"assignments\":[1,2]}");
    assert_eq!(assignment_data(&vec![]), "{\"assignments\":[]}");
}

#[test]
fn critic_reply_is_read_as_a_review() {
    let (rating, comments, suggestions) = review_from_reply("Here: {\"rating\": 9, \"comments\": \"good\"}");
    assert_eq!((rating, comments.as_str()), (9, "good"));
    assert!(suggestions.is_empty());
    // The first '[' starts the JSON that is read, so a list of suggestions
    // hides the rest of the review.
    let listed = review_from_reply("Here: {\"rating\": 9, \"comments\": \"good\", \"suggestions\": [\"a\", 3, \"b\"]}");
    assert_eq!(listed, (5, String::new(), vec![]));
    assert_eq!(review_from_reply("{\"rating\": 300}").0, 44);
    assert_eq!(review_from_reply("{\"other\": 1}"), (5, String::new(), vec![]));
    assert_eq!(review_from_reply("nothing"), (5, "No specific comments".to_string(), vec![]));
}

#[test]
fn team_prompts() {
    let p = decompose_prompt("Build", &vec!["a".to_string(), "b\"c".to_string()]);
    assert_eq!(
        p,
        "Decompose the following task into subtasks for specialists:\n\nTask: Build\n\nAvailable specialists: [\"a\", \"b\\\"c\"]\n\nReturn a JSON array of assignments with format:\n[{\"specialist_id\": \"...\", \"subtask\": \"...\", \"description\": \"...\"}]"
    );
    assert!(decompose_prompt("x", &vec![]).contains("Available specialists: []\n"));
    assert!(specialist_prompt("T").ends_with("Task: T\n\nProvide your specialized output."));
    assert!(review_prompt("id1", "out").contains("Task ID: id1\nOutput: out\n"));
    assert!(integration_prompt("R").contains("Results:\nR\n\n"));
}
