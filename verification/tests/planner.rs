use crablet::planner::{clean_plan_response, Plan, TaskStatus};

#[test]
fn fenced_json_is_unwrapped() {
    assert_eq!(clean_plan_response("  ```json\n{\"tasks\": []}\n```  "), "{\"tasks\": []}");
    assert_eq!(clean_plan_response("```\n{}\n```"), "{}");
    assert_eq!(clean_plan_response("{\"tasks\": [1]}"), "{\"tasks\": [1]}");
}

#[test]
fn repeated_fences_are_all_removed() {
    assert_eq!(clean_plan_response("``````json x``````"), "json x");
    assert_eq!(clean_plan_response("```json```json {}"), "{}");
    assert_eq!(clean_plan_response(""), "");
}

#[test]
fn plan_tasks_start_pending() {
    let steps = vec![
        (1usize, "Search the web".to_string(), Some("search".to_string())),
        (2usize, "Summarize".to_string(), None),
    ];
    let plan = Plan::from_steps("Learn Rust", &steps);
    assert_eq!(plan.goal, "Learn Rust");
    assert_eq!(plan.tasks.len(), 2);
    assert_eq!(plan.tasks[0].id, 1);
    assert_eq!(plan.tasks[0].description, "Search the web");
    assert_eq!(plan.tasks[0].tool_needed.as_deref(), Some("search"));
    assert_eq!(plan.tasks[1].tool_needed, None);
    assert!(plan.tasks.iter().all(|t| t.status == TaskStatus::Pending && t.result.is_none()));
}
