use crablet::mcts::{extract_json_array, Expansion, ThoughtTree};

#[test]
fn expansion_takes_pending_candidates_last_first() {
    let mut tree = ThoughtTree::new("How to sort?");
    assert_eq!(tree.len(), 1);
    assert!(tree.needs_candidates(0, 4));
    tree.set_pending(0, vec!["merge sort".to_string(), "quick sort".to_string()]);
    assert!(!tree.needs_candidates(0, 4));
    assert_eq!(tree.expand(0, 4), Expansion::Added(1));
    assert_eq!(tree.node(1).state.content, "quick sort");
    assert_eq!(tree.node(1).state.depth, 1);
    assert_eq!(tree.node(1).parent, Some(0));
    assert_eq!(tree.expand(0, 4), Expansion::Added(2));
    assert_eq!(tree.node(2).state.content, "merge sort");
    assert_eq!(tree.node(0).children, vec![1, 2]);
    assert_eq!(tree.expand(0, 4), Expansion::PickChild);
    // A leaf without candidates stays; so does a node at the depth limit.
    assert_eq!(tree.expand(1, 4), Expansion::Stay);
    assert_eq!(tree.expand(1, 1), Expansion::Stay);
    assert!(!tree.needs_candidates(1, 1));
}

#[test]
fn backpropagation_counts_up_to_the_root() {
    let mut tree = ThoughtTree::new("p");
    let a = tree.add_child(0, "a".to_string());
    let b = tree.add_child(a, "b".to_string());
    assert_eq!(tree.node(b).state.depth, 2);
    assert!(tree.visits_can_grow());
    assert_eq!(tree.backpropagate(b), vec![2, 1, 0]);
    assert_eq!(tree.backpropagate(a), vec![1, 0]);
    assert_eq!(tree.node(0).visits, 2);
    assert_eq!(tree.node(a).visits, 2);
    assert_eq!(tree.node(b).visits, 1);
}

#[test]
fn best_terminal_is_the_most_visited_leaf() {
    let mut tree = ThoughtTree::new("p");
    assert_eq!(tree.best_terminal(), None);
    let a = tree.add_child(0, "a".to_string());
    let b = tree.add_child(0, "b".to_string());
    let c = tree.add_child(0, "c".to_string());
    // Ties go to the later leaf.
    assert_eq!(tree.best_terminal(), Some(c));
    tree.backpropagate(a);
    tree.backpropagate(a);
    tree.backpropagate(b);
    assert_eq!(tree.best_terminal(), Some(a));
    tree.backpropagate(c);
    tree.backpropagate(c);
    assert_eq!(tree.best_terminal(), Some(c));
}

#[test]
fn json_array_is_cut_from_first_to_last_bracket() {
    assert_eq!(extract_json_array("Here: [\"a\", \"b\"] done").as_deref(), Some("[\"a\", \"b\"]"));
    assert_eq!(extract_json_array("[1] and [2]").as_deref(), Some("[1] and [2]"));
    assert_eq!(extract_json_array("no array"), None);
    assert_eq!(extract_json_array("] then ["), None);
    assert_eq!(extract_json_array("思路：[\"甲\"]").as_deref(), Some("[\"甲\"]"));
}
