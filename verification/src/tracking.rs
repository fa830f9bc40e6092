//! Intent types of cross-session tracking: parsing, priorities, keyword-based
//! classification and keyword extraction.
use vstd::prelude::*;
use crate::classifier::{contains_any, contains_any_of};
use crate::text::{
    all_ascii, ascii_lower, ascii_lower_char, byte_len, byte_len_chars, chars_of, is_whitespace_char, is_ws, lowercase, seq_contains, str_contains, string_of,
    string_of_range, to_lower,
};

verus! {

broadcast use vstd::string::group_string_axioms;

/// Intent type classification.
#[derive(Debug, Clone, Copy, PartialEq, Eq, Hash, Structural)]
pub enum IntentType {
    TaskCompletion,
    Learning,
    InformationRetrieval,
    ProblemSolving,
    DecisionMaking,
    Communication,
    Exploratory,
    Routine,
    Unknown,
}

/// The intent type a (lowercased) name stands for.
pub open spec fn intent_type_named(t: Seq<char>) -> IntentType {
    if task_names().contains(t) {
        IntentType::TaskCompletion
    } else if learning_names().contains(t) {
        IntentType::Learning
    } else if info_names().contains(t) {
        IntentType::InformationRetrieval
    } else if problem_names().contains(t) {
        IntentType::ProblemSolving
    } else if decision_names().contains(t) {
        IntentType::DecisionMaking
    } else if chat_names().contains(t) {
        IntentType::Communication
    } else if explore_names().contains(t) {
        IntentType::Exploratory
    } else if routine_names().contains(t) {
        IntentType::Routine
    } else {
        IntentType::Unknown
    }
}

/// The priority of an intent type, from 10 (most urgent) down to 1.
pub open spec fn intent_priority(t: IntentType) -> u8 {
    match t {
        IntentType::TaskCompletion => 10,
        IntentType::ProblemSolving => 9,
        IntentType::DecisionMaking => 8,
        IntentType::Learning => 7,
        IntentType::InformationRetrieval => 6,
        IntentType::Communication => 5,
        IntentType::Exploratory => 4,
        IntentType::Routine => 3,
        IntentType::Unknown => 1,
    }
}

/// Names of one intent type.
pub open spec fn task_names() -> Seq<Seq<char>> {
    seq!["task"@, "task_completion"@, "完成"@]
}

/// Names of one intent type.
pub open spec fn learning_names() -> Seq<Seq<char>> {
    seq!["learning"@, "learn"@, "学习"@]
}

/// Names of one intent type.
pub open spec fn info_names() -> Seq<Seq<char>> {
    seq!["info"@, "information"@, "查询"@]
}

/// Names of one intent type.
pub open spec fn problem_names() -> Seq<Seq<char>> {
    seq!["problem"@, "problem_solving"@, "解决问题"@]
}

/// Names of one intent type.
pub open spec fn decision_names() -> Seq<Seq<char>> {
    seq!["decision"@, "decision_making"@, "决策"@]
}

/// Names of one intent type.
pub open spec fn chat_names() -> Seq<Seq<char>> {
    seq!["chat"@, "communication"@, "交流"@]
}

/// Names of one intent type.
pub open spec fn explore_names() -> Seq<Seq<char>> {
    seq!["explore"@, "exploratory"@, "探索"@]
}

/// Names of one intent type.
pub open spec fn routine_names() -> Seq<Seq<char>> {
    seq!["routine"@, "日常"@]
}

/// Whether `t` is one of `names`.
fn is_one_of(t: &str, names: &Vec<&str>, Ghost(spec_names): Ghost<Seq<Seq<char>>>) -> (r: bool)
    requires
        names@.map_values(|m: &str| m@) == spec_names,
    ensures
        r == spec_names.contains(t@),
{
    let mut i: usize = 0;
    while i < names.len()
        invariant
            i <= names@.len(),
            names@.map_values(|m: &str| m@) == spec_names,
            forall|k: int| 0 <= k < i ==> spec_names[k] != t@,
        decreases names.len() - i,
    {
        assert(spec_names[i as int] == names@[i as int]@);
        if crate::text::str_eq(t, names[i]) {
            return true;
        }
        i += 1;
    }
    false
}

/// Intent names are read ignoring ASCII case: an ASCII name and its lower
/// case form name the same intent type, since lowering it again changes
/// nothing.
pub proof fn intent_names_ignore_ascii_case(s: Seq<char>)
    requires
        all_ascii(s),
    ensures
        all_ascii(ascii_lower(s)),
        ascii_lower(ascii_lower(s)) == ascii_lower(s),
        intent_type_named(ascii_lower(ascii_lower(s))) == intent_type_named(ascii_lower(s)),
{
    let l = ascii_lower(s);
    assert forall|i: int| 0 <= i < l.len() implies (#[trigger] l[i] as u32) < 128 by {
        assert(l[i] == ascii_lower_char(s[i]));
        assert((s[i] as u32) < 128);
    }
    assert forall|i: int| 0 <= i < l.len() implies #[trigger] ascii_lower_char(l[i]) == l[i] by {
        assert(l[i] == ascii_lower_char(s[i]));
    }
    assert(ascii_lower(l) =~= l);
}

/// The names of the intent types: `task`, `task_completion` or `完成` name task
/// completion (priority 10); `learning`, `learn` or `学习` learning (7); `info`,
/// `information` or `查询` information retrieval (6); `problem`,
/// `problem_solving` or `解决问题` problem solving (9); `decision`,
/// `decision_making` or `决策` decision making (8); `chat`, `communication` or
/// `交流` communication (5); `explore`, `exploratory` or `探索` exploration (4);
/// `routine` or `日常` routine work (3). Every other name is unknown (1).
#[verifier::spinoff_prover]
#[verifier::rlimit(40)]
pub proof fn intent_type_names_and_priorities(t: Seq<char>)
    ensures
        t == "task"@ || t == "task_completion"@ || t == "完成"@
            ==> intent_type_named(t) == IntentType::TaskCompletion,
        t == "learning"@ || t == "learn"@ || t == "学习"@ ==> intent_type_named(t) == IntentType::Learning,
        t == "info"@ || t == "information"@ || t == "查询"@
            ==> intent_type_named(t) == IntentType::InformationRetrieval,
        t == "problem"@ || t == "problem_solving"@ || t == "解决问题"@
            ==> intent_type_named(t) == IntentType::ProblemSolving,
        t == "decision"@ || t == "decision_making"@ || t == "决策"@
            ==> intent_type_named(t) == IntentType::DecisionMaking,
        t == "chat"@ || t == "communication"@ || t == "交流"@
            ==> intent_type_named(t) == IntentType::Communication,
        t == "explore"@ || t == "exploratory"@ || t == "探索"@
            ==> intent_type_named(t) == IntentType::Exploratory,
        t == "routine"@ || t == "日常"@ ==> intent_type_named(t) == IntentType::Routine,
        intent_type_named(t) is Unknown <==> t != "task"@ && t != "task_completion"@ && t != "完成"@
            && t != "learning"@ && t != "learn"@ && t != "学习"@ && t != "info"@
            && t != "information"@ && t != "查询"@ && t != "problem"@ && t != "problem_solving"@
            && t != "解决问题"@ && t != "decision"@ && t != "decision_making"@ && t != "决策"@
            && t != "chat"@ && t != "communication"@ && t != "交流"@ && t != "explore"@
            && t != "exploratory"@ && t != "探索"@ && t != "routine"@ && t != "日常"@,
        intent_priority(IntentType::TaskCompletion) == 10,
        intent_priority(IntentType::Learning) == 7,
        intent_priority(IntentType::InformationRetrieval) == 6,
        intent_priority(IntentType::ProblemSolving) == 9,
        intent_priority(IntentType::DecisionMaking) == 8,
        intent_priority(IntentType::Communication) == 5,
        intent_priority(IntentType::Exploratory) == 4,
        intent_priority(IntentType::Routine) == 3,
        intent_priority(IntentType::Unknown) == 1,
{
    reveal_strlit("task");
    reveal_strlit("task_completion");
    reveal_strlit("完成");
    reveal_strlit("learning");
    reveal_strlit("learn");
    reveal_strlit("学习");
    reveal_strlit("info");
    reveal_strlit("information");
    reveal_strlit("查询");
    reveal_strlit("problem");
    reveal_strlit("problem_solving");
    reveal_strlit("解决问题");
    reveal_strlit("decision");
    reveal_strlit("decision_making");
    reveal_strlit("决策");
    reveal_strlit("chat");
    reveal_strlit("communication");
    reveal_strlit("交流");
    reveal_strlit("explore");
    reveal_strlit("exploratory");
    reveal_strlit("探索");
    reveal_strlit("routine");
    reveal_strlit("日常");
    assert(task_names().contains(t) <==> (t == "task"@ || t == "task_completion"@ || t == "完成"@)) by {
        if task_names().contains(t) {
            let k = choose|k: int| 0 <= k < task_names().len() && task_names()[k] == t;
            assert(k == 0 || k == 1 || k == 2);
        }
        assert(task_names()[0] == "task"@);
        assert(task_names()[1] == "task_completion"@);
        assert(task_names()[2] == "完成"@);
    }
    assert(learning_names().contains(t) <==> (t == "learning"@ || t == "learn"@ || t == "学习"@)) by {
        if learning_names().contains(t) {
            let k = choose|k: int| 0 <= k < learning_names().len() && learning_names()[k] == t;
            assert(k == 0 || k == 1 || k == 2);
        }
        assert(learning_names()[0] == "learning"@);
        assert(learning_names()[1] == "learn"@);
        assert(learning_names()[2] == "学习"@);
    }
    assert(info_names().contains(t) <==> (t == "info"@ || t == "information"@ || t == "查询"@)) by {
        if info_names().contains(t) {
            let k = choose|k: int| 0 <= k < info_names().len() && info_names()[k] == t;
            assert(k == 0 || k == 1 || k == 2);
        }
        assert(info_names()[0] == "info"@);
        assert(info_names()[1] == "information"@);
        assert(info_names()[2] == "查询"@);
    }
    assert(problem_names().contains(t) <==> (t == "problem"@ || t == "problem_solving"@ || t == "解决问题"@)) by {
        if problem_names().contains(t) {
            let k = choose|k: int| 0 <= k < problem_names().len() && problem_names()[k] == t;
            assert(k == 0 || k == 1 || k == 2);
        }
        assert(problem_names()[0] == "problem"@);
        assert(problem_names()[1] == "problem_solving"@);
        assert(problem_names()[2] == "解决问题"@);
    }
    assert(decision_names().contains(t) <==> (t == "decision"@ || t == "decision_making"@ || t == "决策"@)) by {
        if decision_names().contains(t) {
            let k = choose|k: int| 0 <= k < decision_names().len() && decision_names()[k] == t;
            assert(k == 0 || k == 1 || k == 2);
        }
        assert(decision_names()[0] == "decision"@);
        assert(decision_names()[1] == "decision_making"@);
        assert(decision_names()[2] == "决策"@);
    }
    assert(chat_names().contains(t) <==> (t == "chat"@ || t == "communication"@ || t == "交流"@)) by {
        if chat_names().contains(t) {
            let k = choose|k: int| 0 <= k < chat_names().len() && chat_names()[k] == t;
            assert(k == 0 || k == 1 || k == 2);
        }
        assert(chat_names()[0] == "chat"@);
        assert(chat_names()[1] == "communication"@);
        assert(chat_names()[2] == "交流"@);
    }
    assert(explore_names().contains(t) <==> (t == "explore"@ || t == "exploratory"@ || t == "探索"@)) by {
        if explore_names().contains(t) {
            let k = choose|k: int| 0 <= k < explore_names().len() && explore_names()[k] == t;
            assert(k == 0 || k == 1 || k == 2);
        }
        assert(explore_names()[0] == "explore"@);
        assert(explore_names()[1] == "exploratory"@);
        assert(explore_names()[2] == "探索"@);
    }
    assert(routine_names().contains(t) <==> (t == "routine"@ || t == "日常"@)) by {
        if routine_names().contains(t) {
            let k = choose|k: int| 0 <= k < routine_names().len() && routine_names()[k] == t;
            assert(k == 0 || k == 1);
        }
        assert(routine_names()[0] == "routine"@);
        assert(routine_names()[1] == "日常"@);
    }
    if t == "task"@ {
        assert("task"@.len() != "learning"@.len());
        assert("task"@.len() != "learn"@.len());
        assert("task"@.len() != "学习"@.len());
        assert("task"@[0] != "info"@[0]);
        assert("task"@.len() != "information"@.len());
        assert("task"@.len() != "查询"@.len());
        assert("task"@.len() != "problem"@.len());
        assert("task"@.len() != "problem_solving"@.len());
        assert("task"@[0] != "解决问题"@[0]);
        assert("task"@.len() != "decision"@.len());
        assert("task"@.len() != "decision_making"@.len());
        assert("task"@.len() != "决策"@.len());
        assert("task"@[0] != "chat"@[0]);
        assert("task"@.len() != "communication"@.len());
        assert("task"@.len() != "交流"@.len());
        assert("task"@.len() != "explore"@.len());
        assert("task"@.len() != "exploratory"@.len());
        assert("task"@.len() != "探索"@.len());
        assert("task"@.len() != "routine"@.len());
        assert("task"@.len() != "日常"@.len());
    }
    if t == "task_completion"@ {
        assert("task_completion"@.len() != "learning"@.len());
        assert("task_completion"@.len() != "learn"@.len());
        assert("task_completion"@.len() != "学习"@.len());
        assert("task_completion"@.len() != "info"@.len());
        assert("task_completion"@.len() != "information"@.len());
        assert("task_completion"@.len() != "查询"@.len());
        assert("task_completion"@.len() != "problem"@.len());
        assert("task_completion"@[0] != "problem_solving"@[0]);
        assert("task_completion"@.len() != "解决问题"@.len());
        assert("task_completion"@.len() != "decision"@.len());
        assert("task_completion"@[0] != "decision_making"@[0]);
        assert("task_completion"@.len() != "决策"@.len());
        assert("task_completion"@.len() != "chat"@.len());
        assert("task_completion"@.len() != "communication"@.len());
        assert("task_completion"@.len() != "交流"@.len());
        assert("task_completion"@.len() != "explore"@.len());
        assert("task_completion"@.len() != "exploratory"@.len());
        assert("task_completion"@.len() != "探索"@.len());
        assert("task_completion"@.len() != "routine"@.len());
        assert("task_completion"@.len() != "日常"@.len());
    }
    if t == "完成"@ {
        assert("完成"@.len() != "learning"@.len());
        assert("完成"@.len() != "learn"@.len());
        assert("完成"@[0] != "学习"@[0]);
        assert("完成"@.len() != "info"@.len());
        assert("完成"@.len() != "information"@.len());
        assert("完成"@[0] != "查询"@[0]);
        assert("完成"@.len() != "problem"@.len());
        assert("完成"@.len() != "problem_solving"@.len());
        assert("完成"@.len() != "解决问题"@.len());
        assert("完成"@.len() != "decision"@.len());
        assert("完成"@.len() != "decision_making"@.len());
        assert("完成"@[0] != "决策"@[0]);
        assert("完成"@.len() != "chat"@.len());
        assert("完成"@.len() != "communication"@.len());
        assert("完成"@[0] != "交流"@[0]);
        assert("完成"@.len() != "explore"@.len());
        assert("完成"@.len() != "exploratory"@.len());
        assert("完成"@[0] != "探索"@[0]);
        assert("完成"@.len() != "routine"@.len());
        assert("完成"@[0] != "日常"@[0]);
    }
    if t == "learning"@ {
        assert("learning"@.len() != "task"@.len());
        assert("learning"@.len() != "task_completion"@.len());
        assert("learning"@.len() != "完成"@.len());
        assert("learning"@.len() != "info"@.len());
        assert("learning"@.len() != "information"@.len());
        assert("learning"@.len() != "查询"@.len());
        assert("learning"@.len() != "problem"@.len());
        assert("learning"@.len() != "problem_solving"@.len());
        assert("learning"@.len() != "解决问题"@.len());
        assert("learning"@[0] != "decision"@[0]);
        assert("learning"@.len() != "decision_making"@.len());
        assert("learning"@.len() != "决策"@.len());
        assert("learning"@.len() != "chat"@.len());
        assert("learning"@.len() != "communication"@.len());
        assert("learning"@.len() != "交流"@.len());
        assert("learning"@.len() != "explore"@.len());
        assert("learning"@.len() != "exploratory"@.len());
        assert("learning"@.len() != "探索"@.len());
        assert("learning"@.len() != "routine"@.len());
        assert("learning"@.len() != "日常"@.len());
    }
    if t == "learn"@ {
        assert("learn"@.len() != "task"@.len());
        assert("learn"@.len() != "task_completion"@.len());
        assert("learn"@.len() != "完成"@.len());
        assert("learn"@.len() != "info"@.len());
        assert("learn"@.len() != "information"@.len());
        assert("learn"@.len() != "查询"@.len());
        assert("learn"@.len() != "problem"@.len());
        assert("learn"@.len() != "problem_solving"@.len());
        assert("learn"@.len() != "解决问题"@.len());
        assert("learn"@.len() != "decision"@.len());
        assert("learn"@.len() != "decision_making"@.len());
        assert("learn"@.len() != "决策"@.len());
        assert("learn"@.len() != "chat"@.len());
        assert("learn"@.len() != "communication"@.len());
        assert("learn"@.len() != "交流"@.len());
        assert("learn"@.len() != "explore"@.len());
        assert("learn"@.len() != "exploratory"@.len());
        assert("learn"@.len() != "探索"@.len());
        assert("learn"@.len() != "routine"@.len());
        assert("learn"@.len() != "日常"@.len());
    }
    if t == "学习"@ {
        assert("学习"@.len() != "task"@.len());
        assert("学习"@.len() != "task_completion"@.len());
        assert("学习"@[0] != "完成"@[0]);
        assert("学习"@.len() != "info"@.len());
        assert("学习"@.len() != "information"@.len());
        assert("学习"@[0] != "查询"@[0]);
        assert("学习"@.len() != "problem"@.len());
        assert("学习"@.len() != "problem_solving"@.len());
        assert("学习"@.len() != "解决问题"@.len());
        assert("学习"@.len() != "decision"@.len());
        assert("学习"@.len() != "decision_making"@.len());
        assert("学习"@[0] != "决策"@[0]);
        assert("学习"@.len() != "chat"@.len());
        assert("学习"@.len() != "communication"@.len());
        assert("学习"@[0] != "交流"@[0]);
        assert("学习"@.len() != "explore"@.len());
        assert("学习"@.len() != "exploratory"@.len());
        assert("学习"@[0] != "探索"@[0]);
        assert("学习"@.len() != "routine"@.len());
        assert("学习"@[0] != "日常"@[0]);
    }
    if t == "info"@ {
        assert("info"@[0] != "task"@[0]);
        assert("info"@.len() != "task_completion"@.len());
        assert("info"@.len() != "完成"@.len());
        assert("info"@.len() != "learning"@.len());
        assert("info"@.len() != "learn"@.len());
        assert("info"@.len() != "学习"@.len());
        assert("info"@.len() != "problem"@.len());
        assert("info"@.len() != "problem_solving"@.len());
        assert("info"@[0] != "解决问题"@[0]);
        assert("info"@.len() != "decision"@.len());
        assert("info"@.len() != "decision_making"@.len());
        assert("info"@.len() != "决策"@.len());
        assert("info"@[0] != "chat"@[0]);
        assert("info"@.len() != "communication"@.len());
        assert("info"@.len() != "交流"@.len());
        assert("info"@.len() != "explore"@.len());
        assert("info"@.len() != "exploratory"@.len());
        assert("info"@.len() != "探索"@.len());
        assert("info"@.len() != "routine"@.len());
        assert("info"@.len() != "日常"@.len());
    }
    if t == "information"@ {
        assert("information"@.len() != "task"@.len());
        assert("information"@.len() != "task_completion"@.len());
        assert("information"@.len() != "完成"@.len());
        assert("information"@.len() != "learning"@.len());
        assert("information"@.len() != "learn"@.len());
        assert("information"@.len() != "学习"@.len());
        assert("information"@.len() != "problem"@.len());
        assert("information"@.len() != "problem_solving"@.len());
        assert("information"@.len() != "解决问题"@.len());
        assert("information"@.len() != "decision"@.len());
        assert("information"@.len() != "decision_making"@.len());
        assert("information"@.len() != "决策"@.len());
        assert("information"@.len() != "chat"@.len());
        assert("information"@.len() != "communication"@.len());
        assert("information"@.len() != "交流"@.len());
        assert("information"@.len() != "explore"@.len());
        assert("information"@[0] != "exploratory"@[0]);
        assert("information"@.len() != "探索"@.len());
        assert("information"@.len() != "routine"@.len());
        assert("information"@.len() != "日常"@.len());
    }
    if t == "查询"@ {
        assert("查询"@.len() != "task"@.len());
        assert("查询"@.len() != "task_completion"@.len());
        assert("查询"@[0] != "完成"@[0]);
        assert("查询"@.len() != "learning"@.len());
        assert("查询"@.len() != "learn"@.len());
        assert("查询"@[0] != "学习"@[0]);
        assert("查询"@.len() != "problem"@.len());
        assert("查询"@.len() != "problem_solving"@.len());
        assert("查询"@.len() != "解决问题"@.len());
        assert("查询"@.len() != "decision"@.len());
        assert("查询"@.len() != "decision_making"@.len());
        assert("查询"@[0] != "决策"@[0]);
        assert("查询"@.len() != "chat"@.len());
        assert("查询"@.len() != "communication"@.len());
        assert("查询"@[0] != "交流"@[0]);
        assert("查询"@.len() != "explore"@.len());
        assert("查询"@.len() != "exploratory"@.len());
        assert("查询"@[0] != "探索"@[0]);
        assert("查询"@.len() != "routine"@.len());
        assert("查询"@[0] != "日常"@[0]);
    }
    if t == "problem"@ {
        assert("problem"@.len() != "task"@.len());
        assert("problem"@.len() != "task_completion"@.len());
        assert("problem"@.len() != "完成"@.len());
        assert("problem"@.len() != "learning"@.len());
        assert("problem"@.len() != "learn"@.len());
        assert("problem"@.len() != "学习"@.len());
        assert("problem"@.len() != "info"@.len());
        assert("problem"@.len() != "information"@.len());
        assert("problem"@.len() != "查询"@.len());
        assert("problem"@.len() != "decision"@.len());
        assert("problem"@.len() != "decision_making"@.len());
        assert("problem"@.len() != "决策"@.len());
        assert("problem"@.len() != "chat"@.len());
        assert("problem"@.len() != "communication"@.len());
        assert("problem"@.len() != "交流"@.len());
        assert("problem"@[0] != "explore"@[0]);
        assert("problem"@.len() != "exploratory"@.len());
        assert("problem"@.len() != "探索"@.len());
        assert("problem"@[0] != "routine"@[0]);
        assert("problem"@.len() != "日常"@.len());
    }
    if t == "problem_solving"@ {
        assert("problem_solving"@.len() != "task"@.len());
        assert("problem_solving"@[0] != "task_completion"@[0]);
        assert("problem_solving"@.len() != "完成"@.len());
        assert("problem_solving"@.len() != "learning"@.len());
        assert("problem_solving"@.len() != "learn"@.len());
        assert("problem_solving"@.len() != "学习"@.len());
        assert("problem_solving"@.len() != "info"@.len());
        assert("problem_solving"@.len() != "information"@.len());
        assert("problem_solving"@.len() != "查询"@.len());
        assert("problem_solving"@.len() != "decision"@.len());
        assert("problem_solving"@[0] != "decision_making"@[0]);
        assert("problem_solving"@.len() != "决策"@.len());
        assert("problem_solving"@.len() != "chat"@.len());
        assert("problem_solving"@.len() != "communication"@.len());
        assert("problem_solving"@.len() != "交流"@.len());
        assert("problem_solving"@.len() != "explore"@.len());
        assert("problem_solving"@.len() != "exploratory"@.len());
        assert("problem_solving"@.len() != "探索"@.len());
        assert("problem_solving"@.len() != "routine"@.len());
        assert("problem_solving"@.len() != "日常"@.len());
    }
    if t == "解决问题"@ {
        assert("解决问题"@[0] != "task"@[0]);
        assert("解决问题"@.len() != "task_completion"@.len());
        assert("解决问题"@.len() != "完成"@.len());
        assert("解决问题"@.len() != "learning"@.len());
        assert("解决问题"@.len() != "learn"@.len());
        assert("解决问题"@.len() != "学习"@.len());
        assert("解决问题"@[0] != "info"@[0]);
        assert("解决问题"@.len() != "information"@.len());
        assert("解决问题"@.len() != "查询"@.len());
        assert("解决问题"@.len() != "decision"@.len());
        assert("解决问题"@.len() != "decision_making"@.len());
        assert("解决问题"@.len() != "决策"@.len());
        assert("解决问题"@[0] != "chat"@[0]);
        assert("解决问题"@.len() != "communication"@.len());
        assert("解决问题"@.len() != "交流"@.len());
        assert("解决问题"@.len() != "explore"@.len());
        assert("解决问题"@.len() != "exploratory"@.len());
        assert("解决问题"@.len() != "探索"@.len());
        assert("解决问题"@.len() != "routine"@.len());
        assert("解决问题"@.len() != "日常"@.len());
    }
    if t == "decision"@ {
        assert("decision"@.len() != "task"@.len());
        assert("decision"@.len() != "task_completion"@.len());
        assert("decision"@.len() != "完成"@.len());
        assert("decision"@[0] != "learning"@[0]);
        assert("decision"@.len() != "learn"@.len());
        assert("decision"@.len() != "学习"@.len());
        assert("decision"@.len() != "info"@.len());
        assert("decision"@.len() != "information"@.len());
        assert("decision"@.len() != "查询"@.len());
        assert("decision"@.len() != "problem"@.len());
        assert("decision"@.len() != "problem_solving"@.len());
        assert("decision"@.len() != "解决问题"@.len());
        assert("decision"@.len() != "chat"@.len());
        assert("decision"@.len() != "communication"@.len());
        assert("decision"@.len() != "交流"@.len());
        assert("decision"@.len() != "explore"@.len());
        assert("decision"@.len() != "exploratory"@.len());
        assert("decision"@.len() != "探索"@.len());
        assert("decision"@.len() != "routine"@.len());
        assert("decision"@.len() != "日常"@.len());
    }
    if t == "decision_making"@ {
        assert("decision_making"@.len() != "task"@.len());
        assert("decision_making"@[0] != "task_completion"@[0]);
        assert("decision_making"@.len() != "完成"@.len());
        assert("decision_making"@.len() != "learning"@.len());
        assert("decision_making"@.len() != "learn"@.len());
        assert("decision_making"@.len() != "学习"@.len());
        assert("decision_making"@.len() != "info"@.len());
        assert("decision_making"@.len() != "information"@.len());
        assert("decision_making"@.len() != "查询"@.len());
        assert("decision_making"@.len() != "problem"@.len());
        assert("decision_making"@[0] != "problem_solving"@[0]);
        assert("decision_making"@.len() != "解决问题"@.len());
        assert("decision_making"@.len() != "chat"@.len());
        assert("decision_making"@.len() != "communication"@.len());
        assert("decision_making"@.len() != "交流"@.len());
        assert("decision_making"@.len() != "explore"@.len());
        assert("decision_making"@.len() != "exploratory"@.len());
        assert("decision_making"@.len() != "探索"@.len());
        assert("decision_making"@.len() != "routine"@.len());
        assert("decision_making"@.len() != "日常"@.len());
    }
    if t == "决策"@ {
        assert("决策"@.len() != "task"@.len());
        assert("决策"@.len() != "task_completion"@.len());
        assert("决策"@[0] != "完成"@[0]);
        assert("决策"@.len() != "learning"@.len());
        assert("决策"@.len() != "learn"@.len());
        assert("决策"@[0] != "学习"@[0]);
        assert("决策"@.len() != "info"@.len());
        assert("决策"@.len() != "information"@.len());
        assert("决策"@[0] != "查询"@[0]);
        assert("决策"@.len() != "problem"@.len());
        assert("决策"@.len() != "problem_solving"@.len());
        assert("决策"@.len() != "解决问题"@.len());
        assert("决策"@.len() != "chat"@.len());
        assert("决策"@.len() != "communication"@.len());
        assert("决策"@[0] != "交流"@[0]);
        assert("决策"@.len() != "explore"@.len());
        assert("决策"@.len() != "exploratory"@.len());
        assert("决策"@[0] != "探索"@[0]);
        assert("决策"@.len() != "routine"@.len());
        assert("决策"@[0] != "日常"@[0]);
    }
    if t == "chat"@ {
        assert("chat"@[0] != "task"@[0]);
        assert("chat"@.len() != "task_completion"@.len());
        assert("chat"@.len() != "完成"@.len());
        assert("chat"@.len() != "learning"@.len());
        assert("chat"@.len() != "learn"@.len());
        assert("chat"@.len() != "学习"@.len());
        assert("chat"@[0] != "info"@[0]);
        assert("chat"@.len() != "information"@.len());
        assert("chat"@.len() != "查询"@.len());
        assert("chat"@.len() != "problem"@.len());
        assert("chat"@.len() != "problem_solving"@.len());
        assert("chat"@[0] != "解决问题"@[0]);
        assert("chat"@.len() != "decision"@.len());
        assert("chat"@.len() != "decision_making"@.len());
        assert("chat"@.len() != "决策"@.len());
        assert("chat"@.len() != "explore"@.len());
        assert("chat"@.len() != "exploratory"@.len());
        assert("chat"@.len() != "探索"@.len());
        assert("chat"@.len() != "routine"@.len());
        assert("chat"@.len() != "日常"@.len());
    }
    if t == "communication"@ {
        assert("communication"@.len() != "task"@.len());
        assert("communication"@.len() != "task_completion"@.len());
        assert("communication"@.len() != "完成"@.len());
        assert("communication"@.len() != "learning"@.len());
        assert("communication"@.len() != "learn"@.len());
        assert("communication"@.len() != "学习"@.len());
        assert("communication"@.len() != "info"@.len());
        assert("communication"@.len() != "information"@.len());
        assert("communication"@.len() != "查询"@.len());
        assert("communication"@.len() != "problem"@.len());
        assert("communication"@.len() != "problem_solving"@.len());
        assert("communication"@.len() != "解决问题"@.len());
        assert("communication"@.len() != "decision"@.len());
        assert("communication"@.len() != "decision_making"@.len());
        assert("communication"@.len() != "决策"@.len());
        assert("communication"@.len() != "explore"@.len());
        assert("communication"@.len() != "exploratory"@.len());
        assert("communication"@.len() != "探索"@.len());
        assert("communication"@.len() != "routine"@.len());
        assert("communication"@.len() != "日常"@.len());
    }
    if t == "交流"@ {
        assert("交流"@.len() != "task"@.len());
        assert("交流"@.len() != "task_completion"@.len());
        assert("交流"@[0] != "完成"@[0]);
        assert("交流"@.len() != "learning"@.len());
        assert("交流"@.len() != "learn"@.len());
        assert("交流"@[0] != "学习"@[0]);
        assert("交流"@.len() != "info"@.len());
        assert("交流"@.len() != "information"@.len());
        assert("交流"@[0] != "查询"@[0]);
        assert("交流"@.len() != "problem"@.len());
        assert("交流"@.len() != "problem_solving"@.len());
        assert("交流"@.len() != "解决问题"@.len());
        assert("交流"@.len() != "decision"@.len());
        assert("交流"@.len() != "decision_making"@.len());
        assert("交流"@[0] != "决策"@[0]);
        assert("交流"@.len() != "explore"@.len());
        assert("交流"@.len() != "exploratory"@.len());
        assert("交流"@[0] != "探索"@[0]);
        assert("交流"@.len() != "routine"@.len());
        assert("交流"@[0] != "日常"@[0]);
    }
    if t == "explore"@ {
        assert("explore"@.len() != "task"@.len());
        assert("explore"@.len() != "task_completion"@.len());
        assert("explore"@.len() != "完成"@.len());
        assert("explore"@.len() != "learning"@.len());
        assert("explore"@.len() != "learn"@.len());
        assert("explore"@.len() != "学习"@.len());
        assert("explore"@.len() != "info"@.len());
        assert("explore"@.len() != "information"@.len());
        assert("explore"@.len() != "查询"@.len());
        assert("explore"@[0] != "problem"@[0]);
        assert("explore"@.len() != "problem_solving"@.len());
        assert("explore"@.len() != "解决问题"@.len());
        assert("explore"@.len() != "decision"@.len());
        assert("explore"@.len() != "decision_making"@.len());
        assert("explore"@.len() != "决策"@.len());
        assert("explore"@.len() != "chat"@.len());
        assert("explore"@.len() != "communication"@.len());
        assert("explore"@.len() != "交流"@.len());
        assert("explore"@[0] != "routine"@[0]);
        assert("explore"@.len() != "日常"@.len());
    }
    if t == "exploratory"@ {
        assert("exploratory"@.len() != "task"@.len());
        assert("exploratory"@.len() != "task_completion"@.len());
        assert("exploratory"@.len() != "完成"@.len());
        assert("exploratory"@.len() != "learning"@.len());
        assert("exploratory"@.len() != "learn"@.len());
        assert("exploratory"@.len() != "学习"@.len());
        assert("exploratory"@.len() != "info"@.len());
        assert("exploratory"@[0] != "information"@[0]);
        assert("exploratory"@.len() != "查询"@.len());
        assert("exploratory"@.len() != "problem"@.len());
        assert("exploratory"@.len() != "problem_solving"@.len());
        assert("exploratory"@.len() != "解决问题"@.len());
        assert("exploratory"@.len() != "decision"@.len());
        assert("exploratory"@.len() != "decision_making"@.len());
        assert("exploratory"@.len() != "决策"@.len());
        assert("exploratory"@.len() != "chat"@.len());
        assert("exploratory"@.len() != "communication"@.len());
        assert("exploratory"@.len() != "交流"@.len());
        assert("exploratory"@.len() != "routine"@.len());
        assert("exploratory"@.len() != "日常"@.len());
    }
    if t == "探索"@ {
        assert("探索"@.len() != "task"@.len());
        assert("探索"@.len() != "task_completion"@.len());
        assert("探索"@[0] != "完成"@[0]);
        assert("探索"@.len() != "learning"@.len());
        assert("探索"@.len() != "learn"@.len());
        assert("探索"@[0] != "学习"@[0]);
        assert("探索"@.len() != "info"@.len());
        assert("探索"@.len() != "information"@.len());
        assert("探索"@[0] != "查询"@[0]);
        assert("探索"@.len() != "problem"@.len());
        assert("探索"@.len() != "problem_solving"@.len());
        assert("探索"@.len() != "解决问题"@.len());
        assert("探索"@.len() != "decision"@.len());
        assert("探索"@.len() != "decision_making"@.len());
        assert("探索"@[0] != "决策"@[0]);
        assert("探索"@.len() != "chat"@.len());
        assert("探索"@.len() != "communication"@.len());
        assert("探索"@[0] != "交流"@[0]);
        assert("探索"@.len() != "routine"@.len());
        assert("探索"@[0] != "日常"@[0]);
    }
    if t == "routine"@ {
        assert("routine"@.len() != "task"@.len());
        assert("routine"@.len() != "task_completion"@.len());
        assert("routine"@.len() != "完成"@.len());
        assert("routine"@.len() != "learning"@.len());
        assert("routine"@.len() != "learn"@.len());
        assert("routine"@.len() != "学习"@.len());
        assert("routine"@.len() != "info"@.len());
        assert("routine"@.len() != "information"@.len());
        assert("routine"@.len() != "查询"@.len());
        assert("routine"@[0] != "problem"@[0]);
        assert("routine"@.len() != "problem_solving"@.len());
        assert("routine"@.len() != "解决问题"@.len());
        assert("routine"@.len() != "decision"@.len());
        assert("routine"@.len() != "decision_making"@.len());
        assert("routine"@.len() != "决策"@.len());
        assert("routine"@.len() != "chat"@.len());
        assert("routine"@.len() != "communication"@.len());
        assert("routine"@.len() != "交流"@.len());
        assert("routine"@[0] != "explore"@[0]);
        assert("routine"@.len() != "exploratory"@.len());
        assert("routine"@.len() != "探索"@.len());
    }
    if t == "日常"@ {
        assert("日常"@.len() != "task"@.len());
        assert("日常"@.len() != "task_completion"@.len());
        assert("日常"@[0] != "完成"@[0]);
        assert("日常"@.len() != "learning"@.len());
        assert("日常"@.len() != "learn"@.len());
        assert("日常"@[0] != "学习"@[0]);
        assert("日常"@.len() != "info"@.len());
        assert("日常"@.len() != "information"@.len());
        assert("日常"@[0] != "查询"@[0]);
        assert("日常"@.len() != "problem"@.len());
        assert("日常"@.len() != "problem_solving"@.len());
        assert("日常"@.len() != "解决问题"@.len());
        assert("日常"@.len() != "decision"@.len());
        assert("日常"@.len() != "decision_making"@.len());
        assert("日常"@[0] != "决策"@[0]);
        assert("日常"@.len() != "chat"@.len());
        assert("日常"@.len() != "communication"@.len());
        assert("日常"@[0] != "交流"@[0]);
        assert("日常"@.len() != "explore"@.len());
        assert("日常"@.len() != "exploratory"@.len());
        assert("日常"@[0] != "探索"@[0]);
    }
}

impl IntentType {
    /// Parses an intent type name, ignoring case; unknown names give `Unknown`.
    pub fn from_string(s: &str) -> (r: IntentType)
        ensures
            r == intent_type_named(lowercase(s@)),
            all_ascii(s@) ==> r == intent_type_named(ascii_lower(s@)),
    {
        let lowered = to_lower(s);
        let t = lowered.as_str();
        let task: Vec<&str> = vec!["task", "task_completion", "完成"];
        assert(task@.map_values(|m: &str| m@) =~= task_names());
        if is_one_of(t, &task, Ghost(task_names())) {
            return IntentType::TaskCompletion;
        }
        let learning: Vec<&str> = vec!["learning", "learn", "学习"];
        assert(learning@.map_values(|m: &str| m@) =~= learning_names());
        if is_one_of(t, &learning, Ghost(learning_names())) {
            return IntentType::Learning;
        }
        let info: Vec<&str> = vec!["info", "information", "查询"];
        assert(info@.map_values(|m: &str| m@) =~= info_names());
        if is_one_of(t, &info, Ghost(info_names())) {
            return IntentType::InformationRetrieval;
        }
        let problem: Vec<&str> = vec!["problem", "problem_solving", "解决问题"];
        assert(problem@.map_values(|m: &str| m@) =~= problem_names());
        if is_one_of(t, &problem, Ghost(problem_names())) {
            return IntentType::ProblemSolving;
        }
        let decision: Vec<&str> = vec!["decision", "decision_making", "决策"];
        assert(decision@.map_values(|m: &str| m@) =~= decision_names());
        if is_one_of(t, &decision, Ghost(decision_names())) {
            return IntentType::DecisionMaking;
        }
        let chat: Vec<&str> = vec!["chat", "communication", "交流"];
        assert(chat@.map_values(|m: &str| m@) =~= chat_names());
        if is_one_of(t, &chat, Ghost(chat_names())) {
            return IntentType::Communication;
        }
        let explore: Vec<&str> = vec!["explore", "exploratory", "探索"];
        assert(explore@.map_values(|m: &str| m@) =~= explore_names());
        if is_one_of(t, &explore, Ghost(explore_names())) {
            return IntentType::Exploratory;
        }
        let routine: Vec<&str> = vec!["routine", "日常"];
        assert(routine@.map_values(|m: &str| m@) =~= routine_names());
        if is_one_of(t, &routine, Ghost(routine_names())) {
            return IntentType::Routine;
        }
        IntentType::Unknown
    }

    /// The priority of this intent type.
    pub fn priority(&self) -> (p: u8)
        ensures
            p == intent_priority(*self),
    {
        match self {
            IntentType::TaskCompletion => 10,
            IntentType::ProblemSolving => 9,
            IntentType::DecisionMaking => 8,
            IntentType::Learning => 7,
            IntentType::InformationRetrieval => 6,
            IntentType::Communication => 5,
            IntentType::Exploratory => 4,
            IntentType::Routine => 3,
            IntentType::Unknown => 1,
        }
    }
}

/// Status of a tracked goal.
#[derive(Debug, Clone, Copy, PartialEq, Eq, Structural)]
pub enum GoalStatus {
    Active,
    Paused,
    Completed,
    Cancelled,
    Blocked,
}

pub open spec fn task_markers() -> Seq<Seq<char>> {
    seq!["完成"@, "做好"@, "帮我"@, "帮我做"@]
}

pub open spec fn problem_markers() -> Seq<Seq<char>> {
    seq!["解决"@, "修复"@, "错误"@, "bug"@]
}

pub open spec fn learning_markers() -> Seq<Seq<char>> {
    seq!["学习"@, "教我"@, "怎么"@, "是什么"@]
}

pub open spec fn decision_markers() -> Seq<Seq<char>> {
    seq!["选择"@, "哪个好"@, "建议"@, "推荐"@]
}

pub open spec fn lookup_markers() -> Seq<Seq<char>> {
    seq!["查询"@, "搜索"@, "找"@, "看看"@]
}

pub open spec fn chat_markers() -> Seq<Seq<char>> {
    seq!["你好"@, "聊聊"@, "没事"@, "随便"@]
}

pub open spec fn explore_markers() -> Seq<Seq<char>> {
    seq!["试试"@, "探索"@, "玩"@, "好奇"@]
}

/// The intent type of a (lowercased) message, by the first rule that applies.
pub open spec fn message_intent(t: Seq<char>) -> IntentType {
    if contains_any(t, task_markers()) {
        IntentType::TaskCompletion
    } else if contains_any(t, problem_markers()) {
        IntentType::ProblemSolving
    } else if contains_any(t, learning_markers()) {
        IntentType::Learning
    } else if contains_any(t, decision_markers()) {
        IntentType::DecisionMaking
    } else if contains_any(t, lookup_markers()) {
        IntentType::InformationRetrieval
    } else if contains_any(t, chat_markers()) {
        IntentType::Communication
    } else if contains_any(t, explore_markers()) {
        IntentType::Exploratory
    } else {
        IntentType::Unknown
    }
}

/// The keyword rules of message classification, for a lowercased message
/// `t`: a message that mentions `完成`, `做好`, `帮我` or `帮我做` is a task; one
/// that mentions `解决`, `修复`, `错误` or `bug` is problem solving unless it is a
/// task; then, in this order, learning (`学习`, `教我`, `怎么`, `是什么`), decision
/// making (`选择`, `哪个好`, `建议`, `推荐`), information retrieval (`查询`, `搜索`,
/// `找`, `看看`), communication (`你好`, `聊聊`, `没事`, `随便`) and exploration
/// (`试试`, `探索`, `玩`, `好奇`), each unless an earlier rule claims the message.
/// A message is of unknown intent exactly when it mentions none of these.
pub proof fn message_keywords_decide_the_intent(t: Seq<char>)
    ensures
        (seq_contains(t, "完成"@) || seq_contains(t, "做好"@) || seq_contains(t, "帮我"@)
            || seq_contains(t, "帮我做"@)) ==> message_intent(t) == IntentType::TaskCompletion,
        !(message_intent(t) is TaskCompletion) && (seq_contains(t, "解决"@) || seq_contains(t, "修复"@)
            || seq_contains(t, "错误"@) || seq_contains(t, "bug"@))
            ==> message_intent(t) == IntentType::ProblemSolving,
        !(message_intent(t) is TaskCompletion || message_intent(t) is ProblemSolving)
            && (seq_contains(t, "学习"@) || seq_contains(t, "教我"@) || seq_contains(t, "怎么"@)
            || seq_contains(t, "是什么"@)) ==> message_intent(t) == IntentType::Learning,
        !(message_intent(t) is TaskCompletion || message_intent(t) is ProblemSolving
            || message_intent(t) is Learning) && (seq_contains(t, "选择"@) || seq_contains(t, "哪个好"@)
            || seq_contains(t, "建议"@) || seq_contains(t, "推荐"@))
            ==> message_intent(t) == IntentType::DecisionMaking,
        !(message_intent(t) is TaskCompletion || message_intent(t) is ProblemSolving
            || message_intent(t) is Learning || message_intent(t) is DecisionMaking)
            && (seq_contains(t, "查询"@) || seq_contains(t, "搜索"@) || seq_contains(t, "找"@)
            || seq_contains(t, "看看"@)) ==> message_intent(t) == IntentType::InformationRetrieval,
        !(message_intent(t) is TaskCompletion || message_intent(t) is ProblemSolving
            || message_intent(t) is Learning || message_intent(t) is DecisionMaking
            || message_intent(t) is InformationRetrieval) && (seq_contains(t, "你好"@)
            || seq_contains(t, "聊聊"@) || seq_contains(t, "没事"@) || seq_contains(t, "随便"@))
            ==> message_intent(t) == IntentType::Communication,
        !(message_intent(t) is TaskCompletion || message_intent(t) is ProblemSolving
            || message_intent(t) is Learning || message_intent(t) is DecisionMaking
            || message_intent(t) is InformationRetrieval || message_intent(t) is Communication)
            && (seq_contains(t, "试试"@) || seq_contains(t, "探索"@) || seq_contains(t, "玩"@)
            || seq_contains(t, "好奇"@)) ==> message_intent(t) == IntentType::Exploratory,
        message_intent(t) is Unknown <==> !(seq_contains(t, "完成"@) || seq_contains(t, "做好"@)
            || seq_contains(t, "帮我"@) || seq_contains(t, "帮我做"@) || seq_contains(t, "解决"@)
            || seq_contains(t, "修复"@) || seq_contains(t, "错误"@) || seq_contains(t, "bug"@)
            || seq_contains(t, "学习"@) || seq_contains(t, "教我"@) || seq_contains(t, "怎么"@)
            || seq_contains(t, "是什么"@) || seq_contains(t, "选择"@) || seq_contains(t, "哪个好"@)
            || seq_contains(t, "建议"@) || seq_contains(t, "推荐"@) || seq_contains(t, "查询"@)
            || seq_contains(t, "搜索"@) || seq_contains(t, "找"@) || seq_contains(t, "看看"@)
            || seq_contains(t, "你好"@) || seq_contains(t, "聊聊"@) || seq_contains(t, "没事"@)
            || seq_contains(t, "随便"@) || seq_contains(t, "试试"@) || seq_contains(t, "探索"@)
            || seq_contains(t, "玩"@) || seq_contains(t, "好奇"@)),
{
    assert(task_markers()[0] == "完成"@);
    assert(task_markers()[1] == "做好"@);
    assert(task_markers()[2] == "帮我"@);
    assert(task_markers()[3] == "帮我做"@);
    assert(problem_markers()[0] == "解决"@);
    assert(problem_markers()[1] == "修复"@);
    assert(problem_markers()[2] == "错误"@);
    assert(problem_markers()[3] == "bug"@);
    assert(learning_markers()[0] == "学习"@);
    assert(learning_markers()[1] == "教我"@);
    assert(learning_markers()[2] == "怎么"@);
    assert(learning_markers()[3] == "是什么"@);
    assert(decision_markers()[0] == "选择"@);
    assert(decision_markers()[1] == "哪个好"@);
    assert(decision_markers()[2] == "建议"@);
    assert(decision_markers()[3] == "推荐"@);
    assert(lookup_markers()[0] == "查询"@);
    assert(lookup_markers()[1] == "搜索"@);
    assert(lookup_markers()[2] == "找"@);
    assert(lookup_markers()[3] == "看看"@);
    assert(chat_markers()[0] == "你好"@);
    assert(chat_markers()[1] == "聊聊"@);
    assert(chat_markers()[2] == "没事"@);
    assert(chat_markers()[3] == "随便"@);
    assert(explore_markers()[0] == "试试"@);
    assert(explore_markers()[1] == "探索"@);
    assert(explore_markers()[2] == "玩"@);
    assert(explore_markers()[3] == "好奇"@);
}

/// Classifies a message by keywords, after lowercasing it.
pub fn classify_intent(message: &str) -> (r: IntentType)
    ensures
        r == message_intent(lowercase(message@)),
{
    let lowered = to_lower(message);
    let t = lowered.as_str();
    let task: Vec<&str> = vec!["完成", "做好", "帮我", "帮我做"];
    assert(task@.map_values(|m: &str| m@) =~= task_markers());
    if contains_any_of(t, &task, Ghost(task_markers())) {
        return IntentType::TaskCompletion;
    }
    let problem: Vec<&str> = vec!["解决", "修复", "错误", "bug"];
    assert(problem@.map_values(|m: &str| m@) =~= problem_markers());
    if contains_any_of(t, &problem, Ghost(problem_markers())) {
        return IntentType::ProblemSolving;
    }
    let learning: Vec<&str> = vec!["学习", "教我", "怎么", "是什么"];
    assert(learning@.map_values(|m: &str| m@) =~= learning_markers());
    if contains_any_of(t, &learning, Ghost(learning_markers())) {
        return IntentType::Learning;
    }
    let decision: Vec<&str> = vec!["选择", "哪个好", "建议", "推荐"];
    assert(decision@.map_values(|m: &str| m@) =~= decision_markers());
    if contains_any_of(t, &decision, Ghost(decision_markers())) {
        return IntentType::DecisionMaking;
    }
    let lookup: Vec<&str> = vec!["查询", "搜索", "找", "看看"];
    assert(lookup@.map_values(|m: &str| m@) =~= lookup_markers());
    if contains_any_of(t, &lookup, Ghost(lookup_markers())) {
        return IntentType::InformationRetrieval;
    }
    let chat: Vec<&str> = vec!["你好", "聊聊", "没事", "随便"];
    assert(chat@.map_values(|m: &str| m@) =~= chat_markers());
    if contains_any_of(t, &chat, Ghost(chat_markers())) {
        return IntentType::Communication;
    }
    let explore: Vec<&str> = vec!["试试", "探索", "玩", "好奇"];
    assert(explore@.map_values(|m: &str| m@) =~= explore_markers());
    if contains_any_of(t, &explore, Ghost(explore_markers())) {
        return IntentType::Exploratory;
    }
    IntentType::Unknown
}

/// Characters that keywords are made of: ASCII letters and digits, `_`, `#`
/// and whitespace. Every other character separates keywords.
pub open spec fn keyword_char(c: char) -> bool {
    ('a' <= c && c <= 'z') || ('A' <= c && c <= 'Z') || ('0' <= c && c <= '9') || c == '_' || c == '#'
        || is_ws(c)
}

/// `s` cut at every separator (`str::split`): one piece more than separators.
pub open spec fn keyword_pieces(s: Seq<char>) -> Seq<Seq<char>>
    decreases s.len(),
{
    if s.len() == 0 {
        seq![Seq::empty()]
    } else {
        let rest = keyword_pieces(s.drop_last());
        if keyword_char(s.last()) {
            rest.update(rest.len() - 1, rest.last().push(s.last()))
        } else {
            rest.push(Seq::empty())
        }
    }
}

/// Words never taken as keywords.
pub open spec fn stop_words() -> Seq<Seq<char>> {
    seq![
        "的"@, "了"@, "在"@, "是"@, "我"@, "你"@, "他"@, "她"@, "它"@, "这"@, "那"@, "一个"@, "什么"@, "怎么"@,
        "如何"@, "the"@, "a"@, "an"@, "is"@, "are"@, "was"@, "were"@, "do"@, "does"@, "did"@,
    ]
}

/// Whether a piece is a keyword: longer than one byte and not a stop word
/// (compared in lowercase).
pub open spec fn is_keyword(w: Seq<char>) -> bool {
    byte_len(w) > 1 && !stop_words().contains(lowercase(w))
}

/// The pieces that are keywords, in order.
pub open spec fn keywords_among(ps: Seq<Seq<char>>) -> Seq<Seq<char>>
    decreases ps.len(),
{
    if ps.len() == 0 {
        Seq::empty()
    } else if is_keyword(ps.last()) {
        keywords_among(ps.drop_last()).push(ps.last())
    } else {
        keywords_among(ps.drop_last())
    }
}

/// At most the first ten.
pub open spec fn first_ten(ws: Seq<Seq<char>>) -> Seq<Seq<char>> {
    if ws.len() > 10 {
        ws.take(10)
    } else {
        ws
    }
}

/// The keywords of a message: its first ten keyword pieces.
pub open spec fn message_keywords(s: Seq<char>) -> Seq<Seq<char>> {
    first_ten(keywords_among(keyword_pieces(s)))
}

/// The views of a list of strings.
pub open spec fn strings_view(v: Seq<String>) -> Seq<Seq<char>> {
    v.map_values(|s: String| s@)
}

/// Whether `c` may be part of a keyword.
fn is_keyword_char(c: char) -> (r: bool)
    ensures
        r == keyword_char(c),
{
    ('a' <= c && c <= 'z') || ('A' <= c && c <= 'Z') || ('0' <= c && c <= '9') || c == '_' || c == '#'
        || is_whitespace_char(c)
}

/// Appends `piece` to `out` when it is a keyword and fewer than ten were kept.
fn keep_piece(piece: &Vec<char>, out: &mut Vec<String>, Ghost(done): Ghost<Seq<Seq<char>>>)
    requires
        strings_view(old(out)@) == first_ten(keywords_among(done)),
    ensures
        strings_view(final(out)@) == first_ten(keywords_among(done.push(piece@))),
{
    let ghost ks = keywords_among(done);
    assert(done.push(piece@).drop_last() =~= done);
    if out.len() >= 10 {
        proof {
            let ks2 = keywords_among(done.push(piece@));
            assert(ks2.take(10) =~= ks.take(10));
        }
        return;
    }
    let too_short = byte_len_chars(piece.as_slice()) <= 1;
    if too_short {
        return;
    }
    let word = string_of(piece.as_slice());
    let lowered = to_lower(word.as_str());
    let stops: Vec<&str> = vec![
        "的", "了", "在", "是", "我", "你", "他", "她", "它", "这", "那", "一个", "什么", "怎么", "如何", "the", "a",
        "an", "is", "are", "was", "were", "do", "does", "did",
    ];
    assert(stops@.map_values(|m: &str| m@) =~= stop_words());
    if is_one_of(lowered.as_str(), &stops, Ghost(stop_words())) {
        return;
    }
    let ghost before = out@;
    out.push(word);
    assert(strings_view(out@) =~= strings_view(before).push(piece@));
}

/// Extracts up to ten keywords from a message: the pieces between separator
/// characters that are longer than one byte and not stop words.
pub fn extract_keywords(message: &str) -> (r: Vec<String>)
    ensures
        strings_view(r@) == message_keywords(message@),
{
    let v = chars_of(message);
    let mut out: Vec<String> = Vec::new();
    let mut cur: Vec<char> = Vec::new();
    let mut i: usize = 0;
    assert(v@.take(0) =~= Seq::<char>::empty());
    while i < v.len()
        invariant
            i <= v@.len(),
            v@ == message@,
            keyword_pieces(v@.take(i as int)).len() >= 1,
            cur@ == keyword_pieces(v@.take(i as int)).last(),
            strings_view(out@) == first_ten(keywords_among(keyword_pieces(v@.take(i as int)).drop_last())),
        decreases v.len() - i,
    {
        let ghost p = keyword_pieces(v@.take(i as int));
        assert(v@.take(i + 1).drop_last() =~= v@.take(i as int));
        let c = v[i];
        if is_keyword_char(c) {
            cur.push(c);
            assert(keyword_pieces(v@.take(i + 1)).drop_last() =~= p.drop_last());
        } else {
            keep_piece(&cur, &mut out, Ghost(p.drop_last()));
            assert(p.drop_last().push(p.last()) =~= p);
            assert(v@.take(i + 1).last() == c);
            assert(keyword_pieces(v@.take(i + 1)) == p.push(Seq::<char>::empty()));
            assert(keyword_pieces(v@.take(i + 1)).drop_last() =~= p);
            cur = Vec::new();
        }
        i += 1;
    }
    assert(v@.take(v@.len() as int) =~= v@);
    let ghost p = keyword_pieces(v@);
    keep_piece(&cur, &mut out, Ghost(p.drop_last()));
    assert(p.drop_last().push(p.last()) =~= p);
    out
}

/// The confidence of an extracted intent, in hundredths: one half, five
/// more per keyword up to thirty more, and twenty more for a known type, at
/// most one whole.
pub open spec fn confidence_hundredths(t: IntentType, keyword_count: nat) -> u32 {
    let keyword_bonus = if keyword_count * 5 < 30 { keyword_count * 5 } else { 30 };
    let type_bonus: nat = if t == IntentType::Unknown { 0 } else { 20 };
    let total = 50 + keyword_bonus + type_bonus;
    (if total < 100 { total } else { 100 }) as u32
}

/// Confidence grows with the keywords found: it starts at one half for an
/// unknown intent with no keywords, gains five hundredths a keyword (for at
/// most six keywords) and twenty for a known intent type, and never exceeds
/// one whole, which a known type reaches with six keywords.
pub proof fn confidence_grows_with_keywords(t: IntentType, k: nat)
    ensures
        50 <= confidence_hundredths(t, k) <= 100,
        confidence_hundredths(t, k) <= confidence_hundredths(t, k + 1),
        confidence_hundredths(IntentType::Unknown, 0) == 50,
        k <= 6 ==> confidence_hundredths(IntentType::Unknown, k) == 50 + 5 * k,
        t != IntentType::Unknown && k <= 6 ==> confidence_hundredths(t, k) == 70 + 5 * k,
        t != IntentType::Unknown && k >= 6 ==> confidence_hundredths(t, k) == 100,
{
}

/// The confidence of an intent of type `intent_type` with `keyword_count`
/// keywords, in hundredths.
pub fn intent_confidence(intent_type: IntentType, keyword_count: usize) -> (c: u32)
    ensures
        c == confidence_hundredths(intent_type, keyword_count as nat),
        50 <= c <= 100,
{
    let keyword_bonus: u32 = if keyword_count < 6 { (keyword_count as u32) * 5 } else { 30 };
    let type_bonus: u32 = if intent_type == IntentType::Unknown { 0 } else { 20 };
    let total = 50 + keyword_bonus + type_bonus;
    if total < 100 {
        total
    } else {
        100
    }
}

/// The description an intent keeps of its message: its first hundred
/// characters.
pub fn intent_description(message: &str) -> (d: String)
    ensures
        d@ == message@.take(if message@.len() < 100 { message@.len() as int } else { 100 }),
{
    let v = chars_of(message);
    let n = if v.len() < 100 { v.len() } else { 100 };
    let d = string_of_range(v.as_slice(), 0, n);
    assert(v@.subrange(0, n as int) =~= v@.take(n as int));
    d
}

/// Whether a goal's title and an intent's description mention each other:
/// either, lowercased, contains the other, lowercased.
pub fn goal_mentioned(goal_title: &str, description: &str) -> (b: bool)
    ensures
        b == (seq_contains(lowercase(goal_title@), lowercase(description@)) || seq_contains(
            lowercase(description@),
            lowercase(goal_title@),
        )),
{
    let t = to_lower(goal_title);
    let d = to_lower(description);
    str_contains(t.as_str(), d.as_str()) || str_contains(d.as_str(), t.as_str())
}

/// The kinds of proactive suggestion.
#[derive(Debug, Clone, Copy, PartialEq, Eq, Structural)]
pub enum SuggestionType {
    GoalReminder,
    IntentFollowUp,
    ContextResumption,
    RelatedTask,
    CompletionCheck,
}

} // verus!
