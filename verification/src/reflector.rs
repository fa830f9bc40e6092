//! Reflection on a problematic execution: which kind of problem it was, how
//! it is described, how severe it is, and the improvements that answer it.
use vstd::prelude::*;
use vstd::string::StringExecFns;
use crate::logic::decimal;
use crate::optimizer::{opt_view, push_decimal_u64, split_chars, split_on};
use crate::text::{chars_of, string_of, trim, trim_chars};

verus! {

broadcast use vstd::string::group_string_axioms;

/// The kind of problem an execution had.
#[derive(Debug, Clone, PartialEq)]
pub enum ProblemType {
    ExecutionFailed,
    LowConfidence,
    ResourceExhaustion,
    PerformanceIssue,
    QualityIssue,
    Other(String),
}

/// Resources an execution used.
#[derive(Debug, Clone, Copy, PartialEq, Eq, Structural)]
pub struct ResourceMetrics {
    pub duration_ms: u64,
    pub memory_bytes: u64,
    pub cpu_ms: u64,
    pub tokens_used: u64,
}

impl Default for ResourceMetrics {
    fn default() -> (r: Self)
        ensures
            r == (ResourceMetrics { duration_ms: 0, memory_bytes: 0, cpu_ms: 0, tokens_used: 0 }),
    {
        ResourceMetrics { duration_ms: 0, memory_bytes: 0, cpu_ms: 0, tokens_used: 0 }
    }
}

/// Where an execution's confidence lies: below 0.3, below 0.5, or at least 0.5.
#[derive(Debug, Clone, Copy, PartialEq, Eq, Structural)]
pub enum ConfidenceBand {
    VeryLow,
    Low,
    Adequate,
}

/// Executions slower than this many milliseconds have a performance issue.
pub const SLOW_EXECUTION_MS: u64 = 10000;

/// Executions slower than this many milliseconds have a severe performance issue.
pub const VERY_SLOW_EXECUTION_MS: u64 = 30000;

/// Executions using more memory than this (512 MiB) exhaust resources.
pub const MEMORY_LIMIT_BYTES: u64 = 536870912;

/// Bytes in a mebibyte.
pub const MIB: u64 = 1048576;

/// Classify the problem of an execution: failure first, then low
/// confidence, slowness, memory use; anything else is a general issue.
pub fn classify_problem(success: bool, confidence: ConfidenceBand, resources: &ResourceMetrics) -> (p: ProblemType)
    ensures
        !success ==> p is ExecutionFailed,
        success && confidence != ConfidenceBand::Adequate ==> p is LowConfidence,
        success && confidence == ConfidenceBand::Adequate && resources.duration_ms > SLOW_EXECUTION_MS
            ==> p is PerformanceIssue,
        success && confidence == ConfidenceBand::Adequate && resources.duration_ms <= SLOW_EXECUTION_MS
            && resources.memory_bytes > MEMORY_LIMIT_BYTES ==> p is ResourceExhaustion,
        success && confidence == ConfidenceBand::Adequate && resources.duration_ms <= SLOW_EXECUTION_MS
            && resources.memory_bytes <= MEMORY_LIMIT_BYTES ==> (p matches ProblemType::Other(d)
            && d@ == "General issue"@),
{
    if !success {
        ProblemType::ExecutionFailed
    } else if confidence != ConfidenceBand::Adequate {
        ProblemType::LowConfidence
    } else if resources.duration_ms > SLOW_EXECUTION_MS {
        ProblemType::PerformanceIssue
    } else if resources.memory_bytes > MEMORY_LIMIT_BYTES {
        ProblemType::ResourceExhaustion
    } else {
        ProblemType::Other("General issue".to_owned())
    }
}

/// The view of an optional string slice.
pub open spec fn opt_str_view(o: Option<&str>) -> Option<Seq<char>> {
    match o {
        Some(s) => Some(s@),
        None => None,
    }
}

/// The description of a problem with a task. `confidence` is the
/// execution's confidence as text, `error` its error message if any.
pub open spec fn description_of(
    p: ProblemType,
    task: Seq<char>,
    error: Option<Seq<char>>,
    confidence: Seq<char>,
    r: ResourceMetrics,
) -> Seq<char> {
    let head = "Task '"@ + task;
    match p {
        ProblemType::ExecutionFailed => head + "' failed to execute successfully. Error: "@ + match error {
            Some(e) => e,
            None => "Unknown error"@,
        },
        ProblemType::LowConfidence => head + "' executed with low confidence ("@ + confidence
            + "). Output may be unreliable."@,
        ProblemType::PerformanceIssue => head + "' took "@ + decimal(r.duration_ms as nat)
            + "ms to execute, exceeding performance threshold."@,
        ProblemType::ResourceExhaustion => head + "' consumed excessive resources ("@ + decimal(
            (r.memory_bytes / MIB) as nat,
        ) + "MB memory)."@,
        ProblemType::QualityIssue => head + "' output quality is below acceptable threshold."@,
        ProblemType::Other(d) => head + "' encountered an issue: "@ + d@,
    }
}

/// Describe the problem a task had. `confidence_text` is the execution's
/// confidence written with two decimals.
pub fn generate_description(
    problem: &ProblemType,
    task: &str,
    error: Option<&str>,
    confidence_text: &str,
    resources: &ResourceMetrics,
) -> (s: String)
    ensures
        s@ == description_of(*problem, task@, opt_str_view(error), confidence_text@, *resources),
{
    let mut s = "Task '".to_owned();
    s.append(task);
    match problem {
        ProblemType::ExecutionFailed => {
            s.append("' failed to execute successfully. Error: ");
            match error {
                Some(e) => s.append(e),
                None => s.append("Unknown error"),
            }
        },
        ProblemType::LowConfidence => {
            s.append("' executed with low confidence (");
            s.append(confidence_text);
            s.append("). Output may be unreliable.");
        },
        ProblemType::PerformanceIssue => {
            s.append("' took ");
            push_decimal_u64(&mut s, resources.duration_ms);
            s.append("ms to execute, exceeding performance threshold.");
        },
        ProblemType::ResourceExhaustion => {
            s.append("' consumed excessive resources (");
            push_decimal_u64(&mut s, resources.memory_bytes / MIB);
            s.append("MB memory).");
        },
        ProblemType::QualityIssue => {
            s.append("' output quality is below acceptable threshold.");
        },
        ProblemType::Other(d) => {
            s.append("' encountered an issue: ");
            s.append(d.as_str());
        },
    }
    s
}

/// The severity of a problem, in tenths.
pub open spec fn severity_tenths_of(p: ProblemType, confidence: ConfidenceBand, r: ResourceMetrics) -> u8 {
    match p {
        ProblemType::ExecutionFailed => 10,
        ProblemType::ResourceExhaustion => 8,
        ProblemType::PerformanceIssue => if r.duration_ms > VERY_SLOW_EXECUTION_MS {
            8
        } else if r.duration_ms > SLOW_EXECUTION_MS {
            5
        } else {
            3
        },
        ProblemType::LowConfidence => match confidence {
            ConfidenceBand::VeryLow => 8,
            ConfidenceBand::Low => 5,
            ConfidenceBand::Adequate => 3,
        },
        ProblemType::QualityIssue => 6,
        ProblemType::Other(_) => 5,
    }
}

/// Severities, in tenths: a failed execution is the most severe (10), above
/// every other problem; exhausted resources are 8; slowness is 8 beyond 30 s,
/// 5 beyond 10 s and 3 otherwise; low confidence is 8 when very low, 5 when
/// low and 3 otherwise; a quality issue is 6 and any other issue 5.
pub proof fn severities(p: ProblemType, c: ConfidenceBand, r: ResourceMetrics)
    ensures
        severity_tenths_of(ProblemType::ExecutionFailed, c, r) == 10,
        severity_tenths_of(p, c, r) <= severity_tenths_of(ProblemType::ExecutionFailed, c, r),
        severity_tenths_of(ProblemType::ResourceExhaustion, c, r) == 8,
        r.duration_ms > 30000 ==> severity_tenths_of(ProblemType::PerformanceIssue, c, r) == 8,
        10000 < r.duration_ms <= 30000 ==> severity_tenths_of(ProblemType::PerformanceIssue, c, r) == 5,
        r.duration_ms <= 10000 ==> severity_tenths_of(ProblemType::PerformanceIssue, c, r) == 3,
        severity_tenths_of(ProblemType::LowConfidence, ConfidenceBand::VeryLow, r) == 8,
        severity_tenths_of(ProblemType::LowConfidence, ConfidenceBand::Low, r) == 5,
        severity_tenths_of(ProblemType::LowConfidence, ConfidenceBand::Adequate, r) == 3,
        severity_tenths_of(ProblemType::QualityIssue, c, r) == 6,
        p is Other ==> severity_tenths_of(p, c, r) == 5,
{
}

/// Assess how severe a problem is, in tenths (10 is the most severe).
pub fn assess_severity(problem: &ProblemType, confidence: ConfidenceBand, resources: &ResourceMetrics) -> (t: u8)
    ensures
        t == severity_tenths_of(*problem, confidence, *resources),
        t <= 10,
{
    match problem {
        ProblemType::ExecutionFailed => 10,
        ProblemType::ResourceExhaustion => 8,
        ProblemType::PerformanceIssue => {
            if resources.duration_ms > VERY_SLOW_EXECUTION_MS {
                8
            } else if resources.duration_ms > SLOW_EXECUTION_MS {
                5
            } else {
                3
            }
        },
        ProblemType::LowConfidence => match confidence {
            ConfidenceBand::VeryLow => 8,
            ConfidenceBand::Low => 5,
            ConfidenceBand::Adequate => 3,
        },
        ProblemType::QualityIssue => 6,
        ProblemType::Other(_) => 5,
    }
}

/// What an improvement does.
#[derive(Debug, Clone)]
pub enum ActionType {
    SwitchStrategy { new_strategy: String },
    UpdateKnowledge { knowledge_id: String, content: String },
    /// Parameters to set, by name, to numbers.
    AdjustParameters { parameters: Vec<(String, u64)> },
    OptimizePrompt { new_prompt: String },
    AddContext { context: String },
    Other(String),
}

/// A suggested improvement.
#[derive(Debug, Clone)]
pub struct ImprovementAction {
    pub action_type: ActionType,
    pub description: String,
    /// Priority in tenths (10 is the most urgent).
    pub priority_tenths: u8,
    pub expected_impact: String,
}

/// The mathematical form of an action.
pub enum ActionView {
    SwitchStrategy(Seq<char>),
    UpdateKnowledge(Seq<char>, Seq<char>),
    AdjustParameters(Seq<(Seq<char>, u64)>),
    OptimizePrompt(Seq<char>),
    AddContext(Seq<char>),
    Other(Seq<char>),
}

/// The mathematical form of an improvement.
pub struct ImprovementView {
    pub action: ActionView,
    pub description: Seq<char>,
    pub priority_tenths: u8,
    pub expected_impact: Seq<char>,
}

impl View for ActionType {
    type V = ActionView;

    open spec fn view(&self) -> ActionView {
        match self {
            ActionType::SwitchStrategy { new_strategy } => ActionView::SwitchStrategy(new_strategy@),
            ActionType::UpdateKnowledge { knowledge_id, content } => ActionView::UpdateKnowledge(
                knowledge_id@,
                content@,
            ),
            ActionType::AdjustParameters { parameters } => ActionView::AdjustParameters(
                parameters@.map_values(|p: (String, u64)| (p.0@, p.1)),
            ),
            ActionType::OptimizePrompt { new_prompt } => ActionView::OptimizePrompt(new_prompt@),
            ActionType::AddContext { context } => ActionView::AddContext(context@),
            ActionType::Other(s) => ActionView::Other(s@),
        }
    }
}

impl View for ImprovementAction {
    type V = ImprovementView;

    open spec fn view(&self) -> ImprovementView {
        ImprovementView {
            action: self.action_type@,
            description: self.description@,
            priority_tenths: self.priority_tenths,
            expected_impact: self.expected_impact@,
        }
    }
}

/// The views of a list of improvements.
pub open spec fn improvements_view(v: Seq<ImprovementAction>) -> Seq<ImprovementView> {
    v.map_values(|a: ImprovementAction| a@)
}

/// `s` as `{:?}` writes it: quoted, with `char::escape_debug` escapes.
pub uninterp spec fn str_debug(s: Seq<char>) -> Seq<char>;

/// Calls `format!("{:?}", s)` on a string slice; the result is named by `str_debug`.
#[verifier::external_body]
pub(crate) fn debug_str(s: &str) -> (r: String)
    ensures
        r@ == str_debug(s@),
{
    format!("{:?}", s)
}

/// An optional string as `{:?}` writes it.
pub open spec fn option_debug(o: Option<Seq<char>>) -> Seq<char> {
    match o {
        Some(s) => "Some("@ + str_debug(s) + ")"@,
        None => "None"@,
    }
}

/// The improvement with the given parts.
pub open spec fn improvement(action: ActionView, description: Seq<char>, priority: u8, impact: Seq<char>) -> ImprovementView {
    ImprovementView { action, description, priority_tenths: priority, expected_impact: impact }
}

/// The improvements every problem of a kind calls for.
pub open spec fn default_improvements_of(p: ProblemType, root_cause: Option<Seq<char>>, task: Seq<char>) -> Seq<
    ImprovementView,
> {
    match p {
        ProblemType::ExecutionFailed => seq![
            improvement(
                ActionView::SwitchStrategy("enhanced"@),
                "Switch to enhanced processing strategy with better error handling"@,
                9,
                "Reduce execution failures by improving error handling"@,
            ),
            improvement(
                ActionView::UpdateKnowledge(
                    "error_patterns"@,
                    "Error pattern for task '"@ + task + "': "@ + option_debug(root_cause),
                ),
                "Learn from this error pattern"@,
                8,
                "Improve error recognition and prevention"@,
            ),
        ],
        ProblemType::LowConfidence => seq![
            improvement(
                ActionView::AddContext("Request additional context and clarification"@),
                "Ask for more information to improve confidence"@,
                8,
                "Increase output quality and confidence"@,
            ),
            improvement(
                ActionView::OptimizePrompt("Enhance prompt with better instructions"@),
                "Optimize the prompt for better clarity"@,
                7,
                "Improve LLM understanding and response quality"@,
            ),
        ],
        ProblemType::PerformanceIssue => seq![
            improvement(
                ActionView::SwitchStrategy("fast"@),
                "Switch to faster processing strategy"@,
                8,
                "Reduce execution time"@,
            ),
        ],
        ProblemType::ResourceExhaustion => seq![
            improvement(
                ActionView::AdjustParameters(seq![("max_tokens"@, 1024u64)]),
                "Reduce token limit to lower memory usage"@,
                9,
                "Decrease memory consumption"@,
            ),
        ],
        _ => Seq::empty(),
    }
}

/// The improvements a kind of problem calls for, before any root-cause
/// analysis.
pub fn default_improvements(problem: &ProblemType, root_cause: &Option<String>, task: &str) -> (r: Vec<
    ImprovementAction,
>)
    ensures
        improvements_view(r@) == default_improvements_of(*problem, opt_view(*root_cause), task@),
{
    let mut r: Vec<ImprovementAction> = Vec::new();
    match problem {
        ProblemType::ExecutionFailed => {
            let mut content = "Error pattern for task '".to_owned();
            content.append(task);
            content.append("': ");
            match root_cause {
                Some(c) => {
                    content.append("Some(");
                    let d = debug_str(c.as_str());
                    content.append(d.as_str());
                    content.append(")");
                },
                None => content.append("None"),
            }
            assert(content@ =~= "Error pattern for task '"@ + task@ + "': "@ + option_debug(opt_view(*root_cause)));
            r.push(
                ImprovementAction {
                    action_type: ActionType::SwitchStrategy { new_strategy: "enhanced".to_owned() },
                    description: "Switch to enhanced processing strategy with better error handling".to_owned(),
                    priority_tenths: 9,
                    expected_impact: "Reduce execution failures by improving error handling".to_owned(),
                },
            );
            r.push(
                ImprovementAction {
                    action_type: ActionType::UpdateKnowledge {
                        knowledge_id: "error_patterns".to_owned(),
                        content,
                    },
                    description: "Learn from this error pattern".to_owned(),
                    priority_tenths: 8,
                    expected_impact: "Improve error recognition and prevention".to_owned(),
                },
            );
        },
        ProblemType::LowConfidence => {
            r.push(
                ImprovementAction {
                    action_type: ActionType::AddContext {
                        context: "Request additional context and clarification".to_owned(),
                    },
                    description: "Ask for more information to improve confidence".to_owned(),
                    priority_tenths: 8,
                    expected_impact: "Increase output quality and confidence".to_owned(),
                },
            );
            r.push(
                ImprovementAction {
                    action_type: ActionType::OptimizePrompt {
                        new_prompt: "Enhance prompt with better instructions".to_owned(),
                    },
                    description: "Optimize the prompt for better clarity".to_owned(),
                    priority_tenths: 7,
                    expected_impact: "Improve LLM understanding and response quality".to_owned(),
                },
            );
        },
        ProblemType::PerformanceIssue => {
            r.push(
                ImprovementAction {
                    action_type: ActionType::SwitchStrategy { new_strategy: "fast".to_owned() },
                    description: "Switch to faster processing strategy".to_owned(),
                    priority_tenths: 8,
                    expected_impact: "Reduce execution time".to_owned(),
                },
            );
        },
        ProblemType::ResourceExhaustion => {
            let parameters: Vec<(String, u64)> = vec![("max_tokens".to_owned(), 1024u64)];
            assert(parameters@.map_values(|p: (String, u64)| (p.0@, p.1)) =~= seq![("max_tokens"@, 1024u64)]);
            r.push(
                ImprovementAction {
                    action_type: ActionType::AdjustParameters { parameters },
                    description: "Reduce token limit to lower memory usage".to_owned(),
                    priority_tenths: 9,
                    expected_impact: "Decrease memory consumption".to_owned(),
                },
            );
        },
        _ => {},
    }
    proof {
        assert(improvements_view(r@) =~~= default_improvements_of(*problem, opt_view(*root_cause), task@));
    }
    r
}

/// The prompt asking a model for improvements that address a root cause.
pub open spec fn improvement_prompt_of(cause: Seq<char>) -> Seq<char> {
    "Based on the root cause analysis: \""@ + cause
        + "\"\n\nGenerate 1-2 specific improvement actions to address this issue.\nFocus on actionable and high-impact solutions."@
}

/// The prompt asking a model for improvements that address `cause`.
pub fn improvement_prompt(cause: &str) -> (s: String)
    ensures
        s@ == improvement_prompt_of(cause@),
{
    let mut s = "Based on the root cause analysis: \"".to_owned();
    s.append(cause);
    s.append(
        "\"\n\nGenerate 1-2 specific improvement actions to address this issue.\nFocus on actionable and high-impact solutions.",
    );
    s
}

/// At most the first two pieces of `s` between line feeds. Trimmed, these
/// are the trimmed first two lines of `str::lines`, an empty last piece
/// aside.
pub open spec fn first_lines(s: Seq<char>) -> Seq<Seq<char>> {
    let p = split_on(s, '\n');
    if p.len() > 2 {
        p.take(2)
    } else {
        p
    }
}

/// The trimmed pieces that are not empty, in order.
pub open spec fn nonempty_trimmed(pieces: Seq<Seq<char>>) -> Seq<Seq<char>>
    decreases pieces.len(),
{
    if pieces.len() == 0 {
        Seq::empty()
    } else {
        let rest = nonempty_trimmed(pieces.drop_last());
        let t = trim(pieces.last());
        if t.len() > 0 {
            rest.push(t)
        } else {
            rest
        }
    }
}

/// The improvement a model's suggestion line stands for.
pub open spec fn suggestion(t: Seq<char>) -> ImprovementView {
    improvement(ActionView::Other(t), t, 7, "Address specific root cause"@)
}

/// The improvements a model suggested: one for each non-empty line among
/// the first two lines of its reply.
pub open spec fn suggested_improvements_of(reply: Seq<char>) -> Seq<ImprovementView> {
    nonempty_trimmed(first_lines(reply)).map_values(|t: Seq<char>| suggestion(t))
}

/// Read the improvements a model suggested in `reply`.
pub fn suggested_improvements(reply: &str) -> (r: Vec<ImprovementAction>)
    ensures
        improvements_view(r@) == suggested_improvements_of(reply@),
{
    let v = chars_of(reply);
    let pieces = split_chars(&v, '\n');
    let ghost pv = pieces@.map_values(|w: Vec<char>| w@);
    let n: usize = if pieces.len() > 2 {
        2
    } else {
        pieces.len()
    };
    let mut r: Vec<ImprovementAction> = Vec::new();
    let mut i: usize = 0;
    while i < n
        invariant
            i <= n <= pieces@.len(),
            pv == pieces@.map_values(|w: Vec<char>| w@),
            improvements_view(r@) == nonempty_trimmed(pv.take(i as int)).map_values(
                |t: Seq<char>| suggestion(t),
            ),
        decreases n - i,
    {
        assert(pv.take(i + 1).drop_last() =~= pv.take(i as int));
        assert(pv[i as int] == pieces@[i as int]@);
        let t = trim_chars(pieces[i].as_slice());
        if t.len() > 0 {
            let ghost before = r@;
            let text = string_of(t.as_slice());
            r.push(
                ImprovementAction {
                    action_type: ActionType::Other(string_of(t.as_slice())),
                    description: text,
                    priority_tenths: 7,
                    expected_impact: "Address specific root cause".to_owned(),
                },
            );
            assert(improvements_view(r@) =~~= improvements_view(before).push(suggestion(t@)));
        }
        i += 1;
    }
    assert(pv.take(n as int) =~= first_lines(reply@));
    r
}

} // verus!
