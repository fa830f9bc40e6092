//! The decisions of a guarded reasoning-and-acting loop: what the model
//! thought, which action it asked for, what a blocked action is answered,
//! and the summary given when the loop has to stop early.
use vstd::prelude::*;
use vstd::string::StringExecFns;
use crate::context::get_message_text;
use crate::guard::{LoopDetectionResult, TerminationReason};
use crate::logic::decimal;
use crate::middleware::joined_lines;
use crate::optimizer::{opt_view, push_decimal_u64};
use crate::pattern::{compile_regex, group_text, regex_compiles, regex_group};
use crate::reflector::{debug_str, str_debug};
use crate::text::{chars_of, string_of, trim, trim_chars};
use crate::types::{message_text, Message};

verus! {

broadcast use vstd::string::group_string_axioms;

/// What the model thought: the text parts of its reply, concatenated.
pub fn extract_thought(msg: &Message) -> (t: String)
    ensures
        t@ == message_text(*msg),
{
    get_message_text(msg)
}

/// The pattern of an action written out in a thought: "Action:", an
/// optional "use", a tool name, then a JSON object.
pub open spec fn action_pattern() -> Seq<char> {
    "(?is)Action:\\s*(?:use\\s+)?(?P<name>[\\w\\-]+)\\s*(?P<args>\\{[\\s\\S]*?\\})"@
}

/// The action a thought writes out, as (tool, trimmed arguments), if the
/// action pattern matches it.
pub open spec fn fallback_action_of(thought: Seq<char>) -> Option<(Seq<char>, Seq<char>)> {
    match (regex_group(action_pattern(), thought, "name"@), regex_group(action_pattern(), thought, "args"@)) {
        (Some(n), Some(a)) => Some((n, trim(a))),
        _ => None,
    }
}

/// Read an action the model wrote into its thought instead of calling a tool.
pub fn parse_fallback_action(thought: &str) -> (r: Option<(String, String)>)
    ensures
        regex_compiles(action_pattern()) ==> match r {
            Some((n, a)) => fallback_action_of(thought@) == Some((n@, a@)),
            None => fallback_action_of(thought@) is None,
        },
{
    let re = match compile_regex("(?is)Action:\\s*(?:use\\s+)?(?P<name>[\\w\\-]+)\\s*(?P<args>\\{[\\s\\S]*?\\})") {
        Ok(re) => re,
        Err(_) => return None,
    };
    let name = group_text(&re, thought, "name");
    let args = group_text(&re, thought, "args");
    match (name, args) {
        (Some(n), Some(a)) => {
            let av = chars_of(a.as_str());
            let t = trim_chars(av.as_slice());
            Some((n, string_of(t.as_slice())))
        },
        _ => None,
    }
}

/// The system instruction added before each step after the first.
pub open spec fn follow_up_text() -> Seq<char> {
    "Instruction: You have received tool outputs. Use them to answer directly. Do NOT repeat the same tool call with similar prompts if it hasn't provided new information."@
}

/// The system instruction added before each step after the first.
pub fn follow_up_instruction() -> (m: Message)
    ensures
        m.role@ == "system"@,
        crate::types::is_single_text(m, follow_up_text()),
{
    Message::new(
        "system",
        "Instruction: You have received tool outputs. Use them to answer directly. Do NOT repeat the same tool call with similar prompts if it hasn't provided new information.",
    )
}

/// A loop detection as `{:?}` writes it.
pub open spec fn loop_text(r: LoopDetectionResult) -> Seq<char> {
    match r {
        LoopDetectionResult::NoLoop => "NoLoop"@,
        LoopDetectionResult::ExactLoop { count } => "ExactLoop { count: "@ + decimal(count as nat) + " }"@,
        LoopDetectionResult::ResourceLoop { resource, count } => "ResourceLoop { resource: "@ + str_debug(
            resource@,
        ) + ", count: "@ + decimal(count as nat) + " }"@,
        LoopDetectionResult::SemanticLoop { shared_words, all_words } => "SemanticLoop { shared_words: "@
            + decimal(shared_words as nat) + ", all_words: "@ + decimal(all_words as nat) + " }"@,
    }
}

/// Write a loop detection as `{:?}` does.
pub fn describe_loop(r: &LoopDetectionResult) -> (s: String)
    ensures
        s@ == loop_text(*r),
{
    match r {
        LoopDetectionResult::NoLoop => "NoLoop".to_owned(),
        LoopDetectionResult::ExactLoop { count } => {
            let mut s = "ExactLoop { count: ".to_owned();
            push_decimal_u64(&mut s, *count as u64);
            s.append(" }");
            s
        },
        LoopDetectionResult::ResourceLoop { resource, count } => {
            let mut s = "ResourceLoop { resource: ".to_owned();
            let d = debug_str(resource.as_str());
            s.append(d.as_str());
            s.append(", count: ");
            push_decimal_u64(&mut s, *count as u64);
            s.append(" }");
            s
        },
        LoopDetectionResult::SemanticLoop { shared_words, all_words } => {
            let mut s = "SemanticLoop { shared_words: ".to_owned();
            push_decimal_u64(&mut s, *shared_words as u64);
            s.append(", all_words: ");
            push_decimal_u64(&mut s, *all_words as u64);
            s.append(" }");
            s
        },
    }
}

/// A termination reason as `{:?}` writes it.
pub open spec fn reason_text(r: TerminationReason) -> Seq<char> {
    match r {
        TerminationReason::MaxStepsReached => "MaxStepsReached"@,
        TerminationReason::Timeout => "Timeout"@,
        TerminationReason::ConfidenceDecay => "ConfidenceDecay"@,
        TerminationReason::LoopDetected(l) => "LoopDetected("@ + loop_text(l) + ")"@,
        TerminationReason::UserRequest => "UserRequest"@,
        TerminationReason::Success => "Success"@,
    }
}

/// Write a termination reason as `{:?}` does.
pub fn describe_reason(r: &TerminationReason) -> (s: String)
    ensures
        s@ == reason_text(*r),
{
    match r {
        TerminationReason::MaxStepsReached => "MaxStepsReached".to_owned(),
        TerminationReason::Timeout => "Timeout".to_owned(),
        TerminationReason::ConfidenceDecay => "ConfidenceDecay".to_owned(),
        TerminationReason::LoopDetected(l) => {
            let mut s = "LoopDetected(".to_owned();
            let d = describe_loop(l);
            s.append(d.as_str());
            s.append(")");
            s
        },
        TerminationReason::UserRequest => "UserRequest".to_owned(),
        TerminationReason::Success => "Success".to_owned(),
    }
}

/// The observation recorded when the guard blocks a tool call.
pub open spec fn guard_warning_of(r: TerminationReason) -> Seq<char> {
    "System Warning: "@ + match r {
        TerminationReason::LoopDetected(l) => "Loop detected: "@ + loop_text(l),
        TerminationReason::ConfidenceDecay => "Confidence declining, stopping further exploration"@,
        _ => "Execution blocked: "@ + reason_text(r),
    }
}

/// The observation recorded when the guard blocks a tool call.
pub fn guard_warning(r: &TerminationReason) -> (s: String)
    ensures
        s@ == guard_warning_of(*r),
{
    let mut s = "System Warning: ".to_owned();
    match r {
        TerminationReason::LoopDetected(l) => {
            s.append("Loop detected: ");
            let d = describe_loop(l);
            s.append(d.as_str());
        },
        TerminationReason::ConfidenceDecay => {
            s.append("Confidence declining, stopping further exploration");
        },
        _ => {
            s.append("Execution blocked: ");
            let d = describe_reason(r);
            s.append(d.as_str());
        },
    }
    s
}

/// Lines joined with line feeds.
fn join_lines(lines: &Vec<String>) -> (s: String)
    ensures
        s@ == joined_lines(lines@.map_values(|l: String| l@)),
{
    let ghost lv = lines@.map_values(|l: String| l@);
    let mut s = String::new();
    let mut i: usize = 0;
    while i < lines.len()
        invariant
            i <= lines@.len(),
            lv == lines@.map_values(|l: String| l@),
            s@ == joined_lines(lv.take(i as int)),
        decreases lines.len() - i,
    {
        assert(lv.take(i + 1).drop_last() =~= lv.take(i as int));
        assert(lv[i as int] == lines@[i as int]@);
        if i > 0 {
            s.append("\n");
        }
        s.append(lines[i].as_str());
        i += 1;
        assert(s@ =~= joined_lines(lv.take(i as int)));
    }
    assert(lv.take(lines@.len() as int) =~= lv);
    s
}

/// The answer given when the loop stops early, from what it observed so far.
pub open spec fn forced_summary_of(
    reason: TerminationReason,
    max_steps: nat,
    total_timeout_secs: nat,
    observations: Seq<Seq<char>>,
) -> Seq<char> {
    let found = joined_lines(observations);
    match reason {
        TerminationReason::MaxStepsReached => "After "@ + decimal(max_steps)
            + " reasoning steps, I've gathered the following:\n"@ + found
            + "\n\nBased on this analysis, my best assessment is that the task requires more information or a different approach."@,
        TerminationReason::Timeout => "The reasoning process exceeded the time limit of "@ + decimal(total_timeout_secs)
            + " seconds.\nPartial findings:\n"@ + found,
        TerminationReason::ConfidenceDecay =>
            "My confidence in the reasoning path has been decreasing.\nThis suggests I may be pursuing an incorrect approach.\nCurrent observations:\n"@
            + found,
        TerminationReason::LoopDetected(l) => "I detected repetitive reasoning patterns:\n"@ + loop_text(l)
            + "\n\nTo avoid wasting resources, I'm stopping here with partial results:\n"@ + found,
        _ => found,
    }
}

/// Summarize what was observed when the loop has to stop for `reason`.
pub fn forced_summary(
    reason: &TerminationReason,
    max_steps: usize,
    total_timeout_secs: u64,
    observations: &Vec<String>,
) -> (s: String)
    ensures
        s@ == forced_summary_of(
            *reason,
            max_steps as nat,
            total_timeout_secs as nat,
            observations@.map_values(|l: String| l@),
        ),
{
    let found = join_lines(observations);
    match reason {
        TerminationReason::MaxStepsReached => {
            let mut s = "After ".to_owned();
            push_decimal_u64(&mut s, max_steps as u64);
            s.append(" reasoning steps, I've gathered the following:\n");
            s.append(found.as_str());
            s.append(
                "\n\nBased on this analysis, my best assessment is that the task requires more information or a different approach.",
            );
            s
        },
        TerminationReason::Timeout => {
            let mut s = "The reasoning process exceeded the time limit of ".to_owned();
            push_decimal_u64(&mut s, total_timeout_secs);
            s.append(" seconds.\nPartial findings:\n");
            s.append(found.as_str());
            s
        },
        TerminationReason::ConfidenceDecay => {
            let mut s =
                "My confidence in the reasoning path has been decreasing.\nThis suggests I may be pursuing an incorrect approach.\nCurrent observations:\n".to_owned();
            s.append(found.as_str());
            s
        },
        TerminationReason::LoopDetected(l) => {
            let mut s = "I detected repetitive reasoning patterns:\n".to_owned();
            let d = describe_loop(l);
            s.append(d.as_str());
            s.append("\n\nTo avoid wasting resources, I'm stopping here with partial results:\n");
            s.append(found.as_str());
            s
        },
        _ => found,
    }
}

/// Where a guarded loop stands: the index of its current step, and the most
/// steps it may take.
#[derive(Debug, Clone, Copy, PartialEq, Eq, Structural)]
pub struct ReActState {
    pub step: usize,
    pub max_steps: usize,
}

/// What happened since the loop's last decision.
#[derive(Debug)]
pub enum ReActEvent {
    /// The loop starts.
    Started,
    /// The model replied with a thought, calling tools or not.
    Replied { thought: String, has_tool_calls: bool },
    /// The model timed out or failed.
    ModelFailed,
    /// The tools of the step ran and their outputs joined the context.
    ToolsRan,
}

/// What the loop does next.
#[derive(Debug)]
pub enum ReActAction {
    /// Ask the model, at step `step_num` (from one), adding the follow-up
    /// instruction after the first step.
    CallModel { step_num: usize, follow_up: bool },
    /// Run the tools the model called, or the one its thought wrote out.
    RunTools(Option<(String, String)>),
    /// Answer with the thought.
    Answer(String),
    /// Stop and summarise what was observed, for this reason.
    Summarize(TerminationReason),
    /// Fail: the model failed on the first step.
    Fail,
}

/// The view of a next action.
pub enum ActionView {
    CallModel(nat, bool),
    RunTools(Option<(Seq<char>, Seq<char>)>),
    Answer(Seq<char>),
    Summarize(TerminationReason),
    Fail,
}

/// The view of an action.
pub open spec fn action_view(a: ReActAction) -> ActionView {
    match a {
        ReActAction::CallModel { step_num, follow_up } => ActionView::CallModel(step_num as nat, follow_up),
        ReActAction::RunTools(t) => ActionView::RunTools(
            match t {
                Some((n, x)) => Some((n@, x@)),
                None => None,
            },
        ),
        ReActAction::Answer(t) => ActionView::Answer(t@),
        ReActAction::Summarize(r) => ActionView::Summarize(r),
        ReActAction::Fail => ActionView::Fail,
    }
}

/// Starting the step with index `s.step`: past the last step, or on the last
/// one (which the step limit refuses), the loop stops with a summary;
/// otherwise the model is asked.
pub open spec fn step_start(s: ReActState) -> (ReActState, ActionView) {
    if s.step >= s.max_steps || s.step + 1 >= s.max_steps {
        (s, ActionView::Summarize(TerminationReason::MaxStepsReached))
    } else {
        (s, ActionView::CallModel((s.step + 1) as nat, s.step > 0))
    }
}

/// The next state and action of the loop.
pub open spec fn react_next(s: ReActState, e: ReActEvent) -> (ReActState, ActionView) {
    match e {
        ReActEvent::Started => step_start(s),
        ReActEvent::ToolsRan => if s.step >= s.max_steps {
            (s, ActionView::Summarize(TerminationReason::MaxStepsReached))
        } else {
            step_start(ReActState { step: (s.step + 1) as usize, ..s })
        },
        ReActEvent::ModelFailed => if s.step == 0 {
            (s, ActionView::Fail)
        } else {
            (s, ActionView::Summarize(TerminationReason::Timeout))
        },
        ReActEvent::Replied { thought, has_tool_calls } => if has_tool_calls {
            (s, ActionView::RunTools(None))
        } else {
            match fallback_action_of(thought@) {
                Some(a) => (s, ActionView::RunTools(Some(a))),
                None => (s, ActionView::Answer(thought@)),
            }
        },
    }
}

/// The guarded loop keeps to its step limit: it never changes the limit,
/// asks the model only for a step below it (numbered from one, with the
/// follow-up instruction after the first step), and otherwise stops with a
/// summary for reaching it. Each round of tools moves it one step on. Tool
/// calls in a reply are always run; a model failure fails the loop on its
/// first step and ends later steps with a timeout summary.
pub proof fn loop_keeps_to_its_step_limit(s: ReActState, e: ReActEvent)
    ensures
        react_next(s, e).0.max_steps == s.max_steps,
        react_next(s, e).1 matches ActionView::CallModel(k, f) ==> 1 <= k < s.max_steps && k
            == react_next(s, e).0.step + 1 && f == (react_next(s, e).0.step > 0),
        e is Started && s.step + 1 < s.max_steps ==> react_next(s, e) == (s, ActionView::CallModel(
            (s.step + 1) as nat,
            s.step > 0,
        )),
        e is Started && s.step + 1 >= s.max_steps ==> react_next(s, e) == (s, ActionView::Summarize(
            TerminationReason::MaxStepsReached,
        )),
        e is ToolsRan && s.step + 2 < s.max_steps ==> react_next(s, e).0.step == s.step + 1
            && react_next(s, e).1 == ActionView::CallModel((s.step + 2) as nat, true),
        e is ToolsRan && s.step + 2 >= s.max_steps ==> react_next(s, e).1 == ActionView::Summarize(
            TerminationReason::MaxStepsReached,
        ),
        e matches ReActEvent::Replied { has_tool_calls: true, .. } ==> react_next(s, e) == (
            s,
            ActionView::RunTools(None),
        ),
        e is ModelFailed && s.step == 0 ==> react_next(s, e) == (s, ActionView::Fail),
        e is ModelFailed && s.step > 0 ==> react_next(s, e) == (s, ActionView::Summarize(
            TerminationReason::Timeout,
        )),
{
}

fn start_step(s: ReActState) -> (r: (ReActState, ReActAction))
    ensures
        (r.0, action_view(r.1)) == step_start(s),
{
    if s.step >= s.max_steps {
        return (s, ReActAction::Summarize(TerminationReason::MaxStepsReached));
    }
    match crate::guard::check_step_limit(s.step + 1, s.max_steps) {
        Err(reason) => (s, ReActAction::Summarize(reason)),
        Ok(()) => (s, ReActAction::CallModel { step_num: s.step + 1, follow_up: s.step > 0 }),
    }
}

/// One decision of the guarded loop. Reading an action out of a thought
/// goes through the action pattern; the decision is exact wherever it does
/// not, and everywhere once the pattern compiles.
pub fn react_step(state: &ReActState, event: &ReActEvent) -> (r: (ReActState, ReActAction))
    ensures
        regex_compiles(action_pattern()) ==> (r.0, action_view(r.1)) == react_next(*state, *event),
        !(event matches ReActEvent::Replied { has_tool_calls: false, .. }) ==> (r.0, action_view(r.1))
            == react_next(*state, *event),
        event matches ReActEvent::Replied { thought, has_tool_calls: false } ==> r.0 == *state && (
        action_view(r.1) is RunTools || action_view(r.1) == ActionView::Answer(thought@)),
{
    let s = *state;
    match event {
        ReActEvent::Started => start_step(s),
        ReActEvent::ToolsRan => {
            if s.step >= s.max_steps {
                (s, ReActAction::Summarize(TerminationReason::MaxStepsReached))
            } else {
                start_step(ReActState { step: s.step + 1, ..s })
            }
        },
        ReActEvent::ModelFailed => {
            if s.step == 0 {
                (s, ReActAction::Fail)
            } else {
                (s, ReActAction::Summarize(TerminationReason::Timeout))
            }
        },
        ReActEvent::Replied { thought, has_tool_calls } => {
            if *has_tool_calls {
                (s, ReActAction::RunTools(None))
            } else {
                match parse_fallback_action(thought.as_str()) {
                    Some(a) => (s, ReActAction::RunTools(Some(a))),
                    None => (s, ReActAction::Answer(string_of(chars_of(thought.as_str()).as_slice()))),
                }
            }
        },
    }
}

/// Where the basic loop stands: the index of its current step, and the most
/// steps it may take.
#[derive(Debug, Clone, Copy, PartialEq, Eq, Structural)]
pub struct BasicReActState {
    pub step: usize,
    pub max_steps: usize,
}

/// What the basic loop does next.
#[derive(Debug)]
pub enum BasicReActAction {
    /// Ask the model at step `step_num` (from one), with the follow-up
    /// instruction after the first step.
    CallModel { step_num: usize, follow_up: bool },
    /// Run the tools the model called, or the one its thought wrote out.
    RunTools(Option<(String, String)>),
    /// Reflect on the thought before answering with it.
    Reflect(String),
    /// Answer with the thought.
    Answer(String),
    /// The steps are used up: answer from the trace.
    LimitReached,
    /// The model failed after the first step: answer that thinking failed.
    GiveUp,
    /// The model failed on the first step.
    Fail,
}

/// The view of a basic action.
pub enum BasicActionView {
    CallModel(nat, bool),
    RunTools(Option<(Seq<char>, Seq<char>)>),
    Reflect(Seq<char>),
    Answer(Seq<char>),
    LimitReached,
    GiveUp,
    Fail,
}

/// The view of an action.
pub open spec fn basic_action_view(a: BasicReActAction) -> BasicActionView {
    match a {
        BasicReActAction::CallModel { step_num, follow_up } => BasicActionView::CallModel(step_num as nat, follow_up),
        BasicReActAction::RunTools(t) => BasicActionView::RunTools(
            match t {
                Some((n, x)) => Some((n@, x@)),
                None => None,
            },
        ),
        BasicReActAction::Reflect(t) => BasicActionView::Reflect(t@),
        BasicReActAction::Answer(t) => BasicActionView::Answer(t@),
        BasicReActAction::LimitReached => BasicActionView::LimitReached,
        BasicReActAction::GiveUp => BasicActionView::GiveUp,
        BasicReActAction::Fail => BasicActionView::Fail,
    }
}

/// Starting the step with index `s.step`: past the last step the loop
/// answers from its trace; otherwise the model is asked.
pub open spec fn basic_begin(s: BasicReActState) -> (BasicReActState, BasicActionView) {
    if s.step >= s.max_steps {
        (s, BasicActionView::LimitReached)
    } else {
        (s, BasicActionView::CallModel((s.step + 1) as nat, s.step > 0))
    }
}

/// The next state and action of the basic loop. A final thought is
/// reflected on when the loop may take more than three steps and is past
/// its second.
pub open spec fn basic_react_next(s: BasicReActState, e: ReActEvent) -> (BasicReActState, BasicActionView) {
    match e {
        ReActEvent::Started => basic_begin(s),
        ReActEvent::ToolsRan => if s.step >= s.max_steps {
            (s, BasicActionView::LimitReached)
        } else {
            basic_begin(BasicReActState { step: (s.step + 1) as usize, ..s })
        },
        ReActEvent::ModelFailed => if s.step == 0 {
            (s, BasicActionView::Fail)
        } else {
            (s, BasicActionView::GiveUp)
        },
        ReActEvent::Replied { thought, has_tool_calls } => if has_tool_calls {
            (s, BasicActionView::RunTools(None))
        } else {
            match fallback_action_of(thought@) {
                Some(a) => (s, BasicActionView::RunTools(Some(a))),
                None => if s.max_steps > 3 && s.step > 1 {
                    (s, BasicActionView::Reflect(thought@))
                } else {
                    (s, BasicActionView::Answer(thought@))
                },
            }
        },
    }
}

/// The basic loop keeps to its step limit too: it never changes the limit,
/// asks the model only for a step within it (numbered from one, with the
/// follow-up instruction after the first step), and answers from its trace
/// once the steps are used up. Tool calls are always run; a model failure
/// fails the loop on its first step and gives up later. A final thought with
/// no action in it is reflected on exactly when the loop may take more than
/// three steps and is past its second, and answered directly otherwise.
pub proof fn basic_loop_keeps_to_its_step_limit(s: BasicReActState, e: ReActEvent)
    ensures
        basic_react_next(s, e).0.max_steps == s.max_steps,
        basic_react_next(s, e).1 matches BasicActionView::CallModel(k, f) ==> 1 <= k <= s.max_steps
            && k == basic_react_next(s, e).0.step + 1 && f == (basic_react_next(s, e).0.step > 0),
        e is Started && s.step < s.max_steps ==> basic_react_next(s, e) == (s, BasicActionView::CallModel(
            (s.step + 1) as nat,
            s.step > 0,
        )),
        e is Started && s.step >= s.max_steps
            ==> basic_react_next(s, e) == (s, BasicActionView::LimitReached),
        e is ToolsRan && s.step + 1 < s.max_steps ==> basic_react_next(s, e).0.step == s.step + 1
            && basic_react_next(s, e).1 == BasicActionView::CallModel((s.step + 2) as nat, true),
        e is ToolsRan && s.step + 1 >= s.max_steps
            ==> basic_react_next(s, e).1 == BasicActionView::LimitReached,
        e matches ReActEvent::Replied { has_tool_calls: true, .. } ==> basic_react_next(s, e) == (
            s,
            BasicActionView::RunTools(None),
        ),
        e is Replied && !e->has_tool_calls && fallback_action_of(e->thought@) is None && s.max_steps > 3
            && s.step > 1 ==> basic_react_next(s, e) == (s, BasicActionView::Reflect(e->thought@)),
        e is Replied && !e->has_tool_calls && fallback_action_of(e->thought@) is None && !(s.max_steps > 3
            && s.step > 1) ==> basic_react_next(s, e) == (s, BasicActionView::Answer(e->thought@)),
        e is ModelFailed && s.step == 0 ==> basic_react_next(s, e) == (s, BasicActionView::Fail),
        e is ModelFailed && s.step > 0 ==> basic_react_next(s, e) == (s, BasicActionView::GiveUp),
{
}

fn basic_begin_step(s: BasicReActState) -> (r: (BasicReActState, BasicReActAction))
    ensures
        (r.0, basic_action_view(r.1)) == basic_begin(s),
{
    if s.step >= s.max_steps {
        (s, BasicReActAction::LimitReached)
    } else {
        (s, BasicReActAction::CallModel { step_num: s.step + 1, follow_up: s.step > 0 })
    }
}

/// One decision of the basic loop. Reading an action out of a thought goes
/// through the action pattern; the decision is exact wherever it does not,
/// and everywhere once the pattern compiles.
pub fn basic_react_step(state: &BasicReActState, event: &ReActEvent) -> (r: (BasicReActState, BasicReActAction))
    ensures
        regex_compiles(action_pattern()) ==> (r.0, basic_action_view(r.1)) == basic_react_next(*state, *event),
        !(event matches ReActEvent::Replied { has_tool_calls: false, .. }) ==> (r.0, basic_action_view(r.1))
            == basic_react_next(*state, *event),
        event matches ReActEvent::Replied { thought, has_tool_calls: false } ==> r.0 == *state && (
        basic_action_view(r.1) is RunTools || basic_action_view(r.1) == (if state.max_steps > 3 && state.step > 1 {
            BasicActionView::Reflect(thought@)
        } else {
            BasicActionView::Answer(thought@)
        })),
{
    let s = *state;
    match event {
        ReActEvent::Started => basic_begin_step(s),
        ReActEvent::ToolsRan => {
            if s.step >= s.max_steps {
                (s, BasicReActAction::LimitReached)
            } else {
                basic_begin_step(BasicReActState { step: s.step + 1, ..s })
            }
        },
        ReActEvent::ModelFailed => {
            if s.step == 0 {
                (s, BasicReActAction::Fail)
            } else {
                (s, BasicReActAction::GiveUp)
            }
        },
        ReActEvent::Replied { thought, has_tool_calls } => {
            if *has_tool_calls {
                (s, BasicReActAction::RunTools(None))
            } else {
                match parse_fallback_action(thought.as_str()) {
                    Some(a) => (s, BasicReActAction::RunTools(Some(a))),
                    None => {
                        let t = string_of(chars_of(thought.as_str()).as_slice());
                        if s.max_steps > 3 && s.step > 1 {
                            (s, BasicReActAction::Reflect(t))
                        } else {
                            (s, BasicReActAction::Answer(t))
                        }
                    },
                }
            }
        },
    }
}

/// What the basic loop answers when its steps are used up: the last
/// observation of the trace, else its last thought, else that it could not
/// finish.
pub open spec fn limit_message_of(last: Option<(Seq<char>, Option<Seq<char>>)>) -> Seq<char> {
    match last {
        Some((thought, observation)) => match observation {
            Some(o) => "I reached my maximum steps. Here is the last piece of information I found: \n\n"@ + o,
            None => thought,
        },
        None => "I couldn't finish the task within the maximum step limit."@,
    }
}

/// What the basic loop answers when its steps are used up, from the last
/// step of its trace: its thought and observation.
pub fn limit_reached_message(last: Option<(&str, Option<&str>)>) -> (r: String)
    ensures
        r@ == limit_message_of(
            match last {
                Some((t, o)) => Some(
                    (
                        t@,
                        match o {
                            Some(x) => Some(x@),
                            None => None,
                        },
                    ),
                ),
                None => None,
            },
        ),
{
    match last {
        Some((thought, observation)) => match observation {
            Some(o) => {
                let mut r = "I reached my maximum steps. Here is the last piece of information I found: \n\n".to_owned();
                r.append(o);
                r
            },
            None => thought.to_owned(),
        },
        None => "I couldn't finish the task within the maximum step limit.".to_owned(),
    }
}

/// What the basic loop answers when the model fails after the first step.
pub fn thinking_failed() -> (r: &'static str)
    ensures
        r@ == "Thinking failed due to an LLM error."@,
{
    "Thinking failed due to an LLM error."
}

/// The prompt asking the model to review its own answer.
pub open spec fn critique_prompt_of(answer: Seq<char>) -> Seq<char> {
    "Review your answer critically:\n1. Are there factual errors?\n2. Did you miss important nuances?\n3. Could the reasoning be improved?\nOriginal answer: "@
        + answer
        + "\n\nProvide your critique and a revised answer in JSON format: { \"critique\": \"...\", \"revised_response\": \"...\", \"confidence\": 0.0-1.0 }"@
}

/// The prompt asking the model to review its own answer.
pub fn critique_prompt(answer: &str) -> (r: String)
    ensures
        r@ == critique_prompt_of(answer@),
{
    let mut r = "Review your answer critically:\n1. Are there factual errors?\n2. Did you miss important nuances?\n3. Could the reasoning be improved?\nOriginal answer: ".to_owned();
    r.append(answer);
    r.append("\n\nProvide your critique and a revised answer in JSON format: { \"critique\": \"...\", \"revised_response\": \"...\", \"confidence\": 0.0-1.0 }");
    r
}

/// Position of the last `c` in `s`.
pub open spec fn last_index_of(s: Seq<char>, c: char) -> Option<int>
    decreases s.len(),
{
    if s.len() == 0 {
        None
    } else if s.last() == c {
        Some(s.len() - 1)
    } else {
        last_index_of(s.drop_last(), c)
    }
}

/// The text of the reflection's JSON: from the first `{` to the last `}`,
/// or the whole reply when it lacks either. `None` when the last `}` comes
/// before the first `{`, where no such text can be cut out.
pub open spec fn reflection_text_of(reply: Seq<char>) -> Option<Seq<char>> {
    match (crate::agents::first_index_of(reply, '{'), last_index_of(reply, '}')) {
        (Some(i), Some(j)) => if i <= j {
            Some(reply.subrange(i, j + 1))
        } else {
            None
        },
        _ => Some(reply),
    }
}

/// The text of the reflection's JSON in the reply.
pub fn reflection_text(reply: &str) -> (r: Option<String>)
    ensures
        match r {
            Some(t) => reflection_text_of(reply@) == Some(t@),
            None => reflection_text_of(reply@) is None,
        },
{
    let v = chars_of(reply);
    let open = crate::agents::find_char(&v, '{');
    let mut j: usize = v.len();
    assert(v@.take(v@.len() as int) =~= v@);
    while j > 0
        invariant
            j <= v@.len(),
            last_index_of(v@, '}') == last_index_of(v@.take(j as int), '}'),
        ensures
            j <= v@.len(),
            last_index_of(v@, '}') == last_index_of(v@.take(j as int), '}'),
            j > 0 ==> v@[j - 1] == '}',
        decreases j,
    {
        if v[j - 1] == '}' {
            break;
        }
        assert(v@.take(j as int).drop_last() =~= v@.take(j - 1));
        j -= 1;
    }
    proof {
        if j > 0 {
            assert(v@.take(j as int).last() == v@[j - 1]);
            assert(last_index_of(v@, '}') == Some(j - 1));
        } else {
            assert(last_index_of(v@.take(0), '}') is None);
        }
    }
    match open {
        Some(i) => {
            if j == 0 {
                return Some(string_of(v.as_slice()));
            }
            if i <= j - 1 {
                Some(string_of(&v.as_slice()[i..j]))
            } else {
                None
            }
        },
        None => Some(string_of(v.as_slice())),
    }
}

/// The answer given after a reflection found it lacking.
pub fn revised_answer(revised: &str) -> (r: String)
    ensures
        r@ == revised@ + " (Revised after reflection)"@,
{
    let mut r = revised.to_owned();
    r.append(" (Revised after reflection)");
    r
}

/// The thought recorded for a revised answer.
pub fn reflection_thought(thought: &str, critique: &str) -> (r: String)
    ensures
        r@ == "Reflection: "@ + thought@ + "\nCritique: "@ + critique@,
{
    let mut r = "Reflection: ".to_owned();
    r.append(thought);
    r.append("\nCritique: ");
    r.append(critique);
    r
}

} // verus!
