//! Task plans: the steps a goal is broken into, and the cleaning of a
//! model's reply before its JSON is read.
use vstd::prelude::*;
use crate::optimizer::opt_view;
use crate::text::{chars_of, is_prefix, is_suffix, occurs_at, occurs_at_exec, string_of, string_of_range, trim, trim_chars};

verus! {

broadcast use vstd::string::group_string_axioms;

/// The state of a subtask.
#[derive(Debug, Clone, Copy, PartialEq, Eq, Structural)]
pub enum TaskStatus {
    Pending,
    InProgress,
    Completed,
    Failed,
}

/// One step of a plan.
#[derive(Debug, Clone)]
pub struct SubTask {
    pub id: usize,
    pub description: String,
    /// The tool the step likely needs, such as "search" or "calculator".
    pub tool_needed: Option<String>,
    pub status: TaskStatus,
    pub result: Option<String>,
}

/// A goal and the steps it is broken into.
#[derive(Debug, Clone)]
pub struct Plan {
    pub goal: String,
    pub tasks: Vec<SubTask>,
}

/// `s` with every leading repetition of `p` removed (`str::trim_start_matches`).
pub open spec fn strip_leading(s: Seq<char>, p: Seq<char>) -> Seq<char>
    decreases s.len(),
{
    if p.len() > 0 && is_prefix(p, s) {
        strip_leading(s.skip(p.len() as int), p)
    } else {
        s
    }
}

/// `s` with every trailing repetition of `p` removed (`str::trim_end_matches`).
pub open spec fn strip_trailing(s: Seq<char>, p: Seq<char>) -> Seq<char>
    decreases s.len(),
{
    if p.len() > 0 && is_suffix(p, s) {
        strip_trailing(s.take(s.len() - p.len()), p)
    } else {
        s
    }
}

/// A model's reply without surrounding whitespace and Markdown code fences.
pub open spec fn cleaned_reply(reply: Seq<char>) -> Seq<char> {
    trim(strip_trailing(strip_leading(strip_leading(trim(reply), "```json"@), "```"@), "```"@))
}

/// The start of `v[from..to]` once the leading repetitions of `p` are removed.
fn skip_leading(v: &[char], from: usize, to: usize, p: &[char]) -> (k: usize)
    requires
        from <= to <= v@.len(),
        p@.len() > 0,
    ensures
        from <= k <= to,
        v@.subrange(k as int, to as int) == strip_leading(v@.subrange(from as int, to as int), p@),
{
    let mut k = from;
    while to - k >= p.len() && occurs_at_exec(v, p, k)
        invariant
            from <= k <= to <= v@.len(),
            p@.len() > 0,
            strip_leading(v@.subrange(k as int, to as int), p@) == strip_leading(
                v@.subrange(from as int, to as int),
                p@,
            ),
        decreases to - k,
    {
        proof {
            let s = v@.subrange(k as int, to as int);
            assert(s.subrange(0, p@.len() as int) =~= v@.subrange(k as int, k + p@.len()));
            assert(s.skip(p@.len() as int) =~= v@.subrange(k + p@.len(), to as int));
        }
        k += p.len();
    }
    proof {
        let s = v@.subrange(k as int, to as int);
        if is_prefix(p@, s) {
            assert(s.subrange(0, p@.len() as int) =~= v@.subrange(k as int, k + p@.len()));
            assert(occurs_at(v@, p@, k as int));
        }
    }
    k
}

/// The end of `v[from..to]` once the trailing repetitions of `p` are removed.
fn drop_trailing(v: &[char], from: usize, to: usize, p: &[char]) -> (k: usize)
    requires
        from <= to <= v@.len(),
        p@.len() > 0,
    ensures
        from <= k <= to,
        v@.subrange(from as int, k as int) == strip_trailing(v@.subrange(from as int, to as int), p@),
{
    let mut k = to;
    while k - from >= p.len() && occurs_at_exec(v, p, k - p.len())
        invariant
            from <= k <= to <= v@.len(),
            p@.len() > 0,
            strip_trailing(v@.subrange(from as int, k as int), p@) == strip_trailing(
                v@.subrange(from as int, to as int),
                p@,
            ),
        decreases k - from,
    {
        proof {
            let s = v@.subrange(from as int, k as int);
            assert(s.subrange(s.len() - p@.len(), s.len() as int) =~= v@.subrange(k - p@.len(), k as int));
            assert(s.take(s.len() - p@.len()) =~= v@.subrange(from as int, k - p@.len()));
        }
        k -= p.len();
    }
    proof {
        let s = v@.subrange(from as int, k as int);
        if is_suffix(p@, s) {
            assert(s.subrange(s.len() - p@.len(), s.len() as int) =~= v@.subrange(k - p@.len(), k as int));
            assert(occurs_at(v@, p@, k - p@.len()));
        }
    }
    k
}

proof fn lemma_trim_keeps(s: Seq<char>)
    requires
        s.len() > 0,
        !crate::text::is_ws(s[0]),
        !crate::text::is_ws(s.last()),
    ensures
        trim(s) == s,
{
    assert(crate::text::trim_start(s) == s);
}

/// Cleaning a reply takes off its code fences and surrounding whitespace
/// and nothing else: a reply that is JSON text `x` wrapped in a "```json"
/// (or a "```" fence, unless `x` starts with `json`) comes out as `x`, and a
/// reply without fences or surrounding whitespace comes out unchanged, when
/// `x` is nonempty and neither starts nor ends with whitespace or a
/// backquote.
pub proof fn fences_come_off(x: Seq<char>)
    requires
        x.len() > 0,
        !crate::text::is_ws(x[0]) && x[0] != '`',
        !crate::text::is_ws(x.last()) && x.last() != '`',
    ensures
        cleaned_reply("```json"@ + x + "```"@) == x,
        !is_prefix("json"@, x) ==> cleaned_reply("```"@ + x + "```"@) == x,
        cleaned_reply(x) == x,
{
    reveal_strlit("```json");
    reveal_strlit("```");
    let f = "```"@;
    let j = "```json"@;
    let body = x + f;
    assert(!is_prefix(j, body)) by {
        if is_prefix(j, body) {
            assert(body.subrange(0, 7)[0] == body[0]);
        }
    }
    assert(!is_prefix(f, body)) by {
        if is_prefix(f, body) {
            assert(body.subrange(0, 3)[0] == body[0]);
        }
    }
    assert(!is_prefix(j, x)) by {
        if is_prefix(j, x) {
            assert(x.subrange(0, 7)[0] == x[0]);
        }
    }
    assert(!is_prefix(f, x)) by {
        if is_prefix(f, x) {
            assert(x.subrange(0, 3)[0] == x[0]);
        }
    }
    assert(!is_suffix(f, x)) by {
        if is_suffix(f, x) {
            assert(x.subrange(x.len() - 3, x.len() as int)[2] == x.last());
        }
    }
    assert(is_suffix(f, body)) by {
        assert(body.subrange(body.len() - 3, body.len() as int) =~= f);
    }
    assert(body.take(body.len() - 3) =~= x);
    assert(strip_trailing(x, f) == x);
    assert(strip_trailing(body, f) == x);
    lemma_trim_keeps(x);
    let w1 = j + x + f;
    assert(w1[0] == '`' && w1.last() == '`');
    lemma_trim_keeps(w1);
    assert(is_prefix(j, w1)) by {
        assert(w1.subrange(0, 7) =~= j);
    }
    assert(w1.skip(7) =~= body);
    assert(strip_leading(body, j) == body);
    assert(strip_leading(body, f) == body);
    let w2 = f + x + f;
    assert(w2[0] == '`' && w2.last() == '`');
    lemma_trim_keeps(w2);
    reveal_strlit("json");
    if !is_prefix("json"@, x) {
        assert(!is_prefix(j, w2)) by {
            if is_prefix(j, w2) {
                if x.len() >= 4 {
                    assert(x.subrange(0, 4) =~= w2.subrange(0, 7).subrange(3, 7));
                    assert(w2.subrange(0, 7).subrange(3, 7) =~= "json"@);
                } else {
                    assert(w2.subrange(0, 7)[3 + x.len() as int] == '`');
                    assert(j[3 + x.len() as int] != '`');
                }
            }
        }
    }
    assert(is_prefix(f, w2)) by {
        assert(w2.subrange(0, 3) =~= f);
    }
    assert(w2.skip(3) =~= body);
    assert(strip_leading(x, j) == x);
    assert(strip_leading(x, f) == x);
}

/// Remove surrounding whitespace and Markdown code fences (a leading
/// "```json" or "```", a trailing "```") from a model's reply.
pub fn clean_plan_response(reply: &str) -> (r: String)
    ensures
        r@ == cleaned_reply(reply@),
{
    let raw = chars_of(reply);
    let t = trim_chars(raw.as_slice());
    let json_fence = chars_of("```json");
    let fence = chars_of("```");
    proof {
        reveal_strlit("```json");
        reveal_strlit("```");
        assert(t@.subrange(0, t@.len() as int) =~= t@);
    }
    let a = skip_leading(t.as_slice(), 0, t.len(), json_fence.as_slice());
    let b = skip_leading(t.as_slice(), a, t.len(), fence.as_slice());
    let e = drop_trailing(t.as_slice(), b, t.len(), fence.as_slice());
    let middle = string_of_range(t.as_slice(), b, e);
    let mv = chars_of(middle.as_str());
    let cleaned = trim_chars(mv.as_slice());
    string_of(cleaned.as_slice())
}

/// One planned step as (id, description, tool needed).
pub type PlannedStep = (usize, String, Option<String>);

/// Whether `task` is the pending, unfinished subtask for `step`.
pub open spec fn pending_task_for(task: SubTask, step: PlannedStep) -> bool {
    &&& task.id == step.0
    &&& task.description@ == step.1@
    &&& opt_view(task.tool_needed) == opt_view(step.2)
    &&& task.status == TaskStatus::Pending
    &&& task.result is None
}

impl Plan {
    /// A plan for `goal` whose tasks are `steps`, in order, all pending and
    /// without results.
    pub fn from_steps(goal: &str, steps: &Vec<PlannedStep>) -> (p: Plan)
        ensures
            p.goal@ == goal@,
            p.tasks@.len() == steps@.len(),
            forall|i: int| 0 <= i < steps@.len() ==> pending_task_for(#[trigger] p.tasks@[i], steps@[i]),
    {
        let mut tasks: Vec<SubTask> = Vec::new();
        let mut i: usize = 0;
        while i < steps.len()
            invariant
                i <= steps@.len(),
                tasks@.len() == i,
                forall|j: int| 0 <= j < i ==> pending_task_for(#[trigger] tasks@[j], steps@[j]),
            decreases steps.len() - i,
        {
            let tool = match &steps[i].2 {
                Some(t) => Some(t.clone()),
                None => None,
            };
            tasks.push(
                SubTask {
                    id: steps[i].0,
                    description: steps[i].1.clone(),
                    tool_needed: tool,
                    status: TaskStatus::Pending,
                    result: None,
                },
            );
            i += 1;
        }
        Plan { goal: string_of(chars_of(goal).as_slice()), tasks }
    }
}

} // verus!
