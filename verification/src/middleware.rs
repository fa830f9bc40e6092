//! The decisions of the cognitive middleware pipeline: refusing unsafe
//! input, spotting requests that need a plan, injecting system prompts,
//! formatting retrieved knowledge and tools, and keeping the context within
//! its token budget.
use vstd::prelude::*;
use vstd::string::StringExecFns;
use crate::text::{
    byte_len, byte_len_chars, chars_of, lowercase, seq_contains, str_contains, str_eq, string_of, to_lower, trim, trim_chars,
};
use crate::types::{is_single_text, message_text, Message};

verus! {

broadcast use vstd::string::group_string_axioms;

/// Whether `m` is a system message of one text part reading `text`.
pub open spec fn is_system_text(m: Message, text: Seq<char>) -> bool {
    &&& m.role@ == "system"@
    &&& is_single_text(m, text)
    &&& m.tool_calls is None
    &&& m.tool_call_id is None
}

/// How `content` is added to the system prompt of `old`, giving `new`: a
/// system message is created, appended to (after a blank line), or put first.
pub open spec fn system_prompt_added(old: Seq<Message>, content: Seq<char>, new: Seq<Message>) -> bool {
    if old.len() == 0 {
        new.len() == 1 && is_system_text(new[0], content)
    } else if old[0].role@ == "system"@ {
        if old[0].content is Some {
            &&& new.len() == old.len()
            &&& is_system_text(new[0], message_text(old[0]) + "\n\n"@ + content)
            &&& forall|i: int| 1 <= i < old.len() ==> #[trigger] new[i] == old[i]
        } else {
            new == old
        }
    } else {
        &&& new.len() == old.len() + 1
        &&& is_system_text(new[0], content)
        &&& forall|i: int| 0 <= i < old.len() ==> #[trigger] new[i + 1] == old[i]
    }
}

/// Add `content` to the system prompt at the head of `context`: extend the
/// existing system message, or insert one.
pub fn ensure_system_prompt(context: &mut Vec<Message>, content: &str)
    ensures
        system_prompt_added(old(context)@, content@, final(context)@),
{
    if context.len() == 0 {
        context.push(Message::new("system", content));
    } else if str_eq(context[0].role.as_str(), "system") {
        match context[0].text() {
            Some(text) => {
                let mut t = text;
                t.append("\n\n");
                t.append(content);
                context[0] = Message::new("system", t.as_str());
            },
            None => {},
        }
    } else {
        context.insert(0, Message::new("system", content));
    }
}

/// The refusal for an input, if it is refused: too long (over `max_bytes`
/// bytes), or an attempt to override the instructions.
pub open spec fn safety_refusal(input: Seq<char>, max_bytes: nat) -> Option<Seq<char>> {
    if capped(byte_len(input)) > max_bytes {
        Some("I cannot process this request because it is too long."@)
    } else if seq_contains(lowercase(input), "ignore all previous instructions"@) || seq_contains(
        lowercase(input),
        "ignore above instructions"@,
    ) {
        Some("I cannot comply with that request."@)
    } else {
        None
    }
}

/// The safety check refuses an input of more bytes than allowed as too long,
/// and otherwise an input whose lower case says `ignore all previous
/// instructions` or `ignore above instructions`; it lets everything else
/// through. A request is planned when it is longer than 100 bytes or joins
/// steps with ` and ` or ` then `.
pub proof fn safety_and_planning_rules(input: Seq<char>, max_bytes: nat)
    ensures
        capped(byte_len(input)) > max_bytes ==> safety_refusal(input, max_bytes) == Some(
            "I cannot process this request because it is too long."@,
        ),
        capped(byte_len(input)) <= max_bytes
            && (seq_contains(lowercase(input), "ignore all previous instructions"@)
            || seq_contains(lowercase(input), "ignore above instructions"@))
                ==> safety_refusal(input, max_bytes)
            == Some("I cannot comply with that request."@),
        capped(byte_len(input)) <= max_bytes
            && !seq_contains(lowercase(input), "ignore all previous instructions"@)
            && !seq_contains(lowercase(input), "ignore above instructions"@)
                ==> (safety_refusal(input, max_bytes)
            is None),
        needs_plan(input) <==> byte_len(input) > 100 || seq_contains(input, " and "@) || seq_contains(
            input,
            " then "@,
        ),
{
}

/// The safety check on user input.
pub struct SafetyMiddleware;

impl SafetyMiddleware {
    /// The name of this stage.
    pub fn name(&self) -> (s: &'static str)
        ensures
            s@ == "Safety Check"@,
    {
        "Safety Check"
    }

    /// The answer that stops the request, if the input is refused.
    pub fn check(&self, input: &str, max_input_bytes: usize) -> (r: Option<String>)
        ensures
            match r {
                Some(s) => safety_refusal(input@, max_input_bytes as nat) == Some(s@),
                None => safety_refusal(input@, max_input_bytes as nat) is None,
            },
    {
        let v = chars_of(input);
        let n = byte_len_chars(v.as_slice());
        if n > max_input_bytes {
            return Some("I cannot process this request because it is too long.".to_owned());
        }
        let lower = to_lower(input);
        if str_contains(lower.as_str(), "ignore all previous instructions") || str_contains(
            lower.as_str(),
            "ignore above instructions",
        ) {
            return Some("I cannot comply with that request.".to_owned());
        }
        None
    }
}

/// Whether a request is complex enough to plan: longer than 100 bytes, or
/// joining steps with " and " or " then ".
pub open spec fn needs_plan(input: Seq<char>) -> bool {
    byte_len(input) > 100 || seq_contains(input, " and "@) || seq_contains(input, " then "@)
}

/// The plan text added to the system prompt.
pub open spec fn plan_context_of(plan_json: Seq<char>) -> Seq<char> {
    "\n[CURRENT PLAN]\n"@ + plan_json + "\nFollow this plan to answer the user request."@
}

/// The planning stage.
pub struct PlanningMiddleware;

impl PlanningMiddleware {
    /// The name of this stage.
    pub fn name(&self) -> (s: &'static str)
        ensures
            s@ == "Planning"@,
    {
        "Planning"
    }

    /// Whether the request calls for a plan.
    pub fn is_complex(&self, input: &str) -> (b: bool)
        ensures
            b == needs_plan(input@),
    {
        let v = chars_of(input);
        byte_len_chars(v.as_slice()) > 100 || str_contains(input, " and ") || str_contains(input, " then ")
    }

    /// The system prompt text for a plan's tasks written as JSON.
    pub fn plan_context(&self, plan_json: &str) -> (s: String)
        ensures
            s@ == plan_context_of(plan_json@),
    {
        let mut s = "\n[CURRENT PLAN]\n".to_owned();
        s.append(plan_json);
        s.append("\nFollow this plan to answer the user request.");
        s
    }
}

/// A skill as (name, description, parameters).
pub type SkillSummary = (String, String, String);

/// The lines describing `skills`, in order.
pub open spec fn skill_lines(skills: Seq<SkillSummary>) -> Seq<char>
    decreases skills.len(),
{
    if skills.len() == 0 {
        Seq::empty()
    } else {
        let s = skills.last();
        skill_lines(skills.drop_last()) + "- "@ + s.0@ + ": "@ + s.1@ + " (Args: "@ + s.2@ + ")\n"@
    }
}

/// The tools text added to the system prompt, if there are any skills.
pub open spec fn skills_prompt_of(skills: Seq<SkillSummary>) -> Option<Seq<char>> {
    if skills.len() == 0 {
        None
    } else {
        Some(
            "\n[TOOLS]\n"@ + ("You have access to the following tools:\n"@ + skill_lines(skills))
                + "\nIf you need to use a tool, please generate a tool call.\n"@,
        )
    }
}

/// The stage that tells the model which tools it has.
pub struct SkillContextMiddleware;

impl SkillContextMiddleware {
    /// The name of this stage.
    pub fn name(&self) -> (s: &'static str)
        ensures
            s@ == "Skill Context Injection"@,
    {
        "Skill Context Injection"
    }

    /// The system prompt text listing the skills, if there are any.
    pub fn skills_prompt(&self, skills: &Vec<SkillSummary>) -> (r: Option<String>)
        ensures
            match r {
                Some(s) => skills_prompt_of(skills@) == Some(s@),
                None => skills_prompt_of(skills@) is None,
            },
    {
        if skills.len() == 0 {
            return None;
        }
        let mut desc = "You have access to the following tools:\n".to_owned();
        let ghost head = desc@;
        let mut i: usize = 0;
        while i < skills.len()
            invariant
                i <= skills@.len(),
                desc@ == head + skill_lines(skills@.take(i as int)),
            decreases skills.len() - i,
        {
            assert(skills@.take(i + 1).drop_last() =~= skills@.take(i as int));
            desc.append("- ");
            desc.append(skills[i].0.as_str());
            desc.append(": ");
            desc.append(skills[i].1.as_str());
            desc.append(" (Args: ");
            desc.append(skills[i].2.as_str());
            desc.append(")\n");
            i += 1;
            assert(desc@ =~= head + skill_lines(skills@.take(i as int)));
        }
        assert(skills@.take(skills@.len() as int) =~= skills@);
        let mut msg = "\n[TOOLS]\n".to_owned();
        msg.append(desc.as_str());
        msg.append("\nIf you need to use a tool, please generate a tool call.\n");
        Some(msg)
    }
}

/// A relation of an entity as (direction, relation, other entity); the
/// direction "->" points from the entity to the other one.
pub type RelationSummary = (String, String, String);

/// The lines stating `relations` of `name`.
pub open spec fn relation_lines(name: Seq<char>, relations: Seq<RelationSummary>) -> Seq<char>
    decreases relations.len(),
{
    if relations.len() == 0 {
        Seq::empty()
    } else {
        let r = relations.last();
        relation_lines(name, relations.drop_last()) + if r.0@ == "->"@ {
            "- "@ + name + " "@ + r.1@ + " "@ + r.2@ + "\n"@
        } else {
            "- "@ + r.2@ + " "@ + r.1@ + " "@ + name + "\n"@
        }
    }
}

/// What the knowledge graph says about an entity: a heading and its first
/// five relations.
pub open spec fn graph_facts_of(name: Seq<char>, relations: Seq<RelationSummary>) -> Seq<char> {
    "\n[Knowledge Graph about '"@ + name + "']:\n"@ + relation_lines(
        name,
        if relations.len() > 5 {
            relations.take(5)
        } else {
            relations
        },
    )
}

/// The knowledge text added to the system prompt, if anything was retrieved.
pub open spec fn knowledge_prompt_of(retrieved: Seq<char>) -> Option<Seq<char>> {
    if retrieved.len() == 0 {
        None
    } else {
        Some(
            "\n[KNOWLEDGE]\nUse the following retrieved knowledge to answer the user's question if relevant.\nImportant: When using information from the context, cite the source using [Ref X] notation or mention the Knowledge Graph.\n"@
                + retrieved + "\n"@,
        )
    }
}

/// The retrieval stage.
pub struct RagMiddleware;

impl RagMiddleware {
    /// The name of this stage.
    pub fn name(&self) -> (s: &'static str)
        ensures
            s@ == "RAG Retrieval"@,
    {
        "RAG Retrieval"
    }

    /// State what the knowledge graph relates to an entity.
    pub fn graph_facts(&self, name: &str, relations: &Vec<RelationSummary>) -> (s: String)
        ensures
            s@ == graph_facts_of(name@, relations@),
    {
        let mut s = "\n[Knowledge Graph about '".to_owned();
        s.append(name);
        s.append("']:\n");
        let ghost head = s@;
        let n: usize = if relations.len() > 5 {
            5
        } else {
            relations.len()
        };
        let mut i: usize = 0;
        while i < n
            invariant
                i <= n <= relations@.len(),
                s@ == head + relation_lines(name@, relations@.take(i as int)),
            decreases n - i,
        {
            assert(relations@.take(i + 1).drop_last() =~= relations@.take(i as int));
            s.append("- ");
            if str_eq(relations[i].0.as_str(), "->") {
                s.append(name);
                s.append(" ");
                s.append(relations[i].1.as_str());
                s.append(" ");
                s.append(relations[i].2.as_str());
            } else {
                s.append(relations[i].2.as_str());
                s.append(" ");
                s.append(relations[i].1.as_str());
                s.append(" ");
                s.append(name);
            }
            s.append("\n");
            i += 1;
            assert(s@ =~= head + relation_lines(name@, relations@.take(i as int)));
        }
        assert(relations@.take(n as int) =~= if relations@.len() > 5 {
            relations@.take(5)
        } else {
            relations@
        });
        s
    }

    /// The system prompt text for the retrieved knowledge, if any was retrieved.
    pub fn knowledge_prompt(&self, retrieved: &str) -> (r: Option<String>)
        ensures
            match r {
                Some(s) => knowledge_prompt_of(retrieved@) == Some(s@),
                None => knowledge_prompt_of(retrieved@) is None,
            },
    {
        let v = chars_of(retrieved);
        if v.len() == 0 {
            return None;
        }
        let mut s = "\n[KNOWLEDGE]\nUse the following retrieved knowledge to answer the user's question if relevant.\nImportant: When using information from the context, cite the source using [Ref X] notation or mention the Knowledge Graph.\n".to_owned();
        s.append(retrieved);
        s.append("\n");
        Some(s)
    }
}

/// Above this many tokens, the context is shortened.
pub const SOFT_TOKEN_LIMIT: usize = 8000;

/// Above this many tokens, the context is summarized before answering.
pub const HARD_TOKEN_LIMIT: usize = 16000;

/// Messages kept at the end of a shortened context.
pub const KEPT_RECENT: usize = 4;

/// What the cost guard does with a context.
#[derive(Debug, Clone, Copy, PartialEq, Eq, Structural)]
pub enum CostAction {
    /// Leave it as it is.
    Proceed,
    /// Summarize messages `1..split` and wait for the summary.
    Compress { split: usize },
    /// Replace messages `1..split` with a note, and summarize them in the background.
    Truncate { split: usize },
}

/// Where the kept tail of a long context begins.
pub open spec fn split_point(context_len: nat) -> nat {
    if context_len > KEPT_RECENT + 1 {
        (context_len - KEPT_RECENT) as nat
    } else {
        1
    }
}

/// What the cost guard does with a context of `context_len` messages and
/// `total_tokens` tokens: nothing within the soft limit or with at most four
/// messages; otherwise compress above the hard limit and truncate below it.
pub open spec fn cost_action_of(total_tokens: nat, context_len: nat) -> CostAction {
    if total_tokens > SOFT_TOKEN_LIMIT && context_len > KEPT_RECENT {
        if total_tokens > HARD_TOKEN_LIMIT {
            CostAction::Compress { split: split_point(context_len) as usize }
        } else {
            CostAction::Truncate { split: split_point(context_len) as usize }
        }
    } else {
        CostAction::Proceed
    }
}

/// The cost guard leaves a context alone while the tokens stay within 8000
/// or it has at most four messages. Beyond that it compresses above 16000
/// tokens and truncates otherwise, in both cases replacing the messages
/// after the first up to the last four (all but the first, in a context of
/// five), so the first message and the most recent ones are kept.
pub proof fn cost_guard_keeps_the_recent_messages(total_tokens: nat, context_len: nat)
    ensures
        total_tokens <= 8000 || context_len <= 4 ==> cost_action_of(total_tokens, context_len)
            == CostAction::Proceed,
        total_tokens > 16000 && context_len > 4 && context_len <= usize::MAX ==> cost_action_of(
            total_tokens,
            context_len,
        ) == (CostAction::Compress { split: split_point(context_len) as usize }),
        8000 < total_tokens <= 16000 && context_len > 4 && context_len <= usize::MAX ==> cost_action_of(
            total_tokens,
            context_len,
        ) == (CostAction::Truncate { split: split_point(context_len) as usize }),
        context_len > 5 ==> split_point(context_len) == context_len - 4,
        context_len == 5 ==> split_point(context_len) == 1,
        context_len > 4 ==> 1 <= split_point(context_len) < context_len,
{
}

/// Decide what to do with a context of `context_len` messages holding
/// `total_tokens` tokens together with the input.
pub fn cost_action(total_tokens: usize, context_len: usize) -> (a: CostAction)
    ensures
        a == cost_action_of(total_tokens as nat, context_len as nat),
        a matches CostAction::Compress { split } ==> 1 <= split < context_len,
        a matches CostAction::Truncate { split } ==> 1 <= split < context_len,
{
    if total_tokens > SOFT_TOKEN_LIMIT && context_len > KEPT_RECENT {
        let split = if context_len > KEPT_RECENT + 1 {
            context_len - KEPT_RECENT
        } else {
            1
        };
        if total_tokens > HARD_TOKEN_LIMIT {
            CostAction::Compress { split }
        } else {
            CostAction::Truncate { split }
        }
    } else {
        CostAction::Proceed
    }
}

/// `n`, or `usize::MAX` if it is larger.
pub open spec fn capped(n: nat) -> nat {
    if n <= usize::MAX {
        n
    } else {
        usize::MAX as nat
    }
}

/// The approximate token count of a text: a quarter of its bytes.
pub open spec fn approx_tokens(t: Seq<char>) -> nat {
    capped(byte_len(t)) / 4
}

/// The approximate token count of the messages' texts.
pub open spec fn context_tokens(context: Seq<Message>) -> nat
    decreases context.len(),
{
    if context.len() == 0 {
        0
    } else {
        context_tokens(context.drop_last()) + if context.last().content is Some {
            approx_tokens(message_text(context.last()))
        } else {
            0
        }
    }
}

/// The byte-pair encoder of `tiktoken-rs`.
#[verifier::external_type_specification]
#[verifier::external_body]
pub struct ExCoreBPE(tiktoken_rs::CoreBPE);

/// The `cl100k_base` tokenizer; it can only be made by `Tokenizer::cl100k`.
pub struct Tokenizer {
    bpe: tiktoken_rs::CoreBPE,
}

/// Builds the `cl100k_base` encoder from its embedded table
/// (`tiktoken_rs::cl100k_base`); `None` when that fails.
#[verifier::external_body]
fn load_cl100k() -> Option<tiktoken_rs::CoreBPE> {
    tiktoken_rs::cl100k_base().ok()
}

/// How many `cl100k_base` tokens `text` encodes to, special tokens allowed;
/// `None` when the encoder reports an error.
pub uninterp spec fn cl100k_tokens(text: Seq<char>) -> Option<nat>;

/// Encodes `text` with every special token allowed and counts the tokens
/// (`CoreBPE::encode` with `special_tokens`, which is what
/// `encode_with_special_tokens` does before it unwraps). The tokenizer is
/// always `cl100k_base`, so the count is a function of the text. The
/// special-token pattern is an alternation of literals, which the regex
/// search inside `encode` matches without the backtracking that could make
/// its `unwrap` fail.
#[verifier::external_body]
fn count_tokens(t: &Tokenizer, text: &str) -> (r: Option<usize>)
    ensures
        match r {
            Some(n) => cl100k_tokens(text@) == Some(n as nat),
            None => cl100k_tokens(text@) is None,
        },
{
    t.bpe.encode(text, &t.bpe.special_tokens()).ok().map(|(tokens, _)| tokens.len())
}

impl Tokenizer {
    /// The `cl100k_base` tokenizer, if it can be built.
    pub fn cl100k() -> Option<Tokenizer> {
        match load_cl100k() {
            Some(bpe) => Some(Tokenizer { bpe }),
            None => None,
        }
    }
}

/// The `cl100k_base` token counts of the input and of the texts of the
/// messages that have content, added (saturating at `usize::MAX`); `None`
/// when any text fails to encode.
pub open spec fn bpe_tokens(input: Seq<char>, context: Seq<Message>) -> Option<nat>
    decreases context.len(),
{
    if context.len() == 0 {
        match cl100k_tokens(input) {
            Some(n) => Some(capped(n)),
            None => None,
        }
    } else {
        let m = context.last();
        match bpe_tokens(input, context.drop_last()) {
            Some(t) => if m.content is Some {
                match cl100k_tokens(message_text(m)) {
                    Some(n) => Some(capped(t + capped(n))),
                    None => None,
                }
            } else {
                Some(t)
            },
            None => None,
        }
    }
}

/// Counts the tokens of the input and the context with the tokenizer, or
/// four bytes to a token without one; `None` when a text fails to encode.
pub fn count_context_tokens(tokenizer: &Option<Tokenizer>, input: &str, context: &Vec<Message>) -> (r: Option<usize>)
    ensures
        tokenizer is None ==> r == Some(capped(approx_tokens(input@) + context_tokens(context@)) as usize),
        tokenizer is Some ==> match r {
            Some(n) => bpe_tokens(input@, context@) == Some(n as nat),
            None => bpe_tokens(input@, context@) is None,
        },
{
    let t = match tokenizer {
        Some(t) => t,
        None => {
            return Some(estimate_tokens(input, context));
        },
    };
    let mut total: usize = match count_tokens(t, input) {
        Some(n) => n,
        None => {
            proof {
                assert(context@.take(0) =~= Seq::<Message>::empty());
                lemma_bpe_none_stays(input@, context@, 0, context@.len() as int);
                assert(context@.take(context@.len() as int) =~= context@);
            }
            return None;
        },
    };
    let mut i: usize = 0;
    assert(context@.take(0) =~= Seq::<Message>::empty());
    while i < context.len()
        invariant
            i <= context@.len(),
            tokenizer is Some,
            bpe_tokens(input@, context@.take(i as int)) == Some(total as nat),
        decreases context.len() - i,
    {
        assert(context@.take(i + 1).drop_last() =~= context@.take(i as int));
        assert(context@.take(i + 1).last() == context@[i as int]);
        match context[i].text() {
            Some(text) => {
                match count_tokens(t, text.as_str()) {
                    Some(n) => {
                        total = if total <= usize::MAX - n {
                            total + n
                        } else {
                            usize::MAX
                        };
                    },
                    None => {
                        assert(bpe_tokens(input@, context@.take(i + 1)) is None);
                        assert forall|k: int| i + 1 <= k <= context@.len() implies #[trigger] bpe_tokens(input@, context@.take(k)) is None by {
                            lemma_bpe_none_stays(input@, context@, i + 1, k);
                        }
                        assert(context@.take(context@.len() as int) =~= context@);
                        return None;
                    },
                }
            },
            None => {},
        }
        i += 1;
    }
    assert(context@.take(context@.len() as int) =~= context@);
    Some(total)
}

proof fn lemma_bpe_none_stays(input: Seq<char>, context: Seq<Message>, j: int, k: int)
    requires
        0 <= j <= k <= context.len(),
        bpe_tokens(input, context.take(j)) is None,
    ensures
        bpe_tokens(input, context.take(k)) is None,
    decreases k - j,
{
    if j < k {
        assert(context.take(j + 1).drop_last() =~= context.take(j));
        lemma_bpe_none_stays(input, context, j + 1, k);
    }
}

/// Estimate the tokens of the input and the context, four bytes to a token
/// (saturating at `usize::MAX`).
pub fn estimate_tokens(input: &str, context: &Vec<Message>) -> (n: usize)
    ensures
        n == capped(approx_tokens(input@) + context_tokens(context@)),
{
    let v = chars_of(input);
    let mut total: usize = byte_len_chars(v.as_slice()) / 4;
    let mut i: usize = 0;
    assert(context@.take(0) =~= Seq::<Message>::empty());
    while i < context.len()
        invariant
            i <= context@.len(),
            total == capped(approx_tokens(input@) + context_tokens(context@.take(i as int))),
        decreases context.len() - i,
    {
        assert(context@.take(i + 1).drop_last() =~= context@.take(i as int));
        match context[i].text() {
            Some(t) => {
                let tv = chars_of(t.as_str());
                let x = byte_len_chars(tv.as_slice()) / 4;
                total = if total > usize::MAX - x {
                    usize::MAX
                } else {
                    total + x
                };
            },
            None => {},
        }
        i += 1;
    }
    assert(context@.take(context@.len() as int) =~= context@);
    total
}

/// The texts of the messages with content, in order.
pub open spec fn texts_of(ms: Seq<Message>) -> Seq<Seq<char>>
    decreases ms.len(),
{
    if ms.len() == 0 {
        Seq::empty()
    } else if ms.last().content is Some {
        texts_of(ms.drop_last()).push(message_text(ms.last()))
    } else {
        texts_of(ms.drop_last())
    }
}

/// `ts` joined with line feeds.
pub open spec fn joined_lines(ts: Seq<Seq<char>>) -> Seq<char>
    decreases ts.len(),
{
    if ts.len() == 0 {
        Seq::empty()
    } else if ts.len() == 1 {
        ts[0]
    } else {
        joined_lines(ts.drop_last()) + "\n"@ + ts.last()
    }
}

/// The request to summarize messages `1..split` of a context; the detailed
/// form also asks to keep key details.
pub open spec fn summary_prompt_of(context: Seq<Message>, split: int, detailed: bool) -> Seq<char> {
    (if detailed {
        "Summarize the following conversation history concisely in under 200 words, preserving key details and context:\n\n"@
    } else {
        "Summarize the following conversation history concisely in under 200 words:\n\n"@
    }) + joined_lines(texts_of(context.subrange(1, split)))
}

/// Ask for a summary of messages `1..split` of a context.
pub fn summary_prompt(context: &Vec<Message>, split: usize, detailed: bool) -> (s: String)
    requires
        1 <= split <= context@.len(),
    ensures
        s@ == summary_prompt_of(context@, split as int, detailed),
{
    let mut s = if detailed {
        "Summarize the following conversation history concisely in under 200 words, preserving key details and context:\n\n".to_owned()
    } else {
        "Summarize the following conversation history concisely in under 200 words:\n\n".to_owned()
    };
    let ghost head = s@;
    let mut first = true;
    let mut i: usize = 1;
    assert(context@.subrange(1, 1) =~= Seq::<Message>::empty());
    while i < split
        invariant
            1 <= i <= split <= context@.len(),
            s@ == head + joined_lines(texts_of(context@.subrange(1, i as int))),
            first <==> texts_of(context@.subrange(1, i as int)).len() == 0,
        decreases split - i,
    {
        let ghost sub = context@.subrange(1, i + 1);
        let ghost prev = texts_of(context@.subrange(1, i as int));
        assert(sub.drop_last() =~= context@.subrange(1, i as int));
        assert(sub.last() == context@[i as int]);
        match context[i].text() {
            Some(t) => {
                let ghost next = prev.push(t@);
                assert(texts_of(sub) == next);
                assert(next.drop_last() =~= prev);
                if !first {
                    s.append("\n");
                    assert(joined_lines(next) == joined_lines(prev) + "\n"@ + t@);
                } else {
                    assert(joined_lines(next) == t@);
                }
                s.append(t.as_str());
                first = false;
            },
            None => {
                assert(texts_of(sub) == prev);
            },
        }
        i += 1;
        assert(s@ =~= head + joined_lines(texts_of(context@.subrange(1, i as int))));
    }
    s
}

/// A system message of one text part.
fn system_message(text: &str) -> (m: Message)
    ensures
        is_system_text(m, text@),
{
    Message::new("system", text)
}

/// The message standing for a summary of earlier messages.
pub fn summary_message(summary: &str) -> (m: Message)
    ensures
        is_system_text(m, "[Previous conversation summary: "@ + summary@ + "]"@),
{
    let mut t = "[Previous conversation summary: ".to_owned();
    t.append(summary);
    t.append("]");
    system_message(t.as_str())
}

/// The message standing for earlier messages that could not be summarized.
pub fn truncation_note() -> (m: Message)
    ensures
        is_system_text(m, "[Context Truncated: Old messages removed for brevity]"@),
{
    system_message("[Context Truncated: Old messages removed for brevity]")
}

/// The message standing for earlier messages being summarized in the background.
pub fn background_note() -> (m: Message)
    ensures
        is_system_text(
            m,
            "[System: Older conversation history is being summarized in background. Temporarily unavailable.]"@,
        ),
{
    system_message("[System: Older conversation history is being summarized in background. Temporarily unavailable.]")
}

/// Replace messages `1..split` of a context with `replacement`, keeping the
/// first message and the messages from `split` on.
pub fn compress_context(context: &mut Vec<Message>, split: usize, replacement: Message)
    requires
        1 <= split <= old(context)@.len(),
    ensures
        final(context)@ == seq![old(context)@[0], replacement] + old(context)@.subrange(
            split as int,
            old(context)@.len() as int,
        ),
{
    let ghost before = context@;
    let mut tail = context.split_off(split);
    context.truncate(1);
    context.push(replacement);
    context.append(&mut tail);
    assert(context@ =~= seq![before[0], replacement] + before.subrange(split as int, before.len() as int));
}

/// What a retrieved document's metadata says about it, as the semantic
/// cache reads it: its `source`, `type` and `response` when they are
/// strings.
pub struct CacheMetadata {
    pub source: Option<String>,
    pub cache_type: Option<String>,
    pub response: Option<String>,
}

/// The view of an optional string.
pub open spec fn opt_text(o: Option<String>) -> Option<Seq<char>> {
    match o {
        Some(s) => Some(s@),
        None => None,
    }
}

/// A document is a cached answer when the semantic cache wrote it, as a
/// question-answer pair of the current or the legacy type.
pub open spec fn is_cache_entry(m: CacheMetadata) -> bool {
    &&& opt_text(m.source) == Some("semantic_cache"@)
    &&& (opt_text(m.cache_type) == Some("qa_cache"@) || opt_text(m.cache_type) == Some("qa_pair"@))
}

/// Whether the metadata marks a cached answer.
pub fn is_semantic_cache_metadata(metadata: &CacheMetadata) -> (b: bool)
    ensures
        b == is_cache_entry(*metadata),
{
    let source_matches = match &metadata.source {
        Some(s) => str_eq(s.as_str(), "semantic_cache"),
        None => false,
    };
    let type_matches = match &metadata.cache_type {
        Some(t) => str_eq(t.as_str(), "qa_cache") || str_eq(t.as_str(), "qa_pair"),
        None => false,
    };
    source_matches && type_matches
}

/// The cached answer a retrieved document gives: none when its score is
/// below the threshold, when it is no cache entry, or when its response is
/// missing or blank.
pub open spec fn cached_response_of(m: CacheMetadata, reaches_threshold: bool) -> Option<Seq<char>> {
    if !reaches_threshold || !is_cache_entry(m) {
        None
    } else {
        match opt_text(m.response) {
            Some(r) => if trim(r).len() > 0 {
                Some(r)
            } else {
                None
            },
            None => None,
        }
    }
}

/// The cached answer of a retrieved document whose score does or does not
/// reach the cache threshold.
pub fn cached_response_from_metadata(metadata: &CacheMetadata, reaches_threshold: bool) -> (r: Option<String>)
    ensures
        opt_text(r) == cached_response_of(*metadata, reaches_threshold),
{
    if !reaches_threshold || !is_semantic_cache_metadata(metadata) {
        return None;
    }
    match &metadata.response {
        Some(resp) => {
            let v = chars_of(resp.as_str());
            let t = trim_chars(v.as_slice());
            if t.len() > 0 {
                Some(resp.clone())
            } else {
                None
            }
        },
        None => None,
    }
}

/// Whether `char::is_alphanumeric` holds: alphabetic or numeric in Unicode.
pub uninterp spec fn alphanumeric(c: char) -> bool;

/// Calls `char::is_alphanumeric`; the result is named by `alphanumeric`.
#[verifier::external_body]
fn is_alphanumeric_char(c: char) -> (r: bool)
    ensures
        r == alphanumeric(c),
{
    c.is_alphanumeric()
}

/// `w` without its leading characters that are not alphanumeric.
pub open spec fn strip_start(w: Seq<char>) -> Seq<char>
    decreases w.len(),
{
    if w.len() > 0 && !alphanumeric(w[0]) {
        strip_start(w.drop_first())
    } else {
        w
    }
}

/// `w` without its trailing characters that are not alphanumeric.
pub open spec fn strip_end(w: Seq<char>) -> Seq<char>
    decreases w.len(),
{
    if w.len() > 0 && !alphanumeric(w.last()) {
        strip_end(w.drop_last())
    } else {
        w
    }
}

/// The words of `ws` with non-alphanumeric ends removed, keeping those
/// longer than three bytes.
pub open spec fn keyword_candidates(ws: Seq<Seq<char>>) -> Seq<Seq<char>>
    decreases ws.len(),
{
    if ws.len() == 0 {
        Seq::empty()
    } else {
        let c = strip_end(strip_start(ws.last()));
        if byte_len(c) > 3 {
            keyword_candidates(ws.drop_last()).push(c)
        } else {
            keyword_candidates(ws.drop_last())
        }
    }
}

/// The keywords the retrieval looks up: the distinct candidates, at most
/// ten, in the order they first occur.
pub open spec fn keywords_of(input: Seq<char>) -> Seq<Seq<char>> {
    let d = crate::guard::distinct(keyword_candidates(crate::text::words(input)));
    if d.len() > 10 {
        d.take(10)
    } else {
        d
    }
}

proof fn lemma_strip_start(w: Seq<char>, i: int)
    requires
        0 <= i <= w.len(),
        forall|j: int| 0 <= j < i ==> !alphanumeric(#[trigger] w[j]),
        i < w.len() ==> alphanumeric(w[i]),
    ensures
        strip_start(w) == w.skip(i),
    decreases i,
{
    if i > 0 {
        let t = w.drop_first();
        assert forall|j: int| 0 <= j < i - 1 implies !alphanumeric(#[trigger] t[j]) by {
            assert(t[j] == w[j + 1]);
        }
        lemma_strip_start(t, i - 1);
        assert(t.skip(i - 1) =~= w.skip(i));
    } else {
        assert(w.skip(0) =~= w);
    }
}

proof fn lemma_strip_end(w: Seq<char>, k: int)
    requires
        0 <= k <= w.len(),
        forall|j: int| k <= j < w.len() ==> !alphanumeric(#[trigger] w[j]),
        k > 0 ==> alphanumeric(w[k - 1]),
    ensures
        strip_end(w) == w.take(k),
    decreases w.len() - k,
{
    if k < w.len() {
        let t = w.drop_last();
        assert forall|j: int| k <= j < t.len() implies !alphanumeric(#[trigger] t[j]) by {
            assert(t[j] == w[j]);
        }
        lemma_strip_end(t, k);
        assert(t.take(k) =~= w.take(k));
    } else {
        assert(w.take(k) =~= w);
    }
}

/// `w` without its non-alphanumeric ends (`str::trim_matches`).
fn strip_word(w: &Vec<char>) -> (r: Vec<char>)
    ensures
        r@ == strip_end(strip_start(w@)),
{
    let mut s: usize = 0;
    while s < w.len()
        invariant
            s <= w@.len(),
            forall|j: int| 0 <= j < s ==> !alphanumeric(#[trigger] w@[j]),
        ensures
            s <= w@.len(),
            forall|j: int| 0 <= j < s ==> !alphanumeric(#[trigger] w@[j]),
            s < w@.len() ==> alphanumeric(w@[s as int]),
        decreases w.len() - s,
    {
        if is_alphanumeric_char(w[s]) {
            break;
        }
        s += 1;
    }
    proof {
        lemma_strip_start(w@, s as int);
    }
    let ghost t = w@.skip(s as int);
    let mut e: usize = w.len();
    while e > s
        invariant
            s <= e <= w@.len(),
            forall|j: int| e <= j < w@.len() ==> !alphanumeric(#[trigger] w@[j]),
        ensures
            s <= e <= w@.len(),
            forall|j: int| e <= j < w@.len() ==> !alphanumeric(#[trigger] w@[j]),
            e > s ==> alphanumeric(w@[e - 1]),
        decreases e,
    {
        if is_alphanumeric_char(w[e - 1]) {
            break;
        }
        e -= 1;
    }
    proof {
        assert forall|j: int| e - s <= j < t.len() implies !alphanumeric(#[trigger] t[j]) by {
            assert(t[j] == w@[j + s]);
        }
        if e > s {
            assert(t[e - s - 1] == w@[e - 1]);
        }
        lemma_strip_end(t, e - s);
        assert(t.take(e - s) =~= w@.subrange(s as int, e as int));
    }
    let r = crate::logic::sub_vec(w, s, e);
    r
}

/// The keywords the retrieval looks up in the knowledge graph.
pub fn extract_keywords(input: &str) -> (r: Vec<String>)
    ensures
        r@.map_values(|k: String| k@) == keywords_of(input@),
{
    let v = chars_of(input);
    let ws = crate::text::split_whitespace_chars(v.as_slice());
    let ghost wv = ws@.map_values(|x: Vec<char>| x@);
    let mut out: Vec<Vec<char>> = Vec::new();
    let mut i: usize = 0;
    while i < ws.len()
        invariant
            i <= ws@.len(),
            wv == ws@.map_values(|x: Vec<char>| x@),
            wv == crate::text::words(input@),
            out@.map_values(|x: Vec<char>| x@) == crate::guard::distinct(keyword_candidates(wv.take(i as int))),
        decreases ws.len() - i,
    {
        assert(wv.take(i + 1).drop_last() =~= wv.take(i as int));
        assert(wv[i as int] == ws@[i as int]@);
        let c = strip_word(&ws[i]);
        assert(wv.take(i + 1).last() == wv[i as int]);
        let ghost cands = keyword_candidates(wv.take(i as int));
        let ghost cv = c@;
        if byte_len_chars(c.as_slice()) > 3 {
            assert(keyword_candidates(wv.take(i + 1)) == cands.push(cv));
            assert(cands.push(cv).drop_last() =~= cands);
            if !crate::guard::holds_word(&out, &c) {
                let ghost before = out@;
                out.push(c);
                assert(out@.map_values(|x: Vec<char>| x@) =~= before.map_values(|x: Vec<char>| x@).push(cv));
            }
        } else {
            assert(keyword_candidates(wv.take(i + 1)) == cands);
        }
        i += 1;
    }
    assert(wv.take(ws@.len() as int) =~= wv);
    let ghost d = out@.map_values(|x: Vec<char>| x@);
    let mut r: Vec<String> = Vec::new();
    let mut k: usize = 0;
    while k < out.len() && k < 10
        invariant
            k <= out@.len(),
            k <= 10,
            d == out@.map_values(|x: Vec<char>| x@),
            r@.map_values(|x: String| x@) == d.take(k as int),
        decreases out.len() - k,
    {
        let ghost before = r@.map_values(|x: String| x@);
        assert(d[k as int] == out@[k as int]@);
        let t = string_of(out[k].as_slice());
        assert(t@ == d[k as int]);
        r.push(t);
        assert(r@.map_values(|x: String| x@) =~= before.push(d[k as int]));
        assert(before.push(d[k as int]) =~= d.take(k + 1));
        k += 1;
    }
    assert(d.len() <= 10 ==> d.take(k as int) =~= d);
    r
}

} // verus!
