//! Context-aware analysis of a conversation: topic, confirmation and repetition detection.
use vstd::prelude::*;
use vstd::string::StringExecFns;
use crate::text::{lowercase, occurs_at, seq_contains, str_contains, str_eq, to_lower, chars_eq, chars_of};
use crate::types::{ContentPart, Message, message_text, parts_text, part_text};

verus! {

broadcast use vstd::string::group_string_axioms;

/// Context information extracted from conversation history.
#[derive(Debug)]
pub struct ContextInfo {
    pub last_role: String,
    pub turn_count: usize,
    pub expecting_confirmation: bool,
    pub topic: Option<String>,
    pub is_repeating: bool,
}

impl Default for ContextInfo {
    fn default() -> (r: Self)
        ensures
            r.last_role@ == Seq::<char>::empty(),
            r.turn_count == 0,
            !r.expecting_confirmation,
            r.topic is None,
            !r.is_repeating,
    {
        ContextInfo {
            last_role: String::new(),
            turn_count: 0,
            expecting_confirmation: false,
            topic: None,
            is_repeating: false,
        }
    }
}

/// Context handler for analyzing conversation context.
pub struct ContextHandler;

/// The view of an optional string.
pub open spec fn opt_view(o: Option<String>) -> Option<Seq<char>> {
    match o {
        Some(s) => Some(s@),
        None => None,
    }
}

/// Whether a (lowercased) last message reads as a question awaiting confirmation.
pub open spec fn expects_confirmation(lc: Seq<char>) -> bool {
    seq_contains(lc, "?"@) || seq_contains(lc, "confirm"@) || seq_contains(lc, "sure"@)
        || seq_contains(lc, "ok"@)
}

/// The topic of a (lowercased) last message.
pub open spec fn detected_topic(lc: Seq<char>) -> Option<Seq<char>> {
    if seq_contains(lc, "code"@) || seq_contains(lc, "function"@) {
        Some("coding"@)
    } else if seq_contains(lc, "search"@) || seq_contains(lc, "find"@) {
        Some("search"@)
    } else {
        None
    }
}

/// The topic of a lowercased message: coding when it mentions `code` or
/// `function`; otherwise search when `search` or `find` occurs in it (at
/// position `i`, say); otherwise none.
pub proof fn topics_follow_their_keywords(lc: Seq<char>, i: int)
    ensures
        seq_contains(lc, "code"@) ==> detected_topic(lc) == Some("coding"@),
        seq_contains(lc, "function"@) ==> detected_topic(lc) == Some("coding"@),
        !seq_contains(lc, "code"@) && !seq_contains(lc, "function"@) && 0 <= i && i + 4
            <= lc.len() && lc.subrange(i, i + 4) == "find"@ ==> detected_topic(lc) == Some(
            "search"@,
        ),
        !seq_contains(lc, "code"@) && !seq_contains(lc, "function"@) && 0 <= i && i + 6
            <= lc.len() && lc.subrange(i, i + 6) == "search"@ ==> detected_topic(lc) == Some(
            "search"@,
        ),
        !seq_contains(lc, "code"@) && !seq_contains(lc, "function"@) && !seq_contains(
            lc,
            "search"@,
        ) && !seq_contains(lc, "find"@) ==> detected_topic(lc) is None,
{
    reveal_strlit("find");
    reveal_strlit("search");
    if 0 <= i && i + 4 <= lc.len() && lc.subrange(i, i + 4) == "find"@ {
        assert(occurs_at(lc, "find"@, i));
    }
    if 0 <= i && i + 6 <= lc.len() && lc.subrange(i, i + 6) == "search"@ {
        assert(occurs_at(lc, "search"@, i));
    }
}

/// Index of the last message before `end` whose role is `user`.
pub open spec fn last_user_before(ctx: Seq<Message>, end: int) -> Option<int>
    decreases end,
{
    if end <= 0 {
        None
    } else if ctx[end - 1].role@ == "user"@ {
        Some(end - 1)
    } else {
        last_user_before(ctx, end - 1)
    }
}

/// Whether the last two user messages have the same lowercased text.
pub open spec fn user_repeats(ctx: Seq<Message>) -> bool {
    match last_user_before(ctx, ctx.len() as int) {
        Some(j) => match last_user_before(ctx, j) {
            Some(i) => lowercase(message_text(ctx[j])) == lowercase(message_text(ctx[i])),
            None => false,
        },
        None => false,
    }
}

proof fn lemma_last_user_before(ctx: Seq<Message>, end: int)
    requires
        0 <= end <= ctx.len(),
    ensures
        match last_user_before(ctx, end) {
            Some(j) => 0 <= j < end && ctx[j].role@ == "user"@ && forall|k: int|
                j < k < end ==> ctx[k].role@ != "user"@,
            None => forall|k: int| 0 <= k < end ==> ctx[k].role@ != "user"@,
        },
    decreases end,
{
    if end > 0 {
        lemma_last_user_before(ctx, end - 1);
    }
}

/// Text of a message: its text parts concatenated.
pub(crate) fn get_message_text(msg: &Message) -> (r: String)
    ensures
        r@ == message_text(*msg),
{
    match &msg.content {
        Some(parts) => {
            let mut out = String::new();
            let mut i: usize = 0;
            while i < parts.len()
                invariant
                    i <= parts@.len(),
                    out@ == parts_text(parts@.take(i as int)),
                decreases parts.len() - i,
            {
                assert(parts@.take(i + 1).drop_last() =~= parts@.take(i as int));
                match &parts[i] {
                    ContentPart::Text { text } => {
                        out.append(text.as_str());
                    },
                    ContentPart::ImageUrl { .. } => {},
                }
                i += 1;
            }
            assert(parts@.take(parts@.len() as int) =~= parts@);
            out
        },
        None => String::new(),
    }
}

impl ContextHandler {
    /// Analyze conversation context to enhance matching.
    pub fn analyze_context(context: &[Message]) -> (info: ContextInfo)
        ensures
            info.turn_count == context@.len(),
            context@.len() == 0 ==> info.last_role@ == Seq::<char>::empty()
                && !info.expecting_confirmation && info.topic is None,
            context@.len() > 0 ==> {
                let lc = lowercase(message_text(context@.last()));
                &&& info.last_role@ == context@.last().role@
                &&& info.expecting_confirmation == expects_confirmation(lc)
                &&& opt_view(info.topic) == detected_topic(lc)
            },
            info.is_repeating == user_repeats(context@),
    {
        let mut info = ContextInfo::default();
        if context.len() == 0 {
            proof {
                assert(last_user_before(context@, 0) is None);
            }
            return info;
        }
        let last = &context[context.len() - 1];
        info.last_role = last.role.clone();
        let text = get_message_text(last);
        let lc = to_lower(text.as_str());
        let lcs = lc.as_str();
        if str_contains(lcs, "?") || str_contains(lcs, "confirm") || str_contains(lcs, "sure")
            || str_contains(lcs, "ok") {
            info.expecting_confirmation = true;
        }
        if str_contains(lcs, "code") || str_contains(lcs, "function") {
            info.topic = Some("coding".to_owned());
        } else if str_contains(lcs, "search") || str_contains(lcs, "find") {
            info.topic = Some("search".to_owned());
        }
        info.turn_count = context.len();

        // Find the last two user messages, scanning backwards.
        let mut j: usize = context.len();
        while j > 0 && !str_eq(context[j - 1].role.as_str(), "user")
            invariant
                j <= context@.len(),
                last_user_before(context@, context@.len() as int) == last_user_before(context@, j as int),
            decreases j,
        {
            j -= 1;
        }
        if j > 0 {
            let jj = j - 1;
            let mut i: usize = jj;
            while i > 0 && !str_eq(context[i - 1].role.as_str(), "user")
                invariant
                    i <= jj,
                    jj < context@.len(),
                    last_user_before(context@, jj as int) == last_user_before(context@, i as int),
                decreases i,
            {
                i -= 1;
            }
            if i > 0 {
                let a = get_message_text(&context[jj]);
                let b = get_message_text(&context[i - 1]);
                let la = to_lower(a.as_str());
                let lb = to_lower(b.as_str());
                let av = chars_of(la.as_str());
                let bv = chars_of(lb.as_str());
                if chars_eq(av.as_slice(), bv.as_slice()) {
                    info.is_repeating = true;
                }
            }
        }
        info
    }

    /// Get contextual response modifier.
    pub fn get_context_modifier(info: &ContextInfo) -> (r: Option<String>)
        ensures
            info.is_repeating ==> opt_view(r) == Some("I notice you've asked this before. "@),
            !info.is_repeating && info.turn_count > 10 ==> opt_view(r) == Some(
                "We've been chatting for a while! "@,
            ),
            !info.is_repeating && info.turn_count <= 10 ==> r is None,
    {
        if info.is_repeating {
            Some("I notice you've asked this before. ".to_owned())
        } else if info.turn_count > 10 {
            Some("We've been chatting for a while! ".to_owned())
        } else {
            None
        }
    }
}

} // verus!
