//! The computing side of the Ollama chat client: which model is used, the
//! endpoint, how messages are flattened into Ollama's message form, and how
//! the answer's text is read.
use vstd::prelude::*;
use vstd::string::StringExecFns;
use crate::optimizer::{split_chars, split_on};
use crate::text::{chars_of, string_of, str_eq};
use crate::types::{parts_text, ContentPart, Message, ToolCall};

verus! {

broadcast use vstd::string::group_string_axioms;

/// The model used when none is asked for and none is configured.
pub open spec fn default_ollama_model() -> Seq<char> {
    "qwen2.5:14b"@
}

/// The model a client uses: the requested one, unless it is empty or
/// "auto"; then the configured one, else the default.
pub open spec fn resolved_model(requested: Seq<char>, configured: Option<Seq<char>>) -> Seq<char> {
    if requested == "auto"@ || requested.len() == 0 {
        match configured {
            Some(m) => m,
            None => default_ollama_model(),
        }
    } else {
        requested
    }
}

/// Choose the model a client uses; `configured` is the `OLLAMA_MODEL` setting.
pub fn resolve_model(requested: &str, configured: Option<String>) -> (m: String)
    ensures
        m@ == resolved_model(
            requested@,
            match configured {
                Some(c) => Some(c@),
                None => None,
            },
        ),
{
    let v = chars_of(requested);
    if str_eq(requested, "auto") || v.len() == 0 {
        match configured {
            Some(c) => c,
            None => "qwen2.5:14b".to_owned(),
        }
    } else {
        string_of(v.as_slice())
    }
}

/// `s` without trailing `c`s (`str::trim_end_matches` with a character).
pub open spec fn trim_end_char(s: Seq<char>, c: char) -> Seq<char>
    decreases s.len(),
{
    if s.len() > 0 && s.last() == c {
        trim_end_char(s.drop_last(), c)
    } else {
        s
    }
}

/// The chat endpoint under a base URL.
pub open spec fn chat_url_of(base: Seq<char>) -> Seq<char> {
    trim_end_char(base, '/') + "/api/chat"@
}

proof fn lemma_trim_end_char(s: Seq<char>, c: char)
    ensures
        trim_end_char(s, c).len() <= s.len(),
        s.subrange(0, trim_end_char(s, c).len() as int) == trim_end_char(s, c),
        forall|j: int| trim_end_char(s, c).len() <= j < s.len() ==> s[j] == c,
        trim_end_char(s, c).len() == 0 || trim_end_char(s, c).last() != c,
    decreases s.len(),
{
    if s.len() > 0 && s.last() == c {
        lemma_trim_end_char(s.drop_last(), c);
        let r = trim_end_char(s.drop_last(), c);
        assert(s.subrange(0, r.len() as int) =~= s.drop_last().subrange(0, r.len() as int));
        assert forall|j: int| r.len() <= j < s.len() implies s[j] == c by {
            if j < s.len() - 1 {
                assert(s.drop_last()[j] == s[j]);
            }
        }
    } else {
        assert(s.subrange(0, s.len() as int) =~= s);
    }
}

/// The model a client uses is the requested one unless that is empty or
/// `auto`; then it is the configured one, or `qwen2.5:14b` when none is
/// configured. The chat endpoint is the base URL with its trailing slashes
/// dropped, followed by `/api/chat`: the base keeps everything but those
/// slashes, so no slash is doubled.
pub proof fn models_and_endpoints(requested: Seq<char>, configured: Option<Seq<char>>, base: Seq<char>)
    ensures
        requested != "auto"@ && requested.len() > 0 ==> resolved_model(requested, configured) == requested,
        (requested == "auto"@ || requested.len() == 0) && configured is Some ==> resolved_model(
            requested,
            configured,
        ) == configured->0,
        (requested == "auto"@ || requested.len() == 0) && configured is None ==> resolved_model(
            requested,
            configured,
        ) == "qwen2.5:14b"@,
        exists|n: int|
            0 <= n <= base.len() && chat_url_of(base) == base.subrange(0, n) + "/api/chat"@ && (n == 0
                || base[n - 1] != '/') && forall|j: int| n <= j < base.len() ==> #[trigger] base[j] == '/',
{
    lemma_trim_end_char(base, '/');
    let n = trim_end_char(base, '/').len() as int;
    if n > 0 {
        assert(base.subrange(0, n)[n - 1] == base[n - 1]);
    }
    assert(0 <= n <= base.len() && chat_url_of(base) == base.subrange(0, n) + "/api/chat"@ && (n == 0
        || base[n - 1] != '/') && forall|j: int| n <= j < base.len() ==> #[trigger] base[j] == '/');
}

/// The chat endpoint under `base_url`, without doubled slashes.
pub fn chat_url(base_url: &str) -> (u: String)
    ensures
        u@ == chat_url_of(base_url@),
{
    let v = chars_of(base_url);
    let mut end = v.len();
    assert(v@.take(end as int) =~= v@);
    while end > 0 && v[end - 1] == '/'
        invariant
            end <= v@.len(),
            trim_end_char(v@.take(end as int), '/') == trim_end_char(v@, '/'),
        decreases end,
    {
        assert(v@.take(end as int).drop_last() =~= v@.take(end - 1));
        end -= 1;
    }
    proof {
        assert(v@.take(v@.len() as int) =~= v@);
    }
    let mut u = crate::text::string_of_range(v.as_slice(), 0, end);
    assert(v@.subrange(0, end as int) =~= v@.take(end as int));
    u.append("/api/chat");
    u
}

/// A tool call as Ollama takes it; the arguments are still text, read as
/// JSON when the request is written.
pub struct OllamaToolCallParts {
    pub id: Option<String>,
    pub call_type: String,
    pub name: String,
    pub arguments: String,
}

/// A message as Ollama takes it: plain text, images as base64 payloads.
pub struct OllamaMessageParts {
    pub role: String,
    pub content: String,
    pub images: Option<Vec<String>>,
    pub tool_calls: Option<Vec<OllamaToolCallParts>>,
}

/// The base64 payloads of the image parts: the text between the first and
/// second comma of each data URL that has a comma.
pub open spec fn image_payloads(parts: Seq<ContentPart>) -> Seq<Seq<char>>
    decreases parts.len(),
{
    if parts.len() == 0 {
        Seq::empty()
    } else {
        let rest = image_payloads(parts.drop_last());
        match parts.last() {
            ContentPart::ImageUrl { image_url } => if split_on(image_url.url@, ',').len() > 1 {
                rest.push(split_on(image_url.url@, ',')[1])
            } else {
                rest
            },
            ContentPart::Text { .. } => rest,
        }
    }
}

/// A tool call as (id, type, name, arguments).
pub type ToolCallView = (Option<Seq<char>>, Seq<char>, Seq<char>, Seq<char>);

/// The view of a converted tool call.
pub open spec fn ollama_call_view(c: OllamaToolCallParts) -> ToolCallView {
    (
        match c.id {
            Some(i) => Some(i@),
            None => None,
        },
        c.call_type@,
        c.name@,
        c.arguments@,
    )
}

/// What a tool call of a message becomes.
pub open spec fn converted_call(t: ToolCall) -> ToolCallView {
    (Some(t.id@), t.call_type@, t.function.name@, t.function.arguments@)
}

/// Whether `o` is the Ollama form of `m`: its role, its text parts
/// concatenated, the payloads of its images (none if there are none), and
/// its tool calls (none if it has none).
pub open spec fn is_ollama_form(o: OllamaMessageParts, m: Message) -> bool {
    let parts = match m.content {
        Some(p) => p@,
        None => Seq::empty(),
    };
    &&& o.role@ == m.role@
    &&& o.content@ == parts_text(parts)
    &&& match o.images {
        Some(imgs) => image_payloads(parts).len() > 0 && imgs@.map_values(|s: String| s@) == image_payloads(parts),
        None => image_payloads(parts).len() == 0,
    }
    &&& match o.tool_calls {
        Some(calls) => m.tool_calls matches Some(tcs) && tcs@.len() > 0 && calls@.map_values(
            |c: OllamaToolCallParts| ollama_call_view(c),
        ) == tcs@.map_values(|t: ToolCall| converted_call(t)),
        None => m.tool_calls is None || (m.tool_calls matches Some(tcs) && tcs@.len() == 0),
    }
}

/// Copy a string.
fn copy_string(s: &String) -> (r: String)
    ensures
        r@ == s@,
{
    string_of(chars_of(s.as_str()).as_slice())
}

/// Flatten a message into Ollama's form.
pub fn to_ollama_message(m: &Message) -> (o: OllamaMessageParts)
    ensures
        is_ollama_form(o, *m),
{
    let mut content = String::new();
    let mut images: Vec<String> = Vec::new();
    match &m.content {
        Some(ps) => {
            let mut i: usize = 0;
            while i < ps.len()
                invariant
                    i <= ps@.len(),
                    content@ == parts_text(ps@.take(i as int)),
                    images@.map_values(|s: String| s@) == image_payloads(ps@.take(i as int)),
                decreases ps.len() - i,
            {
                assert(ps@.take(i + 1).drop_last() =~= ps@.take(i as int));
                match &ps[i] {
                    ContentPart::Text { text } => {
                        content.append(text.as_str());
                    },
                    ContentPart::ImageUrl { image_url } => {
                        let uv = chars_of(image_url.url.as_str());
                        let pieces = split_chars(&uv, ',');
                        if pieces.len() > 1 {
                            let ghost before = images@;
                            images.push(string_of(pieces[1].as_slice()));
                            assert(images@.map_values(|s: String| s@) =~= before.map_values(|s: String| s@).push(
                                pieces@[1]@,
                            ));
                        }
                    },
                }
                i += 1;
            }
            assert(ps@.take(ps@.len() as int) =~= ps@);
        },
        None => {
            assert(images@.map_values(|s: String| s@) =~= Seq::<Seq<char>>::empty());
        },
    }
    let tool_calls = match &m.tool_calls {
        Some(tcs) => {
            if tcs.len() == 0 {
                None
            } else {
                let mut calls: Vec<OllamaToolCallParts> = Vec::new();
                let mut k: usize = 0;
                while k < tcs.len()
                    invariant
                        k <= tcs@.len(),
                        calls@.map_values(|c: OllamaToolCallParts| ollama_call_view(c)) == tcs@.take(
                            k as int,
                        ).map_values(|t: ToolCall| converted_call(t)),
                    decreases tcs.len() - k,
                {
                    let t = &tcs[k];
                    let ghost before = calls@;
                    calls.push(
                        OllamaToolCallParts {
                            id: Some(copy_string(&t.id)),
                            call_type: copy_string(&t.call_type),
                            name: copy_string(&t.function.name),
                            arguments: copy_string(&t.function.arguments),
                        },
                    );
                    assert(calls@.map_values(|c: OllamaToolCallParts| ollama_call_view(c)) =~= before.map_values(
                        |c: OllamaToolCallParts| ollama_call_view(c),
                    ).push(converted_call(tcs@[k as int])));
                    assert(tcs@.take(k + 1).map_values(|t: ToolCall| converted_call(t)) =~= tcs@.take(
                        k as int,
                    ).map_values(|t: ToolCall| converted_call(t)).push(converted_call(tcs@[k as int])));
                    k += 1;
                }
                assert(tcs@.take(tcs@.len() as int) =~= tcs@);
                Some(calls)
            }
        },
        None => None,
    };
    let images = if images.len() == 0 {
        None
    } else {
        Some(images)
    };
    OllamaMessageParts { role: copy_string(&m.role), content, images, tool_calls }
}

/// Flatten messages into Ollama's form, in order.
pub fn to_ollama_messages(messages: &Vec<Message>) -> (r: Vec<OllamaMessageParts>)
    ensures
        r@.len() == messages@.len(),
        forall|i: int| 0 <= i < messages@.len() ==> is_ollama_form(#[trigger] r@[i], messages@[i]),
{
    let mut r: Vec<OllamaMessageParts> = Vec::new();
    let mut i: usize = 0;
    while i < messages.len()
        invariant
            i <= messages@.len(),
            r@.len() == i,
            forall|j: int| 0 <= j < i ==> is_ollama_form(#[trigger] r@[j], messages@[j]),
        decreases messages.len() - i,
    {
        r.push(to_ollama_message(&messages[i]));
        i += 1;
    }
    r
}

/// The text of the first text part of a message, if it has one.
pub open spec fn first_text(parts: Seq<ContentPart>) -> Option<Seq<char>>
    decreases parts.len(),
{
    if parts.len() == 0 {
        None
    } else {
        match parts[0] {
            ContentPart::Text { text } => Some(text@),
            ContentPart::ImageUrl { .. } => first_text(parts.drop_first()),
        }
    }
}

/// The answer text of a reply: its first text part, or nothing.
pub open spec fn reply_text_of(m: Message) -> Seq<char> {
    match m.content {
        Some(p) => match first_text(p@) {
            Some(t) => t,
            None => Seq::empty(),
        },
        None => Seq::empty(),
    }
}

/// Read the answer text of a reply.
pub fn reply_text(m: &Message) -> (t: String)
    ensures
        t@ == reply_text_of(*m),
{
    match &m.content {
        Some(ps) => {
            let mut i: usize = 0;
            assert(ps@.skip(0) =~= ps@);
            while i < ps.len()
                invariant
                    i <= ps@.len(),
                    m.content is Some && m.content->0@ == ps@,
                    first_text(ps@) == first_text(ps@.skip(i as int)),
                decreases ps.len() - i,
            {
                assert(ps@.skip(i as int)[0] == ps@[i as int]);
                assert(ps@.skip(i as int).drop_first() =~= ps@.skip(i + 1));
                match &ps[i] {
                    ContentPart::Text { text } => {
                        assert(first_text(ps@.skip(i as int)) == Some(text@));
                        return copy_string(text);
                    },
                    ContentPart::ImageUrl { .. } => {},
                }
                i += 1;
            }
            assert(ps@.skip(i as int).len() == 0);
            String::new()
        },
        None => String::new(),
    }
}

} // verus!
