//! Conversation messages exchanged with language models.
use vstd::prelude::*;
use vstd::string::{StrSliceExecFns, StringExecFns};

verus! {

/// An image referenced by URL (possibly a `data:` URL).
#[derive(Clone, Debug)]
pub struct ImageUrl {
    pub url: String,
}

/// One part of a message's content.
#[derive(Clone, Debug)]
pub enum ContentPart {
    Text { text: String },
    ImageUrl { image_url: ImageUrl },
}

/// The function named by a tool call, with its JSON-encoded arguments.
#[derive(Clone, Debug)]
pub struct FunctionCall {
    pub name: String,
    pub arguments: String,
}

/// A tool call requested by the model.
#[derive(Clone, Debug)]
pub struct ToolCall {
    pub id: String,
    pub call_type: String,
    pub function: FunctionCall,
}

/// A chat message.
#[derive(Clone, Debug)]
pub struct Message {
    pub role: String,
    pub content: Option<Vec<ContentPart>>,
    pub tool_calls: Option<Vec<ToolCall>>,
    pub tool_call_id: Option<String>,
}

/// The text of one content part: its text, or nothing for an image.
pub open spec fn part_text(p: ContentPart) -> Seq<char> {
    match p {
        ContentPart::Text { text } => text@,
        ContentPart::ImageUrl { .. } => Seq::empty(),
    }
}

/// The text parts of `parts`, concatenated in order.
pub open spec fn parts_text(parts: Seq<ContentPart>) -> Seq<char>
    decreases parts.len(),
{
    if parts.len() == 0 {
        Seq::empty()
    } else {
        parts_text(parts.drop_last()) + part_text(parts.last())
    }
}

/// The text of a message: its text parts concatenated, or nothing without content.
pub open spec fn message_text(m: Message) -> Seq<char> {
    match m.content {
        Some(parts) => parts_text(parts@),
        None => Seq::empty(),
    }
}

/// Whether `m` holds exactly one content part, a text part reading `text`.
pub open spec fn is_single_text(m: Message, text: Seq<char>) -> bool {
    match m.content {
        Some(parts) => parts@.len() == 1 && part_text(parts@[0]) == text && parts@[0] is Text,
        None => false,
    }
}

impl Message {
    /// A message of one text part.
    pub fn new(role: &str, text: &str) -> (m: Message)
        ensures
            m.role@ == role@,
            is_single_text(m, text@),
            m.tool_calls is None,
            m.tool_call_id is None,
    {
        let mut parts: Vec<ContentPart> = Vec::new();
        parts.push(ContentPart::Text { text: text.to_owned() });
        Message { role: role.to_owned(), content: Some(parts), tool_calls: None, tool_call_id: None }
    }

    /// The text of this message, if it has content: its text parts concatenated.
    pub fn text(&self) -> (r: Option<String>)
        ensures
            self.content is None ==> r is None,
            self.content is Some ==> (r matches Some(t) && t@ == message_text(*self)),
    {
        match &self.content {
            Some(_) => Some(crate::context::get_message_text(self)),
            None => None,
        }
    }

    /// A tool's answer to the call `tool_call_id`: a `tool` message of one text part.
    pub fn new_tool_response(tool_call_id: &str, text: &str) -> (m: Message)
        ensures
            m.role@ == "tool"@,
            is_single_text(m, text@),
            m.tool_calls is None,
            m.tool_call_id matches Some(id) && id@ == tool_call_id@,
    {
        let mut m = Message::new("tool", text);
        m.tool_call_id = Some(tool_call_id.to_owned());
        m
    }

    /// A user message of one text part.
    pub fn user(text: &str) -> (m: Message)
        ensures
            m.role@ == "user"@,
            is_single_text(m, text@),
            m.tool_calls is None,
            m.tool_call_id is None,
    {
        Message::new("user", text)
    }
}

/// Clones a string; the copy has the same characters.
pub fn clone_string(s: &String) -> (r: String)
    ensures
        r@ == s@,
{
    s.clone()
}

/// Message content as the OpenAI-compatible wire format carries it.
pub enum WireContent<'a> {
    /// All parts were text: their concatenation, as a plain string.
    Text(String),
    /// Mixed parts, sent as an array of typed parts.
    Parts(&'a [ContentPart]),
}

/// Every part is a text part.
pub open spec fn all_text(parts: Seq<ContentPart>) -> bool {
    forall|i: int| 0 <= i < parts.len() ==> (#[trigger] parts[i]) is Text
}

/// What the wire format sends as the content of a message with `content`:
/// nothing for no or empty content; the joined text when every part is text
/// (nothing when that text is empty); else the parts themselves.
pub open spec fn wire_content_matches(content: Option<Vec<ContentPart>>, r: Option<WireContent>) -> bool {
    match content {
        None => r is None,
        Some(parts) => if parts@.len() == 0 {
            r is None
        } else if all_text(parts@) {
            if parts_text(parts@).len() == 0 {
                r is None
            } else {
                r matches Some(WireContent::Text(t)) && t@ == parts_text(parts@)
            }
        } else {
            r matches Some(WireContent::Parts(ps)) && ps@ == parts@
        },
    }
}

/// A message in the OpenAI-compatible wire format.
pub struct WireMessage<'a> {
    pub role: &'a str,
    pub content: Option<WireContent<'a>>,
    pub tool_calls: &'a Option<Vec<ToolCall>>,
    pub tool_call_id: &'a Option<String>,
}

/// The wire content of a message's content.
pub fn wire_content<'a>(content: &'a Option<Vec<ContentPart>>) -> (r: Option<WireContent<'a>>)
    ensures
        wire_content_matches(*content, r),
{
    match content {
        None => None,
        Some(parts) => {
            if parts.len() == 0 {
                return None;
            }
            let mut joined = String::new();
            let mut i: usize = 0;
            while i < parts.len()
                invariant
                    i <= parts@.len(),
                    *content == Some(*parts),
                    parts@.len() > 0,
                    joined@ == parts_text(parts@.take(i as int)),
                    forall|j: int| 0 <= j < i ==> (#[trigger] parts@[j]) is Text,
                decreases parts.len() - i,
            {
                assert(parts@.take(i + 1).drop_last() =~= parts@.take(i as int));
                match &parts[i] {
                    ContentPart::Text { text } => {
                        joined.append(text.as_str());
                    },
                    ContentPart::ImageUrl { .. } => {
                        assert(!(parts@[i as int] is Text));
                        assert(!all_text(parts@));
                        return Some(WireContent::Parts(parts.as_slice()));
                    },
                }
                i += 1;
            }
            assert(parts@.take(parts@.len() as int) =~= parts@);
            if joined.as_str().unicode_len() == 0 {
                None
            } else {
                Some(WireContent::Text(joined))
            }
        },
    }
}

/// The messages in the OpenAI-compatible wire format, in order.
pub fn to_wire_messages<'a>(messages: &'a [Message]) -> (r: Vec<WireMessage<'a>>)
    ensures
        r@.len() == messages@.len(),
        forall|i: int|
            0 <= i < messages@.len() ==> {
                &&& (#[trigger] r@[i]).role@ == messages@[i].role@
                &&& wire_content_matches(messages@[i].content, r@[i].content)
                &&& *r@[i].tool_calls == messages@[i].tool_calls
                &&& *r@[i].tool_call_id == messages@[i].tool_call_id
            },
{
    let mut out: Vec<WireMessage<'a>> = Vec::new();
    let mut i: usize = 0;
    while i < messages.len()
        invariant
            i <= messages@.len(),
            out@.len() == i,
            forall|j: int|
                0 <= j < i ==> {
                    &&& (#[trigger] out@[j]).role@ == messages@[j].role@
                    &&& wire_content_matches(messages@[j].content, out@[j].content)
                    &&& *out@[j].tool_calls == messages@[j].tool_calls
                    &&& *out@[j].tool_call_id == messages@[j].tool_call_id
                },
        decreases messages.len() - i,
    {
        let m = &messages[i];
        out.push(WireMessage {
            role: m.role.as_str(),
            content: wire_content(&m.content),
            tool_calls: &m.tool_calls,
            tool_call_id: &m.tool_call_id,
        });
        i += 1;
    }
    out
}

} // verus!
