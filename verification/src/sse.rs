//! Framing of a server-sent event stream: bytes are collected until a blank
//! line ends an event, and the `data:` payloads of each event are read.
use vstd::prelude::*;
use vstd::utf8::{decode_utf8, valid_utf8};
use crate::optimizer::{split_chars, split_on};
use crate::text::{chars_of, is_prefix, starts_with_chars, string_of_range, trim, trim_chars};

verus! {

broadcast use vstd::string::group_string_axioms;

/// Whether a blank line ("\n\n") starts at position `p` of `b`.
pub open spec fn blank_line_at(b: Seq<u8>, p: int) -> bool {
    0 <= p && p + 1 < b.len() && b[p] == 10u8 && b[p + 1] == 10u8
}

/// The position of the first blank line in `b`, if any.
pub open spec fn first_blank_line(b: Seq<u8>) -> Option<int> {
    if exists|p: int| blank_line_at(b, p) {
        Some(choose|p: int| blank_line_at(b, p) && forall|q: int| 0 <= q < p ==> !blank_line_at(b, q))
    } else {
        None
    }
}

proof fn lemma_first_blank_line(b: Seq<u8>, p: int)
    requires
        blank_line_at(b, p),
        forall|q: int| 0 <= q < p ==> !blank_line_at(b, q),
    ensures
        first_blank_line(b) == Some(p),
{
    let w = choose|r: int| blank_line_at(b, r) && forall|q: int| 0 <= q < r ==> !blank_line_at(b, q);
    assert(blank_line_at(b, w) && forall|q: int| 0 <= q < w ==> !blank_line_at(b, q));
    if w < p {
        assert(!blank_line_at(b, w));
    } else if w > p {
        assert(!blank_line_at(b, p));
    }
}

proof fn lemma_least_blank_line(b: Seq<u8>, p: int)
    requires
        blank_line_at(b, p),
    ensures
        exists|r: int| blank_line_at(b, r) && forall|q: int| 0 <= q < r ==> !blank_line_at(b, q),
    decreases p,
{
    if exists|q: int| 0 <= q < p && blank_line_at(b, q) {
        let q = choose|q: int| 0 <= q < p && blank_line_at(b, q);
        lemma_least_blank_line(b, q);
    } else {
        assert(blank_line_at(b, p) && forall|q: int| 0 <= q < p ==> !blank_line_at(b, q));
    }
}

/// Framing loses and invents no bytes: when the buffered bytes hold a blank
/// line, the event taken (everything up to and including the first blank
/// line) followed by the bytes left is exactly what was buffered; the event
/// ends with the blank line, and no blank line starts earlier. Bytes
/// with no blank line hold no event.
pub proof fn events_split_the_stream(b: Seq<u8>)
    ensures
        first_blank_line(b) matches Some(p) ==> {
            &&& 0 <= p && p + 2 <= b.len()
            &&& b.take(p + 2) + b.skip(p + 2) == b
            &&& b.take(p + 2)[p] == 10u8 && b.take(p + 2)[p + 1] == 10u8
            &&& forall|q: int| 0 <= q < p ==> !blank_line_at(b, q)
        },
        (forall|q: int| 0 <= q + 1 < b.len() ==> !(#[trigger] b[q] == 10u8 && b[q + 1] == 10u8))
            ==> first_blank_line(b) is None,
{
    if exists|p: int| blank_line_at(b, p) {
        let p0 = choose|p: int| blank_line_at(b, p);
        lemma_least_blank_line(b, p0);
    }
    if let Some(p) = first_blank_line(b) {
        assert(b.take(p + 2) + b.skip(p + 2) =~= b);
    }
    if forall|q: int| 0 <= q + 1 < b.len() ==> !(#[trigger] b[q] == 10u8 && b[q + 1] == 10u8) {
        assert forall|q: int| !blank_line_at(b, q) by {
            if 0 <= q && q + 1 < b.len() {
                assert(!(b[q] == 10u8 && b[q + 1] == 10u8));
            }
        }
    }
}

/// The bytes of a stream not yet framed into events.
pub struct SseBuffer {
    buffer: Vec<u8>,
}

impl View for SseBuffer {
    type V = Seq<u8>;

    closed spec fn view(&self) -> Seq<u8> {
        self.buffer@
    }
}

impl SseBuffer {
    /// An empty buffer.
    pub fn new() -> (b: SseBuffer)
        ensures
            b@ == Seq::<u8>::empty(),
    {
        SseBuffer { buffer: Vec::new() }
    }

    /// Add bytes received from the stream.
    pub fn push(&mut self, chunk: &[u8])
        ensures
            final(self)@ == old(self)@ + chunk@,
    {
        let mut i: usize = 0;
        let ghost start = self.buffer@;
        while i < chunk.len()
            invariant
                i <= chunk@.len(),
                self.buffer@ == start + chunk@.take(i as int),
            decreases chunk.len() - i,
        {
            self.buffer.push(chunk[i]);
            i += 1;
            assert(self.buffer@ =~= start + chunk@.take(i as int));
        }
        assert(chunk@.take(chunk@.len() as int) =~= chunk@);
    }

    /// Take the next complete event, up to and including the blank line
    /// that ends it, if the buffer holds one.
    pub fn next_event(&mut self) -> (r: Option<Vec<u8>>)
        ensures
            match first_blank_line(old(self)@) {
                Some(p) => r matches Some(e) && e@ == old(self)@.take(p + 2) && final(self)@ == old(self)@.skip(p + 2),
                None => r is None && final(self)@ == old(self)@,
            },
    {
        let ghost b = self.buffer@;
        let mut p: usize = 0;
        while self.buffer.len() - p > 1
            invariant
                b == self.buffer@,
                b == old(self)@,
                p <= b.len(),
                forall|q: int| 0 <= q < p ==> !blank_line_at(b, q),
            decreases b.len() - p,
        {
            if self.buffer[p] == 10u8 && self.buffer[p + 1] == 10u8 {
                proof {
                    lemma_first_blank_line(b, p as int);
                }
                let mut event = self.buffer.split_off(p + 2);
                std::mem::swap(&mut event, &mut self.buffer);
                assert(event@ =~= b.take(p + 2));
                assert(self.buffer@ =~= b.skip(p + 2));
                return Some(event);
            }
            p += 1;
        }
        proof {
            assert forall|q: int| !blank_line_at(b, q) by {
                if 0 <= q < p {
                } else if q >= p {
                    assert(!(q + 1 < b.len()));
                }
            }
        }
        None
    }
}

/// Calls `String::from_utf8` (and `Result::ok`): the text of the bytes if
/// they are valid UTF-8.
#[verifier::external_body]
fn utf8_string(bytes: Vec<u8>) -> (r: Option<String>)
    ensures
        r is Some <==> valid_utf8(bytes@),
        r matches Some(s) ==> s@ == decode_utf8(bytes@),
{
    String::from_utf8(bytes).ok()
}

/// The text of an event, if its bytes are valid UTF-8.
pub fn event_text(event: Vec<u8>) -> (r: Option<String>)
    ensures
        r is Some <==> valid_utf8(event@),
        r matches Some(s) ==> s@ == decode_utf8(event@),
{
    utf8_string(event)
}

/// The payloads of the `data: ` lines among `lines` (each trimmed), up to a
/// `[DONE]` payload, which ends them.
pub open spec fn data_payloads(lines: Seq<Seq<char>>) -> Seq<Seq<char>>
    decreases lines.len(),
{
    if lines.len() == 0 {
        Seq::empty()
    } else {
        let t = trim(lines[0]);
        if is_prefix("data: "@, t) {
            let d = t.skip(6);
            if d == "[DONE]"@ {
                Seq::empty()
            } else {
                seq![d] + data_payloads(lines.drop_first())
            }
        } else {
            data_payloads(lines.drop_first())
        }
    }
}

/// The payloads of the `data: ` lines of an event's text, in order, up to
/// `[DONE]`. (Lines are cut at line feeds; the trimming removes the carriage
/// return of a CRLF line end.)
pub fn event_data(event: &str) -> (r: Vec<String>)
    ensures
        r@.map_values(|s: String| s@) == data_payloads(split_on(event@, '\n')),
{
    let v = chars_of(event);
    let lines = split_chars(&v, '\n');
    let ghost lv = lines@.map_values(|w: Vec<char>| w@);
    let prefix = chars_of("data: ");
    let done = chars_of("[DONE]");
    proof {
        reveal_strlit("data: ");
    }
    let mut out: Vec<String> = Vec::new();
    let mut i: usize = 0;
    assert(lv.skip(0) =~= lv);
    while i < lines.len()
        invariant
            i <= lines@.len(),
            lv == lines@.map_values(|w: Vec<char>| w@),
            lv == split_on(event@, '\n'),
            prefix@ == "data: "@,
            prefix@.len() == 6,
            done@ == "[DONE]"@,
            out@.map_values(|s: String| s@) + data_payloads(lv.skip(i as int)) == data_payloads(lv),
        decreases lines.len() - i,
    {
        assert(lv.skip(i as int)[0] == lv[i as int]);
        assert(lv.skip(i as int).drop_first() =~= lv.skip(i + 1));
        assert(lv[i as int] == lines@[i as int]@);
        let t = trim_chars(lines[i].as_slice());
        if starts_with_chars(t.as_slice(), prefix.as_slice()) {
            let d = string_of_range(t.as_slice(), 6, t.len());
            assert(d@ =~= t@.skip(6));
            let dv = chars_of(d.as_str());
            if crate::text::chars_eq(dv.as_slice(), done.as_slice()) {
                assert(data_payloads(lv.skip(i as int)) == Seq::<Seq<char>>::empty());
                assert(out@.map_values(|s: String| s@) =~= data_payloads(lv));
                return out;
            }
            let ghost before = out@;
            out.push(d);
            assert(out@.map_values(|s: String| s@) =~= before.map_values(|s: String| s@).push(t@.skip(6)));
        }
        i += 1;
    }
    assert(lv.skip(i as int) =~= Seq::<Seq<char>>::empty());
    assert(out@.map_values(|s: String| s@) =~= data_payloads(lv));
    out
}

} // verus!
