//! Multi-agent collaboration: agent roles, collaboration protocols, message
//! types, and the extraction of JSON payloads from agent replies.
use vstd::prelude::*;
use vstd::string::StrSliceExecFns;
use crate::text::chars_of;

verus! {

broadcast use vstd::string::group_string_axioms;

/// Role of an agent in the collaboration.
#[derive(Clone, Debug, PartialEq, Eq, Hash, Structural)]
pub enum AgentRole {
    /// Coordinator - orchestrates the overall task.
    Coordinator,
    /// Specialist - domain expert for specific tasks.
    Specialist,
    /// Critic - reviews and provides feedback.
    Critic,
    /// Integrator - combines results from multiple agents.
    Integrator,
    /// Monitor - observes and reports progress.
    Monitor,
}

/// The display name of a role.
pub open spec fn role_name(r: AgentRole) -> Seq<char> {
    match r {
        AgentRole::Coordinator => "Coordinator"@,
        AgentRole::Specialist => "Specialist"@,
        AgentRole::Critic => "Critic"@,
        AgentRole::Integrator => "Integrator"@,
        AgentRole::Monitor => "Monitor"@,
    }
}

impl AgentRole {
    /// The display name of this role.
    pub fn to_string(&self) -> (s: String)
        ensures
            s@ == role_name(*self),
    {
        match self {
            AgentRole::Coordinator => "Coordinator".to_owned(),
            AgentRole::Specialist => "Specialist".to_owned(),
            AgentRole::Critic => "Critic".to_owned(),
            AgentRole::Integrator => "Integrator".to_owned(),
            AgentRole::Monitor => "Monitor".to_owned(),
        }
    }
}

/// Collaboration protocol between agents.
#[derive(Clone, Debug, PartialEq, Eq, Structural)]
pub enum CollaborationProtocol {
    /// Master-slave: One agent directs others.
    MasterSlave,
    /// Peer-to-peer: Equal agents collaborate.
    PeerToPeer,
    /// Hierarchical: Tree-like structure.
    Hierarchical,
    /// Competitive: Agents compete, best result wins.
    Competitive,
}

/// Type of message on the message bus.
#[derive(Clone, Debug, PartialEq, Eq, Structural)]
pub enum MessageType {
    /// Task assignment.
    TaskAssignment,
    /// Result submission.
    ResultSubmission,
    /// Review/Feedback request.
    ReviewRequest,
    /// Review/Feedback response.
    ReviewResponse,
    /// Coordination message.
    Coordination,
    /// Integration request.
    IntegrationRequest,
    /// Status update.
    StatusUpdate,
    /// Error report.
    ErrorReport,
}

/// How a character changes the bracket depth.
pub open spec fn bracket_delta(c: char) -> int {
    if c == '[' || c == '{' {
        1
    } else if c == ']' || c == '}' {
        -1
    } else {
        0
    }
}

/// Openings minus closings in `t` (square and curly brackets alike).
pub open spec fn net_depth(t: Seq<char>) -> int
    decreases t.len(),
{
    if t.len() == 0 {
        0
    } else {
        net_depth(t.drop_last()) + bracket_delta(t.last())
    }
}

/// Position of the first `c` in `s`, if any.
pub open spec fn first_index_of(s: Seq<char>, c: char) -> Option<int>
    decreases s.len(),
{
    if s.len() == 0 {
        None
    } else if s.last() != c {
        match first_index_of(s.drop_last(), c) {
            Some(i) => Some(i),
            None => None,
        }
    } else {
        match first_index_of(s.drop_last(), c) {
            Some(i) => Some(i),
            None => Some(s.len() - 1),
        }
    }
}

/// The smallest `e >= from` (up to the end of `s`) at which the span
/// `s[start..e]` is balanced.
pub open spec fn balanced_end(s: Seq<char>, start: int, from: int) -> Option<int>
    decreases s.len() + 1 - from,
{
    if from > s.len() || from < 0 {
        None
    } else if net_depth(s.subrange(start, from)) == 0 {
        Some(from)
    } else {
        balanced_end(s, start, from + 1)
    }
}

/// The shortest balanced span that starts at the first `open` in `s`.
pub open spec fn balanced_span(s: Seq<char>, open: char) -> Option<Seq<char>> {
    match first_index_of(s, open) {
        Some(start) => match balanced_end(s, start, start + 1) {
            Some(e) => Some(s.subrange(start, e)),
            None => None,
        },
        None => None,
    }
}

/// The JSON payload of a reply: the balanced span from the first `[`, else
/// the balanced span from the first `{`.
pub open spec fn json_span(s: Seq<char>) -> Option<Seq<char>> {
    match balanced_span(s, '[') {
        Some(t) => Some(t),
        None => balanced_span(s, '{'),
    }
}

/// Position of the first `c` among `v`.
pub(crate) fn find_char(v: &Vec<char>, c: char) -> (r: Option<usize>)
    ensures
        match r {
            Some(i) => first_index_of(v@, c) == Some(i as int) && i < v@.len() && v@[i as int] == c,
            None => first_index_of(v@, c) is None,
        },
{
    let mut i: usize = 0;
    while i < v.len()
        invariant
            i <= v@.len(),
            forall|j: int| 0 <= j < i ==> v@[j] != c,
        decreases v.len() - i,
    {
        if v[i] == c {
            proof {
                lemma_first_index(v@, c, i as int);
            }
            return Some(i);
        }
        i += 1;
    }
    proof {
        lemma_no_index(v@, c);
    }
    None
}

proof fn lemma_first_index(s: Seq<char>, c: char, i: int)
    requires
        0 <= i < s.len(),
        s[i] == c,
        forall|j: int| 0 <= j < i ==> s[j] != c,
    ensures
        first_index_of(s, c) == Some(i),
    decreases s.len(),
{
    if i < s.len() - 1 {
        lemma_first_index(s.drop_last(), c, i);
    } else {
        lemma_no_index(s.drop_last(), c);
    }
}

proof fn lemma_no_index(s: Seq<char>, c: char)
    requires
        forall|j: int| 0 <= j < s.len() ==> s[j] != c,
    ensures
        first_index_of(s, c) is None,
    decreases s.len(),
{
    if s.len() > 0 {
        lemma_no_index(s.drop_last(), c);
    }
}

proof fn lemma_first_index_props(s: Seq<char>, c: char)
    ensures
        first_index_of(s, c) matches Some(i) ==> 0 <= i < s.len() && s[i] == c && forall|j: int|
            0 <= j < i ==> s[j] != c,
        first_index_of(s, c) is None ==> forall|j: int| 0 <= j < s.len() ==> s[j] != c,
    decreases s.len(),
{
    if s.len() > 0 {
        lemma_first_index_props(s.drop_last(), c);
        assert forall|j: int| 0 <= j < s.len() - 1 implies s.drop_last()[j] == s[j] by {}
    }
}

proof fn lemma_depth_step(s: Seq<char>, start: int, k: int)
    requires
        0 <= start < k <= s.len(),
    ensures
        net_depth(s.subrange(start, k)) == net_depth(s.subrange(start, k - 1)) + bracket_delta(s[k - 1]),
{
    assert(s.subrange(start, k).drop_last() =~= s.subrange(start, k - 1));
    assert(s.subrange(start, k).last() == s[k - 1]);
}

proof fn lemma_balanced_end_props(s: Seq<char>, start: int, from: int)
    requires
        0 <= start < from,
        start < s.len(),
        s[start] == '[' || s[start] == '{',
        forall|k: int| start < k < from ==> net_depth(#[trigger] s.subrange(start, k)) >= 1,
    ensures
        balanced_end(s, start, from) matches Some(e) ==> from <= e <= s.len() && start + 1 < e
            && net_depth(s.subrange(start, e)) == 0 && (s[e - 1] == ']' || s[e - 1] == '}')
            && forall|k: int| start < k < e ==> net_depth(#[trigger] s.subrange(start, k)) >= 1,
    decreases s.len() + 1 - from,
{
    if from <= s.len() {
        lemma_depth_step(s, start, from);
        if from == start + 1 {
            assert(s.subrange(start, start) =~= Seq::<char>::empty());
        }
        if net_depth(s.subrange(start, from)) == 0 {
            if from - 1 == start {
                assert(false);
            }
            assert(net_depth(s.subrange(start, from - 1)) >= 1);
        } else {
            if from - 1 > start {
                assert(net_depth(s.subrange(start, from - 1)) >= 1);
            } else {
                assert(s.subrange(start, start) =~= Seq::<char>::empty());
            }
            assert(net_depth(s.subrange(start, from)) >= 1);
            lemma_balanced_end_props(s, start, from + 1);
        }
    }
}

/// The JSON payload found in a reply is a piece of the reply that opens
/// with `[` or `{`, closes with `]` or `}`, and is balanced: it has as many
/// opening brackets as closing ones, and every shorter nonempty start of it
/// has more openings. It starts at the first `[` whenever the span from there
/// balances, and otherwise at the first `{`; a reply without brackets has
/// none.
pub proof fn json_payloads_are_balanced_spans(s: Seq<char>)
    ensures
        json_span(s) matches Some(t) ==> {
            &&& t.len() >= 2
            &&& t[0] == '[' || t[0] == '{'
            &&& t[t.len() - 1] == ']' || t[t.len() - 1] == '}'
            &&& net_depth(t) == 0
            &&& forall|k: int| 0 < k < t.len() ==> net_depth(#[trigger] t.subrange(0, k)) >= 1
            &&& exists|i: int| 0 <= i && i + t.len() <= s.len() && #[trigger] s.subrange(i, i + t.len()) == t
        },
        json_span(s) matches Some(t) && t[0] == '{' ==> balanced_span(s, '[') is None,
        (forall|j: int| 0 <= j < s.len() ==> s[j] != '[' && s[j] != '{') ==> json_span(s) is None,
{
    lemma_first_index_props(s, '[');
    lemma_first_index_props(s, '{');
    if let Some(start) = first_index_of(s, '[') {
        lemma_balanced_end_props(s, start, start + 1);
        if let Some(e) = balanced_end(s, start, start + 1) {
            let t = s.subrange(start, e);
            assert forall|k: int| 0 < k < t.len() implies net_depth(#[trigger] t.subrange(0, k)) >= 1 by {
                assert(t.subrange(0, k) =~= s.subrange(start, start + k));
            }
            assert(s.subrange(start, start + t.len()) == t);
        }
    }
    if balanced_span(s, '[') is None {
        if let Some(start) = first_index_of(s, '{') {
            lemma_balanced_end_props(s, start, start + 1);
            if let Some(e) = balanced_end(s, start, start + 1) {
                let t = s.subrange(start, e);
                assert forall|k: int| 0 < k < t.len() implies net_depth(#[trigger] t.subrange(0, k)) >= 1 by {
                    assert(t.subrange(0, k) =~= s.subrange(start, start + k));
                }
                assert(s.subrange(start, start + t.len()) == t);
            }
        }
    }
}

/// End of the balanced span starting at `start` (where `open` stands).
fn span_end(v: &Vec<char>, start: usize) -> (r: Option<usize>)
    requires
        start < v.len(),
        v@[start as int] == '[' || v@[start as int] == '{',
    ensures
        match r {
            Some(e) => balanced_end(v@, start as int, start + 1) == Some(e as int) && start < e <= v@.len(),
            None => balanced_end(v@, start as int, start + 1) is None,
        },
{
    let ghost s = v@;
    let mut depth: usize = 1;
    let mut i: usize = start + 1;
    assert(s.subrange(start as int, i as int).drop_last() =~= s.subrange(start as int, start as int));
    assert(s.subrange(start as int, i as int).last() == s[start as int]);
    assert(net_depth(s.subrange(start as int, start as int)) == 0);
    assert(bracket_delta(s[start as int]) == 1);
    assert(net_depth(s.subrange(start as int, i as int)) == 1);
    while i < v.len()
        invariant
            s == v@,
            start < i <= v@.len(),
            depth >= 1,
            depth <= i - start,
            depth as int == net_depth(s.subrange(start as int, i as int)),
            balanced_end(s, start as int, start + 1) == balanced_end(s, start as int, i as int),
        decreases v.len() - i,
    {
        let c = v[i];
        assert(s.subrange(start as int, i + 1).drop_last() =~= s.subrange(start as int, i as int));
        assert(s.subrange(start as int, i + 1).last() == c);
        assert(balanced_end(s, start as int, i as int) == balanced_end(s, start as int, i + 1));
        if c == '[' || c == '{' {
            depth = depth + 1;
        } else if c == ']' || c == '}' {
            if depth == 1 {
                i += 1;
                return Some(i);
            }
            depth = depth - 1;
        }
        i += 1;
    }
    assert(balanced_end(s, start as int, i as int) == balanced_end(s, start as int, i + 1));
    None
}

/// Extracts the JSON payload from an agent reply: the bracket-balanced span
/// starting at the first `[`, else the one starting at the first `{`.
/// Positions are counted in characters.
pub fn extract_json(text: &str) -> (r: Option<&str>)
    ensures
        match r {
            Some(t) => json_span(text@) == Some(t@),
            None => json_span(text@) is None,
        },
{
    let v = chars_of(text);
    match find_char(&v, '[') {
        Some(start) => match span_end(&v, start) {
            Some(e) => {
                return Some(text.substring_char(start, e));
            },
            None => {},
        },
        None => {},
    }
    match find_char(&v, '{') {
        Some(start) => match span_end(&v, start) {
            Some(e) => Some(text.substring_char(start, e)),
            None => None,
        },
        None => None,
    }
}

/// Seconds since the Unix epoch by the system clock (`SystemTime::now`), or 0
/// when the clock reads earlier than the epoch.
#[verifier::external_body]
pub fn current_timestamp() -> u64 {
    std::time::SystemTime::now().duration_since(std::time::UNIX_EPOCH).map(|d| d.as_secs()).unwrap_or(0)
}

} // verus!
