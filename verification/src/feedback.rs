//! What feedback teaches: the pattern of a query, its topic, the response
//! style a rating suggests, and the bounded log of better routes.
use vstd::prelude::*;
use crate::classifier::{contains_any, contains_any_of};
use crate::text::{byte_len, byte_len_chars, chars_of, lowercase, seq_contains, split_whitespace_chars, str_contains, string_of, to_lower, words};

verus! {

broadcast use vstd::string::group_string_axioms;

/// How a user likes answers.
#[derive(Debug, Clone, Copy, PartialEq, Eq, Structural)]
pub enum ResponseStyle {
    Concise,
    Detailed,
    Technical,
    Casual,
}

impl Default for ResponseStyle {
    /// Detailed answers.
    fn default() -> (s: Self)
        ensures
            s == ResponseStyle::Detailed,
    {
        ResponseStyle::Detailed
    }
}

/// Where a piece of feedback came from.
pub struct FeedbackContext {
    pub session_id: String,
    pub user_id: Option<String>,
    pub intent: Option<String>,
    pub skills_used: Vec<String>,
    pub routing_decision: Option<String>,
    pub latency_ms: u64,
}

/// The words longer than three bytes, at most five of them.
pub open spec fn pattern_words(ws: Seq<Seq<char>>) -> Seq<Seq<char>>
    decreases ws.len(),
{
    if ws.len() == 0 {
        Seq::empty()
    } else {
        let rest = pattern_words(ws.drop_last());
        if rest.len() < 5 && byte_len(ws.last()) > 3 {
            rest.push(ws.last())
        } else {
            rest
        }
    }
}

/// The words joined with single spaces.
pub open spec fn joined_words(ws: Seq<Seq<char>>) -> Seq<char>
    decreases ws.len(),
{
    if ws.len() == 0 {
        Seq::empty()
    } else if ws.len() == 1 {
        ws[0]
    } else {
        joined_words(ws.drop_last()) + " "@ + ws.last()
    }
}

/// The pattern of a query: its first five lowercased words longer than
/// three bytes, joined with spaces.
pub open spec fn query_pattern_of(query: Seq<char>) -> Seq<char> {
    joined_words(pattern_words(words(lowercase(query))))
}

/// The pattern a query is learned under.
pub fn extract_query_pattern(query: &str) -> (p: String)
    ensures
        p@ == query_pattern_of(query@),
{
    let lower = to_lower(query);
    let v = chars_of(lower.as_str());
    let ws = split_whitespace_chars(v.as_slice());
    let ghost wv = ws@.map_values(|w: Vec<char>| w@);
    let ghost kept: Seq<Seq<char>> = Seq::empty();
    let mut out = String::new();
    let mut n: usize = 0;
    let mut i: usize = 0;
    while i < ws.len()
        invariant
            i <= ws@.len(),
            wv == ws@.map_values(|w: Vec<char>| w@),
            wv == words(lowercase(query@)),
            kept == pattern_words(wv.take(i as int)),
            n == kept.len(),
            n <= 5,
            out@ == joined_words(kept),
        decreases ws.len() - i,
    {
        assert(wv.take(i + 1).drop_last() =~= wv.take(i as int));
        assert(wv[i as int] == ws@[i as int]@);
        let b = byte_len_chars(ws[i].as_slice());
        if n < 5 && b > 3 {
            if n > 0 {
                out.append(" ");
            }
            let w = string_of(ws[i].as_slice());
            out.append(w.as_str());
            proof {
                let k2 = kept.push(wv[i as int]);
                assert(k2.drop_last() =~= kept);
                if kept.len() == 0 {
                    assert(out@ =~= joined_words(k2));
                }
                kept = k2;
            }
            n += 1;
        }
        i += 1;
    }
    assert(wv.take(ws@.len() as int) =~= wv);
    out
}

/// Topics a query may be about, in the order they are tried.
pub open spec fn topic_words() -> Seq<Seq<char>> {
    seq!["code"@, "weather"@, "data"@, "analysis"@, "research"@, "help"@]
}

/// The first topic word the lowercased query contains.
pub open spec fn first_topic(lower: Seq<char>, ts: Seq<Seq<char>>) -> Seq<char>
    decreases ts.len(),
{
    if ts.len() == 0 {
        "general"@
    } else if seq_contains(lower, ts[0]) {
        ts[0]
    } else {
        first_topic(lower, ts.drop_first())
    }
}

/// The topic of a lowercased query is the first of `code`, `weather`, `data`,
/// `analysis`, `research` and `help` that it mentions, and `general` when it
/// mentions none. A positive rating of a response under 100 bytes suggests
/// concise answers, of one over 500 bytes detailed answers; any other rating
/// or length suggests nothing.
pub proof fn topics_and_styles(lower: Seq<char>, len: nat, rating: i8)
    ensures
        seq_contains(lower, "code"@) ==> first_topic(lower, topic_words()) == "code"@,
        !seq_contains(lower, "code"@) && seq_contains(lower, "weather"@)
            ==> first_topic(lower, topic_words()) == "weather"@,
        !seq_contains(lower, "code"@) && !seq_contains(lower, "weather"@)
            && seq_contains(lower, "data"@) ==> first_topic(lower, topic_words()) == "data"@,
        !seq_contains(lower, "code"@) && !seq_contains(lower, "weather"@)
            && !seq_contains(lower, "data"@) && seq_contains(lower, "analysis"@)
            ==> first_topic(lower, topic_words()) == "analysis"@,
        !seq_contains(lower, "code"@) && !seq_contains(lower, "weather"@)
            && !seq_contains(lower, "data"@) && !seq_contains(lower, "analysis"@)
            && seq_contains(lower, "research"@)
            ==> first_topic(lower, topic_words()) == "research"@,
        !seq_contains(lower, "code"@) && !seq_contains(lower, "weather"@)
            && !seq_contains(lower, "data"@) && !seq_contains(lower, "analysis"@)
            && !seq_contains(lower, "research"@) && seq_contains(lower, "help"@)
            ==> first_topic(lower, topic_words()) == "help"@,
        !seq_contains(lower, "code"@) && !seq_contains(lower, "weather"@)
            && !seq_contains(lower, "data"@) && !seq_contains(lower, "analysis"@)
            && !seq_contains(lower, "research"@) && !seq_contains(lower, "help"@)
            ==> first_topic(lower, topic_words()) == "general"@,
        len < 100 && rating > 0 ==> style_from(len, rating) == Some(ResponseStyle::Concise),
        len > 500 && rating > 0 ==> style_from(len, rating) == Some(ResponseStyle::Detailed),
        rating <= 0 || (100 <= len <= 500) ==> style_from(len, rating) is None,
{
    let ts = topic_words();
    assert(ts.skip(0) =~= seq!["code"@, "weather"@, "data"@, "analysis"@, "research"@, "help"@]);
    assert(ts.skip(1) =~= seq!["weather"@, "data"@, "analysis"@, "research"@, "help"@]);
    assert(ts.skip(2) =~= seq!["data"@, "analysis"@, "research"@, "help"@]);
    assert(ts.skip(3) =~= seq!["analysis"@, "research"@, "help"@]);
    assert(ts.skip(4) =~= seq!["research"@, "help"@]);
    assert(ts.skip(5) =~= seq!["help"@]);
    assert(ts.skip(6) =~= Seq::<Seq<char>>::empty());
    assert(ts.skip(0).drop_first() =~= ts.skip(1));
    assert(ts.skip(1).drop_first() =~= ts.skip(2));
    assert(ts.skip(2).drop_first() =~= ts.skip(3));
    assert(ts.skip(3).drop_first() =~= ts.skip(4));
    assert(ts.skip(4).drop_first() =~= ts.skip(5));
    assert(ts.skip(5).drop_first() =~= ts.skip(6));
    assert(ts.skip(0) =~= ts);
    assert(first_topic(lower, ts.skip(6)) == "general"@);
    assert(first_topic(lower, ts.skip(5)) == (if seq_contains(lower, "help"@) { "help"@ } else { first_topic(lower, ts.skip(6)) }));
    assert(first_topic(lower, ts.skip(4)) == (if seq_contains(lower, "research"@) { "research"@ } else { first_topic(lower, ts.skip(5)) }));
    assert(first_topic(lower, ts.skip(3)) == (if seq_contains(lower, "analysis"@) { "analysis"@ } else { first_topic(lower, ts.skip(4)) }));
    assert(first_topic(lower, ts.skip(2)) == (if seq_contains(lower, "data"@) { "data"@ } else { first_topic(lower, ts.skip(3)) }));
    assert(first_topic(lower, ts.skip(1)) == (if seq_contains(lower, "weather"@) { "weather"@ } else { first_topic(lower, ts.skip(2)) }));
    assert(first_topic(lower, ts.skip(0)) == (if seq_contains(lower, "code"@) { "code"@ } else { first_topic(lower, ts.skip(1)) }));
}

/// The topic of a query.
pub fn extract_topic(query: &str) -> (t: String)
    ensures
        t@ == first_topic(lowercase(query@), topic_words()),
{
    let lower = to_lower(query);
    let topics: Vec<&str> = vec!["code", "weather", "data", "analysis", "research", "help"];
    let ghost tv = topics@.map_values(|m: &str| m@);
    assert(tv =~= topic_words());
    assert(tv.skip(0) =~= tv);
    let mut i: usize = 0;
    while i < topics.len()
        invariant
            i <= topics@.len(),
            tv == topics@.map_values(|m: &str| m@),
            tv == topic_words(),
            lower@ == lowercase(query@),
            first_topic(lowercase(query@), tv) == first_topic(lowercase(query@), tv.skip(i as int)),
        decreases topics.len() - i,
    {
        let ghost rest = tv.skip(i as int);
        assert(rest[0] == topics@[i as int]@);
        if str_contains(lower.as_str(), topics[i]) {
            return topics[i].to_owned();
        }
        assert(rest.drop_first() =~= tv.skip(i + 1));
        i += 1;
    }
    assert(tv.skip(topics@.len() as int) =~= Seq::<Seq<char>>::empty());
    "general".to_owned()
}

/// The style a positive rating of a response of `len` bytes suggests: short
/// answers (under 100 bytes) are concise, long ones (over 500) detailed.
pub open spec fn style_from(len: nat, rating: i8) -> Option<ResponseStyle> {
    if len < 100 && rating > 0 {
        Some(ResponseStyle::Concise)
    } else if len > 500 && rating > 0 {
        Some(ResponseStyle::Detailed)
    } else {
        None
    }
}

/// The style a rating of `response` suggests, if any.
pub fn inferred_style(response: &str, rating: i8) -> (s: Option<ResponseStyle>)
    ensures
        s == style_from(byte_len(response@), rating),
{
    let v = chars_of(response);
    let n = byte_len_chars(v.as_slice());
    if n < 100 && rating > 0 {
        Some(ResponseStyle::Concise)
    } else if n > 500 && rating > 0 {
        Some(ResponseStyle::Detailed)
    } else {
        None
    }
}

/// Better routes learned from feedback, the most recent thousand kept.
pub struct RouteLog {
    routes: Vec<(String, String)>,
}

/// The view of a route.
pub open spec fn route_view(r: (String, String)) -> (Seq<char>, Seq<char>) {
    (r.0@, r.1@)
}

/// The most routes the log keeps.
pub const ROUTE_LOG_LIMIT: usize = 1000;

impl RouteLog {
    /// The routes, oldest first.
    pub closed spec fn view_routes(&self) -> Seq<(Seq<char>, Seq<char>)> {
        self.routes@.map_values(|r: (String, String)| route_view(r))
    }

    /// An empty log.
    pub fn new() -> (l: Self)
        ensures
            l.view_routes() == Seq::<(Seq<char>, Seq<char>)>::empty(),
    {
        let l = RouteLog { routes: Vec::new() };
        assert(l.view_routes() =~= Seq::<(Seq<char>, Seq<char>)>::empty());
        l
    }

    /// The number of routes kept.
    pub fn len(&self) -> (n: usize)
        ensures
            n == self.view_routes().len(),
    {
        self.routes.len()
    }

    /// Records that `query` is better answered by `route`.
    pub fn push(&mut self, query: String, route: String)
        ensures
            final(self).view_routes() == old(self).view_routes().push((query@, route@)),
    {
        let ghost before = self.view_routes();
        self.routes.push((query, route));
        assert(self.view_routes() =~= before.push((query@, route@)));
    }

    /// Drops the oldest routes beyond the most recent thousand.
    pub fn trim(&mut self)
        ensures
            final(self).view_routes() == if old(self).view_routes().len() > ROUTE_LOG_LIMIT {
                old(self).view_routes().skip(old(self).view_routes().len() - ROUTE_LOG_LIMIT)
            } else {
                old(self).view_routes()
            },
            final(self).view_routes().len() <= ROUTE_LOG_LIMIT || final(self).view_routes() == old(self).view_routes(),
    {
        let n = self.routes.len();
        if n > ROUTE_LOG_LIMIT {
            let ghost before = self.view_routes();
            let kept = self.routes.split_off(n - ROUTE_LOG_LIMIT);
            self.routes = kept;
            assert(self.view_routes() =~= before.skip(n - ROUTE_LOG_LIMIT));
        }
    }

    /// The route recorded at position `i`, oldest first.
    pub fn get(&self, i: usize) -> (r: &(String, String))
        requires
            i < self.view_routes().len(),
        ensures
            route_view(*r) == self.view_routes()[i as int],
    {
        &self.routes[i]
    }
}

} // verus!
