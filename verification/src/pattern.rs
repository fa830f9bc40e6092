//! Multi-pattern matching: exact, prefix, contains, regular expression and
//! fuzzy (edit distance) matching, with lazily compiled regular expressions.
use vstd::prelude::*;
use vstd::hash_map::StringHashMap;
use regex::Regex;
use crate::text::{
    chars_of, contains_chars, is_prefix, lowercase, seq_contains, starts_with_chars, str_eq, to_lower,
    trim, trim_chars,
};

verus! {

broadcast use vstd::string::group_string_axioms;

/// Match confidence level, from weakest to strongest. `value` gives the score
/// of each level.
#[derive(Debug, Clone, Copy, PartialEq, Eq, PartialOrd, Structural)]
pub enum MatchConfidence {
    NoMatch,
    Fuzzy,
    Low,
    Medium,
    High,
    Exact,
}

impl MatchConfidence {
    /// The score of this level.
    pub fn value(&self) -> (v: u8)
        ensures
            v == match *self {
                MatchConfidence::Exact => 100u8,
                MatchConfidence::High => 80u8,
                MatchConfidence::Medium => 60u8,
                MatchConfidence::Low => 40u8,
                MatchConfidence::NoMatch => 0u8,
                MatchConfidence::Fuzzy => 1u8,
            },
    {
        match self {
            MatchConfidence::Exact => 100,
            MatchConfidence::High => 80,
            MatchConfidence::Medium => 60,
            MatchConfidence::Low => 40,
            MatchConfidence::NoMatch => 0,
            MatchConfidence::Fuzzy => 1,
        }
    }
}

/// Type of pattern match.
#[derive(Clone, Debug, PartialEq, Eq, Structural)]
pub enum MatchType {
    /// Character-for-character match.
    Exact,
    /// Prefix match.
    Prefix,
    /// Regular expression match.
    Regex,
    /// Fuzzy string match.
    Fuzzy,
    /// Semantic similarity match.
    Semantic,
    /// Context-based match.
    Contextual,
}

/// Result of a pattern match.
#[derive(Debug, Clone)]
pub struct MatchResult {
    pub command_id: String,
    pub confidence: MatchConfidence,
    pub matched_pattern: String,
    /// Extracted parameters as (name, value), in capture-group order.
    pub extracted_params: Vec<(String, String)>,
    pub match_type: MatchType,
}

/// Pattern types for matching.
#[derive(Clone, Debug)]
pub enum Pattern {
    Exact(String),
    Prefix(String),
    Contains(String),
    Regex(String),
    /// Target text and the largest edit distance accepted.
    Fuzzy(String, usize),
}

#[verifier::external_type_specification]
#[verifier::external_body]
pub struct ExRegex(regex::Regex);

#[verifier::external_type_specification]
#[verifier::external_body]
pub struct ExRegexError(regex::Error);

/// What `Regex::as_str` returns: the pattern the regex was compiled from.
pub uninterp spec fn regex_source(re: Regex) -> Seq<char>;

/// Whether `Regex::new` accepts the pattern.
pub uninterp spec fn regex_compiles(pattern: Seq<char>) -> bool;

/// What `Regex::is_match` returns for a regex compiled from `pattern`.
pub uninterp spec fn regex_is_match(pattern: Seq<char>, text: Seq<char>) -> bool;

/// What `Regex::capture_names` yields for a regex compiled from `pattern`:
/// one entry per group, the name of the named ones.
pub uninterp spec fn regex_group_names(pattern: Seq<char>) -> Seq<Option<Seq<char>>>;

/// The text that the group called `name` captures in the first match of the
/// regex compiled from `pattern` in `text` (`Regex::captures`, then `Captures::name`).
pub uninterp spec fn regex_group(pattern: Seq<char>, text: Seq<char>, name: Seq<char>) -> Option<Seq<char>>;

/// Calls `Regex::new`. It succeeds exactly on the patterns `regex_compiles`
/// names, and the regex remembers its pattern (`Regex::as_str`).
#[verifier::external_body]
pub(crate) fn compile_regex(pattern: &str) -> (r: Result<Regex, regex::Error>)
    ensures
        (r is Ok) == regex_compiles(pattern@),
        r matches Ok(re) ==> regex_source(re) == pattern@,
{
    Regex::new(pattern)
}

/// Calls `Regex::is_match`; the result is named by `regex_is_match`.
#[verifier::external_body]
fn regex_matches(re: &Regex, text: &str) -> (r: bool)
    ensures
        r == regex_is_match(regex_source(*re), text@),
{
    re.is_match(text)
}

/// Calls `Regex::capture_names`, with each name copied into a `String`.
#[verifier::external_body]
fn group_names(re: &Regex) -> (r: Vec<Option<String>>)
    ensures
        r@.map_values(|n: Option<String>| opt_view(n)) == regex_group_names(regex_source(*re)),
{
    re.capture_names().map(|n| n.map(|s| s.to_string())).collect()
}

/// Calls `Regex::captures` and takes the group `name` of the first match, if any.
#[verifier::external_body]
pub(crate) fn group_text(re: &Regex, text: &str, name: &str) -> (r: Option<String>)
    ensures
        opt_view(r) == regex_group(regex_source(*re), text@, name@),
{
    re.captures(text).and_then(|c| c.name(name)).map(|m| m.as_str().to_string())
}

/// The view of an optional string.
pub open spec fn opt_view(o: Option<String>) -> Option<Seq<char>> {
    match o {
        Some(s) => Some(s@),
        None => None,
    }
}

/// The smallest of three numbers.
pub open spec fn min3(x: nat, y: nat, z: nat) -> nat {
    if x <= y && x <= z {
        x
    } else if y <= z {
        y
    } else {
        z
    }
}

/// Levenshtein edit distance: the fewest single-character insertions,
/// deletions and substitutions that turn `a` into `b`.
pub open spec fn edit_distance(a: Seq<char>, b: Seq<char>) -> nat
    decreases a.len() + b.len(),
{
    if a.len() == 0 {
        b.len()
    } else if b.len() == 0 {
        a.len()
    } else {
        min3(
            edit_distance(a.drop_last(), b) + 1,
            edit_distance(a, b.drop_last()) + 1,
            edit_distance(a.drop_last(), b.drop_last()) + (if a.last() == b.last() {
                0nat
            } else {
                1nat
            }),
        )
    }
}

/// The edit distance is at most the longer length.
pub proof fn lemma_edit_distance_bound(a: Seq<char>, b: Seq<char>)
    ensures
        edit_distance(a, b) <= if a.len() >= b.len() { a.len() } else { b.len() },
    decreases a.len() + b.len(),
{
    if a.len() > 0 && b.len() > 0 {
        lemma_edit_distance_bound(a.drop_last(), b.drop_last());
    }
}

/// The edit distance is a distance: it is zero exactly between equal
/// strings, the same in both directions, and from the empty string it is
/// the other string's length (that many insertions).
pub proof fn edit_distance_is_a_distance(a: Seq<char>, b: Seq<char>)
    ensures
        edit_distance(a, b) == 0 <==> a == b,
        edit_distance(a, b) == edit_distance(b, a),
        edit_distance(a, Seq::<char>::empty()) == a.len(),
        edit_distance(Seq::<char>::empty(), b) == b.len(),
    decreases a.len() + b.len(),
{
    if a.len() > 0 && b.len() > 0 {
        edit_distance_is_a_distance(a.drop_last(), b);
        edit_distance_is_a_distance(a, b.drop_last());
        edit_distance_is_a_distance(a.drop_last(), b.drop_last());
        if edit_distance(a, b) == 0 {
            assert(a.drop_last() == b.drop_last());
            assert(a =~= a.drop_last().push(a.last()));
            assert(b =~= b.drop_last().push(b.last()));
        }
        if a == b {
            assert(a.drop_last() =~= b.drop_last());
        }
    } else if a.len() == 0 && b.len() == 0 {
        assert(a =~= b);
    } else if a.len() == 0 {
        assert(a != b);
    } else {
        assert(a != b);
    }
}

/// Compute Levenshtein edit distance between two strings.
pub fn levenshtein_distance(a: &str, b: &str) -> (d: usize)
    ensures
        d == edit_distance(a@, b@),
{
    let a_chars = chars_of(a);
    let b_chars = chars_of(b);
    edit_distance_chars(&a_chars, &b_chars)
}

/// Edit distance by dynamic programming, one row at a time.
fn edit_distance_chars(a: &Vec<char>, b: &Vec<char>) -> (d: usize)
    ensures
        d == edit_distance(a@, b@),
{
    let a_len = a.len();
    let b_len = b.len();
    if a_len == 0 {
        assert(a@ =~= Seq::<char>::empty());
        return b_len;
    }
    if b_len == 0 {
        assert(b@ =~= Seq::<char>::empty());
        return a_len;
    }
    // prev[j] is the distance between the first i characters of a and the first j of b.
    let mut prev: Vec<usize> = Vec::new();
    let mut j: usize = 0;
    assert(a@.take(0) =~= Seq::<char>::empty());
    while j < b_len
        invariant
            b_len == b@.len(),
            j <= b_len,
            prev@.len() == j,
            forall|k: int| 0 <= k < j ==> #[trigger] prev@[k] == edit_distance(a@.take(0), b@.take(k)),
        decreases b_len - j,
    {
        prev.push(j);
        j += 1;
    }
    prev.push(b_len);
    let mut i: usize = 0;
    while i < a_len
        invariant
            a_len == a@.len(),
            b_len == b@.len(),
            0 <= i <= a_len,
            prev@.len() == b_len + 1,
            forall|k: int| 0 <= k <= b_len ==> #[trigger] prev@[k] == edit_distance(a@.take(i as int), b@.take(k)),
        decreases a_len - i,
    {
        let mut cur: Vec<usize> = Vec::new();
        assert(b@.take(0) =~= Seq::<char>::empty());
        cur.push(i + 1);
        let mut j: usize = 0;
        while j < b_len
            invariant
                a_len == a@.len(),
                b_len == b@.len(),
                0 <= i < a_len,
                j <= b_len,
                prev@.len() == b_len + 1,
                cur@.len() == j + 1,
                forall|k: int| 0 <= k <= b_len ==> #[trigger] prev@[k] == edit_distance(a@.take(i as int), b@.take(k)),
                forall|k: int| 0 <= k <= j ==> #[trigger] cur@[k] == edit_distance(a@.take(i + 1), b@.take(k)),
            decreases b_len - j,
        {
            let ghost x = a@.take(i + 1);
            let ghost y = b@.take(j + 1);
            proof {
                assert(x.drop_last() =~= a@.take(i as int));
                assert(y.drop_last() =~= b@.take(j as int));
                lemma_edit_distance_bound(x, y);
                lemma_edit_distance_bound(a@.take(i as int), b@.take(j as int));
            }
            let cost: usize = if a[i] == b[j] { 0 } else { 1 };
            let deletion = prev[j + 1].saturating_add(1);
            let insertion = cur[j].saturating_add(1);
            let substitution = prev[j] + cost;
            let mut best = deletion;
            if insertion < best {
                best = insertion;
            }
            if substitution < best {
                best = substitution;
            }
            cur.push(best);
            j += 1;
        }
        prev = cur;
        i += 1;
    }
    assert(a@.take(a_len as int) =~= a@);
    assert(b@.take(b_len as int) =~= b@);
    prev[b_len]
}

/// The parameters that the named groups of the regex compiled from `pattern`
/// capture in `text`, from `names` onward: (name, text) for each named group
/// that took part in the first match.
pub open spec fn group_params(
    pattern: Seq<char>,
    text: Seq<char>,
    names: Seq<Option<Seq<char>>>,
) -> Seq<(Seq<char>, Seq<char>)>
    decreases names.len(),
{
    if names.len() == 0 {
        Seq::empty()
    } else {
        let rest = group_params(pattern, text, names.drop_last());
        match names.last() {
            Some(n) => match regex_group(pattern, text, n) {
                Some(t) => rest.push((n, t)),
                None => rest,
            },
            None => rest,
        }
    }
}

/// The parameters a regex pattern extracts from `text`.
pub open spec fn regex_params(pattern: Seq<char>, text: Seq<char>) -> Seq<(Seq<char>, Seq<char>)> {
    group_params(pattern, text, regex_group_names(pattern))
}

/// The text patterns are matched against: the input trimmed and lowercased.
pub open spec fn normalized(input: Seq<char>) -> Seq<char> {
    lowercase(trim(input))
}

/// The outcome of matching `input` against `pattern`: the confidence and the
/// extracted parameters, or `None`.
pub open spec fn pattern_outcome(input: Seq<char>, pattern: Pattern) -> Option<
    (MatchConfidence, Seq<(Seq<char>, Seq<char>)>),
> {
    let text = normalized(input);
    match pattern {
        Pattern::Exact(s) => if text == lowercase(s@) {
            Some((MatchConfidence::Exact, Seq::empty()))
        } else {
            None
        },
        Pattern::Prefix(s) => if is_prefix(lowercase(s@), text) {
            Some((MatchConfidence::High, Seq::empty()))
        } else {
            None
        },
        Pattern::Contains(s) => if seq_contains(text, lowercase(s@)) {
            Some((MatchConfidence::Medium, Seq::empty()))
        } else {
            None
        },
        Pattern::Regex(p) => if regex_compiles(p@) && regex_is_match(p@, text) {
            Some((MatchConfidence::High, regex_params(p@, text)))
        } else {
            None
        },
        Pattern::Fuzzy(target, max_distance) => if edit_distance(text, lowercase(target@))
            <= max_distance {
            Some((MatchConfidence::Fuzzy, Seq::empty()))
        } else {
            None
        },
    }
}

/// The view of a list of (name, value) parameters.
pub open spec fn params_view(v: Seq<(String, String)>) -> Seq<(Seq<char>, Seq<char>)> {
    v.map_values(|p: (String, String)| (p.0@, p.1@))
}

/// The view of a match outcome.
pub open spec fn outcome_view(r: Option<(MatchConfidence, Vec<(String, String)>)>) -> Option<
    (MatchConfidence, Seq<(Seq<char>, Seq<char>)>),
> {
    match r {
        Some(p) => Some((p.0, params_view(p.1@))),
        None => None,
    }
}

/// Pattern matcher with lazy regex compilation.
pub struct PatternMatcher {
    compiled_regexes: StringHashMap<Regex>,
}

impl PatternMatcher {
    /// Every cached regex was compiled from its key.
    #[verifier::type_invariant]
    spec fn cache_consistent(self) -> bool {
        forall|k: Seq<char>|
            #[trigger] self.compiled_regexes@.contains_key(k) ==> regex_source(self.compiled_regexes@[k]) == k
                && regex_compiles(k)
    }

    /// The patterns whose regex has been compiled.
    pub closed spec fn compiled(self) -> Set<Seq<char>> {
        self.compiled_regexes@.dom()
    }

    pub fn new() -> (m: Self)
        ensures
            m.compiled() == Set::<Seq<char>>::empty(),
    {
        PatternMatcher { compiled_regexes: StringHashMap::new() }
    }

    /// Match input against a pattern. A regex pattern is compiled on first use
    /// and kept; an invalid one is skipped (no match) and not kept.
    pub fn match_pattern(&mut self, input: &str, pattern: &Pattern) -> (r: Option<
        (MatchConfidence, Vec<(String, String)>),
    >)
        ensures
            outcome_view(r) == pattern_outcome(input@, *pattern),
            final(self).compiled() == match *pattern {
                Pattern::Regex(p) => if regex_compiles(p@) {
                    old(self).compiled().insert(p@)
                } else {
                    old(self).compiled()
                },
                _ => old(self).compiled(),
            },
    {
        let input_chars = chars_of(input);
        let trimmed = trim_chars(input_chars.as_slice());
        let input_lower = to_lower(crate::text::string_of(trimmed.as_slice()).as_str());
        match pattern {
            Pattern::Exact(s) => {
                let target = to_lower(s.as_str());
                if str_eq(input_lower.as_str(), target.as_str()) {
                    Some((MatchConfidence::Exact, Vec::new()))
                } else {
                    None
                }
            },
            Pattern::Prefix(s) => {
                let target = to_lower(s.as_str());
                let h = chars_of(input_lower.as_str());
                let n = chars_of(target.as_str());
                if starts_with_chars(h.as_slice(), n.as_slice()) {
                    Some((MatchConfidence::High, Vec::new()))
                } else {
                    None
                }
            },
            Pattern::Contains(s) => {
                let target = to_lower(s.as_str());
                let h = chars_of(input_lower.as_str());
                let n = chars_of(target.as_str());
                if contains_chars(h.as_slice(), n.as_slice()) {
                    Some((MatchConfidence::Medium, Vec::new()))
                } else {
                    None
                }
            },
            Pattern::Regex(pattern_str) => self.match_regex(pattern_str, &input_lower),
            Pattern::Fuzzy(target, max_distance) => {
                let t = to_lower(target.as_str());
                let distance = levenshtein_distance(input_lower.as_str(), t.as_str());
                if distance <= *max_distance {
                    Some((MatchConfidence::Fuzzy, Vec::new()))
                } else {
                    None
                }
            },
        }
    }

    /// Matches `text` against the regex `pattern_str`, compiling it if needed.
    fn match_regex(&mut self, pattern_str: &String, text: &String) -> (r: Option<
        (MatchConfidence, Vec<(String, String)>),
    >)
        ensures
            outcome_view(r) == (if regex_compiles(pattern_str@) && regex_is_match(pattern_str@, text@) {
                Some((MatchConfidence::High, regex_params(pattern_str@, text@)))
            } else {
                None
            }),
            final(self).compiled() == if regex_compiles(pattern_str@) {
                old(self).compiled().insert(pattern_str@)
            } else {
                old(self).compiled()
            },
    {
        proof {
            use_type_invariant(&*self);
        }
        if !self.compiled_regexes.contains_key(pattern_str.as_str()) {
            match compile_regex(pattern_str.as_str()) {
                Ok(re) => {
                    let mut cache: StringHashMap<Regex> = StringHashMap::new();
                    std::mem::swap(&mut cache, &mut self.compiled_regexes);
                    cache.insert(pattern_str.clone(), re);
                    self.compiled_regexes = cache;
                },
                Err(_) => {
                    return None;
                },
            }
        } else {
            assert(self.compiled_regexes@.contains_key(pattern_str@));
            assert(old(self).compiled().insert(pattern_str@) =~= old(self).compiled());
        }
        proof {
            use_type_invariant(&*self);
        }
        match self.compiled_regexes.get(pattern_str.as_str()) {
            Some(re) => {
                if regex_matches(re, text.as_str()) {
                    let params = collect_params(re, text.as_str());
                    Some((MatchConfidence::High, params))
                } else {
                    None
                }
            },
            None => None,
        }
    }
}

impl Default for PatternMatcher {
    fn default() -> (m: Self)
        ensures
            m.compiled() == Set::<Seq<char>>::empty(),
    {
        PatternMatcher::new()
    }
}

/// The parameters that the named groups of `re` capture in `text`.
fn collect_params(re: &Regex, text: &str) -> (r: Vec<(String, String)>)
    ensures
        params_view(r@) == regex_params(regex_source(*re), text@),
{
    let names = group_names(re);
    let ghost gn = names@.map_values(|n: Option<String>| opt_view(n));
    let mut params: Vec<(String, String)> = Vec::new();
    let mut i: usize = 0;
    while i < names.len()
        invariant
            i <= names@.len(),
            gn == names@.map_values(|n: Option<String>| opt_view(n)),
            gn == regex_group_names(regex_source(*re)),
            params_view(params@) == group_params(regex_source(*re), text@, gn.take(i as int)),
        decreases names.len() - i,
    {
        assert(gn.take(i + 1).drop_last() =~= gn.take(i as int));
        let ghost before = params@;
        match &names[i] {
            Some(name) => {
                match group_text(re, text, name.as_str()) {
                    Some(t) => {
                        params.push((name.clone(), t));
                        assert(params_view(params@) =~= params_view(before).push((name@, t@)));
                    },
                    None => {},
                }
            },
            None => {},
        }
        i += 1;
    }
    assert(gn.take(names@.len() as int) =~= gn);
    params
}

} // verus!
