//! The text analyses behind answer validation: factual claims, support by
//! sources, coverage of the question, missing aspects, hedging and
//! candidate contradictions.
use vstd::prelude::*;
use crate::classifier::{contains_any, contains_any_of};
use crate::intents::{count_contained, count_contained_of};
use vstd::string::StringExecFns;
use crate::text::{
    byte_len, byte_len_chars, chars_of, lowercase, seq_contains, split_whitespace_chars, str_contains, string_of,
    to_lower, trim, trim_chars, words, first_occurrence_from, find_from, lemma_first_occurrence_from,
};

verus! {

broadcast use vstd::string::group_string_axioms;

/// Whether `char::is_numeric` holds: the Unicode numeric categories
/// (decimal digits, letter numbers and other numbers).
pub uninterp spec fn numeric(c: char) -> bool;

/// Calls `char::is_numeric`; the result is named by `numeric`.
#[verifier::external_body]
fn is_numeric_char(c: char) -> (r: bool)
    ensures
        r == numeric(c),
{
    c.is_numeric()
}

/// Whether `c` ends a sentence.
pub open spec fn sentence_end(c: char) -> bool {
    c == '.' || c == '!' || c == '?'
}

/// `s` cut at every sentence end (`str::split(['.', '!', '?'])`).
pub open spec fn sentences(s: Seq<char>) -> Seq<Seq<char>>
    decreases s.len(),
{
    if s.len() == 0 {
        seq![Seq::empty()]
    } else {
        let rest = sentences(s.drop_last());
        if sentence_end(s.last()) {
            rest.push(Seq::empty())
        } else {
            rest.update(rest.len() - 1, rest.last().push(s.last()))
        }
    }
}

/// The views of a list of strings.
pub open spec fn strings_view(v: Seq<String>) -> Seq<Seq<char>> {
    v.map_values(|s: String| s@)
}

/// The sentences of `v`.
fn split_sentences(v: &Vec<char>) -> (r: Vec<Vec<char>>)
    ensures
        r@.map_values(|w: Vec<char>| w@) == sentences(v@),
{
    let mut pieces: Vec<Vec<char>> = Vec::new();
    let mut cur: Vec<char> = Vec::new();
    let mut i: usize = 0;
    assert(v@.take(0) =~= Seq::<char>::empty());
    while i < v.len()
        invariant
            i <= v@.len(),
            pieces@.map_values(|w: Vec<char>| w@) + seq![cur@] == sentences(v@.take(i as int)),
        decreases v.len() - i,
    {
        let ghost p = sentences(v@.take(i as int));
        assert(v@.take(i + 1).drop_last() =~= v@.take(i as int));
        assert(v@.take(i + 1).last() == v[i as int]);
        let ghost old_pieces = pieces@;
        let c = v[i];
        if c == '.' || c == '!' || c == '?' {
            pieces.push(cur);
            cur = Vec::new();
            assert(pieces@.map_values(|w: Vec<char>| w@) =~= old_pieces.map_values(|w: Vec<char>| w@).push(p.last()));
            assert(pieces@.map_values(|w: Vec<char>| w@) + seq![cur@] =~= p.push(Seq::<char>::empty()));
        } else {
            cur.push(c);
            assert(pieces@.map_values(|w: Vec<char>| w@) + seq![cur@] =~= p.update(p.len() - 1, p.last().push(c)));
        }
        i += 1;
    }
    assert(v@.take(v@.len() as int) =~= v@);
    let ghost before = pieces@;
    pieces.push(cur);
    assert(pieces@.map_values(|w: Vec<char>| w@) =~= before.map_values(|w: Vec<char>| w@) + seq![cur@]);
    pieces
}

/// Whether some character of `s` is numeric.
pub open spec fn has_numeric(s: Seq<char>) -> bool {
    exists|i: int| 0 <= i < s.len() && numeric(#[trigger] s[i])
}

/// Whether some character of `v` is numeric.
fn any_numeric(v: &Vec<char>) -> (r: bool)
    ensures
        r == has_numeric(v@),
{
    let mut i: usize = 0;
    while i < v.len()
        invariant
            i <= v@.len(),
            forall|j: int| 0 <= j < i ==> !numeric(#[trigger] v@[j]),
        decreases v.len() - i,
    {
        if is_numeric_char(v[i]) {
            return true;
        }
        i += 1;
    }
    false
}

/// Verbs that mark a statement of fact.
pub open spec fn fact_verbs() -> Seq<Seq<char>> {
    seq!["is"@, "are"@, "was"@, "were"@, "has"@, "have"@]
}

/// Words that mark a specific, checkable figure.
pub open spec fn figure_words() -> Seq<Seq<char>> {
    seq!["%"@, "percent"@, "million"@, "billion"@, "thousand"@]
}

/// Whether a trimmed sentence is a factual claim: it holds a number or a
/// fact verb, and is longer than ten bytes.
pub open spec fn is_claim(t: Seq<char>) -> bool {
    t.len() > 0 && (has_numeric(t) || contains_any(t, fact_verbs())) && byte_len(t) > 10
}

/// Whether a trimmed sentence is a specific claim: it holds a number or a
/// figure word, and is longer than fifteen bytes.
pub open spec fn is_specific_claim(t: Seq<char>) -> bool {
    (has_numeric(t) || contains_any(t, figure_words())) && byte_len(t) > 15
}

/// What the answer checks look for. A trimmed sentence is a factual claim
/// when it is longer than ten bytes and holds a digit or one of `is`, `are`,
/// `was`, `were`, `has`, `have`; it is a specific claim when it is longer than
/// fifteen bytes and holds a digit or one of `%`, `percent`, `million`,
/// `billion`, `thousand`. The hedges counted are `i think`, `probably`,
/// `maybe`, `perhaps`, `might be`, `i believe`, `it seems`, `appears to be`,
/// `could be`, `我觉得`, `可能`, `也许` and `大概`, each once however often it
/// occurs. A sentence is negated when it holds `not `, `no `, `never ` or
/// `n't `. An answer is expected to have 20 words for a query of fewer than
/// five words, 50 for fewer than ten, and 100 otherwise.
pub proof fn answer_checks_follow_their_words(t: Seq<char>, n: nat)
    ensures
        is_claim(t) <==> t.len() > 0 && byte_len(t) > 10 && (has_numeric(t)
            || seq_contains(t, "is"@) || seq_contains(t, "are"@) || seq_contains(t, "was"@)
            || seq_contains(t, "were"@) || seq_contains(t, "has"@) || seq_contains(t, "have"@)),
        is_specific_claim(t) <==> byte_len(t) > 15 && (has_numeric(t) || seq_contains(t, "%"@)
            || seq_contains(t, "percent"@) || seq_contains(t, "million"@)
            || seq_contains(t, "billion"@) || seq_contains(t, "thousand"@)),
        count_contained(t, hedges()) == (if seq_contains(t, "i think"@) { 1int } else { 0int }) + (if seq_contains(t, "probably"@) { 1int } else { 0int }) + (if seq_contains(t, "maybe"@) { 1int } else { 0int }) + (if seq_contains(t, "perhaps"@) { 1int } else { 0int }) + (if seq_contains(t, "might be"@) { 1int } else { 0int }) + (if seq_contains(t, "i believe"@) { 1int } else { 0int }) + (if seq_contains(t, "it seems"@) { 1int } else { 0int }) + (if seq_contains(t, "appears to be"@) { 1int } else { 0int }) + (if seq_contains(t, "could be"@) { 1int } else { 0int }) + (if seq_contains(t, "我觉得"@) { 1int } else { 0int }) + (if seq_contains(t, "可能"@) { 1int } else { 0int }) + (if seq_contains(t, "也许"@) { 1int } else { 0int }) + (if seq_contains(t, "大概"@) { 1int } else { 0int }),
        contains_any(t, negations()) <==> (seq_contains(t, "not "@) || seq_contains(t, "no "@)
            || seq_contains(t, "never "@) || seq_contains(t, "n't "@)),
        n < 5 ==> expected_words(n) == 20,
        5 <= n < 10 ==> expected_words(n) == 50,
        n >= 10 ==> expected_words(n) == 100,
{
    assert(fact_verbs()[0] == "is"@);
    assert(fact_verbs()[1] == "are"@);
    assert(fact_verbs()[2] == "was"@);
    assert(fact_verbs()[3] == "were"@);
    assert(fact_verbs()[4] == "has"@);
    assert(fact_verbs()[5] == "have"@);
    assert(figure_words()[0] == "%"@);
    assert(figure_words()[1] == "percent"@);
    assert(figure_words()[2] == "million"@);
    assert(figure_words()[3] == "billion"@);
    assert(figure_words()[4] == "thousand"@);
    assert(negations()[0] == "not "@);
    assert(negations()[1] == "no "@);
    assert(negations()[2] == "never "@);
    assert(negations()[3] == "n't "@);
    let h = hedges();
    assert(h.take(13).drop_last() =~= h.take(12));
    assert(h.take(13).last() == "大概"@);
    assert(h.take(12).drop_last() =~= h.take(11));
    assert(h.take(12).last() == "也许"@);
    assert(h.take(11).drop_last() =~= h.take(10));
    assert(h.take(11).last() == "可能"@);
    assert(h.take(10).drop_last() =~= h.take(9));
    assert(h.take(10).last() == "我觉得"@);
    assert(h.take(9).drop_last() =~= h.take(8));
    assert(h.take(9).last() == "could be"@);
    assert(h.take(8).drop_last() =~= h.take(7));
    assert(h.take(8).last() == "appears to be"@);
    assert(h.take(7).drop_last() =~= h.take(6));
    assert(h.take(7).last() == "it seems"@);
    assert(h.take(6).drop_last() =~= h.take(5));
    assert(h.take(6).last() == "i believe"@);
    assert(h.take(5).drop_last() =~= h.take(4));
    assert(h.take(5).last() == "might be"@);
    assert(h.take(4).drop_last() =~= h.take(3));
    assert(h.take(4).last() == "perhaps"@);
    assert(h.take(3).drop_last() =~= h.take(2));
    assert(h.take(3).last() == "maybe"@);
    assert(h.take(2).drop_last() =~= h.take(1));
    assert(h.take(2).last() == "probably"@);
    assert(h.take(1).drop_last() =~= h.take(0));
    assert(h.take(1).last() == "i think"@);
    assert(h.take(13) =~= h);
    reveal_with_fuel(count_contained, 2);
    lemma_count_prefixes(t, h);
}

/// Unfolds `count_contained` along the prefixes of `ms`.
proof fn lemma_count_prefixes(t: Seq<char>, ms: Seq<Seq<char>>)
    ensures
        forall|n: int| 0 < n <= ms.len() ==> #[trigger] count_contained(t, ms.take(n)) == count_contained(
            t,
            ms.take(n - 1),
        ) + if seq_contains(t, ms[n - 1]) { 1int } else { 0int },
        count_contained(t, ms.take(0)) == 0,
{
    assert forall|n: int| 0 < n <= ms.len() implies #[trigger] count_contained(t, ms.take(n)) == count_contained(
        t,
        ms.take(n - 1),
    ) + if seq_contains(t, ms[n - 1]) { 1int } else { 0int } by {
        assert(ms.take(n).drop_last() =~= ms.take(n - 1));
        assert(ms.take(n).last() == ms[n - 1]);
    }
    assert(ms.take(0).len() == 0);
}

/// The trimmed sentences that satisfy `keep`, in order.
pub open spec fn kept_sentences(ss: Seq<Seq<char>>, specific: bool) -> Seq<Seq<char>>
    decreases ss.len(),
{
    if ss.len() == 0 {
        Seq::empty()
    } else {
        let rest = kept_sentences(ss.drop_last(), specific);
        let t = trim(ss.last());
        if (if specific { is_specific_claim(t) } else { is_claim(t) }) {
            rest.push(t)
        } else {
            rest
        }
    }
}

/// The trimmed sentences of `answer` that are claims (`specific`: specific claims).
fn claims_of(answer: &str, specific: bool) -> (r: Vec<String>)
    ensures
        strings_view(r@) == kept_sentences(sentences(answer@), specific),
{
    let v = chars_of(answer);
    let ss = split_sentences(&v);
    let ghost sv = ss@.map_values(|w: Vec<char>| w@);
    let verbs: Vec<&str> = vec!["is", "are", "was", "were", "has", "have"];
    assert(verbs@.map_values(|m: &str| m@) =~= fact_verbs());
    let figures: Vec<&str> = vec!["%", "percent", "million", "billion", "thousand"];
    assert(figures@.map_values(|m: &str| m@) =~= figure_words());
    let mut claims: Vec<String> = Vec::new();
    let mut i: usize = 0;
    while i < ss.len()
        invariant
            i <= ss@.len(),
            sv == ss@.map_values(|w: Vec<char>| w@),
            sv == sentences(answer@),
            verbs@.map_values(|m: &str| m@) == fact_verbs(),
            figures@.map_values(|m: &str| m@) == figure_words(),
            strings_view(claims@) == kept_sentences(sv.take(i as int), specific),
        decreases ss.len() - i,
    {
        assert(sv.take(i + 1).drop_last() =~= sv.take(i as int));
        assert(sv[i as int] == ss@[i as int]@);
        let t = trim_chars(ss[i].as_slice());
        let text = string_of(t.as_slice());
        let markers = if specific { &figures } else { &verbs };
        let keep = if !specific && t.len() == 0 {
            false
        } else {
            let by_content = any_numeric(&t) || contains_any_of(
                text.as_str(),
                markers,
                Ghost(if specific { figure_words() } else { fact_verbs() }),
            );
            let long = byte_len_chars(t.as_slice()) > if specific { 15 } else { 10 };
            by_content && long
        };
        if keep {
            let ghost before = claims@;
            claims.push(text);
            assert(strings_view(claims@) =~= strings_view(before).push(t@));
        }
        i += 1;
    }
    assert(sv.take(ss@.len() as int) =~= sv);
    claims
}

/// Extract factual claims from an answer.
pub fn extract_claims(answer: &str) -> (r: Vec<String>)
    ensures
        strings_view(r@) == kept_sentences(sentences(answer@), false),
{
    claims_of(answer, false)
}

/// Extract specific claims (numbers, percentages, large figures), which are
/// more likely to be hallucinated.
pub fn extract_specific_claims(answer: &str) -> (r: Vec<String>)
    ensures
        strings_view(r@) == kept_sentences(sentences(answer@), true),
{
    claims_of(answer, true)
}

/// The words of `ws` longer than `min` bytes, in order.
pub open spec fn longer_than(ws: Seq<Seq<char>>, min: nat) -> Seq<Seq<char>>
    decreases ws.len(),
{
    if ws.len() == 0 {
        Seq::empty()
    } else if byte_len(ws.last()) > min {
        longer_than(ws.drop_last(), min).push(ws.last())
    } else {
        longer_than(ws.drop_last(), min)
    }
}

/// How many of `ws` occur in `t`.
pub open spec fn occurring(ws: Seq<Seq<char>>, t: Seq<char>) -> nat
    decreases ws.len(),
{
    if ws.len() == 0 {
        0
    } else {
        occurring(ws.drop_last(), t) + if seq_contains(t, ws.last()) {
            1nat
        } else {
            0nat
        }
    }
}

/// How many of `ws` do not occur in `t`.
pub open spec fn not_occurring(ws: Seq<Seq<char>>, t: Seq<char>) -> nat
    decreases ws.len(),
{
    if ws.len() == 0 {
        0
    } else {
        not_occurring(ws.drop_last(), t) + if seq_contains(t, ws.last()) {
            0nat
        } else {
            1nat
        }
    }
}

/// The key terms of a claim: its lowercased words longer than three bytes.
pub open spec fn key_terms(claim: Seq<char>) -> Seq<Seq<char>> {
    longer_than(words(lowercase(claim)), 3)
}

/// A claim is supported by a source when more than half of its key terms
/// occur in the lowercased source.
pub open spec fn supported_by(claim: Seq<char>, source: Seq<char>) -> bool {
    let terms = key_terms(claim);
    terms.len() > 0 && 2 * occurring(terms, lowercase(source)) > terms.len()
}

/// The words of `v` longer than `min` bytes.
fn words_longer_than(v: &Vec<char>, min: usize) -> (r: Vec<Vec<char>>)
    requires
        min < usize::MAX,
    ensures
        r@.map_values(|w: Vec<char>| w@) == longer_than(words(v@), min as nat),
{
    let ws = split_whitespace_chars(v.as_slice());
    let ghost wv = ws@.map_values(|w: Vec<char>| w@);
    let mut out: Vec<Vec<char>> = Vec::new();
    let mut i: usize = 0;
    while i < ws.len()
        invariant
            i <= ws@.len(),
            wv == ws@.map_values(|w: Vec<char>| w@),
            wv == words(v@),
            min < usize::MAX,
            out@.map_values(|w: Vec<char>| w@) == longer_than(wv.take(i as int), min as nat),
        decreases ws.len() - i,
    {
        assert(wv.take(i + 1).drop_last() =~= wv.take(i as int));
        assert(wv[i as int] == ws@[i as int]@);
        assert(wv.take(i + 1).last() == wv[i as int]);
        if byte_len_chars(ws[i].as_slice()) > min {
            let ghost before = out@;
            let w = ws[i].clone();
            out.push(w);
            assert(out@.map_values(|w: Vec<char>| w@) =~= before.map_values(|w: Vec<char>| w@).push(wv[i as int]));
        }
        i += 1;
    }
    assert(wv.take(ws@.len() as int) =~= wv);
    out
}

/// How many of `ws` occur in `t` and how many do not.
fn count_occurring(ws: &Vec<Vec<char>>, t: &Vec<char>) -> (r: (usize, usize))
    ensures
        r.0 == occurring(ws@.map_values(|w: Vec<char>| w@), t@),
        r.1 == not_occurring(ws@.map_values(|w: Vec<char>| w@), t@),
        r.0 + r.1 == ws@.len(),
{
    let ghost wv = ws@.map_values(|w: Vec<char>| w@);
    let mut yes: usize = 0;
    let mut no: usize = 0;
    let mut i: usize = 0;
    while i < ws.len()
        invariant
            i <= ws@.len(),
            wv == ws@.map_values(|w: Vec<char>| w@),
            yes == occurring(wv.take(i as int), t@),
            no == not_occurring(wv.take(i as int), t@),
            yes + no == i,
        decreases ws.len() - i,
    {
        assert(wv.take(i + 1).drop_last() =~= wv.take(i as int));
        assert(wv[i as int] == ws@[i as int]@);
        assert(wv.take(i + 1).last() == wv[i as int]);
        if crate::text::contains_chars(t.as_slice(), ws[i].as_slice()) {
            yes += 1;
        } else {
            no += 1;
        }
        i += 1;
    }
    assert(wv.take(ws@.len() as int) =~= wv);
    (yes, no)
}

/// Check if a claim is supported by a source: more than half of its key
/// terms appear in the source.
pub fn claim_supported_by_source(claim: &str, source: &str) -> (r: bool)
    ensures
        r == supported_by(claim@, source@),
{
    let claim_lower = to_lower(claim);
    let source_lower = to_lower(source);
    let cv = chars_of(claim_lower.as_str());
    let sv = chars_of(source_lower.as_str());
    let terms = words_longer_than(&cv, 3);
    let (matching, _) = count_occurring(&terms, &sv);
    terms.len() > 0 && (matching as u128) * 2 > terms.len() as u128
}

/// The counts relevance is scored from.
#[derive(Debug, Clone, Copy, PartialEq, Eq, Structural)]
pub struct RelevanceCounts {
    /// Query keywords (lowercased words longer than two bytes).
    pub query_keywords: usize,
    /// Query keywords that occur in the lowercased answer.
    pub covered_keywords: usize,
    /// Words of the lowercased answer.
    pub answer_words: usize,
    /// Answer words longer than four bytes that do not occur in the lowercased query.
    pub off_topic_words: usize,
}

/// The relevance counts of an answer to a query.
pub open spec fn relevance_counts_of(answer: Seq<char>, query: Seq<char>) -> RelevanceCounts {
    let a = lowercase(answer);
    let q = lowercase(query);
    let keywords = longer_than(words(q), 2);
    RelevanceCounts {
        query_keywords: keywords.len() as usize,
        covered_keywords: occurring(keywords, a) as usize,
        answer_words: words(a).len() as usize,
        off_topic_words: not_occurring(longer_than(words(a), 4), q) as usize,
    }
}

/// The counts relevance is scored from: keyword coverage of the query and
/// off-topic words of the answer.
pub fn relevance_counts(answer: &str, query: &str) -> (r: RelevanceCounts)
    ensures
        r == relevance_counts_of(answer@, query@),
{
    let a = to_lower(answer);
    let q = to_lower(query);
    let av = chars_of(a.as_str());
    let qv = chars_of(q.as_str());
    let keywords = words_longer_than(&qv, 2);
    let (covered, _) = count_occurring(&keywords, &av);
    let answer_words = split_whitespace_chars(av.as_slice());
    assert(answer_words@.map_values(|w: Vec<char>| w@).len() == answer_words@.len());
    let long_words = words_longer_than(&av, 4);
    let (_, off_topic) = count_occurring(&long_words, &qv);
    RelevanceCounts {
        query_keywords: keywords.len(),
        covered_keywords: covered,
        answer_words: answer_words.len(),
        off_topic_words: off_topic,
    }
}

/// Question words and the phrases an answer to such a question is expected to use.
pub open spec fn aspect_table() -> Seq<(Seq<char>, Seq<Seq<char>>)> {
    seq![
        ("what"@, seq!["is"@, "are"@, "refers to"@, "means"@, "defined as"@]),
        ("how"@, seq!["by"@, "through"@, "via"@, "using"@, "steps"@, "process"@]),
        ("why"@, seq!["because"@, "due to"@, "reason"@, "causes"@]),
        ("when"@, seq!["time"@, "date"@, "period"@, "during"@, "in"@]),
        ("where"@, seq!["location"@, "place"@, "in"@, "at"@, "from"@]),
        ("who"@, seq!["person"@, "people"@, "organization"@, "by"@]),
        ("compare"@, seq!["difference"@, "similar"@, "versus"@, "better"@, "worse"@]),
    ]
}

/// The question words of `table` in the (lowercased) query whose expected
/// phrases the (lowercased) answer lacks, as messages.
pub open spec fn unanswered(table: Seq<(Seq<char>, Seq<Seq<char>>)>, q: Seq<char>, a: Seq<char>) -> Seq<Seq<char>>
    decreases table.len(),
{
    if table.len() == 0 {
        Seq::empty()
    } else {
        let rest = unanswered(table.drop_last(), q, a);
        let (word, phrases) = table.last();
        if seq_contains(q, word) && !contains_any(a, phrases) {
            rest.push("Expected explanation for '"@ + word + "' question"@)
        } else {
            rest
        }
    }
}

/// The answer length a query calls for, in words.
pub open spec fn expected_words(query_words: nat) -> nat {
    if query_words < 5 {
        20
    } else if query_words < 10 {
        50
    } else {
        100
    }
}

/// What an answer leaves out: the unanswered question words, then a note
/// when it has fewer than half the expected words.
pub open spec fn missing_aspects_of(answer: Seq<char>, query: Seq<char>) -> Seq<Seq<char>> {
    let q = lowercase(query);
    let found = unanswered(aspect_table(), q, lowercase(answer));
    if words(answer).len() < expected_words(words(q).len()) / 2 {
        found.push("Answer seems too brief"@)
    } else {
        found
    }
}

/// What the answer leaves out of the query.
pub fn missing_aspects(answer: &str, query: &str) -> (r: Vec<String>)
    ensures
        strings_view(r@) == missing_aspects_of(answer@, query@),
{
    let q = to_lower(query);
    let a = to_lower(answer);
    let words_what: Vec<&str> = vec!["is", "are", "refers to", "means", "defined as"];
    let words_how: Vec<&str> = vec!["by", "through", "via", "using", "steps", "process"];
    let words_why: Vec<&str> = vec!["because", "due to", "reason", "causes"];
    let words_when: Vec<&str> = vec!["time", "date", "period", "during", "in"];
    let words_where: Vec<&str> = vec!["location", "place", "in", "at", "from"];
    let words_who: Vec<&str> = vec!["person", "people", "organization", "by"];
    let words_compare: Vec<&str> = vec!["difference", "similar", "versus", "better", "worse"];
    let table: Vec<(&str, &Vec<&str>)> = vec![
        ("what", &words_what),
        ("how", &words_how),
        ("why", &words_why),
        ("when", &words_when),
        ("where", &words_where),
        ("who", &words_who),
        ("compare", &words_compare),
    ];
    let ghost tv = table@.map_values(|e: (&str, &Vec<&str>)| (e.0@, e.1@.map_values(|m: &str| m@)));
    assert(tv =~~= aspect_table());
    let mut missing: Vec<String> = Vec::new();
    let mut i: usize = 0;
    while i < table.len()
        invariant
            i <= table@.len(),
            tv == table@.map_values(|e: (&str, &Vec<&str>)| (e.0@, e.1@.map_values(|m: &str| m@))),
            tv == aspect_table(),
            strings_view(missing@) == unanswered(tv.take(i as int), q@, a@),
        decreases table.len() - i,
    {
        assert(tv.take(i + 1).drop_last() =~= tv.take(i as int));
        assert(tv[i as int] == (table@[i as int].0@, table@[i as int].1@.map_values(|m: &str| m@)));
        let (word, phrases) = table[i];
        if str_contains(q.as_str(), word) && !contains_any_of(
            a.as_str(),
            phrases,
            Ghost(phrases@.map_values(|m: &str| m@)),
        ) {
            let mut note = "Expected explanation for '".to_owned();
            note.append(word);
            note.append("' question");
            let ghost before = missing@;
            missing.push(note);
            assert(strings_view(missing@) =~= strings_view(before).push(
                "Expected explanation for '"@ + word@ + "' question"@,
            ));
        }
        i += 1;
    }
    assert(tv.take(table@.len() as int) =~= tv);
    let av = chars_of(answer);
    let answer_words = split_whitespace_chars(av.as_slice()).len();
    let qv = chars_of(q.as_str());
    let query_words = split_whitespace_chars(qv.as_slice()).len();
    let expected: usize = if query_words < 5 {
        20
    } else if query_words < 10 {
        50
    } else {
        100
    };
    if answer_words < expected / 2 {
        let ghost before = missing@;
        missing.push("Answer seems too brief".to_owned());
        assert(strings_view(missing@) =~= strings_view(before).push("Answer seems too brief"@));
    }
    missing
}

/// Phrases that hedge a statement.
pub open spec fn hedges() -> Seq<Seq<char>> {
    seq![
        "i think"@, "probably"@, "maybe"@, "perhaps"@, "might be"@, "i believe"@, "it seems"@,
        "appears to be"@, "could be"@, "我觉得"@, "可能"@, "也许"@, "大概"@,
    ]
}

/// How many hedging phrases the lowercased answer uses.
pub fn hedge_count(answer: &str) -> (n: usize)
    ensures
        n == count_contained(lowercase(answer@), hedges()),
{
    let a = to_lower(answer);
    let phrases: Vec<&str> = vec![
        "i think", "probably", "maybe", "perhaps", "might be", "i believe", "it seems", "appears to be",
        "could be", "我觉得", "可能", "也许", "大概",
    ];
    assert(phrases@.map_values(|m: &str| m@) =~= hedges());
    count_contained_of(a.as_str(), &phrases, Ghost(hedges()))
}

/// `s` with every occurrence of `pat` from position `i` on removed, scanning
/// left to right.
pub open spec fn removed_from(s: Seq<char>, pat: Seq<char>, i: int) -> Seq<char>
    decreases s.len() + 1 - i,
{
    if i < 0 || i > s.len() || pat.len() == 0 {
        Seq::empty()
    } else {
        match first_occurrence_from(s, pat, i) {
            Some(p) => if i <= p && p + pat.len() <= s.len() {
                s.subrange(i, p) + removed_from(s, pat, p + pat.len())
            } else {
                s.subrange(i, s.len() as int)
            },
            None => s.subrange(i, s.len() as int),
        }
    }
}

/// `s` with every occurrence of `pat` removed (`str::replace(pat, "")`).
pub open spec fn remove_all(s: Seq<char>, pat: Seq<char>) -> Seq<char> {
    if pat.len() == 0 {
        s
    } else {
        removed_from(s, pat, 0)
    }
}

/// `s` with every occurrence of `pat` removed.
fn remove_all_exec(s: &Vec<char>, pat: &str) -> (r: Vec<char>)
    ensures
        r@ == remove_all(s@, pat@),
{
    let pv = chars_of(pat);
    if pv.len() == 0 {
        let mut copy: Vec<char> = Vec::new();
        let mut k: usize = 0;
        while k < s.len()
            invariant
                k <= s@.len(),
                copy@ == s@.take(k as int),
            decreases s.len() - k,
        {
            copy.push(s[k]);
            k += 1;
            assert(copy@ =~= s@.take(k as int));
        }
        assert(s@.take(s@.len() as int) =~= s@);
        return copy;
    }
    let mut out: Vec<char> = Vec::new();
    let mut i: usize = 0;
    while i <= s.len()
        invariant
            pv@ == pat@,
            pv@.len() > 0,
            i <= s@.len() + 1,
            i <= s@.len() ==> out@ + removed_from(s@, pv@, i as int) == removed_from(s@, pv@, 0),
            i > s@.len() ==> out@ == removed_from(s@, pv@, 0),
        decreases s.len() + 1 - i,
    {
        proof {
            lemma_first_occurrence_from(s@, pv@, i as int);
        }
        match find_from(s.as_slice(), pv.as_slice(), i) {
            Some(p) => {
                let ghost before = out@;
                let mut k = i;
                while k < p
                    invariant
                        i <= k <= p,
                        p <= s@.len(),
                        out@ == before + s@.subrange(i as int, k as int),
                    decreases p - k,
                {
                    out.push(s[k]);
                    k += 1;
                    assert(out@ =~= before + s@.subrange(i as int, k as int));
                }
                i = p + pv.len();
                assert(out@ + removed_from(s@, pv@, i as int) =~= removed_from(s@, pv@, 0));
            },
            None => {
                let ghost before = out@;
                let mut k = i;
                while k < s.len()
                    invariant
                        i <= k <= s@.len(),
                        out@ == before + s@.subrange(i as int, k as int),
                    decreases s.len() - k,
                {
                    out.push(s[k]);
                    k += 1;
                    assert(out@ =~= before + s@.subrange(i as int, k as int));
                }
                assert(out@ =~= removed_from(s@, pv@, 0));
                return out;
            },
        }
    }
    out
}

/// Negation markers.
pub open spec fn negations() -> Seq<Seq<char>> {
    seq!["not "@, "no "@, "never "@, "n't "@]
}

/// A statement stripped of its negations, for comparison.
pub open spec fn statement_core(s: Seq<char>) -> Seq<char> {
    remove_all(remove_all(remove_all(s, "not "@), "no "@), "n't "@)
}

/// Two sentences whose negations differ: a possible contradiction, to be
/// confirmed by comparing their cores.
pub struct ContradictionCandidate {
    pub first: String,
    pub second: String,
    /// The first sentence, lowercased, without negations.
    pub first_core: String,
    /// The second sentence, lowercased, without negations.
    pub second_core: String,
}

/// A candidate as (first, second, first core, second core).
pub type CandidateView = (Seq<char>, Seq<char>, Seq<char>, Seq<char>);

/// The candidate formed by sentences `x` and `y`, if their negations differ.
pub open spec fn candidate(x: Seq<char>, y: Seq<char>) -> Option<CandidateView> {
    let lx = lowercase(x);
    let ly = lowercase(y);
    if contains_any(lx, negations()) != contains_any(ly, negations()) {
        Some((x, y, statement_core(lx), statement_core(ly)))
    } else {
        None
    }
}

/// Candidates pairing sentence `i` with each later sentence before `k`.
pub open spec fn candidates_with(ss: Seq<Seq<char>>, i: int, k: int) -> Seq<CandidateView>
    decreases k - i,
{
    if k <= i + 1 {
        Seq::empty()
    } else {
        let rest = candidates_with(ss, i, k - 1);
        match candidate(ss[i], ss[k - 1]) {
            Some(c) => rest.push(c),
            None => rest,
        }
    }
}

/// Candidates for every pair of sentences whose first is before `n`, in order.
pub open spec fn candidates_before(ss: Seq<Seq<char>>, n: int) -> Seq<CandidateView>
    decreases n,
{
    if n <= 0 {
        Seq::empty()
    } else {
        candidates_before(ss, n - 1) + candidates_with(ss, n - 1, ss.len() as int)
    }
}

/// The view of a candidate.
pub open spec fn candidate_view(c: ContradictionCandidate) -> CandidateView {
    (c.first@, c.second@, c.first_core@, c.second_core@)
}

/// The core of a sentence.
fn core_of(lowered: &str) -> (r: String)
    ensures
        r@ == statement_core(lowered@),
{
    let v = chars_of(lowered);
    let a = remove_all_exec(&v, "not ");
    let b = remove_all_exec(&a, "no ");
    let c = remove_all_exec(&b, "n't ");
    string_of(c.as_slice())
}

/// Pairs of sentences of the answer that may contradict each other: one is
/// negated and the other is not. Each pair comes with the sentences' cores.
pub fn contradiction_candidates(answer: &str) -> (r: Vec<ContradictionCandidate>)
    ensures
        r@.map_values(|c: ContradictionCandidate| candidate_view(c)) == candidates_before(
            sentences(answer@),
            sentences(answer@).len() as int,
        ),
{
    let v = chars_of(answer);
    let ss = split_sentences(&v);
    let ghost sv = ss@.map_values(|w: Vec<char>| w@);
    let negs: Vec<&str> = vec!["not ", "no ", "never ", "n't "];
    assert(negs@.map_values(|m: &str| m@) =~= negations());
    let mut out: Vec<ContradictionCandidate> = Vec::new();
    let mut i: usize = 0;
    while i < ss.len()
        invariant
            i <= ss@.len(),
            sv == ss@.map_values(|w: Vec<char>| w@),
            sv == sentences(answer@),
            negs@.map_values(|m: &str| m@) == negations(),
            out@.map_values(|c: ContradictionCandidate| candidate_view(c)) == candidates_before(sv, i as int),
        decreases ss.len() - i,
    {
        let first = string_of(ss[i].as_slice());
        let first_lower = to_lower(first.as_str());
        let first_neg = contains_any_of(first_lower.as_str(), &negs, Ghost(negations()));
        assert(sv[i as int] == ss@[i as int]@);
        let ghost base = out@.map_values(|c: ContradictionCandidate| candidate_view(c));
        let mut j: usize = i + 1;
        while j < ss.len()
            invariant
                i < j <= ss@.len(),
                sv == ss@.map_values(|w: Vec<char>| w@),
                negs@.map_values(|m: &str| m@) == negations(),
                first@ == sv[i as int],
                first_lower@ == lowercase(sv[i as int]),
                first_neg == contains_any(lowercase(sv[i as int]), negations()),
                out@.map_values(|c: ContradictionCandidate| candidate_view(c)) == base + candidates_with(
                    sv,
                    i as int,
                    j as int,
                ),
            decreases ss.len() - j,
        {
            assert(sv[j as int] == ss@[j as int]@);
            let second = string_of(ss[j].as_slice());
            let second_lower = to_lower(second.as_str());
            let second_neg = contains_any_of(second_lower.as_str(), &negs, Ghost(negations()));
            if first_neg != second_neg {
                let ghost before = out@;
                let c = ContradictionCandidate {
                    first: string_of(ss[i].as_slice()),
                    second,
                    first_core: core_of(first_lower.as_str()),
                    second_core: core_of(second_lower.as_str()),
                };
                out.push(c);
                assert(out@.map_values(|c: ContradictionCandidate| candidate_view(c)) =~= before.map_values(
                    |c: ContradictionCandidate| candidate_view(c),
                ).push(candidate(sv[i as int], sv[j as int])->0));
            }
            j += 1;
        }
        i += 1;
    }
    out
}

} // verus!
