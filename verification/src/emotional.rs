//! Emotional context of a conversation: the goal a reply should pursue for
//! the user's mood, the emotions to avoid, how a reply's tone is adjusted,
//! and the patterns of words that go with an emotion.
use vstd::prelude::*;
use crate::emotion::{valence_of, Emotion};
use crate::graph::fresh_uuid;
use crate::intents::strings_view;
use crate::text::{
    byte_len, byte_len_chars, chars_of, lowercase, push_char, seq_contains, split_whitespace_chars, str_contains,
    string_of, to_lower, words,
};

verus! {

broadcast use vstd::string::group_string_axioms;

/// What a reply should do for the user's mood.
#[derive(Debug, Clone, Copy, PartialEq, Eq, Structural)]
pub enum EmotionalGoal {
    Brighten,
    Comfort,
    Professional,
    MatchEnergy,
    Calm,
}

/// The kinds of emotional pattern.
#[derive(Debug, Clone, Copy, PartialEq, Eq, Structural)]
pub enum PatternType {
    UserHappyWhen,
    UserFrustratedWhen,
    UserConfusedWhen,
    UserCuriousAbout,
    UserTrustsTopic,
    UserSkepticalAbout,
}

/// The goal for a user whose primary emotion is `e`: calm anger and worry,
/// comfort sadness, answer confusion professionally, and brighten any other
/// clearly unpleasant mood.
pub open spec fn goal_for(e: Emotion) -> Option<EmotionalGoal> {
    match e {
        Emotion::Frustration | Emotion::Anger | Emotion::Anxiety => Some(EmotionalGoal::Calm),
        Emotion::Sadness => Some(EmotionalGoal::Comfort),
        Emotion::Confusion => Some(EmotionalGoal::Professional),
        _ => if valence_of(e) < -3 {
            Some(EmotionalGoal::Brighten)
        } else {
            None
        },
    }
}

/// The goals of a reply: frustration, anger and anxiety are calmed, sadness
/// comforted, confusion answered professionally, fear and disappointment
/// brightened; joy, satisfaction, surprise, excitement, relief, curiosity,
/// neutrality, trust and skepticism call for no goal. So a pleasant mood
/// never calls for one, and every clearly unpleasant mood (valence below
/// -3 tenths) does.
pub proof fn goals_follow_the_mood(e: Emotion)
    ensures
        e == Emotion::Frustration || e == Emotion::Anger || e == Emotion::Anxiety ==> goal_for(e) == Some(
            EmotionalGoal::Calm,
        ),
        goal_for(Emotion::Sadness) == Some(EmotionalGoal::Comfort),
        goal_for(Emotion::Confusion) == Some(EmotionalGoal::Professional),
        goal_for(Emotion::Fear) == Some(EmotionalGoal::Brighten),
        goal_for(Emotion::Disappointment) == Some(EmotionalGoal::Brighten),
        e == Emotion::Joy || e == Emotion::Satisfaction || e == Emotion::Surprise || e == Emotion::Excitement
            || e == Emotion::Relief || e == Emotion::Curiosity || e == Emotion::Neutral || e == Emotion::Trust
            || e == Emotion::Skepticism ==> goal_for(e) is None,
        valence_of(e) > 0 ==> goal_for(e) is None,
        valence_of(e) < -3 ==> goal_for(e) is Some,
        e == Emotion::Anger || e == Emotion::Frustration
            ==> to_avoid(e) == seq![Emotion::Anger, Emotion::Skepticism],
        to_avoid(Emotion::Sadness) == seq![Emotion::Disappointment, Emotion::Fear],
        e == Emotion::Anxiety || e == Emotion::Fear
            ==> to_avoid(e) == seq![Emotion::Anxiety, Emotion::Disappointment],
        !(e == Emotion::Anger || e == Emotion::Frustration || e == Emotion::Sadness || e == Emotion::Anxiety
            || e == Emotion::Fear) ==> to_avoid(e).len() == 0,
{
}

/// The goal a reply pursues when the user feels `primary`.
pub fn determine_emotional_goal(primary: Emotion) -> (g: Option<EmotionalGoal>)
    ensures
        g == goal_for(primary),
{
    match primary {
        Emotion::Frustration | Emotion::Anger | Emotion::Anxiety => Some(EmotionalGoal::Calm),
        Emotion::Sadness => Some(EmotionalGoal::Comfort),
        Emotion::Confusion => Some(EmotionalGoal::Professional),
        _ => if primary.valence_tenths() < -3 {
            Some(EmotionalGoal::Brighten)
        } else {
            None
        },
    }
}

/// The emotions a reply should not stir in a user who feels `e`.
pub open spec fn to_avoid(e: Emotion) -> Seq<Emotion> {
    match e {
        Emotion::Anger | Emotion::Frustration => seq![Emotion::Anger, Emotion::Skepticism],
        Emotion::Sadness => seq![Emotion::Disappointment, Emotion::Fear],
        Emotion::Anxiety | Emotion::Fear => seq![Emotion::Anxiety, Emotion::Disappointment],
        _ => Seq::empty(),
    }
}

/// The emotions to avoid when the user feels `primary`.
pub fn emotions_to_avoid(primary: Emotion) -> (r: Vec<Emotion>)
    ensures
        r@ == to_avoid(primary),
{
    let r = match primary {
        Emotion::Anger | Emotion::Frustration => vec![Emotion::Anger, Emotion::Skepticism],
        Emotion::Sadness => vec![Emotion::Disappointment, Emotion::Fear],
        Emotion::Anxiety | Emotion::Fear => vec![Emotion::Anxiety, Emotion::Disappointment],
        _ => Vec::new(),
    };
    assert(r@ =~= to_avoid(primary));
    r
}

/// A reply with its tone adjusted to the goal and the user's mood: a smile
/// when brightening an unpleasant mood, an acknowledgement when comforting
/// (unless the reply already shows understanding), reassurance when calming
/// anxiety or fear.
pub open spec fn adjusted_tone(response: Seq<char>, goal: Option<EmotionalGoal>, mood: Emotion) -> Seq<char> {
    match goal {
        Some(EmotionalGoal::Brighten) => if valence_of(mood) < 0 {
            response + " 😊"@
        } else {
            response
        },
        Some(EmotionalGoal::Comfort) => if !seq_contains(response, "理解"@) && !seq_contains(response, "明白"@) {
            "我理解你的感受。"@ + response
        } else {
            response
        },
        Some(EmotionalGoal::Calm) => if mood == Emotion::Anxiety || mood == Emotion::Fear {
            "别担心，让我来帮你分析一下。"@ + response
        } else {
            response
        },
        _ => response,
    }
}

/// Adjusts the tone of a reply for the emotional goal and the user's mood.
pub fn adjust_response_tone(response: &str, goal: Option<EmotionalGoal>, mood: Emotion) -> (r: String)
    ensures
        r@ == adjusted_tone(response@, goal, mood),
{
    match goal {
        Some(EmotionalGoal::Brighten) => {
            if mood.valence_tenths() < 0 {
                let mut r = response.to_owned();
                r.append(" 😊");
                return r;
            }
        },
        Some(EmotionalGoal::Comfort) => {
            if !str_contains(response, "理解") && !str_contains(response, "明白") {
                let mut r = "我理解你的感受。".to_owned();
                r.append(response);
                return r;
            }
        },
        Some(EmotionalGoal::Calm) => {
            if mood == Emotion::Anxiety || mood == Emotion::Fear {
                let mut r = "别担心，让我来帮你分析一下。".to_owned();
                r.append(response);
                return r;
            }
        },
        _ => {},
    }
    response.to_owned()
}

/// The kind of pattern recorded for an emotion.
pub open spec fn pattern_type_of(e: Emotion) -> PatternType {
    match e {
        Emotion::Joy => PatternType::UserHappyWhen,
        Emotion::Frustration => PatternType::UserFrustratedWhen,
        Emotion::Confusion => PatternType::UserConfusedWhen,
        Emotion::Curiosity => PatternType::UserCuriousAbout,
        Emotion::Trust => PatternType::UserTrustsTopic,
        Emotion::Skepticism => PatternType::UserSkepticalAbout,
        _ => PatternType::UserHappyWhen,
    }
}

/// The kind of pattern recorded for `e`.
pub fn pattern_type_for(e: Emotion) -> (t: PatternType)
    ensures
        t == pattern_type_of(e),
{
    match e {
        Emotion::Joy => PatternType::UserHappyWhen,
        Emotion::Frustration => PatternType::UserFrustratedWhen,
        Emotion::Confusion => PatternType::UserConfusedWhen,
        Emotion::Curiosity => PatternType::UserCuriousAbout,
        Emotion::Trust => PatternType::UserTrustsTopic,
        Emotion::Skepticism => PatternType::UserSkepticalAbout,
        _ => PatternType::UserHappyWhen,
    }
}

/// The trigger words of a text: its words longer than two bytes, at most
/// five of them, in order.
pub open spec fn trigger_words(ws: Seq<Seq<char>>) -> Seq<Seq<char>>
    decreases ws.len(),
{
    if ws.len() == 0 {
        Seq::empty()
    } else {
        let rest = trigger_words(ws.drop_last());
        if rest.len() < 5 && byte_len(ws.last()) > 2 {
            rest.push(ws.last())
        } else {
            rest
        }
    }
}

/// Reads the trigger words of a lowercased text.
pub fn trigger_words_of(text_lower: &str) -> (r: Vec<String>)
    ensures
        strings_view(r@) == trigger_words(words(text_lower@)),
        r@.len() <= 5,
{
    let v = chars_of(text_lower);
    let ws = split_whitespace_chars(v.as_slice());
    let ghost wv = ws@.map_values(|w: Vec<char>| w@);
    let mut out: Vec<String> = Vec::new();
    let mut i: usize = 0;
    while i < ws.len()
        invariant
            i <= ws@.len(),
            wv == ws@.map_values(|w: Vec<char>| w@),
            wv == words(text_lower@),
            strings_view(out@) == trigger_words(wv.take(i as int)),
            out@.len() <= 5,
        decreases ws.len() - i,
    {
        assert(wv.take(i + 1).drop_last() =~= wv.take(i as int));
        assert(wv[i as int] == ws@[i as int]@);
        let b = byte_len_chars(ws[i].as_slice());
        if out.len() < 5 && b > 2 {
            let ghost before = out@;
            out.push(string_of(ws[i].as_slice()));
            assert(strings_view(out@) =~= strings_view(before).push(wv[i as int]));
        }
        i += 1;
    }
    assert(wv.take(ws@.len() as int) =~= wv);
    out
}

/// A pattern of words that go with an emotion.
pub struct EmotionalPattern {
    pub id: String,
    pub pattern_type: PatternType,
    pub trigger_keywords: Vec<String>,
    pub typical_emotion: Emotion,
    pub frequency: u32,
    pub last_observed: String,
    pub sessions_count: u32,
}

/// A word matches a pattern when it contains one of the pattern's keywords
/// or one of them contains it.
pub open spec fn word_matches(w: Seq<char>, keywords: Seq<Seq<char>>) -> bool {
    exists|j: int| 0 <= j < keywords.len() && (seq_contains(#[trigger] keywords[j], w) || seq_contains(w, keywords[j]))
}

/// How many of the words match the keywords.
pub open spec fn match_count(ws: Seq<Seq<char>>, keywords: Seq<Seq<char>>) -> nat
    decreases ws.len(),
{
    if ws.len() == 0 {
        0
    } else {
        match_count(ws.drop_last(), keywords) + if word_matches(ws.last(), keywords) { 1nat } else { 0nat }
    }
}

/// Pattern `i` is the first one for emotion `e`.
pub open spec fn first_for_emotion_at(ps: Seq<EmotionalPattern>, i: int, e: Emotion) -> bool {
    &&& 0 <= i < ps.len()
    &&& ps[i].typical_emotion == e
    &&& forall|j: int| 0 <= j < i ==> (#[trigger] ps[j]).typical_emotion != e
}

/// Some pattern is for emotion `e`.
pub open spec fn has_pattern_for(ps: Seq<EmotionalPattern>, e: Emotion) -> bool {
    exists|i: int| 0 <= i < ps.len() && (#[trigger] ps[i]).typical_emotion == e
}

/// `q` is `p` observed again with the words `ws` at `now`: one more for
/// every matching word, and observed now if any matched.
pub open spec fn observed_again(q: EmotionalPattern, p: EmotionalPattern, ws: Seq<Seq<char>>, now: Seq<char>) -> bool {
    let n = match_count(ws, strings_view(p.trigger_keywords@));
    &&& q.id == p.id
    &&& q.pattern_type == p.pattern_type
    &&& q.trigger_keywords == p.trigger_keywords
    &&& q.typical_emotion == p.typical_emotion
    &&& q.frequency == p.frequency + n
    &&& q.last_observed@ == if n > 0 { now } else { p.last_observed@ }
    &&& q.sessions_count == p.sessions_count
}

/// Whether `w` matches one of `keywords`.
fn matches_any(w: &str, keywords: &Vec<String>) -> (b: bool)
    ensures
        b == word_matches(w@, strings_view(keywords@)),
{
    let ghost kv = strings_view(keywords@);
    let mut j: usize = 0;
    while j < keywords.len()
        invariant
            j <= keywords@.len(),
            kv == strings_view(keywords@),
            forall|k: int| 0 <= k < j ==> !(seq_contains(#[trigger] kv[k], w@) || seq_contains(w@, kv[k])),
        decreases keywords.len() - j,
    {
        assert(kv[j as int] == keywords@[j as int]@);
        if str_contains(keywords[j].as_str(), w) || str_contains(w, keywords[j].as_str()) {
            return true;
        }
        j += 1;
    }
    false
}

/// How many of the words `ws` match the keywords.
pub fn count_matches(ws: &Vec<String>, keywords: &Vec<String>) -> (n: usize)
    ensures
        n == match_count(strings_view(ws@), strings_view(keywords@)),
{
    let ghost wv = strings_view(ws@);
    let ghost kv = strings_view(keywords@);
    let mut n: usize = 0;
    let mut w: usize = 0;
    while w < ws.len()
        invariant
            w <= ws@.len(),
            wv == strings_view(ws@),
            kv == strings_view(keywords@),
            n == match_count(wv.take(w as int), kv),
            n <= w,
        decreases ws.len() - w,
    {
        assert(wv.take(w + 1).drop_last() =~= wv.take(w as int));
        assert(wv[w as int] == ws@[w as int]@);
        if matches_any(ws[w].as_str(), keywords) {
            n = n + 1;
        }
        w += 1;
    }
    assert(wv.take(ws@.len() as int) =~= wv);
    n
}

/// The emotional patterns seen so far.
pub struct PatternBook {
    patterns: Vec<EmotionalPattern>,
}

impl PatternBook {
    /// The patterns, in the order they were first seen.
    pub closed spec fn view_patterns(&self) -> Seq<EmotionalPattern> {
        self.patterns@
    }

    /// No patterns yet.
    pub fn new() -> (b: Self)
        ensures
            b.view_patterns() == Seq::<EmotionalPattern>::empty(),
    {
        PatternBook { patterns: Vec::new() }
    }

    /// The patterns, in order.
    pub fn patterns(&self) -> (r: &Vec<EmotionalPattern>)
        ensures
            r@ == self.view_patterns(),
    {
        &self.patterns
    }

    /// The position of the first pattern for emotion `e`.
    pub fn find(&self, e: Emotion) -> (r: Option<usize>)
        ensures
            match r {
                Some(i) => first_for_emotion_at(self.view_patterns(), i as int, e),
                None => !has_pattern_for(self.view_patterns(), e),
            },
    {
        let mut i: usize = 0;
        while i < self.patterns.len()
            invariant
                i <= self.patterns@.len(),
                forall|j: int| 0 <= j < i ==> (#[trigger] self.patterns@[j]).typical_emotion != e,
            decreases self.patterns.len() - i,
        {
            if self.patterns[i].typical_emotion == e {
                return Some(i);
            }
            i += 1;
        }
        None
    }

    /// Records that the trigger words `ws` came with the emotion `primary`
    /// at `now`: the first pattern for that emotion counts each matching
    /// word once more; without one, a new pattern with a fresh id is added.
    pub fn record(&mut self, ws: &Vec<String>, primary: Emotion, now: &str)
        requires
            forall|i: int|
                first_for_emotion_at(old(self).view_patterns(), i, primary) ==> #[trigger] old(
                    self,
                ).view_patterns()[i].frequency + match_count(
                    strings_view(ws@),
                    strings_view(old(self).view_patterns()[i].trigger_keywords@),
                ) <= u32::MAX,
        ensures
            ({
                let ps = old(self).view_patterns();
                let wv = strings_view(ws@);
                &&& has_pattern_for(ps, primary) ==> {
                    &&& final(self).view_patterns().len() == ps.len()
                    &&& forall|i: int|
                        first_for_emotion_at(ps, i, primary) ==> {
                            &&& observed_again(final(self).view_patterns()[i], ps[i], wv, now@)
                            &&& forall|j: int|
                                0 <= j < ps.len() && j != i ==> #[trigger] final(self).view_patterns()[j] == ps[j]
                        }
                }
                &&& !has_pattern_for(ps, primary) ==> {
                    let p = final(self).view_patterns().last();
                    &&& final(self).view_patterns().drop_last() == ps
                    &&& final(self).view_patterns().len() == ps.len() + 1
                    &&& p.id@.len() <= 13
                    &&& p.id@.take(5) == "epat_"@
                    &&& p.pattern_type == pattern_type_of(primary)
                    &&& strings_view(p.trigger_keywords@) == wv
                    &&& p.typical_emotion == primary
                    &&& p.frequency == 1
                    &&& p.last_observed@ == now@
                    &&& p.sessions_count == 1
                }
            }),
    {
        let ghost wv = strings_view(ws@);
        match self.find(primary) {
            Some(i) => {
                let ghost ps = self.patterns@;
                let ghost kv = strings_view(ps[i as int].trigger_keywords@);
                proof {
                    assert forall|k: int| first_for_emotion_at(ps, k, primary) implies k == i as int by {
                        if k < i {
                        } else if k > i {
                            assert(ps[i as int].typical_emotion != primary);
                        }
                    }
                }
                let mut freq = self.patterns[i].frequency;
                let mut seen = false;
                let mut w: usize = 0;
                while w < ws.len()
                    invariant
                        w <= ws@.len(),
                        wv == strings_view(ws@),
                        i < self.patterns@.len(),
                        self.patterns@ == ps,
                        kv == strings_view(ps[i as int].trigger_keywords@),
                        freq == ps[i as int].frequency + match_count(wv.take(w as int), kv),
                        ps[i as int].frequency + match_count(wv, kv) <= u32::MAX,
                        seen == (match_count(wv.take(w as int), kv) > 0),
                    decreases ws.len() - w,
                {
                    assert(wv.take(w + 1).drop_last() =~= wv.take(w as int));
                    assert(wv[w as int] == ws@[w as int]@);
                    proof {
                        lemma_match_count_prefix(wv, kv, w + 1);
                    }
                    if matches_any(ws[w].as_str(), &self.patterns[i].trigger_keywords) {
                        freq = freq + 1;
                        seen = true;
                    }
                    w += 1;
                }
                assert(wv.take(ws@.len() as int) =~= wv);
                self.patterns[i].frequency = freq;
                if seen {
                    self.patterns[i].last_observed = now.to_owned();
                }
            },
            None => {
                let id = pattern_id();
                let mut keywords: Vec<String> = Vec::new();
                let mut w: usize = 0;
                while w < ws.len()
                    invariant
                        w <= ws@.len(),
                        wv == strings_view(ws@),
                        strings_view(keywords@) == wv.take(w as int),
                    decreases ws.len() - w,
                {
                    let ghost before = keywords@;
                    keywords.push(ws[w].clone());
                    assert(strings_view(keywords@) =~= strings_view(before).push(wv[w as int]));
                    assert(wv.take(w + 1) =~= wv.take(w as int).push(wv[w as int]));
                    w += 1;
                }
                assert(wv.take(ws@.len() as int) =~= wv);
                self.patterns.push(EmotionalPattern {
                    id,
                    pattern_type: pattern_type_for(primary),
                    trigger_keywords: keywords,
                    typical_emotion: primary,
                    frequency: 1,
                    last_observed: now.to_owned(),
                    sessions_count: 1,
                });
            },
        }
    }
}

/// The match count of a prefix never exceeds that of the whole.
proof fn lemma_match_count_prefix(ws: Seq<Seq<char>>, kws: Seq<Seq<char>>, k: int)
    requires
        0 <= k <= ws.len(),
    ensures
        match_count(ws.take(k), kws) <= match_count(ws, kws),
    decreases ws.len() - k,
{
    if k < ws.len() {
        lemma_match_count_prefix(ws, kws, k + 1);
        assert(ws.take(k + 1).drop_last() =~= ws.take(k));
    } else {
        assert(ws.take(k) =~= ws);
    }
}

/// A fresh pattern id: `epat_` and the first eight characters of a random
/// identifier with its dashes removed.
fn pattern_id() -> (id: String)
    ensures
        id@.len() <= 13,
        id@.take(5) == "epat_"@,
{
    let u = chars_of(fresh_uuid().as_str());
    let mut id = "epat_".to_owned();
    proof {
        reveal_strlit("epat_");
    }
    assert(id@.len() == 5);
    assert(id@.take(5) =~= id@);
    let mut n: usize = 0;
    let mut i: usize = 0;
    while i < u.len() && n < 8
        invariant
            i <= u@.len(),
            n <= 8,
            id@.len() == 5 + n,
            id@.take(5) == "epat_"@,
        decreases u.len() - i,
    {
        if u[i] != '-' {
            let ghost before = id@;
            push_char(&mut id, u[i]);
            assert(id@.take(5) =~= before.take(5));
            n += 1;
        }
        i += 1;
    }
    id
}

/// The distribution after one more memory whose first emotion is `e`: its
/// count goes up by one where it is listed, or it is listed last with one.
pub open spec fn counted_in(d: Seq<(Emotion, u32)>, e: Emotion) -> Seq<(Emotion, u32)>
    decreases d.len(),
{
    if d.len() == 0 {
        seq![(e, 1u32)]
    } else if d[0].0 == e {
        d.update(0, (e, (d[0].1 + 1) as u32))
    } else {
        seq![d[0]] + counted_in(d.skip(1), e)
    }
}

/// How many memories have each emotion first, listed in the order the
/// emotions first occur; memories without an emotion are not counted.
pub open spec fn distribution_of(firsts: Seq<Option<Emotion>>) -> Seq<(Emotion, u32)>
    decreases firsts.len(),
{
    if firsts.len() == 0 {
        Seq::empty()
    } else {
        let d = distribution_of(firsts.drop_last());
        match firsts.last() {
            Some(e) => counted_in(d, e),
            None => d,
        }
    }
}

proof fn lemma_counted_at(d: Seq<(Emotion, u32)>, e: Emotion, i: int)
    requires
        0 <= i <= d.len(),
        forall|j: int| 0 <= j < i ==> (#[trigger] d[j]).0 != e,
        i < d.len() ==> d[i].0 == e,
    ensures
        counted_in(d, e) == if i < d.len() {
            d.update(i, (e, (d[i].1 + 1) as u32))
        } else {
            d.push((e, 1u32))
        },
    decreases d.len(),
{
    if d.len() > 0 && i > 0 {
        let t = d.skip(1);
        assert forall|j: int| 0 <= j < i - 1 implies (#[trigger] t[j]).0 != e by {
            assert(t[j] == d[j + 1]);
        }
        lemma_counted_at(t, e, i - 1);
        if i < d.len() {
            assert(seq![d[0]] + t.update(i - 1, (e, (t[i - 1].1 + 1) as u32)) =~= d.update(i, (e, (d[i].1 + 1) as u32)));
        } else {
            assert(seq![d[0]] + t.push((e, 1u32)) =~= d.push((e, 1u32)));
        }
    } else if d.len() == 0 {
        assert(seq![(e, 1u32)] =~= d.push((e, 1u32)));
    }
}

/// Count the memories by their first emotion.
pub fn emotion_distribution(firsts: &Vec<Option<Emotion>>) -> (r: Vec<(Emotion, u32)>)
    requires
        firsts@.len() < u32::MAX,
    ensures
        r@ == distribution_of(firsts@),
{
    let mut d: Vec<(Emotion, u32)> = Vec::new();
    let mut i: usize = 0;
    while i < firsts.len()
        invariant
            i <= firsts@.len(),
            firsts@.len() < u32::MAX,
            d@ == distribution_of(firsts@.take(i as int)),
            forall|j: int| 0 <= j < d@.len() ==> (#[trigger] d@[j]).1 <= i,
        decreases firsts.len() - i,
    {
        assert(firsts@.take(i + 1).drop_last() =~= firsts@.take(i as int));
        if let Some(e) = firsts[i] {
            let ghost before = d@;
            let mut p: usize = 0;
            while p < d.len()
                invariant
                    p <= d@.len(),
                    before == d@,
                    forall|j: int| 0 <= j < p ==> (#[trigger] before[j]).0 != e,
                ensures
                    p <= d@.len(),
                    forall|j: int| 0 <= j < p ==> (#[trigger] before[j]).0 != e,
                    p < d@.len() ==> before[p as int].0 == e,
                decreases d.len() - p,
            {
                if d[p].0 == e {
                    break;
                }
                p += 1;
            }
            proof {
                lemma_counted_at(before, e, p as int);
            }
            if p < d.len() {
                assert(d@[p as int].1 <= i);
                let c = d[p].1 + 1;
                d.set(p, (e, c));
            } else {
                d.push((e, 1));
            }
        }
        i += 1;
    }
    assert(firsts@.take(firsts@.len() as int) =~= firsts@);
    d
}

/// What the emotional memory holds: sessions with a state, memories,
/// patterns, and how many memories have each emotion first.
#[derive(Debug, Clone)]
pub struct EmotionalStats {
    pub active_sessions: usize,
    pub total_emotional_memories: usize,
    pub detected_patterns: usize,
    pub emotion_distribution: Vec<(Emotion, u32)>,
}

} // verus!
