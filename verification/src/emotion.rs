//! Emotion vocabulary and keyword-based emotion detection.
use vstd::prelude::*;
use crate::text::{
    chars_of, first_occurrence_from, find_from, lemma_first_occurrence_from, lowercase, seq_contains, to_lower,
};

verus! {

broadcast use vstd::string::group_string_axioms;

/// Emotion categories for analysis.
#[derive(Debug, Clone, Copy, PartialEq, Eq, Hash, Structural)]
pub enum Emotion {
    Joy,
    Satisfaction,
    Surprise,
    Excitement,
    Relief,
    Sadness,
    Frustration,
    Anger,
    Fear,
    Anxiety,
    Disappointment,
    Confusion,
    Curiosity,
    Neutral,
    Trust,
    Skepticism,
}

/// The visualization color of an emotion.
pub open spec fn emotion_color(e: Emotion) -> Seq<char> {
    match e {
        Emotion::Joy => "#FFD700"@,
        Emotion::Satisfaction => "#90EE90"@,
        Emotion::Surprise => "#FF69B4"@,
        Emotion::Excitement => "#FF4500"@,
        Emotion::Relief => "#87CEEB"@,
        Emotion::Sadness => "#4682B4"@,
        Emotion::Frustration => "#FF6347"@,
        Emotion::Anger => "#DC143C"@,
        Emotion::Fear => "#8B0000"@,
        Emotion::Anxiety => "#DDA0DD"@,
        Emotion::Disappointment => "#708090"@,
        Emotion::Confusion => "#D2691E"@,
        Emotion::Curiosity => "#00CED1"@,
        Emotion::Neutral => "#C0C0C0"@,
        Emotion::Trust => "#4169E1"@,
        Emotion::Skepticism => "#808080"@,
    }
}

/// Whether `c` is a digit or an uppercase letter from A to F.
pub open spec fn upper_hex_digit(c: char) -> bool {
    ('0' <= c && c <= '9') || ('A' <= c && c <= 'F')
}

proof fn lemma_color_text(e: Emotion)
    ensures
        emotion_color(e).len() == 7,
        emotion_color(e)[0] == '#',
        forall|i: int| 1 <= i < 7 ==> upper_hex_digit(#[trigger] emotion_color(e)[i]),
{
    reveal_strlit("#FFD700");
    reveal_strlit("#90EE90");
    reveal_strlit("#FF69B4");
    reveal_strlit("#FF4500");
    reveal_strlit("#87CEEB");
    reveal_strlit("#4682B4");
    reveal_strlit("#FF6347");
    reveal_strlit("#DC143C");
    reveal_strlit("#8B0000");
    reveal_strlit("#DDA0DD");
    reveal_strlit("#708090");
    reveal_strlit("#D2691E");
    reveal_strlit("#00CED1");
    reveal_strlit("#C0C0C0");
    reveal_strlit("#4169E1");
    reveal_strlit("#808080");
}

/// Every emotion's colour is written `#` and six hexadecimal digits in
/// upper case, and no two emotions share a colour.
pub proof fn colors_are_distinct_hex_codes(e: Emotion, f: Emotion)
    ensures
        emotion_color(e).len() == 7,
        emotion_color(e)[0] == '#',
        forall|i: int| 1 <= i < 7 ==> upper_hex_digit(#[trigger] emotion_color(e)[i]),
        e != f ==> emotion_color(e) != emotion_color(f),
{
    lemma_color_text(e);
    reveal_strlit("#FFD700");
    reveal_strlit("#90EE90");
    reveal_strlit("#FF69B4");
    reveal_strlit("#FF4500");
    reveal_strlit("#87CEEB");
    reveal_strlit("#4682B4");
    reveal_strlit("#FF6347");
    reveal_strlit("#DC143C");
    reveal_strlit("#8B0000");
    reveal_strlit("#DDA0DD");
    reveal_strlit("#708090");
    reveal_strlit("#D2691E");
    reveal_strlit("#00CED1");
    reveal_strlit("#C0C0C0");
    reveal_strlit("#4169E1");
    reveal_strlit("#808080");
    if emotion_color(e) == emotion_color(f) {
        let a = emotion_color(e);
        let b = emotion_color(f);
        assert(a[1] == b[1] && a[2] == b[2] && a[3] == b[3] && a[4] == b[4] && a[5] == b[5] && a[6] == b[6]);
    }
}

impl Emotion {
    /// Get emotion color for visualization.
    pub fn color(&self) -> (c: &'static str)
        ensures
            c@ == emotion_color(*self),
    {
        match self {
            Emotion::Joy => "#FFD700",
            Emotion::Satisfaction => "#90EE90",
            Emotion::Surprise => "#FF69B4",
            Emotion::Excitement => "#FF4500",
            Emotion::Relief => "#87CEEB",
            Emotion::Sadness => "#4682B4",
            Emotion::Frustration => "#FF6347",
            Emotion::Anger => "#DC143C",
            Emotion::Fear => "#8B0000",
            Emotion::Anxiety => "#DDA0DD",
            Emotion::Disappointment => "#708090",
            Emotion::Confusion => "#D2691E",
            Emotion::Curiosity => "#00CED1",
            Emotion::Neutral => "#C0C0C0",
            Emotion::Trust => "#4169E1",
            Emotion::Skepticism => "#808080",
        }
    }
}

/// How pleasant an emotion is, in tenths from -10 (unpleasant) to 10.
pub open spec fn valence_of(e: Emotion) -> int {
    match e {
        Emotion::Joy => 9,
        Emotion::Satisfaction => 7,
        Emotion::Surprise => 3,
        Emotion::Excitement => 8,
        Emotion::Relief => 6,
        Emotion::Sadness => -8,
        Emotion::Frustration => -6,
        Emotion::Anger => -7,
        Emotion::Fear => -6,
        Emotion::Anxiety => -5,
        Emotion::Disappointment => -5,
        Emotion::Confusion => -2,
        Emotion::Curiosity => 2,
        Emotion::Neutral => 0,
        Emotion::Trust => 6,
        Emotion::Skepticism => -3,
    }
}

/// How activating an emotion is, in tenths from 0 (calm) to 10.
pub open spec fn arousal_of(e: Emotion) -> u8 {
    match e {
        Emotion::Joy => 7,
        Emotion::Satisfaction => 4,
        Emotion::Surprise => 9,
        Emotion::Excitement => 9,
        Emotion::Relief => 5,
        Emotion::Sadness => 4,
        Emotion::Frustration => 7,
        Emotion::Anger => 8,
        Emotion::Fear => 8,
        Emotion::Anxiety => 7,
        Emotion::Disappointment => 5,
        Emotion::Confusion => 6,
        Emotion::Curiosity => 6,
        Emotion::Neutral => 1,
        Emotion::Trust => 4,
        Emotion::Skepticism => 3,
    }
}

/// Valence and arousal stay on their scales, and valence has the sign of
/// the feeling: joy, satisfaction, surprise, excitement, relief, curiosity
/// and trust are pleasant; sadness, frustration, anger, fear, anxiety,
/// disappointment, confusion and skepticism unpleasant; neutrality neither.
/// Sadness is the most unpleasant feeling and joy the most pleasant;
/// neutrality is the calmest.
pub proof fn feelings_have_signed_valence(e: Emotion)
    ensures
        -10 <= valence_of(e) <= 10,
        arousal_of(e) <= 10,
        e == Emotion::Joy || e == Emotion::Satisfaction || e == Emotion::Surprise || e == Emotion::Excitement
            || e == Emotion::Relief || e == Emotion::Curiosity || e == Emotion::Trust ==> valence_of(e) > 0,
        e == Emotion::Sadness || e == Emotion::Frustration || e == Emotion::Anger || e == Emotion::Fear
            || e == Emotion::Anxiety || e == Emotion::Disappointment || e == Emotion::Confusion
            || e == Emotion::Skepticism ==> valence_of(e) < 0,
        valence_of(Emotion::Neutral) == 0,
        valence_of(Emotion::Sadness) <= valence_of(e) <= valence_of(Emotion::Joy),
        arousal_of(Emotion::Neutral) <= arousal_of(e),
{
}

impl Emotion {
    /// The emotion's valence, in tenths.
    pub fn valence_tenths(&self) -> (v: i8)
        ensures
            v == valence_of(*self),
    {
        match self {
            Emotion::Joy => 9,
            Emotion::Satisfaction => 7,
            Emotion::Surprise => 3,
            Emotion::Excitement => 8,
            Emotion::Relief => 6,
            Emotion::Sadness => -8,
            Emotion::Frustration => -6,
            Emotion::Anger => -7,
            Emotion::Fear => -6,
            Emotion::Anxiety => -5,
            Emotion::Disappointment => -5,
            Emotion::Confusion => -2,
            Emotion::Curiosity => 2,
            Emotion::Neutral => 0,
            Emotion::Trust => 6,
            Emotion::Skepticism => -3,
        }
    }

    /// The emotion's arousal, in tenths.
    pub fn arousal_tenths(&self) -> (a: u8)
        ensures
            a == arousal_of(*self),
    {
        match self {
            Emotion::Joy => 7,
            Emotion::Satisfaction => 4,
            Emotion::Surprise => 9,
            Emotion::Excitement => 9,
            Emotion::Relief => 5,
            Emotion::Sadness => 4,
            Emotion::Frustration => 7,
            Emotion::Anger => 8,
            Emotion::Fear => 8,
            Emotion::Anxiety => 7,
            Emotion::Disappointment => 5,
            Emotion::Confusion => 6,
            Emotion::Curiosity => 6,
            Emotion::Neutral => 1,
            Emotion::Trust => 4,
            Emotion::Skepticism => 3,
        }
    }
}

/// A keyword table: each emotion with its indicator phrases.
pub type PatternTable = Seq<(Emotion, Seq<Seq<char>>)>;

/// The view of a keyword table.
pub open spec fn table_view(t: Seq<(Emotion, Vec<&'static str>)>) -> PatternTable {
    t.map_values(|e: (Emotion, Vec<&'static str>)| (e.0, e.1@.map_values(|p: &'static str| p@)))
}

/// Indicators of positive emotions.
pub open spec fn positive_table() -> PatternTable {
    seq![
        (Emotion::Joy, seq!["太好了"@, "完美"@, "太棒了"@, "非常好"@, "棒"@, "优秀"@, "厉害"@, "great"@, "perfect"@, "excellent"@, "awesome"@, "amazing"@, "wonderful"@]),
        (Emotion::Satisfaction, seq!["满意"@, "还不错"@, "可以"@, "还行"@, "ok"@, "okay"@, "satisfied"@, "good"@, "fine"@, "acceptable"@]),
        (Emotion::Excitement, seq!["太激动了"@, "期待"@, "好兴奋"@, "迫不及待"@, "excited"@, "can't wait"@, "looking forward"@, "thrilled"@]),
        (Emotion::Relief, seq!["终于"@, "松了口气"@, "好险"@, "解决了"@, "finally"@, "relief"@, "thank god"@, "sorted out"@]),
        (Emotion::Surprise, seq!["真的吗"@, "没想到"@, "惊了"@, "哇"@, "really?"@, "wow"@, "surprised"@, "unexpected"@, "omg"@]),
        (Emotion::Trust, seq!["相信"@, "信任"@, "靠谱"@, "放心"@, "trust"@, "believe"@, "reliable"@, "confident"@]),
    ]
}

/// Indicators of negative emotions.
pub open spec fn negative_table() -> PatternTable {
    seq![
        (Emotion::Frustration, seq!["烦"@, "头疼"@, "难"@, "搞不懂"@, "搞不定"@, "frustrated"@, "annoying"@, "difficult"@, "troublesome"@, "can't figure out"@]),
        (Emotion::Anger, seq!["生气"@, "愤怒"@, "讨厌"@, "烦人"@, "垃圾"@, "angry"@, "mad"@, "hate"@, "terrible"@, "awful"@, "worst"@]),
        (Emotion::Sadness, seq!["难过"@, "伤心"@, "失落"@, "沮丧"@, "sad"@, "upset"@, "disappointed"@, "depressed"@, "unhappy"@]),
        (Emotion::Fear, seq!["担心"@, "害怕"@, "怕"@, "紧张"@, "worried"@, "afraid"@, "scared"@, "nervous"@, "anxious"@]),
        (Emotion::Anxiety, seq!["焦虑"@, "不安"@, "着急"@, "急"@, "anxious"@, "worried"@, "uneasy"@, "pressured"@, "urgent"@]),
        (Emotion::Disappointment, seq!["失望"@, "不行"@, "没用"@, "浪费"@, "disappointed"@, "failed"@, "useless"@, "waste"@, "doesn't work"@]),
    ]
}

/// Indicators of neutral or mixed emotions.
pub open spec fn neutral_table() -> PatternTable {
    seq![
        (Emotion::Confusion, seq!["不懂"@, "什么意思"@, "不明白"@, "哪个"@, "don't understand"@, "what do you mean"@, "confused"@, "which one"@]),
        (Emotion::Curiosity, seq!["为什么"@, "怎么"@, "是什么"@, "好奇"@, "why"@, "how"@, "what is"@, "wondering"@, "curious"@]),
        (Emotion::Neutral, seq!["好"@, "嗯"@, "哦"@, "行"@, "ok"@, "okay"@, "sure"@, "alright"@, "fine"@]),
        (Emotion::Skepticism, seq!["真的吗"@, "不太信"@, "不确定"@, "怀疑"@, "really?"@, "not sure"@, "doubtful"@, "skeptical"@, "suspicious"@]),
    ]
}

/// Emotion detection patterns.
#[derive(Debug, Clone)]
pub struct EmotionPatterns {
    positive_patterns: Vec<(Emotion, Vec<&'static str>)>,
    negative_patterns: Vec<(Emotion, Vec<&'static str>)>,
    neutral_patterns: Vec<(Emotion, Vec<&'static str>)>,
}

impl EmotionPatterns {
    /// The positive, negative and neutral tables, in that order.
    pub closed spec fn tables(self) -> Seq<PatternTable> {
        seq![
            table_view(self.positive_patterns@),
            table_view(self.negative_patterns@),
            table_view(self.neutral_patterns@),
        ]
    }

    pub fn new() -> (p: Self)
        ensures
            p.tables() == seq![positive_table(), negative_table(), neutral_table()],
    {
        let positive_patterns = vec![
            (Emotion::Joy, vec!["太好了", "完美", "太棒了", "非常好", "棒", "优秀", "厉害", "great", "perfect", "excellent", "awesome", "amazing", "wonderful"]),
            (Emotion::Satisfaction, vec!["满意", "还不错", "可以", "还行", "ok", "okay", "satisfied", "good", "fine", "acceptable"]),
            (Emotion::Excitement, vec!["太激动了", "期待", "好兴奋", "迫不及待", "excited", "can't wait", "looking forward", "thrilled"]),
            (Emotion::Relief, vec!["终于", "松了口气", "好险", "解决了", "finally", "relief", "thank god", "sorted out"]),
            (Emotion::Surprise, vec!["真的吗", "没想到", "惊了", "哇", "really?", "wow", "surprised", "unexpected", "omg"]),
            (Emotion::Trust, vec!["相信", "信任", "靠谱", "放心", "trust", "believe", "reliable", "confident"]),
        ];
        let negative_patterns = vec![
            (Emotion::Frustration, vec!["烦", "头疼", "难", "搞不懂", "搞不定", "frustrated", "annoying", "difficult", "troublesome", "can't figure out"]),
            (Emotion::Anger, vec!["生气", "愤怒", "讨厌", "烦人", "垃圾", "angry", "mad", "hate", "terrible", "awful", "worst"]),
            (Emotion::Sadness, vec!["难过", "伤心", "失落", "沮丧", "sad", "upset", "disappointed", "depressed", "unhappy"]),
            (Emotion::Fear, vec!["担心", "害怕", "怕", "紧张", "worried", "afraid", "scared", "nervous", "anxious"]),
            (Emotion::Anxiety, vec!["焦虑", "不安", "着急", "急", "anxious", "worried", "uneasy", "pressured", "urgent"]),
            (Emotion::Disappointment, vec!["失望", "不行", "没用", "浪费", "disappointed", "failed", "useless", "waste", "doesn't work"]),
        ];
        let neutral_patterns = vec![
            (Emotion::Confusion, vec!["不懂", "什么意思", "不明白", "哪个", "don't understand", "what do you mean", "confused", "which one"]),
            (Emotion::Curiosity, vec!["为什么", "怎么", "是什么", "好奇", "why", "how", "what is", "wondering", "curious"]),
            (Emotion::Neutral, vec!["好", "嗯", "哦", "行", "ok", "okay", "sure", "alright", "fine"]),
            (Emotion::Skepticism, vec!["真的吗", "不太信", "不确定", "怀疑", "really?", "not sure", "doubtful", "skeptical", "suspicious"]),
        ];
        let p = EmotionPatterns { positive_patterns, negative_patterns, neutral_patterns };
        assert(table_view(p.positive_patterns@) =~~= positive_table());
        assert(table_view(p.negative_patterns@) =~~= negative_table());
        assert(table_view(p.neutral_patterns@) =~~= neutral_table());
        assert(p.tables() =~~= seq![positive_table(), negative_table(), neutral_table()]);
        p
    }
}

/// How many times `n` occurs in `h` from position `i`, counting leftmost
/// non-overlapping occurrences (`str::matches(..).count()`); an empty `n`
/// matches at every character boundary (a count held in a `usize`, so at
/// most `usize::MAX`).
pub open spec fn occurrences_from(h: Seq<char>, n: Seq<char>, i: int) -> nat
    decreases h.len() + 1 - i,
{
    if n.len() == 0 {
        if 0 <= i <= h.len() {
            if h.len() - i + 1 > usize::MAX {
                usize::MAX as nat
            } else {
                (h.len() - i + 1) as nat
            }
        } else {
            0
        }
    } else {
        match first_occurrence_from(h, n, i) {
            Some(p) => if i <= p && p + n.len() <= h.len() {
                1 + occurrences_from(h, n, p + n.len())
            } else {
                0
            },
            None => 0,
        }
    }
}

/// Number of non-overlapping occurrences of `n` in `h`.
pub open spec fn occurrences(h: Seq<char>, n: Seq<char>) -> nat {
    occurrences_from(h, n, 0)
}

/// Counts the non-overlapping occurrences of `n` in `h`.
fn count_occurrences(h: &Vec<char>, n: &Vec<char>) -> (c: usize)
    ensures
        c == occurrences(h@, n@),
{
    if n.len() == 0 {
        return if h.len() < usize::MAX { h.len() + 1 } else { usize::MAX };
    }
    let mut count: usize = 0;
    let mut i: usize = 0;
    while i <= h.len()
        invariant
            n@.len() > 0,
            i <= h@.len() + 1,
            count <= i,
            count + occurrences_from(h@, n@, i as int) == occurrences(h@, n@),
        decreases h.len() + 1 - i,
    {
        proof {
            lemma_first_occurrence_from(h@, n@, i as int);
        }
        match find_from(h.as_slice(), n.as_slice(), i) {
            Some(p) => {
                count += 1;
                i = p + n.len();
            },
            None => {
                return count;
            },
        }
    }
    count
}

/// An indicator phrase found in a text.
#[derive(Debug, Clone)]
pub struct EmotionMatch {
    pub emotion: Emotion,
    /// The indicator phrase as the table lists it.
    pub indicator: String,
    /// How many times the phrase occurs in the lowercased text.
    pub occurrences: usize,
}

/// A match as (emotion, indicator, occurrences).
pub type MatchView = (Emotion, Seq<char>, nat);

/// The view of a list of matches.
pub open spec fn matches_view(v: Seq<EmotionMatch>) -> Seq<MatchView> {
    v.map_values(|m: EmotionMatch| (m.emotion, m.indicator@, m.occurrences as nat))
}

/// The indicators of one emotion found in `t`, in table order.
pub open spec fn phrase_matches(t: Seq<char>, e: Emotion, ps: Seq<Seq<char>>) -> Seq<MatchView>
    decreases ps.len(),
{
    if ps.len() == 0 {
        Seq::empty()
    } else {
        let rest = phrase_matches(t, e, ps.drop_last());
        let p = ps.last();
        if seq_contains(t, lowercase(p)) {
            rest.push((e, p, occurrences(t, lowercase(p))))
        } else {
            rest
        }
    }
}

/// The indicators of a whole table found in `t`, in table order.
pub open spec fn table_matches(t: Seq<char>, table: PatternTable) -> Seq<MatchView>
    decreases table.len(),
{
    if table.len() == 0 {
        Seq::empty()
    } else {
        table_matches(t, table.drop_last()) + phrase_matches(t, table.last().0, table.last().1)
    }
}

/// Strength of a match: its occurrences, counted up to four.
pub open spec fn strength(m: MatchView) -> nat {
    if m.2 >= 4 {
        4
    } else {
        m.2
    }
}

/// The matches of strength `k`, in order.
pub open spec fn of_strength(ms: Seq<MatchView>, k: nat) -> Seq<MatchView>
    decreases ms.len(),
{
    if ms.len() == 0 {
        Seq::empty()
    } else if strength(ms.last()) == k {
        of_strength(ms.drop_last(), k).push(ms.last())
    } else {
        of_strength(ms.drop_last(), k)
    }
}

/// The matches from the strongest down, keeping the found order among equals.
pub open spec fn by_strength(ms: Seq<MatchView>) -> Seq<MatchView> {
    of_strength(ms, 4) + of_strength(ms, 3) + of_strength(ms, 2) + of_strength(ms, 1)
}

proof fn lemma_of_strength(ms: Seq<MatchView>, k: nat)
    ensures
        forall|i: int| 0 <= i < of_strength(ms, k).len() ==> strength(#[trigger] of_strength(ms, k)[i]) == k
            && ms.contains(of_strength(ms, k)[i]),
        forall|i: int| 0 <= i < ms.len() && strength(#[trigger] ms[i]) == k
            ==> of_strength(ms, k).contains(ms[i]),
    decreases ms.len(),
{
    if ms.len() > 0 {
        lemma_of_strength(ms.drop_last(), k);
        let rest = of_strength(ms.drop_last(), k);
        assert forall|i: int| 0 <= i < of_strength(ms, k).len() implies strength(#[trigger] of_strength(ms, k)[i]) == k
            && ms.contains(of_strength(ms, k)[i]) by {
            if i < rest.len() {
                assert(of_strength(ms, k)[i] == rest[i]);
                let j = choose|j: int| 0 <= j < ms.drop_last().len() && ms.drop_last()[j] == rest[i];
                assert(ms[j] == rest[i]);
            } else {
                assert(of_strength(ms, k)[i] == ms.last());
                assert(ms[ms.len() - 1] == ms.last());
            }
        }
        assert forall|i: int| 0 <= i < ms.len()
            && strength(#[trigger] ms[i]) == k implies of_strength(ms, k).contains(ms[i]) by {
            if i < ms.len() - 1 {
                assert(ms.drop_last()[i] == ms[i]);
                let j = choose|j: int| 0 <= j < rest.len() && rest[j] == ms[i];
                assert(of_strength(ms, k)[j] == ms[i]);
            } else {
                assert(of_strength(ms, k)[rest.len() as int] == ms[i]);
            }
        }
    }
}

/// Detected indicators come strongest first: along the list the strength
/// (occurrences, counted up to four) never increases; every listed match
/// has strength one to four and is one of the matches found in the tables;
/// and every match found with at least one occurrence is listed.
pub proof fn detections_come_strongest_first(ms: Seq<MatchView>)
    ensures
        forall|a: int, b: int|
            0 <= a < b < by_strength(ms).len() ==> strength(#[trigger] by_strength(ms)[a]) >= strength(
                #[trigger] by_strength(ms)[b],
            ),
        forall|a: int|
            0 <= a < by_strength(ms).len() ==> 1 <= strength(#[trigger] by_strength(ms)[a]) <= 4
                && ms.contains(by_strength(ms)[a]),
        forall|i: int| 0 <= i < ms.len() && ms[i].2 >= 1 ==> by_strength(ms).contains(#[trigger] ms[i]),
{
    let s4 = of_strength(ms, 4);
    let s3 = of_strength(ms, 3);
    let s2 = of_strength(ms, 2);
    let s1 = of_strength(ms, 1);
    lemma_of_strength(ms, 4);
    lemma_of_strength(ms, 3);
    lemma_of_strength(ms, 2);
    lemma_of_strength(ms, 1);
    let d = by_strength(ms);
    assert(d == s4 + s3 + s2 + s1);
    let n4 = s4.len() as int;
    let n3 = n4 + s3.len();
    let n2 = n3 + s2.len();
    assert forall|a: int| 0 <= a < d.len() implies (#[trigger] d[a] == (if a < n4 {
        s4[a]
    } else if a < n3 {
        s3[a - n4]
    } else if a < n2 {
        s2[a - n3]
    } else {
        s1[a - n2]
    })) && strength(d[a]) == (if a < n4 {
        4nat
    } else if a < n3 {
        3nat
    } else if a < n2 {
        2nat
    } else {
        1nat
    }) && ms.contains(d[a]) by {
        if a < n4 {
            assert(s4[a] == s4[a]);
        } else if a < n3 {
            assert(s3[a - n4] == s3[a - n4]);
        } else if a < n2 {
            assert(s2[a - n3] == s2[a - n3]);
        } else {
            assert(s1[a - n2] == s1[a - n2]);
        }
    }
    assert forall|i: int| 0 <= i < ms.len() && ms[i].2 >= 1 implies d.contains(#[trigger] ms[i]) by {
        let k = strength(ms[i]);
        assert(ms[i] == ms[i]);
        if k == 4 {
            let j = choose|j: int| 0 <= j < s4.len() && s4[j] == ms[i];
            assert(d[j] == ms[i]);
        } else if k == 3 {
            let j = choose|j: int| 0 <= j < s3.len() && s3[j] == ms[i];
            assert(d[n4 + j] == ms[i]);
        } else if k == 2 {
            let j = choose|j: int| 0 <= j < s2.len() && s2[j] == ms[i];
            assert(d[n3 + j] == ms[i]);
        } else {
            let j = choose|j: int| 0 <= j < s1.len() && s1[j] == ms[i];
            assert(d[n2 + j] == ms[i]);
        }
    }
}

/// All indicators found in `text`: positive, then negative, then neutral
/// tables, strongest first.
pub open spec fn detected(tables: Seq<PatternTable>, text: Seq<char>) -> Seq<MatchView> {
    let t = lowercase(text);
    by_strength(table_matches(t, tables[0]) + table_matches(t, tables[1]) + table_matches(t, tables[2]))
}

/// Appends the indicators of `table` found in `t`.
fn collect_table(table: &Vec<(Emotion, Vec<&'static str>)>, t: &Vec<char>, out: &mut Vec<EmotionMatch>)
    ensures
        matches_view(final(out)@) == matches_view(old(out)@) + table_matches(t@, table_view(table@)),
{
    let ghost tv = table_view(table@);
    let ghost start = matches_view(out@);
    let mut i: usize = 0;
    while i < table.len()
        invariant
            i <= table@.len(),
            tv == table_view(table@),
            matches_view(out@) == start + table_matches(t@, tv.take(i as int)),
        decreases table.len() - i,
    {
        assert(tv.take(i + 1).drop_last() =~= tv.take(i as int));
        let emotion = table[i].0;
        let phrases = &table[i].1;
        let ghost ps = phrases@.map_values(|p: &'static str| p@);
        let ghost mid = matches_view(out@);
        let mut j: usize = 0;
        while j < phrases.len()
            invariant
                j <= phrases@.len(),
                ps == phrases@.map_values(|p: &'static str| p@),
                matches_view(out@) == mid + phrase_matches(t@, emotion, ps.take(j as int)),
            decreases phrases.len() - j,
        {
            assert(ps.take(j + 1).drop_last() =~= ps.take(j as int));
            assert(ps[j as int] == phrases@[j as int]@);
            let pattern = phrases[j];
            let lowered = to_lower(pattern);
            let n = chars_of(lowered.as_str());
            if crate::text::contains_chars(t.as_slice(), n.as_slice()) {
                let count = count_occurrences(t, &n);
                let ghost before = out@;
                out.push(EmotionMatch { emotion, indicator: pattern.to_owned(), occurrences: count });
                assert(matches_view(out@) =~= matches_view(before).push((emotion, pattern@, count as nat)));
            }
            j += 1;
        }
        assert(ps.take(phrases@.len() as int) =~= ps);
        assert(tv[i as int] == (emotion, ps));
        i += 1;
    }
    assert(tv.take(table@.len() as int) =~= tv);
}

/// Appends the matches of strength `k` among `ms`, in order.
fn append_of_strength(ms: &Vec<EmotionMatch>, k: usize, out: &mut Vec<EmotionMatch>)
    requires
        1 <= k <= 4,
    ensures
        matches_view(final(out)@) == matches_view(old(out)@) + of_strength(matches_view(ms@), k as nat),
{
    let ghost mv = matches_view(ms@);
    let ghost start = matches_view(out@);
    let mut i: usize = 0;
    while i < ms.len()
        invariant
            i <= ms@.len(),
            1 <= k <= 4,
            mv == matches_view(ms@),
            matches_view(out@) == start + of_strength(mv.take(i as int), k as nat),
        decreases ms.len() - i,
    {
        assert(mv.take(i + 1).drop_last() =~= mv.take(i as int));
        let c = ms[i].occurrences;
        let s: usize = if c >= 4 { 4 } else { c };
        if s == k {
            let ghost before = out@;
            out.push(EmotionMatch {
                emotion: ms[i].emotion,
                indicator: ms[i].indicator.clone(),
                occurrences: c,
            });
            assert(matches_view(out@) =~= matches_view(before).push(mv[i as int]));
        }
        i += 1;
    }
    assert(mv.take(ms@.len() as int) =~= mv);
}

impl EmotionPatterns {
    /// Detect emotions from text: every indicator phrase that occurs in the
    /// lowercased text, strongest (most repeated) first.
    pub fn detect(&self, text: &str) -> (r: Vec<EmotionMatch>)
        ensures
            matches_view(r@) == detected(self.tables(), text@),
    {
        let lowered = to_lower(text);
        let t = chars_of(lowered.as_str());
        let mut found: Vec<EmotionMatch> = Vec::new();
        collect_table(&self.positive_patterns, &t, &mut found);
        collect_table(&self.negative_patterns, &t, &mut found);
        collect_table(&self.neutral_patterns, &t, &mut found);
        let mut ordered: Vec<EmotionMatch> = Vec::new();
        append_of_strength(&found, 4, &mut ordered);
        append_of_strength(&found, 3, &mut ordered);
        append_of_strength(&found, 2, &mut ordered);
        append_of_strength(&found, 1, &mut ordered);
        ordered
    }
}

} // verus!
