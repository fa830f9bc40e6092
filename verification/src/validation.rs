//! The issues answer validation reports, and the suggestions that follow
//! from them.
use vstd::prelude::*;
use vstd::string::StringExecFns;
use crate::validator::{
    claim_supported_by_source, extract_claims, extract_specific_claims, kept_sentences, missing_aspects,
    missing_aspects_of, sentences, strings_view, supported_by,
};

verus! {

broadcast use vstd::string::group_string_axioms;

/// How serious an issue is.
#[derive(Debug, Clone, Copy, PartialEq, Eq, Structural)]
pub enum Severity {
    Low,
    Medium,
    High,
    Critical,
}

/// A problem found in an answer.
#[derive(Debug, Clone)]
pub enum ValidationIssue {
    FactualInconsistency { detail: String, severity: Severity },
    IrrelevantContent { detail: String },
    IncompleteAnswer { missing: Vec<String> },
    PotentialHallucination { claim: String },
    UnclearStatement { statement: String },
    Contradiction { statement1: String, statement2: String },
}

/// The mathematical form of an issue.
pub enum IssueView {
    FactualInconsistency(Seq<char>, Severity),
    IrrelevantContent(Seq<char>),
    IncompleteAnswer(Seq<Seq<char>>),
    PotentialHallucination(Seq<char>),
    UnclearStatement(Seq<char>),
    Contradiction(Seq<char>, Seq<char>),
}

impl View for ValidationIssue {
    type V = IssueView;

    open spec fn view(&self) -> IssueView {
        match self {
            ValidationIssue::FactualInconsistency { detail, severity } => IssueView::FactualInconsistency(
                detail@,
                *severity,
            ),
            ValidationIssue::IrrelevantContent { detail } => IssueView::IrrelevantContent(detail@),
            ValidationIssue::IncompleteAnswer { missing } => IssueView::IncompleteAnswer(strings_view(missing@)),
            ValidationIssue::PotentialHallucination { claim } => IssueView::PotentialHallucination(claim@),
            ValidationIssue::UnclearStatement { statement } => IssueView::UnclearStatement(statement@),
            ValidationIssue::Contradiction { statement1, statement2 } => IssueView::Contradiction(
                statement1@,
                statement2@,
            ),
        }
    }
}

/// The views of a list of issues.
pub open spec fn issues_view(v: Seq<ValidationIssue>) -> Seq<IssueView> {
    v.map_values(|i: ValidationIssue| i@)
}

/// Whether one of `sources` supports `claim`.
pub open spec fn supported_by_any(claim: Seq<char>, sources: Seq<Seq<char>>) -> bool {
    exists|k: int| 0 <= k < sources.len() && supported_by(claim, #[trigger] sources[k])
}

/// The claims that no source supports, in order.
pub open spec fn unsupported(claims: Seq<Seq<char>>, sources: Seq<Seq<char>>) -> Seq<Seq<char>>
    decreases claims.len(),
{
    if claims.len() == 0 {
        Seq::empty()
    } else {
        let rest = unsupported(claims.drop_last(), sources);
        if supported_by_any(claims.last(), sources) {
            rest
        } else {
            rest.push(claims.last())
        }
    }
}

proof fn lemma_unsupported_len(claims: Seq<Seq<char>>, sources: Seq<Seq<char>>)
    ensures
        unsupported(claims, sources).len() <= claims.len(),
    decreases claims.len(),
{
    if claims.len() > 0 {
        lemma_unsupported_len(claims.drop_last(), sources);
    }
}

/// Whether one of `sources` supports `claim`.
fn supported_by_some(claim: &str, sources: &Vec<String>) -> (r: bool)
    ensures
        r == supported_by_any(claim@, strings_view(sources@)),
{
    let ghost sv = strings_view(sources@);
    let mut k: usize = 0;
    while k < sources.len()
        invariant
            k <= sources@.len(),
            sv == strings_view(sources@),
            forall|j: int| 0 <= j < k ==> !supported_by(claim@, #[trigger] sv[j]),
        decreases sources.len() - k,
    {
        if claim_supported_by_source(claim, sources[k].as_str()) {
            assert(supported_by(claim@, sv[k as int]));
            return true;
        }
        k += 1;
    }
    false
}

/// The claims of `claims` that no source supports, in order.
fn unsupported_of(claims: &Vec<String>, sources: &Vec<String>) -> (r: Vec<String>)
    ensures
        strings_view(r@) == unsupported(strings_view(claims@), strings_view(sources@)),
{
    let ghost cv = strings_view(claims@);
    let ghost sv = strings_view(sources@);
    let mut r: Vec<String> = Vec::new();
    let mut i: usize = 0;
    while i < claims.len()
        invariant
            i <= claims@.len(),
            cv == strings_view(claims@),
            sv == strings_view(sources@),
            strings_view(r@) == unsupported(cv.take(i as int), sv),
        decreases claims.len() - i,
    {
        assert(cv.take(i + 1).drop_last() =~= cv.take(i as int));
        assert(cv[i as int] == claims@[i as int]@);
        if !supported_by_some(claims[i].as_str(), sources) {
            let ghost before = r@;
            r.push(claims[i].clone());
            assert(strings_view(r@) =~= strings_view(before).push(cv[i as int]));
        }
        i += 1;
    }
    assert(cv.take(claims@.len() as int) =~= cv);
    r
}

/// The outcome of checking an answer's claims against sources.
pub struct FactualCheck {
    /// Claims in the answer.
    pub total_claims: usize,
    /// Claims some source supports.
    pub consistent_claims: usize,
    /// One issue for each unsupported claim.
    pub issues: Vec<ValidationIssue>,
}

/// The issue reported for a claim no source supports.
pub open spec fn inconsistency(claim: Seq<char>) -> IssueView {
    IssueView::FactualInconsistency("Claim not found in sources: "@ + claim, Severity::Medium)
}

/// Check the claims of an answer against the contents of its sources.
pub fn check_factual_consistency(answer: &str, sources: &Vec<String>) -> (r: FactualCheck)
    ensures
        r.total_claims == kept_sentences(sentences(answer@), false).len(),
        r.consistent_claims == kept_sentences(sentences(answer@), false).len() - unsupported(
            kept_sentences(sentences(answer@), false),
            strings_view(sources@),
        ).len(),
        issues_view(r.issues@) == unsupported(
            kept_sentences(sentences(answer@), false),
            strings_view(sources@),
        ).map_values(|c: Seq<char>| inconsistency(c)),
{
    let claims = extract_claims(answer);
    let missing = unsupported_of(&claims, sources);
    proof {
        lemma_unsupported_len(strings_view(claims@), strings_view(sources@));
    }
    let ghost mv = strings_view(missing@);
    let mut issues: Vec<ValidationIssue> = Vec::new();
    let mut i: usize = 0;
    while i < missing.len()
        invariant
            i <= missing@.len(),
            mv == strings_view(missing@),
            issues_view(issues@) == mv.take(i as int).map_values(|c: Seq<char>| inconsistency(c)),
        decreases missing.len() - i,
    {
        let mut detail = "Claim not found in sources: ".to_owned();
        detail.append(missing[i].as_str());
        let ghost before = issues@;
        assert(mv[i as int] == missing@[i as int]@);
        let issue = ValidationIssue::FactualInconsistency { detail, severity: Severity::Medium };
        assert(issue@ == inconsistency(mv[i as int]));
        issues.push(issue);
        assert(issues_view(issues@) =~= issues_view(before).push(inconsistency(mv[i as int])));
        assert(mv.take(i + 1).map_values(|c: Seq<char>| inconsistency(c)) =~= mv.take(i as int).map_values(
            |c: Seq<char>| inconsistency(c),
        ).push(inconsistency(mv[i as int])));
        i += 1;
    }
    assert(mv.take(missing@.len() as int) =~= mv);
    FactualCheck { total_claims: claims.len(), consistent_claims: claims.len() - missing.len(), issues }
}

/// Report the specific claims (figures, numbers) of an answer that no
/// source supports, as potential hallucinations.
pub fn unsupported_specific_claims(answer: &str, sources: &Vec<String>) -> (r: Vec<ValidationIssue>)
    ensures
        issues_view(r@) == unsupported(kept_sentences(sentences(answer@), true), strings_view(sources@)).map_values(
            |c: Seq<char>| IssueView::PotentialHallucination(c),
        ),
{
    let claims = extract_specific_claims(answer);
    let missing = unsupported_of(&claims, sources);
    let ghost mv = strings_view(missing@);
    let mut issues: Vec<ValidationIssue> = Vec::new();
    let mut i: usize = 0;
    while i < missing.len()
        invariant
            i <= missing@.len(),
            mv == strings_view(missing@),
            issues_view(issues@) == mv.take(i as int).map_values(|c: Seq<char>| IssueView::PotentialHallucination(c)),
        decreases missing.len() - i,
    {
        let ghost before = issues@;
        assert(mv[i as int] == missing@[i as int]@);
        let issue = ValidationIssue::PotentialHallucination { claim: missing[i].clone() };
        assert(issue@ == IssueView::PotentialHallucination(mv[i as int]));
        issues.push(issue);
        assert(issues_view(issues@) =~= issues_view(before).push(IssueView::PotentialHallucination(mv[i as int])));
        assert(mv.take(i + 1).map_values(|c: Seq<char>| IssueView::PotentialHallucination(c)) =~= mv.take(
            i as int,
        ).map_values(|c: Seq<char>| IssueView::PotentialHallucination(c)).push(
            IssueView::PotentialHallucination(mv[i as int]),
        ));
        i += 1;
    }
    assert(mv.take(missing@.len() as int) =~= mv);
    issues
}

/// The issue for what an answer leaves out of a query, if it leaves out anything.
pub fn completeness_issue(answer: &str, query: &str) -> (r: Option<ValidationIssue>)
    ensures
        missing_aspects_of(answer@, query@).len() == 0 <==> r is None,
        r matches Some(i) ==> i@ == IssueView::IncompleteAnswer(missing_aspects_of(answer@, query@)),
{
    let missing = missing_aspects(answer, query);
    if missing.len() == 0 {
        None
    } else {
        Some(ValidationIssue::IncompleteAnswer { missing })
    }
}

/// Which scores fell short: factual consistency, relevance or completeness
/// below 0.7, or hallucination risk above 0.3.
#[derive(Debug, Clone, Copy, PartialEq, Eq, Structural)]
pub struct ScoreFlags {
    pub low_factual_consistency: bool,
    pub low_relevance: bool,
    pub low_completeness: bool,
    pub high_hallucination_risk: bool,
}

/// The suggestions for scores that fell short, in order.
pub open spec fn score_suggestions(f: ScoreFlags) -> Seq<Seq<char>> {
    let a = if f.low_factual_consistency {
        seq!["Verify facts against provided sources"@]
    } else {
        Seq::empty()
    };
    let b = if f.low_relevance {
        a.push("Focus more directly on the user's question"@)
    } else {
        a
    };
    let c = if f.low_completeness {
        b.push("Provide a more comprehensive answer"@)
    } else {
        b
    };
    if f.high_hallucination_risk {
        c.push("Avoid making unsupported claims"@)
    } else {
        c
    }
}

/// One suggestion for each score that fell short, in this order: `Verify
/// facts against provided sources` for low factual consistency, `Focus more
/// directly on the user's question` for low relevance, `Provide a more
/// comprehensive answer` for low completeness, and `Avoid making unsupported
/// claims` for a high hallucination risk; none for a score that did not.
pub proof fn short_scores_each_get_a_suggestion(f: ScoreFlags)
    ensures
        score_suggestions(f).contains("Verify facts against provided sources"@) <==> f.low_factual_consistency,
        score_suggestions(f).contains("Focus more directly on the user's question"@) <==> f.low_relevance,
        score_suggestions(f).contains("Provide a more comprehensive answer"@) <==> f.low_completeness,
        score_suggestions(f).contains("Avoid making unsupported claims"@) <==> f.high_hallucination_risk,
        score_suggestions(f).len() == (if f.low_factual_consistency { 1int } else { 0int }) + (if f.low_relevance { 1int } else { 0int }) + (if f.low_completeness { 1int } else { 0int }) + (if f.high_hallucination_risk { 1int } else { 0int }),
{
    reveal_strlit("Verify facts against provided sources");
    reveal_strlit("Focus more directly on the user's question");
    reveal_strlit("Provide a more comprehensive answer");
    reveal_strlit("Avoid making unsupported claims");
    assert("Verify facts against provided sources"@.len() != "Focus more directly on the user's question"@.len());
    assert("Verify facts against provided sources"@.len() != "Provide a more comprehensive answer"@.len());
    assert("Verify facts against provided sources"@.len() != "Avoid making unsupported claims"@.len());
    assert("Focus more directly on the user's question"@.len() != "Provide a more comprehensive answer"@.len());
    assert("Focus more directly on the user's question"@.len() != "Avoid making unsupported claims"@.len());
    assert("Provide a more comprehensive answer"@.len() != "Avoid making unsupported claims"@.len());
    let r = score_suggestions(f);
    if f.low_factual_consistency && f.low_relevance && f.low_completeness && f.high_hallucination_risk {
        assert(r =~= seq!["Verify facts against provided sources"@, "Focus more directly on the user's question"@, "Provide a more comprehensive answer"@, "Avoid making unsupported claims"@]);
        assert(r[0] == "Verify facts against provided sources"@);
        assert(r[1] == "Focus more directly on the user's question"@);
        assert(r[2] == "Provide a more comprehensive answer"@);
        assert(r[3] == "Avoid making unsupported claims"@);
    }
    if f.low_factual_consistency && f.low_relevance && f.low_completeness && !f.high_hallucination_risk {
        assert(r =~= seq!["Verify facts against provided sources"@, "Focus more directly on the user's question"@, "Provide a more comprehensive answer"@]);
        assert(r[0] == "Verify facts against provided sources"@);
        assert(r[1] == "Focus more directly on the user's question"@);
        assert(r[2] == "Provide a more comprehensive answer"@);
        assert(!r.contains("Avoid making unsupported claims"@));
    }
    if f.low_factual_consistency && f.low_relevance && !f.low_completeness && f.high_hallucination_risk {
        assert(r =~= seq!["Verify facts against provided sources"@, "Focus more directly on the user's question"@, "Avoid making unsupported claims"@]);
        assert(r[0] == "Verify facts against provided sources"@);
        assert(r[1] == "Focus more directly on the user's question"@);
        assert(!r.contains("Provide a more comprehensive answer"@));
        assert(r[2] == "Avoid making unsupported claims"@);
    }
    if f.low_factual_consistency && f.low_relevance && !f.low_completeness && !f.high_hallucination_risk {
        assert(r =~= seq!["Verify facts against provided sources"@, "Focus more directly on the user's question"@]);
        assert(r[0] == "Verify facts against provided sources"@);
        assert(r[1] == "Focus more directly on the user's question"@);
        assert(!r.contains("Provide a more comprehensive answer"@));
        assert(!r.contains("Avoid making unsupported claims"@));
    }
    if f.low_factual_consistency && !f.low_relevance && f.low_completeness && f.high_hallucination_risk {
        assert(r =~= seq!["Verify facts against provided sources"@, "Provide a more comprehensive answer"@, "Avoid making unsupported claims"@]);
        assert(r[0] == "Verify facts against provided sources"@);
        assert(!r.contains("Focus more directly on the user's question"@));
        assert(r[1] == "Provide a more comprehensive answer"@);
        assert(r[2] == "Avoid making unsupported claims"@);
    }
    if f.low_factual_consistency && !f.low_relevance && f.low_completeness && !f.high_hallucination_risk {
        assert(r =~= seq!["Verify facts against provided sources"@, "Provide a more comprehensive answer"@]);
        assert(r[0] == "Verify facts against provided sources"@);
        assert(!r.contains("Focus more directly on the user's question"@));
        assert(r[1] == "Provide a more comprehensive answer"@);
        assert(!r.contains("Avoid making unsupported claims"@));
    }
    if f.low_factual_consistency && !f.low_relevance && !f.low_completeness && f.high_hallucination_risk {
        assert(r =~= seq!["Verify facts against provided sources"@, "Avoid making unsupported claims"@]);
        assert(r[0] == "Verify facts against provided sources"@);
        assert(!r.contains("Focus more directly on the user's question"@));
        assert(!r.contains("Provide a more comprehensive answer"@));
        assert(r[1] == "Avoid making unsupported claims"@);
    }
    if f.low_factual_consistency && !f.low_relevance && !f.low_completeness && !f.high_hallucination_risk {
        assert(r =~= seq!["Verify facts against provided sources"@]);
        assert(r[0] == "Verify facts against provided sources"@);
        assert(!r.contains("Focus more directly on the user's question"@));
        assert(!r.contains("Provide a more comprehensive answer"@));
        assert(!r.contains("Avoid making unsupported claims"@));
    }
    if !f.low_factual_consistency && f.low_relevance && f.low_completeness && f.high_hallucination_risk {
        assert(r =~= seq!["Focus more directly on the user's question"@, "Provide a more comprehensive answer"@, "Avoid making unsupported claims"@]);
        assert(!r.contains("Verify facts against provided sources"@));
        assert(r[0] == "Focus more directly on the user's question"@);
        assert(r[1] == "Provide a more comprehensive answer"@);
        assert(r[2] == "Avoid making unsupported claims"@);
    }
    if !f.low_factual_consistency && f.low_relevance && f.low_completeness && !f.high_hallucination_risk {
        assert(r =~= seq!["Focus more directly on the user's question"@, "Provide a more comprehensive answer"@]);
        assert(!r.contains("Verify facts against provided sources"@));
        assert(r[0] == "Focus more directly on the user's question"@);
        assert(r[1] == "Provide a more comprehensive answer"@);
        assert(!r.contains("Avoid making unsupported claims"@));
    }
    if !f.low_factual_consistency && f.low_relevance && !f.low_completeness && f.high_hallucination_risk {
        assert(r =~= seq!["Focus more directly on the user's question"@, "Avoid making unsupported claims"@]);
        assert(!r.contains("Verify facts against provided sources"@));
        assert(r[0] == "Focus more directly on the user's question"@);
        assert(!r.contains("Provide a more comprehensive answer"@));
        assert(r[1] == "Avoid making unsupported claims"@);
    }
    if !f.low_factual_consistency && f.low_relevance && !f.low_completeness && !f.high_hallucination_risk {
        assert(r =~= seq!["Focus more directly on the user's question"@]);
        assert(!r.contains("Verify facts against provided sources"@));
        assert(r[0] == "Focus more directly on the user's question"@);
        assert(!r.contains("Provide a more comprehensive answer"@));
        assert(!r.contains("Avoid making unsupported claims"@));
    }
    if !f.low_factual_consistency && !f.low_relevance && f.low_completeness && f.high_hallucination_risk {
        assert(r =~= seq!["Provide a more comprehensive answer"@, "Avoid making unsupported claims"@]);
        assert(!r.contains("Verify facts against provided sources"@));
        assert(!r.contains("Focus more directly on the user's question"@));
        assert(r[0] == "Provide a more comprehensive answer"@);
        assert(r[1] == "Avoid making unsupported claims"@);
    }
    if !f.low_factual_consistency && !f.low_relevance && f.low_completeness && !f.high_hallucination_risk {
        assert(r =~= seq!["Provide a more comprehensive answer"@]);
        assert(!r.contains("Verify facts against provided sources"@));
        assert(!r.contains("Focus more directly on the user's question"@));
        assert(r[0] == "Provide a more comprehensive answer"@);
        assert(!r.contains("Avoid making unsupported claims"@));
    }
    if !f.low_factual_consistency && !f.low_relevance && !f.low_completeness && f.high_hallucination_risk {
        assert(r =~= seq!["Avoid making unsupported claims"@]);
        assert(!r.contains("Verify facts against provided sources"@));
        assert(!r.contains("Focus more directly on the user's question"@));
        assert(!r.contains("Provide a more comprehensive answer"@));
        assert(r[0] == "Avoid making unsupported claims"@);
    }
    if !f.low_factual_consistency && !f.low_relevance && !f.low_completeness && !f.high_hallucination_risk {
        assert(r =~= Seq::<Seq<char>>::empty());
        assert(!r.contains("Verify facts against provided sources"@));
        assert(!r.contains("Focus more directly on the user's question"@));
        assert(!r.contains("Provide a more comprehensive answer"@));
        assert(!r.contains("Avoid making unsupported claims"@));
    }
}

/// The suggestions the issues call for, in order.
pub open spec fn issue_suggestions(issues: Seq<IssueView>) -> Seq<Seq<char>>
    decreases issues.len(),
{
    if issues.len() == 0 {
        Seq::empty()
    } else {
        let rest = issue_suggestions(issues.drop_last());
        match issues.last() {
            IssueView::FactualInconsistency(d, _) => rest.push("Fact check: "@ + d),
            IssueView::IncompleteAnswer(m) => rest + m.map_values(|x: Seq<char>| "Address: "@ + x),
            IssueView::Contradiction(_, _) => rest.push("Resolve contradictions in the answer"@),
            _ => rest,
        }
    }
}

/// Suggestions to improve an answer: first for the scores that fell short,
/// then for each issue.
pub fn generate_suggestions(issues: &Vec<ValidationIssue>, flags: ScoreFlags) -> (r: Vec<String>)
    ensures
        strings_view(r@) == score_suggestions(flags) + issue_suggestions(issues_view(issues@)),
{
    let mut r: Vec<String> = Vec::new();
    if flags.low_factual_consistency {
        r.push("Verify facts against provided sources".to_owned());
    }
    if flags.low_relevance {
        r.push("Focus more directly on the user's question".to_owned());
    }
    if flags.low_completeness {
        r.push("Provide a more comprehensive answer".to_owned());
    }
    if flags.high_hallucination_risk {
        r.push("Avoid making unsupported claims".to_owned());
    }
    assert(strings_view(r@) =~= score_suggestions(flags));
    let ghost base = strings_view(r@);
    let ghost iv = issues_view(issues@);
    let mut i: usize = 0;
    while i < issues.len()
        invariant
            i <= issues@.len(),
            iv == issues_view(issues@),
            strings_view(r@) == base + issue_suggestions(iv.take(i as int)),
        decreases issues.len() - i,
    {
        assert(iv.take(i + 1).drop_last() =~= iv.take(i as int));
        assert(iv[i as int] == issues@[i as int]@);
        let ghost before = strings_view(r@);
        match &issues[i] {
            ValidationIssue::FactualInconsistency { detail, .. } => {
                let mut s = "Fact check: ".to_owned();
                s.append(detail.as_str());
                let ghost pre = r@;
                r.push(s);
                assert(strings_view(r@) =~= strings_view(pre).push("Fact check: "@ + detail@));
            },
            ValidationIssue::IncompleteAnswer { missing } => {
                let ghost mv = strings_view(missing@);
                let mut k: usize = 0;
                while k < missing.len()
                    invariant
                        k <= missing@.len(),
                        mv == strings_view(missing@),
                        strings_view(r@) == before + mv.take(k as int).map_values(|x: Seq<char>| "Address: "@ + x),
                    decreases missing.len() - k,
                {
                    let mut s = "Address: ".to_owned();
                    s.append(missing[k].as_str());
                    let ghost pre = r@;
                    r.push(s);
                    assert(mv[k as int] == missing@[k as int]@);
                    assert(strings_view(r@) =~= strings_view(pre).push("Address: "@ + mv[k as int]));
                    assert(mv.take(k + 1).map_values(|x: Seq<char>| "Address: "@ + x) =~= mv.take(k as int).map_values(
                        |x: Seq<char>| "Address: "@ + x,
                    ).push("Address: "@ + mv[k as int]));
                    k += 1;
                }
                assert(mv.take(missing@.len() as int) =~= mv);
            },
            ValidationIssue::Contradiction { .. } => {
                let ghost pre = r@;
                r.push("Resolve contradictions in the answer".to_owned());
                assert(strings_view(r@) =~= strings_view(pre).push("Resolve contradictions in the answer"@));
            },
            _ => {},
        }
        assert(strings_view(r@) =~= base + issue_suggestions(iv.take(i + 1)));
        i += 1;
    }
    assert(iv.take(issues@.len() as int) =~= iv);
    r
}

} // verus!
