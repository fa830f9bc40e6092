use crablet::validator::{
    claim_supported_by_source, contradiction_candidates, extract_claims, extract_specific_claims, hedge_count,
    missing_aspects, relevance_counts, RelevanceCounts,
};

#[test]
fn test_extract_claims() {
    let answer = "Rust is a systems programming language. It was created in 2010.";
    let claims = extract_claims(answer);
    assert!(!claims.is_empty());
}

#[test]
fn claims_are_trimmed_sentences_in_order() {
    let answer = "Rust is a systems programming language. It was created in 2010.";
    let claims = extract_claims(answer);
    assert_eq!(claims, vec!["Rust is a systems programming language".to_string(), "It was created in 2010".to_string()]);
}

#[test]
fn short_sentences_are_not_claims() {
    assert!(extract_claims("It is. Ok!").is_empty());
    assert!(extract_claims("").is_empty());
}

#[test]
fn specific_claims_need_a_figure() {
    let answer = "Rust is a systems programming language. It was created in 2010.";
    assert_eq!(extract_specific_claims(answer), vec!["It was created in 2010".to_string()]);
    let figures = "Revenue grew by ten percent last year. Sales were flat.";
    assert_eq!(extract_specific_claims(figures), vec!["Revenue grew by ten percent last year".to_string()]);
}

#[test]
fn claim_support_needs_most_key_terms() {
    assert!(claim_supported_by_source("Rust was created in 2010", "Mozilla created Rust in 2010"));
    assert!(!claim_supported_by_source("Python was created in 1991", "Rust is fast"));
    // A claim without key terms is never supported.
    assert!(!claim_supported_by_source("a b", "a b"));
    // Exactly half of the key terms is not enough.
    assert!(!claim_supported_by_source("rust python", "rust"));
}

#[test]
fn relevance_counts_of_python_answer() {
    let counts = relevance_counts("Python is a programming language with simple syntax.", "What is Python?");
    assert_eq!(
        counts,
        RelevanceCounts { query_keywords: 2, covered_keywords: 0, answer_words: 8, off_topic_words: 4 }
    );
}

#[test]
fn relevance_counts_full_coverage() {
    let counts = relevance_counts("rust ownership rules", "rust ownership");
    assert_eq!(counts.query_keywords, 2);
    assert_eq!(counts.covered_keywords, 2);
    assert_eq!(counts.answer_words, 3);
    // "rules" is long and not in the query; "ownership" is in it.
    assert_eq!(counts.off_topic_words, 1);
}

#[test]
fn brief_answer_is_reported() {
    let missing = missing_aspects("Python is a programming language with simple syntax.", "What is Python?");
    assert_eq!(missing, vec!["Answer seems too brief".to_string()]);
}

#[test]
fn unanswered_why_is_reported() {
    let missing = missing_aspects("It happened.", "Why did it happen?");
    assert_eq!(
        missing,
        vec!["Expected explanation for 'why' question".to_string(), "Answer seems too brief".to_string()]
    );
}

#[test]
fn hedges_are_counted_once_each() {
    assert_eq!(hedge_count("I think this is probably right, maybe. Maybe."), 3);
    assert_eq!(hedge_count("This is right."), 0);
    assert_eq!(hedge_count("我觉得可能是这样"), 2);
}

#[test]
fn test_find_contradictions() {
    let answer = "Rust is fast. Rust is not fast.";
    let contradictions: Vec<(String, String)> = contradiction_candidates(answer)
        .into_iter()
        .filter(|c| strsim::jaro_winkler(&c.first_core, &c.second_core) > 0.7)
        .map(|c| (c.first, c.second))
        .collect();
    assert!(!contradictions.is_empty());
}

#[test]
fn contradiction_candidates_pair_negated_with_plain() {
    let candidates = contradiction_candidates("Rust is fast. Rust is not fast.");
    // Sentences: "Rust is fast", " Rust is not fast", "" (after the last period).
    assert_eq!(candidates.len(), 2);
    assert_eq!(candidates[0].first, "Rust is fast");
    assert_eq!(candidates[0].second, " Rust is not fast");
    assert_eq!(candidates[0].first_core, "rust is fast");
    assert_eq!(candidates[0].second_core, " rust is fast");
    assert_eq!(candidates[1].first, " Rust is not fast");
    assert_eq!(candidates[1].second, "");
    assert!(contradiction_candidates("Rust is fast. Rust is safe.").is_empty());
}
