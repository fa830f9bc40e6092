use crablet::middleware::{cached_response_from_metadata, is_semantic_cache_metadata, CacheMetadata};

fn meta(source: &str, cache_type: &str, response: &str) -> CacheMetadata {
    CacheMetadata {
        source: Some(source.to_string()),
        cache_type: Some(cache_type.to_string()),
        response: Some(response.to_string()),
    }
}

fn reaches(score: f32, threshold: f32) -> bool {
    !(score < threshold)
}

#[test]
fn cache_metadata_accepts_current_type() {
    let metadata = meta("semantic_cache", "qa_cache", "cached answer");
    assert_eq!(
        cached_response_from_metadata(&metadata, reaches(0.95, 0.92)).as_deref(),
        Some("cached answer")
    );
}

#[test]
fn cache_metadata_accepts_legacy_type() {
    let metadata = meta("semantic_cache", "qa_pair", "legacy cached answer");
    assert_eq!(
        cached_response_from_metadata(&metadata, reaches(0.95, 0.92)).as_deref(),
        Some("legacy cached answer")
    );
}

#[test]
fn cache_metadata_rejects_normal_documents() {
    let metadata = meta("docs/readme.md", "qa_cache", "not a cache entry");
    assert!(cached_response_from_metadata(&metadata, reaches(0.99, 0.92)).is_none());
}

#[test]
fn cache_metadata_respects_threshold() {
    let metadata = meta("semantic_cache", "qa_cache", "cached answer");
    assert!(cached_response_from_metadata(&metadata, reaches(0.91, 0.92)).is_none());
}

#[test]
fn blank_or_missing_fields_are_no_answer() {
    assert!(cached_response_from_metadata(&meta("semantic_cache", "qa_cache", "  \n"), true).is_none());
    let missing = CacheMetadata { source: None, cache_type: Some("qa_cache".to_string()), response: None };
    assert!(!is_semantic_cache_metadata(&missing));
    assert!(is_semantic_cache_metadata(&meta("semantic_cache", "qa_pair", "")));
    assert!(!is_semantic_cache_metadata(&meta("semantic_cache", "other", "x")));
}
