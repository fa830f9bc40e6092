use crablet::knowledge::{EntityType, GraphQueryBuilder, KnowledgeGraphConfig, QuerySortBy, RelationType};

#[test]
fn test_query_builder() {
    let query = GraphQueryBuilder::new().start("Alice").via("knows").via("works_at").max_depth(3).limit(10).build();

    assert_eq!(query.start_id, Some("Alice".to_string()));
    assert_eq!(query.max_depth, 3);
    assert_eq!(query.limit, 10);
}

#[test]
fn test_knowledge_graph_config() {
    let config = KnowledgeGraphConfig::default();
    assert_eq!(config.max_entities, 1_000_000);
    assert!(config.incremental_updates);
}

#[test]
fn builder_defaults() {
    let query = GraphQueryBuilder::default().build();
    assert_eq!(query.start_id, None);
    assert_eq!(query.target_id, None);
    assert!(query.relation_types.is_empty());
    assert_eq!(query.max_depth, 3);
    assert_eq!(query.sort_by, QuerySortBy::Relevance);
    assert_eq!(query.limit, 100);
}

#[test]
fn builder_keeps_relation_order_and_replaces_filters() {
    let query = GraphQueryBuilder::new()
        .target("Bob")
        .via("knows")
        .via("works_at")
        .entity_type(EntityType::Person)
        .where_attr("city", "Paris")
        .where_attr("age", "30")
        .where_attr("city", "Berlin")
        .sort_by(QuerySortBy::PathLength)
        .build();
    assert_eq!(query.target_id, Some("Bob".to_string()));
    assert_eq!(query.relation_types, vec!["knows".to_string(), "works_at".to_string()]);
    assert_eq!(query.entity_types, vec![EntityType::Person]);
    assert_eq!(
        query.attribute_filters,
        vec![("city".to_string(), "Berlin".to_string()), ("age".to_string(), "30".to_string())]
    );
    assert_eq!(query.sort_by, QuerySortBy::PathLength);
}

#[test]
fn type_names() {
    assert_eq!(EntityType::Organization.as_str(), "Organization");
    assert_eq!(EntityType::Custom("Gadget".to_string()).as_str(), "Gadget");
    assert_eq!(RelationType::Hierarchical.as_str(), "Hierarchical");
    assert_eq!(RelationType::Custom("likes".to_string()).as_str(), "likes");
}
