use crablet::graph::{GraphEntity, GraphError, GraphIndex, GraphRelation};
use crablet::knowledge::{EntityType, GraphQueryBuilder, KnowledgeGraphConfig, QuerySortBy, RelationType};
use crablet::query::{query_cache_key, GraphPath, PlanStep, QueryCache};

fn attr<'a>(e: &'a GraphEntity, key: &str) -> Option<&'a String> {
    e.attributes.iter().find(|(k, _)| k == key).map(|(_, v)| v)
}

#[test]
fn test_entity_creation() {
    let entity = GraphEntity::new("e1", "Alice", EntityType::Person)
        .with_attribute("age", "30")
        .with_attribute("city", "Beijing");

    assert_eq!(entity.id, "e1");
    assert_eq!(entity.name, "Alice");
    assert_eq!(attr(&entity, "age"), Some(&"30".to_string()));
    assert_eq!(attr(&entity, "city"), Some(&"Beijing".to_string()));
}

#[test]
fn attributes_are_replaced_not_repeated() {
    let entity = GraphEntity::new("e1", "Alice", EntityType::Person).with_attribute("age", "30").with_attribute("age", "31");
    assert_eq!(entity.attributes, vec![("age".to_string(), "31".to_string())]);
}

#[test]
fn relations_get_fresh_ids() {
    let a = GraphRelation::new("e1", "e2", "knows", RelationType::Direct);
    let b = GraphRelation::new("e1", "e2", "knows", RelationType::Direct);
    assert_eq!(a.source_id, "e1");
    assert_eq!(a.target_id, "e2");
    assert_ne!(a.id, b.id);
}

fn config(max_entities: usize) -> KnowledgeGraphConfig {
    KnowledgeGraphConfig { max_entities, ..KnowledgeGraphConfig::default() }
}

fn relation(id: &str, from: &str, to: &str, name: &str) -> GraphRelation {
    let mut r = GraphRelation::new(from, to, name, RelationType::Direct);
    r.id = id.to_string();
    r
}

fn sample() -> GraphIndex {
    let mut g = GraphIndex::new(&config(10));
    let mut alice = GraphEntity::new("alice", "Alice", EntityType::Person).with_attribute("city", "Paris");
    alice.created_at = 10;
    let mut bob = GraphEntity::new("bob", "Bob", EntityType::Person).with_attribute("city", "Paris");
    bob.created_at = 20;
    let acme = GraphEntity::new("acme", "Acme", EntityType::Organization);
    g.add_entity(alice).unwrap();
    g.add_entity(bob).unwrap();
    g.add_entity(acme).unwrap();
    g.add_relation(relation("r1", "alice", "bob", "knows"));
    g.add_relation(relation("r2", "alice", "acme", "works_at"));
    g.add_relation(relation("r3", "bob", "acme", "works_at"));
    g.add_relation(relation("r4", "bob", "nobody", "knows"));
    g
}

#[test]
fn store_finds_entities_and_relations() {
    let g = sample();
    assert_eq!(g.entity_count(), 3);
    assert_eq!(g.get_entity("bob").map(|e| e.name.clone()), Some("Bob".to_string()));
    assert!(g.get_entity("carol").is_none());
    let ids: Vec<String> = g.get_relations("alice").iter().map(|r| r.id.clone()).collect();
    assert_eq!(ids, vec!["r1", "r2"]);
    let works: Vec<String> = g.get_relations_by_type("works_at").iter().map(|r| r.id.clone()).collect();
    assert_eq!(works, vec!["r2", "r3"]);
    assert_eq!(g.get_entities_by_type(&EntityType::Person).len(), 2);
    assert_eq!(g.attribute_entity_ids("city", "Paris"), vec!["alice", "bob"]);
    assert!(g.has_attribute_key("city"));
    assert!(!g.has_attribute_key("age"));
    assert_eq!((g.entity_count(), g.relation_count()), (3, 4));
    assert_eq!(g.all_entities().len(), 3);
    assert_eq!(g.all_relations()[0].id, "r1");
}

#[test]
fn adding_an_entity_twice_counts_it_once() {
    let mut g = GraphIndex::new(&KnowledgeGraphConfig::default());
    let e = GraphEntity::new("e1", "Alice", EntityType::Person);
    assert!(g.add_entity(e.clone()).is_ok());
    assert!(g.add_entity(e.clone()).is_ok());
    assert!(g.get_entity("e1").is_some());
    assert_eq!(g.entity_count(), 1);
    assert_eq!(g.get_entities_by_type(&EntityType::Person).len(), 1);
}

#[test]
fn re_adding_replaces_and_limit_refuses() {
    let mut g = GraphIndex::new(&config(2));
    g.add_entity(GraphEntity::new("a", "A", EntityType::Concept)).unwrap();
    g.add_entity(GraphEntity::new("a", "A2", EntityType::Concept)).unwrap();
    assert_eq!(g.entity_count(), 1);
    assert_eq!(g.get_entity("a").unwrap().name, "A2");
    g.add_entity(GraphEntity::new("b", "B", EntityType::Concept)).unwrap();
    let refused = g.add_entity(GraphEntity::new("c", "C", EntityType::Concept));
    assert_eq!(refused, Err(GraphError::EntityLimitReached));
    assert_eq!(refused.unwrap_err().to_string(), "Maximum entity limit reached");
    // Even an existing id is refused at the limit.
    assert!(g.add_entity(GraphEntity::new("a", "A3", EntityType::Concept)).is_err());
    assert_eq!(g.entity_count(), 2);
}

fn ids(paths: &[GraphPath]) -> Vec<Vec<String>> {
    paths.iter().map(|p| p.entity_ids.clone()).collect()
}

#[test]
fn query_scans_then_follows_one_relation() {
    let g = sample();
    let q = GraphQueryBuilder::new().start("alice").max_depth(3).build();
    let plan = g.build_query_plan(&q);
    assert_eq!(plan.steps.len(), 2);
    assert!(matches!(&plan.steps[0], PlanStep::IdScan(s) if s == "alice"));
    let paths = g.execute_query_plan(&plan);
    assert_eq!(ids(&paths), vec![vec!["alice", "bob"], vec!["alice", "acme"]]);
    assert_eq!(paths[0].relation_ids, vec!["r1"]);

    let via = GraphQueryBuilder::new().start("alice").via("works_at").build();
    let paths = g.execute_query_plan(&g.build_query_plan(&via));
    assert_eq!(ids(&paths), vec![vec!["alice", "acme"]]);
}

#[test]
fn max_depth_zero_keeps_only_the_start() {
    let g = sample();
    let q = GraphQueryBuilder::new().start("alice").max_depth(0).build();
    let paths = g.execute_query_plan(&g.build_query_plan(&q));
    assert_eq!(ids(&paths), vec![vec!["alice"]]);
    assert!(paths.iter().all(|p| p.relation_ids.len() <= q.max_depth));
    let one = GraphQueryBuilder::new().start("alice").max_depth(1).build();
    let paths = g.execute_query_plan(&g.build_query_plan(&one));
    assert!(paths.iter().all(|p| p.relation_ids.len() <= 1));
    assert_eq!(paths.len(), 2);
}

#[test]
fn attribute_filters_scan_the_index() {
    let g = sample();
    let q = GraphQueryBuilder::new().where_attr("city", "Paris").where_attr("unknown", "x").build();
    let plan = g.build_query_plan(&q);
    assert!(matches!(&plan.steps[0], PlanStep::AttributeScan(k) if k == "city=Paris"));
    let paths = g.execute_query_plan(&plan);
    // alice -> bob, alice -> acme, bob -> acme (bob -> nobody is dropped).
    assert_eq!(ids(&paths), vec![vec!["alice", "bob"], vec!["alice", "acme"], vec!["bob", "acme"]]);
    let newest = g.order_paths(&paths, QuerySortBy::CreatedAt, 0);
    assert_eq!(ids(&newest), vec![vec!["bob", "acme"], vec!["alice", "bob"], vec!["alice", "acme"]]);
    let limited = g.order_paths(&paths, QuerySortBy::PathLength, 2);
    assert_eq!(ids(&limited), vec![vec!["alice", "bob"], vec!["alice", "acme"]]);
    let unknown_start = GraphQueryBuilder::new().start("carol").build();
    assert_eq!(g.build_query_plan(&unknown_start).steps.len(), 1);
    assert!(g.execute_query_plan(&g.build_query_plan(&unknown_start)).is_empty());
}

#[test]
fn ordering_is_stable_and_by_length() {
    let g = sample();
    let p = |e: &[&str], r: &[&str]| GraphPath {
        entity_ids: e.iter().map(|s| s.to_string()).collect(),
        relation_ids: r.iter().map(|s| s.to_string()).collect(),
    };
    let paths = vec![p(&["alice", "bob", "acme"], &["r1", "r3"]), p(&["bob"], &[]), p(&["acme", "x"], &["q"]), p(&["alice"], &[])];
    let by_len = g.order_paths(&paths, QuerySortBy::PathLength, 0);
    assert_eq!(ids(&by_len), vec![vec!["bob"], vec!["alice"], vec!["acme", "x"], vec!["alice", "bob", "acme"]]);
    let by_weight = g.order_paths(&paths, QuerySortBy::Weight, 3);
    assert_eq!(ids(&by_weight), ids(&paths[..3]));
}

#[test]
fn query_cache_keys_and_eviction() {
    let q = GraphQueryBuilder::new().start("alice").max_depth(2).limit(7).build();
    assert_eq!(query_cache_key(&q), "Some(\"alice\"):None:2:Relevance:7");
    let mut c: QueryCache<u32> = QueryCache::new(2);
    c.insert("a".to_string(), 1);
    c.insert("b".to_string(), 2);
    assert_eq!(c.get("a"), Some(&1));
    c.insert("c".to_string(), 3);
    assert_eq!(c.get("a"), None);
    assert_eq!(c.get("b"), Some(&2));
    assert_eq!(c.get("c"), Some(&3));
    c.clear();
    assert_eq!(c.get("c"), None);
}
