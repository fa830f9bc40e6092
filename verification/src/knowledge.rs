//! Knowledge graph configuration, entity and relation kinds, and the fluent
//! query builder.
use vstd::prelude::*;
use crate::text::str_eq;

verus! {

broadcast use vstd::string::group_string_axioms;

/// Configuration for the knowledge graph.
#[derive(Clone, Debug)]
pub struct KnowledgeGraphConfig {
    /// Maximum entities to store.
    pub max_entities: usize,
    /// Maximum relations per entity.
    pub max_relations_per_entity: usize,
    /// Vector dimension for embeddings.
    pub vector_dimension: usize,
    /// Enable incremental updates.
    pub incremental_updates: bool,
    /// Query timeout in milliseconds.
    pub query_timeout_ms: u64,
    /// Cache size for recent queries.
    pub cache_size: usize,
}

impl Default for KnowledgeGraphConfig {
    fn default() -> (c: Self)
        ensures
            c.max_entities == 1_000_000,
            c.max_relations_per_entity == 1000,
            c.vector_dimension == 768,
            c.incremental_updates,
            c.query_timeout_ms == 1000,
            c.cache_size == 10000,
    {
        KnowledgeGraphConfig {
            max_entities: 1_000_000,
            max_relations_per_entity: 1000,
            vector_dimension: 768,
            incremental_updates: true,
            query_timeout_ms: 1000,
            cache_size: 10000,
        }
    }
}

/// Type of entity.
#[derive(Clone, Debug, PartialEq, Eq, Hash)]
pub enum EntityType {
    Person,
    Organization,
    Location,
    Concept,
    Event,
    Custom(String),
}

/// The name of an entity type.
pub open spec fn entity_type_name(t: EntityType) -> Seq<char> {
    match t {
        EntityType::Person => "Person"@,
        EntityType::Organization => "Organization"@,
        EntityType::Location => "Location"@,
        EntityType::Concept => "Concept"@,
        EntityType::Event => "Event"@,
        EntityType::Custom(s) => s@,
    }
}

impl EntityType {
    /// The name of this entity type.
    pub fn as_str(&self) -> (r: &str)
        ensures
            r@ == entity_type_name(*self),
    {
        match self {
            EntityType::Person => "Person",
            EntityType::Organization => "Organization",
            EntityType::Location => "Location",
            EntityType::Concept => "Concept",
            EntityType::Event => "Event",
            EntityType::Custom(s) => s.as_str(),
        }
    }
}

/// Type of relation.
#[derive(Clone, Debug, PartialEq, Eq, Hash)]
pub enum RelationType {
    /// Direct relationship.
    Direct,
    /// Hierarchical (parent-child).
    Hierarchical,
    /// Causal (cause-effect).
    Causal,
    /// Temporal (before-after).
    Temporal,
    /// Similarity.
    Similar,
    Custom(String),
}

/// The name of a relation type.
pub open spec fn relation_type_name(t: RelationType) -> Seq<char> {
    match t {
        RelationType::Direct => "Direct"@,
        RelationType::Hierarchical => "Hierarchical"@,
        RelationType::Causal => "Causal"@,
        RelationType::Temporal => "Temporal"@,
        RelationType::Similar => "Similar"@,
        RelationType::Custom(s) => s@,
    }
}

impl RelationType {
    /// The name under which relations of this type are counted.
    pub fn as_str(&self) -> (r: &str)
        ensures
            r@ == relation_type_name(*self),
    {
        match self {
            RelationType::Direct => "Direct",
            RelationType::Hierarchical => "Hierarchical",
            RelationType::Causal => "Causal",
            RelationType::Temporal => "Temporal",
            RelationType::Similar => "Similar",
            RelationType::Custom(s) => s.as_str(),
        }
    }
}

/// Sort criteria for query results.
#[derive(Clone, Copy, Debug, PartialEq, Eq, Structural)]
pub enum QuerySortBy {
    /// Sort by weight.
    Weight,
    /// Sort by path length.
    PathLength,
    /// Sort by relevance.
    Relevance,
    /// Sort by creation time.
    CreatedAt,
}

/// Query for the knowledge graph.
#[derive(Clone, Debug)]
pub struct GraphQuery {
    /// Starting entity ID.
    pub start_id: Option<String>,
    /// Target entity ID.
    pub target_id: Option<String>,
    /// Relation types to traverse.
    pub relation_types: Vec<String>,
    /// Maximum depth.
    pub max_depth: usize,
    /// Entity types to include.
    pub entity_types: Vec<EntityType>,
    /// Attributes to filter, as (key, value); each key at most once.
    pub attribute_filters: Vec<(String, String)>,
    /// Sort by.
    pub sort_by: QuerySortBy,
    /// Limit results.
    pub limit: usize,
}

/// The attribute filters as a map from key to value.
pub open spec fn filter_map(f: Seq<(String, String)>) -> Map<Seq<char>, Seq<char>>
    decreases f.len(),
{
    if f.len() == 0 {
        Map::empty()
    } else {
        filter_map(f.drop_last()).insert(f.last().0@, f.last().1@)
    }
}

/// No key occurs twice among the filters.
pub open spec fn keys_distinct(f: Seq<(String, String)>) -> bool {
    forall|i: int, j: int| 0 <= i < j < f.len() ==> f[i].0@ != f[j].0@
}

/// The view of an optional string.
pub open spec fn opt_string_view(o: Option<String>) -> Option<Seq<char>> {
    match o {
        Some(s) => Some(s@),
        None => None,
    }
}

/// Query builder for fluent API.
pub struct GraphQueryBuilder {
    query: GraphQuery,
}

impl GraphQueryBuilder {
    /// The query built so far.
    pub closed spec fn spec_query(self) -> GraphQuery {
        self.query
    }

    /// Each attribute key occurs once.
    #[verifier::type_invariant]
    spec fn wf(self) -> bool {
        keys_distinct(self.query.attribute_filters@)
    }

    /// Create a new query builder: no start or target, no relation or entity
    /// type restriction, no filters, depth 3, sorted by relevance, at most 100 results.
    pub fn new() -> (b: Self)
        ensures
            b.spec_query().start_id is None,
            b.spec_query().target_id is None,
            b.spec_query().relation_types@.len() == 0,
            b.spec_query().max_depth == 3,
            b.spec_query().entity_types@.len() == 0,
            b.spec_query().attribute_filters@.len() == 0,
            b.spec_query().sort_by == QuerySortBy::Relevance,
            b.spec_query().limit == 100,
    {
        GraphQueryBuilder {
            query: GraphQuery {
                start_id: None,
                target_id: None,
                relation_types: Vec::new(),
                max_depth: 3,
                entity_types: Vec::new(),
                attribute_filters: Vec::new(),
                sort_by: QuerySortBy::Relevance,
                limit: 100,
            },
        }
    }

    /// Set the starting entity.
    pub fn start(self, entity_id: &str) -> (b: Self)
        ensures
            b.spec_query() == (GraphQuery { start_id: b.spec_query().start_id, ..self.spec_query() }),
            opt_string_view(b.spec_query().start_id) == Some(entity_id@),
    {
        proof {
            use_type_invariant(&self);
        }
        let mut b = self.query;
        b.start_id = Some(entity_id.to_owned());
        GraphQueryBuilder { query: b }
    }

    /// Set the target entity.
    pub fn target(self, entity_id: &str) -> (b: Self)
        ensures
            b.spec_query() == (GraphQuery { target_id: b.spec_query().target_id, ..self.spec_query() }),
            opt_string_view(b.spec_query().target_id) == Some(entity_id@),
    {
        proof {
            use_type_invariant(&self);
        }
        let mut b = self.query;
        b.target_id = Some(entity_id.to_owned());
        GraphQueryBuilder { query: b }
    }

    /// Add a relation type to traverse.
    pub fn via(self, relation_type: &str) -> (b: Self)
        ensures
            b.spec_query() == (GraphQuery { relation_types: b.spec_query().relation_types, ..self.spec_query() }),
            b.spec_query().relation_types@.len() == self.spec_query().relation_types@.len() + 1,
            b.spec_query().relation_types@.drop_last() == self.spec_query().relation_types@,
            b.spec_query().relation_types@.last()@ == relation_type@,
    {
        proof {
            use_type_invariant(&self);
        }
        let mut b = self.query;
        b.relation_types.push(relation_type.to_owned());
        GraphQueryBuilder { query: b }
    }

    /// Set maximum traversal depth.
    pub fn max_depth(self, depth: usize) -> (b: Self)
        ensures
            b.spec_query() == (GraphQuery { max_depth: depth, ..self.spec_query() }),
    {
        proof {
            use_type_invariant(&self);
        }
        let mut b = self.query;
        b.max_depth = depth;
        GraphQueryBuilder { query: b }
    }

    /// Add an entity type filter.
    pub fn entity_type(self, entity_type: EntityType) -> (b: Self)
        ensures
            b.spec_query() == (GraphQuery { entity_types: b.spec_query().entity_types, ..self.spec_query() }),
            b.spec_query().entity_types@ == self.spec_query().entity_types@.push(entity_type),
    {
        proof {
            use_type_invariant(&self);
        }
        let mut b = self.query;
        b.entity_types.push(entity_type);
        GraphQueryBuilder { query: b }
    }

    /// Add an attribute filter; a later filter on the same key replaces the earlier one.
    pub fn where_attr(self, key: &str, value: &str) -> (b: Self)
        ensures
            b.spec_query() == (GraphQuery {
                attribute_filters: b.spec_query().attribute_filters,
                ..self.spec_query()
            }),
            filter_map(b.spec_query().attribute_filters@) == filter_map(
                self.spec_query().attribute_filters@,
            ).insert(key@, value@),
    {
        proof {
            use_type_invariant(&self);
        }
        let mut b = self.query;
        let ghost old_f = b.attribute_filters@;
        let ghost q0 = b;
        let mut i: usize = 0;
        while i < b.attribute_filters.len()
            invariant
                i <= old_f.len(),
                b == q0,
                q0 == self.spec_query(),
                q0.attribute_filters@ == old_f,
                keys_distinct(old_f),
                forall|j: int| 0 <= j < i ==> old_f[j].0@ != key@,
            decreases old_f.len() - i,
        {
            if str_eq(b.attribute_filters[i].0.as_str(), key) {
                let entry = (b.attribute_filters[i].0.clone(), value.to_owned());
                b.attribute_filters.set(i, entry);
                proof {
                    lemma_filter_map_update(old_f, i as int, b.attribute_filters@);
                }
                return GraphQueryBuilder { query: b };
            }
            i += 1;
        }
        b.attribute_filters.push((key.to_owned(), value.to_owned()));
        proof {
            assert(b.attribute_filters@.drop_last() =~= old_f);
            assert forall|x: int, y: int| 0 <= x < y < b.attribute_filters@.len() implies
                b.attribute_filters@[x].0@ != b.attribute_filters@[y].0@ by {
                if y == old_f.len() {
                    assert(b.attribute_filters@[x] == old_f[x]);
                } else {
                    assert(b.attribute_filters@[x] == old_f[x]);
                    assert(b.attribute_filters@[y] == old_f[y]);
                }
            }
        }
        GraphQueryBuilder { query: b }
    }

    /// Set sort by.
    pub fn sort_by(self, sort_by: QuerySortBy) -> (b: Self)
        ensures
            b.spec_query() == (GraphQuery { sort_by: sort_by, ..self.spec_query() }),
    {
        proof {
            use_type_invariant(&self);
        }
        let mut b = self.query;
        b.sort_by = sort_by;
        GraphQueryBuilder { query: b }
    }

    /// Set result limit.
    pub fn limit(self, limit: usize) -> (b: Self)
        ensures
            b.spec_query() == (GraphQuery { limit: limit, ..self.spec_query() }),
    {
        proof {
            use_type_invariant(&self);
        }
        let mut b = self.query;
        b.limit = limit;
        GraphQueryBuilder { query: b }
    }

    /// Build the query.
    pub fn build(self) -> (q: GraphQuery)
        ensures
            q == self.spec_query(),
    {
        self.query
    }
}

impl Default for GraphQueryBuilder {
    fn default() -> (b: Self)
        ensures
            b.spec_query().max_depth == 3,
            b.spec_query().limit == 100,
            b.spec_query().sort_by == QuerySortBy::Relevance,
            b.spec_query().start_id is None,
            b.spec_query().target_id is None,
            b.spec_query().relation_types@.len() == 0,
            b.spec_query().entity_types@.len() == 0,
            b.spec_query().attribute_filters@.len() == 0,
    {
        GraphQueryBuilder::new()
    }
}

/// Replacing the value of the entry at `i` (keys distinct) updates the map at that key.
proof fn lemma_filter_map_update(f: Seq<(String, String)>, i: int, g: Seq<(String, String)>)
    requires
        keys_distinct(f),
        0 <= i < f.len(),
        g.len() == f.len(),
        g[i].0@ == f[i].0@,
        forall|j: int| 0 <= j < f.len() && j != i ==> g[j] == f[j],
    ensures
        keys_distinct(g),
        filter_map(g) == filter_map(f).insert(f[i].0@, g[i].1@),
    decreases f.len(),
{
    if i == f.len() - 1 {
        assert(g.drop_last() =~= f.drop_last());
        lemma_filter_map_not_key(f.drop_last(), f[i].0@);
        assert(filter_map(g) =~= filter_map(f).insert(f[i].0@, g[i].1@));
    } else {
        lemma_filter_map_update(f.drop_last(), i, g.drop_last());
        assert(g.last() == f.last());
        assert(f.last().0@ != f[i].0@);
        assert(filter_map(g) =~= filter_map(f).insert(f[i].0@, g[i].1@));
    }
}

proof fn lemma_filter_map_not_key(f: Seq<(String, String)>, k: Seq<char>)
    requires
        forall|j: int| 0 <= j < f.len() ==> f[j].0@ != k,
    ensures
        !filter_map(f).contains_key(k),
    decreases f.len(),
{
    if f.len() > 0 {
        lemma_filter_map_not_key(f.drop_last(), k);
    }
}

} // verus!
