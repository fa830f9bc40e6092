//! The knowledge graph's store and query execution: entities by id,
//! relations with their outgoing and by-name indices, the attribute index,
//! query plans, one-hop traversal and result ordering. Relation weights and
//! entity embeddings are floating point and are kept by the caller, which
//! also orders results by weight.
use vstd::prelude::*;
use crate::knowledge::{EntityType, GraphQuery, KnowledgeGraphConfig, QuerySortBy, RelationType};
use crate::text::{chars_of, str_eq, string_of};

verus! {

broadcast use vstd::string::group_string_axioms;

/// An entity: a thing the graph knows, with attributes.
#[derive(Clone, Debug)]
pub struct GraphEntity {
    pub id: String,
    pub name: String,
    pub entity_type: EntityType,
    /// Attributes as (key, value), keys distinct.
    pub attributes: Vec<(String, String)>,
    pub created_at: u64,
    pub updated_at: u64,
}

/// A relation from one entity to another.
#[derive(Clone, Debug)]
pub struct GraphRelation {
    pub id: String,
    pub source_id: String,
    pub target_id: String,
    pub relation_type: RelationType,
    /// The relation's name, such as "works_at".
    pub name: String,
    pub created_at: u64,
}

/// The mathematical form of an entity.
pub struct EntityView {
    pub id: Seq<char>,
    pub name: Seq<char>,
    pub entity_type: EntityType,
    pub attributes: Seq<(Seq<char>, Seq<char>)>,
    pub created_at: u64,
    pub updated_at: u64,
}

/// The mathematical form of a relation.
pub struct RelationView {
    pub id: Seq<char>,
    pub source_id: Seq<char>,
    pub target_id: Seq<char>,
    pub name: Seq<char>,
    pub relation_type: RelationType,
    pub created_at: u64,
}

/// The views of pairs of strings.
pub open spec fn pairs_view(v: Seq<(String, String)>) -> Seq<(Seq<char>, Seq<char>)> {
    v.map_values(|p: (String, String)| (p.0@, p.1@))
}

impl View for GraphEntity {
    type V = EntityView;

    open spec fn view(&self) -> EntityView {
        EntityView {
            id: self.id@,
            name: self.name@,
            entity_type: self.entity_type,
            attributes: pairs_view(self.attributes@),
            created_at: self.created_at,
            updated_at: self.updated_at,
        }
    }
}

impl View for GraphRelation {
    type V = RelationView;

    open spec fn view(&self) -> RelationView {
        RelationView {
            id: self.id@,
            source_id: self.source_id@,
            target_id: self.target_id@,
            name: self.name@,
            relation_type: self.relation_type,
            created_at: self.created_at,
        }
    }
}

/// Whether the keys of `attrs` are distinct.
pub open spec fn distinct_attribute_keys(attrs: Seq<(Seq<char>, Seq<char>)>) -> bool {
    forall|i: int, j: int| 0 <= i < j < attrs.len() ==> (#[trigger] attrs[i]).0 != (#[trigger] attrs[j]).0
}

/// Copy a string.
fn copy(s: &str) -> (r: String)
    ensures
        r@ == s@,
{
    string_of(chars_of(s).as_slice())
}

/// The position of the first pair whose key is `k`, if any.
fn find_key(v: &Vec<(String, String)>, k: &str) -> (r: Option<usize>)
    ensures
        match r {
            Some(i) => i < v@.len() && v@[i as int].0@ == k@ && forall|j: int|
                0 <= j < i ==> (#[trigger] v@[j]).0@ != k@,
            None => forall|j: int| 0 <= j < v@.len() ==> (#[trigger] v@[j]).0@ != k@,
        },
{
    let mut i: usize = 0;
    while i < v.len()
        invariant
            i <= v@.len(),
            forall|j: int| 0 <= j < i ==> (#[trigger] v@[j]).0@ != k@,
        decreases v.len() - i,
    {
        if str_eq(v[i].0.as_str(), k) {
            return Some(i);
        }
        i += 1;
    }
    None
}

impl GraphEntity {
    /// A new entity without attributes, created now.
    pub fn new(id: &str, name: &str, entity_type: EntityType) -> (e: GraphEntity)
        ensures
            e.id@ == id@,
            e.name@ == name@,
            e.entity_type == entity_type,
            e.attributes@.len() == 0,
            e.created_at == e.updated_at,
    {
        let now = crate::agents::current_timestamp();
        GraphEntity {
            id: copy(id),
            name: copy(name),
            entity_type,
            attributes: Vec::new(),
            created_at: now,
            updated_at: now,
        }
    }

    /// This entity with attribute `key` set to `value`, replacing the
    /// attribute's old value if it had one.
    pub fn with_attribute(self, key: &str, value: &str) -> (e: GraphEntity)
        requires
            distinct_attribute_keys(self@.attributes),
        ensures
            distinct_attribute_keys(e@.attributes),
            e@.id == self@.id,
            e@.name == self@.name,
            e@.entity_type == self@.entity_type,
            e@.created_at == self@.created_at,
            e.updated_at == self.updated_at,
            e@.attributes == match key_position(self@.attributes, key@) {
                Some(i) => self@.attributes.update(i, (key@, value@)),
                None => self@.attributes.push((key@, value@)),
            },
    {
        let mut e = self;
        let ghost before = pairs_view(e.attributes@);
        match find_key(&e.attributes, key) {
            Some(i) => {
                proof {
                    lemma_key_position(before, key@, i as int);
                }
                e.attributes[i] = (copy(key), copy(value));
                assert(pairs_view(e.attributes@) =~= before.update(i as int, (key@, value@)));
            },
            None => {
                proof {
                    assert(key_position(before, key@) is None) by {
                        if exists|j: int| 0 <= j < before.len() && (#[trigger] before[j]).0 == key@ {
                            let j = choose|j: int| 0 <= j < before.len() && (#[trigger] before[j]).0 == key@;
                            assert(e.attributes@[j].0@ == key@);
                        }
                    }
                }
                e.attributes.push((copy(key), copy(value)));
                assert(pairs_view(e.attributes@) =~= before.push((key@, value@)));
            },
        }
        e
    }
}

/// The position of the first pair whose key is `k`, if any.
pub open spec fn key_position(v: Seq<(Seq<char>, Seq<char>)>, k: Seq<char>) -> Option<int> {
    if exists|i: int| 0 <= i < v.len() && (#[trigger] v[i]).0 == k {
        Some(choose|i: int| 0 <= i < v.len() && (#[trigger] v[i]).0 == k && forall|j: int| 0 <= j < i ==> v[j].0 != k)
    } else {
        None
    }
}

proof fn lemma_key_position(v: Seq<(Seq<char>, Seq<char>)>, k: Seq<char>, i: int)
    requires
        0 <= i < v.len(),
        v[i].0 == k,
        forall|j: int| 0 <= j < i ==> (#[trigger] v[j]).0 != k,
    ensures
        key_position(v, k) == Some(i),
{
    let w = choose|w: int| 0 <= w < v.len() && (#[trigger] v[w]).0 == k && forall|j: int| 0 <= j < w ==> v[j].0 != k;
    assert(0 <= w < v.len() && v[w].0 == k && forall|j: int| 0 <= j < w ==> v[j].0 != k);
    if w < i {
        assert(v[w].0 != k);
    } else if w > i {
        assert(v[i].0 != k);
    }
}

/// Calls `uuid::Uuid::new_v4` and writes the identifier as a string; it is
/// random, so nothing is stated of it.
#[verifier::external_body]
pub(crate) fn fresh_uuid() -> String {
    uuid::Uuid::new_v4().to_string()
}

impl GraphRelation {
    /// A new relation from `source_id` to `target_id`, with a fresh random
    /// id, created now.
    pub fn new(source_id: &str, target_id: &str, name: &str, relation_type: RelationType) -> (r: GraphRelation)
        ensures
            r.source_id@ == source_id@,
            r.target_id@ == target_id@,
            r.name@ == name@,
            r.relation_type == relation_type,
    {
        GraphRelation {
            id: fresh_uuid(),
            source_id: copy(source_id),
            target_id: copy(target_id),
            relation_type,
            name: copy(name),
            created_at: crate::agents::current_timestamp(),
        }
    }
}

/// What was stored is found: after an entity is stored, looking up its id
/// gives that entity.
pub proof fn stored_entity_is_found(es: Seq<EntityView>, e: EntityView)
    requires
        distinct_entity_ids(es),
    ensures
        entity_position(with_entity(es, e), e.id) matches Some(i) && with_entity(es, e)[i] == e,
{
    lemma_with_entity_distinct(es, e);
    let n = with_entity(es, e);
    let i = match entity_position(es, e.id) {
        Some(i) => i,
        None => es.len() as int,
    };
    assert(n[i] == e);
    assert(n[i].id == e.id);
    let w = choose|w: int| 0 <= w < n.len() && (#[trigger] n[w]).id == e.id;
    if w != i {
        assert(n[w].id != n[i].id);
    }
}

/// The graph never holds more entities than its limit: an entity is only
/// added below the limit, and storing one adds at most one.
pub proof fn entities_stay_within_limit(es: Seq<EntityView>, e: EntityView, max: nat)
    requires
        es.len() < max,
    ensures
        with_entity(es, e).len() <= max,
{
}

/// Why the graph refused a change.
#[derive(Debug, Clone, Copy, PartialEq, Eq, Structural)]
pub enum GraphError {
    /// The graph already holds its maximum number of entities.
    EntityLimitReached,
}

impl GraphError {
    /// The message of this error.
    pub fn to_string(&self) -> (s: String)
        ensures
            s@ == "Maximum entity limit reached"@,
    {
        "Maximum entity limit reached".to_owned()
    }
}

/// The position of the entity with id `id`, if any.
pub open spec fn entity_position(es: Seq<EntityView>, id: Seq<char>) -> Option<int> {
    if exists|i: int| 0 <= i < es.len() && (#[trigger] es[i]).id == id {
        Some(choose|i: int| 0 <= i < es.len() && (#[trigger] es[i]).id == id)
    } else {
        None
    }
}

/// The position of the relation with id `id`, if any.
pub open spec fn relation_position(rs: Seq<RelationView>, id: Seq<char>) -> Option<int> {
    if exists|i: int| 0 <= i < rs.len() && (#[trigger] rs[i]).id == id {
        Some(choose|i: int| 0 <= i < rs.len() && (#[trigger] rs[i]).id == id)
    } else {
        None
    }
}

/// Whether no two entities share an id.
pub open spec fn distinct_entity_ids(es: Seq<EntityView>) -> bool {
    forall|i: int, j: int| 0 <= i < j < es.len() ==> (#[trigger] es[i]).id != (#[trigger] es[j]).id
}

/// Whether no two relations share an id.
pub open spec fn distinct_relation_ids(rs: Seq<RelationView>) -> bool {
    forall|i: int, j: int| 0 <= i < j < rs.len() ==> (#[trigger] rs[i]).id != (#[trigger] rs[j]).id
}

/// `es` with `e` stored: replacing the entity with its id, or added last.
pub open spec fn with_entity(es: Seq<EntityView>, e: EntityView) -> Seq<EntityView> {
    match entity_position(es, e.id) {
        Some(i) => es.update(i, e),
        None => es.push(e),
    }
}

/// `rs` with `r` stored: replacing the relation with its id, or added last.
pub open spec fn with_relation(rs: Seq<RelationView>, r: RelationView) -> Seq<RelationView> {
    match relation_position(rs, r.id) {
        Some(i) => rs.update(i, r),
        None => rs.push(r),
    }
}

/// The attribute index entries of an entity: (key, value, entity id).
pub open spec fn attribute_entries_of(e: EntityView) -> Seq<(Seq<char>, Seq<char>, Seq<char>)> {
    e.attributes.map_values(|a: (Seq<char>, Seq<char>)| (a.0, a.1, e.id))
}


/// Storing an entity adds one to the number of entities only when its id is
/// new; storing the same entity again changes nothing, so a graph holds each
/// id once however often it was added.
pub proof fn storing_an_entity_counts_ids_once(es: Seq<EntityView>, e: EntityView)
    requires
        distinct_entity_ids(es),
    ensures
        with_entity(es, e).len() == if entity_position(es, e.id) is Some {
            es.len()
        } else {
            es.len() + 1
        },
        with_entity(with_entity(es, e), e) == with_entity(es, e),
{
    lemma_with_entity_distinct(es, e);
    let n = with_entity(es, e);
    let at: int = match entity_position(es, e.id) {
        Some(i) => i,
        None => es.len() as int,
    };
    assert(n[at] == e);
    assert(entity_position(n, e.id) is Some);
    let j = entity_position(n, e.id)->0;
    assert(n[j].id == e.id);
    if j != at {
        if j < at {
            assert(n[j].id != n[at].id);
        } else {
            assert(n[at].id != n[j].id);
        }
    }
    assert(n.update(j, e) =~= n);
}

proof fn lemma_with_entity_distinct(es: Seq<EntityView>, e: EntityView)
    requires
        distinct_entity_ids(es),
    ensures
        distinct_entity_ids(with_entity(es, e)),
        match entity_position(es, e.id) {
            Some(i) => 0 <= i < es.len() && es[i].id == e.id,
            None => forall|j: int| 0 <= j < es.len() ==> (#[trigger] es[j]).id != e.id,
        },
{
    let n = with_entity(es, e);
    match entity_position(es, e.id) {
        Some(i) => {
            assert forall|a: int, b: int| 0 <= a < b < n.len() implies (#[trigger] n[a]).id != (#[trigger] n[b]).id by {
                if a == i {
                    assert(es[b].id != es[i].id);
                } else if b == i {
                    assert(es[a].id != es[i].id);
                } else {
                    assert(es[a].id != es[b].id);
                }
            }
        },
        None => {
            assert forall|a: int, b: int| 0 <= a < b < n.len() implies (#[trigger] n[a]).id != (#[trigger] n[b]).id by {
                if b == es.len() {
                    assert(es[a].id != e.id);
                } else {
                    assert(es[a].id != es[b].id);
                }
            }
        },
    }
}

proof fn lemma_with_relation_distinct(rs: Seq<RelationView>, r: RelationView)
    requires
        distinct_relation_ids(rs),
    ensures
        distinct_relation_ids(with_relation(rs, r)),
{
    let n = with_relation(rs, r);
    match relation_position(rs, r.id) {
        Some(i) => {
            assert forall|a: int, b: int| 0 <= a < b < n.len() implies (#[trigger] n[a]).id != (#[trigger] n[b]).id by {
                if a == i {
                    assert(rs[b].id != rs[i].id);
                } else if b == i {
                    assert(rs[a].id != rs[i].id);
                } else {
                    assert(rs[a].id != rs[b].id);
                }
            }
        },
        None => {
            assert forall|a: int, b: int| 0 <= a < b < n.len() implies (#[trigger] n[a]).id != (#[trigger] n[b]).id by {
                if b == rs.len() {
                    assert(rs[a].id != r.id);
                } else {
                    assert(rs[a].id != rs[b].id);
                }
            }
        },
    }
}

/// The relations an index lists under `key`, in the order listed; ids the
/// graph no longer holds are skipped.
pub open spec fn related(index: Seq<(Seq<char>, Seq<char>)>, rs: Seq<RelationView>, key: Seq<char>) -> Seq<
    RelationView,
>
    decreases index.len(),
{
    if index.len() == 0 {
        Seq::empty()
    } else {
        let rest = related(index.drop_last(), rs, key);
        if index.last().0 == key {
            match relation_position(rs, index.last().1) {
                Some(j) => rest.push(rs[j]),
                None => rest,
            }
        } else {
            rest
        }
    }
}

/// The ids of the entities indexed under attribute `key` = `value`, in the order added.
pub open spec fn attribute_ids(index: Seq<(Seq<char>, Seq<char>, Seq<char>)>, key: Seq<char>, value: Seq<char>) -> Seq<
    Seq<char>,
>
    decreases index.len(),
{
    if index.len() == 0 {
        Seq::empty()
    } else {
        let rest = attribute_ids(index.drop_last(), key, value);
        if index.last().0 == key && index.last().1 == value {
            rest.push(index.last().2)
        } else {
            rest
        }
    }
}

/// Whether some entity has an attribute called `key`.
pub open spec fn attribute_key_known(index: Seq<(Seq<char>, Seq<char>, Seq<char>)>, key: Seq<char>) -> bool {
    exists|i: int| 0 <= i < index.len() && (#[trigger] index[i]).0 == key
}

/// An entity type as a tag and, for custom types, a name.
pub open spec fn type_key(t: EntityType) -> (int, Seq<char>) {
    match t {
        EntityType::Person => (0, Seq::empty()),
        EntityType::Organization => (1, Seq::empty()),
        EntityType::Location => (2, Seq::empty()),
        EntityType::Concept => (3, Seq::empty()),
        EntityType::Event => (4, Seq::empty()),
        EntityType::Custom(s) => (5, s@),
    }
}

/// Whether two entity types are the same.
fn same_type(a: &EntityType, b: &EntityType) -> (r: bool)
    ensures
        r == (type_key(*a) == type_key(*b)),
{
    match (a, b) {
        (EntityType::Person, EntityType::Person) => true,
        (EntityType::Organization, EntityType::Organization) => true,
        (EntityType::Location, EntityType::Location) => true,
        (EntityType::Concept, EntityType::Concept) => true,
        (EntityType::Event, EntityType::Event) => true,
        (EntityType::Custom(x), EntityType::Custom(y)) => str_eq(x.as_str(), y.as_str()),
        _ => false,
    }
}

/// The entities of type `t`, in store order.
pub open spec fn entities_of_type(es: Seq<EntityView>, t: EntityType) -> Seq<EntityView>
    decreases es.len(),
{
    if es.len() == 0 {
        Seq::empty()
    } else if type_key(es.last().entity_type) == type_key(t) {
        entities_of_type(es.drop_last(), t).push(es.last())
    } else {
        entities_of_type(es.drop_last(), t)
    }
}

/// The entities, relations and indices of a knowledge graph.
pub struct GraphIndex {
    entities: Vec<GraphEntity>,
    relations: Vec<GraphRelation>,
    /// (source entity id, relation id), in the order relations were added.
    outgoing: Vec<(String, String)>,
    /// (relation name, relation id), in the order relations were added.
    by_name: Vec<(String, String)>,
    /// (attribute key, value, entity id), in the order entities were added.
    attribute_index: Vec<(String, String, String)>,
    max_entities: usize,
}

/// The views of attribute index entries.
pub open spec fn triples_view(v: Seq<(String, String, String)>) -> Seq<(Seq<char>, Seq<char>, Seq<char>)> {
    v.map_values(|t: (String, String, String)| (t.0@, t.1@, t.2@))
}

impl GraphIndex {
    /// The entities.
    pub closed spec fn entities(&self) -> Seq<EntityView> {
        self.entities@.map_values(|e: GraphEntity| e@)
    }

    /// The relations.
    pub closed spec fn relations(&self) -> Seq<RelationView> {
        self.relations@.map_values(|r: GraphRelation| r@)
    }

    /// The outgoing index: (source entity id, relation id) in the order added.
    pub closed spec fn outgoing(&self) -> Seq<(Seq<char>, Seq<char>)> {
        pairs_view(self.outgoing@)
    }

    /// The relation name index: (relation name, relation id) in the order added.
    pub closed spec fn by_name(&self) -> Seq<(Seq<char>, Seq<char>)> {
        pairs_view(self.by_name@)
    }

    /// The attribute index: (key, value, entity id) in the order added.
    pub closed spec fn attribute_index(&self) -> Seq<(Seq<char>, Seq<char>, Seq<char>)> {
        triples_view(self.attribute_index@)
    }

    /// The most entities the graph holds.
    pub closed spec fn max_entities(&self) -> nat {
        self.max_entities as nat
    }

    /// Whether ids are unique.
    pub open spec fn wf(&self) -> bool {
        distinct_entity_ids(self.entities()) && distinct_relation_ids(self.relations())
    }

    /// An empty graph with the configured entity limit.
    pub fn new(config: &KnowledgeGraphConfig) -> (g: GraphIndex)
        ensures
            g.wf(),
            g.entities().len() == 0,
            g.relations().len() == 0,
            g.outgoing().len() == 0,
            g.by_name().len() == 0,
            g.attribute_index().len() == 0,
            g.max_entities() == config.max_entities,
    {
        let g = GraphIndex {
            entities: Vec::new(),
            relations: Vec::new(),
            outgoing: Vec::new(),
            by_name: Vec::new(),
            attribute_index: Vec::new(),
            max_entities: config.max_entities,
        };
        assert(g.entities() =~= Seq::<EntityView>::empty());
        assert(g.relations() =~= Seq::<RelationView>::empty());
        assert(g.outgoing() =~= Seq::<(Seq<char>, Seq<char>)>::empty());
        assert(g.by_name() =~= Seq::<(Seq<char>, Seq<char>)>::empty());
        assert(g.attribute_index() =~= Seq::<(Seq<char>, Seq<char>, Seq<char>)>::empty());
        g
    }

    /// The position of the entity with id `id`.
    fn find_entity(&self, id: &str) -> (r: Option<usize>)
        requires
            self.wf(),
        ensures
            match r {
                Some(i) => entity_position(self.entities(), id@) == Some(i as int) && i < self.entities@.len(),
                None => entity_position(self.entities(), id@) is None,
            },
    {
        let ghost es = self.entities();
        let mut i: usize = 0;
        while i < self.entities.len()
            invariant
                i <= self.entities@.len(),
                es == self.entities(),
                distinct_entity_ids(es),
                forall|j: int| 0 <= j < i ==> (#[trigger] es[j]).id != id@,
            decreases self.entities.len() - i,
        {
            assert(es[i as int] == self.entities@[i as int]@);
            if str_eq(self.entities[i].id.as_str(), id) {
                proof {
                    assert(es[i as int].id == id@);
                    let w = choose|w: int| 0 <= w < es.len() && (#[trigger] es[w]).id == id@;
                    if w != i {
                        assert(es[w].id == es[i as int].id);
                    }
                }
                return Some(i);
            }
            i += 1;
        }
        None
    }

    /// The position of the relation with id `id`.
    fn find_relation(&self, id: &str) -> (r: Option<usize>)
        requires
            self.wf(),
        ensures
            match r {
                Some(i) => relation_position(self.relations(), id@) == Some(i as int) && i < self.relations@.len(),
                None => relation_position(self.relations(), id@) is None,
            },
    {
        let ghost rs = self.relations();
        let mut i: usize = 0;
        while i < self.relations.len()
            invariant
                i <= self.relations@.len(),
                rs == self.relations(),
                distinct_relation_ids(rs),
                forall|j: int| 0 <= j < i ==> (#[trigger] rs[j]).id != id@,
            decreases self.relations.len() - i,
        {
            assert(rs[i as int] == self.relations@[i as int]@);
            if str_eq(self.relations[i].id.as_str(), id) {
                proof {
                    assert(rs[i as int].id == id@);
                    let w = choose|w: int| 0 <= w < rs.len() && (#[trigger] rs[w]).id == id@;
                    if w != i {
                        assert(rs[w].id == rs[i as int].id);
                    }
                }
                return Some(i);
            }
            i += 1;
        }
        None
    }

    /// The entity with id `id`, if the graph holds one.
    pub fn get_entity(&self, id: &str) -> (r: Option<&GraphEntity>)
        requires
            self.wf(),
        ensures
            match entity_position(self.entities(), id@) {
                Some(i) => r matches Some(e) && e@ == self.entities()[i],
                None => r is None,
            },
    {
        match self.find_entity(id) {
            Some(i) => Some(&self.entities[i]),
            None => None,
        }
    }

    /// The relation with id `id`, if the graph holds one.
    pub fn get_relation(&self, id: &str) -> (r: Option<&GraphRelation>)
        requires
            self.wf(),
        ensures
            match relation_position(self.relations(), id@) {
                Some(i) => r matches Some(x) && x@ == self.relations()[i],
                None => r is None,
            },
    {
        match self.find_relation(id) {
            Some(i) => Some(&self.relations[i]),
            None => None,
        }
    }

    /// Add an entity, replacing the entity with its id if there is one, and
    /// index its attributes. Refused when the graph already holds its
    /// maximum number of entities.
    pub fn add_entity(&mut self, entity: GraphEntity) -> (r: Result<(), GraphError>)
        requires
            old(self).wf(),
        ensures
            final(self).wf(),
            final(self).relations() == old(self).relations(),
            final(self).outgoing() == old(self).outgoing(),
            final(self).by_name() == old(self).by_name(),
            final(self).max_entities() == old(self).max_entities(),
            old(self).entities().len() >= old(self).max_entities() ==> {
                &&& r == Err::<(), GraphError>(GraphError::EntityLimitReached)
                &&& final(self).entities() == old(self).entities()
                &&& final(self).attribute_index() == old(self).attribute_index()
            },
            old(self).entities().len() < old(self).max_entities() ==> {
                &&& r is Ok
                &&& final(self).entities() == with_entity(old(self).entities(), entity@)
                &&& final(self).attribute_index() == old(self).attribute_index() + attribute_entries_of(entity@)
            },
    {
        if self.entities.len() >= self.max_entities {
            return Err(GraphError::EntityLimitReached);
        }
        let ghost es = self.entities();
        let ghost idx = self.attribute_index();
        let mut entries: Vec<(String, String, String)> = Vec::new();
        let mut k: usize = 0;
        while k < entity.attributes.len()
            invariant
                k <= entity.attributes@.len(),
                triples_view(entries@) == attribute_entries_of(entity@).take(k as int),
            decreases entity.attributes.len() - k,
        {
            let ghost before = entries@;
            entries.push(
                (copy(entity.attributes[k].0.as_str()), copy(entity.attributes[k].1.as_str()), copy(entity.id.as_str())),
            );
            assert(triples_view(entries@) =~= triples_view(before).push(attribute_entries_of(entity@)[k as int]));
            k += 1;
            assert(triples_view(entries@) =~= attribute_entries_of(entity@).take(k as int));
        }
        assert(attribute_entries_of(entity@).take(entity.attributes@.len() as int) =~= attribute_entries_of(entity@));
        let ghost old_index = self.attribute_index@;
        let ghost new_entries = entries@;
        self.attribute_index.append(&mut entries);
        assert(self.attribute_index@ =~= old_index + new_entries);
        assert(self.attribute_index() =~= idx + attribute_entries_of(entity@));
        proof {
            lemma_with_entity_distinct(es, entity@);
        }
        match self.find_entity(entity.id.as_str()) {
            Some(i) => {
                self.entities[i] = entity;
            },
            None => {
                self.entities.push(entity);
            },
        }
        assert(self.entities() =~= with_entity(es, entity@));
        Ok(())
    }

    /// Add a relation, replacing the relation with its id if there is one,
    /// and list it under its source entity and its name.
    pub fn add_relation(&mut self, relation: GraphRelation)
        requires
            old(self).wf(),
        ensures
            final(self).wf(),
            final(self).entities() == old(self).entities(),
            final(self).attribute_index() == old(self).attribute_index(),
            final(self).max_entities() == old(self).max_entities(),
            final(self).relations() == with_relation(old(self).relations(), relation@),
            final(self).outgoing() == old(self).outgoing().push((relation@.source_id, relation@.id)),
            final(self).by_name() == old(self).by_name().push((relation@.name, relation@.id)),
    {
        let ghost rs = self.relations();
        let ghost out = self.outgoing();
        let ghost names = self.by_name();
        self.outgoing.push((copy(relation.source_id.as_str()), copy(relation.id.as_str())));
        self.by_name.push((copy(relation.name.as_str()), copy(relation.id.as_str())));
        assert(self.outgoing() =~= out.push((relation@.source_id, relation@.id)));
        assert(self.by_name() =~= names.push((relation@.name, relation@.id)));
        proof {
            lemma_with_relation_distinct(rs, relation@);
        }
        match self.find_relation(relation.id.as_str()) {
            Some(i) => {
                self.relations[i] = relation;
            },
            None => {
                self.relations.push(relation);
            },
        }
        assert(self.relations() =~= with_relation(rs, relation@));
    }

    /// The relations an index lists under `key`.
    fn related_in(&self, index: &Vec<(String, String)>, key: &str) -> (r: Vec<&GraphRelation>)
        requires
            self.wf(),
        ensures
            r@.map_values(|x: &GraphRelation| x@) == related(pairs_view(index@), self.relations(), key@),
    {
        let ghost iv = pairs_view(index@);
        let mut r: Vec<&GraphRelation> = Vec::new();
        let mut i: usize = 0;
        while i < index.len()
            invariant
                i <= index@.len(),
                self.wf(),
                iv == pairs_view(index@),
                r@.map_values(|x: &GraphRelation| x@) == related(iv.take(i as int), self.relations(), key@),
            decreases index.len() - i,
        {
            assert(iv.take(i + 1).drop_last() =~= iv.take(i as int));
            assert(iv[i as int] == (index@[i as int].0@, index@[i as int].1@));
            if str_eq(index[i].0.as_str(), key) {
                match self.find_relation(index[i].1.as_str()) {
                    Some(j) => {
                        let ghost before = r@;
                        r.push(&self.relations[j]);
                        assert(r@.map_values(|x: &GraphRelation| x@) =~= before.map_values(|x: &GraphRelation| x@).push(
                            self.relations()[j as int],
                        ));
                    },
                    None => {},
                }
            }
            i += 1;
        }
        assert(iv.take(index@.len() as int) =~= iv);
        r
    }

    /// The relations leaving an entity, in the order they were added.
    pub fn get_relations(&self, entity_id: &str) -> (r: Vec<&GraphRelation>)
        requires
            self.wf(),
        ensures
            r@.map_values(|x: &GraphRelation| x@) == related(self.outgoing(), self.relations(), entity_id@),
    {
        self.related_in(&self.outgoing, entity_id)
    }

    /// The relations with a given name, in the order they were added.
    pub fn get_relations_by_type(&self, relation_name: &str) -> (r: Vec<&GraphRelation>)
        requires
            self.wf(),
        ensures
            r@.map_values(|x: &GraphRelation| x@) == related(self.by_name(), self.relations(), relation_name@),
    {
        self.related_in(&self.by_name, relation_name)
    }

    /// The entities of a type, in store order.
    pub fn get_entities_by_type(&self, entity_type: &EntityType) -> (r: Vec<&GraphEntity>)
        ensures
            r@.map_values(|e: &GraphEntity| e@) == entities_of_type(self.entities(), *entity_type),
    {
        let ghost es = self.entities();
        let mut r: Vec<&GraphEntity> = Vec::new();
        let mut i: usize = 0;
        while i < self.entities.len()
            invariant
                i <= self.entities@.len(),
                es == self.entities(),
                r@.map_values(|e: &GraphEntity| e@) == entities_of_type(es.take(i as int), *entity_type),
            decreases self.entities.len() - i,
        {
            assert(es.take(i + 1).drop_last() =~= es.take(i as int));
            assert(es[i as int] == self.entities@[i as int]@);
            if same_type(&self.entities[i].entity_type, entity_type) {
                let ghost before = r@;
                r.push(&self.entities[i]);
                assert(r@.map_values(|e: &GraphEntity| e@) =~= before.map_values(|e: &GraphEntity| e@).push(es[i as int]));
            }
            i += 1;
        }
        assert(es.take(self.entities@.len() as int) =~= es);
        r
    }

    /// The ids of the entities with attribute `key` = `value`, in the order added.
    pub fn attribute_entity_ids(&self, key: &str, value: &str) -> (r: Vec<String>)
        ensures
            r@.map_values(|s: String| s@) == attribute_ids(self.attribute_index(), key@, value@),
    {
        let ghost iv = self.attribute_index();
        let mut r: Vec<String> = Vec::new();
        let mut i: usize = 0;
        while i < self.attribute_index.len()
            invariant
                i <= self.attribute_index@.len(),
                iv == self.attribute_index(),
                r@.map_values(|s: String| s@) == attribute_ids(iv.take(i as int), key@, value@),
            decreases self.attribute_index.len() - i,
        {
            assert(iv.take(i + 1).drop_last() =~= iv.take(i as int));
            let t = &self.attribute_index[i];
            assert(iv[i as int] == (t.0@, t.1@, t.2@));
            if str_eq(t.0.as_str(), key) && str_eq(t.1.as_str(), value) {
                let ghost before = r@;
                r.push(copy(t.2.as_str()));
                assert(r@.map_values(|s: String| s@) =~= before.map_values(|s: String| s@).push(t.2@));
            }
            i += 1;
        }
        assert(iv.take(self.attribute_index@.len() as int) =~= iv);
        r
    }

    /// Whether some entity has an attribute called `key`.
    pub fn has_attribute_key(&self, key: &str) -> (b: bool)
        ensures
            b == attribute_key_known(self.attribute_index(), key@),
    {
        let ghost iv = self.attribute_index();
        let mut i: usize = 0;
        while i < self.attribute_index.len()
            invariant
                i <= self.attribute_index@.len(),
                iv == self.attribute_index(),
                forall|j: int| 0 <= j < i ==> (#[trigger] iv[j]).0 != key@,
            decreases self.attribute_index.len() - i,
        {
            assert(iv[i as int].0 == self.attribute_index@[i as int].0@);
            if str_eq(self.attribute_index[i].0.as_str(), key) {
                return true;
            }
            i += 1;
        }
        false
    }

    /// The number of entities held.
    pub fn entity_count(&self) -> (n: usize)
        ensures
            n == self.entities().len(),
    {
        self.entities.len()
    }

    /// The number of relations held.
    pub fn relation_count(&self) -> (n: usize)
        ensures
            n == self.relations().len(),
    {
        self.relations.len()
    }

    /// The entities held, in the order their ids were first added.
    pub fn all_entities(&self) -> (r: &Vec<GraphEntity>)
        ensures
            r@.map_values(|e: GraphEntity| e@) == self.entities(),
    {
        &self.entities
    }

    /// The relations held, in the order their ids were first added.
    pub fn all_relations(&self) -> (r: &Vec<GraphRelation>)
        ensures
            r@.map_values(|x: GraphRelation| x@) == self.relations(),
    {
        &self.relations
    }
}

} // verus!
