//! Knowledge graph queries: the plan a query is run by (index scans, then a
//! traversal), its execution over the graph's indices, and the ordering and
//! limiting of its paths.
use vstd::prelude::*;
use vstd::string::StringExecFns;
use crate::agents::{find_char, first_index_of};
use crate::graph::{
    attribute_ids, attribute_key_known, entity_position, related, EntityView, GraphIndex, GraphRelation,
};
use crate::knowledge::{GraphQuery, QuerySortBy};
use crate::text::{chars_of, str_eq, string_of, string_of_range};

verus! {

broadcast use vstd::string::group_string_axioms;

/// One step of a query plan.
#[derive(Debug)]
pub enum PlanStep {
    /// Start from the entity with this id.
    IdScan(String),
    /// Start from the entities with the attribute written "key=value".
    AttributeScan(String),
    /// Unless some path already has `max_depth` relations, extend every
    /// path by one relation, of one of the given names if any are given;
    /// stop once paths reach `max_depth` relations.
    Traverse { max_depth: usize, relation_types: Vec<String> },
}

/// The mathematical form of a plan step.
pub enum StepView {
    IdScan(Seq<char>),
    AttributeScan(Seq<char>),
    Traverse(nat, Seq<Seq<char>>),
}

impl View for PlanStep {
    type V = StepView;

    open spec fn view(&self) -> StepView {
        match self {
            PlanStep::IdScan(k) => StepView::IdScan(k@),
            PlanStep::AttributeScan(k) => StepView::AttributeScan(k@),
            PlanStep::Traverse { max_depth, relation_types } => StepView::Traverse(
                *max_depth as nat,
                relation_types@.map_values(|s: String| s@),
            ),
        }
    }
}

/// The steps a query is run by.
#[derive(Debug)]
pub struct QueryPlan {
    pub steps: Vec<PlanStep>,
}

/// The views of a plan's steps.
pub open spec fn steps_view(steps: Seq<PlanStep>) -> Seq<StepView> {
    steps.map_values(|s: PlanStep| s@)
}

/// A path through the graph: its entities' ids, and the ids of the
/// relations between them.
#[derive(Debug, Clone)]
pub struct GraphPath {
    pub entity_ids: Vec<String>,
    pub relation_ids: Vec<String>,
}

/// A path as (entity ids, relation ids).
pub type PathView = (Seq<Seq<char>>, Seq<Seq<char>>);

/// The views of strings.
pub open spec fn strs(v: Seq<String>) -> Seq<Seq<char>> {
    v.map_values(|s: String| s@)
}

/// The view of a path.
pub open spec fn path_view(p: GraphPath) -> PathView {
    (strs(p.entity_ids@), strs(p.relation_ids@))
}

/// The views of paths.
pub open spec fn paths_view(v: Seq<GraphPath>) -> Seq<PathView> {
    v.map_values(|p: GraphPath| path_view(p))
}

/// The attribute filter with the fewest matching entities among the filters
/// whose key some entity has, searching from `i` with `best` so far; the
/// first of equals wins.
pub open spec fn smallest_from(
    filters: Seq<(Seq<char>, Seq<char>)>,
    index: Seq<(Seq<char>, Seq<char>, Seq<char>)>,
    i: int,
    best: Option<(Seq<char>, Seq<char>, nat)>,
) -> Option<(Seq<char>, Seq<char>, nat)>
    decreases filters.len() - i,
{
    if i < 0 || i >= filters.len() {
        best
    } else {
        let (k, v) = filters[i];
        let count = attribute_ids(index, k, v).len();
        let best_count = match best {
            Some(b) => b.2,
            None => 0,
        };
        let next = if attribute_key_known(index, k) && (best is None || count < best_count) {
            Some((k, v, count))
        } else {
            best
        };
        smallest_from(filters, index, i + 1, next)
    }
}

/// The steps planned for a query: a scan of the start entity if the graph
/// holds it, a scan of the most selective attribute filter, then the traversal.
pub open spec fn planned_steps(
    entities: Seq<EntityView>,
    index: Seq<(Seq<char>, Seq<char>, Seq<char>)>,
    start: Option<Seq<char>>,
    filters: Seq<(Seq<char>, Seq<char>)>,
    max_depth: nat,
    relation_types: Seq<Seq<char>>,
) -> Seq<StepView> {
    let a = match start {
        Some(s) => if entity_position(entities, s) is Some {
            seq![StepView::IdScan(s)]
        } else {
            Seq::empty()
        },
        None => Seq::empty(),
    };
    let b = if filters.len() > 0 {
        match smallest_from(filters, index, 0, None) {
            Some((k, v, _)) => a.push(StepView::AttributeScan(k + "="@ + v)),
            None => a,
        }
    } else {
        a
    };
    b.push(StepView::Traverse(max_depth, relation_types))
}

/// The view of an optional string.
pub open spec fn opt_str(o: Option<String>) -> Option<Seq<char>> {
    match o {
        Some(s) => Some(s@),
        None => None,
    }
}

/// Copy a string.
fn copy(s: &str) -> (r: String)
    ensures
        r@ == s@,
{
    string_of(chars_of(s).as_slice())
}

/// Copy a list of strings.
fn copy_all(v: &Vec<String>) -> (r: Vec<String>)
    ensures
        strs(r@) == strs(v@),
{
    let mut r: Vec<String> = Vec::new();
    let mut i: usize = 0;
    while i < v.len()
        invariant
            i <= v@.len(),
            strs(r@) == strs(v@).take(i as int),
        decreases v.len() - i,
    {
        let ghost before = r@;
        r.push(copy(v[i].as_str()));
        assert(strs(r@) =~= strs(before).push(v@[i as int]@));
        i += 1;
        assert(strs(r@) =~= strs(v@).take(i as int));
    }
    assert(strs(v@).take(v@.len() as int) =~= strs(v@));
    r
}

impl GraphIndex {
    /// Plan how to run a query.
    pub fn build_query_plan(&self, query: &GraphQuery) -> (plan: QueryPlan)
        requires
            self.wf(),
        ensures
            steps_view(plan.steps@) == planned_steps(
                self.entities(),
                self.attribute_index(),
                opt_str(query.start_id),
                crate::graph::pairs_view(query.attribute_filters@),
                query.max_depth as nat,
                strs(query.relation_types@),
            ),
    {
        let mut steps: Vec<PlanStep> = Vec::new();
        match &query.start_id {
            Some(s) => {
                if self.get_entity(s.as_str()).is_some() {
                    steps.push(PlanStep::IdScan(copy(s.as_str())));
                }
            },
            None => {},
        }
        let ghost a = steps_view(steps@);
        let ghost fv = crate::graph::pairs_view(query.attribute_filters@);
        let ghost idx = self.attribute_index();
        if query.attribute_filters.len() > 0 {
            let mut best: Option<(usize, usize)> = None;
            let mut i: usize = 0;
            while i < query.attribute_filters.len()
                invariant
                    i <= query.attribute_filters@.len(),
                    fv == crate::graph::pairs_view(query.attribute_filters@),
                    idx == self.attribute_index(),
                    match best {
                        Some((b, c)) => b < i && smallest_from(fv, idx, 0, None) == smallest_from(
                            fv,
                            idx,
                            i as int,
                            Some((fv[b as int].0, fv[b as int].1, c as nat)),
                        ),
                        None => smallest_from(fv, idx, 0, None) == smallest_from(fv, idx, i as int, None),
                    },
                decreases query.attribute_filters.len() - i,
            {
                let k = query.attribute_filters[i].0.as_str();
                let v = query.attribute_filters[i].1.as_str();
                assert(fv[i as int] == (k@, v@));
                if self.has_attribute_key(k) {
                    let count = self.attribute_entity_ids(k, v).len();
                    let replace = match best {
                        None => true,
                        Some((_, c)) => count < c,
                    };
                    if replace {
                        best = Some((i, count));
                    }
                }
                i += 1;
            }
            match best {
                Some((b, _)) => {
                    let mut key = copy(query.attribute_filters[b].0.as_str());
                    key.append("=");
                    key.append(query.attribute_filters[b].1.as_str());
                    steps.push(PlanStep::AttributeScan(key));
                },
                None => {},
            }
        }
        steps.push(PlanStep::Traverse { max_depth: query.max_depth, relation_types: copy_all(&query.relation_types) });
        assert(steps_view(steps@) =~= planned_steps(
            self.entities(),
            self.attribute_index(),
            opt_str(query.start_id),
            fv,
            query.max_depth as nat,
            strs(query.relation_types@),
        ));
        QueryPlan { steps }
    }
}

/// The one-entity paths starting at the listed entities the graph holds.
pub open spec fn start_paths(ids: Seq<Seq<char>>, entities: Seq<EntityView>) -> Seq<PathView>
    decreases ids.len(),
{
    if ids.len() == 0 {
        Seq::empty()
    } else {
        let rest = start_paths(ids.drop_last(), entities);
        if entity_position(entities, ids.last()) is Some {
            rest.push((seq![ids.last()], Seq::empty()))
        } else {
            rest
        }
    }
}

/// "key=value" split at its first '=' (`str::split_once`).
pub open spec fn split_at_eq(key: Seq<char>) -> Option<(Seq<char>, Seq<char>)> {
    match first_index_of(key, '=') {
        Some(p) => Some((key.take(p), key.skip(p + 1))),
        None => None,
    }
}

/// Whether a relation may be followed: no names are asked for, or its name is one of them.
pub open spec fn allowed(types: Seq<Seq<char>>, name: Seq<char>) -> bool {
    types.len() == 0 || types.contains(name)
}

/// `p` extended by each of `rels` that may be followed and leads to an entity the graph holds.
pub open spec fn extensions(
    p: PathView,
    rels: Seq<crate::graph::RelationView>,
    entities: Seq<EntityView>,
    types: Seq<Seq<char>>,
) -> Seq<PathView>
    decreases rels.len(),
{
    if rels.len() == 0 {
        Seq::empty()
    } else {
        let rest = extensions(p, rels.drop_last(), entities, types);
        let r = rels.last();
        if allowed(types, r.name) && entity_position(entities, r.target_id) is Some {
            rest.push((p.0.push(r.target_id), p.1.push(r.id)))
        } else {
            rest
        }
    }
}

/// Every path extended by one relation leaving its last entity, in order.
pub open spec fn traversed(
    paths: Seq<PathView>,
    outgoing: Seq<(Seq<char>, Seq<char>)>,
    rels: Seq<crate::graph::RelationView>,
    entities: Seq<EntityView>,
    types: Seq<Seq<char>>,
) -> Seq<PathView>
    decreases paths.len(),
{
    if paths.len() == 0 {
        Seq::empty()
    } else {
        let p = paths.last();
        traversed(paths.drop_last(), outgoing, rels, entities, types) + if p.0.len() > 0 {
            extensions(p, related(outgoing, rels, p.0.last()), entities, types)
        } else {
            Seq::empty()
        }
    }
}

/// The most relations any of the paths has.
pub open spec fn max_length(paths: Seq<PathView>) -> nat
    decreases paths.len(),
{
    if paths.len() == 0 {
        0
    } else {
        let m = max_length(paths.drop_last());
        if paths.last().1.len() > m {
            paths.last().1.len()
        } else {
            m
        }
    }
}

/// The paths a plan yields from step `i` on, given the paths so far. A
/// traversal first checks its maximum depth: when some path already has
/// that many relations, the plan ends there; otherwise it extends the paths
/// by one relation, and ends when some path then has that many.
pub open spec fn run_steps(
    steps: Seq<StepView>,
    i: int,
    results: Seq<PathView>,
    entities: Seq<EntityView>,
    index: Seq<(Seq<char>, Seq<char>, Seq<char>)>,
    outgoing: Seq<(Seq<char>, Seq<char>)>,
    rels: Seq<crate::graph::RelationView>,
) -> Seq<PathView>
    decreases steps.len() - i,
{
    if i < 0 || i >= steps.len() {
        results
    } else {
        match steps[i] {
            StepView::IdScan(k) => run_steps(
                steps,
                i + 1,
                results + start_paths(seq![k], entities),
                entities,
                index,
                outgoing,
                rels,
            ),
            StepView::AttributeScan(k) => run_steps(
                steps,
                i + 1,
                results + match split_at_eq(k) {
                    Some((a, v)) => start_paths(attribute_ids(index, a, v), entities),
                    None => Seq::empty(),
                },
                entities,
                index,
                outgoing,
                rels,
            ),
            StepView::Traverse(d, types) => if max_length(results) >= d {
                results
            } else {
                let next = traversed(results, outgoing, rels, entities, types);
                if max_length(next) >= d {
                    next
                } else {
                    run_steps(steps, i + 1, next, entities, index, outgoing, rels)
                }
            },
        }
    }
}

/// The largest maximum depth of the traversals of a plan (0 without any).
pub open spec fn deepest(steps: Seq<StepView>) -> nat
    decreases steps.len(),
{
    if steps.len() == 0 {
        0
    } else {
        let m = deepest(steps.drop_last());
        match steps.last() {
            StepView::Traverse(d, _) => if d > m {
                d
            } else {
                m
            },
            _ => m,
        }
    }
}

proof fn lemma_deepest(steps: Seq<StepView>, j: int)
    requires
        0 <= j < steps.len(),
    ensures
        steps[j] matches StepView::Traverse(d, _) ==> d <= deepest(steps),
    decreases steps.len(),
{
    if j < steps.len() - 1 {
        lemma_deepest(steps.drop_last(), j);
        assert(steps.drop_last()[j] == steps[j]);
    }
}

/// No path has more relations than the longest.
proof fn lemma_max_length_elem(paths: Seq<PathView>, k: int)
    requires
        0 <= k < paths.len(),
    ensures
        paths[k].1.len() <= max_length(paths),
    decreases paths.len(),
{
    if k < paths.len() - 1 {
        lemma_max_length_elem(paths.drop_last(), k);
        assert(paths.drop_last()[k] == paths[k]);
    }
}

proof fn lemma_max_length_concat(a: Seq<PathView>, b: Seq<PathView>, m: nat)
    requires
        max_length(a) <= m,
        max_length(b) <= m,
    ensures
        max_length(a + b) <= m,
    decreases b.len(),
{
    if b.len() == 0 {
        assert(a + b =~= a);
    } else {
        lemma_max_length_concat(a, b.drop_last(), m);
        assert((a + b).drop_last() =~= a + b.drop_last());
        assert((a + b).last() == b.last());
    }
}

proof fn lemma_start_paths_flat(ids: Seq<Seq<char>>, entities: Seq<EntityView>)
    ensures
        max_length(start_paths(ids, entities)) == 0,
    decreases ids.len(),
{
    if ids.len() > 0 {
        lemma_start_paths_flat(ids.drop_last(), entities);
        let rest = start_paths(ids.drop_last(), entities);
        if entity_position(entities, ids.last()) is Some {
            assert(rest.push((seq![ids.last()], Seq::<Seq<char>>::empty())).drop_last() =~= rest);
        }
    }
}

proof fn lemma_extensions_bound(
    p: PathView,
    rels: Seq<crate::graph::RelationView>,
    entities: Seq<EntityView>,
    types: Seq<Seq<char>>,
)
    ensures
        max_length(extensions(p, rels, entities, types)) <= p.1.len() + 1,
    decreases rels.len(),
{
    if rels.len() > 0 {
        lemma_extensions_bound(p, rels.drop_last(), entities, types);
        let rest = extensions(p, rels.drop_last(), entities, types);
        let r = rels.last();
        if allowed(types, r.name) && entity_position(entities, r.target_id) is Some {
            let q = (p.0.push(r.target_id), p.1.push(r.id));
            assert(rest.push(q).drop_last() =~= rest);
        }
    }
}

proof fn lemma_traversed_bound(
    paths: Seq<PathView>,
    outgoing: Seq<(Seq<char>, Seq<char>)>,
    rels: Seq<crate::graph::RelationView>,
    entities: Seq<EntityView>,
    types: Seq<Seq<char>>,
)
    ensures
        max_length(traversed(paths, outgoing, rels, entities, types)) <= max_length(paths) + 1,
    decreases paths.len(),
{
    if paths.len() > 0 {
        let p = paths.last();
        lemma_traversed_bound(paths.drop_last(), outgoing, rels, entities, types);
        let m = max_length(paths) + 1;
        let ext = if p.0.len() > 0 {
            extensions(p, related(outgoing, rels, p.0.last()), entities, types)
        } else {
            Seq::empty()
        };
        if p.0.len() > 0 {
            lemma_extensions_bound(p, related(outgoing, rels, p.0.last()), entities, types);
        }
        lemma_max_length_concat(traversed(paths.drop_last(), outgoing, rels, entities, types), ext, m as nat);
    }
}

/// A plan yields no path with more relations than its deepest traversal
/// allows, when it starts from paths within that bound.
proof fn lemma_run_steps_bound(
    steps: Seq<StepView>,
    i: int,
    results: Seq<PathView>,
    entities: Seq<EntityView>,
    index: Seq<(Seq<char>, Seq<char>, Seq<char>)>,
    outgoing: Seq<(Seq<char>, Seq<char>)>,
    rels: Seq<crate::graph::RelationView>,
)
    requires
        max_length(results) <= deepest(steps),
    ensures
        max_length(run_steps(steps, i, results, entities, index, outgoing, rels)) <= deepest(steps),
    decreases steps.len() - i,
{
    let big = deepest(steps);
    if 0 <= i < steps.len() {
        lemma_deepest(steps, i);
        match steps[i] {
            StepView::IdScan(k) => {
                lemma_start_paths_flat(seq![k], entities);
                lemma_max_length_concat(results, start_paths(seq![k], entities), big);
                lemma_run_steps_bound(steps, i + 1, results + start_paths(seq![k], entities), entities, index, outgoing, rels);
            },
            StepView::AttributeScan(k) => {
                let added = match split_at_eq(k) {
                    Some((a, v)) => start_paths(attribute_ids(index, a, v), entities),
                    None => Seq::empty(),
                };
                match split_at_eq(k) {
                    Some((a, v)) => lemma_start_paths_flat(attribute_ids(index, a, v), entities),
                    None => {},
                }
                lemma_max_length_concat(results, added, big);
                lemma_run_steps_bound(steps, i + 1, results + added, entities, index, outgoing, rels);
            },
            StepView::Traverse(d, types) => {
                if max_length(results) < d {
                    let next = traversed(results, outgoing, rels, entities, types);
                    lemma_traversed_bound(results, outgoing, rels, entities, types);
                    if max_length(next) < d {
                        lemma_run_steps_bound(steps, i + 1, next, entities, index, outgoing, rels);
                    }
                }
            },
        }
    }
}

/// Every path a plan yields has at most as many relations as the deepest
/// traversal of the plan allows.
pub proof fn plan_paths_within_depth(
    steps: Seq<StepView>,
    entities: Seq<EntityView>,
    index: Seq<(Seq<char>, Seq<char>, Seq<char>)>,
    outgoing: Seq<(Seq<char>, Seq<char>)>,
    rels: Seq<crate::graph::RelationView>,
)
    ensures
        forall|k: int|
            0 <= k < run_steps(steps, 0, Seq::empty(), entities, index, outgoing, rels).len() ==> (#[trigger] run_steps(
                steps,
                0,
                Seq::empty(),
                entities,
                index,
                outgoing,
                rels,
            )[k]).1.len() <= deepest(steps),
{
    lemma_run_steps_bound(steps, 0, Seq::empty(), entities, index, outgoing, rels);
    let r = run_steps(steps, 0, Seq::empty(), entities, index, outgoing, rels);
    assert forall|k: int| 0 <= k < r.len() implies (#[trigger] r[k]).1.len() <= deepest(steps) by {
        lemma_max_length_elem(r, k);
    }
}

/// A query's maximum depth bounds its paths: the plan made for a query has
/// one traversal, of the query's maximum depth, so no path the plan yields
/// has more relations than that.
pub proof fn query_paths_within_max_depth(
    entities: Seq<EntityView>,
    index: Seq<(Seq<char>, Seq<char>, Seq<char>)>,
    outgoing: Seq<(Seq<char>, Seq<char>)>,
    rels: Seq<crate::graph::RelationView>,
    start: Option<Seq<char>>,
    filters: Seq<(Seq<char>, Seq<char>)>,
    max_depth: nat,
    relation_types: Seq<Seq<char>>,
)
    ensures
        ({
            let steps = planned_steps(entities, index, start, filters, max_depth, relation_types);
            let r = run_steps(steps, 0, Seq::empty(), entities, index, outgoing, rels);
            forall|k: int| 0 <= k < r.len() ==> (#[trigger] r[k]).1.len() <= max_depth
        }),
{
    let steps = planned_steps(entities, index, start, filters, max_depth, relation_types);
    let init = steps.drop_last();
    assert forall|j: int| 0 <= j < init.len() implies !(init[j] is Traverse) by {
        let a = match start {
            Some(s) => if entity_position(entities, s) is Some {
                seq![StepView::IdScan(s)]
            } else {
                Seq::empty()
            },
            None => Seq::empty(),
        };
        assert(init.len() <= 2);
    }
    lemma_deepest_no_traverse(init);
    assert(deepest(steps) == max_depth);
    plan_paths_within_depth(steps, entities, index, outgoing, rels);
}

/// The relation counts of paths that a plan yields stay within its deepest traversal.
proof fn lemma_result_depth(
    r: Seq<GraphPath>,
    steps: Seq<StepView>,
    entities: Seq<EntityView>,
    index: Seq<(Seq<char>, Seq<char>, Seq<char>)>,
    outgoing: Seq<(Seq<char>, Seq<char>)>,
    rels: Seq<crate::graph::RelationView>,
)
    requires
        paths_view(r) == run_steps(steps, 0, Seq::empty(), entities, index, outgoing, rels),
    ensures
        forall|k: int| 0 <= k < r.len() ==> (#[trigger] r[k]).relation_ids@.len() <= deepest(steps),
{
    plan_paths_within_depth(steps, entities, index, outgoing, rels);
    assert forall|k: int| 0 <= k < r.len() implies (#[trigger] r[k]).relation_ids@.len() <= deepest(steps) by {
        assert(paths_view(r)[k] == path_view(r[k]));
        assert(strs(r[k].relation_ids@).len() == r[k].relation_ids@.len());
    }
}

proof fn lemma_deepest_no_traverse(steps: Seq<StepView>)
    requires
        forall|j: int| 0 <= j < steps.len() ==> !(steps[j] is Traverse),
    ensures
        deepest(steps) == 0,
    decreases steps.len(),
{
    if steps.len() > 0 {
        assert(!(steps[steps.len() - 1] is Traverse));
        assert forall|j: int| 0 <= j < steps.drop_last().len() implies !(steps.drop_last()[j] is Traverse) by {
            assert(steps.drop_last()[j] == steps[j]);
        }
        lemma_deepest_no_traverse(steps.drop_last());
    }
}

/// Whether `types` holds `name`.
fn contains_str(types: &Vec<String>, name: &str) -> (b: bool)
    ensures
        b == strs(types@).contains(name@),
{
    let mut i: usize = 0;
    while i < types.len()
        invariant
            i <= types@.len(),
            forall|j: int| 0 <= j < i ==> strs(types@)[j] != name@,
        decreases types.len() - i,
    {
        if str_eq(types[i].as_str(), name) {
            assert(strs(types@)[i as int] == name@);
            return true;
        }
        i += 1;
    }
    proof {
        if strs(types@).contains(name@) {
            let j = choose|j: int| 0 <= j < strs(types@).len() && strs(types@)[j] == name@;
            assert(strs(types@)[j] != name@);
        }
    }
    false
}

/// A one-entity path.
fn single_path(id: &str) -> (p: GraphPath)
    ensures
        path_view(p) == (seq![id@], Seq::<Seq<char>>::empty()),
{
    let p = GraphPath { entity_ids: vec![copy(id)], relation_ids: Vec::new() };
    assert(path_view(p).0 =~= seq![id@]);
    assert(path_view(p).1 =~= Seq::<Seq<char>>::empty());
    p
}

impl GraphIndex {
    /// The one-entity paths for the listed ids the graph holds, appended to `out`.
    fn push_start_paths(&self, ids: &Vec<String>, out: &mut Vec<GraphPath>)
        requires
            self.wf(),
        ensures
            paths_view(final(out)@) == paths_view(old(out)@) + start_paths(strs(ids@), self.entities()),
    {
        let ghost base = paths_view(out@);
        let mut i: usize = 0;
        while i < ids.len()
            invariant
                i <= ids@.len(),
                self.wf(),
                paths_view(out@) == base + start_paths(strs(ids@).take(i as int), self.entities()),
            decreases ids.len() - i,
        {
            assert(strs(ids@).take(i + 1).drop_last() =~= strs(ids@).take(i as int));
            assert(strs(ids@)[i as int] == ids@[i as int]@);
            if self.get_entity(ids[i].as_str()).is_some() {
                let ghost before = out@;
                out.push(single_path(ids[i].as_str()));
                assert(paths_view(out@) =~= paths_view(before).push((seq![ids@[i as int]@], Seq::<Seq<char>>::empty())));
            }
            i += 1;
        }
        assert(strs(ids@).take(ids@.len() as int) =~= strs(ids@));
    }

    /// Every path extended by one relation leaving its last entity.
    fn traverse(&self, paths: &Vec<GraphPath>, types: &Vec<String>) -> (r: Vec<GraphPath>)
        requires
            self.wf(),
        ensures
            paths_view(r@) == traversed(paths_view(paths@), self.outgoing(), self.relations(), self.entities(), strs(types@)),
    {
        let ghost pv = paths_view(paths@);
        let ghost tv = strs(types@);
        let mut out: Vec<GraphPath> = Vec::new();
        let mut i: usize = 0;
        while i < paths.len()
            invariant
                i <= paths@.len(),
                self.wf(),
                pv == paths_view(paths@),
                tv == strs(types@),
                paths_view(out@) == traversed(pv.take(i as int), self.outgoing(), self.relations(), self.entities(), tv),
            decreases paths.len() - i,
        {
            assert(pv.take(i + 1).drop_last() =~= pv.take(i as int));
            let p = &paths[i];
            assert(pv[i as int] == path_view(*p));
            let ghost base = paths_view(out@);
            let n = p.entity_ids.len();
            if n > 0 {
                let last = p.entity_ids[n - 1].as_str();
                assert(strs(p.entity_ids@).last() == last@);
                let rels = self.get_relations(last);
                let ghost rv = rels@.map_values(|x: &GraphRelation| x@);
                let mut k: usize = 0;
                while k < rels.len()
                    invariant
                        k <= rels@.len(),
                        self.wf(),
                        rv == rels@.map_values(|x: &GraphRelation| x@),
                        tv == strs(types@),
                        paths_view(out@) == base + extensions(path_view(*p), rv.take(k as int), self.entities(), tv),
                    decreases rels.len() - k,
                {
                    assert(rv.take(k + 1).drop_last() =~= rv.take(k as int));
                    let rel = rels[k];
                    assert(rv[k as int] == rel@);
                    let ok_type = types.len() == 0 || contains_str(types, rel.name.as_str());
                    if ok_type && self.get_entity(rel.target_id.as_str()).is_some() {
                        let mut entity_ids = copy_all(&p.entity_ids);
                        let mut relation_ids = copy_all(&p.relation_ids);
                        let ghost e0 = entity_ids@;
                        let ghost r0 = relation_ids@;
                        entity_ids.push(copy(rel.target_id.as_str()));
                        relation_ids.push(copy(rel.id.as_str()));
                        assert(strs(entity_ids@) =~= strs(e0).push(rel@.target_id));
                        assert(strs(relation_ids@) =~= strs(r0).push(rel@.id));
                        let ghost before = out@;
                        out.push(GraphPath { entity_ids, relation_ids });
                        assert(paths_view(out@) =~= paths_view(before).push(
                            (path_view(*p).0.push(rel@.target_id), path_view(*p).1.push(rel@.id)),
                        ));
                    }
                    k += 1;
                }
                assert(rv.take(rels@.len() as int) =~= rv);
            }
            assert(paths_view(out@) =~= traversed(pv.take(i + 1), self.outgoing(), self.relations(), self.entities(), tv));
            i += 1;
        }
        assert(pv.take(paths@.len() as int) =~= pv);
        out
    }

    /// Run a query plan: the index scans give the starting paths, and a
    /// traversal extends them by one relation unless some path already has
    /// its maximum depth of relations; the plan stops once one has.
    pub fn execute_query_plan(&self, plan: &QueryPlan) -> (r: Vec<GraphPath>)
        requires
            self.wf(),
        ensures
            paths_view(r@) == run_steps(
                steps_view(plan.steps@),
                0,
                Seq::empty(),
                self.entities(),
                self.attribute_index(),
                self.outgoing(),
                self.relations(),
            ),
            forall|k: int| 0 <= k < r@.len() ==> (#[trigger] r@[k]).relation_ids@.len() <= deepest(steps_view(plan.steps@)),
    {
        let ghost sv = steps_view(plan.steps@);
        let ghost goal = run_steps(
            sv,
            0,
            Seq::empty(),
            self.entities(),
            self.attribute_index(),
            self.outgoing(),
            self.relations(),
        );
        let mut results: Vec<GraphPath> = Vec::new();
        assert(paths_view(results@) =~= Seq::<PathView>::empty());
        let mut i: usize = 0;
        while i < plan.steps.len()
            invariant
                i <= plan.steps@.len(),
                self.wf(),
                sv == steps_view(plan.steps@),
                goal == run_steps(
                    sv,
                    0,
                    Seq::empty(),
                    self.entities(),
                    self.attribute_index(),
                    self.outgoing(),
                    self.relations(),
                ),
                goal == run_steps(
                    sv,
                    i as int,
                    paths_view(results@),
                    self.entities(),
                    self.attribute_index(),
                    self.outgoing(),
                    self.relations(),
                ),
            decreases plan.steps.len() - i,
        {
            assert(sv[i as int] == plan.steps@[i as int]@);
            match &plan.steps[i] {
                PlanStep::IdScan(k) => {
                    let ids = vec![copy(k.as_str())];
                    assert(strs(ids@) =~= seq![k@]);
                    self.push_start_paths(&ids, &mut results);
                },
                PlanStep::AttributeScan(k) => {
                    let kv = chars_of(k.as_str());
                    let n = kv.len();
                    match find_char(&kv, '=') {
                        Some(p) => {
                            assert(p < n);
                            let a = string_of_range(kv.as_slice(), 0, p);
                            let v = string_of_range(kv.as_slice(), p + 1, n);
                            assert(a@ =~= k@.take(p as int));
                            assert(v@ =~= k@.skip(p + 1));
                            let ids = self.attribute_entity_ids(a.as_str(), v.as_str());
                            self.push_start_paths(&ids, &mut results);
                        },
                        None => {
                            assert(paths_view(results@) + Seq::<PathView>::empty() =~= paths_view(results@));
                        },
                    }
                },
                PlanStep::Traverse { max_depth, relation_types } => {
                    let ghost prev = paths_view(results@);
                    assert(sv[i as int] == StepView::Traverse(*max_depth as nat, strs(relation_types@)));
                    if self.longest(&results) >= *max_depth {
                        proof {
                            lemma_result_depth(results@, sv, self.entities(), self.attribute_index(), self.outgoing(), self.relations());
                        }
                        return results;
                    }
                    let next = self.traverse(&results, relation_types);
                    results = next;
                    let longest = self.longest(&results);
                    if longest >= *max_depth {
                        assert(goal == paths_view(results@));
                        proof {
                            lemma_result_depth(results@, sv, self.entities(), self.attribute_index(), self.outgoing(), self.relations());
                        }
                        return results;
                    }
                },
            }
            i += 1;
        }
        proof {
            lemma_result_depth(results@, sv, self.entities(), self.attribute_index(), self.outgoing(), self.relations());
        }
        results
    }

    /// The most relations any of the paths has.
    fn longest(&self, paths: &Vec<GraphPath>) -> (m: usize)
        ensures
            m == max_length(paths_view(paths@)),
    {
        let ghost pv = paths_view(paths@);
        let mut m: usize = 0;
        let mut i: usize = 0;
        while i < paths.len()
            invariant
                i <= paths@.len(),
                pv == paths_view(paths@),
                m == max_length(pv.take(i as int)),
            decreases paths.len() - i,
        {
            assert(pv.take(i + 1).drop_last() =~= pv.take(i as int));
            assert(pv[i as int].1.len() == paths@[i as int].relation_ids@.len());
            let n = paths[i].relation_ids.len();
            if n > m {
                m = n;
            }
            i += 1;
        }
        assert(pv.take(paths@.len() as int) =~= pv);
        m
    }
}

/// Whether a new entry with key `new` goes before an entry with key
/// `existing`: a smaller existing key when descending, a larger when ascending.
pub open spec fn moves_past(existing: u64, new: u64, desc: bool) -> bool {
    if desc {
        existing < new
    } else {
        existing > new
    }
}

/// Whether a new entry with key `new` goes before one with key `existing`.
fn goes_past(existing: u64, new: u64, desc: bool) -> (b: bool)
    ensures
        b == moves_past(existing, new, desc),
{
    if desc {
        existing < new
    } else {
        existing > new
    }
}

/// `s` with `x` inserted after the entries it does not move past (a stable insertion).
pub open spec fn insert_keyed(s: Seq<(u64, PathView)>, x: (u64, PathView), desc: bool) -> Seq<(u64, PathView)>
    decreases s.len(),
{
    if s.len() == 0 {
        seq![x]
    } else if moves_past(s.last().0, x.0, desc) {
        insert_keyed(s.drop_last(), x, desc).push(s.last())
    } else {
        s.push(x)
    }
}

/// `s` stably sorted by key (insertion sort).
pub open spec fn sort_keyed(s: Seq<(u64, PathView)>, desc: bool) -> Seq<(u64, PathView)>
    decreases s.len(),
{
    if s.len() == 0 {
        Seq::empty()
    } else {
        insert_keyed(sort_keyed(s.drop_last(), desc), s.last(), desc)
    }
}

/// Whether the keys of `s` never go the wrong way.
pub open spec fn keys_ordered(s: Seq<(u64, PathView)>, desc: bool) -> bool {
    forall|i: int, j: int| 0 <= i < j < s.len() ==> !moves_past(#[trigger] s[i].0, #[trigger] s[j].0, desc)
}

proof fn lemma_insert_keyed(s: Seq<(u64, PathView)>, x: (u64, PathView), desc: bool)
    requires
        keys_ordered(s, desc),
    ensures
        keys_ordered(insert_keyed(s, x, desc), desc),
        insert_keyed(s, x, desc).len() == s.len() + 1,
        forall|i: int|
            0 <= i < insert_keyed(s, x, desc).len() ==> (#[trigger] insert_keyed(s, x, desc)[i] == x || s.contains(
                insert_keyed(s, x, desc)[i],
            )),
    decreases s.len(),
{
    let r = insert_keyed(s, x, desc);
    if s.len() == 0 {
    } else if moves_past(s.last().0, x.0, desc) {
        let d = s.drop_last();
        assert(keys_ordered(d, desc)) by {
            assert forall|i: int, j: int| 0 <= i < j < d.len() implies !moves_past(#[trigger] d[i].0, #[trigger] d[j].0, desc) by {
                assert(d[i] == s[i] && d[j] == s[j]);
            }
        }
        lemma_insert_keyed(d, x, desc);
        let m = insert_keyed(d, x, desc);
        assert forall|i: int| 0 <= i < m.len() implies !moves_past(#[trigger] m[i].0, s.last().0, desc) by {
            if m[i] != x {
                let k = choose|k: int| 0 <= k < d.len() && d[k] == m[i];
                assert(s[k] == d[k]);
                assert(!moves_past(s[k].0, s[s.len() - 1].0, desc));
            }
        }
        assert forall|i: int| 0 <= i < r.len() implies (#[trigger] r[i] == x || s.contains(r[i])) by {
            if i < m.len() {
                if m[i] != x {
                    let k = choose|k: int| 0 <= k < d.len() && d[k] == m[i];
                    assert(s[k] == d[k]);
                }
            } else {
                assert(s[s.len() - 1] == s.last());
            }
        }
        assert forall|i: int, j: int| 0 <= i < j < r.len() implies !moves_past(#[trigger] r[i].0, #[trigger] r[j].0, desc) by {
            if j == r.len() - 1 {
                assert(r[i] == m[i]);
            } else {
                assert(r[i] == m[i] && r[j] == m[j]);
            }
        }
    } else {
        assert forall|i: int| 0 <= i < r.len() implies (#[trigger] r[i] == x || s.contains(r[i])) by {
            if i < s.len() {
                assert(r[i] == s[i]);
            }
        }
        assert forall|i: int, j: int| 0 <= i < j < r.len() implies !moves_past(#[trigger] r[i].0, #[trigger] r[j].0, desc) by {
            if j == r.len() - 1 {
                assert(r[i] == s[i]);
                if i < s.len() - 1 {
                    assert(!moves_past(s[i].0, s[s.len() - 1].0, desc));
                }
            } else {
                assert(r[i] == s[i] && r[j] == s[j]);
            }
        }
    }
}

/// Sorting keeps every path and puts the keys in order: ascending path
/// lengths, or creation times newest first.
pub proof fn sort_keyed_is_ordered(s: Seq<(u64, PathView)>, desc: bool)
    ensures
        keys_ordered(sort_keyed(s, desc), desc),
        sort_keyed(s, desc).len() == s.len(),
    decreases s.len(),
{
    if s.len() > 0 {
        sort_keyed_is_ordered(s.drop_last(), desc);
        lemma_insert_keyed(sort_keyed(s.drop_last(), desc), s.last(), desc);
    }
}

/// The key a path is ordered by: its length, or the creation time of its
/// first entity (0 if the graph does not hold it).
pub open spec fn path_key(p: PathView, entities: Seq<EntityView>, by: QuerySortBy) -> u64 {
    match by {
        QuerySortBy::PathLength => p.1.len() as u64,
        _ => if p.0.len() > 0 {
            match entity_position(entities, p.0[0]) {
                Some(i) => entities[i].created_at,
                None => 0,
            }
        } else {
            0
        },
    }
}

/// The paths paired with their keys.
pub open spec fn keyed(paths: Seq<PathView>, entities: Seq<EntityView>, by: QuerySortBy) -> Seq<(u64, PathView)> {
    paths.map_values(|p: PathView| (path_key(p, entities, by), p))
}

/// The paths in the order a query asks for: by ascending length, by
/// creation time newest first, or as given (weight orders are applied by
/// the caller, which holds the weights); then at most `limit` of them when
/// `limit` is not 0.
pub open spec fn ordered_paths(paths: Seq<PathView>, entities: Seq<EntityView>, by: QuerySortBy, limit: nat) -> Seq<
    PathView,
> {
    let sorted = match by {
        QuerySortBy::PathLength => sort_keyed(keyed(paths, entities, by), false).map_values(
            |e: (u64, PathView)| e.1,
        ),
        QuerySortBy::CreatedAt => sort_keyed(keyed(paths, entities, by), true).map_values(|e: (u64, PathView)| e.1),
        _ => paths,
    };
    if limit > 0 && sorted.len() > limit {
        sorted.take(limit as int)
    } else {
        sorted
    }
}

/// The views of keyed paths.
pub open spec fn keyed_view(v: Seq<(u64, GraphPath)>) -> Seq<(u64, PathView)> {
    v.map_values(|e: (u64, GraphPath)| (e.0, path_view(e.1)))
}

/// Copy a path.
fn copy_path(p: &GraphPath) -> (r: GraphPath)
    ensures
        path_view(r) == path_view(*p),
{
    GraphPath { entity_ids: copy_all(&p.entity_ids), relation_ids: copy_all(&p.relation_ids) }
}

impl GraphIndex {
    /// The key a path is ordered by.
    fn key_of(&self, p: &GraphPath, by: QuerySortBy) -> (k: u64)
        requires
            self.wf(),
        ensures
            k == path_key(path_view(*p), self.entities(), by),
    {
        match by {
            QuerySortBy::PathLength => p.relation_ids.len() as u64,
            _ => {
                if p.entity_ids.len() > 0 {
                    assert(strs(p.entity_ids@)[0] == p.entity_ids@[0]@);
                    match self.get_entity(p.entity_ids[0].as_str()) {
                        Some(e) => e.created_at,
                        None => 0,
                    }
                } else {
                    0
                }
            },
        }
    }

    /// Order the paths of a query and keep at most `limit` of them (all when
    /// `limit` is 0).
    pub fn order_paths(&self, paths: &Vec<GraphPath>, sort_by: QuerySortBy, limit: usize) -> (r: Vec<GraphPath>)
        requires
            self.wf(),
        ensures
            paths_view(r@) == ordered_paths(paths_view(paths@), self.entities(), sort_by, limit as nat),
    {
        let ghost pv = paths_view(paths@);
        let desc = match sort_by {
            QuerySortBy::CreatedAt => true,
            _ => false,
        };
        let sorting = match sort_by {
            QuerySortBy::PathLength => true,
            QuerySortBy::CreatedAt => true,
            _ => false,
        };
        let mut out: Vec<GraphPath> = Vec::new();
        if sorting {
            let ghost kv = keyed(pv, self.entities(), sort_by);
            let mut sorted: Vec<(u64, GraphPath)> = Vec::new();
            let mut i: usize = 0;
            assert(kv.take(0) =~= Seq::<(u64, PathView)>::empty());
            assert(keyed_view(sorted@) =~= Seq::<(u64, PathView)>::empty());
            while i < paths.len()
                invariant
                    i <= paths@.len(),
                    self.wf(),
                    pv == paths_view(paths@),
                    kv == keyed(pv, self.entities(), sort_by),
                    keyed_view(sorted@) == sort_keyed(kv.take(i as int), desc),
                decreases paths.len() - i,
            {
                assert(kv.take(i + 1).drop_last() =~= kv.take(i as int));
                let key = self.key_of(&paths[i], sort_by);
                let ghost x = (key, path_view(paths@[i as int]));
                assert(kv[i as int] == x);
                let ghost s0 = keyed_view(sorted@);
                let mut k = sorted.len();
                assert(s0.take(k as int) =~= s0);
                assert(s0.skip(k as int) =~= Seq::<(u64, PathView)>::empty());
                while k > 0 && goes_past(sorted[k - 1].0, key, desc)
                    invariant
                        k <= sorted@.len(),
                        s0 == keyed_view(sorted@),
                        x.0 == key,
                        insert_keyed(s0, x, desc) == insert_keyed(s0.take(k as int), x, desc) + s0.skip(k as int),
                    decreases k,
                {
                    assert(s0.take(k as int).drop_last() =~= s0.take(k - 1));
                    assert(s0.take(k as int).last() == s0[k - 1]);
                    assert(s0[k - 1].0 == sorted@[k - 1].0);
                    assert(insert_keyed(s0.take(k as int), x, desc) == insert_keyed(s0.take(k - 1), x, desc).push(s0[k - 1]));
                    assert(seq![s0[k - 1]] + s0.skip(k as int) =~= s0.skip(k - 1));
                    k -= 1;
                }
                proof {
                    if k > 0 {
                        assert(s0.take(k as int).last() == s0[k - 1]);
                    }
                }
                sorted.insert(k, (key, copy_path(&paths[i])));
                assert(keyed_view(sorted@) =~= s0.take(k as int) + seq![x] + s0.skip(k as int));
                assert(insert_keyed(s0.take(k as int), x, desc) =~= s0.take(k as int).push(x));
                i += 1;
            }
            assert(kv.take(paths@.len() as int) =~= kv);
            let ghost sk = keyed_view(sorted@);
            let mut j: usize = 0;
            while j < sorted.len()
                invariant
                    j <= sorted@.len(),
                    sk == keyed_view(sorted@),
                    paths_view(out@) == sk.take(j as int).map_values(|e: (u64, PathView)| e.1),
                decreases sorted.len() - j,
            {
                let ghost before = out@;
                assert(sk[j as int].1 == path_view(sorted@[j as int].1));
                out.push(copy_path(&sorted[j].1));
                assert(paths_view(out@) =~= paths_view(before).push(sk[j as int].1));
                assert(sk.take(j + 1).map_values(|e: (u64, PathView)| e.1) =~= sk.take(j as int).map_values(
                    |e: (u64, PathView)| e.1,
                ).push(sk[j as int].1));
                j += 1;
            }
            assert(sk.take(sorted@.len() as int) =~= sk);
        } else {
            let mut j: usize = 0;
            while j < paths.len()
                invariant
                    j <= paths@.len(),
                    pv == paths_view(paths@),
                    paths_view(out@) == pv.take(j as int),
                decreases paths.len() - j,
            {
                let ghost before = out@;
                out.push(copy_path(&paths[j]));
                assert(paths_view(out@) =~= paths_view(before).push(pv[j as int]));
                assert(pv.take(j + 1) =~= pv.take(j as int).push(pv[j as int]));
                j += 1;
            }
            assert(pv.take(paths@.len() as int) =~= pv);
        }
        if limit > 0 && out.len() > limit {
            let ghost before = paths_view(out@);
            out.truncate(limit);
            assert(paths_view(out@) =~= before.take(limit as int));
        }
        out
    }
}

/// The name of a sort order as `{:?}` writes it.
pub open spec fn sort_name(s: QuerySortBy) -> Seq<char> {
    match s {
        QuerySortBy::Weight => "Weight"@,
        QuerySortBy::PathLength => "PathLength"@,
        QuerySortBy::Relevance => "Relevance"@,
        QuerySortBy::CreatedAt => "CreatedAt"@,
    }
}

/// The key a query's result is cached under: its start, target, maximum
/// depth, sort order and limit, as `{:?}` and `{}` write them, joined by `:`.
pub open spec fn cache_key_of(q: GraphQuery) -> Seq<char> {
    crate::reflector::option_debug(crate::knowledge::opt_string_view(q.start_id)) + ":"@
        + crate::reflector::option_debug(crate::knowledge::opt_string_view(q.target_id)) + ":"@
        + crate::logic::decimal(q.max_depth as nat) + ":"@ + sort_name(q.sort_by) + ":"@
        + crate::logic::decimal(q.limit as nat)
}

/// Appends an optional string as `{:?}` writes it.
fn push_option_debug(out: &mut String, o: &Option<String>)
    ensures
        final(out)@ == old(out)@ + crate::reflector::option_debug(crate::knowledge::opt_string_view(*o)),
{
    match o {
        Some(c) => {
            out.append("Some(");
            let d = crate::reflector::debug_str(c.as_str());
            out.append(d.as_str());
            out.append(")");
        },
        None => out.append("None"),
    }
}

/// The key a query's result is cached under.
pub fn query_cache_key(q: &GraphQuery) -> (k: String)
    ensures
        k@ == cache_key_of(*q),
{
    let mut k = String::new();
    push_option_debug(&mut k, &q.start_id);
    k.append(":");
    push_option_debug(&mut k, &q.target_id);
    k.append(":");
    crate::logic::push_decimal(&mut k, q.max_depth);
    k.append(":");
    k.append(
        match q.sort_by {
            QuerySortBy::Weight => "Weight",
            QuerySortBy::PathLength => "PathLength",
            QuerySortBy::Relevance => "Relevance",
            QuerySortBy::CreatedAt => "CreatedAt",
        },
    );
    k.append(":");
    crate::logic::push_decimal(&mut k, q.limit);
    k
}

/// A cache of query results by key, oldest first, holding at most its
/// capacity of entries.
pub struct QueryCache<V> {
    entries: Vec<(String, V)>,
    capacity: usize,
}

impl<V> QueryCache<V> {
    /// The cached keys, oldest first.
    pub closed spec fn keys(&self) -> Seq<Seq<char>> {
        self.entries@.map_values(|e: (String, V)| e.0@)
    }

    /// The cached results, in the order of their keys.
    pub closed spec fn values(&self) -> Seq<V> {
        self.entries@.map_values(|e: (String, V)| e.1)
    }

    /// The most entries the cache holds before it drops the oldest.
    pub closed spec fn capacity(&self) -> nat {
        self.capacity as nat
    }

    /// An empty cache of the given capacity.
    pub fn new(capacity: usize) -> (c: Self)
        ensures
            c.keys() == Seq::<Seq<char>>::empty(),
            c.values() == Seq::<V>::empty(),
            c.capacity() == capacity,
    {
        let c = QueryCache { entries: Vec::new(), capacity };
        assert(c.keys() =~= Seq::<Seq<char>>::empty());
        assert(c.values() =~= Seq::<V>::empty());
        c
    }

    /// The result cached under `key`, if any.
    pub fn get(&self, key: &str) -> (r: Option<&V>)
        ensures
            match r {
                Some(v) => exists|i: int| 0 <= i < self.keys().len() && self.keys()[i] == key@ && self.values()[i] == *v,
                None => !self.keys().contains(key@),
            },
    {
        let ghost ks = self.keys();
        let mut i: usize = 0;
        while i < self.entries.len()
            invariant
                i <= self.entries@.len(),
                ks == self.entries@.map_values(|e: (String, V)| e.0@),
                forall|j: int| 0 <= j < i ==> ks[j] != key@,
            decreases self.entries.len() - i,
        {
            if str_eq(self.entries[i].0.as_str(), key) {
                assert(ks[i as int] == key@);
                assert(self.keys()[i as int] == key@);
                assert(self.values()[i as int] == self.entries@[i as int].1);
                return Some(&self.entries[i].1);
            }
            i += 1;
        }
        None
    }

    /// Caches `value` under `key`, which is not cached yet; when the cache
    /// is full, its oldest entry goes first.
    pub fn insert(&mut self, key: String, value: V)
        requires
            !old(self).keys().contains(key@),
        ensures
            final(self).capacity() == old(self).capacity(),
            final(self).keys() == (if old(self).keys().len() >= old(self).capacity() && old(self).keys().len() > 0 {
                old(self).keys().drop_first()
            } else {
                old(self).keys()
            }).push(key@),
            final(self).values() == (if old(self).keys().len() >= old(self).capacity() && old(self).keys().len() > 0 {
                old(self).values().drop_first()
            } else {
                old(self).values()
            }).push(value),
    {
        let ghost k0 = self.keys();
        let ghost v0 = self.values();
        if self.entries.len() >= self.capacity && self.entries.len() > 0 {
            self.entries.remove(0);
            assert(self.keys() =~= k0.drop_first());
            assert(self.values() =~= v0.drop_first());
        }
        let ghost k1 = self.keys();
        let ghost v1 = self.values();
        let ghost kv = key@;
        self.entries.push((key, value));
        assert(self.keys() =~= k1.push(kv));
        assert(self.values() =~= v1.push(value));
    }

    /// Forgets every cached result.
    pub fn clear(&mut self)
        ensures
            final(self).keys() == Seq::<Seq<char>>::empty(),
            final(self).values() == Seq::<V>::empty(),
            final(self).capacity() == old(self).capacity(),
    {
        self.entries = Vec::new();
        assert(self.keys() =~= Seq::<Seq<char>>::empty());
        assert(self.values() =~= Seq::<V>::empty());
    }
}

} // verus!
