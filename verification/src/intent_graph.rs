//! The graph of intents observed across sessions: each intent as a node with
//! the number of times it was seen, and each observed transition from one
//! intent to the next with the number of times it occurred. Transition times,
//! which are fractional hours, are kept beside the graph by edge index.
use vstd::prelude::*;
use crate::intents::strings_view;
use crate::logic::decimal;
use crate::optimizer::push_decimal_u64;
use crate::text::str_eq;
use crate::tracking::IntentType;

verus! {

broadcast use vstd::string::group_string_axioms;

/// A node as (id, intent type, keywords, frequency).
pub type NodeView = (Seq<char>, IntentType, Seq<Seq<char>>, u32);

/// An edge as (source id, target id, co-occurrence count).
pub type EdgeView = (Seq<char>, Seq<char>, u32);

/// An adjacency entry as (source id, target ids in the order recorded).
pub type AdjView = (Seq<char>, Seq<Seq<char>>);

/// An intent seen in some session.
pub struct IntentNode {
    pub id: String,
    pub intent_type: IntentType,
    pub keywords: Vec<String>,
    pub frequency: u32,
}

/// An observed transition from one intent to another.
pub struct IntentEdge {
    pub source_id: String,
    pub target_id: String,
    pub co_occurrence_count: u32,
}

/// Intents, the transitions between them, and the successors of each.
pub struct IntentGraph {
    nodes: Vec<IntentNode>,
    edges: Vec<IntentEdge>,
    adjacency: Vec<(String, Vec<String>)>,
}

/// The view of a node.
pub open spec fn node_view(n: IntentNode) -> NodeView {
    (n.id@, n.intent_type, strings_view(n.keywords@), n.frequency)
}

/// The view of an edge.
pub open spec fn edge_view(e: IntentEdge) -> EdgeView {
    (e.source_id@, e.target_id@, e.co_occurrence_count)
}

/// The view of an adjacency entry.
pub open spec fn adj_view(a: (String, Vec<String>)) -> AdjView {
    (a.0@, strings_view(a.1@))
}

/// Node `i` has id `id`.
pub open spec fn node_at(ns: Seq<NodeView>, i: int, id: Seq<char>) -> bool {
    0 <= i < ns.len() && ns[i].0 == id
}

/// Some node has id `id`.
pub open spec fn has_node(ns: Seq<NodeView>, id: Seq<char>) -> bool {
    exists|i: int| node_at(ns, i, id)
}

/// Edge `i` goes from `s` to `t`.
pub open spec fn pair_at(es: Seq<EdgeView>, i: int, s: Seq<char>, t: Seq<char>) -> bool {
    0 <= i < es.len() && es[i].0 == s && es[i].1 == t
}

/// Some edge goes from `s` to `t`.
pub open spec fn has_pair(es: Seq<EdgeView>, s: Seq<char>, t: Seq<char>) -> bool {
    exists|i: int| pair_at(es, i, s, t)
}

/// Adjacency entry `i` belongs to `id`.
pub open spec fn key_at(a: Seq<AdjView>, i: int, id: Seq<char>) -> bool {
    0 <= i < a.len() && a[i].0 == id
}

/// Some adjacency entry belongs to `id`.
pub open spec fn has_key(a: Seq<AdjView>, id: Seq<char>) -> bool {
    exists|i: int| key_at(a, i, id)
}

/// No two nodes share an id.
pub open spec fn distinct_ids(ns: Seq<NodeView>) -> bool {
    forall|i: int, j: int| 0 <= i < j < ns.len() ==> #[trigger] ns[i].0 != #[trigger] ns[j].0
}

/// No two edges join the same pair of intents.
pub open spec fn distinct_pairs(es: Seq<EdgeView>) -> bool {
    forall|i: int, j: int|
        0 <= i < j < es.len() ==> !(#[trigger] es[i].0 == #[trigger] es[j].0 && es[i].1 == es[j].1)
}

/// No two adjacency entries share a key.
pub open spec fn distinct_keys(a: Seq<AdjView>) -> bool {
    forall|i: int, j: int| 0 <= i < j < a.len() ==> #[trigger] a[i].0 != #[trigger] a[j].0
}

/// How often the transition from `s` to `t` was recorded, if ever.
pub open spec fn pair_count(es: Seq<EdgeView>, s: Seq<char>, t: Seq<char>) -> Option<u32> {
    if has_pair(es, s, t) {
        Some(es[choose|i: int| pair_at(es, i, s, t)].2)
    } else {
        None
    }
}

/// How often the intent `id` was seen, if it is a node.
pub open spec fn frequency_of(ns: Seq<NodeView>, id: Seq<char>) -> Option<u32> {
    if has_node(ns, id) {
        Some(ns[choose|i: int| node_at(ns, i, id)].3)
    } else {
        None
    }
}

/// The successors recorded for `id`, if it has an adjacency entry.
pub open spec fn successors_of(a: Seq<AdjView>, id: Seq<char>) -> Option<Seq<Seq<char>>> {
    if has_key(a, id) {
        Some(a[choose|i: int| key_at(a, i, id)].1)
    } else {
        None
    }
}

/// The nodes with an empty node for `id` added when there is none.
pub open spec fn with_node(ns: Seq<NodeView>, id: Seq<char>) -> Seq<NodeView> {
    if has_node(ns, id) {
        ns
    } else {
        ns.push((id, IntentType::Unknown, Seq::empty(), 0))
    }
}

/// The nodes after seeing intent `id` once more: its frequency goes up by
/// one, and a new intent starts at two.
pub open spec fn with_seen(ns: Seq<NodeView>, id: Seq<char>, t: IntentType, keywords: Seq<Seq<char>>) -> Seq<NodeView> {
    if has_node(ns, id) {
        let i = choose|i: int| node_at(ns, i, id);
        ns.update(i, (ns[i].0, ns[i].1, ns[i].2, (ns[i].3 + 1) as u32))
    } else {
        ns.push((id, t, keywords, 2))
    }
}

/// The adjacency with an entry for `id` added when there is none.
pub open spec fn with_key(a: Seq<AdjView>, id: Seq<char>) -> Seq<AdjView> {
    if has_key(a, id) {
        a
    } else {
        a.push((id, Seq::empty()))
    }
}

/// The adjacency with `to` appended to the successors of `from`.
pub open spec fn with_successor(a: Seq<AdjView>, from: Seq<char>, to: Seq<char>) -> Seq<AdjView> {
    if has_key(a, from) {
        let i = choose|i: int| key_at(a, i, from);
        a.update(i, (from, a[i].1.push(to)))
    } else {
        a.push((from, seq![to]))
    }
}

/// The edges after one more transition from `s` to `t`: its count goes up
/// by one, or it is appended with a count of one.
pub open spec fn recorded(es: Seq<EdgeView>, s: Seq<char>, t: Seq<char>) -> Seq<EdgeView> {
    if has_pair(es, s, t) {
        let i = choose|i: int| pair_at(es, i, s, t);
        es.update(i, (s, t, (es[i].2 + 1) as u32))
    } else {
        es.push((s, t, 1u32))
    }
}

/// Recording a transition adds one to its count and leaves the count of
/// every other transition as it was.
pub proof fn recording_counts_one_more(es: Seq<EdgeView>, s: Seq<char>, t: Seq<char>)
    requires
        distinct_pairs(es),
        pair_count(es, s, t) matches Some(c) ==> c < u32::MAX,
    ensures
        distinct_pairs(recorded(es, s, t)),
        pair_count(recorded(es, s, t), s, t) == Some(
            match pair_count(es, s, t) {
                Some(c) => (c + 1) as u32,
                None => 1u32,
            },
        ),
        forall|s2: Seq<char>, t2: Seq<char>|
            !(s2 == s && t2 == t) ==> #[trigger] pair_count(recorded(es, s, t), s2, t2) == pair_count(es, s2, t2),
{
    if has_pair(es, s, t) {
        let i = choose|i: int| pair_at(es, i, s, t);
        lemma_counts_after_update(es, i, (es[i].2 + 1) as u32);
        assert(es.update(i, (es[i].0, es[i].1, (es[i].2 + 1) as u32)) == recorded(es, s, t));
    } else {
        lemma_counts_after_push(es, s, t);
    }
}

/// The edges after the transition from `s` to `t` was recorded `k` times.
pub open spec fn recorded_times(es: Seq<EdgeView>, s: Seq<char>, t: Seq<char>, k: nat) -> Seq<EdgeView>
    decreases k,
{
    if k == 0 {
        es
    } else {
        recorded(recorded_times(es, s, t, (k - 1) as nat), s, t)
    }
}

proof fn lemma_recorded_times(es: Seq<EdgeView>, s: Seq<char>, t: Seq<char>, k: nat)
    requires
        distinct_pairs(es),
        pair_count(es, s, t) is None,
        k < u32::MAX,
    ensures
        distinct_pairs(recorded_times(es, s, t, k)),
        pair_count(recorded_times(es, s, t, k), s, t) == if k == 0 {
            None
        } else {
            Some(k as u32)
        },
    decreases k,
{
    if k > 0 {
        lemma_recorded_times(es, s, t, (k - 1) as nat);
        recording_counts_one_more(recorded_times(es, s, t, (k - 1) as nat), s, t);
    }
}

/// A transition recorded `k` times from a graph that never saw it is a goal
/// pattern from the third time on, reported with the count `k`; before that
/// there is none. A sequence of fewer than two intents is never one.
pub proof fn recordings_make_a_goal_pattern(es: Seq<EdgeView>, s: Seq<char>, t: Seq<char>, k: nat)
    requires
        distinct_pairs(es),
        pair_count(es, s, t) is None,
        k < u32::MAX,
    ensures
        goal_pattern_of(recorded_times(es, s, t, k), seq![s, t]) == if k >= 3 {
            Some(goal_text(s, t, k as u32))
        } else {
            None::<Seq<char>>
        },
        forall|ids: Seq<Seq<char>>| ids.len() < 2 ==> goal_pattern_of(recorded_times(es, s, t, k), ids) is None,
{
    lemma_recorded_times(es, s, t, k);
    let ids = seq![s, t];
    assert(ids[0] == s && ids[1] == t);
}

/// The report of a recurring transition.
pub open spec fn goal_text(s: Seq<char>, t: Seq<char>, count: u32) -> Seq<char> {
    "Goal pattern: "@ + s + " -> "@ + t + " (count: "@ + decimal(count as nat) + ")"@
}

/// The goal pattern that a sequence of intents starts with: its first two
/// intents, when that transition was recorded at least three times.
pub open spec fn goal_pattern_of(es: Seq<EdgeView>, ids: Seq<Seq<char>>) -> Option<Seq<char>> {
    if ids.len() < 2 {
        None
    } else {
        match pair_count(es, ids[0], ids[1]) {
            Some(c) => if c >= 3 {
                Some(goal_text(ids[0], ids[1], c))
            } else {
                None
            },
            None => None,
        }
    }
}

/// Recording a transition once more leaves every other transition's count
/// as it was, and gives the recorded one its new count.
proof fn lemma_counts_after_update(es: Seq<EdgeView>, k: int, c: u32)
    requires
        distinct_pairs(es),
        0 <= k < es.len(),
    ensures
        ({
            let es2 = es.update(k, (es[k].0, es[k].1, c));
            &&& distinct_pairs(es2)
            &&& pair_count(es2, es[k].0, es[k].1) == Some(c)
            &&& forall|s: Seq<char>, t: Seq<char>|
                !(s == es[k].0 && t == es[k].1) ==> #[trigger] pair_count(es2, s, t) == pair_count(es, s, t)
        }),
{
    let es2 = es.update(k, (es[k].0, es[k].1, c));
    assert forall|i: int, j: int| 0 <= i < j < es2.len() implies !(#[trigger] es2[i].0 == #[trigger] es2[j].0
        && es2[i].1 == es2[j].1) by {
        assert(!(es[i].0 == es[j].0 && es[i].1 == es[j].1));
    }
    assert(pair_at(es2, k, es[k].0, es[k].1));
    let w = choose|j: int| pair_at(es2, j, es[k].0, es[k].1);
    assert(w == k) by {
        if w < k {
            assert(!(es2[w].0 == es2[k].0 && es2[w].1 == es2[k].1));
        } else if w > k {
            assert(!(es2[k].0 == es2[w].0 && es2[k].1 == es2[w].1));
        }
    }
    assert forall|s: Seq<char>, t: Seq<char>|
        !(s == es[k].0 && t == es[k].1) implies #[trigger] pair_count(es2, s, t) == pair_count(es, s, t) by {
        assert forall|j: int| pair_at(es2, j, s, t) <==> pair_at(es, j, s, t) by {
            if j == k {
            }
        }
        if has_pair(es, s, t) {
            let a = choose|j: int| pair_at(es, j, s, t);
            assert(pair_at(es2, a, s, t));
            let b = choose|j: int| pair_at(es2, j, s, t);
            assert(pair_at(es, b, s, t));
            assert(a == b) by {
                if a < b {
                    assert(!(es[a].0 == es[b].0 && es[a].1 == es[b].1));
                } else if a > b {
                    assert(!(es[b].0 == es[a].0 && es[b].1 == es[a].1));
                }
            }
        }
    }
}

/// Recording a new transition leaves every other transition's count as it
/// was, and gives the new one the count one.
proof fn lemma_counts_after_push(es: Seq<EdgeView>, s0: Seq<char>, t0: Seq<char>)
    requires
        distinct_pairs(es),
        !has_pair(es, s0, t0),
    ensures
        ({
            let es2 = es.push((s0, t0, 1u32));
            &&& distinct_pairs(es2)
            &&& pair_count(es2, s0, t0) == Some(1u32)
            &&& forall|s: Seq<char>, t: Seq<char>|
                !(s == s0 && t == t0) ==> #[trigger] pair_count(es2, s, t) == pair_count(es, s, t)
        }),
{
    let es2 = es.push((s0, t0, 1u32));
    let n = es.len() as int;
    assert forall|i: int, j: int| 0 <= i < j < es2.len() implies !(#[trigger] es2[i].0 == #[trigger] es2[j].0
        && es2[i].1 == es2[j].1) by {
        if j < n {
            assert(!(es[i].0 == es[j].0 && es[i].1 == es[j].1));
        } else {
            assert(!pair_at(es, i, s0, t0));
        }
    }
    assert(pair_at(es2, n, s0, t0));
    let w = choose|j: int| pair_at(es2, j, s0, t0);
    assert(w == n) by {
        if w < n {
            assert(pair_at(es, w, s0, t0));
        }
    }
    assert forall|s: Seq<char>, t: Seq<char>|
        !(s == s0 && t == t0) implies #[trigger] pair_count(es2, s, t) == pair_count(es, s, t) by {
        assert forall|j: int| pair_at(es2, j, s, t) <==> pair_at(es, j, s, t) by {
            if j == n {
            }
        }
        if has_pair(es, s, t) {
            let a = choose|j: int| pair_at(es, j, s, t);
            assert(pair_at(es2, a, s, t));
            let b = choose|j: int| pair_at(es2, j, s, t);
            assert(pair_at(es, b, s, t));
            assert(a == b) by {
                if a < b {
                    assert(!(es[a].0 == es[b].0 && es[a].1 == es[b].1));
                } else if a > b {
                    assert(!(es[b].0 == es[a].0 && es[b].1 == es[a].1));
                }
            }
        }
    }
}

impl IntentGraph {
    /// The nodes, in the order they were first seen.
    pub closed spec fn nodes_view(&self) -> Seq<NodeView> {
        self.nodes@.map_values(|n: IntentNode| node_view(n))
    }

    /// The edges, in the order they were first recorded.
    pub closed spec fn edges_view(&self) -> Seq<EdgeView> {
        self.edges@.map_values(|e: IntentEdge| edge_view(e))
    }

    /// The adjacency entries, in the order they were created.
    pub closed spec fn adjacency_view(&self) -> Seq<AdjView> {
        self.adjacency@.map_values(|a: (String, Vec<String>)| adj_view(a))
    }

    /// No id, transition or adjacency key occurs twice.
    pub open spec fn wf(&self) -> bool {
        &&& distinct_ids(self.nodes_view())
        &&& distinct_pairs(self.edges_view())
        &&& distinct_keys(self.adjacency_view())
    }

    /// An empty graph.
    pub fn new() -> (g: Self)
        ensures
            g.wf(),
            g.nodes_view() == Seq::<NodeView>::empty(),
            g.edges_view() == Seq::<EdgeView>::empty(),
            g.adjacency_view() == Seq::<AdjView>::empty(),
    {
        let g = IntentGraph { nodes: Vec::new(), edges: Vec::new(), adjacency: Vec::new() };
        assert(g.nodes_view() =~= Seq::<NodeView>::empty());
        assert(g.edges_view() =~= Seq::<EdgeView>::empty());
        assert(g.adjacency_view() =~= Seq::<AdjView>::empty());
        g
    }

    /// The position of the node `id`.
    fn find_node(&self, id: &str) -> (r: Option<usize>)
        requires
            self.wf(),
        ensures
            match r {
                Some(i) => node_at(self.nodes_view(), i as int, id@) && i == (choose|j: int|
                    node_at(self.nodes_view(), j, id@)),
                None => !has_node(self.nodes_view(), id@),
            },
    {
        let ghost ns = self.nodes_view();
        let mut i: usize = 0;
        while i < self.nodes.len()
            invariant
                i <= self.nodes@.len(),
                self.wf(),
                ns == self.nodes_view(),
                ns.len() == self.nodes@.len(),
                forall|j: int| 0 <= j < i ==> !node_at(ns, j, id@),
            decreases self.nodes.len() - i,
        {
            assert(ns[i as int] == node_view(self.nodes@[i as int]));
            if str_eq(self.nodes[i].id.as_str(), id) {
                assert(node_at(ns, i as int, id@));
                let ghost c = choose|j: int| node_at(ns, j, id@);
                assert(node_at(ns, c, id@));
                assert(c == i as int) by {
                    if c < i {
                    } else if c > i {
                        assert(ns[i as int].0 != ns[c].0);
                    }
                }
                return Some(i);
            }
            i += 1;
        }
        None
    }

    /// The position of the edge from `s` to `t`.
    fn find_edge(&self, s: &str, t: &str) -> (r: Option<usize>)
        requires
            self.wf(),
        ensures
            match r {
                Some(i) => pair_at(self.edges_view(), i as int, s@, t@) && i == (choose|j: int|
                    pair_at(self.edges_view(), j, s@, t@)),
                None => !has_pair(self.edges_view(), s@, t@),
            },
    {
        let ghost es = self.edges_view();
        let mut i: usize = 0;
        while i < self.edges.len()
            invariant
                i <= self.edges@.len(),
                self.wf(),
                es == self.edges_view(),
                es.len() == self.edges@.len(),
                forall|j: int| 0 <= j < i ==> !pair_at(es, j, s@, t@),
            decreases self.edges.len() - i,
        {
            assert(es[i as int] == edge_view(self.edges@[i as int]));
            if str_eq(self.edges[i].source_id.as_str(), s) && str_eq(self.edges[i].target_id.as_str(), t) {
                assert(pair_at(es, i as int, s@, t@));
                let ghost c = choose|j: int| pair_at(es, j, s@, t@);
                assert(pair_at(es, c, s@, t@));
                assert(c == i as int) by {
                    if c < i {
                    } else if c > i {
                        assert(!(es[i as int].0 == es[c].0 && es[i as int].1 == es[c].1));
                    }
                }
                return Some(i);
            }
            i += 1;
        }
        None
    }

    /// The position of the adjacency entry of `id`.
    fn find_key(&self, id: &str) -> (r: Option<usize>)
        requires
            self.wf(),
        ensures
            match r {
                Some(i) => key_at(self.adjacency_view(), i as int, id@) && i == (choose|j: int|
                    key_at(self.adjacency_view(), j, id@)),
                None => !has_key(self.adjacency_view(), id@),
            },
    {
        let ghost a = self.adjacency_view();
        let mut i: usize = 0;
        while i < self.adjacency.len()
            invariant
                i <= self.adjacency@.len(),
                self.wf(),
                a == self.adjacency_view(),
                a.len() == self.adjacency@.len(),
                forall|j: int| 0 <= j < i ==> !key_at(a, j, id@),
            decreases self.adjacency.len() - i,
        {
            assert(a[i as int] == adj_view(self.adjacency@[i as int]));
            if str_eq(self.adjacency[i].0.as_str(), id) {
                assert(key_at(a, i as int, id@));
                let ghost c = choose|j: int| key_at(a, j, id@);
                assert(key_at(a, c, id@));
                assert(c == i as int) by {
                    if c < i {
                    } else if c > i {
                        assert(a[i as int].0 != a[c].0);
                    }
                }
                return Some(i);
            }
            i += 1;
        }
        None
    }
    /// Records that intent `id` was seen: its frequency goes up by one, or it
    /// is added with the given type and keywords and a frequency of two.
    pub fn add_intent(&mut self, id: &str, intent_type: IntentType, keywords: Vec<String>)
        requires
            old(self).wf(),
            frequency_of(old(self).nodes_view(), id@) matches Some(f) ==> f < u32::MAX,
        ensures
            final(self).wf(),
            final(self).nodes_view() == with_seen(old(self).nodes_view(), id@, intent_type, strings_view(keywords@)),
            final(self).edges_view() == old(self).edges_view(),
            final(self).adjacency_view() == with_key(old(self).adjacency_view(), id@),
    {
        let ghost ns = self.nodes_view();
        match self.find_node(id) {
            Some(i) => {
                let f = self.nodes[i].frequency;
                self.nodes[i].frequency = f + 1;
                assert(self.nodes_view() =~= ns.update(i as int, (ns[i as int].0, ns[i as int].1, ns[i as int].2, (ns[i as int].3 + 1) as u32)));
            },
            None => {
                self.nodes.push(IntentNode { id: id.to_owned(), intent_type, keywords, frequency: 2 });
                assert(self.nodes_view() =~= ns.push((id@, intent_type, strings_view(keywords@), 2u32)));
                assert forall|i: int, j: int| 0 <= i < j < self.nodes_view().len() implies #[trigger] self.nodes_view()[i].0
                    != #[trigger] self.nodes_view()[j].0 by {
                    if j == ns.len() {
                        assert(!node_at(ns, i, id@));
                    }
                }
            },
        }
        self.ensure_key(id);
    }

    /// Adds an empty adjacency entry for `id` when there is none.
    fn ensure_key(&mut self, id: &str)
        requires
            old(self).wf(),
        ensures
            final(self).wf(),
            final(self).nodes_view() == old(self).nodes_view(),
            final(self).edges_view() == old(self).edges_view(),
            final(self).adjacency_view() == with_key(old(self).adjacency_view(), id@),
    {
        let ghost a = self.adjacency_view();
        if self.find_key(id).is_none() {
            self.adjacency.push((id.to_owned(), Vec::new()));
            assert(strings_view(Seq::<String>::empty()) =~= Seq::<Seq<char>>::empty());
            assert(self.adjacency_view() =~= a.push((id@, Seq::<Seq<char>>::empty())));
            assert forall|i: int, j: int| 0 <= i < j < self.adjacency_view().len() implies #[trigger] self.adjacency_view()[i].0
                != #[trigger] self.adjacency_view()[j].0 by {
                if j == a.len() {
                    assert(!key_at(a, i, id@));
                }
            }
        }
    }

    /// Adds an unknown intent `id`, never seen, when there is no node for it.
    fn ensure_node(&mut self, id: &str)
        requires
            old(self).wf(),
        ensures
            final(self).wf(),
            final(self).nodes_view() == with_node(old(self).nodes_view(), id@),
            final(self).edges_view() == old(self).edges_view(),
            final(self).adjacency_view() == old(self).adjacency_view(),
    {
        let ghost ns = self.nodes_view();
        if self.find_node(id).is_none() {
            self.nodes.push(IntentNode { id: id.to_owned(), intent_type: IntentType::Unknown, keywords: Vec::new(), frequency: 0 });
            assert(strings_view(Seq::<String>::empty()) =~= Seq::<Seq<char>>::empty());
            assert(self.nodes_view() =~= ns.push((id@, IntentType::Unknown, Seq::<Seq<char>>::empty(), 0u32)));
            assert forall|i: int, j: int| 0 <= i < j < self.nodes_view().len() implies #[trigger] self.nodes_view()[i].0
                != #[trigger] self.nodes_view()[j].0 by {
                if j == ns.len() {
                    assert(!node_at(ns, i, id@));
                }
            }
        }
    }

    /// Appends `to` to the successors of `from`.
    fn push_successor(&mut self, from: &str, to: &str)
        requires
            old(self).wf(),
        ensures
            final(self).wf(),
            final(self).nodes_view() == old(self).nodes_view(),
            final(self).edges_view() == old(self).edges_view(),
            final(self).adjacency_view() == with_successor(old(self).adjacency_view(), from@, to@),
    {
        let ghost a = self.adjacency_view();
        match self.find_key(from) {
            Some(i) => {
                let ghost before = self.adjacency@[i as int].1@;
                self.adjacency[i].1.push(to.to_owned());
                assert(strings_view(self.adjacency@[i as int].1@) =~= strings_view(before).push(to@));
                assert(self.adjacency_view() =~= a.update(i as int, (from@, a[i as int].1.push(to@))));
            },
            None => {
                let succ = vec![to.to_owned()];
                assert(strings_view(succ@) =~= seq![to@]);
                self.adjacency.push((from.to_owned(), succ));
                assert(self.adjacency_view() =~= a.push((from@, seq![to@])));
                assert forall|i: int, j: int| 0 <= i < j < self.adjacency_view().len() implies #[trigger] self.adjacency_view()[i].0
                    != #[trigger] self.adjacency_view()[j].0 by {
                    if j == a.len() {
                        assert(!key_at(a, i, from@));
                    }
                }
            },
        }
    }

    /// Records a transition from intent `from` to intent `to`: both become
    /// nodes if they were not, the transition's count goes up by one (a new
    /// transition starts at one), and `to` is appended to the successors of
    /// `from`. Returns the position of the transition's edge; edges are only
    /// ever appended, so a position stays valid.
    pub fn add_transition(&mut self, from: &str, to: &str) -> (k: usize)
        requires
            old(self).wf(),
            pair_count(old(self).edges_view(), from@, to@) matches Some(c) ==> c < u32::MAX,
        ensures
            final(self).wf(),
            final(self).nodes_view() == with_node(with_node(old(self).nodes_view(), from@), to@),
            final(self).adjacency_view() == with_successor(old(self).adjacency_view(), from@, to@),
            has_pair(old(self).edges_view(), from@, to@) ==> {
                &&& k == (choose|j: int| pair_at(old(self).edges_view(), j, from@, to@))
                &&& final(self).edges_view() == old(self).edges_view().update(
                    k as int,
                    (from@, to@, (old(self).edges_view()[k as int].2 + 1) as u32),
                )
            },
            !has_pair(old(self).edges_view(), from@, to@) ==> {
                &&& k == old(self).edges_view().len()
                &&& final(self).edges_view() == old(self).edges_view().push((from@, to@, 1u32))
            },
            final(self).edges_view() == recorded(old(self).edges_view(), from@, to@),
            pair_count(final(self).edges_view(), from@, to@) == Some(
                match pair_count(old(self).edges_view(), from@, to@) {
                    Some(c) => (c + 1) as u32,
                    None => 1u32,
                },
            ),
            forall|s: Seq<char>, t: Seq<char>|
                !(s == from@ && t == to@) ==> #[trigger] pair_count(final(self).edges_view(), s, t)
                    == pair_count(old(self).edges_view(), s, t),
    {
        self.ensure_node(from);
        self.ensure_node(to);
        let ghost es = self.edges_view();
        let k = match self.find_edge(from, to) {
            Some(i) => {
                let c = self.edges[i].co_occurrence_count;
                self.edges[i].co_occurrence_count = c + 1;
                proof {
                    lemma_counts_after_update(es, i as int, (c + 1) as u32);
                }
                assert(self.edges_view() =~= es.update(i as int, (es[i as int].0, es[i as int].1, (c + 1) as u32)));
                i
            },
            None => {
                let n = self.edges.len();
                self.edges.push(IntentEdge { source_id: from.to_owned(), target_id: to.to_owned(), co_occurrence_count: 1 });
                proof {
                    lemma_counts_after_push(es, from@, to@);
                }
                assert(self.edges_view() =~= es.push((from@, to@, 1u32)));
                n
            },
        };
        self.push_successor(from, to);
        k
    }

    /// The goal pattern the sequence of intent ids starts with: its first two
    /// intents, when the transition between them was recorded at least three
    /// times.
    pub fn detect_goal_pattern(&self, intent_sequence: &[String]) -> (r: Option<String>)
        requires
            self.wf(),
        ensures
            match r {
                Some(x) => goal_pattern_of(self.edges_view(), strings_view(intent_sequence@)) == Some(x@),
                None => goal_pattern_of(self.edges_view(), strings_view(intent_sequence@)) is None,
            },
    {
        if intent_sequence.len() < 2 {
            return None;
        }
        let s = intent_sequence[0].as_str();
        let t = intent_sequence[1].as_str();
        match self.find_edge(s, t) {
            Some(i) => {
                let c = self.edges[i].co_occurrence_count;
                assert(c == self.edges_view()[i as int].2);
                if c >= 3 {
                    let mut out = "Goal pattern: ".to_owned();
                    out.append(s);
                    out.append(" -> ");
                    out.append(t);
                    out.append(" (count: ");
                    push_decimal_u64(&mut out, c as u64);
                    out.append(")");
                    Some(out)
                } else {
                    None
                }
            },
            None => None,
        }
    }

    /// How often intent `id` was seen, if it is a node.
    pub fn frequency(&self, id: &str) -> (r: Option<u32>)
        requires
            self.wf(),
        ensures
            r == frequency_of(self.nodes_view(), id@),
    {
        match self.find_node(id) {
            Some(i) => {
                assert(self.nodes_view()[i as int].3 == self.nodes@[i as int].frequency);
                Some(self.nodes[i].frequency)
            },
            None => None,
        }
    }

    /// How often the transition from `from` to `to` was recorded, if ever.
    pub fn transition_count(&self, from: &str, to: &str) -> (r: Option<u32>)
        requires
            self.wf(),
        ensures
            r == pair_count(self.edges_view(), from@, to@),
    {
        match self.find_edge(from, to) {
            Some(i) => {
                assert(self.edges_view()[i as int].2 == self.edges@[i as int].co_occurrence_count);
                Some(self.edges[i].co_occurrence_count)
            },
            None => None,
        }
    }

    /// The successors recorded for `id`, in order.
    pub fn successors(&self, id: &str) -> (r: Option<Vec<String>>)
        requires
            self.wf(),
        ensures
            match r {
                Some(v) => successors_of(self.adjacency_view(), id@) == Some(strings_view(v@)),
                None => successors_of(self.adjacency_view(), id@) is None,
            },
    {
        match self.find_key(id) {
            Some(i) => {
                let src = &self.adjacency[i].1;
                let ghost want = self.adjacency_view()[i as int].1;
                assert(want == strings_view(src@));
                let mut out: Vec<String> = Vec::new();
                let mut j: usize = 0;
                while j < src.len()
                    invariant
                        j <= src@.len(),
                        want == strings_view(src@),
                        strings_view(out@) == want.take(j as int),
                    decreases src.len() - j,
                {
                    let ghost before = out@;
                    out.push(src[j].clone());
                    assert(strings_view(out@) =~= strings_view(before).push(src@[j as int]@));
                    assert(want.take(j + 1) =~= want.take(j as int).push(want[j as int]));
                    j += 1;
                }
                assert(want.take(src@.len() as int) =~= want);
                Some(out)
            },
            None => None,
        }
    }

    /// The number of intents in the graph.
    pub fn node_count(&self) -> (n: usize)
        ensures
            n == self.nodes_view().len(),
    {
        self.nodes.len()
    }

    /// The number of distinct transitions recorded.
    pub fn edge_count(&self) -> (n: usize)
        ensures
            n == self.edges_view().len(),
    {
        self.edges.len()
    }
}

} // verus!
