//! The tree behind Monte Carlo tree search over thoughts: its shape, the
//! expansion of a node from its pending candidates, visit counting, and the
//! choice of the final thought. Node values and exploration scores, which are
//! floating point, are kept by the caller.
use vstd::prelude::*;
use crate::agents::{find_char, first_index_of};
use crate::text::{chars_of, string_of_range};

verus! {

broadcast use vstd::string::group_string_axioms;

/// A thought and how deep in the tree it lies.
#[derive(Clone, Debug)]
pub struct ThoughtState {
    pub content: String,
    pub depth: usize,
}

/// A node of the search tree.
#[derive(Debug)]
pub struct ThoughtNode {
    pub state: ThoughtState,
    pub visits: u32,
    /// Indices of the children, in the order they were added.
    pub children: Vec<usize>,
    pub parent: Option<usize>,
    /// Candidate next thoughts not yet added as children.
    pub pending_expansions: Vec<String>,
}

/// The mathematical form of a node.
pub struct NodeView {
    pub content: Seq<char>,
    pub depth: usize,
    pub visits: u32,
    pub children: Seq<usize>,
    pub parent: Option<usize>,
    pub pending: Seq<Seq<char>>,
}

impl View for ThoughtNode {
    type V = NodeView;

    open spec fn view(&self) -> NodeView {
        NodeView {
            content: self.state.content@,
            depth: self.state.depth,
            visits: self.visits,
            children: self.children@,
            parent: self.parent,
            pending: self.pending_expansions@.map_values(|s: String| s@),
        }
    }
}

/// A search tree; node 0 is the root.
pub struct ThoughtTree {
    nodes: Vec<ThoughtNode>,
}

impl View for ThoughtTree {
    type V = Seq<NodeView>;

    closed spec fn view(&self) -> Seq<NodeView> {
        self.nodes@.map_values(|n: ThoughtNode| n@)
    }
}

/// Whether `t` is a well-formed tree: the root is node 0 at depth 0, every
/// other node's parent comes before it and is one level up, and every child
/// comes after its parent and points back to it.
pub open spec fn tree_wf(t: Seq<NodeView>) -> bool {
    &&& t.len() >= 1
    &&& t[0].parent is None
    &&& t[0].depth == 0
    &&& forall|i: int|
        1 <= i < t.len() ==> (#[trigger] t[i].parent matches Some(p) && p < i && t[i].depth == t[p as int].depth
            + 1)
    &&& forall|i: int| 0 <= i < t.len() ==> #[trigger] t[i].depth <= i
    &&& forall|i: int, k: int|
        0 <= i < t.len() && 0 <= k < t[i].children.len() ==> i < #[trigger] t[i].children[k] < t.len()
            && t[t[i].children[k] as int].parent == Some(i as usize)
}

/// A fresh node.
pub open spec fn leaf(content: Seq<char>, depth: usize, parent: Option<usize>) -> NodeView {
    NodeView { content, depth, visits: 0, children: Seq::empty(), parent, pending: Seq::empty() }
}

/// `n` with `c` added to its children.
pub open spec fn with_child(n: NodeView, c: usize) -> NodeView {
    NodeView { children: n.children.push(c), ..n }
}

/// `n` with the given pending candidates.
pub open spec fn with_pending(n: NodeView, pending: Seq<Seq<char>>) -> NodeView {
    NodeView { pending, ..n }
}

/// `n` visited once more.
pub open spec fn visited(n: NodeView) -> NodeView {
    NodeView { visits: (n.visits + 1) as u32, ..n }
}

/// The nodes from `i` up to the root.
pub open spec fn path_to_root(t: Seq<NodeView>, i: int) -> Seq<usize>
    decreases i,
{
    if 0 <= i < t.len() && t[i].parent is Some && t[i].parent->0 < i {
        seq![i as usize] + path_to_root(t, t[i].parent->0 as int)
    } else {
        seq![i as usize]
    }
}

proof fn lemma_path_below(t: Seq<NodeView>, i: int)
    requires
        0 <= i <= usize::MAX,
    ensures
        path_to_root(t, i).len() >= 1,
        path_to_root(t, i)[0] == i,
        forall|k: int| 0 <= k < path_to_root(t, i).len() ==> #[trigger] path_to_root(t, i)[k] <= i,
    decreases i,
{
    if 0 <= i < t.len() && t[i].parent is Some && t[i].parent->0 < i {
        lemma_path_below(t, t[i].parent->0 as int);
    }
}

/// In a well-formed tree, the path from any node up the parents ends at the
/// root, so each visit counted along it reaches the root.
pub proof fn path_reaches_root(t: Seq<NodeView>, i: int)
    requires
        tree_wf(t),
        0 <= i < t.len(),
        t.len() <= usize::MAX,
    ensures
        path_to_root(t, i).contains(0usize),
    decreases i,
{
    if i == 0 {
        assert(path_to_root(t, 0)[0] == 0usize);
    } else {
        let p = t[i].parent->0 as int;
        path_reaches_root(t, p);
        let k = choose|k: int| 0 <= k < path_to_root(t, p).len() && path_to_root(t, p)[k] == 0usize;
        assert(path_to_root(t, i)[k + 1] == 0usize);
    }
}

/// Whether `n` is a finished line of thought: a leaf below the root.
pub open spec fn is_terminal(n: NodeView) -> bool {
    n.children.len() == 0 && n.depth > 0
}

/// What expanding a node did.
#[derive(Debug, Clone, Copy, PartialEq, Eq, Structural)]
pub enum Expansion {
    /// The node is at the depth limit, or has neither pending candidates nor
    /// children: search continues from the node itself.
    Stay,
    /// A pending candidate became this new child.
    Added(usize),
    /// No candidates are pending: search continues from one of the children,
    /// chosen by score.
    PickChild,
}

impl ThoughtTree {
    /// Whether this tree is well formed.
    pub open spec fn wf(&self) -> bool {
        tree_wf(self@)
    }

    /// A tree holding only the problem, as its root.
    pub fn new(problem: &str) -> (t: ThoughtTree)
        ensures
            t.wf(),
            t@ == seq![leaf(problem@, 0, None)],
    {
        let root = ThoughtNode {
            state: ThoughtState { content: crate::text::string_of(chars_of(problem).as_slice()), depth: 0 },
            visits: 0,
            children: Vec::new(),
            parent: None,
            pending_expansions: Vec::new(),
        };
        let ghost rv = root@;
        assert(rv.children =~= Seq::<usize>::empty());
        assert(rv.pending =~= Seq::<Seq<char>>::empty());
        assert(rv == leaf(problem@, 0, None));
        let nodes = vec![root];
        let t = ThoughtTree { nodes };
        assert(t@ =~= seq![leaf(problem@, 0, None)]);
        t
    }

    /// The number of nodes.
    pub fn len(&self) -> (n: usize)
        ensures
            n == self@.len(),
    {
        self.nodes.len()
    }

    /// Node `i`.
    pub fn node(&self, i: usize) -> (r: &ThoughtNode)
        requires
            i < self@.len(),
        ensures
            r@ == self@[i as int],
    {
        &self.nodes[i]
    }

    /// Add `content` as a new child of `parent`, one level deeper.
    pub fn add_child(&mut self, parent: usize, content: String) -> (c: usize)
        requires
            old(self).wf(),
            parent < old(self)@.len(),
        ensures
            final(self).wf(),
            c == old(self)@.len(),
            final(self)@ == old(self)@.update(parent as int, with_child(old(self)@[parent as int], c)).push(
                leaf(content@, (old(self)@[parent as int].depth + 1) as usize, Some(parent)),
            ),
    {
        let ghost t = self@;
        let c = self.nodes.len();
        let depth = self.nodes[parent].state.depth + 1;
        self.nodes[parent].children.push(c);
        self.nodes.push(
            ThoughtNode {
                state: ThoughtState { content, depth },
                visits: 0,
                children: Vec::new(),
                parent: Some(parent),
                pending_expansions: Vec::new(),
            },
        );
        let ghost n = t.update(parent as int, with_child(t[parent as int], c)).push(
            leaf(content@, depth, Some(parent)),
        );
        assert(self@.len() == n.len());
        assert forall|j: int| 0 <= j < n.len() implies self@[j] == n[j] by {
            if j == c {
                assert(self@[j].children =~= Seq::<usize>::empty());
                assert(self@[j].pending =~= Seq::<Seq<char>>::empty());
            }
        }
        assert(self@ =~= n);
        assert forall|i: int, k: int|
            0 <= i < n.len() && 0 <= k < n[i].children.len() implies i < #[trigger] n[i].children[k] < n.len()
            && n[n[i].children[k] as int].parent == Some(i as usize) by {
            if i == parent {
                if k < t[i].children.len() {
                    assert(n[i].children[k] == t[i].children[k]);
                }
            } else if i < t.len() {
                assert(n[i].children[k] == t[i].children[k]);
            }
        }
        c
    }

    /// Whether every node can be visited once more without its count overflowing.
    pub fn visits_can_grow(&self) -> (b: bool)
        ensures
            b == forall|j: int| 0 <= j < self@.len() ==> #[trigger] self@[j].visits < u32::MAX,
    {
        let mut k: usize = 0;
        while k < self.nodes.len()
            invariant
                k <= self@.len(),
                forall|j: int| 0 <= j < k ==> #[trigger] self@[j].visits < u32::MAX,
            decreases self.nodes.len() - k,
        {
            if self.nodes[k].visits == u32::MAX {
                assert(self@[k as int].visits == u32::MAX);
                return false;
            }
            k += 1;
        }
        true
    }

    /// Whether node `i` needs candidate next thoughts before it can be
    /// expanded: it is above the depth limit and has none pending.
    pub fn needs_candidates(&self, i: usize, max_depth: usize) -> (b: bool)
        requires
            i < self@.len(),
        ensures
            b == (self@[i as int].depth < max_depth && self@[i as int].pending.len() == 0),
    {
        self.nodes[i].state.depth < max_depth && self.nodes[i].pending_expansions.len() == 0
    }

    /// Make `candidates` the pending next thoughts of node `i`.
    pub fn set_pending(&mut self, i: usize, candidates: Vec<String>)
        requires
            old(self).wf(),
            i < old(self)@.len(),
        ensures
            final(self).wf(),
            final(self)@ == old(self)@.update(
                i as int,
                with_pending(old(self)@[i as int], candidates@.map_values(|s: String| s@)),
            ),
    {
        let ghost t = self@;
        self.nodes[i].pending_expansions = candidates;
        assert(self@ =~~= t.update(i as int, with_pending(t[i as int], candidates@.map_values(|s: String| s@))));
    }

    /// Expand node `i`: at the depth limit nothing happens; otherwise the
    /// last pending candidate, if any, becomes a new child.
    pub fn expand(&mut self, i: usize, max_depth: usize) -> (e: Expansion)
        requires
            old(self).wf(),
            i < old(self)@.len(),
        ensures
            final(self).wf(),
            ({
                let n = old(self)@[i as int];
                if n.depth >= max_depth {
                    e == Expansion::Stay && final(self)@ == old(self)@
                } else if n.pending.len() > 0 {
                    e == Expansion::Added(old(self)@.len() as usize) && final(self)@ == old(self)@.update(
                        i as int,
                        with_child(with_pending(n, n.pending.drop_last()), old(self)@.len() as usize),
                    ).push(leaf(n.pending.last(), (n.depth + 1) as usize, Some(i)))
                } else if n.children.len() == 0 {
                    e == Expansion::Stay && final(self)@ == old(self)@
                } else {
                    e == Expansion::PickChild && final(self)@ == old(self)@
                }
            }),
    {
        if self.nodes[i].state.depth >= max_depth {
            return Expansion::Stay;
        }
        let ghost t = self@;
        match self.nodes[i].pending_expansions.pop() {
            Some(next) => {
                let ghost popped = self@;
                let ghost expected = t.update(i as int, with_pending(t[i as int], t[i as int].pending.drop_last()));
                assert(popped.len() == expected.len());
                assert forall|j: int| 0 <= j < expected.len() implies popped[j] == expected[j] by {
                    if j == i {
                        assert(popped[j].pending =~= t[i as int].pending.drop_last());
                    }
                }
                assert(popped =~= expected);
                assert(next@ == t[i as int].pending.last());
                let c = self.add_child(i, next);
                Expansion::Added(c)
            },
            None => {
                assert(self@.len() == t.len());
                assert forall|j: int| 0 <= j < t.len() implies self@[j] == t[j] by {
                    if j == i {
                        assert(self@[j].pending =~= t[j].pending);
                    }
                }
                assert(self@ =~= t);
                if self.nodes[i].children.len() == 0 {
                    Expansion::Stay
                } else {
                    Expansion::PickChild
                }
            },
        }
    }

    /// Count a visit of node `i` and of each of its ancestors; returns
    /// those nodes, from `i` up to the root, so that the caller can add the
    /// simulated value along the same path.
    pub fn backpropagate(&mut self, i: usize) -> (path: Vec<usize>)
        requires
            old(self).wf(),
            i < old(self)@.len(),
            forall|j: int| 0 <= j < old(self)@.len() ==> #[trigger] old(self)@[j].visits < u32::MAX,
        ensures
            final(self).wf(),
            path@ == path_to_root(old(self)@, i as int),
            final(self)@.len() == old(self)@.len(),
            path@.contains(0usize),
            final(self)@[0].visits == old(self)@[0].visits + 1,
            forall|j: int|
                0 <= j < old(self)@.len() ==> #[trigger] final(self)@[j] == if path@.contains(j as usize) {
                    visited(old(self)@[j])
                } else {
                    old(self)@[j]
                },
    {
        let ghost t = self@;
        let total = self.nodes.len();
        let mut path: Vec<usize> = Vec::new();
        let mut node = i;
        proof {
            lemma_path_below(t, i as int);
        }
        loop
            invariant_except_break
                node < t.len(),
                path@ + path_to_root(t, node as int) == path_to_root(t, i as int),
                forall|k: int| 0 <= k < path@.len() ==> #[trigger] path@[k] > node,
            invariant
                tree_wf(t),
                t.len() == total,
                self@.len() == t.len(),
                forall|j: int| 0 <= j < t.len() ==> #[trigger] t[j].visits < u32::MAX,
                forall|j: int|
                    0 <= j < t.len() ==> #[trigger] self@[j] == if path@.contains(j as usize) {
                        visited(t[j])
                    } else {
                        t[j]
                    },
            ensures
                path@ == path_to_root(t, i as int),
                self@.len() == t.len(),
                forall|j: int|
                    0 <= j < t.len() ==> #[trigger] self@[j] == if path@.contains(j as usize) {
                        visited(t[j])
                    } else {
                        t[j]
                    },
            decreases node,
        {
            proof {
                lemma_path_below(t, node as int);
                assert(!path@.contains(node));
                assert(self@[node as int] == t[node as int]);
            }
            let ghost before = path@;
            let ghost pre = self@;
            self.nodes[node].visits = self.nodes[node].visits + 1;
            path.push(node);
            assert(path@ == before.push(node));
            assert forall|j: int| 0 <= j < t.len() implies #[trigger] self@[j] == if path@.contains(j as usize) {
                visited(t[j])
            } else {
                t[j]
            } by {
                if j == node {
                    assert(path@[path@.len() - 1] == node);
                } else {
                    assert(self@[j] == pre[j]);
                    if before.contains(j as usize) {
                        let k = choose|k: int| 0 <= k < before.len() && before[k] == j as usize;
                        assert(path@[k] == j as usize);
                    }
                    if path@.contains(j as usize) {
                        let k = choose|k: int| 0 <= k < path@.len() && path@[k] == j as usize;
                        assert(k < before.len());
                        assert(before[k] == j as usize);
                    }
                }
            }
            match self.nodes[node].parent {
                Some(p) => {
                    proof {
                        assert(node > 0);
                        assert(path_to_root(t, node as int) == seq![node] + path_to_root(t, p as int));
                        assert(path@ + path_to_root(t, p as int) =~= before + path_to_root(t, node as int));
                    }
                    node = p;
                },
                None => {
                    proof {
                        assert(node == 0);
                        assert(path_to_root(t, node as int) == seq![node]);
                        assert(path@ =~= before + path_to_root(t, node as int));
                    }
                    break;
                },
            }
        }
        proof {
            path_reaches_root(t, i as int);
            assert(self@[0] == visited(t[0]));
            assert forall|i2: int, k: int|
                0 <= i2 < self@.len() && 0 <= k < self@[i2].children.len() implies i2 < #[trigger] self@[i2].children[k]
                < self@.len() && self@[self@[i2].children[k] as int].parent == Some(i2 as usize) by {
                assert(self@[i2].children == t[i2].children);
                assert(self@[t[i2].children[k] as int].parent == t[t[i2].children[k] as int].parent);
            }
            assert forall|i2: int| 1 <= i2 < self@.len() implies (#[trigger] self@[i2].parent matches Some(p) && p < i2
                && self@[i2].depth == self@[p as int].depth + 1) by {
                assert(self@[i2].parent == t[i2].parent);
                assert(t[i2].parent matches Some(p) && p < i2);
                let p = t[i2].parent->0;
                assert(self@[p as int].depth == t[p as int].depth);
            }
            assert forall|i2: int| 0 <= i2 < self@.len() implies #[trigger] self@[i2].depth <= i2 by {
                assert(self@[i2].depth == t[i2].depth);
            }
            assert(self@[0].parent == t[0].parent);
        }
        path
    }

    /// The most visited finished line of thought (the last one among equals),
    /// if the tree has any.
    pub fn best_terminal(&self) -> (r: Option<usize>)
        ensures
            r is None <==> forall|j: int| 0 <= j < self@.len() ==> !is_terminal(#[trigger] self@[j]),
            r matches Some(b) ==> {
                &&& b < self@.len()
                &&& is_terminal(self@[b as int])
                &&& forall|j: int|
                    0 <= j < self@.len() && is_terminal(#[trigger] self@[j]) ==> self@[j].visits
                        <= self@[b as int].visits
                &&& forall|j: int|
                    b < j < self@.len() && is_terminal(#[trigger] self@[j]) ==> self@[j].visits
                        < self@[b as int].visits
            },
    {
        let mut best: Option<usize> = None;
        let mut best_visits: u32 = 0;
        let mut idx: usize = 0;
        while idx < self.nodes.len()
            invariant
                idx <= self@.len(),
                best is None ==> best_visits == 0 && forall|j: int| 0 <= j < idx ==> !is_terminal(
                    #[trigger] self@[j],
                ),
                best matches Some(b) ==> {
                    &&& b < idx
                    &&& is_terminal(self@[b as int])
                    &&& best_visits == self@[b as int].visits
                    &&& forall|j: int|
                        0 <= j < idx && is_terminal(#[trigger] self@[j]) ==> self@[j].visits <= best_visits
                    &&& forall|j: int| b < j < idx && is_terminal(#[trigger] self@[j]) ==> self@[j].visits < best_visits
                },
            decreases self.nodes.len() - idx,
        {
            let n = &self.nodes[idx];
            assert(n@ == self@[idx as int]);
            if n.children.len() == 0 && n.state.depth > 0 && n.visits >= best_visits {
                best_visits = n.visits;
                best = Some(idx);
            }
            idx += 1;
        }
        best
    }
}

/// Position of the last `c` in `s`, if any.
pub open spec fn last_index_of(s: Seq<char>, c: char) -> Option<int>
    decreases s.len(),
{
    if s.len() == 0 {
        None
    } else if s.last() == c {
        Some(s.len() - 1)
    } else {
        last_index_of(s.drop_last(), c)
    }
}

/// Position of the last `c` in `v`, if any.
fn rfind_char(v: &Vec<char>, c: char) -> (r: Option<usize>)
    ensures
        match r {
            Some(i) => last_index_of(v@, c) == Some(i as int) && i < v@.len(),
            None => last_index_of(v@, c) is None,
        },
{
    let mut k = v.len();
    assert(v@.take(k as int) =~= v@);
    while k > 0
        invariant
            k <= v@.len(),
            last_index_of(v@, c) == last_index_of(v@.take(k as int), c),
        decreases k,
    {
        assert(v@.take(k as int).drop_last() =~= v@.take(k - 1));
        if v[k - 1] == c {
            return Some(k - 1);
        }
        k -= 1;
    }
    None
}

/// The text from the first `[` to the last `]`, inclusive, if both occur in
/// that order.
pub open spec fn json_array_span(s: Seq<char>) -> Option<Seq<char>> {
    match (first_index_of(s, '['), last_index_of(s, ']')) {
        (Some(a), Some(b)) => if a <= b {
            Some(s.subrange(a, b + 1))
        } else {
            None
        },
        _ => None,
    }
}

/// Cut a JSON array out of a model's reply: from its first `[` to its last `]`.
pub fn extract_json_array(text: &str) -> (r: Option<String>)
    ensures
        match r {
            Some(t) => json_array_span(text@) == Some(t@),
            None => json_array_span(text@) is None,
        },
{
    let v = chars_of(text);
    match find_char(&v, '[') {
        Some(a) => match rfind_char(&v, ']') {
            Some(b) => if a <= b {
                Some(string_of_range(v.as_slice(), a, b + 1))
            } else {
                None
            },
            None => None,
        },
        None => None,
    }
}

} // verus!
