//! Deterministic, configuration-driven model capability routing.
use vstd::prelude::*;
use crate::text::str_eq;

verus! {

broadcast use vstd::string::group_string_axioms;

/// Capabilities are intentionally conservative: unspecified boolean capabilities
/// are treated as unsupported, and no vendor/model assumptions are embedded.
#[derive(Debug, Clone, PartialEq, Eq)]
pub struct CapabilityDescriptor {
    pub structured_output: bool,
    pub tool_calling: bool,
    pub multimodal: bool,
    pub context_window: Option<u32>,
}

impl Default for CapabilityDescriptor {
    fn default() -> (r: Self)
        ensures
            !r.structured_output && !r.tool_calling && !r.multimodal && r.context_window is None,
    {
        CapabilityDescriptor {
            structured_output: false,
            tool_calling: false,
            multimodal: false,
            context_window: None,
        }
    }
}

/// What a request needs of a model.
#[derive(Debug, Clone, PartialEq, Eq)]
pub struct CapabilityRequirements {
    pub structured_output: bool,
    pub tool_calling: bool,
    pub multimodal: bool,
    pub min_context_window: Option<u32>,
}

impl Default for CapabilityRequirements {
    fn default() -> (r: Self)
        ensures
            !r.structured_output && !r.tool_calling && !r.multimodal && r.min_context_window is None,
    {
        CapabilityRequirements {
            structured_output: false,
            tool_calling: false,
            multimodal: false,
            min_context_window: None,
        }
    }
}

/// Whether a model with capabilities `c` meets the requirements `r`: each
/// required feature is declared, and a required context window is declared
/// and at least as large.
pub open spec fn satisfies_spec(c: CapabilityDescriptor, r: CapabilityRequirements) -> bool {
    &&& (!r.structured_output || c.structured_output)
    &&& (!r.tool_calling || c.tool_calling)
    &&& (!r.multimodal || c.multimodal)
    &&& match r.min_context_window {
        Some(minimum) => match c.context_window {
            Some(actual) => actual >= minimum,
            None => false,
        },
        None => true,
    }
}

impl CapabilityDescriptor {
    /// Whether this model meets the requirements.
    pub fn satisfies(&self, required: &CapabilityRequirements) -> (r: bool)
        ensures
            r == satisfies_spec(*self, *required),
    {
        let window_ok = match required.min_context_window {
            Some(minimum) => match self.context_window {
                Some(actual) => actual >= minimum,
                None => false,
            },
            None => true,
        };
        (!required.structured_output || self.structured_output) && (!required.tool_calling
            || self.tool_calling) && (!required.multimodal || self.multimodal) && window_ok
    }
}

/// A model that routing may choose.
#[derive(Debug, Clone, PartialEq, Eq)]
pub struct ModelCandidate {
    /// Stable routing identifier, conventionally `provider/model`.
    pub id: String,
    pub capabilities: CapabilityDescriptor,
}

/// The configured fallback order.
#[derive(Debug, Clone, PartialEq, Eq)]
pub struct FallbackPolicy {
    /// Candidate IDs in exact fallback order. Unlisted candidates retain input order.
    pub order: Vec<String>,
}

impl Default for FallbackPolicy {
    fn default() -> (r: Self)
        ensures
            r.order@.len() == 0,
    {
        FallbackPolicy { order: Vec::new() }
    }
}

/// Why routing found no model.
#[derive(Debug, Clone, PartialEq, Eq, Structural)]
pub enum RouteError {
    NoMatchingModel,
}

impl RouteError {
    /// The message of this error.
    pub fn to_string(&self) -> (s: String)
        ensures
            s@ == "no model satisfies the required capabilities"@,
    {
        "no model satisfies the required capabilities".to_owned()
    }
}

/// The names of a list of strings.
pub open spec fn names(v: Seq<String>) -> Seq<Seq<char>> {
    v.map_values(|s: String| s@)
}

/// A candidate as routing sees it: its identifier and capabilities.
pub type CandView = (Seq<char>, CapabilityDescriptor);

/// The view of one candidate.
pub open spec fn cview(m: ModelCandidate) -> CandView {
    (m.id@, m.capabilities)
}

/// The views of a list of candidates.
pub open spec fn cviews(c: Seq<ModelCandidate>) -> Seq<CandView> {
    c.map_values(|m: ModelCandidate| cview(m))
}

/// The identifiers of the candidates.
pub open spec fn ids(c: Seq<CandView>) -> Seq<Seq<char>> {
    c.map_values(|m: CandView| m.0)
}

/// Index of the last occurrence of `x` in `s`, or -1.
pub open spec fn last_index(s: Seq<Seq<char>>, x: Seq<char>) -> int
    decreases s.len(),
{
    if s.len() == 0 {
        -1
    } else if s.last() == x {
        s.len() - 1
    } else {
        last_index(s.drop_last(), x)
    }
}

/// The sort key of candidate `i`: the preferred model first, then the
/// candidates named in the fallback order by their (last) position there, then
/// the rest by the (last) position of their identifier among the candidates.
pub open spec fn route_key(
    cands: Seq<CandView>,
    preferred: Option<Seq<char>>,
    order: Seq<Seq<char>>,
    i: int,
) -> (int, int) {
    let id = cands[i].0;
    if preferred == Some(id) {
        (0, 0)
    } else if last_index(order, id) >= 0 {
        (1, last_index(order, id))
    } else {
        (2, last_index(ids(cands), id))
    }
}

/// The order in which the attempt chain lists candidates `i` and `j`: by key,
/// and by input position among equal keys (a stable sort).
pub open spec fn routed_before(
    cands: Seq<CandView>,
    preferred: Option<Seq<char>>,
    order: Seq<Seq<char>>,
    i: int,
    j: int,
) -> bool {
    let ki = route_key(cands, preferred, order, i);
    let kj = route_key(cands, preferred, order, j);
    ki.0 < kj.0 || (ki.0 == kj.0 && ki.1 < kj.1) || (ki.0 == kj.0 && ki.1 == kj.1 && i < j)
}

/// Whether `idx` lists, in attempt order, exactly the candidates that meet the
/// requirements, each once.
pub open spec fn is_route_order(
    cands: Seq<CandView>,
    req: CapabilityRequirements,
    preferred: Option<Seq<char>>,
    order: Seq<Seq<char>>,
    idx: Seq<int>,
) -> bool {
    &&& forall|a: int| 0 <= a < idx.len() ==> 0 <= #[trigger] idx[a] < cands.len()
    &&& forall|a: int| 0 <= a < idx.len() ==> satisfies_spec(cands[#[trigger] idx[a]].1, req)
    &&& forall|i: int|
        0 <= i < cands.len() && satisfies_spec(#[trigger] cands[i].1, req) ==> idx.contains(i)
    &&& forall|a: int, b: int|
        0 <= a < b < idx.len() ==> routed_before(cands, preferred, order, #[trigger] idx[a], #[trigger] idx[b])
}

/// The attempt chain that `route_models` returns for these inputs: the
/// candidates listed by a route order.
pub open spec fn is_route(
    cands: Seq<CandView>,
    req: CapabilityRequirements,
    preferred: Option<Seq<char>>,
    order: Seq<Seq<char>>,
    out: Seq<CandView>,
) -> bool {
    exists|idx: Seq<int>|
        is_route_order(cands, req, preferred, order, idx) && out.len() == idx.len() && forall|a: int|
            0 <= a < idx.len() ==> out[a] == cands[#[trigger] idx[a]]
}

/// The view of an optional string slice.
pub open spec fn opt_str(o: Option<&str>) -> Option<Seq<char>> {
    match o {
        Some(s) => Some(s@),
        None => None,
    }
}

/// Index of the last occurrence of `x` among `v`, or `None`.
fn last_index_of(v: &[String], x: &str) -> (r: Option<usize>)
    ensures
        match r {
            Some(k) => last_index(names(v@), x@) == k as int,
            None => last_index(names(v@), x@) == -1,
        },
{
    let mut k: usize = v.len();
    assert(names(v@).take(v@.len() as int) =~= names(v@));
    while k > 0
        invariant
            k <= v@.len(),
            last_index(names(v@), x@) == last_index(names(v@).take(k as int), x@),
        decreases k,
    {
        let ghost t = names(v@).take(k as int);
        assert(t.drop_last() =~= names(v@).take(k - 1));
        if str_eq(v[k - 1].as_str(), x) {
            return Some(k - 1);
        }
        k -= 1;
    }
    None
}

/// Index of the last candidate with identifier `x`, or `None`.
fn last_candidate_index(v: &[ModelCandidate], x: &str) -> (r: Option<usize>)
    ensures
        match r {
            Some(k) => last_index(ids(cviews(v@)), x@) == k as int,
            None => last_index(ids(cviews(v@)), x@) == -1,
        },
{
    let mut k: usize = v.len();
    assert(ids(cviews(v@)).take(v@.len() as int) =~= ids(cviews(v@)));
    while k > 0
        invariant
            k <= v@.len(),
            last_index(ids(cviews(v@)), x@) == last_index(ids(cviews(v@)).take(k as int), x@),
        decreases k,
    {
        let ghost t = ids(cviews(v@)).take(k as int);
        assert(t.drop_last() =~= ids(cviews(v@)).take(k - 1));
        if str_eq(v[k - 1].id.as_str(), x) {
            return Some(k - 1);
        }
        k -= 1;
    }
    None
}

proof fn lemma_last_index_bounds(s: Seq<Seq<char>>, x: Seq<char>)
    ensures
        -1 <= last_index(s, x) < s.len(),
        last_index(s, x) >= 0 ==> s[last_index(s, x)] == x,
    decreases s.len(),
{
    if s.len() > 0 && s.last() != x {
        lemma_last_index_bounds(s.drop_last(), x);
    }
}

/// The sort key of candidate `i`, computed.
fn key_of(
    candidates: &[ModelCandidate],
    i: usize,
    preferred: Option<&str>,
    policy: &FallbackPolicy,
) -> (k: (usize, usize))
    requires
        i < candidates@.len(),
    ensures
        k.0 as int == route_key(cviews(candidates@), opt_str(preferred), names(policy.order@), i as int).0,
        k.1 as int == route_key(cviews(candidates@), opt_str(preferred), names(policy.order@), i as int).1,
{
    let id = candidates[i].id.as_str();
    let is_pref = match preferred {
        Some(p) => str_eq(p, id),
        None => false,
    };
    if is_pref {
        return (0, 0);
    }
    match last_index_of(policy.order.as_slice(), id) {
        Some(k) => (1, k),
        None => {
            proof {
                lemma_last_index_bounds(ids(cviews(candidates@)), id@);
                assert(ids(cviews(candidates@))[i as int] == id@);
            }
            match last_candidate_index(candidates, id) {
                Some(k) => (2, k),
                None => {
                    proof {
                        // The candidate itself carries this identifier.
                        lemma_last_index_not_found(ids(cviews(candidates@)), id@, i as int);
                    }
                    (2, 0)
                },
            }
        },
    }
}

proof fn lemma_last_index_not_found(s: Seq<Seq<char>>, x: Seq<char>, i: int)
    requires
        0 <= i < s.len(),
        s[i] == x,
    ensures
        last_index(s, x) >= i,
    decreases s.len(),
{
    if s.last() != x {
        lemma_last_index_not_found(s.drop_last(), x, i);
    }
}

/// Whether the key `a` (with position `ia`) comes before `b` (with position `ib`).
fn key_before(a: (usize, usize), ia: usize, b: (usize, usize), ib: usize) -> (r: bool)
    ensures
        r == (a.0 < b.0 || (a.0 == b.0 && a.1 < b.1) || (a.0 == b.0 && a.1 == b.1 && ia < ib)),
{
    a.0 < b.0 || (a.0 == b.0 && a.1 < b.1) || (a.0 == b.0 && a.1 == b.1 && ia < ib)
}

/// Returns a deterministic attempt chain. The preferred model remains first when
/// compatible; configured fallbacks follow, then remaining candidates in input order.
pub fn route_models<'a>(
    candidates: &'a [ModelCandidate],
    required: &CapabilityRequirements,
    preferred: Option<&str>,
    policy: &FallbackPolicy,
) -> (r: Result<Vec<&'a ModelCandidate>, RouteError>)
    ensures
        match r {
            Ok(v) => v@.len() > 0 && is_route(
                cviews(candidates@),
                *required,
                opt_str(preferred),
                names(policy.order@),
                v@.map_values(|m: &ModelCandidate| cview(*m)),
            ),
            Err(e) => e == RouteError::NoMatchingModel && forall|i: int|
                0 <= i < candidates@.len() ==> !satisfies_spec(
                    #[trigger] candidates@[i].capabilities,
                    *required,
                ),
        },
{
    let ghost pref = opt_str(preferred);
    let ghost order = names(policy.order@);
    // Sorted so far: positions (with their keys) of the compatible candidates seen.
    let mut sorted: Vec<usize> = Vec::new();
    let mut keys: Vec<(usize, usize)> = Vec::new();
    let mut i: usize = 0;
    while i < candidates.len()
        invariant
            i <= candidates@.len(),
            pref == opt_str(preferred),
            order == names(policy.order@),
            sorted@.len() == keys@.len(),
            forall|a: int|
                0 <= a < sorted@.len() ==> #[trigger] sorted@[a] < i && satisfies_spec(
                    candidates@[sorted@[a] as int].capabilities,
                    *required,
                ),
            forall|a: int|
                0 <= a < sorted@.len() ==> keys@[a].0 as int == route_key(
                    cviews(candidates@),
                    pref,
                    order,
                    #[trigger] sorted@[a] as int,
                ).0 && keys@[a].1 as int == route_key(cviews(candidates@), pref, order, sorted@[a] as int).1,
            forall|j: int|
                0 <= j < i && satisfies_spec(#[trigger] candidates@[j].capabilities, *required)
                    ==> exists|a: int| 0 <= a < sorted@.len() && sorted@[a] == j,
            forall|a: int, b: int|
                0 <= a < b < sorted@.len() ==> routed_before(
                    cviews(candidates@),
                    pref,
                    order,
                    #[trigger] sorted@[a] as int,
                    #[trigger] sorted@[b] as int,
                ),
        decreases candidates.len() - i,
    {
        if candidates[i].capabilities.satisfies(required) {
            let k = key_of(candidates, i, preferred, policy);
            // Insert after every entry that comes before it.
            let mut p: usize = 0;
            while p < sorted.len() && key_before(keys[p], sorted[p], k, i)
                invariant
                    p <= sorted@.len(),
                    sorted@.len() == keys@.len(),
                    i < candidates@.len(),
                    k.0 as int == route_key(cviews(candidates@), pref, order, i as int).0,
                    k.1 as int == route_key(cviews(candidates@), pref, order, i as int).1,
                    forall|a: int|
                        0 <= a < p ==> routed_before(
                            cviews(candidates@),
                            pref,
                            order,
                            #[trigger] sorted@[a] as int,
                            i as int,
                        ),
                    forall|a: int|
                        0 <= a < sorted@.len() ==> keys@[a].0 as int == route_key(
                            cviews(candidates@),
                            pref,
                            order,
                            #[trigger] sorted@[a] as int,
                        ).0 && keys@[a].1 as int == route_key(
                            cviews(candidates@),
                            pref,
                            order,
                            sorted@[a] as int,
                        ).1,
                decreases sorted.len() - p,
            {
                p += 1;
            }
            let ghost old_sorted = sorted@;
            let ghost old_keys = keys@;
            proof {
                if p < sorted@.len() {
                    // Every later entry comes after the new one.
                    assert(!routed_before(cviews(candidates@), pref, order, sorted@[p as int] as int, i as int));
                    assert(sorted@[p as int] < i);
                }
            }
            sorted.insert(p, i);
            keys.insert(p, k);
            proof {
                assert(sorted@ == old_sorted.insert(p as int, i));
                assert(keys@ == old_keys.insert(p as int, k));
                assert forall|a: int, b: int|
                    0 <= a < b < sorted@.len() implies routed_before(
                        cviews(candidates@),
                        pref,
                        order,
                        #[trigger] sorted@[a] as int,
                        #[trigger] sorted@[b] as int,
                    ) by {
                    if b < p {
                    } else if b == p {
                    } else if a < p {
                        assert(sorted@[b] == old_sorted[b - 1]);
                        assert(old_sorted[b - 1] < i);
                        if p < old_sorted.len() {
                            assert(routed_before(cviews(candidates@), pref, order, old_sorted[p as int] as int, old_sorted[b - 1] as int) || p == b - 1);
                        }
                    } else if a == p {
                        assert(sorted@[b] == old_sorted[b - 1]);
                        assert(old_sorted[b - 1] < i);
                        if p < b - 1 {
                            assert(routed_before(cviews(candidates@), pref, order, old_sorted[p as int] as int, old_sorted[b - 1] as int));
                        }
                    } else {
                        assert(sorted@[a] == old_sorted[a - 1]);
                        assert(sorted@[b] == old_sorted[b - 1]);
                    }
                }
                assert forall|j: int|
                    0 <= j < i + 1 && satisfies_spec(#[trigger] candidates@[j].capabilities, *required)
                        implies exists|a: int| 0 <= a < sorted@.len() && sorted@[a] == j by {
                    if j == i {
                        assert(sorted@[p as int] == i);
                    } else {
                        let a0 = choose|a: int| 0 <= a < old_sorted.len() && old_sorted[a] == j;
                        if a0 < p {
                            assert(sorted@[a0] == j);
                        } else {
                            assert(sorted@[a0 + 1] == j);
                        }
                    }
                }
                assert forall|a: int| 0 <= a < sorted@.len() implies #[trigger] sorted@[a] < i + 1
                    && satisfies_spec(candidates@[sorted@[a] as int].capabilities, *required) by {
                    if a < p {
                    } else if a == p {
                    } else {
                        assert(sorted@[a] == old_sorted[a - 1]);
                    }
                }
                assert forall|a: int| 0 <= a < sorted@.len() implies keys@[a].0 as int == route_key(
                    cviews(candidates@),
                    pref,
                    order,
                    #[trigger] sorted@[a] as int,
                ).0 && keys@[a].1 as int == route_key(cviews(candidates@), pref, order, sorted@[a] as int).1 by {
                    if a < p {
                    } else if a == p {
                    } else {
                        assert(sorted@[a] == old_sorted[a - 1]);
                        assert(keys@[a] == old_keys[a - 1]);
                    }
                }
            }
        }
        i += 1;
    }
    if sorted.len() == 0 {
        proof {
            assert forall|j: int| 0 <= j < candidates@.len() implies !satisfies_spec(
                #[trigger] candidates@[j].capabilities,
                *required,
            ) by {
                if satisfies_spec(candidates@[j].capabilities, *required) {
                    let a = choose|a: int| 0 <= a < sorted@.len() && sorted@[a] == j;
                }
            }
        }
        return Err(RouteError::NoMatchingModel);
    }
    let mut routed: Vec<&'a ModelCandidate> = Vec::new();
    let mut q: usize = 0;
    while q < sorted.len()
        invariant
            q <= sorted@.len(),
            routed@.len() == q,
            forall|a: int| 0 <= a < sorted@.len() ==> #[trigger] sorted@[a] < candidates@.len(),
            forall|a: int| 0 <= a < q ==> *routed@[a] == candidates@[#[trigger] sorted@[a] as int],
        decreases sorted.len() - q,
    {
        routed.push(&candidates[sorted[q]]);
        q += 1;
    }
    proof {
        let idx = sorted@.map_values(|x: usize| x as int);
        let out = routed@.map_values(|m: &ModelCandidate| cview(*m));
        assert forall|i: int|
            0 <= i < candidates@.len() && satisfies_spec(#[trigger] candidates@[i].capabilities, *required)
                implies idx.contains(i) by {
            let a = choose|a: int| 0 <= a < sorted@.len() && sorted@[a] == i;
            assert(idx[a] == i);
        }
        assert forall|a: int, b: int|
            0 <= a < b < idx.len() implies routed_before(
                cviews(candidates@),
                pref,
                order,
                #[trigger] idx[a],
                #[trigger] idx[b],
            ) by {
            assert(routed_before(cviews(candidates@), pref, order, sorted@[a] as int, sorted@[b] as int));
        }
        assert(is_route_order(cviews(candidates@), *required, pref, order, idx));
        assert forall|a: int| 0 <= a < idx.len() implies out[a] == cviews(candidates@)[#[trigger] idx[a]] by {
            assert(*routed@[a] == candidates@[sorted@[a] as int]);
        }
    }
    Ok(routed)
}

pub(crate) proof fn lemma_sorted_unique(s1: Seq<int>, s2: Seq<int>, lt: spec_fn(int, int) -> bool)
    requires
        forall|a: int, b: int| 0 <= a < b < s1.len() ==> lt(#[trigger] s1[a], #[trigger] s1[b]),
        forall|a: int, b: int| 0 <= a < b < s2.len() ==> lt(#[trigger] s2[a], #[trigger] s2[b]),
        forall|x: int, y: int| #[trigger] lt(x, y) ==> !lt(y, x),
        forall|x: int| s1.contains(x) <==> s2.contains(x),
    ensures
        s1 == s2,
    decreases s1.len(),
{
    if s1.len() == 0 {
        if s2.len() > 0 {
            assert(s2.contains(s2[0]));
        }
        assert(s1 =~= s2);
    } else {
        assert(s1.contains(s1[0]));
        let k = choose|k: int| 0 <= k < s2.len() && s2[k] == s1[0];
        assert(s2.contains(s2[0]));
        let m = choose|m: int| 0 <= m < s1.len() && s1[m] == s2[0];
        if k > 0 {
            assert(lt(s2[0], s2[k]));
            if m > 0 {
                assert(lt(s1[0], s1[m]));
            } else {
                assert(lt(s1[0], s1[0]));
            }
        }
        assert(s1[0] == s2[0]);
        let t1 = s1.drop_first();
        let t2 = s2.drop_first();
        assert forall|x: int| t1.contains(x) <==> t2.contains(x) by {
            if t1.contains(x) {
                let a = choose|a: int| 0 <= a < t1.len() && t1[a] == x;
                assert(s1[a + 1] == x);
                assert(lt(s1[0], s1[a + 1]));
                assert(s1.contains(x));
                let b = choose|b: int| 0 <= b < s2.len() && s2[b] == x;
                if b == 0 {
                    assert(lt(x, x));
                }
                assert(t2[b - 1] == x);
            }
            if t2.contains(x) {
                let a = choose|a: int| 0 <= a < t2.len() && t2[a] == x;
                assert(s2[a + 1] == x);
                assert(lt(s2[0], s2[a + 1]));
                assert(s2.contains(x));
                let b = choose|b: int| 0 <= b < s1.len() && s1[b] == x;
                if b == 0 {
                    assert(lt(x, x));
                }
                assert(t1[b - 1] == x);
            }
        }
        assert forall|a: int, b: int| 0 <= a < b < t1.len() implies lt(#[trigger] t1[a], #[trigger] t1[b]) by {
            assert(lt(s1[a + 1], s1[b + 1]));
        }
        assert forall|a: int, b: int| 0 <= a < b < t2.len() implies lt(#[trigger] t2[a], #[trigger] t2[b]) by {
            assert(lt(s2[a + 1], s2[b + 1]));
        }
        lemma_sorted_unique(t1, t2, lt);
        assert(s1.len() == s2.len());
        assert forall|j: int| 0 <= j < s1.len() implies s1[j] == s2[j] by {
            if j > 0 {
                assert(s1[j] == t1[j - 1]);
                assert(s2[j] == t2[j - 1]);
            }
        }
        assert(s1 =~= s2);
    }
}

/// Routing is deterministic: for the same candidates, requirements, preferred
/// model and fallback policy there is only one attempt chain.
pub proof fn route_is_deterministic(
    cands: Seq<CandView>,
    req: CapabilityRequirements,
    preferred: Option<Seq<char>>,
    order: Seq<Seq<char>>,
    out1: Seq<CandView>,
    out2: Seq<CandView>,
)
    requires
        is_route(cands, req, preferred, order, out1),
        is_route(cands, req, preferred, order, out2),
    ensures
        out1 == out2,
{
    let idx1 = choose|idx: Seq<int>|
        is_route_order(cands, req, preferred, order, idx) && out1.len() == idx.len() && forall|a: int|
            0 <= a < idx.len() ==> out1[a] == cands[#[trigger] idx[a]];
    let idx2 = choose|idx: Seq<int>|
        is_route_order(cands, req, preferred, order, idx) && out2.len() == idx.len() && forall|a: int|
            0 <= a < idx.len() ==> out2[a] == cands[#[trigger] idx[a]];
    let lt = |x: int, y: int| routed_before(cands, preferred, order, x, y);
    assert forall|x: int| idx1.contains(x) <==> idx2.contains(x) by {
        if idx1.contains(x) {
            let a = choose|a: int| 0 <= a < idx1.len() && idx1[a] == x;
            assert(satisfies_spec(cands[idx1[a]].1, req));
        }
        if idx2.contains(x) {
            let a = choose|a: int| 0 <= a < idx2.len() && idx2[a] == x;
            assert(satisfies_spec(cands[idx2[a]].1, req));
        }
    }
    assert forall|a: int, b: int| 0 <= a < b < idx1.len() implies lt(#[trigger] idx1[a], #[trigger] idx1[b]) by {
    }
    assert forall|a: int, b: int| 0 <= a < b < idx2.len() implies lt(#[trigger] idx2[a], #[trigger] idx2[b]) by {
    }
    lemma_sorted_unique(idx1, idx2, lt);
    assert forall|a: int| 0 <= a < out1.len() implies out1[a] == out2[a] by {
        assert(out1[a] == cands[idx1[a]]);
        assert(out2[a] == cands[idx2[a]]);
    }
    assert(out1 =~= out2);
}

/// The preferred model comes first whenever it is among the compatible candidates.
pub proof fn preferred_model_is_tried_first(
    cands: Seq<CandView>,
    req: CapabilityRequirements,
    preferred: Seq<char>,
    order: Seq<Seq<char>>,
    out: Seq<CandView>,
    i: int,
)
    requires
        is_route(cands, req, Some(preferred), order, out),
        0 <= i < cands.len(),
        cands[i].0 == preferred,
        satisfies_spec(cands[i].1, req),
    ensures
        out.len() > 0,
        out[0].0 == preferred,
{
    let idx = choose|idx: Seq<int>|
        is_route_order(cands, req, Some(preferred), order, idx) && out.len() == idx.len() && forall|a: int|
            0 <= a < idx.len() ==> out[a] == cands[#[trigger] idx[a]];
    assert(idx.contains(i));
    let a = choose|a: int| 0 <= a < idx.len() && idx[a] == i;
    if a > 0 {
        assert(routed_before(cands, Some(preferred), order, idx[0], idx[a]));
    }
    assert(out[0] == cands[idx[0]]);
}

/// A model meets the requirements exactly when it declares every feature they
/// ask for and, where they ask for a context window, declares one at least
/// that large: a model without structured output, tool calling or multimodal
/// input never meets requirements that ask for it, nor does a model with an
/// undeclared or smaller context window meet a required minimum.
pub proof fn requirements_are_met_feature_by_feature(
    c: CapabilityDescriptor,
    r: CapabilityRequirements,
)
    ensures
        r.structured_output && !c.structured_output ==> !satisfies_spec(c, r),
        r.tool_calling && !c.tool_calling ==> !satisfies_spec(c, r),
        r.multimodal && !c.multimodal ==> !satisfies_spec(c, r),
        r.min_context_window is Some && c.context_window is None ==> !satisfies_spec(c, r),
        r.min_context_window is Some && c.context_window is Some && c.context_window->0
            < r.min_context_window->0 ==> !satisfies_spec(c, r),
        (r.structured_output ==> c.structured_output) && (r.tool_calling ==> c.tool_calling) && (
        r.multimodal ==> c.multimodal) && (r.min_context_window is Some ==> c.context_window is Some
            && c.context_window->0 >= r.min_context_window->0) ==> satisfies_spec(c, r),
{
}

/// Every model in an attempt chain has each capability that the request
/// requires, and every candidate that has them all is in the chain.
pub proof fn routed_models_have_required_capabilities(
    cands: Seq<CandView>,
    req: CapabilityRequirements,
    preferred: Option<Seq<char>>,
    order: Seq<Seq<char>>,
    out: Seq<CandView>,
    a: int,
    i: int,
)
    requires
        is_route(cands, req, preferred, order, out),
    ensures
        0 <= a < out.len() ==> {
            &&& req.structured_output ==> out[a].1.structured_output
            &&& req.tool_calling ==> out[a].1.tool_calling
            &&& req.multimodal ==> out[a].1.multimodal
            &&& req.min_context_window is Some ==> out[a].1.context_window is Some
                && out[a].1.context_window->0 >= req.min_context_window->0
        },
        0 <= i < cands.len() && (req.structured_output ==> cands[i].1.structured_output) && (
        req.tool_calling ==> cands[i].1.tool_calling) && (req.multimodal
            ==> cands[i].1.multimodal) && (req.min_context_window is Some
            ==> cands[i].1.context_window is Some && cands[i].1.context_window->0
            >= req.min_context_window->0) ==> out.contains(cands[i]),
{
    let idx = choose|idx: Seq<int>|
        is_route_order(cands, req, preferred, order, idx) && out.len() == idx.len() && forall|k: int|
            0 <= k < idx.len() ==> out[k] == cands[#[trigger] idx[k]];
    if 0 <= a < out.len() {
        assert(out[a] == cands[idx[a]]);
        assert(satisfies_spec(cands[idx[a]].1, req));
    }
    if 0 <= i < cands.len() && satisfies_spec(cands[i].1, req) {
        assert(idx.contains(i));
        let k = choose|k: int| 0 <= k < idx.len() && idx[k] == i;
        assert(out[k] == cands[idx[k]]);
    }
}

} // verus!
