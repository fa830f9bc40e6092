//! Selection of the configured provider/model attempt chain.
use vstd::prelude::*;
use crate::capability::{
    cview, cviews, is_route, names, route_is_deterministic, route_models, satisfies_spec,
    CandView, CapabilityDescriptor, CapabilityRequirements, FallbackPolicy, ModelCandidate,
};
use crate::capability::lemma_sorted_unique;
use vstd::string::StringExecFns;
use crate::text::{chars_of, lowercase, to_lower, str_eq, string_of_range};

verus! {

broadcast use vstd::string::group_string_axioms;

/// One configured provider.
#[derive(Debug, Clone, PartialEq, Eq)]
pub struct ProviderConfig {
    /// Name of the environment variable that holds the API key.
    pub api_key_env: Option<String>,
    pub base_url: Option<String>,
    /// Models in configuration order.
    pub models: Vec<String>,
    /// Declared capabilities per model name; a model not listed has none.
    pub capabilities: Vec<(String, CapabilityDescriptor)>,
    /// Models of this provider in explicit fallback order.
    pub fallback_order: Vec<String>,
}

/// The settings that model selection reads.
#[derive(Debug, Clone, PartialEq, Eq)]
pub struct Config {
    pub llm_vendor: Option<String>,
    pub model_name: String,
    pub ollama_model: String,
    /// The provider registry, one entry per provider name.
    pub providers: Vec<(String, ProviderConfig)>,
}

impl Default for Config {
    fn default() -> (r: Self)
        ensures
            r.llm_vendor is None,
            r.model_name@.len() == 0,
            r.ollama_model@.len() == 0,
            r.providers@.len() == 0,
    {
        Config {
            llm_vendor: None,
            model_name: String::new(),
            ollama_model: String::new(),
            providers: Vec::new(),
        }
    }
}

/// Lexicographic order of strings by character (the order of `str`'s `Ord`,
/// which compares UTF-8 bytes and so orders by code point).
pub open spec fn str_lt(a: Seq<char>, b: Seq<char>) -> bool
    decreases a.len(),
{
    if a.len() == 0 {
        b.len() > 0
    } else if b.len() == 0 {
        false
    } else if a[0] != b[0] {
        (a[0] as u32) < (b[0] as u32)
    } else {
        str_lt(a.drop_first(), b.drop_first())
    }
}

/// `str_lt` is a strict order on distinct strings.
pub proof fn lemma_str_lt_strict(a: Seq<char>, b: Seq<char>)
    ensures
        str_lt(a, b) ==> !str_lt(b, a),
        a != b ==> str_lt(a, b) || str_lt(b, a),
        !str_lt(a, a),
    decreases a.len(),
{
    if a.len() > 0 && b.len() > 0 {
        lemma_str_lt_strict(a.drop_first(), b.drop_first());
        if a[0] == b[0] && a != b {
            assert(a == seq![a[0]] + a.drop_first());
            assert(b == seq![b[0]] + b.drop_first());
            assert(a.drop_first() != b.drop_first());
        }
        if a[0] != b[0] {
            vstd::utf8::char_u32_cast(a[0], a[0] as u32);
            vstd::utf8::char_u32_cast(b[0], b[0] as u32);
        }
    }
    if a.len() > 0 {
        lemma_str_lt_strict(a.drop_first(), a.drop_first());
    }
    if a.len() == 0 && b.len() == 0 {
        assert(a =~= b);
    }
}

/// Whether `a` sorts before `b`.
fn chars_less(a: &[char], b: &[char]) -> (r: bool)
    ensures
        r == str_lt(a@, b@),
{
    let mut i: usize = 0;
    assert(a@.skip(0) =~= a@ && b@.skip(0) =~= b@);
    while i < a.len() && i < b.len() && a[i] == b[i]
        invariant
            i <= a@.len(),
            i <= b@.len(),
            str_lt(a@, b@) == str_lt(a@.skip(i as int), b@.skip(i as int)),
        decreases a.len() - i,
    {
        let ghost sa = a@.skip(i as int);
        let ghost sb = b@.skip(i as int);
        assert(sa.drop_first() =~= a@.skip(i + 1));
        assert(sb.drop_first() =~= b@.skip(i + 1));
        i += 1;
    }
    if i == a.len() {
        i < b.len()
    } else if i == b.len() {
        false
    } else {
        (a[i] as u32) < (b[i] as u32)
    }
}


/// The names of the configured providers.
pub open spec fn provider_names(ps: Seq<(String, ProviderConfig)>) -> Seq<Seq<char>> {
    ps.map_values(|e: (String, ProviderConfig)| e.0@)
}

/// No two providers share a name (the registry is a map keyed by name).
pub open spec fn distinct_provider_names(ps: Seq<(String, ProviderConfig)>) -> bool {
    forall|i: int, j: int| 0 <= i < j < ps.len() ==> ps[i].0@ != ps[j].0@
}

/// `perm` lists every provider once, in ascending order of name.
pub open spec fn is_name_order(ps: Seq<(String, ProviderConfig)>, perm: Seq<int>) -> bool {
    &&& perm.len() == ps.len()
    &&& forall|a: int| 0 <= a < perm.len() ==> 0 <= #[trigger] perm[a] < ps.len()
    &&& forall|i: int| 0 <= i < ps.len() ==> perm.contains(i)
    &&& forall|a: int, b: int|
        0 <= a < b < perm.len() ==> str_lt(ps[#[trigger] perm[a]].0@, ps[#[trigger] perm[b]].0@)
}

/// The indices of `v` as integers.
pub open spec fn int_seq(v: Seq<usize>) -> Seq<int> {
    v.map_values(|x: usize| x as int)
}

/// Index of the provider with the smallest name among those not yet `used`.
fn min_unused(ps: &Vec<(String, ProviderConfig)>, names: &Vec<Vec<char>>, used: &Vec<bool>) -> (m: usize)
    requires
        names@.len() == ps@.len(),
        used@.len() == ps@.len(),
        forall|i: int| 0 <= i < ps@.len() ==> (#[trigger] names@[i])@ == ps@[i].0@,
        exists|i: int| 0 <= i < ps@.len() && !used@[i],
        distinct_provider_names(ps@),
    ensures
        m < ps@.len(),
        !used@[m as int],
        forall|i: int| 0 <= i < ps@.len() && !used@[i] && i != m ==> str_lt(ps@[m as int].0@, ps@[i].0@),
{
    let mut best: Option<usize> = None;
    let mut i: usize = 0;
    while i < ps.len()
        invariant
            i <= ps@.len(),
            names@.len() == ps@.len(),
            used@.len() == ps@.len(),
            forall|j: int| 0 <= j < ps@.len() ==> (#[trigger] names@[j])@ == ps@[j].0@,
            distinct_provider_names(ps@),
            match best {
                Some(b) => b < i && !used@[b as int] && forall|j: int|
                    0 <= j < i && !used@[j] && j != b ==> str_lt(ps@[b as int].0@, ps@[j].0@),
                None => forall|j: int| 0 <= j < i ==> used@[j],
            },
        decreases ps.len() - i,
    {
        if !used[i] {
            match best {
                None => {
                    best = Some(i);
                },
                Some(b) => {
                    if chars_less(names[i].as_slice(), names[b].as_slice()) {
                        proof {
                            assert forall|j: int| 0 <= j < i + 1 && !used@[j] && j != i implies str_lt(
                                ps@[i as int].0@,
                                ps@[j].0@,
                            ) by {
                                if j != b {
                                    lemma_str_lt_trans(ps@[i as int].0@, ps@[b as int].0@, ps@[j].0@);
                                }
                            }
                        }
                        best = Some(i);
                    } else {
                        proof {
                            lemma_str_lt_strict(ps@[i as int].0@, ps@[b as int].0@);
                        }
                    }
                },
            }
        }
        i += 1;
    }
    match best {
        Some(b) => b,
        None => {
            proof {
                let w = choose|j: int| 0 <= j < ps@.len() && !used@[j];
                assert(used@[w]);
            }
            0
        },
    }
}

/// `str_lt` is transitive.
pub proof fn lemma_str_lt_trans(a: Seq<char>, b: Seq<char>, c: Seq<char>)
    requires
        str_lt(a, b),
        str_lt(b, c),
    ensures
        str_lt(a, c),
    decreases a.len(),
{
    if a.len() > 0 && b.len() > 0 && c.len() > 0 {
        if a[0] == b[0] && b[0] == c[0] {
            lemma_str_lt_trans(a.drop_first(), b.drop_first(), c.drop_first());
        } else {
            vstd::utf8::char_u32_cast(a[0], a[0] as u32);
            vstd::utf8::char_u32_cast(b[0], b[0] as u32);
            vstd::utf8::char_u32_cast(c[0], c[0] as u32);
        }
    }
}

/// The providers' indices in ascending order of name.
fn provider_name_order(ps: &Vec<(String, ProviderConfig)>) -> (order: Vec<usize>)
    requires
        distinct_provider_names(ps@),
    ensures
        is_name_order(ps@, int_seq(order@)),
{
    let mut names: Vec<Vec<char>> = Vec::new();
    let mut used: Vec<bool> = Vec::new();
    let mut i: usize = 0;
    while i < ps.len()
        invariant
            i <= ps@.len(),
            names@.len() == i,
            used@.len() == i,
            forall|j: int| 0 <= j < i ==> (#[trigger] names@[j])@ == ps@[j].0@,
            forall|j: int| 0 <= j < i ==> !(#[trigger] used@[j]),
        decreases ps.len() - i,
    {
        names.push(chars_of(ps[i].0.as_str()));
        used.push(false);
        i += 1;
    }
    let mut order: Vec<usize> = Vec::new();
    while order.len() < ps.len()
        invariant
            names@.len() == ps@.len(),
            used@.len() == ps@.len(),
            order@.len() <= ps@.len(),
            distinct_provider_names(ps@),
            forall|j: int| 0 <= j < ps@.len() ==> (#[trigger] names@[j])@ == ps@[j].0@,
            forall|a: int| 0 <= a < order@.len() ==> (#[trigger] order@[a]) < ps@.len() && used@[order@[a] as int],
            forall|j: int| 0 <= j < ps@.len() ==> (#[trigger] used@[j] <==> order@.contains(j as usize)),
            forall|a: int, b: int| 0 <= a < b < order@.len() ==> #[trigger] order@[a] != #[trigger] order@[b],
            forall|a: int, b: int|
                0 <= a < b < order@.len() ==> str_lt(ps@[#[trigger] order@[a] as int].0@, ps@[#[trigger] order@[b] as int].0@),
            forall|a: int, j: int|
                0 <= a < order@.len() && 0 <= j < ps@.len() && !#[trigger] used@[j] ==> str_lt(
                    ps@[#[trigger] order@[a] as int].0@,
                    ps@[j].0@,
                ),
        decreases ps.len() - order.len(),
    {
        proof {
            lemma_unused_exists(used@, order@, ps@.len());
        }
        let m = min_unused(ps, &names, &used);
        let ghost old_order = order@;
        let ghost old_used = used@;
        order.push(m);
        used.set(m, true);
        proof {
            assert forall|j: int| 0 <= j < ps@.len() implies (#[trigger] used@[j] <==> order@.contains(j as usize)) by {
                if j == m as int {
                    assert(order@[order@.len() - 1] == m);
                } else {
                    assert(used@[j] == old_used[j]);
                    if old_order.contains(j as usize) {
                        let a = choose|a: int| 0 <= a < old_order.len() && old_order[a] == j as usize;
                        assert(order@[a] == j as usize);
                    }
                    if order@.contains(j as usize) {
                        let a = choose|a: int| 0 <= a < order@.len() && order@[a] == j as usize;
                        assert(a < old_order.len());
                        assert(old_order[a] == j as usize);
                    }
                }
            }
            assert forall|a: int, b: int| 0 <= a < b < order@.len() implies #[trigger] order@[a] != #[trigger] order@[b] by {
                assert(order@[a] == old_order[a]);
                if b < order@.len() - 1 {
                    assert(order@[b] == old_order[b]);
                } else {
                    assert(old_used[old_order[a] as int]);
                }
            }
            assert forall|a: int, b: int|
                0 <= a < b < order@.len() implies str_lt(ps@[#[trigger] order@[a] as int].0@, ps@[#[trigger] order@[b] as int].0@) by {
                if b == order@.len() - 1 {
                    assert(order@[a] == old_order[a]);
                    assert(!old_used[m as int]);
                } else {
                    assert(order@[a] == old_order[a]);
                    assert(order@[b] == old_order[b]);
                }
            }
            assert forall|a: int, j: int|
                0 <= a < order@.len() && 0 <= j < ps@.len() && !#[trigger] used@[j] implies str_lt(
                    ps@[#[trigger] order@[a] as int].0@,
                    ps@[j].0@,
                ) by {
                assert(j != m as int);
                assert(!old_used[j]);
                if a == order@.len() - 1 {
                } else {
                    assert(order@[a] == old_order[a]);
                }
            }
        }
    }
    proof {
        let perm = int_seq(order@);
        assert forall|i: int| 0 <= i < ps@.len() implies perm.contains(i) by {
            lemma_all_used(used@, order@, ps@.len(), i);
            let a = choose|a: int| 0 <= a < order@.len() && order@[a] == i as usize;
            assert(perm[a] == i);
        }
    }
    order
}

proof fn lemma_unused_exists(used: Seq<bool>, order: Seq<usize>, n: nat)
    requires
        n <= usize::MAX,
        used.len() == n,
        order.len() < n,
        forall|a: int| 0 <= a < order.len() ==> (#[trigger] order[a]) < n,
        forall|j: int| 0 <= j < n ==> (#[trigger] used[j] <==> order.contains(j as usize)),
        forall|a: int, b: int| 0 <= a < b < order.len() ==> #[trigger] order[a] != #[trigger] order[b],
    ensures
        exists|i: int| 0 <= i < n && !used[i],
{
    if forall|i: int| 0 <= i < n ==> used[i] {
        // Every index below n occurs in `order`, which has fewer than n entries.
        let f = |i: int| choose|a: int| 0 <= a < order.len() && order[a] == i as usize;
        assert forall|i: int| 0 <= i < n implies 0 <= #[trigger] f(i) < order.len() && order[f(i)] == i as usize by {
            assert(used[i]);
            assert(order.contains(i as usize));
        }
        assert forall|i: int, j: int| 0 <= i < j < n implies #[trigger] f(i) != #[trigger] f(j) by {
            assert(order[f(i)] == i as usize);
            assert(order[f(j)] == j as usize);
        }
        lemma_injection_bound(f, n, order.len());
    }
}

proof fn lemma_injection_bound(f: spec_fn(int) -> int, n: nat, m: nat)
    requires
        forall|i: int, j: int| 0 <= i < j < n ==> #[trigger] f(i) != #[trigger] f(j),
        forall|i: int| 0 <= i < n ==> 0 <= #[trigger] f(i) < m,
    ensures
        n <= m,
    decreases n,
{
    if n > 0 {
        let last = f(n - 1);
        let g = |i: int| if f(i) > last { f(i) - 1 } else { f(i) };
        assert forall|i: int, j: int| 0 <= i < j < n - 1 implies #[trigger] g(i) != #[trigger] g(j) by {
            assert(f(i) != f(j));
            assert(f(i) != last);
            assert(f(j) != last);
        }
        assert forall|i: int| 0 <= i < n - 1 implies 0 <= #[trigger] g(i) < m - 1 by {
            assert(f(i) != last);
        }
        lemma_injection_bound(g, (n - 1) as nat, (m - 1) as nat);
    }
}

proof fn lemma_all_used(used: Seq<bool>, order: Seq<usize>, n: nat, i: int)
    requires
        n <= usize::MAX,
        used.len() == n,
        order.len() == n,
        0 <= i < n,
        forall|a: int| 0 <= a < order.len() ==> (#[trigger] order[a]) < n,
        forall|j: int| 0 <= j < n ==> (#[trigger] used[j] <==> order.contains(j as usize)),
        forall|a: int, b: int| 0 <= a < b < order.len() ==> #[trigger] order[a] != #[trigger] order[b],
    ensures
        order.contains(i as usize),
{
    if !order.contains(i as usize) {
        // `order` maps n positions injectively into the n - 1 indices other than i.
        let f = |a: int| if (order[a] as int) > i { order[a] as int - 1 } else { order[a] as int };
        assert forall|a: int, b: int| 0 <= a < b < n implies #[trigger] f(a) != #[trigger] f(b) by {
            assert(order[a] != order[b]);
            assert(order[a] as int != i);
            assert(order[b] as int != i);
        }
        assert forall|a: int| 0 <= a < n implies 0 <= #[trigger] f(a) < n - 1 by {
            assert(order[a] as int != i);
        }
        lemma_injection_bound(f, n, (n - 1) as nat);
    }
}

/// A model with no declared capabilities.
pub open spec fn no_caps() -> CapabilityDescriptor {
    CapabilityDescriptor {
        structured_output: false,
        tool_calling: false,
        multimodal: false,
        context_window: None,
    }
}

/// The capabilities declared for model `m` (those of the first entry named
/// `m`), or none.
pub open spec fn declared_caps(caps: Seq<(String, CapabilityDescriptor)>, m: Seq<char>) -> CapabilityDescriptor
    decreases caps.len(),
{
    if caps.len() == 0 {
        no_caps()
    } else if caps[0].0@ == m {
        caps[0].1
    } else {
        declared_caps(caps.drop_first(), m)
    }
}

/// The routing identifier `provider/model`.
pub open spec fn qualified(provider: Seq<char>, model: Seq<char>) -> Seq<char> {
    provider + seq!['/'] + model
}

/// Whether the requested vendor (if any) names this provider, compared in lowercase.
pub open spec fn vendor_selects(vendor: Option<Seq<char>>, provider: Seq<char>) -> bool {
    match vendor {
        None => true,
        Some(v) => lowercase(v) == lowercase(provider),
    }
}

/// The candidates one provider contributes: its models in configuration order.
pub open spec fn provider_candidates(name: Seq<char>, p: ProviderConfig) -> Seq<CandView> {
    p.models@.map_values(|m: String| (qualified(name, m@), declared_caps(p.capabilities@, m@)))
}

/// The fallback identifiers one provider contributes.
pub open spec fn provider_fallbacks(name: Seq<char>, p: ProviderConfig) -> Seq<Seq<char>> {
    p.fallback_order@.map_values(|m: String| qualified(name, m@))
}

/// All candidates, provider by provider in the order `perm`, skipping the
/// providers that the requested vendor does not select.
pub open spec fn chain_candidates(
    ps: Seq<(String, ProviderConfig)>,
    perm: Seq<int>,
    vendor: Option<Seq<char>>,
) -> Seq<CandView>
    decreases perm.len(),
{
    if perm.len() == 0 {
        Seq::empty()
    } else {
        let rest = chain_candidates(ps, perm.drop_last(), vendor);
        let e = ps[perm.last()];
        if vendor_selects(vendor, e.0@) {
            rest + provider_candidates(e.0@, e.1)
        } else {
            rest
        }
    }
}

/// All fallback identifiers, in the same provider order and with the same filter.
pub open spec fn chain_fallbacks(
    ps: Seq<(String, ProviderConfig)>,
    perm: Seq<int>,
    vendor: Option<Seq<char>>,
) -> Seq<Seq<char>>
    decreases perm.len(),
{
    if perm.len() == 0 {
        Seq::empty()
    } else {
        let rest = chain_fallbacks(ps, perm.drop_last(), vendor);
        let e = ps[perm.last()];
        if vendor_selects(vendor, e.0@) {
            rest + provider_fallbacks(e.0@, e.1)
        } else {
            rest
        }
    }
}

/// The view of an optional string.
pub open spec fn opt_string(o: Option<String>) -> Option<Seq<char>> {
    match o {
        Some(s) => Some(s@),
        None => None,
    }
}

/// The capabilities declared for `model`.
fn lookup_caps(caps: &Vec<(String, CapabilityDescriptor)>, model: &str) -> (r: CapabilityDescriptor)
    ensures
        r == declared_caps(caps@, model@),
{
    let mut i: usize = 0;
    assert(caps@.skip(0) =~= caps@);
    while i < caps.len()
        invariant
            i <= caps@.len(),
            declared_caps(caps@, model@) == declared_caps(caps@.skip(i as int), model@),
        decreases caps.len() - i,
    {
        assert(caps@.skip(i as int).drop_first() =~= caps@.skip(i + 1));
        if str_eq(caps[i].0.as_str(), model) {
            let c = &caps[i].1;
            return CapabilityDescriptor {
                structured_output: c.structured_output,
                tool_calling: c.tool_calling,
                multimodal: c.multimodal,
                context_window: c.context_window,
            };
        }
        i += 1;
    }
    CapabilityDescriptor {
        structured_output: false,
        tool_calling: false,
        multimodal: false,
        context_window: None,
    }
}

/// The identifier `provider/model`.
fn qualify(provider: &String, model: &String) -> (r: String)
    ensures
        r@ == qualified(provider@, model@),
{
    let mut id = provider.clone();
    crate::text::push_char(&mut id, '/');
    id.append(model.as_str());
    id
}

/// Appends the candidates and fallbacks of one provider.
fn add_provider(
    name: &String,
    p: &ProviderConfig,
    candidates: &mut Vec<ModelCandidate>,
    fallbacks: &mut Vec<String>,
)
    ensures
        cviews(final(candidates)@) == cviews(old(candidates)@) + provider_candidates(name@, *p),
        names(final(fallbacks)@) == names(old(fallbacks)@) + provider_fallbacks(name@, *p),
{
    let ghost c0 = cviews(candidates@);
    let ghost f0 = names(fallbacks@);
    let mut i: usize = 0;
    while i < p.models.len()
        invariant
            i <= p.models@.len(),
            cviews(candidates@) == c0 + provider_candidates(name@, *p).take(i as int),
        decreases p.models.len() - i,
    {
        let id = qualify(name, &p.models[i]);
        let caps = lookup_caps(&p.capabilities, p.models[i].as_str());
        let ghost before = candidates@;
        candidates.push(ModelCandidate { id, capabilities: caps });
        assert(cviews(candidates@) =~= cviews(before).push(cview(candidates@.last())));
        assert(provider_candidates(name@, *p).take(i + 1) =~= provider_candidates(name@, *p).take(i as int).push(
            provider_candidates(name@, *p)[i as int],
        ));
        i += 1;
    }
    assert(provider_candidates(name@, *p).take(p.models@.len() as int) =~= provider_candidates(name@, *p));
    let mut j: usize = 0;
    while j < p.fallback_order.len()
        invariant
            j <= p.fallback_order@.len(),
            names(fallbacks@) == f0 + provider_fallbacks(name@, *p).take(j as int),
        decreases p.fallback_order.len() - j,
    {
        let id = qualify(name, &p.fallback_order[j]);
        let ghost before = fallbacks@;
        fallbacks.push(id);
        assert(names(fallbacks@) =~= names(before).push(fallbacks@.last()@));
        assert(provider_fallbacks(name@, *p).take(j + 1) =~= provider_fallbacks(name@, *p).take(j as int).push(
            provider_fallbacks(name@, *p)[j as int],
        ));
        j += 1;
    }
    assert(provider_fallbacks(name@, *p).take(p.fallback_order@.len() as int) =~= provider_fallbacks(name@, *p));
}

/// Position of the last `/` in `s`, or -1.
pub open spec fn last_slash(s: Seq<char>) -> int
    decreases s.len(),
{
    if s.len() == 0 {
        -1
    } else if s.last() == '/' {
        s.len() - 1
    } else {
        last_slash(s.drop_last())
    }
}

/// The part of an identifier before its last `/` (the provider).
pub open spec fn vendor_of(id: Seq<char>) -> Seq<char> {
    id.subrange(0, last_slash(id))
}

/// The part of an identifier after its last `/` (the model).
pub open spec fn model_of(id: Seq<char>) -> Seq<char> {
    id.subrange(last_slash(id) + 1, id.len() as int)
}

/// The identifier of the first candidate whose model part is `x`, if any.
pub open spec fn first_model_match(cands: Seq<CandView>, x: Seq<char>) -> Option<Seq<char>>
    decreases cands.len(),
{
    if cands.len() == 0 {
        None
    } else if last_slash(cands[0].0) >= 0 && model_of(cands[0].0) == x {
        Some(cands[0].0)
    } else {
        first_model_match(cands.drop_first(), x)
    }
}

/// The preferred candidate for the configured model name: the candidate with
/// exactly that identifier, else the first one whose model part is that name.
pub open spec fn preferred_id(cands: Seq<CandView>, x: Seq<char>) -> Option<Seq<char>> {
    if exists|i: int| 0 <= i < cands.len() && (#[trigger] cands[i]).0 == x {
        Some(x)
    } else {
        first_model_match(cands, x)
    }
}

/// Requirements that every model meets.
pub open spec fn default_requirements() -> CapabilityRequirements {
    CapabilityRequirements {
        structured_output: false,
        tool_calling: false,
        multimodal: false,
        min_context_window: None,
    }
}

/// An attempt chain as `(provider, model)` pairs.
pub open spec fn route_pairs(out: Seq<CandView>) -> Seq<(Seq<char>, Seq<char>)> {
    out.map_values(|c: CandView| (vendor_of(c.0), model_of(c.0)))
}

/// The view of a list of `(provider, model)` pairs.
pub open spec fn pairs_view(v: Seq<(String, String)>) -> Seq<(Seq<char>, Seq<char>)> {
    v.map_values(|p: (String, String)| (p.0@, p.1@))
}

/// `chain` is what the registry gives when the providers are taken in the order `perm`.
pub open spec fn chain_from(config: Config, perm: Seq<int>, chain: Seq<(Seq<char>, Seq<char>)>) -> bool {
    let vendor = opt_string(config.llm_vendor);
    let cands = chain_candidates(config.providers@, perm, vendor);
    let fallbacks = chain_fallbacks(config.providers@, perm, vendor);
    if cands.len() == 0 {
        chain.len() == 0
    } else {
        exists|out: Seq<CandView>|
            is_route(cands, default_requirements(), preferred_id(cands, config.model_name@), fallbacks, out)
                && chain == route_pairs(out)
    }
}

/// `chain` is the configured attempt chain: providers by ascending name (those
/// the requested vendor selects), each contributing its models in order; the
/// preferred model first, then the configured fallbacks, then the rest.
pub open spec fn is_model_chain(config: Config, chain: Seq<(Seq<char>, Seq<char>)>) -> bool {
    exists|perm: Seq<int>| is_name_order(config.providers@, perm) && #[trigger] chain_from(config, perm, chain)
}

/// The configured attempt chain.
pub open spec fn model_chain(config: Config) -> Seq<(Seq<char>, Seq<char>)> {
    choose|chain: Seq<(Seq<char>, Seq<char>)>| is_model_chain(config, chain)
}

proof fn lemma_qualified_slash(name: Seq<char>, m: Seq<char>)
    ensures
        last_slash(qualified(name, m)) >= name.len(),
    decreases m.len(),
{
    let q = qualified(name, m);
    if m.len() > 0 && q.last() != '/' {
        assert(q.drop_last() =~= qualified(name, m.drop_last()));
        lemma_qualified_slash(name, m.drop_last());
    }
}

/// Splits an identifier at its last `/`, as `str::rsplit_once('/')` does.
fn split_last_slash(id: &str) -> (r: Option<(String, String)>)
    ensures
        match r {
            Some(p) => last_slash(id@) >= 0 && p.0@ == vendor_of(id@) && p.1@ == model_of(id@),
            None => last_slash(id@) < 0,
        },
{
    let v = chars_of(id);
    let mut k: usize = v.len();
    assert(v@.take(v@.len() as int) =~= v@);
    while k > 0
        invariant
            k <= v@.len(),
            v@ == id@,
            last_slash(id@) == last_slash(v@.take(k as int)),
        decreases k,
    {
        assert(v@.take(k as int).drop_last() =~= v@.take(k - 1));
        if v[k - 1] == '/' {
            return Some((string_of_range(v.as_slice(), 0, k - 1), string_of_range(v.as_slice(), k, v.len())));
        }
        k -= 1;
    }
    None
}

/// Index of the preferred candidate, if any.
fn find_preferred(candidates: &Vec<ModelCandidate>, model_name: &str) -> (r: Option<usize>)
    ensures
        match r {
            Some(i) => i < candidates@.len() && preferred_id(cviews(candidates@), model_name@) == Some(
                candidates@[i as int].id@,
            ),
            None => preferred_id(cviews(candidates@), model_name@) is None,
        },
{
    let ghost cs = cviews(candidates@);
    let mut i: usize = 0;
    while i < candidates.len()
        invariant
            i <= candidates@.len(),
            cs == cviews(candidates@),
            forall|j: int| 0 <= j < i ==> (#[trigger] cs[j]).0 != model_name@,
        decreases candidates.len() - i,
    {
        if str_eq(candidates[i].id.as_str(), model_name) {
            assert(cs[i as int].0 == model_name@);
            return Some(i);
        }
        i += 1;
    }
    let mut j: usize = 0;
    assert(cs.skip(0) =~= cs);
    while j < candidates.len()
        invariant
            j <= candidates@.len(),
            cs == cviews(candidates@),
            first_model_match(cs, model_name@) == first_model_match(cs.skip(j as int), model_name@),
            forall|i: int| 0 <= i < cs.len() ==> (#[trigger] cs[i]).0 != model_name@,
        decreases candidates.len() - j,
    {
        assert(cs.skip(j as int).drop_first() =~= cs.skip(j + 1));
        assert(cs.skip(j as int)[0] == cs[j as int]);
        assert(cs[j as int].0 == candidates@[j as int].id@);
        match split_last_slash(candidates[j].id.as_str()) {
            Some(parts) => {
                if str_eq(parts.1.as_str(), model_name) {
                    return Some(j);
                }
            },
            None => {},
        }
        j += 1;
    }
    None
}

/// Two registry orders and routes for the same configuration give the same chain.
proof fn lemma_model_chain_unique(
    config: Config,
    c1: Seq<(Seq<char>, Seq<char>)>,
    c2: Seq<(Seq<char>, Seq<char>)>,
)
    requires
        distinct_provider_names(config.providers@),
        is_model_chain(config, c1),
        is_model_chain(config, c2),
    ensures
        c1 == c2,
{
    let ps = config.providers@;
    let p1 = choose|perm: Seq<int>| is_name_order(ps, perm) && #[trigger] chain_from(config, perm, c1);
    let p2 = choose|perm: Seq<int>| is_name_order(ps, perm) && #[trigger] chain_from(config, perm, c2);
    let lt = |x: int, y: int| str_lt(ps[x].0@, ps[y].0@);
    assert forall|x: int, y: int| #[trigger] lt(x, y) implies !lt(y, x) by {
        lemma_str_lt_strict(ps[x].0@, ps[y].0@);
    }
    assert forall|x: int| p1.contains(x) <==> p2.contains(x) by {
        if p1.contains(x) {
            let a = choose|a: int| 0 <= a < p1.len() && p1[a] == x;
            assert(0 <= p1[a] < ps.len());
        }
        if p2.contains(x) {
            let a = choose|a: int| 0 <= a < p2.len() && p2[a] == x;
            assert(0 <= p2[a] < ps.len());
        }
    }
    assert forall|a: int, b: int| 0 <= a < b < p1.len() implies lt(#[trigger] p1[a], #[trigger] p1[b]) by {}
    assert forall|a: int, b: int| 0 <= a < b < p2.len() implies lt(#[trigger] p2[a], #[trigger] p2[b]) by {}
    lemma_sorted_unique(p1, p2, lt);
    let vendor = opt_string(config.llm_vendor);
    let cands = chain_candidates(ps, p1, vendor);
    let fallbacks = chain_fallbacks(ps, p1, vendor);
    if cands.len() > 0 {
        let pref = preferred_id(cands, config.model_name@);
        let o1 = choose|out: Seq<CandView>|
            is_route(cands, default_requirements(), pref, fallbacks, out) && c1 == route_pairs(out);
        let o2 = choose|out: Seq<CandView>|
            is_route(cands, default_requirements(), pref, fallbacks, out) && c2 == route_pairs(out);
        route_is_deterministic(cands, default_requirements(), pref, fallbacks, o1, o2);
    } else {
        assert(c1 =~= c2);
    }
}

/// Builds the ordered provider/model chain used both for initial selection and
/// for the runtime fallback client.
pub fn configured_model_chain(config: &Config) -> (r: Vec<(String, String)>)
    requires
        distinct_provider_names(config.providers@),
    ensures
        pairs_view(r@) == model_chain(*config),
{
    let ghost ps = config.providers@;
    let ghost vspec = opt_string(config.llm_vendor);
    let order = provider_name_order(&config.providers);
    let ghost perm = int_seq(order@);
    let vendor: Option<String> = match &config.llm_vendor {
        Some(v) => Some(to_lower(v.as_str())),
        None => None,
    };
    let mut candidates: Vec<ModelCandidate> = Vec::new();
    let mut fallbacks: Vec<String> = Vec::new();
    let mut k: usize = 0;
    assert(perm.take(0) =~= Seq::<int>::empty());
    while k < order.len()
        invariant
            k <= order@.len(),
            ps == config.providers@,
            vspec == opt_string(config.llm_vendor),
            perm == int_seq(order@),
            is_name_order(ps, perm),
            match vendor {
                Some(v) => vspec is Some && v@ == lowercase(vspec->0),
                None => vspec is None,
            },
            cviews(candidates@) == chain_candidates(ps, perm.take(k as int), vspec),
            names(fallbacks@) == chain_fallbacks(ps, perm.take(k as int), vspec),
            forall|i: int| 0 <= i < candidates@.len() ==> last_slash((#[trigger] candidates@[i]).id@) >= 0,
        decreases order.len() - k,
    {
        assert(perm[k as int] == order@[k as int] as int);
        assert(0 <= perm[k as int] < ps.len());
        let entry = &config.providers[order[k]];
        let selected = match &vendor {
            Some(v) => {
                let lowered = to_lower(entry.0.as_str());
                str_eq(v.as_str(), lowered.as_str())
            },
            None => true,
        };
        let ghost before = candidates@;
        if selected {
            add_provider(&entry.0, &entry.1, &mut candidates, &mut fallbacks);
            proof {
                let pc = provider_candidates(entry.0@, entry.1);
                assert(cviews(before).len() == before.len());
                assert(pc.len() == entry.1.models@.len());
                assert(cviews(candidates@).len() == candidates@.len());
                assert(candidates@.len() == before.len() + pc.len());
                assert forall|i: int| 0 <= i < candidates@.len() implies last_slash((#[trigger] candidates@[i]).id@) >= 0 by {
                    if i >= before.len() {
                        assert(cviews(candidates@)[i] == cview(candidates@[i]));
                        let m = entry.1.models@[i - before.len()];
                        assert(cviews(candidates@)[i] == provider_candidates(entry.0@, entry.1)[i - before.len()]);
                        lemma_qualified_slash(entry.0@, m@);
                    } else {
                        assert(cviews(candidates@)[i] == cviews(before)[i]);
                        assert(cviews(before)[i] == cview(before[i]));
                    }
                }
            }
        }
        proof {
            assert(perm.take(k + 1).drop_last() =~= perm.take(k as int));
            assert(perm.take(k + 1).last() == perm[k as int]);
        }
        k += 1;
    }
    assert(perm.take(order@.len() as int) =~= perm);
    let ghost cands = chain_candidates(ps, perm, vspec);
    let ghost fb = chain_fallbacks(ps, perm, vspec);
    if candidates.len() == 0 {
        let none: Vec<(String, String)> = Vec::new();
        proof {
            let empty = pairs_view(none@);
            assert(empty.len() == 0);
            assert(chain_from(*config, perm, empty));
            assert(is_model_chain(*config, empty));
            lemma_model_chain_unique(*config, empty, model_chain(*config));
        }
        return none;
    }
    let pref_index = find_preferred(&candidates, config.model_name.as_str());
    let preferred: Option<&str> = match pref_index {
        Some(i) => Some(candidates[i].id.as_str()),
        None => None,
    };
    let policy = FallbackPolicy { order: fallbacks };
    let requirements = CapabilityRequirements::default();
    assert(requirements == default_requirements());
    match route_models(candidates.as_slice(), &requirements, preferred, &policy) {
        Ok(routed) => {
            let ghost out = routed@.map_values(|m: &ModelCandidate| cview(*m));
            proof {
                let idx = choose|idx: Seq<int>|
                    crate::capability::is_route_order(cands, default_requirements(), preferred_id(cands, config.model_name@), fb, idx)
                        && out.len() == idx.len() && forall|a: int|
                        0 <= a < idx.len() ==> out[a] == cands[#[trigger] idx[a]];
                assert forall|a: int| 0 <= a < out.len() implies last_slash((#[trigger] out[a]).0) >= 0 by {
                    assert(out[a] == cands[idx[a]]);
                    assert(cands[idx[a]] == cview(candidates@[idx[a]]));
                }
            }
            let mut chain: Vec<(String, String)> = Vec::new();
            let mut q: usize = 0;
            while q < routed.len()
                invariant
                    q <= routed@.len(),
                    out == routed@.map_values(|m: &ModelCandidate| cview(*m)),
                    forall|a: int| 0 <= a < out.len() ==> last_slash((#[trigger] out[a]).0) >= 0,
                    pairs_view(chain@) == route_pairs(out.take(q as int)),
                decreases routed.len() - q,
            {
                let ghost before = chain@;
                assert(out[q as int].0 == routed@[q as int].id@);
                match split_last_slash(routed[q].id.as_str()) {
                    Some(parts) => {
                        chain.push(parts);
                        assert(pairs_view(chain@) =~= pairs_view(before).push((parts.0@, parts.1@)));
                    },
                    None => {},
                }
                assert(route_pairs(out.take(q + 1)) =~= route_pairs(out.take(q as int)).push(
                    (vendor_of(out[q as int].0), model_of(out[q as int].0)),
                ));
                q += 1;
            }
            proof {
                assert(out.take(out.len() as int) =~= out);
                assert(chain_from(*config, perm, pairs_view(chain@)));
                assert(is_model_chain(*config, pairs_view(chain@)));
                lemma_model_chain_unique(*config, pairs_view(chain@), model_chain(*config));
            }
            chain
        },
        Err(_) => {
            proof {
                assert(satisfies_spec(candidates@[0].capabilities, requirements));
            }
            Vec::new()
        },
    }
}

/// Selects the configured provider/model: the head of the configured chain.
pub fn select_configured_model(config: &Config) -> (r: Option<(String, String)>)
    requires
        distinct_provider_names(config.providers@),
    ensures
        match r {
            Some(p) => model_chain(*config).len() > 0 && (p.0@, p.1@) == model_chain(*config)[0],
            None => model_chain(*config).len() == 0,
        },
{
    let mut chain = configured_model_chain(config);
    if chain.len() == 0 {
        None
    } else {
        let first = chain.remove(0);
        Some(first)
    }
}

} // verus!
