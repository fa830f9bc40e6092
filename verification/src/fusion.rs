//! Decisions of the memory-fusion router: which cognitive system handles a
//! request, and whether tools are offered.
use vstd::prelude::*;
use crate::classifier::{contains_any, contains_any_of};
use crate::text::{lowercase, seq_contains, to_lower};

verus! {

broadcast use vstd::string::group_string_axioms;

/// The cognitive system a request is routed to.
#[derive(Debug, Clone, Copy, PartialEq, Eq, Structural)]
pub enum SystemRoute {
    System1,
    System2,
    System3,
}

/// How a request's complexity compares with the router's thresholds, and
/// which systems are available.
#[derive(Debug, Clone, Copy, PartialEq, Eq, Structural)]
pub struct RouteInputs {
    /// The complexity reaches the System3 threshold.
    pub reaches_system3: bool,
    /// The complexity reaches the System2 threshold.
    pub reaches_system2: bool,
    pub has_system3: bool,
    pub has_system2: bool,
}

/// The route for a request: the most capable available system whose
/// threshold the complexity reaches, System1 otherwise.
pub open spec fn route_of(i: RouteInputs) -> SystemRoute {
    if i.reaches_system3 && i.has_system3 {
        SystemRoute::System3
    } else if i.reaches_system2 && i.has_system2 {
        SystemRoute::System2
    } else {
        SystemRoute::System1
    }
}

/// Choose the system that handles a request.
pub fn determine_system(inputs: RouteInputs) -> (r: SystemRoute)
    ensures
        r == route_of(inputs),
{
    if inputs.reaches_system3 && inputs.has_system3 {
        SystemRoute::System3
    } else if inputs.reaches_system2 && inputs.has_system2 {
        SystemRoute::System2
    } else {
        SystemRoute::System1
    }
}

/// Words that ask for a tool.
pub open spec fn tool_intents() -> Seq<Seq<char>> {
    seq![
        "search"@, "find"@, "look up"@, "check"@, "get"@, "fetch"@, "calculate"@, "compute"@, "analyze"@,
        "read"@, "write"@,
    ]
}

/// Whether tools are offered: they are enabled, some are available, and the
/// lowercased input asks for one.
pub open spec fn uses_tools(enabled: bool, available_tools: nat, input: Seq<char>) -> bool {
    enabled && available_tools > 0 && contains_any(lowercase(input), tool_intents())
}

/// Routing picks the most capable system the request qualifies for: System 3
/// when its threshold is reached and System 3 is available; otherwise System 2
/// when its threshold is reached and it is available; otherwise System 1. So a
/// request never goes to a system that is not available, and raising the
/// complexity never lowers the system chosen.
pub proof fn requests_go_to_the_most_capable_available_system(i: RouteInputs, j: RouteInputs)
    ensures
        i.reaches_system3 && i.has_system3 ==> route_of(i) == SystemRoute::System3,
        !(i.reaches_system3 && i.has_system3) && i.reaches_system2 && i.has_system2 ==> route_of(i)
            == SystemRoute::System2,
        !(i.reaches_system3 && i.has_system3) && !(i.reaches_system2 && i.has_system2) ==> route_of(i)
            == SystemRoute::System1,
        route_of(i) == SystemRoute::System3 ==> i.has_system3,
        route_of(i) == SystemRoute::System2 ==> i.has_system2,
        i.has_system3 == j.has_system3 && i.has_system2 == j.has_system2 && (i.reaches_system3
            ==> j.reaches_system3) && (i.reaches_system2 ==> j.reaches_system2) && route_of(i)
            == SystemRoute::System3 ==> route_of(j) == SystemRoute::System3,
        i.has_system3 == j.has_system3 && i.has_system2 == j.has_system2 && (i.reaches_system3
            ==> j.reaches_system3) && (i.reaches_system2 ==> j.reaches_system2) && route_of(i)
            == SystemRoute::System2 ==> route_of(j) != SystemRoute::System1,
{
}

/// Tools are offered exactly when they are enabled, at least one is
/// available, and the lowercased input mentions `search`, `find`, `look up`,
/// `check`, `get`, `fetch`, `calculate`, `compute`, `analyze`, `read` or
/// `write`.
pub proof fn tools_follow_their_keywords(enabled: bool, available_tools: nat, input: Seq<char>)
    ensures
        uses_tools(enabled, available_tools, input) <==> enabled && available_tools > 0
            && (seq_contains(lowercase(input), "search"@) || seq_contains(lowercase(input), "find"@)
            || seq_contains(lowercase(input), "look up"@)
            || seq_contains(lowercase(input), "check"@) || seq_contains(lowercase(input), "get"@)
            || seq_contains(lowercase(input), "fetch"@)
            || seq_contains(lowercase(input), "calculate"@)
            || seq_contains(lowercase(input), "compute"@)
            || seq_contains(lowercase(input), "analyze"@) || seq_contains(lowercase(input), "read"@)
            || seq_contains(lowercase(input), "write"@)),
{
    assert(tool_intents()[0] == "search"@);
    assert(tool_intents()[1] == "find"@);
    assert(tool_intents()[2] == "look up"@);
    assert(tool_intents()[3] == "check"@);
    assert(tool_intents()[4] == "get"@);
    assert(tool_intents()[5] == "fetch"@);
    assert(tool_intents()[6] == "calculate"@);
    assert(tool_intents()[7] == "compute"@);
    assert(tool_intents()[8] == "analyze"@);
    assert(tool_intents()[9] == "read"@);
    assert(tool_intents()[10] == "write"@);
}

/// Decide whether to offer tools for a request.
pub fn should_use_tools(enable_tools: bool, available_tools: usize, input: &str) -> (b: bool)
    ensures
        b == uses_tools(enable_tools, available_tools as nat, input@),
{
    if !enable_tools || available_tools == 0 {
        return false;
    }
    let lower = to_lower(input);
    let intents: Vec<&str> = vec![
        "search", "find", "look up", "check", "get", "fetch", "calculate", "compute", "analyze", "read", "write",
    ];
    assert(intents@.map_values(|m: &str| m@) =~= tool_intents());
    contains_any_of(lower.as_str(), &intents, Ghost(tool_intents()))
}

} // verus!
