use crablet::fusion::{determine_system, should_use_tools, RouteInputs, SystemRoute};

#[test]
fn most_capable_available_system_wins() {
    let all = RouteInputs { reaches_system3: true, reaches_system2: true, has_system3: true, has_system2: true };
    assert_eq!(determine_system(all), SystemRoute::System3);
    assert_eq!(determine_system(RouteInputs { has_system3: false, ..all }), SystemRoute::System2);
    assert_eq!(determine_system(RouteInputs { has_system3: false, has_system2: false, ..all }), SystemRoute::System1);
    let simple = RouteInputs { reaches_system3: false, reaches_system2: false, ..all };
    assert_eq!(determine_system(simple), SystemRoute::System1);
}

#[test]
fn tools_need_enabling_availability_and_intent() {
    assert!(should_use_tools(true, 2, "Please SEARCH the docs"));
    assert!(!should_use_tools(false, 2, "Please search the docs"));
    assert!(!should_use_tools(true, 0, "Please search the docs"));
    assert!(!should_use_tools(true, 2, "hello there"));
    assert!(should_use_tools(true, 1, "forget it"));
}
