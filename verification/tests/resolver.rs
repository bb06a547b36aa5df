use emm::model::{Addon, AddonOptions, AddonSource, CurseforgeSource, ModrinthSource, ProjectType, Side};
use emm::resolver::{find_node, generic_ids, handle_checked, resolve_closure, DependencyEdge, Missing, Node};

fn project(id: &str) -> Addon {
    Addon {
        name: format!("name of {id}"),
        project_type: ProjectType::Mod,
        side: Side::Both,
        source: AddonSource::Modrinth(ModrinthSource { id: id.to_string(), version: "v".to_string() }),
        options: Some(AddonOptions::unset()),
        filename: None,
    }
}

fn needs(id: &str) -> DependencyEdge {
    DependencyEdge { project_id: format!("modrinth:{id}"), version_id: None, required: true }
}

fn optional(id: &str) -> DependencyEdge {
    DependencyEdge { project_id: format!("modrinth:{id}"), version_id: None, required: false }
}

fn node(id: &str, dependencies: Vec<DependencyEdge>) -> Node {
    Node { id: format!("modrinth:{id}"), addon: project(id), dependencies }
}

fn names(list: &[&str]) -> Vec<String> {
    list.iter().map(|s| format!("modrinth:{s}")).collect()
}

fn plain(list: &[&str]) -> Vec<String> {
    list.iter().map(|s| s.to_string()).collect()
}

#[test]
fn a_cycle_is_walked_once() {
    let registry = vec![node("A", vec![needs("B")]), node("B", vec![needs("A")])];
    let closure = resolve_closure(&vec![project("A")], &Vec::new(), &registry).unwrap();
    assert_eq!(closure.ids, names(&["B"]));
    assert_eq!(closure.addons, vec![project("B")]);
}

#[test]
fn nothing_is_added_where_the_closure_is_known() {
    let registry = vec![
        node("A", vec![needs("B"), needs("C")]),
        node("B", vec![needs("C")]),
        node("C", vec![]),
    ];
    let first = resolve_closure(&vec![project("A")], &Vec::new(), &registry).unwrap();
    assert_eq!(first.ids, names(&["B", "C"]));
    let again = resolve_closure(&vec![project("A")], &first.ids, &registry).unwrap();
    assert!(again.ids.is_empty());
    assert!(again.addons.is_empty());
}

#[test]
fn a_diamond_adds_its_tip_once() {
    let registry = vec![
        node("A", vec![needs("B"), needs("C")]),
        node("B", vec![needs("D")]),
        node("C", vec![needs("D")]),
        node("D", vec![]),
    ];
    let closure = resolve_closure(&vec![project("A")], &Vec::new(), &registry).unwrap();
    assert_eq!(closure.ids, names(&["B", "C", "D"]));
    assert_eq!(closure.addons, vec![project("B"), project("C"), project("D")]);
}

#[test]
fn only_required_edges_are_followed() {
    let registry = vec![node("A", vec![optional("B"), needs("C")]), node("B", vec![]), node("C", vec![])];
    let closure = resolve_closure(&vec![project("A")], &Vec::new(), &registry).unwrap();
    assert_eq!(closure.ids, names(&["C"]));
}

#[test]
fn seeds_and_known_projects_are_not_added() {
    let registry = vec![
        node("A", vec![needs("B"), needs("K")]),
        node("B", vec![needs("A"), needs("X")]),
        node("X", vec![]),
    ];
    let closure = resolve_closure(&vec![project("A"), project("B")], &names(&["K"]), &registry).unwrap();
    assert_eq!(closure.ids, names(&["X"]));
}

#[test]
fn a_project_without_an_answer_fails_the_closure() {
    let registry = vec![node("A", vec![needs("B")])];
    assert_eq!(
        resolve_closure(&vec![project("A")], &Vec::new(), &registry),
        Err(Missing::Dependency(needs("B")))
    );
    assert_eq!(
        resolve_closure(&vec![project("Z")], &Vec::new(), &registry),
        Err(Missing::Seed("modrinth:Z".to_string()))
    );
}

#[test]
fn no_seeds_add_nothing() {
    let registry = vec![node("A", vec![needs("B")])];
    let closure = resolve_closure(&Vec::new(), &Vec::new(), &registry).unwrap();
    assert!(closure.ids.is_empty());
}

#[test]
fn handle_checked_claims_once() {
    let mut checked = plain(&["a"]);
    assert!(handle_checked(&"a".to_string(), &mut checked));
    assert_eq!(checked, plain(&["a"]));
    assert!(!handle_checked(&"b".to_string(), &mut checked));
    assert_eq!(checked, plain(&["a", "b"]));
    assert!(handle_checked(&"b".to_string(), &mut checked));
    assert_eq!(checked, plain(&["a", "b"]));
}

#[test]
fn find_node_gives_the_first() {
    let registry = vec![node("A", vec![]), node("B", vec![]), node("A", vec![needs("B")])];
    assert_eq!(find_node(&registry, &"modrinth:A".to_string()), Some(0));
    assert_eq!(find_node(&registry, &"modrinth:B".to_string()), Some(1));
    assert_eq!(find_node(&registry, &"modrinth:C".to_string()), None);
    assert_eq!(find_node(&registry, &"A".to_string()), None);
}

#[test]
fn generic_ids_keep_their_order() {
    assert_eq!(generic_ids(&vec![project("x"), project("y")]), names(&["x", "y"]));
}

#[test]
fn the_missing_edge_comes_back_with_its_version() {
    let mut pinned = needs("B");
    pinned.version_id = Some("v7".to_string());
    let registry = vec![node("A", vec![optional("B"), pinned.clone(), needs("B"), needs("C")])];
    assert_eq!(
        resolve_closure(&vec![project("A")], &Vec::new(), &registry),
        Err(Missing::Dependency(pinned))
    );
}

#[test]
fn owned_projects_are_never_asked_for() {
    let registry = vec![node("A", vec![needs("B"), needs("C")])];
    let owned = names(&["B", "C"]);
    let closure = resolve_closure(&vec![project("A")], &owned, &registry).unwrap();
    assert!(closure.ids.is_empty());
    assert!(closure.addons.is_empty());
    let again = resolve_closure(&vec![project("A")], &owned, &registry).unwrap();
    assert!(again.addons.is_empty());
}

#[test]
fn a_project_of_one_registry_does_not_hide_one_of_another() {
    let other = Addon {
        source: AddonSource::Curseforge(CurseforgeSource { id: 123, version: 1 }),
        ..project("ignored")
    };
    let registry = vec![node("A", vec![needs("123")]), node("123", vec![])];
    let owned = vec![other.generic_id()];
    assert_eq!(owned, plain(&["curseforge:123"]));
    let closure = resolve_closure(&vec![project("A")], &owned, &registry).unwrap();
    assert_eq!(closure.ids, names(&["123"]));
    assert_eq!(closure.addons, vec![project("123")]);
    let owned = vec![project("123").generic_id()];
    let closure = resolve_closure(&vec![project("A")], &owned, &registry).unwrap();
    assert!(closure.ids.is_empty());
}

#[test]
fn added_addons_carry_the_ids_that_were_claimed() {
    let registry = vec![
        node("A", vec![needs("B"), needs("C")]),
        node("B", vec![needs("D")]),
        node("C", vec![]),
        node("D", vec![]),
    ];
    let closure = resolve_closure(&vec![project("A")], &Vec::new(), &registry).unwrap();
    assert_eq!(closure.ids, generic_ids(&closure.addons));
}

#[test]
fn what_is_not_walked_cannot_stop_resolution() {
    let registry = vec![node("A", vec![needs("B")]), node("X", vec![needs("Y")])];
    let owned = names(&["B"]);
    let closure = resolve_closure(&vec![project("A")], &owned, &registry).unwrap();
    assert!(closure.ids.is_empty());
    assert!(closure.addons.is_empty());
}
