use cargo_monorepo::dependency::{Dependencies, Dependency};
use cargo_monorepo::graph::{PackageGraph, PackageInfo, ResolveNode};
use cargo_monorepo::hash::{HashItem, Hashable};

fn info(id: &str, version: &str) -> PackageInfo {
    PackageInfo {
        id: id.to_string(),
        name: id.to_lowercase(),
        version: version.to_string(),
    }
}

fn node(id: &str, dependencies: &[&str]) -> ResolveNode {
    ResolveNode {
        id: id.to_string(),
        dependencies: dependencies.iter().map(|d| d.to_string()).collect(),
    }
}

fn names(dependencies: &Dependencies) -> Vec<String> {
    dependencies
        .sorted()
        .iter()
        .map(|d| d.to_string())
        .collect()
}

fn diamond() -> PackageGraph {
    PackageGraph {
        packages: vec![
            info("A", "1.0.0"),
            info("B", "1.1.0"),
            info("C", "1.2.0"),
            info("D", "1.3.0"),
            info("E", "9.9.9"),
        ],
        resolve: Some(vec![
            node("A", &["B", "C"]),
            node("B", &["D"]),
            node("C", &["D"]),
            node("D", &[]),
            node("E", &["A"]),
        ]),
    }
}

#[test]
fn diamond_closure_has_each_package_once() {
    let graph = diamond();
    let dependencies = graph.resolve("A").unwrap();
    assert_eq!(
        names(&dependencies),
        vec!["a 1.0.0", "b 1.1.0", "c 1.2.0", "d 1.3.0"]
    );
    for id in ["A", "B", "C", "D"] {
        assert!(dependencies.contains_key(id));
    }
    assert!(!dependencies.contains_key("E"));
    assert_eq!(dependencies.get("D").unwrap().version, "1.3.0");
    assert!(dependencies.get("E").is_none());
}

#[test]
fn closure_of_a_leaf_is_the_leaf() {
    let dependencies = diamond().resolve("D").unwrap();
    assert_eq!(names(&dependencies), vec!["d 1.3.0"]);
}

#[test]
fn cycle_is_resolved_without_looping() {
    let graph = PackageGraph {
        packages: vec![info("A", "1.0.0"), info("B", "2.0.0")],
        resolve: Some(vec![node("A", &["B"]), node("B", &["A"])]),
    };
    assert_eq!(
        names(&graph.resolve("A").unwrap()),
        vec!["a 1.0.0", "b 2.0.0"]
    );
    assert_eq!(
        names(&graph.resolve("B").unwrap()),
        vec!["a 1.0.0", "b 2.0.0"]
    );
    let own = PackageGraph {
        packages: vec![info("A", "1.0.0")],
        resolve: Some(vec![node("A", &["A"])]),
    };
    assert_eq!(names(&own.resolve("A").unwrap()), vec!["a 1.0.0"]);
}

#[test]
fn missing_resolve_is_an_error() {
    let graph = PackageGraph {
        packages: vec![info("A", "1.0.0")],
        resolve: None,
    };
    let error = graph.resolve("A").unwrap_err();
    assert_eq!(error.description(), "metadata has no resolve");
    assert!(error.source().is_none());
    assert!(error.explanation().is_none());
}

#[test]
fn unknown_root_is_an_error() {
    let error = diamond().resolve("Z").unwrap_err();
    assert_eq!(error.description(), "could not find package");
    assert_eq!(
        error.explanation(),
        Some("Unable to find package Z in the metadata.")
    );
}

#[test]
fn unresolved_dependency_is_reported_with_its_id() {
    let graph = PackageGraph {
        packages: vec![info("A", "1.0.0"), info("B", "2.0.0")],
        resolve: Some(vec![node("A", &["B"])]),
    };
    let error = graph.resolve("A").unwrap_err();
    assert_eq!(error.description(), "transitive dependency failure");
    let cause = error.source().unwrap();
    assert_eq!(cause.description(), "could not resolve dependencies");
    assert_eq!(
        cause.explanation(),
        Some("Unable to resolve dependencies for package B.")
    );
    assert_eq!(
        error.to_string(),
        "transitive dependency failure: could not resolve dependencies\n\nUnable to resolve dependencies for package B."
    );
}

#[test]
fn unknown_dependency_is_reported_with_its_id() {
    let graph = PackageGraph {
        packages: vec![info("A", "1.0.0"), info("B", "2.0.0")],
        resolve: Some(vec![node("A", &["B"]), node("B", &["missing 0.1.0"])]),
    };
    let error = graph.resolve("A").unwrap_err();
    assert_eq!(error.description(), "transitive dependency failure");
    let middle = error.source().unwrap();
    assert_eq!(middle.description(), "transitive dependency failure");
    let cause = middle.source().unwrap();
    assert_eq!(cause.description(), "could not find package");
    assert_eq!(
        cause.explanation(),
        Some("Unable to find package missing 0.1.0 in the metadata.")
    );
}

#[test]
fn first_package_and_node_with_an_id_decide() {
    let graph = PackageGraph {
        packages: vec![info("A", "1.0.0"), info("A", "2.0.0"), info("B", "3.0.0")],
        resolve: Some(vec![node("A", &[]), node("A", &["B"])]),
    };
    assert_eq!(graph.find_package("A"), Some(0));
    assert_eq!(graph.find_node("A"), Some(0));
    assert_eq!(graph.find_package("C"), None);
    assert_eq!(names(&graph.resolve("A").unwrap()), vec!["a 1.0.0"]);
}

#[test]
fn dependency_order_is_by_name_then_version() {
    let a1 = Dependency {
        name: "a".to_string(),
        version: "1".to_string(),
    };
    let a2 = Dependency {
        name: "a".to_string(),
        version: "2".to_string(),
    };
    let ab = Dependency {
        name: "ab".to_string(),
        version: "0".to_string(),
    };
    assert!(a1.is_before(&a2));
    assert!(!a2.is_before(&a1));
    assert!(a2.is_before(&ab));
    assert!(!a1.is_before(&a1));
    assert!(a1.is_same(&a1.clone()));
    assert!(!a1.is_same(&a2));
    assert_eq!(ab.to_string(), "ab 0");
}

#[test]
fn sorted_collapses_equal_dependencies() {
    let dependency = |name: &str, version: &str| Dependency {
        name: name.to_string(),
        version: version.to_string(),
    };
    let held = Dependencies::new()
        .insert("id 3", dependency("z", "1.0.0"))
        .insert("id 1", dependency("m", "2.0.0"))
        .insert("id 2", dependency("m", "1.0.0"))
        .insert("id 4", dependency("z", "1.0.0"))
        .insert("id 1", dependency("m", "3.0.0"));
    assert_eq!(names(&held), vec!["m 1.0.0", "m 3.0.0", "z 1.0.0"]);
}

#[test]
fn dependencies_hash_does_not_depend_on_insertion_order() {
    let dependency = |name: &str, version: &str| Dependency {
        name: name.to_string(),
        version: version.to_string(),
    };
    let one = Dependencies::new()
        .insert("a", dependency("a", "1"))
        .insert("b", dependency("b", "2"));
    let other = Dependencies::new()
        .insert("b", dependency("b", "2"))
        .insert("a", dependency("a", "1"));
    assert_eq!(one.as_hash_item().hash(), other.as_hash_item().hash());
    let expected = HashItem::List(vec![
        HashItem::List(vec![
            HashItem::named("name", HashItem::String("a".to_string())),
            HashItem::named("version", HashItem::String("1".to_string())),
        ]),
        HashItem::List(vec![
            HashItem::named("name", HashItem::String("b".to_string())),
            HashItem::named("version", HashItem::String("2".to_string())),
        ]),
    ]);
    assert_eq!(one.as_hash_item().encode(), expected.encode());
}

#[test]
fn graph_traversal_order_does_not_change_the_hash() {
    let one = diamond();
    let mut other = diamond();
    other.resolve = Some(vec![
        node("A", &["C", "B"]),
        node("B", &["D"]),
        node("C", &["D"]),
        node("D", &[]),
    ]);
    assert_eq!(
        one.resolve("A").unwrap().as_hash_item().hash(),
        other.resolve("A").unwrap().as_hash_item().hash()
    );
}

#[test]
fn dependencies_hash_pins_the_closure() {
    let dependencies = diamond().resolve("A").unwrap();
    let hash = dependencies.hash();
    assert_eq!(hash, dependencies.as_hash_item().hash());
    assert_eq!(hash.len(), 64);
    assert!(dependencies.is_pinned_by(&hash));
    assert!(!dependencies.is_pinned_by("0000"));
    let mut changed = diamond();
    changed.packages[3].version = "1.3.1".to_string();
    assert!(!changed.resolve("A").unwrap().is_pinned_by(&hash));
    let mut unrelated = diamond();
    unrelated.packages[4].version = "10.0.0".to_string();
    assert!(unrelated.resolve("A").unwrap().is_pinned_by(&hash));
}
