use cockpit_pacman_backend::deptree::{
    get_dependency_tree, DependencyEdge, DependencyNode, GraphPackage,
};
use cockpit_pacman_backend::engine::PackageReason;

fn s(t: &str) -> String {
    t.to_string()
}

fn list(v: &[&str]) -> Vec<String> {
    v.iter().map(|t| s(t)).collect()
}

fn package(name: &str, reason: Option<PackageReason>, repo: Option<&str>, depends: &[&str], optdepends: &[&str], required_by: &[&str], optional_for: &[&str]) -> GraphPackage {
    GraphPackage {
        name: s(name),
        version: format!("{}-1", name.len()),
        reason,
        repository: repo.map(s),
        depends: list(depends),
        optdepends: list(optdepends),
        required_by: list(required_by),
        optional_for: list(optional_for),
    }
}

fn universe() -> Vec<GraphPackage> {
    vec![
        package("app", Some(PackageReason::Explicit), Some("extra"), &["lib", "tool"], &["plugin"], &[], &[]),
        package("lib", Some(PackageReason::Depend), Some("core"), &["base"], &[], &["app", "tool"], &[]),
        package("tool", Some(PackageReason::Depend), Some("core"), &["lib", "ghost"], &[], &["app"], &[]),
        package("base", Some(PackageReason::Depend), Some("core"), &[], &[], &["lib"], &["plugin"]),
        package("plugin", None, Some("extra"), &["base"], &[], &[], &[]),
        // An offer of a package that is also installed: the installed one stands for the name.
        package("lib", None, Some("core"), &["other"], &[], &[], &[]),
    ]
}

fn node(name: &str, version: &str, depth: u32, reason: Option<&str>, repo: Option<&str>) -> DependencyNode {
    DependencyNode {
        id: s(name),
        name: s(name),
        version: s(version),
        depth,
        installed: reason.is_some(),
        reason: reason.map(s),
        repository: repo.map(s),
    }
}

fn edge(source: &str, target: &str, kind: &str) -> DependencyEdge {
    DependencyEdge { source: s(source), target: s(target), edge_type: s(kind) }
}

#[test]
fn tree_grows_forward_breadth_first() {
    let t = get_dependency_tree(&universe(), "app", 5, "forward").unwrap();
    assert_eq!(t.root, "app");
    assert_eq!(
        t.nodes,
        vec![
            node("app", "3-1", 0, Some("explicit"), Some("extra")),
            node("lib", "3-1", 1, Some("dependency"), Some("core")),
            node("tool", "4-1", 1, Some("dependency"), Some("core")),
            node("plugin", "6-1", 1, None, Some("extra")),
            node("base", "4-1", 2, Some("dependency"), Some("core")),
            node("ghost", "unknown", 2, None, None),
        ]
    );
    assert_eq!(
        t.edges,
        vec![
            edge("app", "lib", "depends"),
            edge("app", "tool", "depends"),
            edge("app", "plugin", "optdepends"),
            edge("lib", "base", "depends"),
            edge("tool", "lib", "depends"),
            edge("tool", "ghost", "depends"),
            edge("plugin", "base", "depends"),
        ]
    );
    assert_eq!(t.warnings, vec![s("Package 'ghost' not found in databases")]);
    assert!(!t.max_depth_reached);
}

#[test]
fn tree_stops_at_the_depth_asked_for() {
    let t = get_dependency_tree(&universe(), "app", 1, "forward").unwrap();
    let names: Vec<&str> = t.nodes.iter().map(|n| n.name.as_str()).collect();
    assert_eq!(names, vec!["app", "lib", "tool", "plugin"]);
    assert_eq!(t.edges.len(), 3);
    assert!(t.max_depth_reached);
    let t = get_dependency_tree(&universe(), "app", 0, "forward").unwrap();
    assert_eq!(t.nodes.len(), 1);
    assert!(t.edges.is_empty());
    assert!(t.max_depth_reached);
}

#[test]
fn tree_grows_backward_and_both_ways() {
    let t = get_dependency_tree(&universe(), "base", 5, "reverse").unwrap();
    let names: Vec<&str> = t.nodes.iter().map(|n| n.name.as_str()).collect();
    assert_eq!(names, vec!["base", "lib", "plugin", "app", "tool"]);
    assert_eq!(
        t.edges,
        vec![
            edge("lib", "base", "required_by"),
            edge("plugin", "base", "optional_for"),
            edge("app", "lib", "required_by"),
            edge("tool", "lib", "required_by"),
            edge("app", "tool", "required_by"),
        ]
    );
    let t = get_dependency_tree(&universe(), "lib", 1, "both").unwrap();
    let names: Vec<&str> = t.nodes.iter().map(|n| n.name.as_str()).collect();
    assert_eq!(names, vec!["lib", "base", "app", "tool"]);
    assert_eq!(
        t.edges,
        vec![
            edge("lib", "base", "depends"),
            edge("app", "lib", "required_by"),
            edge("tool", "lib", "required_by"),
        ]
    );
    // A direction that is none of the three grows nothing.
    let t = get_dependency_tree(&universe(), "lib", 3, "sideways").unwrap();
    assert_eq!(t.nodes.len(), 1);
    assert!(!t.max_depth_reached);
}

#[test]
fn unknown_packages_have_no_tree() {
    assert_eq!(
        get_dependency_tree(&universe(), "nothing", 3, "forward"),
        Err(s("Package 'nothing' not found"))
    );
    assert_eq!(get_dependency_tree(&vec![], "x", 3, "forward"), Err(s("Package 'x' not found")));
}

#[test]
fn large_trees_are_cut_with_a_warning() {
    // A chain of packages that each need seven hundred others.
    let many: Vec<String> = (0..700).map(|i| format!("dep{}", i)).collect();
    let refs: Vec<&str> = many.iter().map(|t| t.as_str()).collect();
    let mut packages = vec![package("root", Some(PackageReason::Explicit), None, &refs, &[], &[], &[])];
    for name in &many {
        packages.push(package(name, None, None, &["leaf"], &[], &[], &[]));
    }
    let t = get_dependency_tree(&packages, "root", 3, "forward").unwrap();
    // The root is grown from in full; the next node ends the growth.
    assert_eq!(t.nodes.len(), 701);
    assert_eq!(t.edges.len(), 700);
    assert_eq!(t.warnings, vec![s("Graph truncated at 500 nodes for performance")]);
    assert!(!t.max_depth_reached);
    // A package is warned of once, and not at all where a warning mentions its name already.
    let packages = vec![
        package("a", None, None, &["missing-lib", "missing", "lib"], &[], &[], &[]),
    ];
    let t = get_dependency_tree(&packages, "a", 2, "forward").unwrap();
    assert_eq!(t.warnings, vec![s("Package 'missing-lib' not found in databases")]);
    assert_eq!(t.nodes.len(), 4);
}
