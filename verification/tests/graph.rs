use cargo_guppy::errors::{mismatch_message, Error};
use cargo_guppy::graph::{version_verdict, PackageGraph};
use cargo_guppy::metadata::{
    Dependency, DependencyKind, Metadata, Node, NodeDep, Package, PackageId, Resolve,
};
use semver::{Version, VersionReq};

fn id(text: &str) -> PackageId {
    PackageId::new(text)
}

fn dependency(name: &str, rename: Option<&str>, req: &str, kind: DependencyKind) -> Dependency {
    Dependency {
        name: name.to_string(),
        rename: rename.map(|r| r.to_string()),
        req: VersionReq::parse(req).unwrap(),
        kind,
        optional: false,
        uses_default_features: true,
        features: vec![],
        target: None,
    }
}

fn gated(mut dep: Dependency, target: &str) -> Dependency {
    dep.target = Some(target.to_string());
    dep
}

fn package(pid: &str, name: &str, version: &str, dependencies: Vec<Dependency>) -> Package {
    Package {
        id: id(pid),
        name: name.to_string(),
        version: Version::parse(version).unwrap(),
        authors: vec!["someone".to_string()],
        description: Some(format!("the package {}", name)),
        license: None,
        dependencies,
    }
}

fn node(pid: &str, deps: Vec<(&str, &str)>) -> Node {
    Node {
        id: id(pid),
        deps: deps
            .into_iter()
            .map(|(name, pkg)| NodeDep { name: name.to_string(), pkg: id(pkg) })
            .collect(),
        features: vec![],
    }
}

fn scenario(b_version: &str) -> Metadata {
    Metadata {
        packages: vec![
            package(
                "a 1.0.0",
                "a",
                "1.0.0",
                vec![
                    dependency("b", None, "^1.0", DependencyKind::Normal),
                    dependency("c-orig", Some("c_renamed"), "^0.5", DependencyKind::Build),
                ],
            ),
            package("b", "b", b_version, vec![]),
            package("c 0.5.0", "c-orig", "0.5.0", vec![]),
        ],
        resolve: Some(Resolve {
            nodes: vec![
                node("a 1.0.0", vec![("b", "b"), ("c_renamed", "c 0.5.0")]),
                node("b", vec![]),
                node("c 0.5.0", vec![]),
            ],
        }),
        workspace_members: vec![id("a 1.0.0")],
    }
}

#[test]
fn builds_the_edges_of_a_renamed_build_dependency() {
    let graph = PackageGraph::new(scenario("1.2.0")).unwrap();
    let deps = graph.deps(&id("a 1.0.0"));
    assert_eq!(deps.len(), 2);

    let to_b: Vec<_> = deps.iter().filter(|d| d.to.name() == "b").collect();
    assert_eq!(to_b.len(), 1);
    assert_eq!(to_b[0].from.name(), "a");
    assert_eq!(to_b[0].edge.normal().unwrap().req().to_string(), "^1.0");
    assert!(to_b[0].edge.build().is_none());
    assert!(to_b[0].edge.dev().is_none());
    assert_eq!(to_b[0].edge.dep_name(), "b");
    assert_eq!(to_b[0].edge.resolved_name(), "b");

    let to_c: Vec<_> = deps.iter().filter(|d| d.to.name() == "c-orig").collect();
    assert_eq!(to_c.len(), 1);
    assert_eq!(to_c[0].edge.build().unwrap().req().to_string(), "^0.5");
    assert_eq!(to_c[0].edge.dep_name(), "c_renamed");
    assert_eq!(to_c[0].edge.resolved_name(), "c_renamed");
    assert!(to_c[0].edge.normal().is_none());
    assert!(to_c[0].edge.dev().is_none());

    assert!(graph.verify().is_ok());
}

#[test]
fn verification_reports_a_version_that_violates_its_requirement() {
    let graph = PackageGraph::new(scenario("0.9.0")).unwrap();
    match graph.verify() {
        Err(Error::VersionMismatch { from, to, kind, version, req }) => {
            assert_eq!(from, id("a 1.0.0"));
            assert_eq!(to, id("b"));
            assert_eq!(kind, DependencyKind::Normal);
            assert_eq!(version, Version::parse("0.9.0").unwrap());
            assert_eq!(req, VersionReq::parse("^1.0").unwrap());
        }
        other => panic!("expected a version mismatch, got {:?}", other),
    }
}

#[test]
fn gated_requirement_gives_way_to_the_unconditional_one() {
    let mut metadata = scenario("1.2.0");
    metadata.packages[0].dependencies = vec![
        gated(dependency("b", None, "^1.1", DependencyKind::Normal), "cfg(unix)"),
        dependency("b", None, "^1.0", DependencyKind::Normal),
        dependency("c-orig", Some("c_renamed"), "^0.5", DependencyKind::Build),
    ];
    let graph = PackageGraph::new(metadata).unwrap();
    let deps = graph.deps(&id("a 1.0.0"));
    let to_b: Vec<_> = deps.iter().filter(|d| d.to.name() == "b").collect();
    let normal = to_b[0].edge.normal().unwrap();
    assert_eq!(normal.req().to_string(), "^1.0");
    assert_eq!(normal.target(), None);
}

#[test]
fn two_unconditional_requirements_of_one_kind_fail() {
    let mut metadata = scenario("1.2.0");
    metadata.packages[0].dependencies = vec![
        dependency("b", None, "^1.1", DependencyKind::Normal),
        dependency("b", None, "^1.0", DependencyKind::Normal),
    ];
    match PackageGraph::new(metadata) {
        Err(Error::DuplicateDependency { from, name, kind }) => {
            assert_eq!(from, id("a 1.0.0"));
            assert_eq!(name, "b");
            assert_eq!(kind, DependencyKind::Normal);
        }
        other => panic!("expected a duplicate dependency, got {:?}", other.map(|_| ())),
    }
}

fn simple(packages: Vec<Package>, nodes: Vec<Node>, members: Vec<&str>) -> Metadata {
    Metadata {
        packages,
        resolve: Some(Resolve { nodes }),
        workspace_members: members.into_iter().map(id).collect(),
    }
}

fn build_error(metadata: Metadata) -> Error {
    match PackageGraph::new(metadata) {
        Ok(_) => panic!("construction should have failed"),
        Err(e) => e,
    }
}

#[test]
fn rename_with_dashes_resolves_with_underscores() {
    let metadata = simple(
        vec![
            package(
                "a",
                "a",
                "1.0.0",
                vec![dependency("real-name", Some("new-name"), "^2", DependencyKind::Normal)],
            ),
            package("r", "real-name", "2.3.4", vec![]),
        ],
        vec![node("a", vec![("new_name", "r")]), node("r", vec![])],
        vec![],
    );
    let graph = PackageGraph::new(metadata).unwrap();
    let deps = graph.deps(&id("a"));
    assert_eq!(deps.len(), 1);
    assert_eq!(deps[0].edge.dep_name(), "new-name");
    assert_eq!(deps[0].edge.resolved_name(), "new_name");
    assert_eq!(deps[0].to.name(), "real-name");
    assert!(graph.verify().is_ok());
}

#[test]
fn rename_equal_to_the_name_is_no_rename() {
    let metadata = simple(
        vec![
            package(
                "a",
                "a",
                "1.0.0",
                vec![
                    dependency("datatest", None, "^0.4", DependencyKind::Normal),
                    dependency("datatest", Some("datatest"), "^0.4.2", DependencyKind::Build),
                ],
            ),
            package("d", "datatest", "0.4.2", vec![]),
        ],
        vec![node("a", vec![("datatest", "d")]), node("d", vec![])],
        vec![],
    );
    let graph = PackageGraph::new(metadata).unwrap();
    let deps = graph.deps(&id("a"));
    assert_eq!(deps.len(), 1);
    assert_eq!(deps[0].edge.normal().unwrap().req().to_string(), "^0.4");
    assert_eq!(deps[0].edge.build().unwrap().req().to_string(), "^0.4.2");
    assert!(deps[0].edge.dev().is_none());
}

#[test]
fn of_two_gated_requirements_the_first_is_kept() {
    let metadata = simple(
        vec![
            package(
                "a",
                "a",
                "1.0.0",
                vec![
                    gated(dependency("b", None, "^1.1", DependencyKind::Development), "cfg(unix)"),
                    gated(dependency("b", None, "^1.2", DependencyKind::Development), "cfg(windows)"),
                ],
            ),
            package("b", "b", "1.5.0", vec![]),
        ],
        vec![node("a", vec![("b", "b")]), node("b", vec![])],
        vec![],
    );
    let graph = PackageGraph::new(metadata).unwrap();
    let deps = graph.deps(&id("a"));
    let dev = deps[0].edge.dev().unwrap();
    assert_eq!(dev.req().to_string(), "^1.1");
    assert_eq!(dev.target(), Some("cfg(unix)"));
    assert!(deps[0].edge.normal().is_none());
}

#[test]
fn unconditional_requirement_ahead_of_a_gated_one_stays() {
    let metadata = simple(
        vec![
            package(
                "a",
                "a",
                "1.0.0",
                vec![
                    dependency("b", None, "^1.0", DependencyKind::Normal),
                    gated(dependency("b", None, "^1.1", DependencyKind::Normal), "cfg(unix)"),
                ],
            ),
            package("b", "b", "1.5.0", vec![]),
        ],
        vec![node("a", vec![("b", "b")]), node("b", vec![])],
        vec![],
    );
    let graph = PackageGraph::new(metadata).unwrap();
    let deps = graph.deps(&id("a"));
    assert_eq!(deps[0].edge.normal().unwrap().req().to_string(), "^1.0");
}

#[test]
fn slot_keeps_every_field_of_the_requirement() {
    let mut dep = dependency("b", None, ">=1.0, <2.0", DependencyKind::Normal);
    dep.optional = true;
    dep.uses_default_features = false;
    dep.features = vec!["x".to_string(), "y".to_string()];
    dep.target = Some("cfg(target_os = \"linux\")".to_string());
    let metadata = simple(
        vec![package("a", "a", "1.0.0", vec![dep]), package("b", "b", "1.5.0", vec![])],
        vec![node("a", vec![("b", "b")]), node("b", vec![])],
        vec![],
    );
    let graph = PackageGraph::new(metadata).unwrap();
    let deps = graph.deps(&id("a"));
    let slot = deps[0].edge.normal().unwrap();
    assert_eq!(slot.req().to_string(), ">=1.0, <2.0");
    assert!(slot.optional());
    assert!(!slot.uses_default_features());
    assert_eq!(slot.features().to_vec(), vec!["x".to_string(), "y".to_string()]);
    assert_eq!(slot.target(), Some("cfg(target_os = \"linux\")"));
}

#[test]
fn missing_resolve_section_is_an_error() {
    let mut metadata = scenario("1.2.0");
    metadata.resolve = None;
    let e = build_error(metadata);
    assert!(matches!(e, Error::NoResolve));
    assert!(!e.is_internal());
    assert_eq!(e.message(), "no 'resolve' entries found: ensure you don't have no_deps set");
}

#[test]
fn package_without_resolved_data_is_an_error() {
    let metadata = simple(
        vec![package("a", "a", "1.0.0", vec![]), package("b", "b", "1.0.0", vec![])],
        vec![node("a", vec![])],
        vec![],
    );
    let e = build_error(metadata);
    match &e {
        Error::MissingResolveData { package } => assert_eq!(*package, id("b")),
        other => panic!("unexpected error {:?}", other),
    }
    assert_eq!(e.message(), "no resolved dependency data found for package 'b'");
}

#[test]
fn package_listed_twice_is_an_error() {
    let metadata = simple(
        vec![package("a", "a", "1.0.0", vec![]), package("a", "a", "1.0.0", vec![])],
        vec![node("a", vec![])],
        vec![],
    );
    match build_error(metadata) {
        Error::MissingResolveData { package } => assert_eq!(package, id("a")),
        other => panic!("unexpected error {:?}", other),
    }
}

#[test]
fn resolved_dependency_without_package_data_is_an_error() {
    let metadata = simple(
        vec![package("a", "a", "1.0.0", vec![dependency("b", None, "^1", DependencyKind::Normal)])],
        vec![node("a", vec![("b", "b 1.0.0")])],
        vec![],
    );
    let e = build_error(metadata);
    match &e {
        Error::MissingDependencyData { from, dependency } => {
            assert_eq!(*from, id("a"));
            assert_eq!(*dependency, id("b 1.0.0"));
        }
        other => panic!("unexpected error {:?}", other),
    }
    assert_eq!(e.message(), "a: no package data found for dependency 'b 1.0.0'");
}

#[test]
fn renamed_dependency_without_package_data_is_an_error() {
    let metadata = simple(
        vec![package(
            "a",
            "a",
            "1.0.0",
            vec![dependency("b", Some("bee"), "^1", DependencyKind::Normal)],
        )],
        vec![node("a", vec![("bee", "gone")])],
        vec![],
    );
    let e = build_error(metadata);
    match &e {
        Error::MissingPackageData { package } => assert_eq!(*package, id("gone")),
        other => panic!("unexpected error {:?}", other),
    }
    assert_eq!(e.message(), "no package data found for package 'gone'");
}

#[test]
fn resolved_dependency_that_nothing_declares_is_an_error() {
    let metadata = simple(
        vec![package("a", "a", "1.0.0", vec![]), package("b", "b", "1.0.0", vec![])],
        vec![node("a", vec![("b", "b")]), node("b", vec![])],
        vec![],
    );
    let e = build_error(metadata);
    match &e {
        Error::MissingDependencyInfo { from, name, dependency } => {
            assert_eq!(*from, id("a"));
            assert_eq!(name, "b");
            assert_eq!(*dependency, id("b"));
        }
        other => panic!("unexpected error {:?}", other),
    }
    assert_eq!(e.message(), "a: no dependency information found for 'b', package ID 'b'");
}

#[test]
fn duplicate_dependency_message_names_the_kind() {
    let metadata = simple(
        vec![
            package(
                "a",
                "a",
                "1.0.0",
                vec![
                    dependency("b", None, "^1.1", DependencyKind::Build),
                    dependency("b", None, "^1.0", DependencyKind::Build),
                ],
            ),
            package("b", "b", "1.5.0", vec![]),
        ],
        vec![node("a", vec![("b", "b")]), node("b", vec![])],
        vec![],
    );
    let e = build_error(metadata);
    assert_eq!(e.message(), "a: duplicate dependencies found for 'b' (kind: build)");
}

#[test]
fn edge_of_unknown_kind_only_fails_verification() {
    let metadata = simple(
        vec![
            package("a", "a", "1.0.0", vec![dependency("b", None, "^1", DependencyKind::Unknown)]),
            package("b", "b", "1.0.0", vec![]),
        ],
        vec![node("a", vec![("b", "b")]), node("b", vec![])],
        vec![],
    );
    let graph = PackageGraph::new(metadata).unwrap();
    let deps = graph.deps(&id("a"));
    assert_eq!(deps.len(), 1);
    assert!(deps[0].edge.normal().is_none());
    assert!(deps[0].edge.build().is_none());
    assert!(deps[0].edge.dev().is_none());
    let e = graph.verify().unwrap_err();
    match &e {
        Error::MissingEdgeInfo { from, to } => {
            assert_eq!(*from, id("a"));
            assert_eq!(*to, id("b"));
        }
        other => panic!("unexpected error {:?}", other),
    }
    assert!(e.is_internal());
    assert_eq!(e.message(), "a -> b: no edge info found");
}

#[test]
fn version_mismatch_message_shows_version_and_requirement() {
    let graph = PackageGraph::new(scenario("0.9.0")).unwrap();
    let e = graph.verify().unwrap_err();
    assert!(e.is_internal());
    assert_eq!(
        e.message(),
        "a 1.0.0 -> b (normal): version (0.9.0) doesn't match requirement (^1.0)"
    );
}

fn diamond() -> Metadata {
    simple(
        vec![
            package(
                "top",
                "top",
                "1.0.0",
                vec![
                    dependency("left", None, "^1", DependencyKind::Normal),
                    dependency("right", None, "^1", DependencyKind::Normal),
                ],
            ),
            package("left", "left", "1.0.0", vec![dependency("base", None, "^1", DependencyKind::Normal)]),
            package("right", "right", "1.0.0", vec![dependency("base", None, "^1", DependencyKind::Development)]),
            package("base", "base", "1.0.0", vec![]),
        ],
        vec![
            node("top", vec![("left", "left"), ("right", "right")]),
            node("left", vec![("base", "base")]),
            node("right", vec![("base", "base")]),
            node("base", vec![]),
        ],
        vec!["top", "left", "top"],
    )
}

#[test]
fn dependencies_come_most_recently_added_first() {
    let graph = PackageGraph::new(diamond()).unwrap();
    let deps = graph.deps(&id("top"));
    let names: Vec<&str> = deps.iter().map(|d| d.to.name()).collect();
    assert_eq!(names, vec!["right", "left"]);
    let back = graph.reverse_deps(&id("base"));
    let names: Vec<&str> = back.iter().map(|d| d.from.name()).collect();
    assert_eq!(names, vec!["right", "left"]);
    assert!(graph.verify().is_ok());
}

#[test]
fn every_dependency_is_a_reverse_dependency_of_its_target() {
    let graph = PackageGraph::new(diamond()).unwrap();
    let mut forward = 0;
    for pid in graph.package_ids() {
        for dep in graph.deps(pid) {
            forward += 1;
            assert_eq!(dep.from.id(), pid);
            let back = graph.reverse_deps(dep.to.id());
            let found = back
                .iter()
                .filter(|b| {
                    b.from.id() == dep.from.id()
                        && b.to.id() == dep.to.id()
                        && std::ptr::eq(b.edge, dep.edge)
                })
                .count();
            assert_eq!(found, 1);
        }
    }
    let mut backward = 0;
    for pid in graph.package_ids() {
        for dep in graph.reverse_deps(pid) {
            backward += 1;
            assert_eq!(dep.to.id(), pid);
            let out = graph.deps(dep.from.id());
            assert!(out.iter().any(|o| std::ptr::eq(o.edge, dep.edge)));
        }
    }
    assert_eq!(forward, 4);
    assert_eq!(backward, 4);
}

#[test]
fn unknown_package_has_no_dependencies() {
    let graph = PackageGraph::new(diamond()).unwrap();
    assert!(graph.deps(&id("nowhere")).is_empty());
    assert!(graph.reverse_deps(&id("nowhere")).is_empty());
    assert!(graph.metadata(&id("nowhere")).is_none());
    assert!(graph.deps(&id("base")).is_empty());
    assert!(graph.reverse_deps(&id("top")).is_empty());
}

#[test]
fn workspace_members_are_sorted_and_named_once() {
    let graph = PackageGraph::new(diamond()).unwrap();
    let members: Vec<&str> = graph.workspace_members().iter().map(|m| m.repr.as_str()).collect();
    assert_eq!(members, vec!["left", "top"]);
    assert!(graph.in_workspace(&id("top")));
    assert!(graph.in_workspace(&id("left")));
    assert!(!graph.in_workspace(&id("right")));
    assert!(!graph.in_workspace(&id("nowhere")));
}

#[test]
fn workspace_members_sort_by_code_point() {
    let mut metadata = diamond();
    metadata.workspace_members = vec![id("b"), id("a-b"), id("a"), id("B"), id("ab"), id("a_b")];
    let graph = PackageGraph::new(metadata).unwrap();
    let members: Vec<&str> = graph.workspace_members().iter().map(|m| m.repr.as_str()).collect();
    assert_eq!(members, vec!["B", "a", "a-b", "a_b", "ab", "b"]);
}

#[test]
fn metadata_gives_what_the_snapshot_says() {
    let graph = PackageGraph::new(scenario("1.2.0")).unwrap();
    let c = graph.metadata(&id("c 0.5.0")).unwrap();
    assert_eq!(*c.id(), id("c 0.5.0"));
    assert_eq!(c.name(), "c-orig");
    assert_eq!(*c.version(), Version::parse("0.5.0").unwrap());
    assert_eq!(c.authors().to_vec(), vec!["someone".to_string()]);
    assert_eq!(c.description(), Some("the package c-orig"));
    assert_eq!(c.license(), None);
}

#[test]
fn packages_are_listed_by_handle() {
    let graph = PackageGraph::new(scenario("1.2.0")).unwrap();
    let ids: Vec<&str> = graph.package_ids().into_iter().map(|i| i.repr.as_str()).collect();
    assert_eq!(ids, vec!["a 1.0.0", "b", "c 0.5.0"]);
    let packages = graph.packages();
    assert_eq!(packages.len(), 3);
    for (pid, metadata) in packages {
        assert_eq!(metadata.id(), pid);
    }
}

#[test]
fn later_resolve_node_of_an_identifier_counts() {
    let metadata = simple(
        vec![
            package("a", "a", "1.0.0", vec![dependency("b", None, "^1", DependencyKind::Normal)]),
            package("b", "b", "1.0.0", vec![]),
        ],
        vec![node("a", vec![]), node("b", vec![]), node("a", vec![("b", "b")])],
        vec![],
    );
    let graph = PackageGraph::new(metadata).unwrap();
    assert_eq!(graph.deps(&id("a")).len(), 1);
}

#[test]
fn prerelease_version_must_be_asked_for() {
    let metadata = simple(
        vec![
            package("a", "a", "1.0.0", vec![dependency("b", None, "^1.0", DependencyKind::Normal)]),
            package("b", "b", "1.2.0-alpha.1", vec![]),
        ],
        vec![node("a", vec![("b", "b")]), node("b", vec![])],
        vec![],
    );
    let graph = PackageGraph::new(metadata).unwrap();
    assert!(matches!(graph.verify(), Err(Error::VersionMismatch { .. })));
}

#[test]
fn verdict_follows_what_the_version_check_said() {
    let graph = PackageGraph::new(scenario("1.2.0")).unwrap();
    let deps = graph.deps(&id("a 1.0.0"));
    let dep = deps.iter().find(|d| d.to.name() == "b").unwrap();
    let slot = dep.edge.normal().unwrap();
    assert!(version_verdict(dep.from, dep.to, slot, DependencyKind::Normal, true).is_ok());
    match version_verdict(dep.from, dep.to, slot, DependencyKind::Build, false) {
        Err(Error::VersionMismatch { from, to, kind, version, req }) => {
            assert_eq!(from, id("a 1.0.0"));
            assert_eq!(to, id("b"));
            assert_eq!(kind, DependencyKind::Build);
            assert_eq!(version, Version::parse("1.2.0").unwrap());
            assert_eq!(req, VersionReq::parse("^1.0").unwrap());
        }
        other => panic!("unexpected verdict {:?}", other),
    }
}

#[test]
fn mismatch_message_is_put_together_from_its_parts() {
    assert_eq!(
        mismatch_message(&id("x"), &id("y"), DependencyKind::Development, "1.0.0", ">=2"),
        "x -> y (dev): version (1.0.0) doesn't match requirement (>=2)"
    );
    assert_eq!(
        mismatch_message(&id(""), &id(""), DependencyKind::Unknown, "", ""),
        " ->  (unknown): version () doesn't match requirement ()"
    );
}
