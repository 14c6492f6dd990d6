use cargo_guppy::errors::Error;
use cargo_guppy::graph::edge::{kind_str, DependencyEdge};
use cargo_guppy::metadata::{Dependency, DependencyKind, PackageId};
use semver::VersionReq;

fn dep(req: &str, kind: DependencyKind, target: Option<&str>) -> Dependency {
    Dependency {
        name: "dep".to_string(),
        rename: None,
        req: VersionReq::parse(req).unwrap(),
        kind,
        optional: false,
        uses_default_features: true,
        features: vec![],
        target: target.map(|t| t.to_string()),
    }
}

fn assemble(deps: &[Dependency]) -> Result<DependencyEdge, Error> {
    let refs: Vec<&Dependency> = deps.iter().collect();
    DependencyEdge::new(&PackageId::new("from"), "dep", "dep", &refs)
}

#[test]
fn kind_names() {
    assert_eq!(kind_str(DependencyKind::Normal), "normal");
    assert_eq!(kind_str(DependencyKind::Build), "build");
    assert_eq!(kind_str(DependencyKind::Development), "dev");
    assert_eq!(kind_str(DependencyKind::Unknown), "unknown");
}

#[test]
fn each_kind_fills_its_own_slot() {
    let edge = assemble(&[
        dep("^1", DependencyKind::Development, None),
        dep("^2", DependencyKind::Normal, None),
        dep("^3", DependencyKind::Build, None),
    ])
    .unwrap();
    assert_eq!(edge.normal().unwrap().req().to_string(), "^2");
    assert_eq!(edge.build().unwrap().req().to_string(), "^3");
    assert_eq!(edge.dev().unwrap().req().to_string(), "^1");
    assert_eq!(edge.dep_name(), "dep");
    assert_eq!(edge.resolved_name(), "dep");
}

#[test]
fn no_requirement_gives_an_edge_without_slots() {
    let edge = assemble(&[]).unwrap();
    assert!(edge.normal().is_none());
    assert!(edge.build().is_none());
    assert!(edge.dev().is_none());
}

#[test]
fn unknown_kind_is_passed_over() {
    let edge = assemble(&[
        dep("^1", DependencyKind::Unknown, None),
        dep("^2", DependencyKind::Unknown, None),
        dep("^3", DependencyKind::Normal, None),
    ])
    .unwrap();
    assert_eq!(edge.normal().unwrap().req().to_string(), "^3");
    assert!(edge.build().is_none());
}

#[test]
fn later_unconditional_requirement_replaces_a_gated_one() {
    let edge = assemble(&[
        dep("^1", DependencyKind::Normal, Some("cfg(unix)")),
        dep("^2", DependencyKind::Normal, Some("cfg(windows)")),
        dep("^3", DependencyKind::Normal, None),
        dep("^4", DependencyKind::Normal, Some("cfg(target_os = \"macos\")")),
    ])
    .unwrap();
    let normal = edge.normal().unwrap();
    assert_eq!(normal.req().to_string(), "^3");
    assert_eq!(normal.target(), None);
}

#[test]
fn second_unconditional_requirement_is_a_duplicate() {
    let result = assemble(&[
        dep("^1", DependencyKind::Development, None),
        dep("^2", DependencyKind::Normal, None),
        dep("^3", DependencyKind::Development, Some("cfg(unix)")),
        dep("^4", DependencyKind::Development, None),
        dep("^5", DependencyKind::Normal, None),
    ]);
    match result {
        Err(Error::DuplicateDependency { from, name, kind }) => {
            assert_eq!(from, PackageId::new("from"));
            assert_eq!(name, "dep");
            assert_eq!(kind, DependencyKind::Development);
        }
        other => panic!("unexpected result {:?}", other),
    }
}

#[test]
fn unconditional_requirements_of_different_kinds_do_not_collide() {
    let edge = assemble(&[
        dep("^1", DependencyKind::Normal, None),
        dep("^2", DependencyKind::Build, None),
    ])
    .unwrap();
    assert_eq!(edge.normal().unwrap().req().to_string(), "^1");
    assert_eq!(edge.build().unwrap().req().to_string(), "^2");
}
