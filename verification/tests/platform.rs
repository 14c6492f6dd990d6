use cargo_guppy::platform::{Platform, TargetFeatures};

#[test]
fn features_match_what_was_listed() {
    let features = TargetFeatures::features(&["sse2", "avx", "sse2"]);
    assert_eq!(features.matches("sse2"), Some(true));
    assert_eq!(features.matches("avx"), Some(true));
    assert_eq!(features.matches("avx2"), Some(false));
    assert_eq!(features.matches(""), Some(false));
}

#[test]
fn none_matches_nothing() {
    let features = TargetFeatures::none();
    assert_eq!(features.matches("sse2"), Some(false));
}

#[test]
fn unknown_features_give_no_answer() {
    assert_eq!(TargetFeatures::Unknown.matches("sse2"), None);
}

#[test]
fn platform_of_a_known_triple() {
    let platform =
        Platform::new("x86_64-unknown-linux-gnu", TargetFeatures::features(&["sse2"])).unwrap();
    assert_eq!(platform.triple(), "x86_64-unknown-linux-gnu");
    assert_eq!(platform.target_features().matches("sse2"), Some(true));
    assert_eq!(platform.target_features().matches("avx"), Some(false));
    assert!(!platform.has_flag("cargo_web"));
}

#[test]
fn platform_of_an_unknown_triple() {
    assert!(Platform::new("x86_64-unknown-linux-gnuu", TargetFeatures::Unknown).is_none());
    assert!(Platform::new("", TargetFeatures::none()).is_none());
}

#[test]
fn flags_accumulate() {
    let mut platform = Platform::new("aarch64-apple-darwin", TargetFeatures::Unknown).unwrap();
    platform.add_flags(&["cargo_web"]);
    platform.add_flags(&["foo", "bar"]);
    assert!(platform.has_flag("cargo_web"));
    assert!(platform.has_flag("foo"));
    assert!(platform.has_flag("bar"));
    assert!(!platform.has_flag("baz"));
    assert_eq!(platform.triple(), "aarch64-apple-darwin");
    assert_eq!(platform.target_features().matches("sse2"), None);
}

#[test]
fn platform_of_a_looked_up_target() {
    let info = cfg_expr::targets::get_builtin_target_by_triple("wasm32-unknown-unknown");
    assert!(info.is_some());
    let platform = Platform::of_target(info, TargetFeatures::none()).unwrap();
    assert_eq!(platform.triple(), "wasm32-unknown-unknown");
    assert!(!platform.has_flag("foo"));
    assert!(Platform::of_target(None, TargetFeatures::none()).is_none());
}
