//! The toggle engine on real configuration texts.

use customs::knobs::{
    build_config_state, disable_cranelift, disable_mold, disable_o3, disable_parallel,
    enable_cranelift, enable_mold, enable_o3, enable_parallel, manifest_opt_levels, ToggleOutcome,
};
use customs::RunError;

const MANIFEST_DISABLED: &str = "\
[package]
name = \"demo\"
version = \"0.1.0\"

# keep debug builds debuggable
[profile.dev]
opt-level = 0

[profile.dev.package.\"*\"]
opt-level = 0
";

const CONFIG_TEMPLATE: &str = "\
[build]
# tools for faster linking
#linker = \"clang\"
#rustflags = [\"-C\", \"link-arg=-fuse-ld=/usr/bin/mold\"]

[profile.server-dev]
inherits = \"dev\"
";

fn updated(r: Result<ToggleOutcome, RunError>) -> String {
    match r {
        Ok(ToggleOutcome::Updated(t)) => t,
        Ok(ToggleOutcome::AlreadyApplied) => panic!("expected a rewrite, knob was a no-op"),
        Err(e) => panic!("expected a rewrite, got {:?}", e),
    }
}

fn already_applied(r: Result<ToggleOutcome, RunError>) {
    match r {
        Ok(ToggleOutcome::AlreadyApplied) => (),
        Ok(ToggleOutcome::Updated(_)) => panic!("expected a no-op, knob rewrote the file"),
        Err(e) => panic!("expected a no-op, got {:?}", e),
    }
}

#[test]
fn o3_scenario_enable_then_disable() {
    let enabled = updated(enable_o3(MANIFEST_DISABLED));
    assert_eq!(manifest_opt_levels(&enabled), Ok((Some(1), Some(3))));
    let disabled = updated(disable_o3(&enabled));
    assert_eq!(manifest_opt_levels(&disabled), Ok((Some(0), Some(0))));
}

#[test]
fn o3_enable_is_idempotent() {
    let once = updated(enable_o3(MANIFEST_DISABLED));
    already_applied(enable_o3(&once));
    already_applied(enable_o3(&once));
}

#[test]
fn o3_disable_is_idempotent() {
    already_applied(disable_o3(MANIFEST_DISABLED));
}

#[test]
fn o3_round_trip_restores_tree() {
    let enabled = updated(enable_o3(MANIFEST_DISABLED));
    let restored = updated(disable_o3(&enabled));
    let before: toml_edit::DocumentMut = MANIFEST_DISABLED.parse().unwrap();
    let after: toml_edit::DocumentMut = restored.parse().unwrap();
    assert_eq!(
        before["profile"]["dev"]["opt-level"].as_integer(),
        after["profile"]["dev"]["opt-level"].as_integer()
    );
    assert_eq!(
        before["profile"]["dev"]["package"]["*"]["opt-level"].as_integer(),
        after["profile"]["dev"]["package"]["*"]["opt-level"].as_integer()
    );
    assert_eq!(
        before["package"]["name"].as_str(),
        after["package"]["name"].as_str()
    );
}

#[test]
fn o3_enable_creates_missing_sections() {
    let bare = "[package]\nname = \"demo\"\n";
    let enabled = updated(enable_o3(bare));
    assert_eq!(manifest_opt_levels(&enabled), Ok((Some(1), Some(3))));
}

#[test]
fn o3_preserves_unrelated_manifest_content() {
    let enabled = updated(enable_o3(MANIFEST_DISABLED));
    let doc: toml_edit::DocumentMut = enabled.parse().unwrap();
    assert_eq!(doc["package"]["name"].as_str(), Some("demo"));
    assert_eq!(doc["package"]["version"].as_str(), Some("0.1.0"));
    assert!(enabled.contains("# keep debug builds debuggable"));
}

#[test]
fn malformed_manifest_is_rejected() {
    assert!(matches!(enable_o3("profile = = broken"), Err(RunError::MalformedConfig)));
    assert!(matches!(disable_o3("[unclosed"), Err(RunError::MalformedConfig)));
    assert!(matches!(enable_cranelift("= nope"), Err(RunError::MalformedConfig)));
    assert!(matches!(disable_parallel("= nope"), Err(RunError::MalformedConfig)));
}

#[test]
fn blocked_profile_key_is_rejected() {
    let blocked = "profile = \"not a section\"\n";
    assert!(matches!(enable_o3(blocked), Err(RunError::MalformedConfig)));
    assert!(matches!(enable_cranelift(blocked), Err(RunError::MalformedConfig)));
    let blocked_build = "build = 3\n";
    assert!(matches!(enable_parallel(blocked_build), Err(RunError::MalformedConfig)));
}

#[test]
fn cranelift_enable_then_disable() {
    let enabled = updated(enable_cranelift(CONFIG_TEMPLATE));
    assert_eq!(build_config_state(&enabled), Ok((true, false)));
    let doc: toml_edit::DocumentMut = enabled.parse().unwrap();
    assert_eq!(
        doc["profile"]["server-dev"]["codegen-backend"].as_str(),
        Some("cranelift")
    );
    let disabled = updated(disable_cranelift(&enabled));
    assert_eq!(build_config_state(&disabled), Ok((false, false)));
}

#[test]
fn cranelift_toggles_are_idempotent() {
    let enabled = updated(enable_cranelift(CONFIG_TEMPLATE));
    already_applied(enable_cranelift(&enabled));
    already_applied(disable_cranelift(CONFIG_TEMPLATE));
}

#[test]
fn cranelift_round_trip_restores_bytes() {
    let enabled = updated(enable_cranelift(CONFIG_TEMPLATE));
    let restored = updated(disable_cranelift(&enabled));
    assert_eq!(restored, CONFIG_TEMPLATE);
}

#[test]
fn parallel_enable_then_disable() {
    let enabled = updated(enable_parallel(CONFIG_TEMPLATE));
    assert_eq!(build_config_state(&enabled), Ok((false, true)));
    let doc: toml_edit::DocumentMut = enabled.parse().unwrap();
    let flags: Vec<&str> = doc["build"]["rustflags"]
        .as_array()
        .unwrap()
        .iter()
        .map(|v| v.as_str().unwrap())
        .collect();
    assert_eq!(flags, vec!["-Z", "threads=8"]);
    let disabled = updated(disable_parallel(&enabled));
    assert_eq!(build_config_state(&disabled), Ok((false, false)));
}

#[test]
fn parallel_toggles_are_idempotent() {
    let enabled = updated(enable_parallel(CONFIG_TEMPLATE));
    already_applied(enable_parallel(&enabled));
    already_applied(disable_parallel(CONFIG_TEMPLATE));
}

#[test]
fn parallel_round_trip_restores_bytes() {
    let enabled = updated(enable_parallel(CONFIG_TEMPLATE));
    let restored = updated(disable_parallel(&enabled));
    assert_eq!(restored, CONFIG_TEMPLATE);
}

#[test]
fn mold_enable_uncomments_template_lines() {
    let enabled = updated(enable_mold(CONFIG_TEMPLATE));
    assert!(enabled.contains("\nlinker = \"clang\""));
    assert!(enabled.contains("\nrustflags = [\"-C\", \"link-arg=-fuse-ld=/usr/bin/mold\"]"));
    assert!(!enabled.contains("#linker"));
}

#[test]
fn mold_enable_is_idempotent() {
    let once = updated(enable_mold(CONFIG_TEMPLATE));
    already_applied(enable_mold(&once));
}

#[test]
fn mold_disable_is_idempotent() {
    already_applied(disable_mold(CONFIG_TEMPLATE));
    let enabled = updated(enable_mold(CONFIG_TEMPLATE));
    let once = updated(disable_mold(&enabled));
    already_applied(disable_mold(&once));
}

#[test]
fn mold_round_trip_restores_bytes() {
    let enabled = updated(enable_mold(CONFIG_TEMPLATE));
    let restored = updated(disable_mold(&enabled));
    assert_eq!(restored, CONFIG_TEMPLATE);
}

#[test]
fn disabling_may_drop_sections_left_without_values() {
    // the backend key here is itself an empty section header; removing
    // it leaves its never-spelled-out parents without any value, and the
    // writer drops such sections on rendering
    let odd = "[profile.server-dev.codegen-backend]\n";
    let disabled = updated(disable_cranelift(odd));
    assert_eq!(build_config_state(&disabled), Ok((false, false)));
    let doc: toml_edit::DocumentMut = disabled.parse().unwrap();
    assert!(!doc.contains_key("profile"));
}

#[test]
fn values_survive_every_rewrite() {
    // a value keeps its section alive even when the section was never
    // spelled out as its own header
    let cfg = "[profile.server-dev]\ninherits = \"dev\"\n";
    let enabled = updated(enable_cranelift(cfg));
    let disabled = updated(disable_cranelift(&enabled));
    let doc: toml_edit::DocumentMut = disabled.parse().unwrap();
    assert_eq!(doc["profile"]["server-dev"]["inherits"].as_str(), Some("dev"));
}

#[test]
fn cranelift_leaves_parallel_section_alone() {
    let with_flags = updated(enable_parallel(CONFIG_TEMPLATE));
    let both = updated(enable_cranelift(&with_flags));
    let doc: toml_edit::DocumentMut = both.parse().unwrap();
    let flags: Vec<&str> = doc["build"]["rustflags"]
        .as_array()
        .unwrap()
        .iter()
        .map(|v| v.as_str().unwrap())
        .collect();
    assert_eq!(flags, vec!["-Z", "threads=8"]);
    let without_cranelift = updated(disable_cranelift(&both));
    assert_eq!(build_config_state(&without_cranelift), Ok((false, true)));
}

#[test]
fn parallel_leaves_cranelift_section_alone() {
    let with_backend = updated(enable_cranelift(CONFIG_TEMPLATE));
    let both = updated(enable_parallel(&with_backend));
    let doc: toml_edit::DocumentMut = both.parse().unwrap();
    assert_eq!(
        doc["profile"]["server-dev"]["codegen-backend"].as_str(),
        Some("cranelift")
    );
    let without_parallel = updated(disable_parallel(&both));
    assert_eq!(build_config_state(&without_parallel), Ok((true, false)));
}

#[test]
fn o3_only_touches_the_manifest_profile_section() {
    // the other knobs' file is untouched by construction: the
    // dependency-optimization toggles take and return the manifest text
    // alone, so the build configuration cannot change.
    let enabled = updated(enable_o3(MANIFEST_DISABLED));
    let doc: toml_edit::DocumentMut = enabled.parse().unwrap();
    assert_eq!(doc["package"]["name"].as_str(), Some("demo"));
}
