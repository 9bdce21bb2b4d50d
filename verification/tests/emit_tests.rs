use bundler_core::emit::{plan_emission, strip_query_exec, CompilationAsset};

fn asset(content: &str, version: &str) -> CompilationAsset {
    CompilationAsset::new(Some(String::from(content)), String::from(version))
}

#[test]
fn first_build_writes_everything_and_records_versions() {
    let table: Vec<(String, String)> = Vec::new();
    let assets = vec![(String::from("main.js"), asset("code", "v1"))];
    let plan = plan_emission(false, &table, &assets);
    assert!(!plan.remove_entire_output);
    assert_eq!(plan.removals.len(), 0);
    assert_eq!(plan.writes, vec![(String::from("main.js"), String::from("code"))]);
    assert_eq!(plan.new_versions, vec![(String::from("main.js"), String::from("v1"))]);
}

#[test]
fn unchanged_version_skips_the_write() {
    let table = vec![(String::from("main.js"), String::from("v1"))];
    let assets = vec![(String::from("main.js"), asset("code", "v1"))];
    let plan = plan_emission(false, &table, &assets);
    assert_eq!(plan.writes.len(), 0);
    assert_eq!(plan.new_versions, vec![(String::from("main.js"), String::from("v1"))]);
}

#[test]
fn changed_version_writes_exactly_once_and_updates_the_table() {
    let table = vec![(String::from("main.js"), String::from("v1"))];
    let assets = vec![(String::from("main.js"), asset("new code", "v2"))];
    let plan = plan_emission(false, &table, &assets);
    assert_eq!(plan.writes, vec![(String::from("main.js"), String::from("new code"))]);
    assert_eq!(plan.new_versions, vec![(String::from("main.js"), String::from("v2"))]);
}

#[test]
fn empty_recorded_version_forces_the_write() {
    let table = vec![(String::from("main.js"), String::new())];
    let assets = vec![(String::from("main.js"), asset("code", ""))];
    let plan = plan_emission(false, &table, &assets);
    assert_eq!(plan.writes.len(), 1);
}

#[test]
fn asset_without_source_is_never_written() {
    let table: Vec<(String, String)> = Vec::new();
    let assets = vec![(
        String::from("ghost.js"),
        CompilationAsset::new(None, String::from("v1")),
    )];
    let plan = plan_emission(false, &table, &assets);
    assert_eq!(plan.writes.len(), 0);
    // the version is still recorded
    assert_eq!(plan.new_versions.len(), 1);
}

#[test]
fn clean_without_baseline_removes_the_entire_output() {
    let table: Vec<(String, String)> = Vec::new();
    let assets = vec![(String::from("main.js"), asset("code", "v1"))];
    let plan = plan_emission(true, &table, &assets);
    assert!(plan.remove_entire_output);
    assert_eq!(plan.removals.len(), 0);
}

#[test]
fn clean_with_baseline_removes_only_stale_files() {
    let table = vec![
        (String::from("kept.js"), String::from("v1")),
        (String::from("stale.js"), String::from("v1")),
    ];
    let assets = vec![(String::from("kept.js"), asset("code", "v2"))];
    let plan = plan_emission(true, &table, &assets);
    assert!(!plan.remove_entire_output);
    assert_eq!(plan.removals, vec![String::from("stale.js")]);
}

#[test]
fn baseline_always_records_every_assets_version() {
    // even a fully skipped emission carries the versions forward
    let table = vec![
        (String::from("a.js"), String::from("v1")),
        (String::from("b.js"), String::from("v2")),
    ];
    let assets = vec![
        (String::from("a.js"), asset("a", "v1")),
        (String::from("b.js"), asset("b", "v2")),
    ];
    let plan = plan_emission(false, &table, &assets);
    assert_eq!(plan.writes.len(), 0);
    assert_eq!(
        plan.new_versions,
        vec![
            (String::from("a.js"), String::from("v1")),
            (String::from("b.js"), String::from("v2")),
        ]
    );
}

#[test]
fn query_part_is_stripped_from_the_target_filename() {
    assert_eq!(strip_query_exec(&String::from("app.js?v=1")), "app.js");
    assert_eq!(strip_query_exec(&String::from("app.js")), "app.js");
    assert_eq!(strip_query_exec(&String::from("?x")), "");
    let table: Vec<(String, String)> = Vec::new();
    let assets = vec![(String::from("a.js?h"), asset("code", "v1"))];
    let plan = plan_emission(false, &table, &assets);
    assert_eq!(plan.writes, vec![(String::from("a.js"), String::from("code"))]);
    // the version table keeps the full asset name
    assert_eq!(plan.new_versions, vec![(String::from("a.js?h"), String::from("v1"))]);
}
