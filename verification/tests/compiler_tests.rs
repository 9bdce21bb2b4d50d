use bundler_core::compiler::{
    next_phase, Compilation, Compiler, CompilerOptions, CompilerPhase,
};
use bundler_core::dependency::{DependencyCondition, ModuleGraphConnection};
use bundler_core::emit::CompilationAsset;
use bundler_core::runtime::{Chunk, RuntimeIdRuntimeModule};
use bundler_core::usage::{ExportInfo, ModuleGraph, SymbolRef, UsageState};
use bundler_core::BuildError;

fn options(tree_shaking: bool, side_effects: bool) -> CompilerOptions {
    CompilerOptions {
        tree_shaking,
        side_effects_optimization: side_effects,
        clean: false,
        output_path: String::from("dist"),
    }
}

#[test]
fn phases_run_in_their_strict_order() {
    let mut phase = CompilerPhase::BeforeCompile;
    let mut seen = vec![phase];
    while phase != CompilerPhase::Done {
        phase = next_phase(phase, true, true, true);
        seen.push(phase);
    }
    assert_eq!(
        seen,
        vec![
            CompilerPhase::BeforeCompile,
            CompilerPhase::ThisCompilation,
            CompilerPhase::CompilationHook,
            CompilerPhase::Make,
            CompilerPhase::FinishMake,
            CompilerPhase::OptimizeDependencies,
            CompilerPhase::Seal,
            CompilerPhase::AfterCompile,
            CompilerPhase::ShouldEmit,
            CompilerPhase::Emit,
            CompilerPhase::AfterEmit,
            CompilerPhase::Done,
        ]
    );
}

#[test]
fn tree_shaking_disabled_skips_dependency_optimization() {
    let next = next_phase(CompilerPhase::FinishMake, true, false, true);
    assert_eq!(next, CompilerPhase::Seal);
}

#[test]
fn should_emit_false_skips_emission() {
    let next = next_phase(CompilerPhase::ShouldEmit, true, true, false);
    assert_eq!(next, CompilerPhase::Done);
}

#[test]
fn a_failing_hook_aborts_the_build() {
    let next = next_phase(CompilerPhase::Make, false, true, true);
    assert_eq!(next, CompilerPhase::Aborted);
    // an aborted build stays aborted
    assert_eq!(next_phase(CompilerPhase::Aborted, true, true, true), CompilerPhase::Aborted);
}

fn two_module_graph() -> (ModuleGraph, usize, usize, usize) {
    let mut g = ModuleGraph::new();
    let a = g.add_module(String::from("a.js"));
    let b = g.add_module(String::from("b.js"));
    let b_x = g.add_export(b, ExportInfo::new(Some(String::from("x")), UsageState::Unused, None));
    g.add_connection(ModuleGraphConnection {
        from: a,
        to: b,
        condition: DependencyCondition::Active,
    });
    (g, a, b, b_x)
}

#[test]
fn without_tree_shaking_every_module_is_included() {
    let (g, _, _, _) = two_module_graph();
    // an unconnected third module
    let mut g = g;
    g.add_module(String::from("c.js"));
    let mut compiler = Compiler::new(options(false, false));
    compiler.build(g, vec![0], Vec::new(), Vec::new());
    assert_eq!(compiler.compilation.include_module_ids, vec![true, true, true]);
    assert_eq!(compiler.compilation.bailout_module_identifiers.len(), 0);
}

#[test]
fn side_effects_optimization_narrows_the_included_modules() {
    let (g, a, b, b_x) = two_module_graph();
    let mut g = g;
    let c = g.add_module(String::from("c.js"));
    let mut compiler = Compiler::new(options(true, true));
    let refs = vec![SymbolRef::Indirect { owner: a, export: b_x }];
    compiler.build(g, vec![a], refs, vec![true, true, true]);
    let inc = &compiler.compilation.include_module_ids;
    assert!(inc[a]);
    assert!(inc[b]);
    assert!(!inc[c]);
    assert_eq!(
        compiler.compilation.module_graph.export_info_map[b_x].usage,
        UsageState::Used
    );
}

#[test]
fn tree_shaking_without_side_effects_optimization_keeps_all_modules() {
    let (g, a, _, b_x) = two_module_graph();
    let mut compiler = Compiler::new(options(true, false));
    let refs = vec![SymbolRef::Indirect { owner: a, export: b_x }];
    compiler.build(g, vec![a], refs, vec![true, true, true]);
    assert_eq!(compiler.compilation.include_module_ids, vec![true, true]);
}

#[test]
fn emission_baseline_advances_across_builds() {
    let mut compiler = Compiler::new(options(false, false));
    compiler.build(ModuleGraph::new(), Vec::new(), Vec::new(), Vec::new());
    compiler.compilation.assets.push((
        String::from("main.js"),
        CompilationAsset::new(Some(String::from("code")), String::from("v1")),
    ));
    let plan1 = compiler.emit_assets();
    assert_eq!(plan1.writes.len(), 1);
    assert_eq!(compiler.compilation.emitted_assets, vec![String::from("main.js")]);

    // second build with an unchanged asset: the write is skipped
    compiler.build(ModuleGraph::new(), Vec::new(), Vec::new(), Vec::new());
    compiler.compilation.assets.push((
        String::from("main.js"),
        CompilationAsset::new(Some(String::from("code")), String::from("v1")),
    ));
    let plan2 = compiler.emit_assets();
    assert_eq!(plan2.writes.len(), 0);
    assert_eq!(compiler.compilation.emitted_assets.len(), 0);

    // third build with a changed version: exactly one write again
    compiler.build(ModuleGraph::new(), Vec::new(), Vec::new(), Vec::new());
    compiler.compilation.assets.push((
        String::from("main.js"),
        CompilationAsset::new(Some(String::from("code2")), String::from("v2")),
    ));
    let plan3 = compiler.emit_assets();
    assert_eq!(plan3.writes, vec![(String::from("main.js"), String::from("code2"))]);
    assert_eq!(
        compiler.emitted_asset_versions,
        vec![(String::from("main.js"), String::from("v2"))]
    );
}

#[test]
fn compile_done_without_emission_changes_nothing() {
    let mut compiler = Compiler::new(options(false, false));
    compiler.compilation.assets.push((
        String::from("main.js"),
        CompilationAsset::new(Some(String::from("code")), String::from("v1")),
    ));
    assert!(compiler.compile_done(false).is_none());
    assert_eq!(compiler.emitted_asset_versions.len(), 0);
    let plan = compiler.compile_done(true).unwrap();
    assert_eq!(plan.writes.len(), 1);
    assert_eq!(compiler.emitted_asset_versions.len(), 1);
}

#[test]
fn diagnostics_accumulate_without_aborting() {
    let mut compilation = Compilation::new(ModuleGraph::new(), Vec::new(), Vec::new());
    compilation.push_batch_diagnostic(vec![String::from("warning: a")]);
    compilation.push_batch_diagnostic(vec![String::from("error: b")]);
    assert_eq!(
        compilation.diagnostics,
        vec![String::from("warning: a"), String::from("error: b")]
    );
}

#[test]
fn runtime_id_module_renders_its_assignment() {
    let mut module = RuntimeIdRuntimeModule::default();
    assert_eq!(module.name(), "webpack/runtime/runtime_id");
    let chunks = vec![Chunk { runtime: vec![String::from("main")] }];
    let ids = vec![(String::from("main"), String::from("main"))];
    assert_eq!(
        module.generate(&chunks, &ids),
        Err(BuildError::RuntimeModuleNotAttached)
    );
    module.attach(0);
    assert_eq!(
        module.generate(&chunks, &ids),
        Ok(String::from("__webpack_require__.j = \"main\";"))
    );
}

#[test]
fn runtime_id_module_requires_exactly_one_runtime() {
    let mut module = RuntimeIdRuntimeModule::default();
    module.attach(0);
    let two = vec![Chunk { runtime: vec![String::from("a"), String::from("b")] }];
    let ids = vec![(String::from("a"), String::from("a"))];
    assert_eq!(module.generate(&two, &ids), Err(BuildError::MultiRuntimeAttachment));
    let none = vec![Chunk { runtime: Vec::new() }];
    assert_eq!(module.generate(&none, &ids), Err(BuildError::MultiRuntimeAttachment));
}

#[test]
fn runtime_id_module_needs_a_recorded_id() {
    let mut module = RuntimeIdRuntimeModule::default();
    module.attach(0);
    let chunks = vec![Chunk { runtime: vec![String::from("main")] }];
    let ids: Vec<(String, String)> = Vec::new();
    assert_eq!(module.generate(&chunks, &ids), Err(BuildError::MissingRuntimeId));
}
