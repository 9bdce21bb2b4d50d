use bundler_core::dependency::{DependencyCondition, ModuleGraphConnection};
use bundler_core::usage::{analyze_usage, apply_usage, SymbolRef};
use bundler_core::codegen::{
    normalize_context, runtime_global_name, ContextOptions, HarmonyExportSpecifierDependency,
    ImportContextDependency, RuntimeGlobal, RuntimeGlobals, TemplateContext,
};
use bundler_core::dependency::{DependencyCategory, DependencyId, DependencyType, ErrorSpan};
use bundler_core::template::TemplateReplaceSource;
use bundler_core::usage::{ExportInfo, ModuleGraph, UsageState};
use bundler_core::BuildError;

fn fresh_ctx(tree_shaking: bool) -> TemplateContext {
    TemplateContext {
        tree_shaking,
        exports_argument: String::from("__webpack_exports__"),
        module_id: Some(String::from("42")),
        runtime_requirements: RuntimeGlobals::new(),
        init_fragments: Vec::new(),
    }
}

#[test]
fn runtime_global_names() {
    assert_eq!(runtime_global_name(RuntimeGlobal::Require), "__webpack_require__");
    assert_eq!(runtime_global_name(RuntimeGlobal::RuntimeId), "__webpack_require__.j");
}

#[test]
fn runtime_globals_deduplicate() {
    let mut globals = RuntimeGlobals::new();
    assert!(!globals.contains(RuntimeGlobal::Require));
    globals.insert(RuntimeGlobal::Require);
    globals.insert(RuntimeGlobal::Require);
    assert!(globals.contains(RuntimeGlobal::Require));
    assert!(!globals.contains(RuntimeGlobal::RuntimeId));
    assert_eq!(globals.items.len(), 1);
}

#[test]
fn normalize_context_extracts_the_directory_part() {
    assert_eq!(normalize_context(&String::from("./locale/en")), "./locale/");
    assert_eq!(normalize_context(&String::from("plain")), "");
    assert_eq!(normalize_context(&String::from("a/b/c")), "a/b/");
}

#[test]
fn import_context_dependency_construction() {
    let dep = ImportContextDependency::new(
        3,
        9,
        14,
        ContextOptions { request: String::from("./dir/mod") },
        Some(ErrorSpan { start: 3, end: 15 }),
        DependencyId(7),
    );
    assert_eq!(dep.id(), DependencyId(7));
    assert_eq!(dep.category(), DependencyCategory::Esm);
    assert_eq!(dep.dependency_type(), DependencyType::ImportContext);
    assert_eq!(dep.span(), Some(ErrorSpan { start: 3, end: 15 }));
    assert_eq!(dep.request(), "./dir/mod");
    assert_eq!(dep.resource_identifier(), "context./dir/mod");
    assert_eq!(dep.get_context(), None);
}

#[test]
fn import_context_apply_rewrites_the_callee() {
    // source:  XXXXXX(arg)   callee at [0,6), arguments end at 10
    let mut source = TemplateReplaceSource::new(String::from("import(arg)"));
    let dep = ImportContextDependency::new(
        0,
        6,
        10,
        ContextOptions { request: String::from("./dir/mod") },
        None,
        DependencyId(1),
    );
    let mut ctx = fresh_ctx(true);
    dep.apply(&mut source, &mut ctx).unwrap();
    assert!(ctx.runtime_requirements.contains(RuntimeGlobal::Require));
    // the callee becomes a require call, and the argument list is wrapped
    // so the directory part is stripped from the runtime-computed path
    assert_eq!(
        source.build(),
        "__webpack_require__(/* ./dir/mod */ \"42\")((arg.replace('./dir/', './')))"
    );
}

#[test]
fn import_context_apply_without_directory_part_adds_no_wrapper() {
    let mut source = TemplateReplaceSource::new(String::from("import(arg)"));
    let dep = ImportContextDependency::new(
        0,
        6,
        10,
        ContextOptions { request: String::from("plain") },
        None,
        DependencyId(1),
    );
    let mut ctx = fresh_ctx(true);
    dep.apply(&mut source, &mut ctx).unwrap();
    assert_eq!(source.build(), "__webpack_require__(/* plain */ \"42\")(arg)");
}

#[test]
fn import_context_apply_without_module_mapping_fails() {
    let mut source = TemplateReplaceSource::new(String::from("import(arg)"));
    let dep = ImportContextDependency::new(
        0,
        6,
        10,
        ContextOptions { request: String::from("plain") },
        None,
        DependencyId(1),
    );
    let mut ctx = fresh_ctx(true);
    ctx.module_id = None;
    assert_eq!(
        dep.apply(&mut source, &mut ctx),
        Err(BuildError::MissingDependencyMapping)
    );
    assert_eq!(source.build(), "import(arg)");
}

#[test]
fn import_context_apply_rejects_overlapping_spans() {
    let mut source = TemplateReplaceSource::new(String::from("import(arg)"));
    let dep = ImportContextDependency::new(
        0,
        6,
        10,
        ContextOptions { request: String::from("plain") },
        None,
        DependencyId(1),
    );
    let mut ctx = fresh_ctx(true);
    dep.apply(&mut source, &mut ctx).unwrap();
    // the same spans a second time overlap the first rewrite
    assert_eq!(dep.apply(&mut source, &mut ctx), Err(BuildError::OverlappingPatches));
}

#[test]
fn import_context_apply_rejects_spans_outside_the_source() {
    let mut source = TemplateReplaceSource::new(String::from("import(arg)"));
    let dep = ImportContextDependency::new(
        0,
        90,
        95,
        ContextOptions { request: String::from("plain") },
        None,
        DependencyId(1),
    );
    let mut ctx = fresh_ctx(true);
    assert_eq!(dep.apply(&mut source, &mut ctx), Err(BuildError::PatchOutOfRange));
}

#[test]
fn set_request_changes_only_the_request() {
    let mut dep = ImportContextDependency::new(
        0,
        6,
        10,
        ContextOptions { request: String::from("old") },
        None,
        DependencyId(1),
    );
    dep.set_request(String::from("new"));
    assert_eq!(dep.request(), "new");
    assert_eq!(dep.resource_identifier(), "contextold");
}

fn graph_with_export(usage: UsageState, can_mangle: bool) -> (ModuleGraph, usize) {
    let mut g = ModuleGraph::new();
    let m = g.add_module(String::from("m.js"));
    let mut info = ExportInfo::new(Some(String::from("answer")), usage, None);
    info.can_mangle = can_mangle;
    g.add_export(m, info);
    (g, m)
}

#[test]
fn harmony_export_specifier_declares_its_export() {
    let dep = HarmonyExportSpecifierDependency::new(
        String::from("answer"),
        String::from("localAnswer"),
        DependencyId(9),
    );
    assert_eq!(dep.id(), DependencyId(9));
    assert_eq!(dep.category(), DependencyCategory::Esm);
    assert_eq!(dep.dependency_type(), DependencyType::EsmExportSpecifier);
    let spec = dep.get_exports().unwrap();
    assert_eq!(spec.priority, Some(1));
    assert_eq!(spec.terminal_binding, Some(true));
}

#[test]
fn live_export_emits_its_init_fragment() {
    let (g, m) = graph_with_export(UsageState::Used, true);
    let dep = HarmonyExportSpecifierDependency::new(
        String::from("answer"),
        String::from("localAnswer"),
        DependencyId(9),
    );
    let mut ctx = fresh_ctx(true);
    dep.apply(&g, m, &mut ctx);
    assert_eq!(ctx.init_fragments.len(), 1);
    assert_eq!(ctx.init_fragments[0].exports_argument, "__webpack_exports__");
    assert_eq!(ctx.init_fragments[0].export_name, "answer");
    assert_eq!(ctx.init_fragments[0].value, "localAnswer");
}

#[test]
fn dead_mangle_eligible_export_emits_nothing() {
    let (g, m) = graph_with_export(UsageState::Unused, true);
    let dep = HarmonyExportSpecifierDependency::new(
        String::from("answer"),
        String::from("localAnswer"),
        DependencyId(9),
    );
    let mut ctx = fresh_ctx(true);
    dep.apply(&g, m, &mut ctx);
    assert_eq!(ctx.init_fragments.len(), 0);
}

#[test]
fn dead_export_survives_with_tree_shaking_disabled() {
    let (g, m) = graph_with_export(UsageState::Unused, true);
    let dep = HarmonyExportSpecifierDependency::new(
        String::from("answer"),
        String::from("localAnswer"),
        DependencyId(9),
    );
    let mut ctx = fresh_ctx(false);
    dep.apply(&g, m, &mut ctx);
    assert_eq!(ctx.init_fragments.len(), 1);
}

#[test]
fn init_fragments_deduplicate_by_export_object_and_name() {
    let (g, m) = graph_with_export(UsageState::Used, true);
    let dep = HarmonyExportSpecifierDependency::new(
        String::from("answer"),
        String::from("localAnswer"),
        DependencyId(9),
    );
    let mut ctx = fresh_ctx(true);
    dep.apply(&g, m, &mut ctx);
    dep.apply(&g, m, &mut ctx);
    assert_eq!(ctx.init_fragments.len(), 1);
}

#[test]
fn fragments_for_different_export_objects_both_stay() {
    let (g, m) = graph_with_export(UsageState::Used, true);
    let dep = HarmonyExportSpecifierDependency::new(
        String::from("answer"),
        String::from("localAnswer"),
        DependencyId(9),
    );
    let mut ctx = fresh_ctx(true);
    dep.apply(&g, m, &mut ctx);
    ctx.exports_argument = String::from("__other_exports__");
    dep.apply(&g, m, &mut ctx);
    assert_eq!(ctx.init_fragments.len(), 2);
    assert_eq!(ctx.init_fragments[1].exports_argument, "__other_exports__");
}

#[test]
fn re_export_chain_generates_only_the_used_definition() {
    // entry A imports `used` from B; B re-exports {used, unused} from C
    let mut g = ModuleGraph::new();
    let a = g.add_module(String::from("a.js"));
    let b = g.add_module(String::from("b.js"));
    let c = g.add_module(String::from("c.js"));
    let c_used = g.add_export(c, ExportInfo::new(Some(String::from("used")), UsageState::Unused, None));
    g.add_export(c, ExportInfo::new(Some(String::from("unused")), UsageState::Unused, None));
    let b_used = g.add_export(b, ExportInfo::new(Some(String::from("used")), UsageState::Unused, Some(c_used)));
    g.add_connection(ModuleGraphConnection { from: a, to: b, condition: DependencyCondition::Active });
    g.add_connection(ModuleGraphConnection { from: b, to: c, condition: DependencyCondition::Active });
    let refs = vec![SymbolRef::Indirect { owner: a, export: b_used }];
    let (used, _, _) = analyze_usage(&g, &vec![a], &refs);
    apply_usage(&mut g, &used);

    let mut ctx = fresh_ctx(true);
    let dep_used = HarmonyExportSpecifierDependency::new(
        String::from("used"),
        String::from("localUsed"),
        DependencyId(1),
    );
    let dep_unused = HarmonyExportSpecifierDependency::new(
        String::from("unused"),
        String::from("localUnused"),
        DependencyId(2),
    );
    dep_used.apply(&g, c, &mut ctx);
    dep_unused.apply(&g, c, &mut ctx);
    assert_eq!(ctx.init_fragments.len(), 1);
    assert_eq!(ctx.init_fragments[0].export_name, "used");
}
