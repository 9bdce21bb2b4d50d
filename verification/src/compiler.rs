//! The orchestrator: a sequential phase state machine driving one build
//! from its first hook to emission, the per-build compilation state, and
//! the persisted asset-version baseline that makes skip-unchanged emission
//! possible across builds.
//!
//! Hook dispatch, module resolution and filesystem I/O are performed by the
//! caller; the library decides the phase order, integrates the usage
//! analysis into the compilation state, and plans emission.

use vstd::prelude::*;

use crate::emit::{
    name_views, plan_emission, removals_spec, table_views, versions_spec, write_views,
    writes_spec, CompilationAsset, EmissionPlan,
};
use crate::runtime::Chunk;
use crate::usage::{analyze_usage, apply_usage, least_closed, ModuleGraph, SymbolRef, UsageState};

verus! {

/// What the caller configured of the core: whether tree-shaking runs,
/// whether its side-effects optimization narrows the included modules,
/// whether the output directory is cleaned, and where output goes.
#[derive(Debug)]
pub struct CompilerOptions {
    pub tree_shaking: bool,
    pub side_effects_optimization: bool,
    pub clean: bool,
    pub output_path: String,
}

/// The in-progress state of one build, created fresh per build and
/// discarded at the next build's start.
#[derive(Debug)]
pub struct Compilation {
    pub module_graph: ModuleGraph,
    pub entries: Vec<usize>,
    pub used_symbol_refs: Vec<SymbolRef>,
    pub assets: Vec<(String, CompilationAsset)>,
    pub include_module_ids: Vec<bool>,
    pub bailout_module_identifiers: Vec<bool>,
    pub side_effects_free_modules: Vec<bool>,
    pub diagnostics: Vec<String>,
    pub emitted_assets: Vec<String>,
    pub chunks: Vec<Chunk>,
    pub runtime_ids: Vec<(String, String)>,
}

impl Compilation {
    /// A fresh compilation over a made module graph: the graph, entry
    /// modules and collected references as the external make phase handed
    /// them over, everything else empty.
    pub fn new(module_graph: ModuleGraph, entries: Vec<usize>, used_symbol_refs: Vec<SymbolRef>)
        -> (r: Compilation)
        ensures
            r.module_graph == module_graph,
            r.entries == entries,
            r.used_symbol_refs == used_symbol_refs,
            r.assets@.len() == 0,
            r.include_module_ids@.len() == 0,
            r.bailout_module_identifiers@.len() == 0,
            r.side_effects_free_modules@.len() == 0,
            r.diagnostics@.len() == 0,
            r.emitted_assets@.len() == 0,
            r.chunks@.len() == 0,
            r.runtime_ids@.len() == 0,
    {
        Compilation {
            module_graph,
            entries,
            used_symbol_refs,
            assets: Vec::new(),
            include_module_ids: Vec::new(),
            bailout_module_identifiers: Vec::new(),
            side_effects_free_modules: Vec::new(),
            diagnostics: Vec::new(),
            emitted_assets: Vec::new(),
            chunks: Vec::new(),
            runtime_ids: Vec::new(),
        }
    }

    /// The generated assets.
    pub fn assets(&self) -> (r: &Vec<(String, CompilationAsset)>)
        ensures
            r == &self.assets,
    {
        &self.assets
    }

    /// Collect a batch of diagnostics; they never abort the build.
    pub fn push_batch_diagnostic(&mut self, diagnostics: Vec<String>)
        ensures
            final(self).diagnostics@.len() == old(self).diagnostics@.len() + diagnostics@.len(),
            forall|i: int|
                0 <= i < old(self).diagnostics@.len() ==> final(self).diagnostics@[i] == old(
                    self,
                ).diagnostics@[i],
            forall|i: int|
                0 <= i < diagnostics@.len() ==> final(self).diagnostics@[old(
                    self,
                ).diagnostics@.len() + i] == diagnostics@[i],
            final(self).module_graph == old(self).module_graph,
            final(self).assets == old(self).assets,
    {
        let mut incoming = diagnostics;
        self.diagnostics.append(&mut incoming);
    }
}

/// The build phases, in their strict order. Each phase's hooks complete
/// before the next phase begins; a failing hook moves the build to
/// `Aborted`, which skips every remaining phase but leaves the previous
/// build's emitted output untouched.
#[derive(Clone, Copy, Debug, PartialEq, Eq, Structural)]
pub enum CompilerPhase {
    BeforeCompile,
    ThisCompilation,
    CompilationHook,
    Make,
    FinishMake,
    OptimizeDependencies,
    Seal,
    AfterCompile,
    ShouldEmit,
    Emit,
    AfterEmit,
    Done,
    Aborted,
}

/// The phase that follows `phase` when its hooks ended with `hook_ok`:
/// failure aborts; tree-shaking decides whether dependency optimization
/// runs between finishing make and sealing; `should_emit` decides whether
/// emission runs at all.
pub open spec fn next_phase_spec(
    phase: CompilerPhase,
    hook_ok: bool,
    tree_shaking: bool,
    should_emit: bool,
) -> CompilerPhase {
    if !hook_ok {
        CompilerPhase::Aborted
    } else {
        match phase {
            CompilerPhase::BeforeCompile => CompilerPhase::ThisCompilation,
            CompilerPhase::ThisCompilation => CompilerPhase::CompilationHook,
            CompilerPhase::CompilationHook => CompilerPhase::Make,
            CompilerPhase::Make => CompilerPhase::FinishMake,
            CompilerPhase::FinishMake => if tree_shaking {
                CompilerPhase::OptimizeDependencies
            } else {
                CompilerPhase::Seal
            },
            CompilerPhase::OptimizeDependencies => CompilerPhase::Seal,
            CompilerPhase::Seal => CompilerPhase::AfterCompile,
            CompilerPhase::AfterCompile => CompilerPhase::ShouldEmit,
            CompilerPhase::ShouldEmit => if should_emit {
                CompilerPhase::Emit
            } else {
                CompilerPhase::Done
            },
            CompilerPhase::Emit => CompilerPhase::AfterEmit,
            CompilerPhase::AfterEmit => CompilerPhase::Done,
            CompilerPhase::Done => CompilerPhase::Done,
            CompilerPhase::Aborted => CompilerPhase::Aborted,
        }
    }
}

/// Advance the phase machine by one completed phase.
pub fn next_phase(phase: CompilerPhase, hook_ok: bool, tree_shaking: bool, should_emit: bool)
    -> (r: CompilerPhase)
    ensures
        r == next_phase_spec(phase, hook_ok, tree_shaking, should_emit),
{
    if !hook_ok {
        return CompilerPhase::Aborted;
    }
    match phase {
        CompilerPhase::BeforeCompile => CompilerPhase::ThisCompilation,
        CompilerPhase::ThisCompilation => CompilerPhase::CompilationHook,
        CompilerPhase::CompilationHook => CompilerPhase::Make,
        CompilerPhase::Make => CompilerPhase::FinishMake,
        CompilerPhase::FinishMake => if tree_shaking {
            CompilerPhase::OptimizeDependencies
        } else {
            CompilerPhase::Seal
        },
        CompilerPhase::OptimizeDependencies => CompilerPhase::Seal,
        CompilerPhase::Seal => CompilerPhase::AfterCompile,
        CompilerPhase::AfterCompile => CompilerPhase::ShouldEmit,
        CompilerPhase::ShouldEmit => if should_emit {
            CompilerPhase::Emit
        } else {
            CompilerPhase::Done
        },
        CompilerPhase::Emit => CompilerPhase::AfterEmit,
        CompilerPhase::AfterEmit => CompilerPhase::Done,
        CompilerPhase::Done => CompilerPhase::Done,
        CompilerPhase::Aborted => CompilerPhase::Aborted,
    }
}

/// The compilation core: options, the current build's state, and the
/// asset-version baseline of the last successful emission, which persists
/// across builds.
#[derive(Debug)]
pub struct Compiler {
    pub options: CompilerOptions,
    pub compilation: Compilation,
    pub emitted_asset_versions: Vec<(String, String)>,
}

/// After usage analysis the compilation holds: a bailout set and an
/// inclusion set from the least closure over the graph the make phase
/// produced, and the graph's usage states escalated by the used-export
/// marks. Without tree-shaking every module is included unconditionally.
pub open spec fn compiled_state(
    options_tree_shaking: bool,
    options_side_effects: bool,
    made_graph: ModuleGraph,
    entries: Seq<usize>,
    refs: Seq<SymbolRef>,
    c: Compilation,
) -> bool {
    if !options_tree_shaking {
        &&& c.module_graph == made_graph
        &&& c.include_module_ids@.len() == made_graph.modules@.len()
        &&& forall|m: int| 0 <= m < c.include_module_ids@.len() ==> c.include_module_ids@[m]
        &&& c.bailout_module_identifiers@.len() == 0
    } else {
        exists|used: Seq<bool>, inc: Seq<bool>|
            {
                &&& #[trigger] least_closed(
                    made_graph,
                    entries,
                    refs,
                    used,
                    inc,
                    c.bailout_module_identifiers@,
                )
                &&& c.module_graph.modules == made_graph.modules
                &&& c.module_graph.connections == made_graph.connections
                &&& c.module_graph.export_info_map@.len() == made_graph.export_info_map@.len()
                &&& forall|e: int|
                    0 <= e < made_graph.export_info_map@.len() ==> {
                        let o = #[trigger] made_graph.export_info_map@[e];
                        let n = c.module_graph.export_info_map@[e];
                        &&& n.name == o.name
                        &&& n.target == o.target
                        &&& n.module == o.module
                        &&& n.can_mangle == o.can_mangle
                        &&& n.terminal_binding == o.terminal_binding
                        &&& n.usage == (if used[e] {
                            UsageState::Used
                        } else {
                            o.usage
                        })
                        &&& o.usage.le(n.usage)
                    }
                &&& if options_side_effects {
                    c.include_module_ids@ == inc
                } else {
                    c.include_module_ids@.len() == made_graph.modules@.len() && (forall|m: int|
                        0 <= m < c.include_module_ids@.len() ==> c.include_module_ids@[m])
                }
            }
    }
}

impl Compiler {
    /// A compiler with no compilation yet and an empty emission baseline.
    pub fn new(options: CompilerOptions) -> (r: Compiler)
        ensures
            r.options == options,
            r.emitted_asset_versions@.len() == 0,
            r.compilation.module_graph.modules@.len() == 0,
            r.compilation.assets@.len() == 0,
    {
        Compiler {
            options,
            compilation: Compilation::new(ModuleGraph::new(), Vec::new(), Vec::new()),
            emitted_asset_versions: Vec::new(),
        }
    }

    /// Integrate the usage analysis into the current compilation: include
    /// every module by default; under tree-shaking run the analysis,
    /// escalate the graph's usage states (never down), record the bailout
    /// set, and, when the side-effects optimization is on, narrow the
    /// included modules to the closure's reach.
    pub fn compile(&mut self)
        requires
            old(self).compilation.module_graph.wf(),
        ensures
            final(self).options == old(self).options,
            final(self).emitted_asset_versions == old(self).emitted_asset_versions,
            final(self).compilation.entries == old(self).compilation.entries,
            final(self).compilation.used_symbol_refs == old(self).compilation.used_symbol_refs,
            final(self).compilation.assets == old(self).compilation.assets,
            final(self).compilation.diagnostics == old(self).compilation.diagnostics,
            final(self).compilation.side_effects_free_modules == old(
                self,
            ).compilation.side_effects_free_modules,
            final(self).compilation.chunks == old(self).compilation.chunks,
            final(self).compilation.runtime_ids == old(self).compilation.runtime_ids,
            final(self).compilation.emitted_assets == old(self).compilation.emitted_assets,
            final(self).compilation.module_graph.wf(),
            compiled_state(
                old(self).options.tree_shaking,
                old(self).options.side_effects_optimization,
                old(self).compilation.module_graph,
                old(self).compilation.entries@,
                old(self).compilation.used_symbol_refs@,
                final(self).compilation,
            ),
    {
        let n_mod = self.compilation.module_graph.modules.len();
        let all_included: Vec<bool> = vec![true; n_mod];
        self.compilation.include_module_ids = all_included;
        if self.options.tree_shaking {
            let (used, inc, bail) = analyze_usage(
                &self.compilation.module_graph,
                &self.compilation.entries,
                &self.compilation.used_symbol_refs,
            );
            apply_usage(&mut self.compilation.module_graph, &used);
            self.compilation.bailout_module_identifiers = bail;
            if self.options.side_effects_optimization {
                self.compilation.include_module_ids = inc;
                proof {
                    assert(least_closed(
                        old(self).compilation.module_graph,
                        old(self).compilation.entries@,
                        old(self).compilation.used_symbol_refs@,
                        used@,
                        inc@,
                        self.compilation.bailout_module_identifiers@,
                    ));
                }
            } else {
                proof {
                    assert(least_closed(
                        old(self).compilation.module_graph,
                        old(self).compilation.entries@,
                        old(self).compilation.used_symbol_refs@,
                        used@,
                        inc@,
                        self.compilation.bailout_module_identifiers@,
                    ));
                }
            }
        } else {
            self.compilation.bailout_module_identifiers = Vec::new();
        }
    }

    /// Start a build: discard the previous compilation, take over the made
    /// module graph, entry set, collected references and the set of modules
    /// known to be side-effect-free, and run the analysis integration. The
    /// emission baseline persists.
    ///
    /// The side-effect-free set is the analysis input that would permit
    /// dropping an unused module's evaluation; this core never drops an
    /// evaluation (inclusion follows every active connection whether or not
    /// exports are used), so the set is recorded for consumers and no
    /// closure rule relaxes on it.
    pub fn build(
        &mut self,
        module_graph: ModuleGraph,
        entries: Vec<usize>,
        used_symbol_refs: Vec<SymbolRef>,
        side_effects_free_modules: Vec<bool>,
    )
        requires
            module_graph.wf(),
        ensures
            final(self).options == old(self).options,
            final(self).emitted_asset_versions == old(self).emitted_asset_versions,
            final(self).compilation.entries == entries,
            final(self).compilation.used_symbol_refs == used_symbol_refs,
            final(self).compilation.side_effects_free_modules == side_effects_free_modules,
            final(self).compilation.assets@.len() == 0,
            final(self).compilation.diagnostics@.len() == 0,
            final(self).compilation.module_graph.wf(),
            compiled_state(
                old(self).options.tree_shaking,
                old(self).options.side_effects_optimization,
                module_graph,
                entries@,
                used_symbol_refs@,
                final(self).compilation,
            ),
    {
        self.compilation = Compilation::new(module_graph, entries, used_symbol_refs);
        self.compilation.side_effects_free_modules = side_effects_free_modules;
        self.compile();
    }

    /// Run one full build on a made graph.
    pub fn run(
        &mut self,
        module_graph: ModuleGraph,
        entries: Vec<usize>,
        used_symbol_refs: Vec<SymbolRef>,
        side_effects_free_modules: Vec<bool>,
    )
        requires
            module_graph.wf(),
        ensures
            final(self).options == old(self).options,
            final(self).emitted_asset_versions == old(self).emitted_asset_versions,
            final(self).compilation.module_graph.wf(),
            compiled_state(
                old(self).options.tree_shaking,
                old(self).options.side_effects_optimization,
                module_graph,
                entries@,
                used_symbol_refs@,
                final(self).compilation,
            ),
    {
        self.build(module_graph, entries, used_symbol_refs, side_effects_free_modules);
    }

    /// Plan this build's emission, record the written files, and move the
    /// baseline forward: the new baseline holds every asset's version, so
    /// it reflects exactly the most recent emission and is consumed as the
    /// skip-unchanged baseline of the next build.
    pub fn emit_assets(&mut self) -> (r: EmissionPlan)
        ensures
            final(self).options == old(self).options,
            final(self).compilation.module_graph == old(self).compilation.module_graph,
            final(self).compilation.assets == old(self).compilation.assets,
            r.remove_entire_output == (old(self).options.clean && old(
                self,
            ).emitted_asset_versions@.len() == 0),
            old(self).options.clean && old(self).emitted_asset_versions@.len() > 0 ==> name_views(
                r.removals@,
            ) == removals_spec(old(self).emitted_asset_versions@, old(self).compilation.assets@),
            !(old(self).options.clean && old(self).emitted_asset_versions@.len() > 0)
                ==> r.removals@.len() == 0,
            write_views(r.writes@) == writes_spec(
                old(self).emitted_asset_versions@,
                old(self).compilation.assets@,
            ),
            table_views(final(self).emitted_asset_versions@) == versions_spec(
                old(self).compilation.assets@,
            ),
            name_views(final(self).compilation.emitted_assets@).len() == r.writes@.len(),
            forall|i: int|
                0 <= i < r.writes@.len() ==> name_views(final(self).compilation.emitted_assets@)[i]
                    == write_views(r.writes@)[i].0,
    {
        let plan = plan_emission(
            self.options.clean,
            &self.emitted_asset_versions,
            &self.compilation.assets,
        );
        let mut emitted: Vec<String> = Vec::new();
        let n = plan.writes.len();
        let mut i: usize = 0;
        while i < n
            invariant
                i <= n,
                n == plan.writes@.len(),
                emitted@.len() == i,
                forall|j: int|
                    0 <= j < i ==> (#[trigger] emitted@[j])@ == plan.writes@[j].0@,
            decreases n - i,
        {
            emitted.push(plan.writes[i].0.clone());
            i = i + 1;
        }
        self.compilation.emitted_assets = emitted;
        let mut baseline: Vec<(String, String)> = Vec::new();
        let nv = plan.new_versions.len();
        let mut i: usize = 0;
        while i < nv
            invariant
                i <= nv,
                nv == plan.new_versions@.len(),
                baseline@.len() == i,
                forall|j: int|
                    0 <= j < i ==> (#[trigger] baseline@[j]).0@ == plan.new_versions@[j].0@
                        && baseline@[j].1@ == plan.new_versions@[j].1@,
            decreases nv - i,
        {
            baseline.push((plan.new_versions[i].0.clone(), plan.new_versions[i].1.clone()));
            i = i + 1;
        }
        self.emitted_asset_versions = baseline;
        proof {
            assert(name_views(self.compilation.emitted_assets@) =~= write_views(
                plan.writes@,
            ).map_values(|p: (Seq<char>, Seq<char>)| p.0)) by {
                assert forall|j: int|
                    0 <= j < plan.writes@.len() implies name_views(
                    self.compilation.emitted_assets@,
                )[j] == write_views(plan.writes@)[j].0 by {}
            }
            assert(table_views(self.emitted_asset_versions@) =~= table_views(
                plan.new_versions@,
            ));
        }
        plan
    }

    /// Finish a build: when emission is wanted, plan it and advance the
    /// baseline; when it is not, leave the baseline untouched.
    pub fn compile_done(&mut self, should_emit: bool) -> (r: Option<EmissionPlan>)
        ensures
            !should_emit ==> r is None && *final(self) == *old(self),
            should_emit ==> r is Some,
            should_emit ==> write_views(r->0.writes@) == writes_spec(
                old(self).emitted_asset_versions@,
                old(self).compilation.assets@,
            ),
            should_emit ==> table_views(final(self).emitted_asset_versions@) == versions_spec(
                old(self).compilation.assets@,
            ),
    {
        if !should_emit {
            return None;
        }
        Some(self.emit_assets())
    }
}

} // verus!
