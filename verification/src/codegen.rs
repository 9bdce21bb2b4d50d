//! Template code generation for concrete dependency kinds: resolving used
//! names through the usage tables, registering source patches, pushing
//! deduplicated init fragments, and accumulating required runtime globals.

use vstd::prelude::*;

use crate::dependency::{
    ConnectionState, DependencyCategory, DependencyId, DependencyType, ErrorSpan,
    ExportNameOrSpec, ExportsOfExportsSpec, ExportsSpec,
};
use crate::json::{json_string_of, to_json_string};
use crate::template::TemplateReplaceSource;
use crate::template::{
    apply_ops, insert_index, insert_op, lemma_insert_op_disjoint, lemma_insert_op_has_new,
    lemma_insert_op_keeps_overlap, range_disjoint, rendered, ReplaceOp,
};
use crate::usage::{used_name_spec, ModuleGraph};
use crate::BuildError;

verus! {

/// A runtime-support symbol that generated code requires.
#[derive(Clone, Copy, Debug, PartialEq, Eq, Structural)]
pub enum RuntimeGlobal {
    Require,
    RuntimeId,
}

/// The symbol generated code uses for a runtime global.
pub open spec fn runtime_global_name_spec(g: RuntimeGlobal) -> Seq<char> {
    match g {
        RuntimeGlobal::Require => "__webpack_require__"@,
        RuntimeGlobal::RuntimeId => "__webpack_require__.j"@,
    }
}

/// Render a runtime global as the symbol generated code uses.
pub fn runtime_global_name(g: RuntimeGlobal) -> (r: String)
    ensures
        r@ == runtime_global_name_spec(g),
{
    match g {
        RuntimeGlobal::Require => String::from_str("__webpack_require__"),
        RuntimeGlobal::RuntimeId => String::from_str("__webpack_require__.j"),
    }
}

/// Accumulating set of required runtime-support symbols for a chunk.
pub struct RuntimeGlobals {
    pub items: Vec<RuntimeGlobal>,
}

impl RuntimeGlobals {
    /// The global is in the set.
    pub open spec fn contains_global(self, g: RuntimeGlobal) -> bool {
        exists|i: int| 0 <= i < self.items@.len() && self.items@[i] == g
    }

    pub fn new() -> (r: RuntimeGlobals)
        ensures
            forall|g: RuntimeGlobal| !r.contains_global(g),
            r.items@.len() == 0,
    {
        RuntimeGlobals { items: Vec::new() }
    }

    pub fn contains(&self, g: RuntimeGlobal) -> (r: bool)
        ensures
            r == self.contains_global(g),
    {
        let mut i: usize = 0;
        while i < self.items.len()
            invariant
                i <= self.items@.len(),
                forall|j: int| 0 <= j < i ==> self.items@[j] != g,
            decreases self.items@.len() - i,
        {
            if self.items[i] == g {
                assert(self.items@[i as int] == g);
                return true;
            }
            i = i + 1;
        }
        false
    }

    /// Add a required global; the set semantics deduplicate.
    pub fn insert(&mut self, g: RuntimeGlobal)
        ensures
            forall|h: RuntimeGlobal|
                final(self).contains_global(h) <==> old(self).contains_global(h) || h == g,
    {
        if !self.contains(g) {
            let ghost before = self.items@;
            self.items.push(g);
            proof {
                assert forall|h: RuntimeGlobal|
                    final(self).contains_global(h) <==> old(self).contains_global(h) || h
                        == g by {
                    if h == g {
                        assert(self.items@[before.len() as int] == g);
                    } else {
                        if old(self).contains_global(h) {
                            let i = choose|i: int|
                                0 <= i < before.len() && before[i] == h;
                            assert(self.items@[i] == h);
                        }
                        if self.contains_global(h) {
                            let i = choose|i: int|
                                0 <= i < self.items@.len() && self.items@[i] == h;
                            assert(before[i] == h);
                        }
                    }
                }
            }
        }
    }
}

/// One export-definition prelude emission: defines `export_name` on the
/// module's exports object, bound to the local identifier `value`.
pub struct HarmonyExportInitFragment {
    pub exports_argument: String,
    pub export_name: String,
    pub value: String,
}

/// Two fragments collide when they target the same export object with the
/// same export name; such duplicates are emitted only once per module.
pub open spec fn fragment_key_present(
    fragments: Seq<HarmonyExportInitFragment>,
    exports_argument: Seq<char>,
    export_name: Seq<char>,
) -> bool {
    exists|i: int|
        0 <= i < fragments.len() && (#[trigger] fragments[i]).exports_argument@ == exports_argument
            && fragments[i].export_name@ == export_name
}

/// Push an init fragment unless one with the same (export object, export
/// name) key is already registered.
pub fn push_init_fragment(
    fragments: &mut Vec<HarmonyExportInitFragment>,
    f: HarmonyExportInitFragment,
)
    ensures
        fragment_key_present(old(fragments)@, f.exports_argument@, f.export_name@) ==> final(
            fragments)@ == old(fragments)@,
        !fragment_key_present(old(fragments)@, f.exports_argument@, f.export_name@) ==> final(
            fragments)@ == old(fragments)@.push(f),
{
    let mut i: usize = 0;
    while i < fragments.len()
        invariant
            i <= fragments@.len(),
            fragments@ == old(fragments)@,
            forall|j: int|
                0 <= j < i ==> !((#[trigger] fragments@[j]).exports_argument@
                    == f.exports_argument@ && fragments@[j].export_name@ == f.export_name@),
        decreases fragments@.len() - i,
    {
        let existing = &fragments[i];
        if existing.exports_argument.eq(&f.exports_argument) && existing.export_name.eq(
            &f.export_name,
        ) {
            assert(fragment_key_present(fragments@, f.exports_argument@, f.export_name@));
            return ;
        }
        i = i + 1;
    }
    fragments.push(f);
}

/// Mutable code-generation state a dependency's `apply` works on: whether
/// tree-shaking is enabled, the module's exports object identifier, the
/// module id this dependency resolved to (if the graph has a mapping), the
/// accumulated runtime requirements, and the ordered init fragments.
pub struct TemplateContext {
    pub tree_shaking: bool,
    pub exports_argument: String,
    pub module_id: Option<String>,
    pub runtime_requirements: RuntimeGlobals,
    pub init_fragments: Vec<HarmonyExportInitFragment>,
}

/// Declares one ESM export specifier: `name` exported, bound to the local
/// identifier `value`. Generates an export-definition init fragment for the
/// export when it is live.
pub struct HarmonyExportSpecifierDependency {
    pub id: DependencyId,
    pub name: String,
    pub value: String,
}

impl HarmonyExportSpecifierDependency {
    pub fn new(name: String, value: String, id: DependencyId) -> (r:
        HarmonyExportSpecifierDependency)
        ensures
            r.name@ == name@,
            r.value@ == value@,
            r.id == id,
    {
        HarmonyExportSpecifierDependency { id, name, value }
    }

    pub fn id(&self) -> (r: DependencyId)
        ensures
            r == self.id,
    {
        self.id
    }

    pub fn category(&self) -> (r: DependencyCategory)
        ensures
            r == DependencyCategory::Esm,
    {
        DependencyCategory::Esm
    }

    pub fn dependency_type(&self) -> (r: DependencyType)
        ensures
            r == DependencyType::EsmExportSpecifier,
    {
        DependencyType::EsmExportSpecifier
    }

    /// The exports this dependency declares: exactly its one name, with
    /// priority 1 and a terminal binding.
    pub fn get_exports(&self) -> (r: Option<ExportsSpec>)
        ensures
            r matches Some(s) && ({
                &&& s.exports matches ExportsOfExportsSpec::Array(v) && v@.len() == 1
                    && (v@[0] matches ExportNameOrSpec::Name(n) && n@ == self.name@)
                &&& s.priority == Some(1u8)
                &&& s.can_mangle is None
                &&& s.terminal_binding == Some(true)
                &&& s.from is None
                &&& s.dependencies is None
                &&& s.hide_export is None
                &&& s.exclude_exports is None
            }),
    {
        let mut names: Vec<ExportNameOrSpec> = Vec::new();
        names.push(ExportNameOrSpec::Name(self.name.clone()));
        Some(
            ExportsSpec {
                exports: ExportsOfExportsSpec::Array(names),
                priority: Some(1u8),
                can_mangle: None,
                terminal_binding: Some(true),
                from: None,
                dependencies: None,
                hide_export: None,
                exclude_exports: None,
            },
        )
    }

    /// Merely referencing this dependency forces no module evaluation.
    pub fn get_module_evaluation_side_effects_state(&self) -> (r: ConnectionState)
        ensures
            r == ConnectionState::Bool(false),
    {
        ConnectionState::Bool(false)
    }

    /// Resolve the used name of this export and, when it is live, push the
    /// export-definition init fragment, deduplicated by (export object,
    /// export name). A dead, mangle-eligible export emits nothing.
    pub fn apply(&self, graph: &ModuleGraph, module: usize, ctx: &mut TemplateContext)
        requires
            graph.wf(),
            module < graph.modules@.len(),
        ensures
            final(ctx).tree_shaking == old(ctx).tree_shaking,
            final(ctx).exports_argument == old(ctx).exports_argument,
            final(ctx).module_id == old(ctx).module_id,
            final(ctx).runtime_requirements == old(ctx).runtime_requirements,
            used_name_spec(*graph, module as int, self.name@, old(ctx).tree_shaking) is None
                ==> final(ctx).init_fragments@ == old(ctx).init_fragments@,
            used_name_spec(*graph, module as int, self.name@, old(ctx).tree_shaking) matches Some(
                n,
            ) ==> {
                if fragment_key_present(
                    old(ctx).init_fragments@,
                    old(ctx).exports_argument@,
                    n,
                ) {
                    final(ctx).init_fragments@ == old(ctx).init_fragments@
                } else {
                    final(ctx).init_fragments@.len() == old(ctx).init_fragments@.len() + 1
                        && final(ctx).init_fragments@ == old(ctx).init_fragments@.push(
                        final(ctx).init_fragments@.last(),
                    ) && final(ctx).init_fragments@.last().exports_argument@ == old(
                        ctx,
                    ).exports_argument@ && final(ctx).init_fragments@.last().export_name@ == n
                        && final(ctx).init_fragments@.last().value@ == self.value@
                }
            },
    {
        let used_name = graph.get_used_name(module, &self.name, ctx.tree_shaking);
        match used_name {
            None => {},
            Some(n) => {
                let f = HarmonyExportInitFragment {
                    exports_argument: ctx.exports_argument.clone(),
                    export_name: n,
                    value: self.value.clone(),
                };
                push_init_fragment(&mut ctx.init_fragments, f);
            },
        }
    }
}

/// Dead-export omission: an export that analysis proved `Unused` and that
/// is mangle-eligible resolves to no used name, so generated code contains
/// no definition for it.
pub proof fn lemma_dead_export_omission(g: ModuleGraph, module: int, name: Seq<char>, h: usize)
    requires
        crate::usage::find_export(g, module, name) == Some(h),
        h < g.export_info_map@.len(),
        g.export_info_map@[h as int].usage == crate::usage::UsageState::Unused,
        g.export_info_map@[h as int].can_mangle,
    ensures
        used_name_spec(g, module, name, true) is None,
{
}

/// Options of a context (directory) dependency: the request string naming
/// the directory pattern being imported.
#[derive(Debug)]
pub struct ContextOptions {
    pub request: String,
}

/// Index of the last `/` in `s`, or -1 when there is none.
pub open spec fn last_slash_at(s: Seq<char>) -> int
    decreases s.len(),
{
    if s.len() == 0 {
        -1
    } else if s[s.len() - 1] == '/' {
        s.len() - 1
    } else {
        last_slash_at(s.drop_last())
    }
}

/// The context of a request: its directory prefix up to and including the
/// last `/`, empty when the request has no directory part.
pub open spec fn normalize_context_spec(s: Seq<char>) -> Seq<char> {
    s.subrange(0, last_slash_at(s) + 1)
}

/// With no `/` at or after position `i`, the last slash of `s` is the last
/// slash of its prefix of length `i`.
proof fn lemma_last_slash_prefix(s: Seq<char>, i: int)
    requires
        0 <= i <= s.len(),
        forall|j: int| i <= j < s.len() ==> s[j] != '/',
    ensures
        last_slash_at(s) == last_slash_at(s.subrange(0, i)),
    decreases s.len() - i,
{
    if i == s.len() {
        assert(s.subrange(0, i) =~= s);
    } else {
        assert(s[s.len() - 1] != '/');
        assert(s.drop_last() =~= s.subrange(0, s.len() - 1));
        lemma_last_slash_prefix(s.subrange(0, s.len() - 1), i);
        assert(s.subrange(0, s.len() - 1).subrange(0, i) =~= s.subrange(0, i));
    }
}

/// Compute the directory context of a request string.
pub fn normalize_context(request: &String) -> (r: String)
    ensures
        r@ == normalize_context_spec(request@),
{
    let s = request.as_str();
    let n = s.unicode_len();
    let mut i: usize = n;
    while i > 0
        invariant
            i <= n,
            n == s@.len(),
            s@ == request@,
            forall|j: int| i <= j < n ==> s@[j] != '/',
        decreases i,
    {
        let c = s.get_char(i - 1);
        if c == '/' {
            proof {
                lemma_last_slash_prefix(s@, i as int);
                assert(s@.subrange(0, i as int).len() == i as int);
                assert(s@.subrange(0, i as int)[i - 1] == s@[i - 1]);
                assert(last_slash_at(s@.subrange(0, i as int)) == i - 1) by {
                    assert(s@.subrange(0, i as int)[i as int - 1] == '/');
                }
            }
            let prefix = s.substring_char(0, i);
            let r = prefix.to_owned();
            proof {
                assert(r@ =~= normalize_context_spec(request@));
            }
            return r;
        }
        i = i - 1;
    }
    proof {
        lemma_last_slash_prefix(s@, 0);
        assert(s@.subrange(0, 0).len() == 0);
        assert(last_slash_at(s@.subrange(0, 0)) == -1);
        assert(normalize_context_spec(request@) =~= Seq::<char>::empty());
    }
    String::new()
}

/// The module-id expression interpolated into generated requires: a comment
/// naming the request, then the module id as a JSON string literal.
pub open spec fn module_id_expr_spec(request: Seq<char>, id: Seq<char>) -> Seq<char> {
    "/* "@ + request + " */ "@ + json_string_of(id)
}

/// Assemble the module-id expression from an already JSON-encoded id.
pub fn module_id_expr_with(request: &String, json_id: &String) -> (r: String)
    ensures
        r@ == "/* "@ + request@ + " */ "@ + json_id@,
{
    let mut out = String::from_str("/* ");
    out.append(request.as_str());
    out.append(" */ ");
    out.append(json_id.as_str());
    out
}

/// The module-id expression for a request and module id.
pub fn module_id_expr(request: &String, module_id: &String) -> (r: String)
    ensures
        r@ == module_id_expr_spec(request@, module_id@),
{
    let j = to_json_string(module_id);
    module_id_expr_with(request, &j)
}

/// The full call that replaces a context import's callee.
pub open spec fn require_call_content(request: Seq<char>, id: Seq<char>) -> Seq<char> {
    "__webpack_require__("@ + module_id_expr_spec(request, id) + ")"@
}

/// The suffix patched after the argument of a context import when the
/// request has a directory part.
pub open spec fn context_suffix_content(context: Seq<char>) -> Seq<char> {
    ".replace('"@ + context + "', './'))"@
}

/// Patch round-trip at the context rewrite: on a source with no other
/// patches, the three patch operations a context import registers render
/// to the text before the callee, the require call, the wrapper's opening
/// parenthesis, the argument text, the stripping suffix, and the rest of
/// the source -- whatever positions in the ordered list the three entered.
pub proof fn lemma_context_rewrite_rendered(
    src: Seq<char>,
    rop: ReplaceOp,
    iop1: ReplaceOp,
    iop2: ReplaceOp,
)
    requires
        rop.start <= rop.end,
        rop.end as int <= src.len(),
        iop1.start == rop.end,
        iop1.end == rop.end,
        iop2.start == iop2.end,
        rop.end <= iop2.start,
        iop2.end as int <= src.len(),
    ensures
        rendered(src, insert_op(insert_op(insert_op(Seq::<ReplaceOp>::empty(), rop), iop1), iop2))
            =~= src.subrange(0, rop.start as int) + rop.content@ + iop1.content@ + src.subrange(
            rop.end as int,
            iop2.start as int,
        ) + iop2.content@ + src.subrange(iop2.start as int, src.len() as int),
{
    let empty = Seq::<ReplaceOp>::empty();
    assert(insert_index(empty, rop.start as int, rop.end as int) == 0);
    let s1 = insert_op(empty, rop);
    assert(s1 =~= seq![rop]);
    assert(insert_index(s1, iop1.start as int, iop1.end as int) == 1) by {
        assert(s1[0] == rop);
        assert(crate::template::stays_before(rop, iop1.start as int, iop1.end as int));
        assert(s1.drop_first().len() == 0);
        assert(insert_index(s1.drop_first(), iop1.start as int, iop1.end as int) == 0);
    }
    let s2 = insert_op(s1, iop1);
    assert(s2 =~= seq![rop, iop1]);
    assert(insert_index(s2, iop2.start as int, iop2.end as int) == 2) by {
        assert(s2[0] == rop);
        assert(crate::template::stays_before(rop, iop2.start as int, iop2.end as int));
        assert(s2.drop_first() =~= seq![iop1]);
        assert(s2.drop_first()[0] == iop1);
        assert(crate::template::stays_before(iop1, iop2.start as int, iop2.end as int));
        assert(s2.drop_first().drop_first().len() == 0);
        assert(insert_index(s2.drop_first().drop_first(), iop2.start as int, iop2.end as int)
            == 0);
        assert(insert_index(s2.drop_first(), iop2.start as int, iop2.end as int) == 1);
    }
    let s3 = insert_op(s2, iop2);
    assert(s3 =~= seq![rop, iop1, iop2]);
    let tail2 = seq![iop1, iop2];
    let tail1 = seq![iop2];
    assert(s3.drop_first() =~= tail2);
    assert(tail2.drop_first() =~= tail1);
    assert(tail1.drop_first() =~= Seq::<ReplaceOp>::empty());
    assert(apply_ops(src, Seq::<ReplaceOp>::empty(), iop2.end as int) == src.subrange(
        iop2.end as int,
        src.len() as int,
    ));
    assert(apply_ops(src, tail1, iop1.end as int) == src.subrange(
        iop1.end as int,
        iop2.start as int,
    ) + iop2.content@ + src.subrange(iop2.end as int, src.len() as int)) by {
        assert(tail1[0] == iop2);
    }
    assert(apply_ops(src, tail2, rop.end as int) == src.subrange(rop.end as int, iop1.start as int)
        + iop1.content@ + apply_ops(src, tail1, iop1.end as int)) by {
        assert(tail2[0] == iop1);
    }
    assert(src.subrange(rop.end as int, iop1.start as int) =~= Seq::<char>::empty());
    assert(rendered(src, s3) == src.subrange(0, rop.start as int) + rop.content@ + apply_ops(
        src,
        tail2,
        rop.end as int,
    )) by {
        assert(s3[0] == rop);
    }
}

/// The rewrite's spans lie inside a source of `n` characters: the callee
/// range is ordered and in range, and, when the request has a directory
/// part (so the argument-wrapping patches are registered too), so is the
/// arguments-end offset.
pub open spec fn context_spans_in_range(dep: ImportContextDependency, n: nat) -> bool {
    &&& dep.callee_start <= dep.callee_end
    &&& dep.callee_end <= n
    &&& (normalize_context_spec(dep.options.request@).len() > 0 ==> dep.args_end <= n)
}

/// The rewrite's spans are clear of every registered patch: the callee
/// range is disjoint from each, and, when the request has a directory
/// part, the arguments-end offset falls strictly inside neither the callee
/// range nor a registered patch.
pub open spec fn context_spans_clear(dep: ImportContextDependency, ops: Seq<ReplaceOp>) -> bool {
    let cs = dep.callee_start as int;
    let ce = dep.callee_end as int;
    let ae = dep.args_end as int;
    &&& (forall|i: int| 0 <= i < ops.len() ==> range_disjoint(#[trigger] ops[i], cs, ce))
    &&& (normalize_context_spec(dep.options.request@).len() > 0 ==> !(cs < ae && ae < ce) && (
    forall|i: int| 0 <= i < ops.len() ==> range_disjoint(#[trigger] ops[i], ae, ae)))
}

/// A dynamic `import()` of a runtime-computed path within a directory
/// context. Code generation rewrites the callee into a runtime require of
/// the context module and, when the request has a directory part, wraps the
/// argument to strip that part.
#[derive(Debug)]
pub struct ImportContextDependency {
    pub callee_start: u32,
    pub callee_end: u32,
    pub args_end: u32,
    pub id: DependencyId,
    pub options: ContextOptions,
    pub span: Option<ErrorSpan>,
    pub resource_identifier: String,
}

/// The resource identifier of a context dependency, derived from its
/// options.
pub fn create_resource_identifier_for_context_dependency(options: &ContextOptions) -> (r: String)
    ensures
        r@ == "context"@ + options.request@,
{
    let mut out = String::from_str("context");
    out.append(options.request.as_str());
    out
}

impl ImportContextDependency {
    /// The identifier comes from the caller, which owns the counter that
    /// keeps dependency ids unique across a rebuild.
    pub fn new(
        callee_start: u32,
        callee_end: u32,
        args_end: u32,
        options: ContextOptions,
        span: Option<ErrorSpan>,
        id: DependencyId,
    ) -> (r: ImportContextDependency)
        ensures
            r.callee_start == callee_start,
            r.callee_end == callee_end,
            r.args_end == args_end,
            r.options.request@ == options.request@,
            r.span == span,
            r.id == id,
            r.resource_identifier@ == "context"@ + options.request@,
    {
        let resource_identifier = create_resource_identifier_for_context_dependency(&options);
        ImportContextDependency {
            callee_start,
            callee_end,
            args_end,
            options,
            span,
            id,
            resource_identifier,
        }
    }

    pub fn id(&self) -> (r: DependencyId)
        ensures
            r == self.id,
    {
        self.id
    }

    pub fn category(&self) -> (r: DependencyCategory)
        ensures
            r == DependencyCategory::Esm,
    {
        DependencyCategory::Esm
    }

    pub fn dependency_type(&self) -> (r: DependencyType)
        ensures
            r == DependencyType::ImportContext,
    {
        DependencyType::ImportContext
    }

    pub fn span(&self) -> (r: Option<ErrorSpan>)
        ensures
            r == self.span,
    {
        self.span
    }

    pub fn options(&self) -> (r: &ContextOptions)
        ensures
            r.request@ == self.options.request@,
    {
        &self.options
    }

    pub fn request(&self) -> (r: &String)
        ensures
            r@ == self.options.request@,
    {
        &self.options.request
    }

    pub fn get_context(&self) -> (r: Option<&String>)
        ensures
            r is None,
    {
        None
    }

    pub fn resource_identifier(&self) -> (r: &String)
        ensures
            r@ == self.resource_identifier@,
    {
        &self.resource_identifier
    }

    pub fn set_request(&mut self, request: String)
        ensures
            final(self).options.request@ == request@,
            final(self).callee_start == old(self).callee_start,
            final(self).callee_end == old(self).callee_end,
            final(self).args_end == old(self).args_end,
            final(self).id == old(self).id,
            final(self).span == old(self).span,
            final(self).resource_identifier == old(self).resource_identifier,
    {
        self.options.request = request;
    }

    /// Rewrite the import callee into a runtime require of the resolved
    /// context module, register the require runtime global, and, when the
    /// request has a directory part, wrap the argument to strip it.
    ///
    /// With a mapped module the rewrite succeeds exactly when its spans lie
    /// inside the source and clear of every registered patch. A missing
    /// dependency-to-module mapping is an internal-invariant failure, as is
    /// a span that leaves the source or overlaps a patch registered
    /// earlier: each fails immediately with its own error.
    #[verifier::rlimit(50)]
    pub fn apply(&self, source: &mut TemplateReplaceSource, ctx: &mut TemplateContext) -> (r:
        Result<(), BuildError>)
        requires
            old(source).wf(),
        ensures
            final(source).wf(),
            final(source).source_view() == old(source).source_view(),
            final(ctx).tree_shaking == old(ctx).tree_shaking,
            final(ctx).exports_argument == old(ctx).exports_argument,
            final(ctx).module_id == old(ctx).module_id,
            final(ctx).init_fragments == old(ctx).init_fragments,
            old(ctx).module_id is None ==> r == Err::<(), BuildError>(
                BuildError::MissingDependencyMapping,
            ) && *final(source) == *old(source) && *final(ctx) == *old(ctx),
            old(ctx).module_id is Some && !(self.callee_start <= self.callee_end
                && self.callee_end <= old(source).source_view().len()) ==> r == Err::<
                (),
                BuildError,
            >(BuildError::PatchOutOfRange),
            old(ctx).module_id is Some && self.callee_start <= self.callee_end
                && self.callee_end <= old(source).source_view().len() && (exists|i: int|
                0 <= i < old(source).ops_view().len() && !range_disjoint(
                    #[trigger] old(source).ops_view()[i],
                    self.callee_start as int,
                    self.callee_end as int,
                )) ==> r == Err::<(), BuildError>(BuildError::OverlappingPatches),
            old(ctx).module_id is Some ==> (r is Ok <==> context_spans_in_range(
                *self,
                old(source).source_view().len(),
            ) && context_spans_clear(*self, old(source).ops_view())),
            r is Ok ==> forall|h: RuntimeGlobal|
                final(ctx).runtime_requirements.contains_global(h) <==> old(
                    ctx,
                ).runtime_requirements.contains_global(h) || h == RuntimeGlobal::Require,
            r is Err ==> final(ctx).runtime_requirements == old(ctx).runtime_requirements,
            r is Ok ==> ({
                let req = self.options.request@;
                let id = old(ctx).module_id->0@;
                let o0 = old(source).ops_view();
                let n = final(source).ops_view();
                if normalize_context_spec(req).len() == 0 {
                    exists|rop: ReplaceOp|
                        {
                            &&& (#[trigger] rop.start) as int == self.callee_start as int
                            &&& rop.end as int == self.callee_end as int
                            &&& rop.content@ == require_call_content(req, id)
                            &&& n == insert_op(o0, rop)
                        }
                } else {
                    exists|rop: ReplaceOp, iop1: ReplaceOp, iop2: ReplaceOp|
                        {
                            &&& (#[trigger] rop.start) as int == self.callee_start as int
                            &&& rop.end as int == self.callee_end as int
                            &&& rop.content@ == require_call_content(req, id)
                            &&& (#[trigger] iop1.start) as int == self.callee_end as int
                            &&& iop1.end as int == self.callee_end as int
                            &&& iop1.content@ == "("@
                            &&& (#[trigger] iop2.start) as int == self.args_end as int
                            &&& iop2.end as int == self.args_end as int
                            &&& iop2.content@ == context_suffix_content(
                                normalize_context_spec(req),
                            )
                            &&& n == insert_op(insert_op(insert_op(o0, rop), iop1), iop2)
                        }
                }
            }),
    {
        let module_id = match &ctx.module_id {
            Some(mid) => mid.clone(),
            None => {
                return Err(BuildError::MissingDependencyMapping);
            },
        };
        let expr = module_id_expr(&self.options.request, &module_id);
        let mut call = String::from_str("__webpack_require__(");
        call.append(expr.as_str());
        call.append(")");
        assert(call@ == require_call_content(self.options.request@, module_id@));
        let cs = self.callee_start as usize;
        let ce = self.callee_end as usize;
        let ae = self.args_end as usize;
        let ghost o0 = source.ops_view();
        match source.replace(cs, ce, call.as_str()) {
            Ok(_) => {},
            Err(e) => {
                return Err(e);
            },
        }
        let ghost ops1 = source.ops_view();
        let ghost rop = ops1[crate::template::insert_index(o0, cs as int, ce as int)];
        let context = normalize_context(&self.options.request);
        if context.as_str().unicode_len() > 0 {
            proof {
                // the wrapper's opening insert sits at the callee range's
                // end: the fresh rewrite ends exactly there, and every older
                // patch is clear of the whole callee range
                assert forall|i: int| 0 <= i < o0.len() implies range_disjoint(
                    #[trigger] o0[i],
                    ce as int,
                    ce as int,
                ) by {
                    assert(range_disjoint(o0[i], cs as int, ce as int));
                }
                assert(range_disjoint(rop, ce as int, ce as int));
                lemma_insert_op_disjoint(o0, rop, ce as int, ce as int);
                assert(ops1 == insert_op(o0, rop));
            }
            match source.insert(ce, "(") {
                Ok(_) => {},
                Err(e) => {
                    proof {
                        assert(false);
                    }
                    return Err(e);
                },
            }
            let ghost ops2 = source.ops_view();
            let ghost iop1 = ops2[crate::template::insert_index(ops1, ce as int, ce as int)];
            let mut suffix = String::from_str(".replace('");
            suffix.append(context.as_str());
            suffix.append("', './'))");
            assert(suffix@ == context_suffix_content(normalize_context_spec(
                self.options.request@,
            )));
            proof {
                // whether the arguments-end insert collides is decided by
                // the original patches and the callee range alone
                let aei = ae as int;
                let inside_callee = (cs as int) < aei && aei < (ce as int);
                let clear_of_old = forall|i: int|
                    0 <= i < o0.len() ==> range_disjoint(#[trigger] o0[i], aei, aei);
                assert(ops2 == insert_op(ops1, iop1));
                assert(iop1.start == ce && iop1.end == ce);
                if !inside_callee && clear_of_old {
                    assert(range_disjoint(rop, aei, aei));
                    lemma_insert_op_disjoint(o0, rop, aei, aei);
                    assert(range_disjoint(iop1, aei, aei));
                    lemma_insert_op_disjoint(ops1, iop1, aei, aei);
                }
                if !clear_of_old {
                    lemma_insert_op_keeps_overlap(o0, rop, aei, aei);
                    lemma_insert_op_keeps_overlap(ops1, iop1, aei, aei);
                }
                if inside_callee {
                    lemma_insert_op_has_new(o0, rop);
                    let w = choose|w: int| 0 <= w < ops1.len() && #[trigger] ops1[w] == rop;
                    assert(!range_disjoint(ops1[w], aei, aei));
                    lemma_insert_op_keeps_overlap(ops1, iop1, aei, aei);
                }
            }
            match source.insert(ae, suffix.as_str()) {
                Ok(_) => {},
                Err(e) => {
                    return Err(e);
                },
            }
        }
        ctx.runtime_requirements.insert(RuntimeGlobal::Require);
        Ok(())
    }
}

} // verus!
