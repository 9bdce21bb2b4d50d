//! Usage-propagation ("tree-shaking") analysis: a worklist-based
//! reachability closure over the module graph that computes, per module,
//! which exported names are live, which modules bail out of static
//! analysis, and which modules the final output must include.
//!
//! The closure is characterized as the least triple of sets
//! (used exports, included modules, bailout modules) closed under the
//! propagation rules; the analyzer is proved to return exactly that
//! triple, so its result does not depend on processing order.

use vstd::prelude::*;

use crate::dependency::{DependencyCondition, ModuleGraphConnection};

verus! {

/// Classification of how an export is used. The analysis only ever
/// escalates a state, never resets it.
#[derive(Clone, Copy, Debug, PartialEq, Eq, Structural)]
pub enum UsageState {
    Unused,
    OnlyPropertyUsed,
    NoInfo,
    Used,
}

impl UsageState {
    /// Escalation rank: `Unused` is lowest, `Used` highest.
    pub open spec fn level(self) -> int {
        match self {
            UsageState::Unused => 0,
            UsageState::OnlyPropertyUsed => 1,
            UsageState::NoInfo => 2,
            UsageState::Used => 3,
        }
    }

    /// `self` is at most as used as `other`.
    pub open spec fn le(self, other: UsageState) -> bool {
        self.level() <= other.level()
    }
}

/// One export's usage record: its name, current usage state, mangle and
/// terminal-binding flags, the module that owns it, and, for a re-export,
/// the handle of the underlying export it forwards to.
#[derive(Debug)]
pub struct ExportInfo {
    pub name: Option<String>,
    pub usage: UsageState,
    pub target: Option<usize>,
    pub module: usize,
    pub can_mangle: bool,
    pub terminal_binding: bool,
}

impl ExportInfo {
    /// A fresh record owned by no module yet; the graph sets the owner when
    /// the record enters its arena.
    pub fn new(name: Option<String>, usage: UsageState, target: Option<usize>) -> (r: ExportInfo)
        ensures
            r.name == name,
            r.usage == usage,
            r.target == target,
            r.module == 0,
            r.can_mangle == true,
            r.terminal_binding == false,
    {
        ExportInfo { name, usage, target, module: 0, can_mangle: true, terminal_binding: false }
    }
}

/// Per-module table of export handles into the graph's export arena.
#[derive(Debug)]
pub struct ExportsInfo {
    pub exports: Vec<usize>,
}

/// A module: its identifier and its exports table.
#[derive(Debug)]
pub struct Module {
    pub identifier: String,
    pub exports_info: ExportsInfo,
}

/// The module graph: a module table, a typed arena of export records, and
/// the connections between modules.
#[derive(Debug)]
pub struct ModuleGraph {
    pub modules: Vec<Module>,
    pub export_info_map: Vec<ExportInfo>,
    pub connections: Vec<ModuleGraphConnection>,
}

/// A usage-analysis edge: a reference connecting a use site to a
/// declaration, an indirect import or re-export, a namespace re-export
/// binding, or a dynamic, non-staticizable reference. `owner` is the module
/// the reference occurs in; `export` is a handle into the export arena;
/// `module` of a dynamic variant is the module the reference points at.
#[derive(Clone, Copy, Debug, PartialEq, Eq, Structural)]
pub enum SymbolRef {
    Declaration { export: usize },
    Indirect { owner: usize, export: usize },
    Star { owner: usize, export: usize },
    Usage { owner: usize },
    Url { owner: usize, module: usize },
    Worker { owner: usize, module: usize },
}

impl ModuleGraph {
    /// Every export record names an existing module, and every handle in a
    /// module's exports table points at a record owned by that module.
    pub open spec fn wf(self) -> bool {
        &&& forall|e: int|
            0 <= e < self.export_info_map@.len() ==> (#[trigger] self.export_info_map@[e]).module
                < self.modules@.len()
        &&& forall|m: int, j: int|
            0 <= m < self.modules@.len() && 0 <= j < self.modules@[m].exports_info.exports@.len()
                ==> {
                &&& #[trigger] self.modules@[m].exports_info.exports@[j]
                    < self.export_info_map@.len()
                &&& self.export_info_map@[self.modules@[m].exports_info.exports@[j] as int].module
                    == m
            }
    }

    pub fn new() -> (r: ModuleGraph)
        ensures
            r.wf(),
            r.modules@.len() == 0,
            r.export_info_map@.len() == 0,
            r.connections@.len() == 0,
    {
        ModuleGraph { modules: Vec::new(), export_info_map: Vec::new(), connections: Vec::new() }
    }

    /// Decide well-formedness at run time, for graphs assembled outside the
    /// `add_*` methods (which preserve it by construction).
    pub fn check_wf(&self) -> (r: bool)
        ensures
            r == self.wf(),
    {
        let n_mod = self.modules.len();
        let n_exp = self.export_info_map.len();
        let mut e: usize = 0;
        while e < n_exp
            invariant
                e <= n_exp,
                n_exp == self.export_info_map@.len(),
                n_mod == self.modules@.len(),
                forall|j: int|
                    0 <= j < e ==> (#[trigger] self.export_info_map@[j]).module
                        < self.modules@.len(),
            decreases n_exp - e,
        {
            if self.export_info_map[e].module >= n_mod {
                assert(!self.wf());
                return false;
            }
            e = e + 1;
        }
        let mut m: usize = 0;
        while m < n_mod
            invariant
                m <= n_mod,
                n_exp == self.export_info_map@.len(),
                n_mod == self.modules@.len(),
                forall|j: int|
                    0 <= j < n_exp ==> (#[trigger] self.export_info_map@[j]).module
                        < self.modules@.len(),
                forall|mm: int, j: int|
                    0 <= mm < m && 0 <= j < self.modules@[mm].exports_info.exports@.len() ==> {
                        &&& #[trigger] self.modules@[mm].exports_info.exports@[j]
                            < self.export_info_map@.len()
                        &&& self.export_info_map@[self.modules@[mm].exports_info.exports@[j] as int].module
                            == mm
                    },
            decreases n_mod - m,
        {
            let n_handles = self.modules[m].exports_info.exports.len();
            let mut j: usize = 0;
            while j < n_handles
                invariant
                    j <= n_handles,
                    m < n_mod,
                    n_exp == self.export_info_map@.len(),
                    n_mod == self.modules@.len(),
                    n_handles == self.modules@[m as int].exports_info.exports@.len(),
                    forall|k: int|
                        0 <= k < j ==> {
                            &&& #[trigger] self.modules@[m as int].exports_info.exports@[k]
                                < self.export_info_map@.len()
                            &&& self.export_info_map@[self.modules@[m as int].exports_info.exports@[k] as int].module
                                == m
                        },
                decreases n_handles - j,
            {
                let h = self.modules[m].exports_info.exports[j];
                if h >= n_exp {
                    assert(!self.wf());
                    return false;
                }
                if self.export_info_map[h].module != m {
                    assert(!self.wf());
                    return false;
                }
                j = j + 1;
            }
            m = m + 1;
        }
        true
    }

    /// Add a module and return its identifier (its index in the table).
    pub fn add_module(&mut self, identifier: String) -> (r: usize)
        requires
            old(self).wf(),
        ensures
            final(self).wf(),
            r == old(self).modules@.len(),
            final(self).modules@.len() == old(self).modules@.len() + 1,
            final(self).modules@[r as int].identifier@ == identifier@,
            final(self).modules@[r as int].exports_info.exports@.len() == 0,
            forall|m: int|
                0 <= m < old(self).modules@.len() ==> final(self).modules@[m] == old(
                    self,
                ).modules@[m],
            final(self).export_info_map == old(self).export_info_map,
            final(self).connections == old(self).connections,
    {
        let id = self.modules.len();
        self.modules.push(
            Module { identifier, exports_info: ExportsInfo { exports: Vec::new() } },
        );
        id
    }

    /// Put an export record into the arena as an export of `module` and
    /// return its handle. The record's owner field is set to `module`.
    pub fn add_export(&mut self, module: usize, info: ExportInfo) -> (r: usize)
        requires
            old(self).wf(),
            module < old(self).modules@.len(),
        ensures
            final(self).wf(),
            r == old(self).export_info_map@.len(),
            final(self).export_info_map@.len() == old(self).export_info_map@.len() + 1,
            final(self).export_info_map@[r as int].name == info.name,
            final(self).export_info_map@[r as int].usage == info.usage,
            final(self).export_info_map@[r as int].target == info.target,
            final(self).export_info_map@[r as int].can_mangle == info.can_mangle,
            final(self).export_info_map@[r as int].terminal_binding == info.terminal_binding,
            final(self).export_info_map@[r as int].module == module,
            forall|e: int|
                0 <= e < old(self).export_info_map@.len() ==> final(self).export_info_map@[e]
                    == old(self).export_info_map@[e],
            final(self).modules@.len() == old(self).modules@.len(),
            final(self).modules@[module as int].identifier == old(
                self,
            ).modules@[module as int].identifier,
            final(self).modules@[module as int].exports_info.exports@ == old(
                self,
            ).modules@[module as int].exports_info.exports@.push(r),
            forall|m: int|
                0 <= m < old(self).modules@.len() && m != module ==> final(self).modules@[m] == old(
                    self,
                ).modules@[m],
            final(self).connections == old(self).connections,
    {
        let handle = self.export_info_map.len();
        let owned = ExportInfo {
            name: info.name,
            usage: info.usage,
            target: info.target,
            module,
            can_mangle: info.can_mangle,
            terminal_binding: info.terminal_binding,
        };
        self.export_info_map.push(owned);
        let m = &mut self.modules[module];
        m.exports_info.exports.push(handle);
        handle
    }

    /// Add a connection between modules.
    pub fn add_connection(&mut self, connection: ModuleGraphConnection)
        requires
            old(self).wf(),
        ensures
            final(self).wf(),
            final(self).connections@ == old(self).connections@.push(connection),
            final(self).modules == old(self).modules,
            final(self).export_info_map == old(self).export_info_map,
    {
        self.connections.push(connection);
    }
}

/// First handle in `handles` whose export record carries the name `name`.
pub open spec fn find_in_handles(g: ModuleGraph, handles: Seq<usize>, name: Seq<char>) -> Option<
    usize,
>
    decreases handles.len(),
{
    if handles.len() == 0 {
        None
    } else {
        let h = handles[0];
        if h < g.export_info_map@.len() && (g.export_info_map@[h as int].name matches Some(n)
            && n@ == name) {
            Some(h)
        } else {
            find_in_handles(g, handles.drop_first(), name)
        }
    }
}

/// Handle of the export named `name` in `module`'s exports table.
pub open spec fn find_export(g: ModuleGraph, module: int, name: Seq<char>) -> Option<usize> {
    find_in_handles(g, g.modules@[module].exports_info.exports@, name)
}

/// The name an export resolves to in generated code: the original name when
/// tree-shaking is disabled or the export must be kept, and none when the
/// export is unknown, or proven unused and mangle-eligible (it is then
/// omitted from the output).
pub open spec fn used_name_spec(
    g: ModuleGraph,
    module: int,
    name: Seq<char>,
    tree_shaking: bool,
) -> Option<Seq<char>> {
    if !tree_shaking {
        Some(name)
    } else {
        match find_export(g, module, name) {
            None => None,
            Some(h) => {
                let info = g.export_info_map@[h as int];
                if info.usage == UsageState::Unused && info.can_mangle {
                    None
                } else {
                    Some(name)
                }
            },
        }
    }
}

impl ModuleGraph {
    /// Resolve the generated-code name of `module`'s export `name`: the
    /// original name when tree-shaking is off or the export is live or must
    /// be kept, none when the export is dead and mangle-eligible. The graph
    /// carries one usage state per export, so the resolution holds uniformly
    /// across every runtime of the build.
    pub fn get_used_name(&self, module: usize, name: &String, tree_shaking: bool) -> (r: Option<
        String,
    >)
        requires
            self.wf(),
            module < self.modules@.len(),
        ensures
            r is Some <==> used_name_spec(*self, module as int, name@, tree_shaking) is Some,
            r matches Some(s) ==> used_name_spec(*self, module as int, name@, tree_shaking)
                == Some(s@) && s@ == name@,
    {
        if !tree_shaking {
            return Some(name.clone());
        }
        let ghost hs = self.modules@[module as int].exports_info.exports@;
        let n_handles = self.modules[module].exports_info.exports.len();
        let mut j: usize = 0;
        proof {
            assert(hs.skip(0) =~= hs);
        }
        while j < n_handles
            invariant
                tree_shaking,
                self.wf(),
                module < self.modules@.len(),
                hs == self.modules@[module as int].exports_info.exports@,
                n_handles == hs.len(),
                j <= hs.len(),
                find_in_handles(*self, hs, name@) == find_in_handles(
                    *self,
                    hs.skip(j as int),
                    name@,
                ),
            decreases hs.len() - j,
        {
            let h = self.modules[module].exports_info.exports[j];
            proof {
                assert(hs.skip(j as int)[0] == hs[j as int]);
                assert(hs.skip(j as int).drop_first() =~= hs.skip(j as int + 1));
            }
            let info = &self.export_info_map[h];
            let name_matches = match &info.name {
                Some(n) => n.eq(name),
                None => false,
            };
            if name_matches {
                assert(find_export(*self, module as int, name@) == Some(h));
                if info.usage == UsageState::Unused && info.can_mangle {
                    return None;
                } else {
                    return Some(name.clone());
                }
            }
            j = j + 1;
        }
        proof {
            assert(hs.skip(j as int).len() == 0);
        }
        None
    }
}

// ---------------------------------------------------------------------------
// Closure rules of the analysis
// ---------------------------------------------------------------------------
/// A valid entry module is included.
pub open spec fn entry_rule(entry: usize, inc: Seq<bool>) -> bool {
    entry < inc.len() ==> inc[entry as int]
}

/// Rule of one symbol reference. A declaration seed is used outright; an
/// indirect or star edge whose owner is included marks its target export
/// used; a dynamic (URL/worker) reference whose owner is included bails the
/// referenced module out; a reference whose target does not resolve bails
/// its owner out.
pub open spec fn ref_rule(r: SymbolRef, used: Seq<bool>, inc: Seq<bool>, bail: Seq<bool>) -> bool {
    match r {
        SymbolRef::Declaration { export } => export < used.len() ==> used[export as int],
        SymbolRef::Indirect { owner, export } => owner < inc.len() && inc[owner as int] ==> (if export
            < used.len() {
            used[export as int]
        } else {
            bail[owner as int]
        }),
        SymbolRef::Star { owner, export } => owner < inc.len() && inc[owner as int] ==> (if export
            < used.len() {
            used[export as int]
        } else {
            bail[owner as int]
        }),
        SymbolRef::Usage { owner } => true,
        SymbolRef::Url { owner, module } => owner < inc.len() && inc[owner as int] ==> (if module
            < bail.len() {
            bail[module as int]
        } else {
            bail[owner as int]
        }),
        SymbolRef::Worker { owner, module } => owner < inc.len() && inc[owner as int] ==> (if module
            < bail.len() {
            bail[module as int]
        } else {
            bail[owner as int]
        }),
    }
}

/// Rules of one export record: a used export includes its module; a used
/// re-export marks the underlying export used (or bails its owner out when
/// the target does not resolve); every export of a bailed-out module is
/// used.
pub open spec fn export_rule(
    info: ExportInfo,
    e: int,
    used: Seq<bool>,
    inc: Seq<bool>,
    bail: Seq<bool>,
) -> bool {
    &&& used[e] ==> inc[info.module as int]
    &&& (used[e] && info.target is Some) ==> {
        let t = info.target->0 as int;
        if t < used.len() {
            used[t]
        } else {
            bail[info.module as int]
        }
    }
    &&& bail[info.module as int] ==> used[e]
}

/// Whether a connection's activation condition holds under the current used
/// set. A condition may depend on an export's liveness, making activation a
/// fixed-point input of the analysis.
pub open spec fn cond_active(c: DependencyCondition, used: Seq<bool>) -> bool {
    match c {
        DependencyCondition::False => false,
        DependencyCondition::Active => true,
        DependencyCondition::DependsOnExport { export } => export < used.len() && used[
            export as int
        ],
    }
}

/// An active connection from an included module includes its target.
pub open spec fn conn_rule(c: ModuleGraphConnection, used: Seq<bool>, inc: Seq<bool>) -> bool {
    c.from < inc.len() && c.to < inc.len() && inc[c.from as int] && cond_active(c.condition, used)
        ==> inc[c.to as int]
}

/// The mark vectors have the shape of the graph.
pub open spec fn sizes_ok(g: ModuleGraph, used: Seq<bool>, inc: Seq<bool>, bail: Seq<bool>) -> bool {
    &&& used.len() == g.export_info_map@.len()
    &&& inc.len() == g.modules@.len()
    &&& bail.len() == g.modules@.len()
}

/// The triple (used, included, bailout) is closed under every propagation
/// rule, with every module of a bailed-out module fully included: the
/// conservative-safety fallback for references that cannot be statically
/// resolved.
pub open spec fn closed(
    g: ModuleGraph,
    entries: Seq<usize>,
    refs: Seq<SymbolRef>,
    used: Seq<bool>,
    inc: Seq<bool>,
    bail: Seq<bool>,
) -> bool {
    &&& forall|k: int| 0 <= k < entries.len() ==> entry_rule(#[trigger] entries[k], inc)
    &&& forall|k: int| 0 <= k < refs.len() ==> ref_rule(#[trigger] refs[k], used, inc, bail)
    &&& forall|e: int|
        0 <= e < used.len() ==> export_rule(#[trigger] g.export_info_map@[e], e, used, inc, bail)
    &&& forall|m: int| 0 <= m < bail.len() && bail[m] ==> inc[m]
    &&& forall|k: int|
        0 <= k < g.connections@.len() ==> conn_rule(#[trigger] g.connections@[k], used, inc)
}

/// Pointwise ordering of mark vectors.
pub open spec fn seq_le(a: Seq<bool>, b: Seq<bool>) -> bool {
    a.len() == b.len() && forall|i: int| 0 <= i < a.len() && a[i] ==> b[i]
}

/// The first triple marks no more than the second.
pub open spec fn below(
    u1: Seq<bool>,
    i1: Seq<bool>,
    b1: Seq<bool>,
    u2: Seq<bool>,
    i2: Seq<bool>,
    b2: Seq<bool>,
) -> bool {
    seq_le(u1, u2) && seq_le(i1, i2) && seq_le(b1, b2)
}

/// The triple is the least one closed under the rules: it is closed, and it
/// marks no more than any closed triple. This pins the analysis result
/// down uniquely, so processing order cannot affect it.
pub open spec fn least_closed(
    g: ModuleGraph,
    entries: Seq<usize>,
    refs: Seq<SymbolRef>,
    used: Seq<bool>,
    inc: Seq<bool>,
    bail: Seq<bool>,
) -> bool {
    &&& sizes_ok(g, used, inc, bail)
    &&& closed(g, entries, refs, used, inc, bail)
    &&& forall|u2: Seq<bool>, i2: Seq<bool>, b2: Seq<bool>|
        sizes_ok(g, u2, i2, b2) && #[trigger] closed(g, entries, refs, u2, i2, b2) ==> below(
            used,
            inc,
            bail,
            u2,
            i2,
            b2,
        )
}

/// Number of unmarked entries: the termination measure of the worklist.
pub open spec fn count_false(s: Seq<bool>) -> nat
    decreases s.len(),
{
    if s.len() == 0 {
        0
    } else {
        (if s[0] {
            0nat
        } else {
            1nat
        }) + count_false(s.drop_first())
    }
}

proof fn lemma_count_false_update(s: Seq<bool>, i: int)
    requires
        0 <= i < s.len(),
        !s[i],
    ensures
        count_false(s.update(i, true)) == count_false(s) - 1,
    decreases s.len(),
{
    let t = s.update(i, true);
    if i == 0 {
        assert(t.drop_first() =~= s.drop_first());
    } else {
        assert(t[0] == s[0]);
        assert(t.drop_first() =~= s.drop_first().update(i - 1, true));
        lemma_count_false_update(s.drop_first(), i - 1);
    }
}

/// One newly derivable fact: an export becomes used, or a module becomes
/// included or bailed out.
#[derive(Clone, Copy, Debug, PartialEq, Eq, Structural)]
enum Fact {
    UsedExport(usize),
    IncludeModule(usize),
    BailModule(usize),
}

/// The fact is marked in the given triple.
spec fn fact_holds(f: Fact, used: Seq<bool>, inc: Seq<bool>, bail: Seq<bool>) -> bool {
    match f {
        Fact::UsedExport(e) => e < used.len() && used[e as int],
        Fact::IncludeModule(m) => m < inc.len() && inc[m as int],
        Fact::BailModule(m) => m < bail.len() && bail[m as int],
    }
}

/// The fact holds in every closed triple that extends the current marks:
/// marking it cannot overshoot any closed triple.
spec fn justified(
    g: ModuleGraph,
    entries: Seq<usize>,
    refs: Seq<SymbolRef>,
    used: Seq<bool>,
    inc: Seq<bool>,
    bail: Seq<bool>,
    f: Fact,
) -> bool {
    forall|u2: Seq<bool>, i2: Seq<bool>, b2: Seq<bool>|
        sizes_ok(g, u2, i2, b2) && #[trigger] closed(g, entries, refs, u2, i2, b2) && below(
            used,
            inc,
            bail,
            u2,
            i2,
            b2,
        ) ==> fact_holds(f, u2, i2, b2)
}

/// Evaluate a connection condition against the current used set.
fn eval_condition(c: &DependencyCondition, used: &Vec<bool>) -> (r: bool)
    ensures
        r == cond_active(*c, used@),
{
    match c {
        DependencyCondition::False => false,
        DependencyCondition::Active => true,
        DependencyCondition::DependsOnExport { export } => *export < used.len() && used[*export],
    }
}

/// Scan all rules for one applicable step whose conclusion is not yet
/// marked. Returns `None` exactly when the current marks are closed.
#[verifier::rlimit(100)]
fn find_step(
    g: &ModuleGraph,
    entries: &Vec<usize>,
    refs: &Vec<SymbolRef>,
    used: &Vec<bool>,
    inc: &Vec<bool>,
    bail: &Vec<bool>,
) -> (r: Option<Fact>)
    requires
        g.wf(),
        sizes_ok(*g, used@, inc@, bail@),
    ensures
        r is None ==> closed(*g, entries@, refs@, used@, inc@, bail@),
        r matches Some(f) ==> !fact_holds(f, used@, inc@, bail@) && justified(
            *g,
            entries@,
            refs@,
            used@,
            inc@,
            bail@,
            f,
        ) && (f matches Fact::UsedExport(e) ==> e < used@.len()) && (f
            matches Fact::IncludeModule(m) ==> m < inc@.len()) && (f matches Fact::BailModule(m)
            ==> m < bail@.len()),
{
    let n_mod = g.modules.len();
    let n_exp = g.export_info_map.len();

    // entry modules
    let mut k: usize = 0;
    while k < entries.len()
        invariant
            k <= entries@.len(),
            sizes_ok(*g, used@, inc@, bail@),
            n_mod == g.modules@.len(),
            forall|j: int| 0 <= j < k ==> entry_rule(#[trigger] entries@[j], inc@),
        decreases entries@.len() - k,
    {
        let m = entries[k];
        if m < n_mod && !inc[m] {
            proof {
                assert forall|u2: Seq<bool>, i2: Seq<bool>, b2: Seq<bool>|
                    sizes_ok(*g, u2, i2, b2) && #[trigger] closed(*g, entries@, refs@, u2, i2, b2)
                        && below(used@, inc@, bail@, u2, i2, b2) implies fact_holds(
                    Fact::IncludeModule(m),
                    u2,
                    i2,
                    b2,
                ) by {
                    assert(entry_rule(entries@[k as int], i2));
                }
            }
            return Some(Fact::IncludeModule(m));
        }
        k = k + 1;
    }

    // symbol references
    let mut k: usize = 0;
    while k < refs.len()
        invariant
            k <= refs@.len(),
            sizes_ok(*g, used@, inc@, bail@),
            n_mod == g.modules@.len(),
            n_exp == g.export_info_map@.len(),
            forall|j: int| 0 <= j < k ==> ref_rule(#[trigger] refs@[j], used@, inc@, bail@),
        decreases refs@.len() - k,
    {
        let r = refs[k];
        let step: Option<Fact> = match r {
            SymbolRef::Declaration { export } => {
                if export < n_exp && !used[export] {
                    Some(Fact::UsedExport(export))
                } else {
                    None
                }
            },
            SymbolRef::Indirect { owner, export } => {
                if owner < n_mod && inc[owner] {
                    if export < n_exp {
                        if !used[export] {
                            Some(Fact::UsedExport(export))
                        } else {
                            None
                        }
                    } else {
                        if !bail[owner] {
                            Some(Fact::BailModule(owner))
                        } else {
                            None
                        }
                    }
                } else {
                    None
                }
            },
            SymbolRef::Star { owner, export } => {
                if owner < n_mod && inc[owner] {
                    if export < n_exp {
                        if !used[export] {
                            Some(Fact::UsedExport(export))
                        } else {
                            None
                        }
                    } else {
                        if !bail[owner] {
                            Some(Fact::BailModule(owner))
                        } else {
                            None
                        }
                    }
                } else {
                    None
                }
            },
            SymbolRef::Usage { .. } => None,
            SymbolRef::Url { owner, module } => {
                if owner < n_mod && inc[owner] {
                    if module < n_mod {
                        if !bail[module] {
                            Some(Fact::BailModule(module))
                        } else {
                            None
                        }
                    } else {
                        if !bail[owner] {
                            Some(Fact::BailModule(owner))
                        } else {
                            None
                        }
                    }
                } else {
                    None
                }
            },
            SymbolRef::Worker { owner, module } => {
                if owner < n_mod && inc[owner] {
                    if module < n_mod {
                        if !bail[module] {
                            Some(Fact::BailModule(module))
                        } else {
                            None
                        }
                    } else {
                        if !bail[owner] {
                            Some(Fact::BailModule(owner))
                        } else {
                            None
                        }
                    }
                } else {
                    None
                }
            },
        };
        match step {
            Some(f) => {
                proof {
                    assert forall|u2: Seq<bool>, i2: Seq<bool>, b2: Seq<bool>|
                        sizes_ok(*g, u2, i2, b2) && #[trigger] closed(
                            *g,
                            entries@,
                            refs@,
                            u2,
                            i2,
                            b2,
                        ) && below(used@, inc@, bail@, u2, i2, b2) implies fact_holds(
                        f,
                        u2,
                        i2,
                        b2,
                    ) by {
                        assert(ref_rule(refs@[k as int], u2, i2, b2));
                    }
                }
                return Some(f);
            },
            None => {
                assert(ref_rule(refs@[k as int], used@, inc@, bail@));
            },
        }
        k = k + 1;
    }

    // export records: inclusion of owners, re-export targets, bailout spread
    let mut e: usize = 0;
    while e < n_exp
        invariant
            e <= n_exp,
            sizes_ok(*g, used@, inc@, bail@),
            g.wf(),
            n_mod == g.modules@.len(),
            n_exp == g.export_info_map@.len(),
            forall|j: int|
                0 <= j < e ==> export_rule(
                    #[trigger] g.export_info_map@[j],
                    j,
                    used@,
                    inc@,
                    bail@,
                ),
        decreases n_exp - e,
    {
        let info = &g.export_info_map[e];
        let step: Option<Fact> = if used[e] && !inc[info.module] {
            Some(Fact::IncludeModule(info.module))
        } else if used[e] && info.target.is_some() {
            let t = *info.target.as_ref().unwrap();
            if t < n_exp {
                if !used[t] {
                    Some(Fact::UsedExport(t))
                } else {
                    None
                }
            } else {
                if !bail[info.module] {
                    Some(Fact::BailModule(info.module))
                } else {
                    None
                }
            }
        } else if bail[info.module] && !used[e] {
            Some(Fact::UsedExport(e))
        } else {
            None
        };
        match step {
            Some(f) => {
                proof {
                    assert forall|u2: Seq<bool>, i2: Seq<bool>, b2: Seq<bool>|
                        sizes_ok(*g, u2, i2, b2) && #[trigger] closed(
                            *g,
                            entries@,
                            refs@,
                            u2,
                            i2,
                            b2,
                        ) && below(used@, inc@, bail@, u2, i2, b2) implies fact_holds(
                        f,
                        u2,
                        i2,
                        b2,
                    ) by {
                        assert(export_rule(g.export_info_map@[e as int], e as int, u2, i2, b2));
                    }
                }
                return Some(f);
            },
            None => {
                assert(export_rule(g.export_info_map@[e as int], e as int, used@, inc@, bail@));
            },
        }
        e = e + 1;
    }

    // bailed-out modules are included
    let mut m: usize = 0;
    while m < n_mod
        invariant
            m <= n_mod,
            sizes_ok(*g, used@, inc@, bail@),
            n_mod == g.modules@.len(),
            forall|j: int| 0 <= j < m && bail@[j] ==> inc@[j],
        decreases n_mod - m,
    {
        if bail[m] && !inc[m] {
            proof {
                assert forall|u2: Seq<bool>, i2: Seq<bool>, b2: Seq<bool>|
                    sizes_ok(*g, u2, i2, b2) && #[trigger] closed(*g, entries@, refs@, u2, i2, b2)
                        && below(used@, inc@, bail@, u2, i2, b2) implies fact_holds(
                    Fact::IncludeModule(m),
                    u2,
                    i2,
                    b2,
                ) by {
                    assert(b2[m as int]);
                }
            }
            return Some(Fact::IncludeModule(m));
        }
        m = m + 1;
    }

    // connections
    let mut k: usize = 0;
    while k < g.connections.len()
        invariant
            k <= g.connections@.len(),
            sizes_ok(*g, used@, inc@, bail@),
            n_mod == g.modules@.len(),
            forall|j: int| 0 <= j < k ==> conn_rule(#[trigger] g.connections@[j], used@, inc@),
        decreases g.connections@.len() - k,
    {
        let c = &g.connections[k];
        if c.from < n_mod && c.to < n_mod && inc[c.from] && eval_condition(&c.condition, used)
            && !inc[c.to] {
            proof {
                assert forall|u2: Seq<bool>, i2: Seq<bool>, b2: Seq<bool>|
                    sizes_ok(*g, u2, i2, b2) && #[trigger] closed(*g, entries@, refs@, u2, i2, b2)
                        && below(used@, inc@, bail@, u2, i2, b2) implies fact_holds(
                    Fact::IncludeModule(c.to),
                    u2,
                    i2,
                    b2,
                ) by {
                    assert(cond_active(c.condition, u2)) by {
                        match c.condition {
                            DependencyCondition::DependsOnExport { export } => {
                                assert(used@[export as int]);
                            },
                            _ => {},
                        }
                    }
                    assert(conn_rule(g.connections@[k as int], u2, i2));
                }
            }
            return Some(Fact::IncludeModule(c.to));
        }
        assert(conn_rule(g.connections@[k as int], used@, inc@));
        k = k + 1;
    }

    None
}

/// Worklist-based reachability from the entry symbols: returns the marks
/// for used exports, included modules, and bailout modules. The result is
/// the least triple closed under the propagation rules, so it is a fixed
/// point, and it is independent of processing order.
pub fn analyze_usage(g: &ModuleGraph, entries: &Vec<usize>, refs: &Vec<SymbolRef>) -> (r: (
    Vec<bool>,
    Vec<bool>,
    Vec<bool>,
))
    requires
        g.wf(),
    ensures
        least_closed(*g, entries@, refs@, r.0@, r.1@, r.2@),
{
    let n_exp = g.export_info_map.len();
    let n_mod = g.modules.len();
    let mut used: Vec<bool> = vec![false; n_exp];
    let mut inc: Vec<bool> = vec![false; n_mod];
    let mut bail: Vec<bool> = vec![false; n_mod];
    proof {
        assert forall|u2: Seq<bool>, i2: Seq<bool>, b2: Seq<bool>|
            sizes_ok(*g, u2, i2, b2) && #[trigger] closed(*g, entries@, refs@, u2, i2, b2) implies below(
            used@,
            inc@,
            bail@,
            u2,
            i2,
            b2,
        ) by {
            assert(forall|i: int| 0 <= i < used@.len() ==> !used@[i]);
            assert(forall|i: int| 0 <= i < inc@.len() ==> !inc@[i]);
            assert(forall|i: int| 0 <= i < bail@.len() ==> !bail@[i]);
        }
    }
    loop
        invariant
            g.wf(),
            sizes_ok(*g, used@, inc@, bail@),
            forall|u2: Seq<bool>, i2: Seq<bool>, b2: Seq<bool>|
                sizes_ok(*g, u2, i2, b2) && #[trigger] closed(*g, entries@, refs@, u2, i2, b2)
                    ==> below(used@, inc@, bail@, u2, i2, b2),
        decreases count_false(used@) + count_false(inc@) + count_false(bail@),
    {
        let step = find_step(g, entries, refs, &used, &inc, &bail);
        match step {
            None => {
                return (used, inc, bail);
            },
            Some(f) => {
                proof {
                    match f {
                        Fact::UsedExport(e) => {
                            lemma_count_false_update(used@, e as int);
                        },
                        Fact::IncludeModule(m) => {
                            lemma_count_false_update(inc@, m as int);
                        },
                        Fact::BailModule(m) => {
                            lemma_count_false_update(bail@, m as int);
                        },
                    }
                }
                let ghost u0 = used@;
                let ghost i0 = inc@;
                let ghost b0 = bail@;
                match f {
                    Fact::UsedExport(e) => {
                        used.set(e, true);
                    },
                    Fact::IncludeModule(m) => {
                        inc.set(m, true);
                    },
                    Fact::BailModule(m) => {
                        bail.set(m, true);
                    },
                }
                proof {
                    assert forall|u2: Seq<bool>, i2: Seq<bool>, b2: Seq<bool>|
                        sizes_ok(*g, u2, i2, b2) && #[trigger] closed(
                            *g,
                            entries@,
                            refs@,
                            u2,
                            i2,
                            b2,
                        ) implies below(used@, inc@, bail@, u2, i2, b2) by {
                        assert(below(u0, i0, b0, u2, i2, b2));
                        assert(fact_holds(f, u2, i2, b2));
                    }
                }
            },
        }
    }
}

/// Escalate the graph's per-export usage states by the analysis marks:
/// a marked export becomes `Used`, every other state is kept. A state
/// never decreases.
pub fn apply_usage(g: &mut ModuleGraph, used: &Vec<bool>)
    requires
        old(g).wf(),
        used@.len() == old(g).export_info_map@.len(),
    ensures
        final(g).wf(),
        final(g).modules == old(g).modules,
        final(g).connections == old(g).connections,
        final(g).export_info_map@.len() == old(g).export_info_map@.len(),
        forall|e: int|
            0 <= e < old(g).export_info_map@.len() ==> {
                let o = #[trigger] old(g).export_info_map@[e];
                let n = final(g).export_info_map@[e];
                &&& n.name == o.name
                &&& n.target == o.target
                &&& n.module == o.module
                &&& n.can_mangle == o.can_mangle
                &&& n.terminal_binding == o.terminal_binding
                &&& n.usage == (if used@[e] {
                    UsageState::Used
                } else {
                    o.usage
                })
                &&& o.usage.le(n.usage)
            },
{
    let n_exp = g.export_info_map.len();
    let mut e: usize = 0;
    while e < n_exp
        invariant
            g.wf(),
            used@.len() == n_exp,
            n_exp == g.export_info_map@.len(),
            e <= n_exp,
            g.modules == old(g).modules,
            g.connections == old(g).connections,
            old(g).export_info_map@.len() == n_exp,
            forall|j: int|
                e <= j < n_exp ==> #[trigger] g.export_info_map@[j] == old(g).export_info_map@[j],
            forall|j: int|
                0 <= j < e ==> {
                    let o = #[trigger] old(g).export_info_map@[j];
                    let n = g.export_info_map@[j];
                    &&& n.name == o.name
                    &&& n.target == o.target
                    &&& n.module == o.module
                    &&& n.can_mangle == o.can_mangle
                    &&& n.terminal_binding == o.terminal_binding
                    &&& n.usage == (if used@[j] {
                        UsageState::Used
                    } else {
                        o.usage
                    })
                },
        decreases n_exp - e,
    {
        if used[e] {
            let info = &g.export_info_map[e];
            let updated = ExportInfo {
                name: match &info.name {
                    Some(n) => Some(n.clone()),
                    None => None,
                },
                usage: UsageState::Used,
                target: info.target,
                module: info.module,
                can_mangle: info.can_mangle,
                terminal_binding: info.terminal_binding,
            };
            g.export_info_map.set(e, updated);
        }
        e = e + 1;
    }
}

/// Fixed-point idempotence: the analysis result is uniquely determined by
/// the graph, entries and references, so re-running the analyzer on an
/// unchanged graph yields an identical used-export set (and identical
/// inclusion and bailout sets).
pub proof fn lemma_fixed_point_unique(
    g: ModuleGraph,
    entries: Seq<usize>,
    refs: Seq<SymbolRef>,
    u1: Seq<bool>,
    i1: Seq<bool>,
    b1: Seq<bool>,
    u2: Seq<bool>,
    i2: Seq<bool>,
    b2: Seq<bool>,
)
    requires
        least_closed(g, entries, refs, u1, i1, b1),
        least_closed(g, entries, refs, u2, i2, b2),
    ensures
        u1 =~= u2,
        i1 =~= i2,
        b1 =~= b2,
{
    assert(below(u1, i1, b1, u2, i2, b2));
    assert(below(u2, i2, b2, u1, i1, b1));
    assert forall|i: int| 0 <= i < u1.len() implies u1[i] == u2[i] by {
        assert(u1[i] ==> u2[i]);
        assert(u2[i] ==> u1[i]);
    }
    assert forall|i: int| 0 <= i < i1.len() implies i1[i] == i2[i] by {
        assert(i1[i] ==> i2[i]);
        assert(i2[i] ==> i1[i]);
    }
    assert forall|i: int| 0 <= i < b1.len() implies b1[i] == b2[i] by {
        assert(b1[i] ==> b2[i]);
        assert(b2[i] ==> b1[i]);
    }
}

/// Monotonicity: within one analysis pass no export's usage state ever
/// decreases; escalating by the analysis marks keeps every prior state.
pub proof fn lemma_usage_monotone(before: UsageState, marked: bool)
    ensures
        before.le(
            if marked {
                UsageState::Used
            } else {
                before
            },
        ),
{
}

} // verus!
