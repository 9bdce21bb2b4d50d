//! Recognition of `new URL(..., import.meta.url)` and `new Worker(...)`
//! patterns in parsed modules.
//!
//! The parser collaborator hands the library a plain model of the pieces of
//! the syntax tree this logic reads: an identifier is its symbol plus the
//! hygiene context it resolved in, a call argument is a string literal, the
//! `import.meta.url` expression, or anything else, with its source span.

use vstd::prelude::*;

verus! {

/// An identifier occurrence: its symbol and the hygiene (syntax) context
/// it belongs to.
#[derive(Debug, Clone)]
pub struct Ident {
    pub sym: String,
    pub ctxt: u32,
}

/// A call argument as far as this logic reads it: a string literal with
/// its value, the `import.meta.url` member expression (compared structurally,
/// spans ignored), or any other expression.
#[derive(Debug, Clone)]
pub enum ArgExpr {
    StrLit { value: String, span_lo: u32, span_hi: u32 },
    ImportMetaUrl { span_lo: u32, span_hi: u32 },
    Other { span_lo: u32, span_hi: u32 },
}

/// A call argument with its spread flag.
#[derive(Debug, Clone)]
pub struct ExprOrSpread {
    pub spread: bool,
    pub expr: ArgExpr,
}

/// A `new` expression: its callee when that is a plain identifier, and its
/// arguments.
#[derive(Debug, Clone)]
pub struct NewExpr {
    pub callee_ident: Option<Ident>,
    pub args: Vec<ExprOrSpread>,
}

/// The span and path of a matched `new URL(path, import.meta.url)`: the
/// start of the path literal, the end of the `import.meta.url` expression,
/// and the path value.
pub open spec fn match_new_url_spec(e: NewExpr) -> Option<(u32, u32, Seq<char>)> {
    match e.callee_ident {
        Some(id) => {
            if id.sym@ == "URL"@ && e.args@.len() >= 2 && !e.args@[0].spread && !e.args@[1].spread {
                match (e.args@[0].expr, e.args@[1].expr) {
                    (
                        ArgExpr::StrLit { value, span_lo, span_hi },
                        ArgExpr::ImportMetaUrl { span_lo: meta_lo, span_hi: meta_hi },
                    ) => Some((span_lo, meta_hi, value@)),
                    _ => None,
                }
            } else {
                None
            }
        },
        None => None,
    }
}

/// Recognize `new URL(<string literal>, import.meta.url)` and return the
/// span from the path literal to the end of `import.meta.url`, with the
/// path value.
pub fn match_new_url(new_expr: &NewExpr) -> (r: Option<(u32, u32, String)>)
    ensures
        r is Some <==> match_new_url_spec(*new_expr) is Some,
        r matches Some(t) ==> match_new_url_spec(*new_expr) == Some((t.0, t.1, t.2@)),
{
    let id = match &new_expr.callee_ident {
        Some(id) => id,
        None => {
            return None;
        },
    };
    if !id.sym.eq(&String::from_str("URL")) {
        return None;
    }
    if new_expr.args.len() < 2 {
        return None;
    }
    let first = &new_expr.args[0];
    let second = &new_expr.args[1];
    if first.spread || second.spread {
        return None;
    }
    match (&first.expr, &second.expr) {
        (
            ArgExpr::StrLit { value, span_lo, span_hi: _ },
            ArgExpr::ImportMetaUrl { span_lo: _, span_hi },
        ) => Some((*span_lo, *span_hi, value.clone())),
        _ => None,
    }
}

/// One recognized worker constructor: its name, and, when it came from an
/// import binding, the hygiene context the binding lives in.
#[derive(Debug)]
pub struct WorkerSyntax {
    pub word: String,
    pub ctxt: Option<u32>,
}

/// The identifier refers to this worker constructor: same symbol, and the
/// same hygiene context when the syntax is bound to one.
pub open spec fn syntax_matches(ws: WorkerSyntax, ident: Ident) -> bool {
    match ws.ctxt {
        Some(c) => ws.word@ == ident.sym@ && ident.ctxt == c,
        None => ws.word@ == ident.sym@,
    }
}

impl WorkerSyntax {
    pub fn new(word: String, ctxt: Option<u32>) -> (r: WorkerSyntax)
        ensures
            r.word@ == word@,
            r.ctxt == ctxt,
    {
        WorkerSyntax { word, ctxt }
    }

    pub fn matches(&self, ident: &Ident) -> (r: bool)
        ensures
            r == syntax_matches(*self, *ident),
    {
        match self.ctxt {
            Some(ctxt) => self.word.eq(&ident.sym) && ident.ctxt == ctxt,
            None => self.word.eq(&ident.sym),
        }
    }
}

/// The recognized worker constructors: context-bound import bindings and
/// context-free globals.
#[derive(Debug)]
pub struct WorkerSyntaxList {
    pub variables: Vec<WorkerSyntax>,
    pub globals: Vec<WorkerSyntax>,
}

/// Some entry of the list matches the identifier.
pub open spec fn list_matches(l: WorkerSyntaxList, ident: Ident) -> bool {
    (exists|i: int|
        0 <= i < l.variables@.len() && syntax_matches(#[trigger] l.variables@[i], ident)) || (
    exists|i: int| 0 <= i < l.globals@.len() && syntax_matches(#[trigger] l.globals@[i], ident))
}

/// The name and context of one recognized syntax.
pub open spec fn syntax_view(ws: WorkerSyntax) -> (Seq<char>, Option<u32>) {
    (ws.word@, ws.ctxt)
}

/// The names and contexts of the context-bound entries.
pub open spec fn var_views(l: WorkerSyntaxList) -> Seq<(Seq<char>, Option<u32>)> {
    l.variables@.map_values(|s: WorkerSyntax| syntax_view(s))
}

/// The names and contexts of the context-free entries.
pub open spec fn global_views(l: WorkerSyntaxList) -> Seq<(Seq<char>, Option<u32>)> {
    l.globals@.map_values(|s: WorkerSyntax| syntax_view(s))
}

/// The views of the context-bound syntaxes of a batch, in order.
pub open spec fn bound_views(batch: Seq<WorkerSyntax>) -> Seq<(Seq<char>, Option<u32>)>
    decreases batch.len(),
{
    if batch.len() == 0 {
        Seq::empty()
    } else {
        bound_views(batch.drop_last()) + (if batch.last().ctxt is Some {
            seq![syntax_view(batch.last())]
        } else {
            Seq::empty()
        })
    }
}

/// The views of the context-free syntaxes of a batch, in order.
pub open spec fn free_views(batch: Seq<WorkerSyntax>) -> Seq<(Seq<char>, Option<u32>)>
    decreases batch.len(),
{
    if batch.len() == 0 {
        Seq::empty()
    } else {
        free_views(batch.drop_last()) + (if batch.last().ctxt is None {
            seq![syntax_view(batch.last())]
        } else {
            Seq::empty()
        })
    }
}

impl WorkerSyntaxList {
    pub fn new() -> (r: WorkerSyntaxList)
        ensures
            r.variables@.len() == 0,
            r.globals@.len() == 0,
    {
        WorkerSyntaxList { variables: Vec::new(), globals: Vec::new() }
    }

    /// A context-bound syntax joins the variables, a context-free one the
    /// globals.
    pub fn push(&mut self, syntax: WorkerSyntax)
        ensures
            syntax.ctxt is Some ==> var_views(*final(self)) == var_views(*old(self)).push(
                syntax_view(syntax),
            ) && final(self).globals@ == old(self).globals@,
            syntax.ctxt is None ==> global_views(*final(self)) == global_views(*old(self)).push(
                syntax_view(syntax),
            ) && final(self).variables@ == old(self).variables@,
    {
        let ghost sv = syntax_view(syntax);
        if syntax.ctxt.is_some() {
            let ghost before = self.variables@;
            self.variables.push(syntax);
            proof {
                assert(var_views(*self) =~= before.map_values(
                    |s: WorkerSyntax| syntax_view(s),
                ).push(sv));
            }
        } else {
            let ghost before = self.globals@;
            self.globals.push(syntax);
            proof {
                assert(global_views(*self) =~= before.map_values(
                    |s: WorkerSyntax| syntax_view(s),
                ).push(sv));
            }
        }
    }

    /// Whether any recognized syntax matches the identifier.
    fn find_worker_syntax(&self, ident: &Ident) -> (r: bool)
        ensures
            r == list_matches(*self, *ident),
    {
        let mut i: usize = 0;
        while i < self.variables.len()
            invariant
                i <= self.variables@.len(),
                forall|j: int|
                    0 <= j < i ==> !syntax_matches(#[trigger] self.variables@[j], *ident),
            decreases self.variables@.len() - i,
        {
            if self.variables[i].matches(ident) {
                return true;
            }
            i = i + 1;
        }
        let mut i: usize = 0;
        while i < self.globals.len()
            invariant
                i <= self.globals@.len(),
                forall|j: int|
                    0 <= j < self.variables@.len() ==> !syntax_matches(
                        #[trigger] self.variables@[j],
                        *ident,
                    ),
                forall|j: int| 0 <= j < i ==> !syntax_matches(#[trigger] self.globals@[j], *ident),
            decreases self.globals@.len() - i,
        {
            if self.globals[i].matches(ident) {
                return true;
            }
            i = i + 1;
        }
        false
    }

    /// The `new` expression constructs a recognized worker: its callee is
    /// an identifier matching one of the recognized constructors.
    pub fn match_new_worker(&self, new_expr: &NewExpr) -> (r: bool)
        ensures
            r == match new_expr.callee_ident {
                Some(id) => list_matches(*self, id),
                None => false,
            },
    {
        match &new_expr.callee_ident {
            Some(id) => self.find_worker_syntax(id),
            None => false,
        }
    }

    /// Push every syntax of the batch: the context-bound ones join the
    /// variables, the context-free ones the globals, each in batch order.
    pub fn extend(&mut self, batch: Vec<WorkerSyntax>)
        ensures
            var_views(*final(self)) == var_views(*old(self)) + bound_views(batch@),
            global_views(*final(self)) == global_views(*old(self)) + free_views(batch@),
    {
        let n = batch.len();
        let mut i: usize = 0;
        proof {
            assert(batch@.subrange(0, 0) =~= Seq::<WorkerSyntax>::empty());
            assert(var_views(*self) =~= var_views(*self) + bound_views(batch@.subrange(0, 0)));
            assert(global_views(*self) =~= global_views(*self) + free_views(
                batch@.subrange(0, 0),
            ));
        }
        while i < n
            invariant
                i <= n,
                n == batch@.len(),
                var_views(*self) == var_views(*old(self)) + bound_views(batch@.subrange(0, i as int)),
                global_views(*self) == global_views(*old(self)) + free_views(
                    batch@.subrange(0, i as int),
                ),
            decreases n - i,
        {
            let syntax = WorkerSyntax { word: batch[i].word.clone(), ctxt: batch[i].ctxt };
            proof {
                assert(batch@.subrange(0, i as int + 1).drop_last() =~= batch@.subrange(
                    0,
                    i as int,
                ));
                assert(batch@.subrange(0, i as int + 1).last() == batch@[i as int]);
                assert(syntax_view(syntax) == syntax_view(batch@[i as int]));
            }
            let ghost vv = var_views(*self);
            let ghost gv = global_views(*self);
            self.push(syntax);
            proof {
                if syntax.ctxt is Some {
                    assert(var_views(*self) =~= var_views(*old(self)) + bound_views(
                        batch@.subrange(0, i as int + 1),
                    ));
                    assert(global_views(*self) =~= global_views(*old(self)) + free_views(
                        batch@.subrange(0, i as int + 1),
                    ));
                } else {
                    assert(global_views(*self) =~= global_views(*old(self)) + free_views(
                        batch@.subrange(0, i as int + 1),
                    ));
                    assert(var_views(*self) =~= var_views(*old(self)) + bound_views(
                        batch@.subrange(0, i as int + 1),
                    ));
                }
            }
            i = i + 1;
        }
        proof {
            assert(batch@.subrange(0, n as int) =~= batch@);
        }
    }
}

/// An import declaration as far as the scanner reads it: the module source
/// string and the specifiers, each with the local binding it introduces and,
/// for a named import, the imported name when it differs from the local one.
#[derive(Debug, Clone)]
pub struct ImportDecl {
    pub src: String,
    pub specifiers: Vec<ImportSpecifier>,
}

#[derive(Debug, Clone)]
pub enum ImportSpecifier {
    Default { local: Ident },
    Named { local: Ident, imported: Option<String> },
    Namespace { local: Ident },
}

/// How a configured worker pattern `"<ids> from <source>"` splits into the
/// imported binding list and the module source. The split is performed by
/// the regex crate on a fixed pattern and depends on the string alone.
pub uninterp spec fn worker_from_parts(s: Seq<char>) -> Option<(Seq<char>, Seq<char>)>;

/// Relies on regex::Regex::captures with the fixed pattern
/// `^(.+?)(\(\))?\s+from\s+(.+)$`: capture group 1 is the imported binding
/// (an optional `()` suffix dropped), group 3 the module source; no match
/// means the string is a plain global constructor name.
#[verifier::external_body]
fn worker_from_captures(s: &str) -> (r: Option<(String, String)>)
    ensures
        r is Some <==> worker_from_parts(s@) is Some,
        r matches Some(p) ==> worker_from_parts(s@) == Some((p.0@, p.1@)),
{
    let re = regex::Regex::new(r"^(.+?)(\(\))?\s+from\s+(.+)$").expect("fixed pattern is valid");
    re.captures(s).and_then(|caps| match (caps.get(1), caps.get(3)) {
        (Some(ids), Some(source)) => Some((ids.as_str().to_string(), source.as_str().to_string())),
        _ => None,
    })
}

/// The `(binding, source)` pairs of the patterns that split as
/// `"<ids> from <source>"`, in order.
pub open spec fn scanner_caps(syntax: Seq<String>) -> Seq<(Seq<char>, Seq<char>)>
    decreases syntax.len(),
{
    if syntax.len() == 0 {
        Seq::empty()
    } else {
        scanner_caps(syntax.drop_last()) + (match worker_from_parts(syntax.last()@) {
            Some(p) => seq![p],
            None => Seq::empty(),
        })
    }
}

/// The plain global constructor names among the patterns, in order.
pub open spec fn scanner_globals(syntax: Seq<String>) -> Seq<Seq<char>>
    decreases syntax.len(),
{
    if syntax.len() == 0 {
        Seq::empty()
    } else {
        scanner_globals(syntax.drop_last()) + (match worker_from_parts(syntax.last()@) {
            Some(p) => Seq::empty(),
            None => seq![syntax.last()@],
        })
    }
}

/// Scans import declarations for bindings of the configured worker
/// constructors: `caps` holds the `(binding, source)` pairs still to be
/// matched against imports, `result` the recognized syntaxes.
#[derive(Debug)]
pub struct WorkerSyntaxScanner {
    pub result: WorkerSyntaxList,
    pub caps: Vec<(String, String)>,
}

/// The `(binding, source)` views of the scanner's patterns.
pub open spec fn cap_views(caps: Seq<(String, String)>) -> Seq<(Seq<char>, Seq<char>)> {
    caps.map_values(|c: (String, String)| (c.0@, c.1@))
}

/// The specifier binds the import named `key` of its declaration: a default
/// import when `key` is `default`, else a named import whose imported name
/// (or, absent one, local name) is `key`.
pub open spec fn specifier_selected(s: ImportSpecifier, key: Seq<char>) -> bool {
    if key == "default"@ {
        s is Default
    } else {
        match s {
            ImportSpecifier::Named { local, imported } => match imported {
                Some(im) => im@ == key,
                None => local.sym@ == key,
            },
            _ => false,
        }
    }
}

/// The local binding of a specifier.
pub open spec fn specifier_local(s: ImportSpecifier) -> Ident {
    match s {
        ImportSpecifier::Default { local } => local,
        ImportSpecifier::Named { local, imported } => local,
        ImportSpecifier::Namespace { local } => local,
    }
}

/// The context-bound syntax views produced by matching the specifiers
/// against one `(binding, source)` pattern key.
pub open spec fn matched_views(specs: Seq<ImportSpecifier>, key: Seq<char>) -> Seq<
    (Seq<char>, Option<u32>),
>
    decreases specs.len(),
{
    if specs.len() == 0 {
        Seq::empty()
    } else {
        matched_views(specs.drop_last(), key) + (if specifier_selected(specs.last(), key) {
            seq![
                (
                    specifier_local(specs.last()).sym@,
                    Some(specifier_local(specs.last()).ctxt),
                ),
            ]
        } else {
            Seq::empty()
        })
    }
}

/// The syntax views one import declaration contributes: for each pattern
/// whose source is the declaration's source, the bindings its specifiers
/// introduce for the pattern's imported name.
pub open spec fn decl_views(
    caps: Seq<(Seq<char>, Seq<char>)>,
    specs: Seq<ImportSpecifier>,
    src: Seq<char>,
) -> Seq<(Seq<char>, Option<u32>)>
    decreases caps.len(),
{
    if caps.len() == 0 {
        Seq::empty()
    } else {
        decl_views(caps.drop_last(), specs, src) + (if caps.last().1 == src {
            matched_views(specs, caps.last().0)
        } else {
            Seq::empty()
        })
    }
}

impl WorkerSyntaxScanner {
    /// Split the configured patterns: `"<ids> from <source>"` entries become
    /// match keys for import scanning, everything else a global constructor
    /// name.
    pub fn new(syntax: &Vec<String>) -> (r: WorkerSyntaxScanner)
        ensures
            cap_views(r.caps@) == scanner_caps(syntax@),
            global_views(r.result) == scanner_globals(syntax@).map_values(
                |w: Seq<char>| (w, Option::<u32>::None),
            ),
            r.result.variables@.len() == 0,
    {
        let mut result = WorkerSyntaxList::new();
        let mut caps: Vec<(String, String)> = Vec::new();
        let n = syntax.len();
        let mut i: usize = 0;
        proof {
            assert(syntax@.subrange(0, 0) =~= Seq::<String>::empty());
            assert(cap_views(caps@) =~= scanner_caps(syntax@.subrange(0, 0)));
            assert(global_views(result) =~= scanner_globals(syntax@.subrange(0, 0)).map_values(
                |w: Seq<char>| (w, Option::<u32>::None),
            ));
        }
        while i < n
            invariant
                i <= n,
                n == syntax@.len(),
                cap_views(caps@) == scanner_caps(syntax@.subrange(0, i as int)),
                global_views(result) == scanner_globals(syntax@.subrange(0, i as int)).map_values(
                    |w: Seq<char>| (w, Option::<u32>::None),
                ),
                result.variables@.len() == 0,
            decreases n - i,
        {
            let s = &syntax[i];
            proof {
                assert(syntax@.subrange(0, i as int + 1).drop_last() =~= syntax@.subrange(
                    0,
                    i as int,
                ));
                assert(syntax@.subrange(0, i as int + 1).last() == syntax@[i as int]);
            }
            match worker_from_captures(s.as_str()) {
                Some(pair) => {
                    let ghost before = caps@;
                    caps.push(pair);
                    proof {
                        assert(cap_views(caps@) =~= scanner_caps(
                            syntax@.subrange(0, i as int + 1),
                        ));
                        assert(scanner_globals(syntax@.subrange(0, i as int + 1))
                            =~= scanner_globals(syntax@.subrange(0, i as int)));
                    }
                },
                None => {
                    result.push(WorkerSyntax::new(s.clone(), None));
                    proof {
                        assert(global_views(result) =~= scanner_globals(
                            syntax@.subrange(0, i as int + 1),
                        ).map_values(|w: Seq<char>| (w, Option::<u32>::None)));
                        assert(cap_views(caps@) =~= scanner_caps(
                            syntax@.subrange(0, i as int + 1),
                        ));
                    }
                },
            }
            i = i + 1;
        }
        proof {
            assert(syntax@.subrange(0, n as int) =~= syntax@);
        }
        WorkerSyntaxScanner { result, caps }
    }

    /// Collect the worker-constructor bindings one import declaration
    /// introduces: every local binding of an import of a configured
    /// `(binding, source)` pattern joins the recognized variables with its
    /// hygiene context.
    pub fn visit_import_decl(&mut self, decl: &ImportDecl)
        ensures
            var_views(final(self).result) == var_views(old(self).result) + decl_views(
                cap_views(old(self).caps@),
                decl.specifiers@,
                decl.src@,
            ),
            final(self).result.globals@ == old(self).result.globals@,
            final(self).caps@ == old(self).caps@,
    {
        let n_caps = self.caps.len();
        let mut c: usize = 0;
        proof {
            assert(cap_views(self.caps@).subrange(0, 0) =~= Seq::<(Seq<char>, Seq<char>)>::empty());
            assert(var_views(self.result) =~= var_views(self.result) + decl_views(
                cap_views(self.caps@).subrange(0, 0),
                decl.specifiers@,
                decl.src@,
            ));
        }
        while c < n_caps
            invariant
                c <= n_caps,
                n_caps == self.caps@.len(),
                self.caps@ == old(self).caps@,
                self.result.globals@ == old(self).result.globals@,
                var_views(self.result) == var_views(old(self).result) + decl_views(
                    cap_views(self.caps@).subrange(0, c as int),
                    decl.specifiers@,
                    decl.src@,
                ),
            decreases n_caps - c,
        {
            proof {
                assert(cap_views(self.caps@).subrange(0, c as int + 1).drop_last() =~= cap_views(
                    self.caps@,
                ).subrange(0, c as int));
                assert(cap_views(self.caps@).subrange(0, c as int + 1).last() == cap_views(
                    self.caps@,
                )[c as int]);
            }
            let source_matches = self.caps[c].1.eq(&decl.src);
            if source_matches {
                let ghost key = self.caps@[c as int].0@;
                let ghost vv0 = var_views(self.result);
                let n_specs = decl.specifiers.len();
                let mut j: usize = 0;
                proof {
                    assert(decl.specifiers@.subrange(0, 0) =~= Seq::<ImportSpecifier>::empty());
                    assert(var_views(self.result) =~= vv0 + matched_views(
                        decl.specifiers@.subrange(0, 0),
                        key,
                    ));
                }
                while j < n_specs
                    invariant
                        j <= n_specs,
                        n_specs == decl.specifiers@.len(),
                        c < n_caps,
                        n_caps == self.caps@.len(),
                        self.caps@ == old(self).caps@,
                        key == self.caps@[c as int].0@,
                        self.result.globals@ == old(self).result.globals@,
                        var_views(self.result) == vv0 + matched_views(
                            decl.specifiers@.subrange(0, j as int),
                            key,
                        ),
                    decreases n_specs - j,
                {
                    proof {
                        assert(decl.specifiers@.subrange(0, j as int + 1).drop_last()
                            =~= decl.specifiers@.subrange(0, j as int));
                        assert(decl.specifiers@.subrange(0, j as int + 1).last()
                            == decl.specifiers@[j as int]);
                    }
                    let is_default_key = self.caps[c].0.eq(&String::from_str("default"));
                    let selected: Option<Ident> = if is_default_key {
                        match &decl.specifiers[j] {
                            ImportSpecifier::Default { local } => Some(
                                Ident { sym: local.sym.clone(), ctxt: local.ctxt },
                            ),
                            _ => None,
                        }
                    } else {
                        match &decl.specifiers[j] {
                            ImportSpecifier::Named { local, imported } => {
                                let name_hit = match imported {
                                    Some(im) => im.eq(&self.caps[c].0),
                                    None => local.sym.eq(&self.caps[c].0),
                                };
                                if name_hit {
                                    Some(Ident { sym: local.sym.clone(), ctxt: local.ctxt })
                                } else {
                                    None
                                }
                            },
                            _ => None,
                        }
                    };
                    match selected {
                        Some(local) => {
                            assert(specifier_selected(decl.specifiers@[j as int], key));
                            let ghost vb = var_views(self.result);
                            self.result.push(
                                WorkerSyntax { word: local.sym, ctxt: Some(local.ctxt) },
                            );
                            proof {
                                assert(var_views(self.result) =~= vv0 + matched_views(
                                    decl.specifiers@.subrange(0, j as int + 1),
                                    key,
                                ));
                            }
                        },
                        None => {
                            assert(!specifier_selected(decl.specifiers@[j as int], key));
                            proof {
                                assert(var_views(self.result) =~= vv0 + matched_views(
                                    decl.specifiers@.subrange(0, j as int + 1),
                                    key,
                                ));
                            }
                        },
                    }
                    j = j + 1;
                }
                proof {
                    assert(decl.specifiers@.subrange(0, n_specs as int) =~= decl.specifiers@);
                    assert(var_views(self.result) =~= var_views(old(self).result) + decl_views(
                        cap_views(self.caps@).subrange(0, c as int + 1),
                        decl.specifiers@,
                        decl.src@,
                    ));
                }
            } else {
                proof {
                    assert(var_views(self.result) =~= var_views(old(self).result) + decl_views(
                        cap_views(self.caps@).subrange(0, c as int + 1),
                        decl.specifiers@,
                        decl.src@,
                    ));
                }
            }
            c = c + 1;
        }
        proof {
            assert(cap_views(self.caps@).subrange(0, n_caps as int) =~= cap_views(self.caps@));
        }
    }

    /// Hand the recognized syntaxes over.
    pub fn into_list(self) -> (r: WorkerSyntaxList)
        ensures
            r.variables@ == self.result.variables@,
            r.globals@ == self.result.globals@,
    {
        self.result
    }
}

/// The worker patterns recognized without configuration.
pub fn default_worker_syntax() -> (r: Vec<String>)
    ensures
        r@.len() == 3,
        r@[0]@ == "Worker"@,
        r@[1]@ == "SharedWorker"@,
        r@[2]@ == "Worker from worker_threads"@,
{
    let mut v: Vec<String> = Vec::new();
    v.push(String::from_str("Worker"));
    v.push(String::from_str("SharedWorker"));
    v.push(String::from_str("Worker from worker_threads"));
    v
}

} // verus!
