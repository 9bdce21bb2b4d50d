use bundler_core::eval::is_valid_reg_exp_flags;
use bundler_core::worker::{
    default_worker_syntax, match_new_url, ArgExpr, ExprOrSpread, Ident, ImportDecl,
    ImportSpecifier, NewExpr, WorkerSyntax, WorkerSyntaxList, WorkerSyntaxScanner,
};

fn ident(sym: &str, ctxt: u32) -> Ident {
    Ident { sym: String::from(sym), ctxt }
}

fn new_expr(callee: Option<Ident>, args: Vec<ExprOrSpread>) -> NewExpr {
    NewExpr { callee_ident: callee, args }
}

fn url_args() -> Vec<ExprOrSpread> {
    vec![
        ExprOrSpread {
            spread: false,
            expr: ArgExpr::StrLit { value: String::from("./w.js"), span_lo: 10, span_hi: 18 },
        },
        ExprOrSpread {
            spread: false,
            expr: ArgExpr::ImportMetaUrl { span_lo: 20, span_hi: 35 },
        },
    ]
}

#[test]
fn match_new_url_recognizes_the_pattern() {
    let e = new_expr(Some(ident("URL", 0)), url_args());
    assert_eq!(match_new_url(&e), Some((10, 35, String::from("./w.js"))));
}

#[test]
fn match_new_url_rejects_other_callees_and_shapes() {
    assert_eq!(match_new_url(&new_expr(Some(ident("Url", 0)), url_args())), None);
    assert_eq!(match_new_url(&new_expr(None, url_args())), None);
    // missing second argument
    let mut one_arg = url_args();
    one_arg.pop();
    assert_eq!(match_new_url(&new_expr(Some(ident("URL", 0)), one_arg)), None);
    // spread defeats the match
    let mut spread = url_args();
    spread[0].spread = true;
    assert_eq!(match_new_url(&new_expr(Some(ident("URL", 0)), spread)), None);
    // second argument is not import.meta.url
    let mut other = url_args();
    other[1].expr = ArgExpr::Other { span_lo: 20, span_hi: 35 };
    assert_eq!(match_new_url(&new_expr(Some(ident("URL", 0)), other)), None);
}

#[test]
fn worker_syntax_matching_respects_the_context() {
    let bound = WorkerSyntax::new(String::from("Worker"), Some(7));
    assert!(bound.matches(&ident("Worker", 7)));
    assert!(!bound.matches(&ident("Worker", 8)));
    assert!(!bound.matches(&ident("Other", 7)));
    let global = WorkerSyntax::new(String::from("Worker"), None);
    assert!(global.matches(&ident("Worker", 7)));
    assert!(global.matches(&ident("Worker", 0)));
}

#[test]
fn list_partitions_by_context() {
    let mut list = WorkerSyntaxList::new();
    list.push(WorkerSyntax::new(String::from("Worker"), Some(3)));
    list.push(WorkerSyntax::new(String::from("SharedWorker"), None));
    assert_eq!(list.variables.len(), 1);
    assert_eq!(list.globals.len(), 1);
    assert!(list.match_new_worker(&new_expr(Some(ident("Worker", 3)), Vec::new())));
    assert!(!list.match_new_worker(&new_expr(Some(ident("Worker", 4)), Vec::new())));
    assert!(list.match_new_worker(&new_expr(Some(ident("SharedWorker", 9)), Vec::new())));
    assert!(!list.match_new_worker(&new_expr(None, Vec::new())));
}

#[test]
fn extend_pushes_each_entry() {
    let mut list = WorkerSyntaxList::new();
    list.extend(vec![
        WorkerSyntax::new(String::from("A"), Some(1)),
        WorkerSyntax::new(String::from("B"), None),
    ]);
    assert_eq!(list.variables.len(), 1);
    assert_eq!(list.globals.len(), 1);
}

#[test]
fn scanner_splits_from_patterns_and_globals() {
    let scanner = WorkerSyntaxScanner::new(&default_worker_syntax());
    // "Worker from worker_threads" splits; the two plain names are globals
    assert_eq!(scanner.caps.len(), 1);
    assert_eq!(scanner.caps[0].0, "Worker");
    assert_eq!(scanner.caps[0].1, "worker_threads");
    assert_eq!(scanner.result.globals.len(), 2);
    assert_eq!(scanner.result.globals[0].word, "Worker");
    assert_eq!(scanner.result.globals[1].word, "SharedWorker");
    assert_eq!(scanner.result.variables.len(), 0);
}

#[test]
fn scanner_drops_the_call_suffix_from_the_binding() {
    let scanner = WorkerSyntaxScanner::new(&vec![String::from("create() from factory")]);
    assert_eq!(scanner.caps.len(), 1);
    assert_eq!(scanner.caps[0].0, "create");
    assert_eq!(scanner.caps[0].1, "factory");
}

#[test]
fn visit_import_decl_collects_matching_bindings() {
    let mut scanner = WorkerSyntaxScanner::new(&default_worker_syntax());
    let decl = ImportDecl {
        src: String::from("worker_threads"),
        specifiers: vec![
            ImportSpecifier::Named { local: ident("Worker", 11), imported: None },
            ImportSpecifier::Named { local: ident("W", 11), imported: Some(String::from("Worker")) },
            ImportSpecifier::Named { local: ident("x", 11), imported: None },
            ImportSpecifier::Namespace { local: ident("wt", 11) },
        ],
    };
    scanner.visit_import_decl(&decl);
    let list = scanner.into_list();
    assert_eq!(list.variables.len(), 2);
    assert_eq!(list.variables[0].word, "Worker");
    assert_eq!(list.variables[0].ctxt, Some(11));
    assert_eq!(list.variables[1].word, "W");
    assert!(list.match_new_worker(&new_expr(Some(ident("W", 11)), Vec::new())));
    assert!(!list.match_new_worker(&new_expr(Some(ident("W", 12)), Vec::new())));
}

#[test]
fn visit_import_decl_matches_default_imports() {
    let mut scanner = WorkerSyntaxScanner::new(&vec![String::from("default from my_worker")]);
    let decl = ImportDecl {
        src: String::from("my_worker"),
        specifiers: vec![
            ImportSpecifier::Default { local: ident("MyWorker", 2) },
            ImportSpecifier::Named { local: ident("other", 2), imported: None },
        ],
    };
    scanner.visit_import_decl(&decl);
    assert_eq!(scanner.result.variables.len(), 1);
    assert_eq!(scanner.result.variables[0].word, "MyWorker");
}

#[test]
fn visit_import_decl_ignores_other_sources() {
    let mut scanner = WorkerSyntaxScanner::new(&default_worker_syntax());
    let decl = ImportDecl {
        src: String::from("other_module"),
        specifiers: vec![ImportSpecifier::Named { local: ident("Worker", 1), imported: None }],
    };
    scanner.visit_import_decl(&decl);
    assert_eq!(scanner.result.variables.len(), 0);
}

#[test]
fn reg_exp_flag_validation() {
    assert!(is_valid_reg_exp_flags(""));
    assert!(is_valid_reg_exp_flags("g"));
    assert!(is_valid_reg_exp_flags("gimy"));
    assert!(is_valid_reg_exp_flags("ig"));
    assert!(!is_valid_reg_exp_flags("gg"));
    assert!(!is_valid_reg_exp_flags("x"));
    assert!(!is_valid_reg_exp_flags("gimyg"));
    assert!(!is_valid_reg_exp_flags("gimu"));
}
