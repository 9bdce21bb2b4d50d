use bundler_core::dependency::{
    DependencyLocation, ExportNameOrSpec, ExportSpec, ExportsOfExportsSpec,
    ExportsReferencedType, Nullable, ReferencedExport,
};

#[test]
fn export_spec_new_leaves_every_detail_open() {
    let spec = ExportSpec::new(String::from("answer"));
    assert_eq!(spec.name, "answer");
    assert!(spec.export.is_none());
    assert!(spec.exports.is_none());
    assert!(spec.can_mangle.is_none());
    assert!(spec.terminal_binding.is_none());
    assert!(spec.priority.is_none());
    assert!(spec.hidden.is_none());
    assert!(spec.from.is_none());
    assert!(spec.from_export.is_none());
}

#[test]
fn export_name_or_spec_defaults_to_an_empty_name() {
    match ExportNameOrSpec::default() {
        ExportNameOrSpec::Name(n) => assert_eq!(n, ""),
        _ => panic!("expected a bare name"),
    }
}

#[test]
fn exports_of_exports_spec_defaults_to_null() {
    assert!(matches!(ExportsOfExportsSpec::default(), ExportsOfExportsSpec::Null));
}

#[test]
fn referenced_type_from_a_single_name() {
    match ExportsReferencedType::from_name(String::from("x")) {
        ExportsReferencedType::Names(ns) => assert_eq!(ns, vec![vec![String::from("x")]]),
        _ => panic!("expected names"),
    }
}

#[test]
fn referenced_type_from_a_name_path() {
    let path = vec![String::from("a"), String::from("b")];
    match ExportsReferencedType::from_name_path(path.clone()) {
        ExportsReferencedType::Names(ns) => assert_eq!(ns, vec![path]),
        _ => panic!("expected names"),
    }
}

#[test]
fn referenced_type_from_name_paths_and_records() {
    let paths = vec![vec![String::from("a")], vec![String::from("b")]];
    match ExportsReferencedType::from_name_paths(paths.clone()) {
        ExportsReferencedType::Names(ns) => assert_eq!(ns, paths),
        _ => panic!("expected names"),
    }
    let records = vec![ReferencedExport { name: vec![String::from("a")], can_mangle: true }];
    match ExportsReferencedType::from_referenced_exports(records) {
        ExportsReferencedType::Value(v) => {
            assert_eq!(v.len(), 1);
            assert_eq!(v[0].name, vec![String::from("a")]);
            assert!(v[0].can_mangle);
        },
        _ => panic!("expected records"),
    }
}

#[test]
fn nullable_distinguishes_null_from_value() {
    let null: Nullable<Vec<String>> = Nullable::Null;
    assert!(matches!(null, Nullable::Null));
    let value = Nullable::Value(vec![String::from("x")]);
    match value {
        Nullable::Value(v) => assert_eq!(v, vec![String::from("x")]),
        Nullable::Null => panic!("expected a value"),
    }
}

#[test]
fn dependency_location_carries_its_span() {
    let loc = DependencyLocation::new(4, 9);
    assert_eq!(loc.start(), 4);
    assert_eq!(loc.end(), 9);
}
