use bundler_core::template::TemplateReplaceSource;
use bundler_core::BuildError;

#[test]
fn zero_patches_returns_source_unchanged() {
    let source = TemplateReplaceSource::new(String::from("const a = 1;"));
    assert_eq!(source.build(), "const a = 1;");
}

#[test]
fn single_replace() {
    let mut source = TemplateReplaceSource::new(String::from("0123456789"));
    source.replace(2, 4, "XY").unwrap();
    assert_eq!(source.build(), "01XY456789");
}

#[test]
fn single_insert() {
    let mut source = TemplateReplaceSource::new(String::from("abcdef"));
    source.insert(3, "-").unwrap();
    assert_eq!(source.build(), "abc-def");
}

#[test]
fn two_patches_in_registration_order() {
    let mut source = TemplateReplaceSource::new(String::from("0123456789"));
    source.replace(1, 3, "A").unwrap();
    source.replace(5, 7, "B").unwrap();
    assert_eq!(source.build(), "0A34B789");
}

#[test]
fn two_patches_registered_in_reverse_order_render_the_same() {
    let mut source = TemplateReplaceSource::new(String::from("0123456789"));
    source.replace(5, 7, "B").unwrap();
    source.replace(1, 3, "A").unwrap();
    assert_eq!(source.build(), "0A34B789");
}

#[test]
fn inserts_at_identical_offset_apply_in_registration_order() {
    let mut source = TemplateReplaceSource::new(String::from("ab"));
    source.insert(1, "X").unwrap();
    source.insert(1, "Y").unwrap();
    assert_eq!(source.build(), "aXYb");
}

#[test]
fn insert_at_replace_end_boundary_is_allowed() {
    let mut source = TemplateReplaceSource::new(String::from("0123456789"));
    source.replace(2, 5, "R").unwrap();
    source.insert(5, "I").unwrap();
    assert_eq!(source.build(), "01RI56789");
}

#[test]
fn insert_before_replace_at_same_offset_renders_first() {
    let mut source = TemplateReplaceSource::new(String::from("0123456789"));
    source.replace(2, 5, "R").unwrap();
    source.insert(2, "I").unwrap();
    assert_eq!(source.build(), "01IR56789");
}

#[test]
fn overlapping_replaces_are_rejected() {
    let mut source = TemplateReplaceSource::new(String::from("0123456789"));
    source.replace(2, 5, "R").unwrap();
    let r = source.replace(4, 6, "S");
    assert_eq!(r, Err(BuildError::OverlappingPatches));
    // the rejected patch left no trace
    assert_eq!(source.build(), "01R56789");
}

#[test]
fn insert_inside_replaced_range_is_rejected() {
    let mut source = TemplateReplaceSource::new(String::from("0123456789"));
    source.replace(2, 5, "R").unwrap();
    assert_eq!(source.insert(3, "I"), Err(BuildError::OverlappingPatches));
}

#[test]
fn reversed_or_out_of_source_ranges_are_rejected() {
    let mut source = TemplateReplaceSource::new(String::from("abc"));
    assert_eq!(source.replace(2, 1, "x"), Err(BuildError::PatchOutOfRange));
    assert_eq!(source.replace(1, 9, "x"), Err(BuildError::PatchOutOfRange));
    assert_eq!(source.insert(4, "x"), Err(BuildError::PatchOutOfRange));
}

#[test]
fn patches_on_unicode_text_use_character_offsets() {
    let mut source = TemplateReplaceSource::new(String::from("héllo"));
    source.replace(1, 2, "e").unwrap();
    assert_eq!(source.build(), "hello");
}
