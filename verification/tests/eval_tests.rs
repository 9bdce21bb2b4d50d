use bundler_core::eval::{
    evaluate_to_string, is_valid_reg_exp_flags, BasicEvaluatedExpression, BigIntValue,
    TemplateStringKind, Ty,
};

fn number(bits: u64) -> BasicEvaluatedExpression {
    let mut e = BasicEvaluatedExpression::new();
    e.ty = Ty::Number;
    e.number = Some(bits);
    e
}

fn bigint(v: BigIntValue) -> BasicEvaluatedExpression {
    let mut e = BasicEvaluatedExpression::new();
    e.ty = Ty::BigInt;
    e.bigint = Some(v);
    e
}

#[test]
fn new_expression_defaults() {
    let e = BasicEvaluatedExpression::new();
    assert!(!e.is_null());
    assert!(!e.is_undefined());
    assert!(!e.is_string());
    assert!(!e.is_bool());
    assert!(!e.is_array());
    assert!(!e.is_regexp());
    assert!(!e.is_conditional());
    assert!(!e.is_template_string());
    assert!(!e.is_compile_time_value());
    assert!(e.could_have_side_effects());
    assert_eq!(e.is_nullish(), None);
    assert_eq!(e.is_primitive_type(), None);
    assert_eq!(e.as_bool(), None);
    assert_eq!(e.as_string(), None);
    assert_eq!(e.as_nullish(), None);
}

#[test]
fn with_range_records_the_span() {
    let e = BasicEvaluatedExpression::with_range(3, 9);
    assert_eq!(e.range(), (3, 9));
}

#[test]
fn string_value() {
    let mut e = BasicEvaluatedExpression::new();
    e.set_string(String::from("hi"));
    assert!(e.is_string());
    assert!(e.is_compile_time_value());
    assert_eq!(e.is_primitive_type(), Some(true));
    assert!(!e.could_have_side_effects());
    assert_eq!(e.string(), "hi");
    assert_eq!(e.as_string(), Some(String::from("hi")));
    assert_eq!(e.as_nullish(), Some(false));
}

#[test]
fn bool_value() {
    let mut e = BasicEvaluatedExpression::new();
    e.set_bool(true);
    assert!(e.is_bool());
    assert!(e.bool());
    assert_eq!(e.as_bool(), Some(true));
    assert_eq!(e.as_string(), Some(String::from("true")));
    e.set_bool(false);
    assert_eq!(e.as_bool(), Some(false));
    assert_eq!(e.as_string(), Some(String::from("false")));
}

#[test]
fn null_value() {
    let mut e = BasicEvaluatedExpression::new();
    e.set_null();
    assert!(e.is_null());
    assert!(!e.could_have_side_effects());
    assert_eq!(e.as_string(), Some(String::from("null")));
    assert_eq!(e.as_nullish(), Some(true));
}

#[test]
fn truthy_and_falsy_markers_drive_as_bool() {
    let mut e = BasicEvaluatedExpression::new();
    e.truthy = true;
    assert_eq!(e.as_bool(), Some(true));
    e.truthy = false;
    e.falsy = true;
    assert_eq!(e.as_bool(), Some(false));
    e.falsy = false;
    e.nullish = Some(true);
    assert_eq!(e.as_bool(), Some(false));
}

#[test]
fn array_side_effects_come_from_the_items() {
    let mut pure = BasicEvaluatedExpression::new();
    pure.set_string(String::from("x"));
    let mut effectful = BasicEvaluatedExpression::new();
    effectful.set_bool(true);
    let mut arr = BasicEvaluatedExpression::new();
    arr.set_items(vec![pure]);
    assert!(arr.is_array());
    assert!(!arr.could_have_side_effects());
    let mut arr2 = BasicEvaluatedExpression::new();
    arr2.set_items(vec![effectful]);
    assert!(arr2.could_have_side_effects());
}

#[test]
fn template_string_side_effects_come_from_the_parts() {
    let mut quasi = BasicEvaluatedExpression::new();
    quasi.set_string(String::from("a"));
    let mut part = BasicEvaluatedExpression::new();
    part.set_string(String::from("b"));
    let mut e = BasicEvaluatedExpression::new();
    e.set_template_string(vec![quasi], vec![part], TemplateStringKind::Cooked);
    assert!(e.is_template_string());
    assert!(!e.could_have_side_effects());
    assert_eq!(e.parts().len(), 1);
    assert_eq!(e.as_nullish(), Some(false));
}

#[test]
fn conditional_options_accumulate() {
    let mut a = BasicEvaluatedExpression::new();
    a.set_string(String::from("a"));
    let mut b = BasicEvaluatedExpression::new();
    b.set_string(String::from("b"));
    let mut e = BasicEvaluatedExpression::new();
    e.add_options(vec![a]);
    assert!(e.is_conditional());
    assert_eq!(e.options().len(), 1);
    e.add_options(vec![b]);
    assert_eq!(e.options().len(), 2);
}

#[test]
fn regexp_value() {
    let mut e = BasicEvaluatedExpression::new();
    e.set_regexp(String::from("a+"), String::from("g"));
    assert!(e.is_regexp());
    assert_eq!(e.regexp().0, "a+");
    assert_eq!(e.regexp().1, "g");
}

#[test]
fn compare_strings_and_booleans() {
    let mut a = BasicEvaluatedExpression::new();
    a.set_string(String::from("x"));
    let mut b = BasicEvaluatedExpression::new();
    b.set_string(String::from("x"));
    let mut c = BasicEvaluatedExpression::new();
    c.set_string(String::from("y"));
    assert!(a.compare_compile_time_value(&b));
    assert!(!a.compare_compile_time_value(&c));
    let mut t = BasicEvaluatedExpression::new();
    t.set_bool(true);
    // different types never compare equal
    assert!(!a.compare_compile_time_value(&t));
}

#[test]
fn compare_numbers_follows_double_equality() {
    let a = number(1.5f64.to_bits());
    let b = number(1.5f64.to_bits());
    assert!(a.compare_compile_time_value(&b));
    let c = number(2.5f64.to_bits());
    assert!(!a.compare_compile_time_value(&c));
    let zero_pos = number(0.0f64.to_bits());
    let zero_neg = number((-0.0f64).to_bits());
    assert!(zero_pos.compare_compile_time_value(&zero_neg));
    let nan = number(f64::NAN.to_bits());
    let nan2 = number(f64::NAN.to_bits());
    assert!(!nan.compare_compile_time_value(&nan2));
}

#[test]
fn compare_regexps_is_always_false() {
    let mut a = BasicEvaluatedExpression::new();
    a.set_regexp(String::from("a"), String::from(""));
    let mut b = BasicEvaluatedExpression::new();
    b.set_regexp(String::from("a"), String::from(""));
    assert!(!a.compare_compile_time_value(&b));
}

#[test]
fn compare_bigints_by_value() {
    let a = bigint(BigIntValue { negative: false, digits: vec![1, 2] });
    let b = bigint(BigIntValue { negative: false, digits: vec![1, 2] });
    let c = bigint(BigIntValue { negative: true, digits: vec![1, 2] });
    assert!(a.compare_compile_time_value(&b));
    assert!(!a.compare_compile_time_value(&c));
}

#[test]
fn evaluate_to_string_builds_a_string_expression() {
    let e = evaluate_to_string(String::from("v"), 2, 5);
    assert!(e.is_string());
    assert_eq!(e.string(), "v");
    assert_eq!(e.range(), (2, 5));
    assert!(!e.could_have_side_effects());
}

#[test]
fn flag_validation_accepts_each_flag_once() {
    assert!(is_valid_reg_exp_flags("y"));
    assert!(is_valid_reg_exp_flags("m"));
    assert!(is_valid_reg_exp_flags("i"));
    assert!(is_valid_reg_exp_flags("myig"));
    assert!(!is_valid_reg_exp_flags("yy"));
    assert!(!is_valid_reg_exp_flags("mm"));
    assert!(!is_valid_reg_exp_flags("ii"));
}
