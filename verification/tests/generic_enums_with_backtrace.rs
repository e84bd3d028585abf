use derive_fmt::error_derive::{backtrace_field, provide_plan, source_field, ErrorField, ErrorShape};

fn named(name: &str, backtrace_ty: bool, src: Option<bool>, bt: Option<bool>) -> ErrorField {
    ErrorField {
        ident: Some(name.to_string()),
        is_backtrace_type: backtrace_ty,
        source_attr: src,
        backtrace_attr: bt,
    }
}

fn pos(backtrace_ty: bool, src: Option<bool>, bt: Option<bool>) -> ErrorField {
    ErrorField { ident: None, is_backtrace_type: backtrace_ty, source_attr: src, backtrace_attr: bt }
}

fn named_shape(fields: Vec<ErrorField>) -> ErrorShape {
    ErrorShape { named: true, fields }
}

fn pos_shape(fields: Vec<ErrorField>) -> ErrorShape {
    ErrorShape { named: false, fields }
}

#[test]
fn unit() {
    let shape = named_shape(vec![]);
    assert!(!provide_plan(&shape).provides_backtrace());
}

#[test]
fn named_implicit_no_backtrace() {
    let shape = named_shape(vec![named("field", false, None, None)]);
    assert!(!provide_plan(&shape).provides_backtrace());
}

#[test]
fn named_implicit_backtrace_by_field_name() {
    let shape = named_shape(vec![
        named("backtrace", false, None, None),
        named("field", false, None, None),
    ]);
    assert!(provide_plan(&shape).provides_backtrace());
    assert_eq!(provide_plan(&shape).backtrace_ref_field(), Some(0));
}

#[test]
fn named_implicit_backtrace_by_field_type() {
    let shape = named_shape(vec![
        named("implicit_backtrace", true, None, None),
        named("field", false, None, None),
    ]);
    assert!(provide_plan(&shape).provides_backtrace());
    assert_eq!(provide_plan(&shape).backtrace_ref_field(), Some(0));
}

#[test]
fn named_explicit_no_backtrace_by_field_name() {
    let shape = named_shape(vec![
        named("backtrace", false, None, Some(false)),
        named("field", false, None, None),
    ]);
    assert!(!provide_plan(&shape).provides_backtrace());
}

#[test]
fn named_explicit_no_backtrace_by_field_type() {
    let shape = named_shape(vec![
        named("implicit_backtrace", true, None, Some(false)),
        named("field", false, None, None),
    ]);
    assert!(!provide_plan(&shape).provides_backtrace());
}

#[test]
fn named_explicit_backtrace() {
    let shape = named_shape(vec![
        named("explicit_backtrace", false, None, Some(true)),
        named("field", false, None, None),
    ]);
    assert!(provide_plan(&shape).provides_backtrace());
    assert_eq!(provide_plan(&shape).backtrace_ref_field(), Some(0));
}

#[test]
fn named_explicit_no_backtrace_redundant() {
    let shape = named_shape(vec![
        named("not_backtrace", false, None, Some(false)),
        named("field", false, None, Some(false)),
    ]);
    assert!(!provide_plan(&shape).provides_backtrace());
}

#[test]
fn named_explicit_backtrace_by_field_name_redundant() {
    let shape = named_shape(vec![
        named("backtrace", false, None, Some(true)),
        named("field", false, None, None),
    ]);
    assert!(provide_plan(&shape).provides_backtrace());
    assert_eq!(provide_plan(&shape).backtrace_ref_field(), Some(0));
}

#[test]
fn named_explicit_backtrace_by_field_type_redundant() {
    let shape = named_shape(vec![
        named("implicit_backtrace", true, None, Some(true)),
        named("field", false, None, None),
    ]);
    assert!(provide_plan(&shape).provides_backtrace());
    assert_eq!(provide_plan(&shape).backtrace_ref_field(), Some(0));
}

#[test]
fn named_explicit_supresses_implicit() {
    let shape = named_shape(vec![
        named("not_backtrace", false, None, Some(true)),
        named("backtrace", true, None, None),
        named("field", false, None, None),
    ]);
    assert!(provide_plan(&shape).provides_backtrace());
    assert_eq!(provide_plan(&shape).backtrace_ref_field(), Some(0));
    assert_ne!(provide_plan(&shape).backtrace_ref_field(), Some(1));
}

#[test]
fn unnamed_implicit_no_backtrace() {
    let shape = pos_shape(vec![pos(false, None, None), pos(false, None, None)]);
    assert!(!provide_plan(&shape).provides_backtrace());
}

#[test]
fn unnamed_implicit_backtrace() {
    let shape = pos_shape(vec![
        pos(true, None, None),
        pos(false, None, None),
        pos(false, None, None),
    ]);
    assert!(provide_plan(&shape).provides_backtrace());
    assert_eq!(provide_plan(&shape).backtrace_ref_field(), Some(0));
}

#[test]
fn unnamed_explicit_no_backtrace() {
    let shape = pos_shape(vec![pos(true, None, Some(false)), pos(false, None, None)]);
    assert!(!provide_plan(&shape).provides_backtrace());
}

#[test]
fn unnamed_explicit_backtrace() {
    let shape = pos_shape(vec![
        pos(false, None, Some(true)),
        pos(false, None, None),
        pos(false, None, None),
    ]);
    assert!(provide_plan(&shape).provides_backtrace());
    assert_eq!(provide_plan(&shape).backtrace_ref_field(), Some(0));
}

#[test]
fn unnamed_explicit_no_backtrace_redundant() {
    let shape = pos_shape(vec![pos(false, None, Some(false)), pos(false, None, Some(false))]);
    assert!(!provide_plan(&shape).provides_backtrace());
}

#[test]
fn unnamed_explicit_backtrace_redundant() {
    let shape = pos_shape(vec![
        pos(true, None, Some(true)),
        pos(false, None, None),
        pos(false, None, None),
    ]);
    assert!(provide_plan(&shape).provides_backtrace());
    assert_eq!(provide_plan(&shape).backtrace_ref_field(), Some(0));
}

#[test]
fn unnamed_explicit_supresses_implicit() {
    let shape = pos_shape(vec![
        pos(false, None, Some(true)),
        pos(true, None, None),
        pos(false, None, None),
    ]);
    assert!(provide_plan(&shape).provides_backtrace());
    assert_eq!(provide_plan(&shape).backtrace_ref_field(), Some(0));
    assert_ne!(provide_plan(&shape).backtrace_ref_field(), Some(1));
}

#[test]
fn named_implicit_no_backtrace_from_source() {
    let shape = named_shape(vec![named("err", false, Some(true), None)]);
    assert!(source_field(&shape).is_some());
    assert!(!provide_plan(&shape).provides_backtrace());
    assert!(!provide_plan(&shape).forwards_source());
}

#[test]
fn named_explicit_no_backtrace_from_source() {
    let shape = named_shape(vec![named("err", false, Some(true), Some(false))]);
    assert!(source_field(&shape).is_some());
    assert!(!provide_plan(&shape).provides_backtrace());
    assert!(!provide_plan(&shape).forwards_source());
}

#[test]
fn named_explicit_backtrace_from_source() {
    let shape = named_shape(vec![named("err", false, Some(true), Some(true))]);
    assert!(source_field(&shape).is_some());
    assert!(provide_plan(&shape).provides_backtrace());
    assert!(provide_plan(&shape).forwards_source());
    assert_eq!(provide_plan(&shape).backtrace_ref_field(), source_field(&shape));
}

#[test]
fn named_implicit_different_source_and_backtrace() {
    let shape = named_shape(vec![
        named("err", false, Some(true), None),
        named("backtrace", true, None, None),
    ]);
    assert!(source_field(&shape).is_some());
    assert!(provide_plan(&shape).provides_backtrace());
    assert!(provide_plan(&shape).forwards_source());
    assert_eq!(provide_plan(&shape).backtrace_ref_field(), Some(1));
    assert_ne!(provide_plan(&shape).backtrace_ref_field(), source_field(&shape));
}

#[test]
fn named_explicit_different_source_and_backtrace() {
    let shape = named_shape(vec![
        named("err", false, Some(true), None),
        named("backtrace", true, None, Some(true)),
    ]);
    assert!(source_field(&shape).is_some());
    assert!(provide_plan(&shape).provides_backtrace());
    assert!(provide_plan(&shape).forwards_source());
    assert_eq!(provide_plan(&shape).backtrace_ref_field(), Some(1));
    assert_ne!(provide_plan(&shape).backtrace_ref_field(), source_field(&shape));
}

#[test]
fn unnamed_implicit_no_backtrace_from_source() {
    let shape = pos_shape(vec![pos(false, None, None)]);
    assert!(source_field(&shape).is_some());
    assert!(!provide_plan(&shape).provides_backtrace());
    assert!(!provide_plan(&shape).forwards_source());
}

#[test]
fn unnamed_explicit_no_backtrace_from_source() {
    let shape = pos_shape(vec![pos(false, None, Some(false))]);
    assert!(source_field(&shape).is_some());
    assert!(!provide_plan(&shape).provides_backtrace());
    assert!(!provide_plan(&shape).forwards_source());
}

#[test]
fn unnamed_explicit_backtrace_from_source() {
    let shape = pos_shape(vec![pos(false, None, Some(true))]);
    assert!(source_field(&shape).is_some());
    assert!(provide_plan(&shape).provides_backtrace());
    assert!(provide_plan(&shape).forwards_source());
    assert_eq!(provide_plan(&shape).backtrace_ref_field(), source_field(&shape));
}

#[test]
fn unnamed_implicit_different_source_and_backtrace() {
    let shape = pos_shape(vec![pos(false, Some(true), None), pos(true, None, None)]);
    assert!(source_field(&shape).is_some());
    assert!(provide_plan(&shape).provides_backtrace());
    assert!(provide_plan(&shape).forwards_source());
    assert_eq!(provide_plan(&shape).backtrace_ref_field(), Some(1));
    assert_ne!(provide_plan(&shape).backtrace_ref_field(), source_field(&shape));
}

#[test]
fn unnamed_explicit_different_source_and_backtrace() {
    let shape = pos_shape(vec![pos(false, Some(true), None), pos(true, None, Some(true))]);
    assert!(source_field(&shape).is_some());
    assert!(provide_plan(&shape).provides_backtrace());
    assert!(provide_plan(&shape).forwards_source());
    assert_eq!(provide_plan(&shape).backtrace_ref_field(), Some(1));
    assert_ne!(provide_plan(&shape).backtrace_ref_field(), source_field(&shape));
}

#[test]
fn explicit_source_wins_over_sole_position() {
    let shape = pos_shape(vec![pos(false, None, None), pos(false, Some(true), None)]);
    assert_eq!(source_field(&shape), Some(1));
    assert_eq!(backtrace_field(&shape), None);
}
