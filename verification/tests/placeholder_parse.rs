use derive_fmt::fmtparse::{FmtTrait, Parameter, Placeholder};

fn param_eq(a: &Parameter, b: &Parameter) -> bool {
    match (a, b) {
        (Parameter::Positional(x), Parameter::Positional(y)) => x == y,
        (Parameter::Named(x), Parameter::Named(y)) => x == y,
        _ => false,
    }
}

fn opt_eq(a: &Option<Parameter>, b: &Option<Parameter>) -> bool {
    match (a, b) {
        (Some(x), Some(y)) => param_eq(x, y),
        (None, None) => true,
        _ => false,
    }
}

fn ph_is(
    p: &Placeholder,
    arg: Parameter,
    width: Option<Parameter>,
    precision: Option<Parameter>,
    trait_name: &str,
) -> bool {
    param_eq(&p.arg, &arg)
        && opt_eq(&p.width, &width)
        && opt_eq(&p.precision, &precision)
        && p.trait_name.name() == trait_name
}

#[test]
fn indicates_position_and_trait_name_for_each_fmt_placeholder() {
    let fmt_string = "{},{:?},{{}},{{{1:0$}}}-{2:.1$x}{par:#?}{:width$}";
    let pls = Placeholder::parse_fmt_string(fmt_string);
    assert!(
        pls.len() == 6
            && ph_is(&pls[0], Parameter::Positional(0), None, None, "Display")
            && ph_is(&pls[1], Parameter::Positional(1), None, None, "Debug")
            && ph_is(
                &pls[2],
                Parameter::Positional(1),
                Some(Parameter::Positional(0)),
                None,
                "Display"
            )
            && ph_is(
                &pls[3],
                Parameter::Positional(2),
                None,
                Some(Parameter::Positional(1)),
                "LowerHex"
            )
            && ph_is(&pls[4], Parameter::Named("par".to_string()), None, None, "Debug")
            && ph_is(
                &pls[5],
                Parameter::Positional(2),
                Some(Parameter::Named("width".to_string())),
                None,
                "Display"
            )
    );
}

#[test]
fn plain_text_has_no_placeholders() {
    assert_eq!(Placeholder::parse_fmt_string("no placeholders at all").len(), 0);
}

#[test]
fn escaped_braces_produce_no_placeholder() {
    assert_eq!(Placeholder::parse_fmt_string("{{}} and }} and {{").len(), 0);
}

#[test]
fn one_placeholder_per_unescaped_group() {
    let pls = Placeholder::parse_fmt_string("a{}b{{x}}{0}c");
    assert_eq!(pls.len(), 2);
}

#[test]
fn implicit_numbering_skips_explicit_indices() {
    let pls = Placeholder::parse_fmt_string("{},{1},{}");
    assert!(
        pls.len() == 3
            && param_eq(&pls[0].arg, &Parameter::Positional(0))
            && param_eq(&pls[1].arg, &Parameter::Positional(1))
            && param_eq(&pls[2].arg, &Parameter::Positional(1))
    );
}

#[test]
fn named_argument_and_specifiers() {
    let pls = Placeholder::parse_fmt_string("{name:>8.3e}{:b}{:o}{:X}{:p}{:E}");
    assert!(
        pls.len() == 6
            && ph_is(&pls[0], Parameter::Named("name".to_string()), None, None, "LowerExp")
            && ph_is(&pls[1], Parameter::Positional(0), None, None, "Binary")
            && ph_is(&pls[2], Parameter::Positional(1), None, None, "Octal")
            && ph_is(&pls[3], Parameter::Positional(2), None, None, "UpperHex")
            && ph_is(&pls[4], Parameter::Positional(3), None, None, "Pointer")
            && ph_is(&pls[5], Parameter::Positional(4), None, None, "UpperExp")
    );
}

#[test]
fn lower_and_upper_debug_select_debug() {
    let pls = Placeholder::parse_fmt_string("{:x?}{:X?}");
    assert!(
        pls.len() == 2
            && ph_is(&pls[0], Parameter::Positional(0), None, None, "Debug")
            && ph_is(&pls[1], Parameter::Positional(1), None, None, "Debug")
    );
}

#[test]
fn literal_width_and_star_precision_are_absent_references() {
    let pls = Placeholder::parse_fmt_string("{:5}{:.*}");
    assert!(
        pls.len() == 2
            && opt_eq(&pls[0].width, &None)
            && opt_eq(&pls[1].precision, &None)
    );
}

#[test]
fn largest_index_is_recognized() {
    let pls = Placeholder::parse_fmt_string("{18446744073709551615}");
    assert!(pls.len() == 1 && param_eq(&pls[0].arg, &Parameter::Positional(usize::MAX)));
}

#[test]
fn oversized_index_is_not_recognized() {
    assert_eq!(Placeholder::parse_fmt_string("{18446744073709551616}").len(), 0);
}

#[test]
fn malformed_string_yields_no_placeholders() {
    assert_eq!(Placeholder::parse_fmt_string("{unclosed").len(), 0);
    assert_eq!(Placeholder::parse_fmt_string("}").len(), 0);
    assert_eq!(Placeholder::parse_fmt_string("{:q}").len(), 0);
}
