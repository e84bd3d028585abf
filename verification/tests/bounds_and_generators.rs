use derive_fmt::bound_parse::parse_meta_bounds;
use derive_fmt::bounds::{get_used_type_params_bounds, infer_type_params_bounds};
use derive_fmt::display;
use derive_fmt::from_str;
use derive_fmt::input::{Attr, Data, Field, FieldList, Input, MetaItem, TypeModel, Variant};
use derive_fmt::unwrap;

fn s(x: &str) -> String {
    x.to_string()
}

fn fmt_attr(value: &str, args: Vec<MetaItem>) -> Attr {
    let mut items = vec![MetaItem::NameValueStr { name: s("fmt"), value: s(value) }];
    items.extend(args);
    Attr { path: s("display"), is_list: true, items }
}

fn bound_attr(value: &str) -> Attr {
    Attr {
        path: s("display"),
        is_list: true,
        items: vec![MetaItem::NameValueStr { name: s("bound"), value: s(value) }],
    }
}

fn named_field(name: &str, ty: &str) -> Field {
    Field { ident: Some(s(name)), ty: TypeModel { text: s(ty), idents: vec![s(ty)] } }
}

fn pos_field(ty: &str) -> Field {
    Field { ident: None, ty: TypeModel { text: s(ty), idents: vec![s(ty)] } }
}

fn generic_wrapper(attrs: Vec<Attr>) -> Input {
    Input {
        ident: s("Wrapper"),
        vis: s(""),
        type_params: vec![s("T")],
        attrs,
        data: Data::Struct(FieldList::Unnamed(vec![pos_field("T")])),
    }
}

// ---------------------------------------------------------------------------
// Bounds inference
// ---------------------------------------------------------------------------
#[test]
fn bound_inferred_for_bare_parameter_field() {
    let params = vec![s("T")];
    let fields = FieldList::Unnamed(vec![pos_field("T")]);
    let b = infer_type_params_bounds(&params, &fields, "display");
    assert_eq!(b.entries.len(), 1);
    assert_eq!(b.entries[0].param, "T");
    assert_eq!(b.entries[0].bounds, vec![s("::core::fmt::Display")]);
}

#[test]
fn inferred_bound_reaches_the_where_clause() {
    let out = display::expand(&generic_wrapper(vec![]), "Display").unwrap();
    assert_eq!(
        out,
        "#[automatically_derived] impl<T> ::core::fmt::Display for Wrapper<T> where T: ::core::fmt::Display { #[inline] fn fmt(&self, _derive_more_display_formatter: &mut ::core::fmt::Formatter) -> ::core::fmt::Result { match *self { Wrapper(ref _0, ) => ::core::fmt::Display::fmt(_0, _derive_more_display_formatter), } } }"
    );
}

#[test]
fn named_placeholder_binds_only_its_parameter() {
    let params = vec![s("T"), s("U")];
    let fields = FieldList::Named(vec![named_field("a", "T"), named_field("b", "U")]);
    let meta = fmt_attr("{a:?}", vec![]);
    let b = get_used_type_params_bounds(&params, &fields, &meta);
    assert_eq!(b.entries.len(), 1);
    assert_eq!(b.entries[0].param, "T");
    assert_eq!(b.entries[0].bounds, vec![s("::core::fmt::Debug")]);
}

#[test]
fn positional_placeholder_resolves_through_explicit_args() {
    let params = vec![s("T")];
    let fields = FieldList::Named(vec![named_field("a", "T")]);
    let meta = fmt_attr("{0:x} {0:X}", vec![MetaItem::Path(s("a"))]);
    let b = get_used_type_params_bounds(&params, &fields, &meta);
    assert_eq!(b.entries.len(), 1);
    assert_eq!(b.entries[0].param, "T");
    assert_eq!(
        b.entries[0].bounds,
        vec![s("::core::fmt::LowerHex"), s("::core::fmt::UpperHex")]
    );
}

#[test]
fn explicit_bound_attribute_joins_the_inferred_bound() {
    let input = generic_wrapper(vec![bound_attr("T: Send + Sync")]);
    let out = display::expand(&input, "Display").unwrap();
    assert!(out.contains(" where T: ::core::fmt::Display + Send + Sync "));
}

// ---------------------------------------------------------------------------
// The bounds-literal parser
// ---------------------------------------------------------------------------
#[test]
fn bound_literal_accepts_clauses_and_brackets() {
    let params = vec![s("T"), s("U")];
    let b = parse_meta_bounds(&params, "display", "T: Into<String> + Clone, U: AsRef<[u8]>")
        .unwrap();
    assert_eq!(b.entries.len(), 2);
    assert_eq!(b.entries[0].param, "T");
    assert_eq!(b.entries[0].bounds, vec![s("Into<String>"), s("Clone")]);
    assert_eq!(b.entries[1].param, "U");
    assert_eq!(b.entries[1].bounds, vec![s("AsRef<[u8]>")]);
}

#[test]
fn bound_literal_accepts_a_trailing_comma() {
    let params = vec![s("T")];
    let b = parse_meta_bounds(&params, "display", "T: Clone,").unwrap();
    assert_eq!(b.entries.len(), 1);
}

#[test]
fn empty_bound_literal_is_rejected() {
    let params = vec![s("T")];
    let e = parse_meta_bounds(&params, "display", "  ").unwrap_err();
    assert_eq!(e.message, "No bounds specified");
}

#[test]
fn unknown_parameter_is_rejected() {
    let params = vec![s("T")];
    let e = parse_meta_bounds(&params, "display", "V: Clone").unwrap_err();
    assert_eq!(e.message, "Unknown generic type argument specified");
}

#[test]
fn lifetime_clause_is_rejected() {
    let params = vec![s("T")];
    let e = parse_meta_bounds(&params, "display", "'a: 'b").unwrap_err();
    assert_eq!(e.message, "Only trait bounds allowed");
}

#[test]
fn const_clause_is_rejected() {
    let params = vec![s("T")];
    let e = parse_meta_bounds(&params, "display", "const N: usize").unwrap_err();
    assert_eq!(e.message, "Only trait bounds allowed");
}

#[test]
fn clause_attribute_is_rejected() {
    let params = vec![s("T")];
    let e = parse_meta_bounds(&params, "display", "#[cfg(test)] T: Clone").unwrap_err();
    assert_eq!(e.message, "Attributes aren't allowed");
}

#[test]
fn default_value_is_rejected() {
    let params = vec![s("T")];
    let e = parse_meta_bounds(&params, "display", "T: Clone = u8").unwrap_err();
    assert_eq!(e.message, "Default type parameters aren't allowed");
}

#[test]
fn higher_rank_bound_is_rejected() {
    let params = vec![s("T")];
    let e = parse_meta_bounds(&params, "display", "T: for<'a> Fn(&'a str)").unwrap_err();
    assert_eq!(e.message, "Higher-rank trait bounds aren't allowed");
}

#[test]
fn lifetime_bound_is_rejected() {
    let params = vec![s("T")];
    let e = parse_meta_bounds(&params, "display", "T: 'static").unwrap_err();
    assert_eq!(e.message, "Only trait bounds allowed");
}

#[test]
fn bare_parameter_without_bounds_is_rejected() {
    let params = vec![s("T")];
    let e = parse_meta_bounds(&params, "display", "T").unwrap_err();
    assert_eq!(e.message, "No bounds specified for type parameter T");
}

// ---------------------------------------------------------------------------
// Attribute and shape diagnostics
// ---------------------------------------------------------------------------
#[test]
fn duplicate_format_attribute_is_rejected() {
    let mut input = generic_wrapper(vec![fmt_attr("{}", vec![MetaItem::Path(s("_0"))])]);
    input.attrs.push(fmt_attr("{}", vec![MetaItem::Path(s("_0"))]));
    let e = display::expand(&input, "Display").unwrap_err();
    assert_eq!(e.message, "Too many attributes specified");
}

#[test]
fn unknown_attribute_argument_is_rejected() {
    let attr = Attr {
        path: s("display"),
        is_list: true,
        items: vec![MetaItem::NameValueStr { name: s("format"), value: s("{}") }],
    };
    let e = display::expand(&generic_wrapper(vec![attr]), "Display").unwrap_err();
    assert_eq!(
        e.message,
        "Unknown `format` attribute argument. Allowed arguments are: fmt, bound"
    );
}

#[test]
fn malformed_attribute_shape_is_rejected() {
    let attr = Attr { path: s("display"), is_list: true, items: vec![MetaItem::Path(s("foo"))] };
    let e = display::expand(&generic_wrapper(vec![attr]), "Display").unwrap_err();
    assert_eq!(
        e.message,
        "The format for this attribute cannot be parsed. Correct format: `#[display(fmt = \"...\")]`"
    );
}

#[test]
fn unparsable_argument_is_rejected() {
    let e = display::expand(&generic_wrapper(vec![fmt_attr("{}", vec![MetaItem::Other])]), "Display")
        .unwrap_err();
    assert_eq!(e.message, "Proper syntax: #[display(fmt = \"My format\", \"arg1\", \"arg2\")]");
}

#[test]
fn two_fields_cannot_be_inferred() {
    let input = Input {
        ident: s("Pair"),
        vis: s(""),
        type_params: vec![],
        attrs: vec![],
        data: Data::Struct(FieldList::Unnamed(vec![pos_field("u8"), pos_field("u8")])),
    };
    let e = display::expand(&input, "Display").unwrap_err();
    assert_eq!(e.message, "Cannot automatically infer format for types with more than 1 field");
}

#[test]
fn union_needs_an_explicit_format() {
    let input = Input {
        ident: s("Mix"),
        vis: s(""),
        type_params: vec![],
        attrs: vec![],
        data: Data::Union(FieldList::Named(vec![named_field("a", "u8")])),
    };
    let e = display::expand(&input, "Display").unwrap_err();
    assert_eq!(e.message, "Cannot automatically infer format for unions");
}

// ---------------------------------------------------------------------------
// Enum-level format strings
// ---------------------------------------------------------------------------
fn two_variant_enum(attrs: Vec<Attr>, variant_attrs: Vec<Attr>) -> Input {
    Input {
        ident: s("E"),
        vis: s(""),
        type_params: vec![],
        attrs,
        data: Data::Enum(vec![
            Variant {
                ident: s("A"),
                attrs: variant_attrs,
                fields: FieldList::Unnamed(vec![pos_field("i32")]),
            },
            Variant { ident: s("B"), attrs: vec![], fields: FieldList::Unit },
        ]),
    }
}

#[test]
fn affix_with_one_placeholder_wraps_each_variant() {
    let input = two_variant_enum(vec![fmt_attr("Error: {}", vec![])], vec![]);
    let out = display::expand(&input, "Display").unwrap();
    assert!(out.contains("struct _derive_more_DisplayAs<F>(F)"));
    assert!(out.contains(
        "Self::A(ref _0, ) => write!(_derive_more_display_formatter, \"Error: {}\", _derive_more_DisplayAs(|_derive_more_display_formatter| ::core::fmt::Display::fmt(_0, _derive_more_display_formatter))), "
    ));
    assert!(out.contains(
        "Self::B => write!(_derive_more_display_formatter, \"Error: {}\", _derive_more_DisplayAs(|_derive_more_display_formatter| _derive_more_display_formatter.write_str(stringify!(B)))), "
    ));
}

#[test]
fn affix_without_placeholder_collapses_the_enum() {
    let input = two_variant_enum(vec![fmt_attr("an enum", vec![])], vec![]);
    let out = display::expand(&input, "Display").unwrap();
    assert!(out.contains("match *self { _ => write!(_derive_more_display_formatter, \"an enum\", ), }"));
    assert!(!out.contains("_derive_more_DisplayAs"));
}

#[test]
fn affix_with_arguments_is_rejected() {
    let input = two_variant_enum(vec![fmt_attr("Error: {}", vec![MetaItem::Path(s("x"))])], vec![]);
    let e = display::expand(&input, "Display").unwrap_err();
    assert_eq!(
        e.message,
        "outer `enum` `fmt` is an affix spec that expects no args and at most 1 placeholder for inner variant display"
    );
}

#[test]
fn affix_with_two_placeholders_is_rejected() {
    let input = two_variant_enum(vec![fmt_attr("{} {}", vec![])], vec![]);
    let e = display::expand(&input, "Display").unwrap_err();
    assert_eq!(
        e.message,
        "outer `enum` `fmt` is an affix spec that expects no args and at most 1 placeholder for inner variant display"
    );
}

#[test]
fn variant_format_under_fixed_affix_is_rejected() {
    let input = two_variant_enum(
        vec![fmt_attr("an enum", vec![])],
        vec![fmt_attr("a variant", vec![])],
    );
    let e = display::expand(&input, "Display").unwrap_err();
    assert_eq!(
        e.message,
        "`fmt` cannot be used on variant when the whole enum has a format string without a placeholder, maybe you want to add a placeholder?"
    );
}

// ---------------------------------------------------------------------------
// The string-parsing generator
// ---------------------------------------------------------------------------
#[test]
fn from_str_delegates_to_the_single_field() {
    let input = Input {
        ident: s("Wrapper"),
        vis: s(""),
        type_params: vec![],
        attrs: vec![],
        data: Data::Struct(FieldList::Unnamed(vec![pos_field("u64")])),
    };
    let out = from_str::expand(&input, "FromStr").unwrap();
    assert_eq!(
        out,
        "#[automatically_derived] impl ::core::str::FromStr for Wrapper { type Err = <u64 as ::core::str::FromStr>::Err; #[inline] fn from_str(src: &str) -> ::core::result::Result<Self, Self::Err> { Ok(Wrapper(<u64 as ::core::str::FromStr>::from_str(src)?)) } }"
    );
}

#[test]
fn from_str_names_the_single_named_field() {
    let input = Input {
        ident: s("Point"),
        vis: s(""),
        type_params: vec![],
        attrs: vec![],
        data: Data::Struct(FieldList::Named(vec![named_field("x", "u64")])),
    };
    let out = from_str::expand(&input, "FromStr").unwrap();
    assert!(out.contains("Ok(Point { x: <u64 as ::core::str::FromStr>::from_str(src)? })"));
}

#[test]
fn from_str_needs_exactly_one_field() {
    let input = Input {
        ident: s("Pair"),
        vis: s(""),
        type_params: vec![],
        attrs: vec![],
        data: Data::Struct(FieldList::Unnamed(vec![pos_field("u8"), pos_field("u8")])),
    };
    let e = from_str::expand(&input, "FromStr").unwrap_err();
    assert_eq!(e.message, "Only structs with one field can derive(FromStr)");
}

#[test]
fn from_str_enum_matches_lowercased_variants() {
    let input = Input {
        ident: s("Choice"),
        vis: s("pub"),
        type_params: vec![],
        attrs: vec![],
        data: Data::Enum(vec![
            Variant { ident: s("Foo"), attrs: vec![], fields: FieldList::Unit },
            Variant { ident: s("Bar"), attrs: vec![], fields: FieldList::Unit },
        ]),
    };
    let out = from_str::expand(&input, "FromStr").unwrap();
    assert!(out.contains("pub struct ParseChoiceError;"));
    assert!(out.contains("fmt.write_str(\"invalid choice\")"));
    assert!(out.contains("\"foo\" => Choice::Foo, "));
    assert!(out.contains("\"bar\" => Choice::Bar, "));
    assert!(out.contains("_ => return Err(ParseChoiceError{}), "));
}

#[test]
fn from_str_enum_guards_colliding_variants() {
    let input = Input {
        ident: s("Mix"),
        vis: s(""),
        type_params: vec![],
        attrs: vec![],
        data: Data::Enum(vec![
            Variant { ident: s("Foo"), attrs: vec![], fields: FieldList::Unit },
            Variant { ident: s("FOO"), attrs: vec![], fields: FieldList::Unit },
        ]),
    };
    let out = from_str::expand(&input, "FromStr").unwrap();
    assert!(out.contains("\"foo\" if(src == \"Foo\") => Mix::Foo, "));
    assert!(out.contains("\"foo\" if(src == \"FOO\") => Mix::FOO, "));
}

#[test]
fn from_str_enum_variants_must_be_fieldless() {
    let input = Input {
        ident: s("Bad"),
        vis: s(""),
        type_params: vec![],
        attrs: vec![],
        data: Data::Enum(vec![
            Variant {
                ident: s("A"),
                attrs: vec![],
                fields: FieldList::Unnamed(vec![pos_field("u8")]),
            },
        ]),
    };
    let e = from_str::expand(&input, "FromStr").unwrap_err();
    assert_eq!(e.message, "Only enums with no fields can derive(FromStr)");
}

#[test]
fn one_field_diagnostic_names_the_trait() {
    assert_eq!(
        from_str::panic_one_field("FromStr").message,
        "Only structs with one field can derive(FromStr)"
    );
}

// ---------------------------------------------------------------------------
// The accessor generator
// ---------------------------------------------------------------------------
#[test]
fn unwrap_emits_one_accessor_per_variant() {
    let input = Input {
        ident: s("E"),
        vis: s(""),
        type_params: vec![],
        attrs: vec![],
        data: Data::Enum(vec![
            Variant {
                ident: s("StructVariant"),
                attrs: vec![],
                fields: FieldList::Unnamed(vec![pos_field("i32"), pos_field("String")]),
            },
            Variant { ident: s("UnitVariant"), attrs: vec![], fields: FieldList::Unit },
        ]),
    };
    let out = unwrap::expand(&input).unwrap();
    assert!(out.contains(
        "pub fn unwrap_struct_variant(self) -> (i32, String) { match self { E::StructVariant(field_0, field_1) => (field_0, field_1), E::UnitVariant => panic!(concat!(\"called `\", stringify!(E), \"::\", stringify!(unwrap_struct_variant), \"()` on a `\", stringify!(UnitVariant), \"` value\")), } }"
    ));
    assert!(out.contains("pub fn unwrap_unit_variant(self) -> () { match self { E::UnitVariant => (), E::StructVariant(..) => panic!"));
}

#[test]
fn unwrap_rejects_record_variants() {
    let input = Input {
        ident: s("E"),
        vis: s(""),
        type_params: vec![],
        attrs: vec![],
        data: Data::Enum(vec![
            Variant {
                ident: s("A"),
                attrs: vec![],
                fields: FieldList::Named(vec![named_field("x", "u8")]),
            },
        ]),
    };
    let e = unwrap::expand(&input).unwrap_err();
    assert_eq!(e.message, "cannot unwrap anonymous records");
}

#[test]
fn unwrap_rejects_non_enums() {
    let input = Input {
        ident: s("S"),
        vis: s(""),
        type_params: vec![],
        attrs: vec![],
        data: Data::Struct(FieldList::Unit),
    };
    let e = unwrap::expand(&input).unwrap_err();
    assert_eq!(e.message, "Unwrap can only be derived for enums");
}
