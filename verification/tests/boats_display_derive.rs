use derive_fmt::display;
use derive_fmt::input::{Attr, Data, Field, FieldList, Input, MetaItem, TypeModel, Variant};

fn s(x: &str) -> String {
    x.to_string()
}

fn fmt_attr(value: &str, args: Vec<MetaItem>) -> Attr {
    let mut items = vec![MetaItem::NameValueStr { name: s("fmt"), value: s(value) }];
    items.extend(args);
    Attr { path: s("display"), is_list: true, items }
}

fn named_field(name: &str, ty: &str) -> Field {
    Field { ident: Some(s(name)), ty: TypeModel { text: s(ty), idents: vec![s(ty)] } }
}

fn pos_field(ty: &str) -> Field {
    Field { ident: None, ty: TypeModel { text: s(ty), idents: vec![s(ty)] } }
}

#[test]
fn unit_struct() {
    let input = Input {
        ident: s("UnitError"),
        vis: s(""),
        type_params: vec![],
        attrs: vec![fmt_attr("An error has occurred.", vec![])],
        data: Data::Struct(FieldList::Unit),
    };
    let out = display::expand(&input, "Display").unwrap();
    assert_eq!(
        out,
        "#[automatically_derived] impl ::core::fmt::Display for UnitError { #[inline] fn fmt(&self, _derive_more_display_formatter: &mut ::core::fmt::Formatter) -> ::core::fmt::Result { match *self { UnitError => write!(_derive_more_display_formatter, \"An error has occurred.\", ), } } }"
    );
    assert_eq!(format!("An error has occurred."), "An error has occurred.");
}

#[test]
fn record_struct() {
    let input = Input {
        ident: s("RecordError"),
        vis: s(""),
        type_params: vec![],
        attrs: vec![fmt_attr("Error code: {}", vec![MetaItem::Path(s("code"))])],
        data: Data::Struct(FieldList::Named(vec![named_field("code", "u32")])),
    };
    let out = display::expand(&input, "Display").unwrap();
    assert_eq!(
        out,
        "#[automatically_derived] impl ::core::fmt::Display for RecordError { #[inline] fn fmt(&self, _derive_more_display_formatter: &mut ::core::fmt::Formatter) -> ::core::fmt::Result { match *self { RecordError { ref code, } => write!(_derive_more_display_formatter, \"Error code: {}\", code, ), } } }"
    );
    assert_eq!(format!("Error code: {}", 0), "Error code: 0");
}

#[test]
fn tuple_struct() {
    let input = Input {
        ident: s("TupleError"),
        vis: s(""),
        type_params: vec![],
        attrs: vec![fmt_attr("Error code: {}", vec![MetaItem::Path(s("_0"))])],
        data: Data::Struct(FieldList::Unnamed(vec![pos_field("i32")])),
    };
    let out = display::expand(&input, "Display").unwrap();
    assert_eq!(
        out,
        "#[automatically_derived] impl ::core::fmt::Display for TupleError { #[inline] fn fmt(&self, _derive_more_display_formatter: &mut ::core::fmt::Formatter) -> ::core::fmt::Result { match *self { TupleError(ref _0, ) => write!(_derive_more_display_formatter, \"Error code: {}\", _0, ), } } }"
    );
    assert_eq!(format!("Error code: {}", 2), "Error code: 2");
}

#[test]
fn enum_error() {
    let input = Input {
        ident: s("EnumError"),
        vis: s(""),
        type_params: vec![],
        attrs: vec![],
        data: Data::Enum(vec![
            Variant {
                ident: s("StructVariant"),
                attrs: vec![fmt_attr("Error code: {}", vec![MetaItem::Path(s("code"))])],
                fields: FieldList::Named(vec![named_field("code", "i32")]),
            },
            Variant {
                ident: s("TupleVariant"),
                attrs: vec![fmt_attr("Error: {}", vec![MetaItem::Path(s("_0"))])],
                fields: FieldList::Unnamed(vec![pos_field("&'static str")]),
            },
            Variant {
                ident: s("UnitVariant"),
                attrs: vec![fmt_attr("An error has occurred.", vec![])],
                fields: FieldList::Unit,
            },
        ]),
    };
    let out = display::expand(&input, "Display").unwrap();
    assert_eq!(
        out,
        "#[automatically_derived] impl ::core::fmt::Display for EnumError { #[inline] fn fmt(&self, _derive_more_display_formatter: &mut ::core::fmt::Formatter) -> ::core::fmt::Result { match *self { Self::StructVariant { ref code, } => write!(_derive_more_display_formatter, \"Error code: {}\", code, ), Self::TupleVariant(ref _0, ) => write!(_derive_more_display_formatter, \"Error: {}\", _0, ), Self::UnitVariant => write!(_derive_more_display_formatter, \"An error has occurred.\", ), } } }"
    );
    assert_eq!(format!("Error code: {}", 2), "Error code: 2");
    assert_eq!(format!("Error: {}", "foobar"), "Error: foobar");
    assert_eq!(format!("An error has occurred."), "An error has occurred.");
}

#[test]
fn expansion_is_reproducible() {
    let build = || Input {
        ident: s("RecordError"),
        vis: s(""),
        type_params: vec![s("T")],
        attrs: vec![fmt_attr("Error code: {}", vec![MetaItem::Path(s("code"))])],
        data: Data::Struct(FieldList::Named(vec![named_field("code", "T")])),
    };
    let first = display::expand(&build(), "Display").unwrap();
    let second = display::expand(&build(), "Display").unwrap();
    assert_eq!(first, second);
}
