//! The model of one type declaration as the generators read it: the kind
//! (struct, enum or union), the declared type parameters, the fields and
//! variants, and the raw attribute arguments at each attachment point.

use vstd::prelude::*;

verus! {

/// One argument inside an attribute list `#[name(...)]`.
pub enum MetaItem {
    /// `name = "value"` with a string-literal value.
    NameValueStr { name: String, value: String },
    /// A bare path argument: an identifier passed through to the output.
    Path(String),
    /// A string-literal argument.
    LitStr(String),
    /// Any other argument shape.
    Other,
}

/// One attribute occurrence on an item, variant or field.
pub struct Attr {
    /// The attribute's name.
    pub path: String,
    /// Whether the occurrence carries a parenthesised argument list.
    pub is_list: bool,
    /// The arguments when it does.
    pub items: Vec<MetaItem>,
}

/// A field's type, reduced to what the generators read.
pub struct TypeModel {
    /// The type's source text.
    pub text: String,
    /// The identifiers appearing in the type's text, in source order.
    pub idents: Vec<String>,
}

/// One field of a struct, union or enum variant.
pub struct Field {
    /// The field's name; `None` in a tuple position.
    pub ident: Option<String>,
    /// The field's type.
    pub ty: TypeModel,
}

/// The field list of one shape.
pub enum FieldList {
    Unit,
    Unnamed(Vec<Field>),
    Named(Vec<Field>),
}

/// One enum variant.
pub struct Variant {
    pub ident: String,
    pub attrs: Vec<Attr>,
    pub fields: FieldList,
}

/// The declared data shape.
pub enum Data {
    Struct(FieldList),
    Enum(Vec<Variant>),
    Union(FieldList),
}

/// One type declaration.
pub struct Input {
    pub ident: String,
    /// The declaration's visibility text (empty for private).
    pub vis: String,
    /// The declared generic type parameters, in order.
    pub type_params: Vec<String>,
    pub attrs: Vec<Attr>,
    pub data: Data,
}

/// A generation-time error carrying its diagnostic message.
#[derive(Debug)]
pub struct Error {
    pub message: String,
}

impl FieldList {
    /// The fields as one sequence, however the list is written.
    pub open spec fn spec_fields(&self) -> Seq<Field> {
        match self {
            FieldList::Unit => Seq::empty(),
            FieldList::Unnamed(fs) => fs@,
            FieldList::Named(fs) => fs@,
        }
    }
}

} // verus!
