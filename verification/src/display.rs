//! The code shape selector and emitter for the formatting-trait generator.
//!
//! One declaration is expanded along one of five shapes: a struct, an enum
//! without an item-level format attribute, an enum whose item-level format
//! string has no placeholder, an enum whose item-level format string has
//! exactly one placeholder (rendered through a helper value that defers to
//! each variant's own body), and a union.  The emitted implementation text
//! is a function of the declaration alone, so repeated expansion of the
//! same declaration is byte-identical.

use vstd::prelude::*;
use vstd::string::*;

use crate::attrs::{
    find_meta, msg_bad_attr_shape, msg_too_many_attributes, msg_unknown_argument, spec_find_meta,
    SpecFind,
};
use crate::bound_parse::{
    build_proper_bound_syntax, parse_meta_bounds, spec_parse_bounds, spec_proper_bound_syntax,
    BoundsResult,
};
use crate::bounds::{
    get_used_type_params_bounds, infer_type_params_bounds, spec_infer_bounds, spec_merge,
    spec_used_bounds, Bounds, GEntry,
};
use crate::fmtparse::{
    spec_placeholders, views_of, Parameter, Placeholder, SpecParameter, SpecPlaceholder,
};
use crate::input::{Attr, Data, Error, Field, FieldList, Input, MetaItem, Variant};
use crate::names::{is_attr_name, is_trait_name, spec_attr_of_trait, spec_trait_bound, trait_name_to_attribute_name};
use crate::text::{append_quoted, spec_decimal, spec_quoted, str_eq, usize_to_string};

verus! {

// ---------------------------------------------------------------------------
// Well-formed declarations
// ---------------------------------------------------------------------------
/// A named field list names every field; matchers destructure by name.
pub open spec fn wf_fields(fields: FieldList) -> bool {
    match fields {
        FieldList::Named(fs) => forall|i: int| 0 <= i < fs@.len() ==> fs@[i].ident is Some,
        _ => true,
    }
}

/// Every field list of the declaration is well formed.
pub open spec fn wf_input(input: Input) -> bool {
    match input.data {
        crate::input::Data::Struct(fields) => wf_fields(fields),
        crate::input::Data::Union(fields) => wf_fields(fields),
        crate::input::Data::Enum(vs) => forall|i: int|
            0 <= i < vs@.len() ==> wf_fields(vs@[i].fields),
    }
}

// ---------------------------------------------------------------------------
// Diagnostics
// ---------------------------------------------------------------------------
/// The expected-syntax diagnostic for the format argument.
pub open spec fn spec_proper_fmt_syntax(trait_attr: Seq<char>) -> Seq<char> {
    "Proper syntax: #["@ + trait_attr + "(fmt = \"My format\", \"arg1\", \"arg2\")]"@
}

/// Builds the expected-syntax diagnostic for the format argument.
pub fn get_proper_fmt_syntax(trait_attr: &str) -> (r: String)
    ensures
        r@ == spec_proper_fmt_syntax(trait_attr@),
{
    let mut m = String::new();
    m.append("Proper syntax: #[");
    m.append(trait_attr);
    m.append("(fmt = \"My format\", \"arg1\", \"arg2\")]");
    proof {
        assert(m@ =~= spec_proper_fmt_syntax(trait_attr@));
    }
    m
}

pub open spec fn msg_affix_usage() -> Seq<char> {
    "outer `enum` `fmt` is an affix spec that expects no args and at most 1 placeholder for inner variant display"@
}

pub open spec fn msg_variant_fmt_redundant() -> Seq<char> {
    "`fmt` cannot be used on variant when the whole enum has a format string without a placeholder, maybe you want to add a placeholder?"@
}

pub open spec fn msg_cannot_infer() -> Seq<char> {
    "Cannot automatically infer format for types with more than 1 field"@
}

pub open spec fn msg_cannot_infer_union() -> Seq<char> {
    "Cannot automatically infer format for unions"@
}

// ---------------------------------------------------------------------------
// Matchers
// ---------------------------------------------------------------------------
/// The destructuring pieces `ref _0, ref _1, ` for `n` tuple fields.
pub open spec fn spec_unnamed_pieces(n: int) -> Seq<char>
    decreases n
        when n >= 0
{
    if n <= 0 {
        Seq::empty()
    } else {
        spec_unnamed_pieces(n - 1) + "ref _"@ + spec_decimal((n - 1) as nat) + ", "@
    }
}

/// The destructuring pieces `ref a, ref b, ` for named fields from `i` on.
pub open spec fn spec_named_pieces(fs: Seq<Field>, i: int) -> Seq<char>
    decreases fs.len() - i
        when 0 <= i <= fs.len()
{
    if i >= fs.len() {
        Seq::empty()
    } else {
        "ref "@ + (match fs[i].ident {
            Some(id) => id@,
            None => Seq::empty(),
        }) + ", "@ + spec_named_pieces(fs, i + 1)
    }
}

/// The destructuring matcher of one field list: nothing for a unit shape,
/// `(ref _0, ..., )` for a tuple shape, ` { ref a, ..., }` for a record
/// shape.
pub open spec fn spec_matcher(fields: FieldList) -> Seq<char> {
    match fields {
        FieldList::Unit => Seq::empty(),
        FieldList::Unnamed(fs) => "("@ + spec_unnamed_pieces(fs@.len() as int) + ")"@,
        FieldList::Named(fs) => " { "@ + spec_named_pieces(fs@, 0) + "}"@,
    }
}

/// Emits the destructuring matcher of one field list.
pub fn get_matcher(fields: &FieldList) -> (r: String)
    requires
        wf_fields(*fields),
    ensures
        r@ == spec_matcher(*fields),
{
    let mut out = String::new();
    match fields {
        FieldList::Unit => {
            proof {
                assert(out@ =~= spec_matcher(*fields));
            }
        },
        FieldList::Unnamed(fs) => {
            out.append("(");
            let n = fs.len();
            let mut i: usize = 0;
            proof {
                assert(out@ =~= "("@ + spec_unnamed_pieces(0));
            }
            while i < n
                invariant
                    i <= n,
                    n == fs@.len(),
                    out@ == "("@ + spec_unnamed_pieces(i as int),
                decreases n - i,
            {
                out.append("ref _");
                let d = usize_to_string(i);
                out.append(d.as_str());
                out.append(", ");
                i += 1;
                proof {
                    assert(out@ =~= "("@ + spec_unnamed_pieces(i as int));
                }
            }
            out.append(")");
            proof {
                assert(out@ =~= spec_matcher(*fields));
            }
        },
        FieldList::Named(fs) => {
            out.append(" { ");
            let n = fs.len();
            let mut i: usize = 0;
            proof {
                assert(spec_named_pieces(fs@, n as int) =~= Seq::<char>::empty());
                assert(out@ =~= " { "@ + Seq::<char>::empty());
            }
            let ghost head = out@;
            while i < n
                invariant
                    i <= n,
                    n == fs@.len(),
                    wf_fields(FieldList::Named(*fs)),
                    head == " { "@,
                    head + spec_named_pieces(fs@, 0) =~= out@ + spec_named_pieces(fs@, i as int),
                decreases n - i,
            {
                out.append("ref ");
                match &fs[i].ident {
                    Some(id) => {
                        out.append(id.as_str());
                    },
                    None => {
                        // a named list names every field
                        assert(false);
                    },
                }
                out.append(", ");
                i += 1;
            }
            proof {
                assert(spec_named_pieces(fs@, n as int) =~= Seq::<char>::empty());
                assert(out@ =~= head + spec_named_pieces(fs@, 0));
            }
            out.append("}");
            proof {
                assert(out@ =~= spec_matcher(*fields));
            }
        },
    }
    out
}

// ---------------------------------------------------------------------------
// Inferred bodies
// ---------------------------------------------------------------------------
/// What inferring a body without a format string yields.
pub ghost enum TextResult {
    Done(Seq<char>),
    Fail(Seq<char>),
}

/// The body text when the shape has no fields: the shape's own name.
pub open spec fn spec_write_name_body(name: Seq<char>) -> Seq<char> {
    "_derive_more_display_formatter.write_str(stringify!("@ + name + "))"@
}

/// The body text delegating the single field to the trait.
pub open spec fn spec_delegate_body(trait_path: Seq<char>, field: Seq<char>) -> Seq<char> {
    trait_path + "::fmt("@ + field + ", _derive_more_display_formatter)"@
}

/// The inferred body of a shape without an explicit format string: the
/// shape's name when it has no fields, a delegation of its only field when
/// it has one, and an error when it has more.
pub open spec fn spec_infer_fmt(trait_path: Seq<char>, fields: FieldList, name: Seq<char>) -> TextResult {
    if fields.spec_fields().len() == 0 {
        TextResult::Done(spec_write_name_body(name))
    } else if fields.spec_fields().len() > 1 {
        TextResult::Fail(msg_cannot_infer())
    } else {
        let f = fields.spec_fields()[0];
        TextResult::Done(
            spec_delegate_body(
                trait_path,
                match f.ident {
                    Some(id) => id@,
                    None => "_0"@,
                },
            ),
        )
    }
}

/// Emits the inferred body of a shape with no explicit format string.
pub fn infer_fmt(trait_path: &str, fields: &FieldList, name: &str) -> (r: Result<String, Error>)
    ensures
        match r {
            Ok(s) => spec_infer_fmt(trait_path@, *fields, name@) == TextResult::Done(s@),
            Err(e) => spec_infer_fmt(trait_path@, *fields, name@) == TextResult::Fail(e.message@),
        },
{
    let empty_fields: Vec<Field> = Vec::new();
    let fs: &Vec<Field> = match fields {
        FieldList::Unit => &empty_fields,
        FieldList::Unnamed(v) => v,
        FieldList::Named(v) => v,
    };
    if fs.len() == 0 {
        let mut out = String::new();
        out.append("_derive_more_display_formatter.write_str(stringify!(");
        out.append(name);
        out.append("))");
        proof {
            assert(out@ =~= spec_write_name_body(name@));
        }
        return Ok(out);
    }
    if fs.len() > 1 {
        let mut m = String::new();
        m.append("Cannot automatically infer format for types with more than 1 field");
        proof {
            assert(m@ =~= msg_cannot_infer());
        }
        return Err(Error { message: m });
    }
    let mut out = String::new();
    out.append(trait_path);
    out.append("::fmt(");
    match &fs[0].ident {
        Some(id) => {
            out.append(id.as_str());
        },
        None => {
            out.append("_0");
        },
    }
    out.append(", _derive_more_display_formatter)");
    proof {
        assert(out@ =~= spec_delegate_body(
            trait_path@,
            match fields.spec_fields()[0].ident {
                Some(id) => id@,
                None => "_0"@,
            },
        ));
    }
    Ok(out)
}

// ---------------------------------------------------------------------------
// Explicit format bodies
// ---------------------------------------------------------------------------
/// The views of a sequence of owned strings.
pub open spec fn string_views(v: Seq<String>) -> Seq<Seq<char>> {
    v.map_values(|s: String| s@)
}

/// `seen` with `n` appended unless already present.
pub open spec fn spec_add_name(seen: Seq<Seq<char>>, n: Seq<char>) -> Seq<Seq<char>> {
    if seen.contains(n) {
        seen
    } else {
        seen + seq![n]
    }
}

pub open spec fn spec_add_param(seen: Seq<Seq<char>>, p: SpecParameter) -> Seq<Seq<char>> {
    match p {
        SpecParameter::Named(n) => spec_add_name(seen, n),
        _ => seen,
    }
}

pub open spec fn spec_add_opt(seen: Seq<Seq<char>>, p: Option<SpecParameter>) -> Seq<Seq<char>> {
    match p {
        Some(q) => spec_add_param(seen, q),
        None => seen,
    }
}

/// The named parameters a placeholder list interpolates, first appearance
/// first, each once: the primary argument, then width, then precision of
/// each placeholder in order.
pub open spec fn spec_collect_named(
    pls: Seq<SpecPlaceholder>,
    i: int,
    seen: Seq<Seq<char>>,
) -> Seq<Seq<char>>
    decreases pls.len() - i
        when 0 <= i <= pls.len()
{
    if i >= pls.len() {
        seen
    } else {
        spec_collect_named(
            pls,
            i + 1,
            spec_add_opt(spec_add_opt(spec_add_param(seen, pls[i].arg), pls[i].width), pls[i].precision),
        )
    }
}

/// The interpolation pieces `name = name, ` of the collected names.
pub open spec fn spec_interp_pieces(names: Seq<Seq<char>>, i: int) -> Seq<char>
    decreases names.len() - i
        when 0 <= i <= names.len()
{
    if i >= names.len() {
        Seq::empty()
    } else {
        names[i] + " = "@ + names[i] + ", "@ + spec_interp_pieces(names, i + 1)
    }
}

/// The explicit argument pieces after the format literal: a bare identifier
/// or a string-literal expression, each followed by `, `; any other
/// argument shape is an error.
pub open spec fn spec_args_text(items: Seq<MetaItem>, i: int, proper: Seq<char>) -> TextResult
    decreases items.len() - i
        when 0 <= i <= items.len()
{
    if i >= items.len() {
        TextResult::Done(Seq::empty())
    } else {
        let piece: Option<Seq<char>> = match items[i] {
            MetaItem::LitStr(s) => Some(s@ + ", "@),
            MetaItem::Path(id) => Some(id@ + ", "@),
            _ => None,
        };
        match piece {
            None => TextResult::Fail(proper),
            Some(p) => match spec_args_text(items, i + 1, proper) {
                TextResult::Done(rest) => TextResult::Done(p + rest),
                TextResult::Fail(m) => TextResult::Fail(m),
            },
        }
    }
}

/// What reading one format attribute yields: the body text and whether the
/// enum-level one-placeholder wrapping applies, or a diagnostic.
pub ghost enum FmtResult {
    Done(Seq<char>, bool),
    Fail(Seq<char>),
}

/// The body of one `fmt = "...", args...` attribute.  On an enum-level
/// attribute (`outer_enum`), extra arguments are rejected, more than one
/// placeholder or one not reading the first positional argument is
/// rejected, and exactly one placeholder returns the bare literal for the
/// caller to wrap.  Otherwise the body is a formatting-macro call on the
/// literal, the explicit arguments, and one `name = name` binding for each
/// named parameter the placeholders use.
pub open spec fn spec_parse_meta_fmt(trait_attr: Seq<char>, meta: Attr, outer_enum: bool) -> FmtResult {
    let proper = spec_proper_fmt_syntax(trait_attr);
    if !meta.is_list {
        FmtResult::Fail(proper)
    } else {
        match meta.items@[0] {
            MetaItem::NameValueStr { name, value } => {
                if name@ != "fmt"@ {
                    FmtResult::Fail(proper)
                } else {
                    let pls = spec_placeholders(value@);
                    if outer_enum && meta.items@.len() > 1 {
                        FmtResult::Fail(msg_affix_usage())
                    } else if outer_enum && (pls.len() > 1 || (pls.len() == 1 && pls[0].arg
                        != SpecParameter::Positional(0))) {
                        FmtResult::Fail(msg_affix_usage())
                    } else if outer_enum && pls.len() == 1 {
                        FmtResult::Done(spec_quoted(value@), true)
                    } else {
                        match spec_args_text(meta.items@, 1, proper) {
                            TextResult::Fail(m) => FmtResult::Fail(m),
                            TextResult::Done(args) => FmtResult::Done(
                                "write!(_derive_more_display_formatter, "@ + spec_quoted(value@)
                                    + ", "@ + args + spec_interp_pieces(
                                    spec_collect_named(pls, 0, Seq::empty()),
                                    0,
                                ) + ")"@,
                                false,
                            ),
                        }
                    }
                }
            },
            _ => FmtResult::Fail(proper),
        }
    }
}

/// Appends `n` to the collected names unless already present.
fn add_name(names: &mut Vec<String>, n: &str)
    ensures
        string_views(final(names)@) == spec_add_name(string_views(old(names)@), n@),
{
    let m = names.len();
    let mut k: usize = 0;
    while k < m
        invariant
            k <= m,
            m == names@.len(),
            forall|j: int| 0 <= j < k ==> names@[j]@ != n@,
        decreases m - k,
    {
        if str_eq(names[k].as_str(), n) {
            assert(string_views(names@)[k as int] == n@);
            assert(string_views(names@).contains(n@));
            return ;
        }
        k += 1;
    }
    assert(forall|j: int| 0 <= j < names@.len() ==> string_views(names@)[j] != n@);
    assert(!string_views(names@).contains(n@));
    let ghost prev = string_views(names@);
    names.push(String::from_str(n));
    proof {
        assert(string_views(names@) =~= prev + seq![n@]);
    }
}

/// Reads one format attribute into its body text.
pub fn parse_meta_fmt(trait_attr: &str, meta: &Attr, outer_enum: bool) -> (r: Result<
    (String, bool),
    Error,
>)
    requires
        meta.is_list ==> meta.items@.len() >= 1,
    ensures
        match r {
            Ok(sb) => spec_parse_meta_fmt(trait_attr@, *meta, outer_enum) == FmtResult::Done(
                sb.0@,
                sb.1,
            ),
            Err(e) => spec_parse_meta_fmt(trait_attr@, *meta, outer_enum) == FmtResult::Fail(
                e.message@,
            ),
        },
{
    if !meta.is_list {
        return Err(Error { message: get_proper_fmt_syntax(trait_attr) });
    }
    let (value, is_fmt): (&String, bool) = match &meta.items[0] {
        MetaItem::NameValueStr { name, value } => (value, str_eq(name.as_str(), "fmt")),
        _ => {
            return Err(Error { message: get_proper_fmt_syntax(trait_attr) });
        },
    };
    if !is_fmt {
        return Err(Error { message: get_proper_fmt_syntax(trait_attr) });
    }
    let pls = Placeholder::parse_fmt_string(value.as_str());
    let ghost gpls = spec_placeholders(value@);
    if outer_enum {
        if meta.items.len() > 1 {
            let mut m = String::new();
            m.append(
                "outer `enum` `fmt` is an affix spec that expects no args and at most 1 placeholder for inner variant display",
            );
            proof {
                assert(m@ =~= msg_affix_usage());
            }
            return Err(Error { message: m });
        }
        let first_not_pos0: bool = if pls.len() == 1 {
            match &pls[0].arg {
                Parameter::Positional(n) => *n != 0,
                Parameter::Named(_) => true,
            }
        } else {
            false
        };
        proof {
            if pls@.len() == 1 {
                assert(gpls[0] == pls@[0]@);
            }
        }
        if pls.len() > 1 || first_not_pos0 {
            let mut m = String::new();
            m.append(
                "outer `enum` `fmt` is an affix spec that expects no args and at most 1 placeholder for inner variant display",
            );
            proof {
                assert(m@ =~= msg_affix_usage());
            }
            return Err(Error { message: m });
        }
        if pls.len() == 1 {
            let mut out = String::new();
            append_quoted(&mut out, value.as_str());
            proof {
                assert(out@ =~= spec_quoted(value@));
            }
            return Ok((out, true));
        }
    }
    // the explicit arguments after the format literal
    let proper = get_proper_fmt_syntax(trait_attr);
    let nit = meta.items.len();
    let mut args = String::new();
    let mut a: usize = 1;
    while a < nit
        invariant
            1 <= a <= nit,
            nit == meta.items@.len(),
            meta.is_list,
            meta.items@[0] is NameValueStr,
            meta.items@[0]->NameValueStr_name@ == "fmt"@,
            nit > 1 ==> !outer_enum,
            proper@ == spec_proper_fmt_syntax(trait_attr@),
            spec_args_text(meta.items@, 1, proper@) == (match spec_args_text(
                meta.items@,
                a as int,
                proper@,
            ) {
                TextResult::Done(rest) => TextResult::Done(args@ + rest),
                TextResult::Fail(m) => TextResult::Fail(m),
            }),
        decreases nit - a,
    {
        let ghost before = args@;
        let ghost mut piece: Seq<char> = Seq::empty();
        match &meta.items[a] {
            MetaItem::LitStr(s) => {
                args.append(s.as_str());
                args.append(", ");
                proof {
                    piece = s@ + ", "@;
                }
            },
            MetaItem::Path(id) => {
                args.append(id.as_str());
                args.append(", ");
                proof {
                    piece = id@ + ", "@;
                }
            },
            _ => {
                proof {
                    assert(spec_args_text(meta.items@, a as int, proper@) == TextResult::Fail(
                        proper@,
                    ));
                    assert(spec_args_text(meta.items@, 1, proper@) == TextResult::Fail(proper@));
                    assert(spec_parse_meta_fmt(trait_attr@, *meta, outer_enum) == FmtResult::Fail(
                        proper@,
                    ));
                }
                return Err(Error { message: proper });
            },
        }
        a += 1;
        proof {
            assert(args@ =~= before + piece);
            match spec_args_text(meta.items@, a as int, proper@) {
                TextResult::Done(rest1) => {
                    assert((before + piece) + rest1 =~= before + (piece + rest1));
                },
                TextResult::Fail(_) => {},
            }
        }
    }
    proof {
        assert(spec_args_text(meta.items@, nit as int, proper@) == TextResult::Done(
            Seq::<char>::empty(),
        ));
        assert(args@ + Seq::<char>::empty() =~= args@);
    }
    // the named parameters the placeholders use
    let mut names: Vec<String> = Vec::new();
    let np = pls.len();
    let mut k: usize = 0;
    proof {
        assert(string_views(names@) =~= Seq::<Seq<char>>::empty());
    }
    while k < np
        invariant
            k <= np,
            np == pls@.len(),
            views_of(pls@) == gpls,
            spec_collect_named(gpls, 0, Seq::empty()) == spec_collect_named(
                gpls,
                k as int,
                string_views(names@),
            ),
        decreases np - k,
    {
        proof {
            assert(pls@[k as int]@ == gpls[k as int]);
        }
        match &pls[k].arg {
            Parameter::Named(n) => {
                add_name(&mut names, n.as_str());
            },
            _ => {},
        }
        match &pls[k].width {
            Some(Parameter::Named(n)) => {
                add_name(&mut names, n.as_str());
            },
            _ => {},
        }
        match &pls[k].precision {
            Some(Parameter::Named(n)) => {
                add_name(&mut names, n.as_str());
            },
            _ => {},
        }
        k += 1;
    }
    let ghost gnames = spec_collect_named(gpls, 0, Seq::empty());
    proof {
        assert(gnames == string_views(names@));
    }
    let mut interp = String::new();
    let nn = names.len();
    let mut j: usize = 0;
    let ghost interp_whole = spec_interp_pieces(gnames, 0);
    while j < nn
        invariant
            j <= nn,
            nn == names@.len(),
            gnames == string_views(names@),
            interp_whole == spec_interp_pieces(gnames, 0),
            interp_whole =~= interp@ + spec_interp_pieces(gnames, j as int),
        decreases nn - j,
    {
        proof {
            assert(gnames[j as int] == names@[j as int]@);
        }
        interp.append(names[j].as_str());
        interp.append(" = ");
        interp.append(names[j].as_str());
        interp.append(", ");
        j += 1;
    }
    proof {
        assert(spec_interp_pieces(gnames, nn as int) =~= Seq::<char>::empty());
        assert(interp@ =~= interp_whole);
    }
    let mut out = String::new();
    out.append("write!(_derive_more_display_formatter, ");
    append_quoted(&mut out, value.as_str());
    out.append(", ");
    out.append(args.as_str());
    out.append(interp.as_str());
    out.append(")");
    proof {
        assert(out@ =~= "write!(_derive_more_display_formatter, "@ + spec_quoted(value@) + ", "@
            + args@ + interp@ + ")"@);
    }
    Ok((out, false))
}

// ---------------------------------------------------------------------------
// The deferred-rendering helper
// ---------------------------------------------------------------------------
/// The helper type emitted when an enum-level format string holds one
/// placeholder: formatting the helper runs the closure it carries, so the
/// outer literal's one substitution renders the active variant's own body.
pub open spec fn spec_helper_struct() -> Seq<char> {
    "struct _derive_more_DisplayAs<F>(F) where F: ::core::ops::Fn(&mut ::core::fmt::Formatter) -> ::core::fmt::Result; const _derive_more_DisplayAs_impl: () = { impl<F> ::core::fmt::Display for _derive_more_DisplayAs<F> where F: ::core::ops::Fn(&mut ::core::fmt::Formatter) -> ::core::fmt::Result { fn fmt(&self, f: &mut ::core::fmt::Formatter) -> ::core::fmt::Result { (self.0)(f) } } }; "@
}

/// Emits the deferred-rendering helper type.
pub fn display_as_helper_struct() -> (r: String)
    ensures
        r@ == spec_helper_struct(),
{
    let mut out = String::new();
    out.append(
        "struct _derive_more_DisplayAs<F>(F) where F: ::core::ops::Fn(&mut ::core::fmt::Formatter) -> ::core::fmt::Result; const _derive_more_DisplayAs_impl: () = { impl<F> ::core::fmt::Display for _derive_more_DisplayAs<F> where F: ::core::ops::Fn(&mut ::core::fmt::Formatter) -> ::core::fmt::Result { fn fmt(&self, f: &mut ::core::fmt::Formatter) -> ::core::fmt::Result { (self.0)(f) } } }; ",
    );
    proof {
        assert(out@ =~= spec_helper_struct());
    }
    out
}

// ---------------------------------------------------------------------------
// The shape selector
// ---------------------------------------------------------------------------
/// The match arms, the bound requirements, and whether the deferred helper
/// is needed; or a diagnostic.
pub ghost enum ArmsResult {
    Done(Seq<char>, Seq<GEntry>, bool),
    Fail(Seq<char>),
}

/// The diagnostic a failed attribute search carries.
pub open spec fn spec_find_fail_msg(attrs: Seq<Attr>, trait_attr: Seq<char>, key: Seq<char>) -> Seq<char> {
    match spec_find_meta(attrs, trait_attr, key) {
        SpecFind::BadShape(i) => msg_bad_attr_shape(trait_attr, key),
        SpecFind::UnknownArg(i) => msg_unknown_argument(attrs[i].items@[0]->NameValueStr_name@),
        SpecFind::TooMany => msg_too_many_attributes(),
        _ => Seq::empty(),
    }
}

/// The body of one shape: the explicit format attribute when present, the
/// inferred single-field delegation otherwise.
pub open spec fn spec_shape_body(
    trait_attr: Seq<char>,
    trait_path: Seq<char>,
    attrs: Seq<Attr>,
    fields: FieldList,
    name: Seq<char>,
) -> TextResult {
    match spec_find_meta(attrs, trait_attr, "fmt"@) {
        SpecFind::Found(i) => match spec_parse_meta_fmt(trait_attr, attrs[i], false) {
            FmtResult::Done(s, h) => TextResult::Done(s),
            FmtResult::Fail(m) => TextResult::Fail(m),
        },
        SpecFind::Absent => spec_infer_fmt(trait_path, fields, name),
        _ => TextResult::Fail(spec_find_fail_msg(attrs, trait_attr, "fmt"@)),
    }
}

/// The bounds one shape requires: from the explicit format attribute when
/// present, from the first field otherwise.
pub open spec fn spec_shape_bounds(
    type_params: Seq<String>,
    trait_attr: Seq<char>,
    attrs: Seq<Attr>,
    fields: FieldList,
) -> Seq<GEntry> {
    match spec_find_meta(attrs, trait_attr, "fmt"@) {
        SpecFind::Found(i) => spec_used_bounds(type_params, fields, attrs[i]),
        _ => spec_infer_bounds(type_params, fields, trait_attr),
    }
}

/// One match arm of a variant.
pub open spec fn spec_variant_arm(v: Variant, body: Seq<char>) -> Seq<char> {
    "Self::"@ + v.ident@ + spec_matcher(v.fields) + " => "@ + body + ", "@
}

/// The arms and accumulated bounds of an enum without an item-level format
/// attribute: each variant resolves its own explicit-or-inferred body, and
/// bounds are the union over all variants.
pub open spec fn spec_plain_arms(
    type_params: Seq<String>,
    trait_attr: Seq<char>,
    trait_path: Seq<char>,
    vs: Seq<Variant>,
    i: int,
    arms: Seq<char>,
    bounds: Seq<GEntry>,
) -> ArmsResult
    decreases vs.len() - i
        when 0 <= i <= vs.len()
{
    if i >= vs.len() {
        ArmsResult::Done(arms, bounds, false)
    } else {
        let v = vs[i];
        match spec_shape_body(trait_attr, trait_path, v.attrs@, v.fields, v.ident@) {
            TextResult::Fail(m) => ArmsResult::Fail(m),
            TextResult::Done(body) => spec_plain_arms(
                type_params,
                trait_attr,
                trait_path,
                vs,
                i + 1,
                arms + spec_variant_arm(v, body),
                spec_merge(bounds, spec_shape_bounds(type_params, trait_attr, v.attrs@, v.fields)),
            ),
        }
    }
}

/// One match arm of a variant under a one-placeholder enum-level format
/// string: the outer literal is rendered with the deferred helper carrying
/// the variant's own body.
pub open spec fn spec_affix_arm(v: Variant, outer: Seq<char>, body: Seq<char>) -> Seq<char> {
    "Self::"@ + v.ident@ + spec_matcher(v.fields)
        + " => write!(_derive_more_display_formatter, "@ + outer
        + ", _derive_more_DisplayAs(|_derive_more_display_formatter| "@ + body + ")), "@
}

/// The arms of an enum whose item-level format string has one placeholder.
pub open spec fn spec_affix_arms(
    trait_attr: Seq<char>,
    trait_path: Seq<char>,
    outer: Seq<char>,
    vs: Seq<Variant>,
    i: int,
    arms: Seq<char>,
) -> ArmsResult
    decreases vs.len() - i
        when 0 <= i <= vs.len()
{
    if i >= vs.len() {
        ArmsResult::Done(arms, Seq::empty(), true)
    } else {
        let v = vs[i];
        match spec_shape_body(trait_attr, trait_path, v.attrs@, v.fields, v.ident@) {
            TextResult::Fail(m) => ArmsResult::Fail(m),
            TextResult::Done(body) => spec_affix_arms(
                trait_attr,
                trait_path,
                outer,
                vs,
                i + 1,
                arms + spec_affix_arm(v, outer, body),
            ),
        }
    }
}

/// The diagnostic when some variant of an enum whose item-level format
/// string has no placeholder carries its own format attribute.
pub open spec fn spec_check_variants_no_fmt(
    vs: Seq<Variant>,
    i: int,
    trait_attr: Seq<char>,
) -> Option<Seq<char>>
    decreases vs.len() - i
        when 0 <= i <= vs.len()
{
    if i >= vs.len() {
        None
    } else {
        match spec_find_meta(vs[i].attrs@, trait_attr, "fmt"@) {
            SpecFind::Absent => spec_check_variants_no_fmt(vs, i + 1, trait_attr),
            SpecFind::Found(k) => Some(msg_variant_fmt_redundant()),
            _ => Some(spec_find_fail_msg(vs[i].attrs@, trait_attr, "fmt"@)),
        }
    }
}

/// The arms and bounds of one declaration, before the explicit bound
/// attribute is layered on.
pub open spec fn spec_get_match_arms(input: Input, trait_attr: Seq<char>, trait_path: Seq<char>) -> ArmsResult {
    match input.data {
        Data::Enum(vs) => match spec_find_meta(input.attrs@, trait_attr, "fmt"@) {
            SpecFind::Absent => spec_plain_arms(
                input.type_params@,
                trait_attr,
                trait_path,
                vs@,
                0,
                Seq::empty(),
                Seq::empty(),
            ),
            SpecFind::Found(i) => match spec_parse_meta_fmt(trait_attr, input.attrs@[i], true) {
                FmtResult::Fail(m) => ArmsResult::Fail(m),
                FmtResult::Done(fmt, h) => if h {
                    spec_affix_arms(trait_attr, trait_path, fmt, vs@, 0, Seq::empty())
                } else {
                    match spec_check_variants_no_fmt(vs@, 0, trait_attr) {
                        Some(m) => ArmsResult::Fail(m),
                        None => ArmsResult::Done(
                            "_ => "@ + fmt + ", "@,
                            Seq::empty(),
                            false,
                        ),
                    }
                },
            },
            _ => ArmsResult::Fail(spec_find_fail_msg(input.attrs@, trait_attr, "fmt"@)),
        },
        Data::Struct(fields) => match spec_find_meta(input.attrs@, trait_attr, "fmt"@) {
            SpecFind::Found(i) => match spec_parse_meta_fmt(trait_attr, input.attrs@[i], false) {
                FmtResult::Fail(m) => ArmsResult::Fail(m),
                FmtResult::Done(body, h) => ArmsResult::Done(
                    input.ident@ + spec_matcher(fields) + " => "@ + body + ", "@,
                    spec_used_bounds(input.type_params@, fields, input.attrs@[i]),
                    false,
                ),
            },
            SpecFind::Absent => match spec_infer_fmt(trait_path, fields, input.ident@) {
                TextResult::Fail(m) => ArmsResult::Fail(m),
                TextResult::Done(body) => ArmsResult::Done(
                    input.ident@ + spec_matcher(fields) + " => "@ + body + ", "@,
                    spec_infer_bounds(input.type_params@, fields, trait_attr),
                    false,
                ),
            },
            _ => ArmsResult::Fail(spec_find_fail_msg(input.attrs@, trait_attr, "fmt"@)),
        },
        Data::Union(fields) => match spec_find_meta(input.attrs@, trait_attr, "fmt"@) {
            SpecFind::Absent => ArmsResult::Fail(msg_cannot_infer_union()),
            SpecFind::Found(i) => match spec_parse_meta_fmt(trait_attr, input.attrs@[i], false) {
                FmtResult::Fail(m) => ArmsResult::Fail(m),
                FmtResult::Done(body, h) => ArmsResult::Done(
                    "_ => "@ + body + ", "@,
                    Seq::empty(),
                    false,
                ),
            },
            _ => ArmsResult::Fail(spec_find_fail_msg(input.attrs@, trait_attr, "fmt"@)),
        },
    }
}

/// The arms and bounds of one declaration, the explicit bound attribute
/// merged in.
pub open spec fn spec_arms_with_extra_bounds(input: Input, trait_attr: Seq<char>, trait_path: Seq<char>) -> ArmsResult {
    match spec_get_match_arms(input, trait_attr, trait_path) {
        ArmsResult::Fail(m) => ArmsResult::Fail(m),
        ArmsResult::Done(arms, bounds, helper) => match spec_find_meta(
            input.attrs@,
            trait_attr,
            "bound"@,
        ) {
            SpecFind::Absent => ArmsResult::Done(arms, bounds, helper),
            SpecFind::Found(i) => {
                let meta = input.attrs@[i];
                if meta.items@.len() != 1 {
                    ArmsResult::Fail(spec_proper_bound_syntax(trait_attr))
                } else {
                    match spec_parse_bounds(
                        input.type_params@,
                        meta.items@[0]->NameValueStr_value@,
                        spec_proper_bound_syntax(trait_attr),
                    ) {
                        BoundsResult::Fail(m) => ArmsResult::Fail(m),
                        BoundsResult::Done(extra) => ArmsResult::Done(
                            arms,
                            spec_merge(bounds, extra),
                            helper,
                        ),
                    }
                }
            },
            _ => ArmsResult::Fail(spec_find_fail_msg(input.attrs@, trait_attr, "bound"@)),
        },
    }
}

/// The arms, bounds and helper flag of one expansion.
pub struct ParseResult {
    /// The match arms destructuring `self`.
    pub arms: String,
    /// The trait bounds the generated `where` clause needs.
    pub bounds: Bounds,
    /// Whether the deferred-rendering helper must be emitted.
    pub requires_helper: bool,
}

/// Selects the emission shape of one declaration and builds its match arms
/// and bound requirements.
#[verifier::loop_isolation(false)]
#[verifier::rlimit(100)]
pub fn get_match_arms_and_extra_bounds(input: &Input, trait_attr: &str, trait_path: &str) -> (r:
    Result<ParseResult, Error>)
    requires
        wf_input(*input),
        is_attr_name(trait_attr@),
    ensures
        match r {
            Ok(pr) => spec_arms_with_extra_bounds(*input, trait_attr@, trait_path@)
                == ArmsResult::Done(pr.arms@, pr.bounds@, pr.requires_helper),
            Err(e) => spec_arms_with_extra_bounds(*input, trait_attr@, trait_path@)
                == ArmsResult::Fail(e.message@),
        },
{
    let pr: ParseResult = match &input.data {
        Data::Enum(vs) => {
            let found = match find_meta(&input.attrs, trait_attr, "fmt") {
                Ok(o) => o,
                Err(e) => {
                    return Err(e);
                },
            };
            proof {
                crate::attrs::lemma_find_meta_found(input.attrs@, trait_attr@, "fmt"@);
            }
            match found {
                Some(idx) => {
                    let (fmt, one_placeholder) = match parse_meta_fmt(
                        trait_attr,
                        &input.attrs[idx],
                        true,
                    ) {
                        Ok(p) => p,
                        Err(e) => {
                            return Err(e);
                        },
                    };
                    if one_placeholder {
                        // one placeholder: wrap each variant's own body
                        let mut arms = String::new();
                        let nv = vs.len();
                        let mut i: usize = 0;
                        while i < nv
                            invariant
                                i <= nv,
                                spec_affix_arms(
                                    trait_attr@,
                                    trait_path@,
                                    fmt@,
                                    vs@,
                                    0,
                                    Seq::empty(),
                                ) == spec_affix_arms(
                                    trait_attr@,
                                    trait_path@,
                                    fmt@,
                                    vs@,
                                    i as int,
                                    arms@,
                                ),
                            decreases nv - i,
                        {
                            let body = match variant_body(&vs[i], trait_attr, trait_path) {
                                Ok(b) => b,
                                Err(e) => {
                                    return Err(e);
                                },
                            };
                            let ghost before = arms@;
                            arms.append("Self::");
                            arms.append(vs[i].ident.as_str());
                            let m = get_matcher(&vs[i].fields);
                            arms.append(m.as_str());
                            arms.append(" => write!(_derive_more_display_formatter, ");
                            arms.append(fmt.as_str());
                            arms.append(", _derive_more_DisplayAs(|_derive_more_display_formatter| ");
                            arms.append(body.as_str());
                            arms.append(")), ");
                            proof {
                                assert(arms@ =~= before + spec_affix_arm(
                                    vs@[i as int],
                                    fmt@,
                                    body@,
                                ));
                            }
                            i += 1;
                        }
                        ParseResult { arms, bounds: Bounds::new(), requires_helper: true }
                    } else {
                        // no placeholder: every variant collapses to one arm
                        let nv = vs.len();
                        let mut i: usize = 0;
                        while i < nv
                            invariant
                                i <= nv,
                                spec_check_variants_no_fmt(vs@, 0, trait_attr@)
                                    == spec_check_variants_no_fmt(vs@, i as int, trait_attr@),
                            decreases nv - i,
                        {
                            match find_meta(&vs[i].attrs, trait_attr, "fmt") {
                                Err(e) => {
                                    return Err(e);
                                },
                                Ok(Some(k)) => {
                                    let mut msg = String::new();
                                    msg.append(
                                        "`fmt` cannot be used on variant when the whole enum has a format string without a placeholder, maybe you want to add a placeholder?",
                                    );
                                    proof {
                                        assert(msg@ =~= msg_variant_fmt_redundant());
                                    }
                                    return Err(Error { message: msg });
                                },
                                Ok(None) => {},
                            }
                            i += 1;
                        }
                        let mut arms = String::new();
                        arms.append("_ => ");
                        arms.append(fmt.as_str());
                        arms.append(", ");
                        proof {
                            assert(arms@ =~= "_ => "@ + fmt@ + ", "@);
                        }
                        ParseResult { arms, bounds: Bounds::new(), requires_helper: false }
                    }
                },
                None => {
                    // no item-level format attribute: per-variant bodies
                    let mut arms = String::new();
                    let mut bounds = Bounds::new();
                    let nv = vs.len();
                    let mut i: usize = 0;
                    while i < nv
                        invariant
                            i <= nv,
                            spec_plain_arms(
                                input.type_params@,
                                trait_attr@,
                                trait_path@,
                                vs@,
                                0,
                                Seq::empty(),
                                Seq::empty(),
                            ) == spec_plain_arms(
                                input.type_params@,
                                trait_attr@,
                                trait_path@,
                                vs@,
                                i as int,
                                arms@,
                                bounds@,
                            ),
                        decreases nv - i,
                    {
                        let body = match variant_body(&vs[i], trait_attr, trait_path) {
                            Ok(b) => b,
                            Err(e) => {
                                return Err(e);
                            },
                        };
                        let these = variant_bounds(
                            &input.type_params,
                            &vs[i],
                            trait_attr,
                        );
                        let ghost before = arms@;
                        arms.append("Self::");
                        arms.append(vs[i].ident.as_str());
                        let m = get_matcher(&vs[i].fields);
                        arms.append(m.as_str());
                        arms.append(" => ");
                        arms.append(body.as_str());
                        arms.append(", ");
                        bounds.merge(&these);
                        proof {
                            assert(arms@ =~= before + spec_variant_arm(vs@[i as int], body@));
                        }
                        i += 1;
                    }
                    ParseResult { arms, bounds, requires_helper: false }
                },
            }
        },
        Data::Struct(fields) => {
            let found = match find_meta(&input.attrs, trait_attr, "fmt") {
                Ok(o) => o,
                Err(e) => {
                    return Err(e);
                },
            };
            proof {
                crate::attrs::lemma_find_meta_found(input.attrs@, trait_attr@, "fmt"@);
            }
            let (body, bounds): (String, Bounds) = match found {
                Some(idx) => {
                    let body = match parse_meta_fmt(trait_attr, &input.attrs[idx], false) {
                        Ok(p) => p.0,
                        Err(e) => {
                            return Err(e);
                        },
                    };
                    let bounds = get_used_type_params_bounds(
                        &input.type_params,
                        fields,
                        &input.attrs[idx],
                    );
                    (body, bounds)
                },
                None => {
                    let body = match infer_fmt(trait_path, fields, input.ident.as_str()) {
                        Ok(b) => b,
                        Err(e) => {
                            return Err(e);
                        },
                    };
                    let bounds = infer_type_params_bounds(&input.type_params, fields, trait_attr);
                    (body, bounds)
                },
            };
            let mut arms = String::new();
            arms.append(input.ident.as_str());
            let m = get_matcher(fields);
            arms.append(m.as_str());
            arms.append(" => ");
            arms.append(body.as_str());
            arms.append(", ");
            proof {
                assert(arms@ =~= input.ident@ + spec_matcher(*fields) + " => "@ + body@ + ", "@);
            }
            ParseResult { arms, bounds, requires_helper: false }
        },
        Data::Union(fields) => {
            let found = match find_meta(&input.attrs, trait_attr, "fmt") {
                Ok(o) => o,
                Err(e) => {
                    return Err(e);
                },
            };
            proof {
                crate::attrs::lemma_find_meta_found(input.attrs@, trait_attr@, "fmt"@);
            }
            match found {
                None => {
                    let mut msg = String::new();
                    msg.append("Cannot automatically infer format for unions");
                    proof {
                        assert(msg@ =~= msg_cannot_infer_union());
                    }
                    return Err(Error { message: msg });
                },
                Some(idx) => {
                    let body = match parse_meta_fmt(trait_attr, &input.attrs[idx], false) {
                        Ok(p) => p.0,
                        Err(e) => {
                            return Err(e);
                        },
                    };
                    let mut arms = String::new();
                    arms.append("_ => ");
                    arms.append(body.as_str());
                    arms.append(", ");
                    proof {
                        assert(arms@ =~= "_ => "@ + body@ + ", "@);
                    }
                    ParseResult { arms, bounds: Bounds::new(), requires_helper: false }
                },
            }
        },
    };
    // the explicit bound attribute, layered on top
    let found = match find_meta(&input.attrs, trait_attr, "bound") {
        Ok(o) => o,
        Err(e) => {
            return Err(e);
        },
    };
    proof {
        crate::attrs::lemma_find_meta_found(input.attrs@, trait_attr@, "bound"@);
    }
    match found {
        None => Ok(pr),
        Some(idx) => {
            if input.attrs[idx].items.len() != 1 {
                return Err(Error { message: build_proper_bound_syntax(trait_attr) });
            }
            let lit: &String = match &input.attrs[idx].items[0] {
                MetaItem::NameValueStr { name, value } => value,
                _ => {
                    // a found occurrence starts with a name-value pair
                    proof {
                        assert(false);
                    }
                    return Err(Error { message: build_proper_bound_syntax(trait_attr) });
                },
            };
            let extra = match parse_meta_bounds(&input.type_params, trait_attr, lit.as_str()) {
                Ok(b) => b,
                Err(e) => {
                    return Err(e);
                },
            };
            let mut pr2 = pr;
            pr2.bounds.merge(&extra);
            Ok(pr2)
        },
    }
}

/// The explicit-or-inferred body of one variant.
fn variant_body(v: &Variant, trait_attr: &str, trait_path: &str) -> (r: Result<String, Error>)
    requires
        wf_fields(v.fields),
    ensures
        match r {
            Ok(s) => spec_shape_body(trait_attr@, trait_path@, v.attrs@, v.fields, v.ident@)
                == TextResult::Done(s@),
            Err(e) => spec_shape_body(trait_attr@, trait_path@, v.attrs@, v.fields, v.ident@)
                == TextResult::Fail(e.message@),
        },
{
    proof {
        crate::attrs::lemma_find_meta_found(v.attrs@, trait_attr@, "fmt"@);
    }
    match find_meta(&v.attrs, trait_attr, "fmt") {
        Err(e) => Err(e),
        Ok(Some(idx)) => match parse_meta_fmt(trait_attr, &v.attrs[idx], false) {
            Ok(p) => Ok(p.0),
            Err(e) => Err(e),
        },
        Ok(None) => infer_fmt(trait_path, &v.fields, v.ident.as_str()),
    }
}

/// The bounds one variant requires.
fn variant_bounds(type_params: &Vec<String>, v: &Variant, trait_attr: &str) -> (r: Bounds)
    requires
        is_attr_name(trait_attr@),
    ensures
        r@ == spec_shape_bounds(type_params@, trait_attr@, v.attrs@, v.fields),
{
    proof {
        crate::attrs::lemma_find_meta_found(v.attrs@, trait_attr@, "fmt"@);
    }
    match find_meta(&v.attrs, trait_attr, "fmt") {
        Ok(Some(idx)) => get_used_type_params_bounds(type_params, &v.fields, &v.attrs[idx]),
        _ => infer_type_params_bounds(type_params, &v.fields, trait_attr),
    }
}

// ---------------------------------------------------------------------------
// Whole-implementation emission
// ---------------------------------------------------------------------------
/// The trait name with every trailing `Custom` suffix removed.
pub open spec fn spec_trim_custom(s: Seq<char>) -> Seq<char>
    decreases s.len(),
{
    if s.len() >= 6 && s.subrange(s.len() - 6, s.len() as int) == "Custom"@ {
        spec_trim_custom(s.subrange(0, s.len() - 6))
    } else {
        s
    }
}

/// The type parameter list `, `-joined from `i` on.
pub open spec fn spec_params_join(params: Seq<String>, i: int) -> Seq<char>
    decreases params.len() - i
        when 0 <= i <= params.len()
{
    if i >= params.len() {
        Seq::empty()
    } else if i + 1 == params.len() {
        params[i]@
    } else {
        params[i]@ + ", "@ + spec_params_join(params, i + 1)
    }
}

/// The generic argument text `<T, U>`, empty without parameters.
pub open spec fn spec_generics_text(params: Seq<String>) -> Seq<char> {
    if params.len() == 0 {
        Seq::empty()
    } else {
        "<"@ + spec_params_join(params, 0) + ">"@
    }
}

/// One entry's bounds ` + `-joined from `k` on.
pub open spec fn spec_bounds_join(bs: Seq<Seq<char>>, k: int) -> Seq<char>
    decreases bs.len() - k
        when 0 <= k <= bs.len()
{
    if k >= bs.len() {
        Seq::empty()
    } else if k + 1 == bs.len() {
        bs[k]
    } else {
        bs[k] + " + "@ + spec_bounds_join(bs, k + 1)
    }
}

/// The where-clause entries `, `-joined from `i` on.
pub open spec fn spec_entries_join(bounds: Seq<GEntry>, i: int) -> Seq<char>
    decreases bounds.len() - i
        when 0 <= i <= bounds.len()
{
    if i >= bounds.len() {
        Seq::empty()
    } else if i + 1 == bounds.len() {
        bounds[i].param + ": "@ + spec_bounds_join(bounds[i].bounds, 0)
    } else {
        bounds[i].param + ": "@ + spec_bounds_join(bounds[i].bounds, 0) + ", "@
            + spec_entries_join(bounds, i + 1)
    }
}

/// The where-clause text, empty without bound requirements.  Entries come
/// in insertion order, so emission is deterministic.
pub open spec fn spec_where_text(bounds: Seq<GEntry>) -> Seq<char> {
    if bounds.len() == 0 {
        Seq::empty()
    } else {
        " where "@ + spec_entries_join(bounds, 0)
    }
}

/// The whole generated implementation text.
pub open spec fn spec_impl_text(
    input: Input,
    trait_name: Seq<char>,
    arms: Seq<char>,
    bounds: Seq<GEntry>,
    helper: bool,
) -> Seq<char> {
    "#[automatically_derived] impl"@ + spec_generics_text(input.type_params@) + " ::core::fmt::"@
        + trait_name + " for "@ + input.ident@ + spec_generics_text(input.type_params@)
        + spec_where_text(bounds)
        + " { #[inline] fn fmt(&self, _derive_more_display_formatter: &mut ::core::fmt::Formatter) -> ::core::fmt::Result { "@
        + (if helper {
        spec_helper_struct()
    } else {
        Seq::empty()
    }) + "match *self { "@ + arms + "} } }"@
}

/// What expanding one declaration yields: the implementation text of the
/// requested trait, or the first diagnostic.
pub open spec fn spec_expand(input: Input, trait_name: Seq<char>) -> TextResult {
    let trimmed = spec_trim_custom(trait_name);
    let trait_attr = spec_attr_of_trait(trimmed);
    let trait_path = spec_trait_bound(trimmed);
    match spec_arms_with_extra_bounds(input, trait_attr, trait_path) {
        ArmsResult::Fail(m) => TextResult::Fail(m),
        ArmsResult::Done(arms, bounds, helper) => TextResult::Done(
            spec_impl_text(input, trimmed, arms, bounds, helper),
        ),
    }
}

/// Removes every trailing `Custom` suffix of the trait name.
fn trim_custom<'a>(s: &'a str) -> (r: &'a str)
    ensures
        r@ == spec_trim_custom(s@),
    decreases s@.len(),
{
    let len = s.unicode_len();
    if len >= 6 {
        let tail = s.substring_char(len - 6, len);
        if str_eq(tail, "Custom") {
            let head = s.substring_char(0, len - 6);
            return trim_custom(head);
        }
    }
    s
}

/// Emits `<T, U>`, or nothing without type parameters.
pub(crate) fn generics_text(params: &Vec<String>) -> (r: String)
    ensures
        r@ == spec_generics_text(params@),
{
    let mut out = String::new();
    let n = params.len();
    if n == 0 {
        proof {
            assert(out@ =~= spec_generics_text(params@));
        }
        return out;
    }
    out.append("<");
    let mut i: usize = 0;
    let ghost whole = "<"@ + spec_params_join(params@, 0);
    while i < n
        invariant
            i <= n,
            n == params@.len(),
            n > 0,
            whole == "<"@ + spec_params_join(params@, 0),
            i < n ==> whole =~= out@ + spec_params_join(params@, i as int),
            i == n ==> whole =~= out@,
        decreases n - i,
    {
        out.append(params[i].as_str());
        if i + 1 < n {
            out.append(", ");
        }
        i += 1;
    }
    out.append(">");
    proof {
        assert(out@ =~= spec_generics_text(params@));
    }
    out
}

/// Emits the where clause of the collected bound requirements.
#[verifier::loop_isolation(false)]
fn where_text(bounds: &Bounds) -> (r: String)
    ensures
        r@ == spec_where_text(bounds@),
{
    let mut out = String::new();
    let n = bounds.entries.len();
    if n == 0 {
        proof {
            assert(out@ =~= spec_where_text(bounds@));
        }
        return out;
    }
    out.append(" where ");
    let mut i: usize = 0;
    let ghost whole = " where "@ + spec_entries_join(bounds@, 0);
    while i < n
        invariant
            i <= n,
            i < n ==> whole =~= out@ + spec_entries_join(bounds@, i as int),
            i == n ==> whole =~= out@,
        decreases n - i,
    {
        proof {
            assert(bounds@[i as int] == bounds.entries@[i as int]@);
        }
        out.append(bounds.entries[i].param.as_str());
        out.append(": ");
        let bs = &bounds.entries[i].bounds;
        let m = bs.len();
        let mut k: usize = 0;
        let ghost ewhole = out@ + spec_bounds_join(bounds@[i as int].bounds, 0);
        while k < m
            invariant
                k <= m,
                m == bs@.len(),
                m == bounds@[i as int].bounds.len(),
                m > 0 ==> (k < m ==> ewhole =~= out@ + spec_bounds_join(
                    bounds@[i as int].bounds,
                    k as int,
                )),
                m > 0 ==> (k == m ==> ewhole =~= out@),
                m == 0 ==> ewhole =~= out@ + spec_bounds_join(bounds@[i as int].bounds, 0),
            decreases m - k,
        {
            proof {
                assert(bounds@[i as int].bounds[k as int] == bs@[k as int]@);
            }
            out.append(bs[k].as_str());
            if k + 1 < m {
                out.append(" + ");
            }
            k += 1;
        }
        proof {
            if m == 0 {
                assert(spec_bounds_join(bounds@[i as int].bounds, 0) =~= Seq::<char>::empty());
                assert(out@ =~= ewhole);
            }
        }
        if i + 1 < n {
            out.append(", ");
        }
        i += 1;
    }
    proof {
        assert(out@ =~= spec_where_text(bounds@));
    }
    out
}

/// Expands one declaration into the implementation text of the requested
/// formatting trait: the shape's match arms inside a `fmt` method, under
/// the inferred and explicit trait bounds.  The text is a function of the
/// declaration and trait name alone.
pub fn expand(input: &Input, trait_name: &str) -> (r: Result<String, Error>)
    requires
        wf_input(*input),
        is_trait_name(spec_trim_custom(trait_name@)),
    ensures
        match r {
            Ok(s) => spec_expand(*input, trait_name@) == TextResult::Done(s@),
            Err(e) => spec_expand(*input, trait_name@) == TextResult::Fail(e.message@),
        },
{
    let trimmed = trim_custom(trait_name);
    let trait_attr = trait_name_to_attribute_name(trimmed);
    let mut trait_path = String::new();
    trait_path.append("::core::fmt::");
    trait_path.append(trimmed);
    proof {
        assert(trait_path@ =~= spec_trait_bound(spec_trim_custom(trait_name@)));
        crate::names::lemma_attr_of_trait_is_attr_name(spec_trim_custom(trait_name@));
    }
    let pr = match get_match_arms_and_extra_bounds(input, trait_attr, trait_path.as_str()) {
        Ok(pr) => pr,
        Err(e) => {
            return Err(e);
        },
    };
    let generics = generics_text(&input.type_params);
    let wh = where_text(&pr.bounds);
    let mut out = String::new();
    out.append("#[automatically_derived] impl");
    out.append(generics.as_str());
    out.append(" ::core::fmt::");
    out.append(trimmed);
    out.append(" for ");
    out.append(input.ident.as_str());
    out.append(generics.as_str());
    out.append(wh.as_str());
    out.append(
        " { #[inline] fn fmt(&self, _derive_more_display_formatter: &mut ::core::fmt::Formatter) -> ::core::fmt::Result { ",
    );
    if pr.requires_helper {
        let helper = display_as_helper_struct();
        out.append(helper.as_str());
    }
    out.append("match *self { ");
    out.append(pr.arms.as_str());
    out.append("} } }");
    proof {
        assert(out@ =~= spec_impl_text(
            *input,
            spec_trim_custom(trait_name@),
            pr.arms@,
            pr.bounds@,
            pr.requires_helper,
        ));
    }
    Ok(out)
}

// ---------------------------------------------------------------------------
// Laws of the shape selector
// ---------------------------------------------------------------------------
/// The arm texts of the variants from `i` on, each from its own
/// explicit-or-inferred body, assuming every body resolves.
pub open spec fn spec_plain_arms_text(
    trait_attr: Seq<char>,
    trait_path: Seq<char>,
    vs: Seq<Variant>,
    i: int,
) -> Seq<char>
    decreases vs.len() - i
        when 0 <= i <= vs.len()
{
    if i >= vs.len() {
        Seq::empty()
    } else {
        let v = vs[i];
        (match spec_shape_body(trait_attr, trait_path, v.attrs@, v.fields, v.ident@) {
            TextResult::Done(body) => spec_variant_arm(v, body),
            TextResult::Fail(m) => Seq::empty(),
        }) + spec_plain_arms_text(trait_attr, trait_path, vs, i + 1)
    }
}

proof fn lemma_plain_arms_from(
    type_params: Seq<String>,
    trait_attr: Seq<char>,
    trait_path: Seq<char>,
    vs: Seq<Variant>,
    i: int,
    arms: Seq<char>,
    bounds: Seq<GEntry>,
)
    requires
        0 <= i <= vs.len(),
        spec_plain_arms(type_params, trait_attr, trait_path, vs, i, arms, bounds) is Done,
    ensures
        spec_plain_arms(type_params, trait_attr, trait_path, vs, i, arms, bounds)->Done_0 == arms
            + spec_plain_arms_text(trait_attr, trait_path, vs, i),
        forall|k: int|
            i <= k < vs.len() ==> spec_shape_body(
                trait_attr,
                trait_path,
                vs[k].attrs@,
                vs[k].fields,
                vs[k].ident@,
            ) is Done,
    decreases vs.len() - i,
{
    if i < vs.len() {
        let v = vs[i];
        match spec_shape_body(trait_attr, trait_path, v.attrs@, v.fields, v.ident@) {
            TextResult::Done(body) => {
                lemma_plain_arms_from(
                    type_params,
                    trait_attr,
                    trait_path,
                    vs,
                    i + 1,
                    arms + spec_variant_arm(v, body),
                    spec_merge(bounds, spec_shape_bounds(type_params, trait_attr, v.attrs@, v.fields)),
                );
                assert((arms + spec_variant_arm(v, body)) + spec_plain_arms_text(
                    trait_attr,
                    trait_path,
                    vs,
                    i + 1,
                ) =~= arms + (spec_variant_arm(v, body) + spec_plain_arms_text(
                    trait_attr,
                    trait_path,
                    vs,
                    i + 1,
                )));
            },
            TextResult::Fail(m) => {},
        }
    } else {
        assert(arms + spec_plain_arms_text(trait_attr, trait_path, vs, i) =~= arms);
    }
}

/// Law: in an enum without an item-level format attribute, each variant's
/// own format attribute supplies its match arm verbatim, and a variant
/// without one falls back to the inferred single-field body; the arms
/// stand in declaration order.
pub proof fn lemma_enum_arm_per_variant(
    type_params: Seq<String>,
    trait_attr: Seq<char>,
    trait_path: Seq<char>,
    vs: Seq<Variant>,
)
    requires
        spec_plain_arms(type_params, trait_attr, trait_path, vs, 0, Seq::empty(), Seq::empty())
            is Done,
    ensures
        spec_plain_arms(
            type_params,
            trait_attr,
            trait_path,
            vs,
            0,
            Seq::empty(),
            Seq::empty(),
        )->Done_0 == spec_plain_arms_text(trait_attr, trait_path, vs, 0),
        forall|k: int|
            0 <= k < vs.len() ==> spec_shape_body(
                trait_attr,
                trait_path,
                vs[k].attrs@,
                vs[k].fields,
                vs[k].ident@,
            ) is Done,
{
    lemma_plain_arms_from(
        type_params,
        trait_attr,
        trait_path,
        vs,
        0,
        Seq::empty(),
        Seq::empty(),
    );
    assert(Seq::<char>::empty() + spec_plain_arms_text(trait_attr, trait_path, vs, 0)
        =~= spec_plain_arms_text(trait_attr, trait_path, vs, 0));
}

/// Law: expansion is a function of the declaration and trait name alone,
/// so repeated runs on byte-identical input emit byte-identical text.
pub proof fn lemma_expand_deterministic(a: Input, b: Input, trait_name: Seq<char>)
    requires
        a == b,
    ensures
        spec_expand(a, trait_name) == spec_expand(b, trait_name),
{
}

} // verus!
