//! The string-parsing generator: emits a parsing-trait implementation for a
//! single-field struct (delegating to the field's own parser) or for a
//! fieldless enum (matching variant names case-insensitively, falling back
//! to a case-sensitive guard where two variants collide, with a generated
//! error type).

use vstd::prelude::*;
use vstd::string::*;

use crate::casing::{lower_of, lower_words_of, lowercase, to_lower_words};
use crate::display::{generics_text, spec_generics_text, TextResult};
use crate::input::{Data, Error, Field, FieldList, Input, Variant};
use crate::text::{append_quoted, spec_quoted, str_eq};

verus! {

/// The diagnostic when a struct shape does not have exactly one field.
pub open spec fn spec_one_field_msg(trait_name: Seq<char>) -> Seq<char> {
    "Only structs with one field can derive("@ + trait_name + ")"@
}

/// The diagnostic the generator raises when the one-field rule of struct
/// derivation is broken.
pub fn panic_one_field(trait_name: &str) -> (r: Error)
    ensures
        r.message@ == spec_one_field_msg(trait_name@),
{
    let mut m = String::new();
    m.append("Only structs with one field can derive(");
    m.append(trait_name);
    m.append(")");
    proof {
        assert(m@ =~= spec_one_field_msg(trait_name@));
    }
    Error { message: m }
}

/// The parsing-trait path text.
pub open spec fn spec_parse_trait_path(trait_name: Seq<char>) -> Seq<char> {
    "::core::str::"@ + trait_name
}

/// The implementation text for a single-field shape: parsing delegates to
/// the field's own type.
pub open spec fn spec_struct_from_text(input: Input, trait_name: Seq<char>, f: Field) -> Seq<char> {
    let tp = spec_parse_trait_path(trait_name);
    let casted = "<"@ + f.ty.text@ + " as "@ + tp + ">"@;
    let body = match f.ident {
        Some(id) => input.ident@ + " { "@ + id@ + ": "@ + casted + "::from_str(src)? }"@,
        None => input.ident@ + "("@ + casted + "::from_str(src)?)"@,
    };
    "#[automatically_derived] impl"@ + spec_generics_text(input.type_params@) + " "@ + tp
        + " for "@ + input.ident@ + spec_generics_text(input.type_params@) + " { type Err = <"@
        + f.ty.text@ + " as "@ + tp
        + ">::Err; #[inline] fn from_str(src: &str) -> ::core::result::Result<Self, Self::Err> { Ok("@
        + body + ") } }"@
}

/// What struct derivation yields: the implementation, or the one-field
/// diagnostic.
pub open spec fn spec_struct_from(input: Input, trait_name: Seq<char>) -> TextResult {
    let fs = match input.data {
        Data::Struct(fields) => fields.spec_fields(),
        Data::Union(fields) => fields.spec_fields(),
        Data::Enum(vs) => Seq::empty(),
    };
    if fs.len() != 1 {
        TextResult::Fail(spec_one_field_msg(trait_name))
    } else {
        TextResult::Done(spec_struct_from_text(input, trait_name, fs[0]))
    }
}

/// Emits the parsing-trait implementation of a single-field struct or
/// union shape.
#[verifier::rlimit(100)]
pub fn struct_from(input: &Input, trait_name: &str) -> (r: Result<String, Error>)
    requires
        !(input.data is Enum),
    ensures
        match r {
            Ok(s) => spec_struct_from(*input, trait_name@) == TextResult::Done(s@),
            Err(e) => spec_struct_from(*input, trait_name@) == TextResult::Fail(e.message@),
        },
{
    let empty_fields: Vec<Field> = Vec::new();
    let fs: &Vec<Field> = match &input.data {
        Data::Struct(fields) => match fields {
            FieldList::Unit => &empty_fields,
            FieldList::Unnamed(v) => v,
            FieldList::Named(v) => v,
        },
        Data::Union(fields) => match fields {
            FieldList::Unit => &empty_fields,
            FieldList::Unnamed(v) => v,
            FieldList::Named(v) => v,
        },
        Data::Enum(_) => &empty_fields,
    };
    if fs.len() != 1 {
        return Err(panic_one_field(trait_name));
    }
    let mut tp = String::new();
    tp.append("::core::str::");
    tp.append(trait_name);
    proof {
        assert(tp@ =~= spec_parse_trait_path(trait_name@));
    }
    let generics = generics_text(&input.type_params);
    let mut casted = String::new();
    casted.append("<");
    casted.append(fs[0].ty.text.as_str());
    casted.append(" as ");
    casted.append(tp.as_str());
    casted.append(">");
    proof {
        assert(casted@ =~= "<"@ + fs@[0].ty.text@ + " as "@ + tp@ + ">"@);
    }
    let mut body = String::new();
    match &fs[0].ident {
        Some(id) => {
            body.append(input.ident.as_str());
            body.append(" { ");
            body.append(id.as_str());
            body.append(": ");
            body.append(casted.as_str());
            body.append("::from_str(src)? }");
            proof {
                assert(body@ =~= input.ident@ + " { "@ + id@ + ": "@ + casted@
                    + "::from_str(src)? }"@);
            }
        },
        None => {
            body.append(input.ident.as_str());
            body.append("(");
            body.append(casted.as_str());
            body.append("::from_str(src)?)");
            proof {
                assert(body@ =~= input.ident@ + "("@ + casted@ + "::from_str(src)?)"@);
            }
        },
    }
    let mut out = String::new();
    out.append("#[automatically_derived] impl");
    proof {
        assert(out@ =~= "#[automatically_derived] impl"@);
    }
    out.append(generics.as_str());
    out.append(" ");
    out.append(tp.as_str());
    out.append(" for ");
    out.append(input.ident.as_str());
    out.append(generics.as_str());
    out.append(" { type Err = <");
    out.append(fs[0].ty.text.as_str());
    out.append(" as ");
    out.append(tp.as_str());
    out.append(
        ">::Err; #[inline] fn from_str(src: &str) -> ::core::result::Result<Self, Self::Err> { Ok(",
    );
    out.append(body.as_str());
    out.append(") } }");
    proof {
        assert(out@ == spec_struct_from_text(*input, trait_name@, fs@[0]));
    }
    Ok(out)
}

/// The diagnostic when an enum variant carries fields.
pub open spec fn spec_enum_fields_msg(trait_name: Seq<char>) -> Seq<char> {
    "Only enums with no fields can derive("@ + trait_name + ")"@
}

/// How many variants share one lowercased name.
pub open spec fn spec_key_count(vs: Seq<Variant>, key: Seq<char>, i: int) -> nat
    decreases vs.len() - i
        when 0 <= i <= vs.len()
{
    if i >= vs.len() {
        0
    } else {
        (if lower_of(vs[i].ident@) == key {
            1nat
        } else {
            0nat
        }) + spec_key_count(vs, key, i + 1)
    }
}

/// One variant's match arm: the lowercased name alone when it is unique
/// among the variants, with a case-sensitive guard when it collides.
pub open spec fn spec_variant_case(vs: Seq<Variant>, v: Variant, ename: Seq<char>) -> Seq<char> {
    let low = lower_of(v.ident@);
    if spec_key_count(vs, low, 0) == 1 {
        spec_quoted(low) + " => "@ + ename + "::"@ + v.ident@ + ", "@
    } else {
        spec_quoted(low) + " if(src == "@ + spec_quoted(v.ident@) + ") => "@ + ename + "::"@
            + v.ident@ + ", "@
    }
}

/// The match arms of the variants from `i` on, in declaration order.
pub open spec fn spec_enum_cases(vs: Seq<Variant>, i: int, ename: Seq<char>) -> Seq<char>
    decreases vs.len() - i
        when 0 <= i <= vs.len()
{
    if i >= vs.len() {
        Seq::empty()
    } else {
        spec_variant_case(vs, vs[i], ename) + spec_enum_cases(vs, i + 1, ename)
    }
}

/// The generated error type name.
pub open spec fn spec_err_name(ename: Seq<char>) -> Seq<char> {
    "Parse"@ + ename + "Error"@
}

/// The implementation text for a fieldless enum: a generated error type
/// and a case-insensitive match over the variant names.
pub open spec fn spec_enum_from_text(input: Input, trait_name: Seq<char>, vs: Seq<Variant>) -> Seq<char> {
    let ename = input.ident@;
    let errn = spec_err_name(ename);
    let vis = if input.vis@.len() == 0 {
        Seq::<char>::empty()
    } else {
        input.vis@ + " "@
    };
    "#[derive(Debug, Clone, PartialEq, Eq)] "@ + vis + "struct "@ + errn
        + "; impl std::fmt::Display for "@ + errn
        + " { fn fmt(&self, fmt: &mut std::fmt::Formatter<'_>) -> std::fmt::Result { fmt.write_str("@
        + spec_quoted("invalid "@ + lower_words_of(ename)) + ") } } impl std::error::Error for "@
        + errn + " {} impl "@ + spec_parse_trait_path(trait_name) + " for "@ + ename
        + " { type Err = "@ + errn
        + "; #[inline] fn from_str(src: &str) -> ::core::result::Result<Self, Self::Err> { Ok(match src.to_lowercase().as_str() { "@
        + spec_enum_cases(vs, 0, ename) + "_ => return Err("@ + errn + "{}), }) } }"@
}

/// What enum derivation yields: the implementation, or the fieldless-rule
/// diagnostic.
pub open spec fn spec_enum_from(input: Input, trait_name: Seq<char>) -> TextResult {
    match input.data {
        Data::Enum(vs) => {
            if exists|k: int| 0 <= k < vs@.len() && vs@[k].fields.spec_fields().len() > 0 {
                TextResult::Fail(spec_enum_fields_msg(trait_name))
            } else {
                TextResult::Done(spec_enum_from_text(input, trait_name, vs@))
            }
        },
        _ => TextResult::Fail(spec_enum_fields_msg(trait_name)),
    }
}

fn variant_field_count(v: &Variant) -> (r: usize)
    ensures
        r == v.fields.spec_fields().len(),
{
    match &v.fields {
        FieldList::Unit => 0,
        FieldList::Unnamed(fs) => fs.len(),
        FieldList::Named(fs) => fs.len(),
    }
}

/// Emits the parsing-trait implementation of a fieldless enum.
#[verifier::loop_isolation(false)]
#[verifier::rlimit(100)]
pub fn enum_from(input: &Input, trait_name: &str) -> (r: Result<String, Error>)
    requires
        input.data is Enum,
    ensures
        match r {
            Ok(s) => spec_enum_from(*input, trait_name@) == TextResult::Done(s@),
            Err(e) => spec_enum_from(*input, trait_name@) == TextResult::Fail(e.message@),
        },
{
    let vs: &Vec<Variant> = match &input.data {
        Data::Enum(vs) => vs,
        _ => {
            proof {
                assert(false);
            }
            return Err(panic_one_field(trait_name));
        },
    };
    let nv = vs.len();
    let mut i: usize = 0;
    while i < nv
        invariant
            i <= nv,
            forall|k: int| 0 <= k < i ==> vs@[k].fields.spec_fields().len() == 0,
        decreases nv - i,
    {
        if variant_field_count(&vs[i]) > 0 {
            let mut m = String::new();
            m.append("Only enums with no fields can derive(");
            m.append(trait_name);
            m.append(")");
            proof {
                assert(m@ =~= spec_enum_fields_msg(trait_name@));
            }
            return Err(Error { message: m });
        }
        i += 1;
    }
    // the lowercased variant names
    let mut lowers: Vec<String> = Vec::new();
    let mut i: usize = 0;
    while i < nv
        invariant
            i <= nv,
            lowers@.len() == i,
            forall|k: int| 0 <= k < i ==> lowers@[k]@ == lower_of(vs@[k].ident@),
        decreases nv - i,
    {
        lowers.push(lowercase(vs[i].ident.as_str()));
        i += 1;
    }
    // the match arms, one per variant in declaration order
    let mut cases = String::new();
    let mut i: usize = 0;
    while i < nv
        invariant
            i <= nv,
            lowers@.len() == nv,
            forall|k: int| 0 <= k < nv ==> lowers@[k]@ == lower_of(vs@[k].ident@),
            spec_enum_cases(vs@, 0, input.ident@) =~= cases@ + spec_enum_cases(
                vs@,
                i as int,
                input.ident@,
            ),
        decreases nv - i,
    {
        // how many variants share this lowercased name
        let mut count: usize = 0;
        let mut k: usize = nv;
        while k > 0
            invariant
                k <= nv,
                count <= nv - k,
                lowers@.len() == nv,
                forall|j: int| 0 <= j < nv ==> lowers@[j]@ == lower_of(vs@[j].ident@),
                i < nv,
                count as nat == spec_key_count(vs@, lower_of(vs@[i as int].ident@), k as int),
            decreases k,
        {
            k -= 1;
            if str_eq(lowers[k].as_str(), lowers[i].as_str()) {
                count += 1;
            }
        }
        let ghost before = cases@;
        append_quoted(&mut cases, lowers[i].as_str());
        if count == 1 {
            cases.append(" => ");
        } else {
            cases.append(" if(src == ");
            append_quoted(&mut cases, vs[i].ident.as_str());
            cases.append(") => ");
        }
        cases.append(input.ident.as_str());
        cases.append("::");
        cases.append(vs[i].ident.as_str());
        cases.append(", ");
        proof {
            assert(cases@ =~= before + spec_variant_case(vs@, vs@[i as int], input.ident@));
            assert(before + (spec_variant_case(vs@, vs@[i as int], input.ident@)
                + spec_enum_cases(vs@, i + 1, input.ident@)) =~= cases@ + spec_enum_cases(
                vs@,
                i + 1,
                input.ident@,
            ));
        }
        i += 1;
    }
    proof {
        assert(spec_enum_cases(vs@, nv as int, input.ident@) =~= Seq::<char>::empty());
        assert(cases@ =~= spec_enum_cases(vs@, 0, input.ident@));
    }
    let words = to_lower_words(input.ident.as_str());
    let mut msg = String::new();
    msg.append("invalid ");
    msg.append(words.as_str());
    proof {
        assert(msg@ =~= "invalid "@ + lower_words_of(input.ident@));
    }
    let mut quoted_msg = String::new();
    append_quoted(&mut quoted_msg, msg.as_str());
    proof {
        assert(quoted_msg@ =~= spec_quoted("invalid "@ + lower_words_of(input.ident@)));
    }
    let mut errn = String::new();
    errn.append("Parse");
    errn.append(input.ident.as_str());
    errn.append("Error");
    proof {
        assert(errn@ =~= spec_err_name(input.ident@));
    }
    let mut tp = String::new();
    tp.append("::core::str::");
    tp.append(trait_name);
    proof {
        assert(tp@ =~= spec_parse_trait_path(trait_name@));
    }
    let mut visterm = String::new();
    if input.vis.as_str().unicode_len() > 0 {
        visterm.append(input.vis.as_str());
        visterm.append(" ");
        proof {
            assert(visterm@ =~= input.vis@ + " "@);
        }
    } else {
        proof {
            assert(visterm@ =~= Seq::<char>::empty());
        }
    }
    let mut out = String::new();
    out.append("#[derive(Debug, Clone, PartialEq, Eq)] ");
    proof {
        assert(out@ =~= "#[derive(Debug, Clone, PartialEq, Eq)] "@);
    }
    out.append(visterm.as_str());
    out.append("struct ");
    out.append(errn.as_str());
    out.append("; impl std::fmt::Display for ");
    out.append(errn.as_str());
    out.append(
        " { fn fmt(&self, fmt: &mut std::fmt::Formatter<'_>) -> std::fmt::Result { fmt.write_str(",
    );
    out.append(quoted_msg.as_str());
    out.append(") } } impl std::error::Error for ");
    out.append(errn.as_str());
    out.append(" {} impl ");
    out.append(tp.as_str());
    out.append(" for ");
    out.append(input.ident.as_str());
    out.append(" { type Err = ");
    out.append(errn.as_str());
    out.append(
        "; #[inline] fn from_str(src: &str) -> ::core::result::Result<Self, Self::Err> { Ok(match src.to_lowercase().as_str() { ",
    );
    out.append(cases.as_str());
    out.append("_ => return Err(");
    out.append(errn.as_str());
    out.append("{}), }) } }");
    proof {
        assert(out@ == spec_enum_from_text(*input, trait_name@, vs@));
    }
    Ok(out)
}

/// What expansion of the parsing trait yields for one declaration.
pub open spec fn spec_from_str_expand(input: Input, trait_name: Seq<char>) -> TextResult {
    match input.data {
        Data::Enum(vs) => spec_enum_from(input, trait_name),
        _ => spec_struct_from(input, trait_name),
    }
}

/// Expands the parsing-trait derivation of one declaration.
pub fn expand(input: &Input, trait_name: &str) -> (r: Result<String, Error>)
    ensures
        match r {
            Ok(s) => spec_from_str_expand(*input, trait_name@) == TextResult::Done(s@),
            Err(e) => spec_from_str_expand(*input, trait_name@) == TextResult::Fail(e.message@),
        },
{
    match &input.data {
        Data::Enum(vs) => enum_from(input, trait_name),
        _ => struct_from(input, trait_name),
    }
}

} // verus!
