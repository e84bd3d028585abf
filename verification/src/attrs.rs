//! The attribute interpreter: finds the one occurrence of a recognized
//! argument (`fmt` or `bound`) among the attributes of an attachment point,
//! and rejects malformed or duplicated occurrences with a descriptive
//! message.

use vstd::prelude::*;
use vstd::string::*;

use crate::input::{Attr, Error, MetaItem};
use crate::text::str_eq;

verus! {

/// What a search for one attribute argument finds.
pub ghost enum SpecFind {
    /// No occurrence of the argument.
    Absent,
    /// Exactly one occurrence, at this attribute index.
    Found(int),
    /// The attribute at this index does not start with a `name = "..."` pair.
    BadShape(int),
    /// The attribute at this index starts with an unrecognized argument name.
    UnknownArg(int),
    /// More than one occurrence of the argument.
    TooMany,
}

/// Whether `name` is an argument name the attribute accepts.
pub open spec fn spec_allowed_argument(name: Seq<char>) -> bool {
    name == "fmt"@ || name == "bound"@
}

/// The search over `attrs[i..]`, carrying the index already found and
/// whether a second occurrence has been seen.
pub open spec fn spec_find_from(
    attrs: Seq<Attr>,
    trait_attr: Seq<char>,
    meta_key: Seq<char>,
    i: int,
    found: Option<int>,
    many: bool,
) -> SpecFind
    decreases attrs.len() - i
        when 0 <= i <= attrs.len()
{
    if i >= attrs.len() {
        if many {
            SpecFind::TooMany
        } else {
            match found {
                Some(j) => SpecFind::Found(j),
                None => SpecFind::Absent,
            }
        }
    } else {
        let a = attrs[i];
        if a.path@ != trait_attr || !a.is_list {
            spec_find_from(attrs, trait_attr, meta_key, i + 1, found, many)
        } else if a.items@.len() == 0 || !(a.items@[0] is NameValueStr) {
            SpecFind::BadShape(i)
        } else if !spec_allowed_argument(a.items@[0]->NameValueStr_name@) {
            SpecFind::UnknownArg(i)
        } else if a.items@[0]->NameValueStr_name@ == meta_key {
            if found is Some {
                spec_find_from(attrs, trait_attr, meta_key, i + 1, found, true)
            } else {
                spec_find_from(attrs, trait_attr, meta_key, i + 1, Some(i), many)
            }
        } else {
            spec_find_from(attrs, trait_attr, meta_key, i + 1, found, many)
        }
    }
}

/// What the search over all of `attrs` finds.
pub open spec fn spec_find_meta(attrs: Seq<Attr>, trait_attr: Seq<char>, meta_key: Seq<char>) -> SpecFind {
    spec_find_from(attrs, trait_attr, meta_key, 0, None, false)
}

/// What holds of the attribute at a found index.
pub open spec fn found_props(
    attrs: Seq<Attr>,
    trait_attr: Seq<char>,
    meta_key: Seq<char>,
    j: int,
) -> bool {
    attrs[j].path@ == trait_attr && attrs[j].is_list && attrs[j].items@.len() >= 1
        && attrs[j].items@[0] is NameValueStr && attrs[j].items@[0]->NameValueStr_name@ == meta_key
}

proof fn lemma_find_from_found(
    attrs: Seq<Attr>,
    trait_attr: Seq<char>,
    meta_key: Seq<char>,
    i: int,
    found: Option<int>,
    many: bool,
)
    requires
        0 <= i <= attrs.len(),
        match found {
            Some(j) => 0 <= j < attrs.len() && found_props(attrs, trait_attr, meta_key, j),
            None => true,
        },
    ensures
        match spec_find_from(attrs, trait_attr, meta_key, i, found, many) {
            SpecFind::Found(j) => 0 <= j < attrs.len() && found_props(attrs, trait_attr, meta_key, j),
            _ => true,
        },
    decreases attrs.len() - i,
{
    if i < attrs.len() {
        let a = attrs[i];
        if a.path@ != trait_attr || !a.is_list {
            lemma_find_from_found(attrs, trait_attr, meta_key, i + 1, found, many);
        } else if a.items@.len() == 0 || !(a.items@[0] is NameValueStr) {
        } else if !spec_allowed_argument(a.items@[0]->NameValueStr_name@) {
        } else if a.items@[0]->NameValueStr_name@ == meta_key {
            if found is Some {
                lemma_find_from_found(attrs, trait_attr, meta_key, i + 1, found, true);
            } else {
                lemma_find_from_found(attrs, trait_attr, meta_key, i + 1, Some(i), many);
            }
        } else {
            lemma_find_from_found(attrs, trait_attr, meta_key, i + 1, found, many);
        }
    }
}

/// A found occurrence is a list attribute of the searched name whose first
/// argument is the searched `key = "..."` pair.
pub proof fn lemma_find_meta_found(attrs: Seq<Attr>, trait_attr: Seq<char>, meta_key: Seq<char>)
    ensures
        match spec_find_meta(attrs, trait_attr, meta_key) {
            SpecFind::Found(j) => 0 <= j < attrs.len() && found_props(attrs, trait_attr, meta_key, j),
            _ => true,
        },
{
    lemma_find_from_found(attrs, trait_attr, meta_key, 0, None, false);
}

/// The diagnostic for an attribute that does not start with `key = "..."`.
pub open spec fn msg_bad_attr_shape(trait_attr: Seq<char>, meta_key: Seq<char>) -> Seq<char> {
    "The format for this attribute cannot be parsed. Correct format: `#["@ + trait_attr + "("@
        + meta_key + " = \"...\")]`"@
}

/// The diagnostic for an unrecognized argument name.
pub open spec fn msg_unknown_argument(name: Seq<char>) -> Seq<char> {
    "Unknown `"@ + name + "` attribute argument. Allowed arguments are: fmt, bound"@
}

/// The diagnostic for a duplicated argument.
pub open spec fn msg_too_many_attributes() -> Seq<char> {
    "Too many attributes specified"@
}

fn build_bad_shape_message(trait_attr: &str, meta_key: &str) -> (r: String)
    ensures
        r@ == msg_bad_attr_shape(trait_attr@, meta_key@),
{
    let mut m = String::new();
    m.append("The format for this attribute cannot be parsed. Correct format: `#[");
    m.append(trait_attr);
    m.append("(");
    m.append(meta_key);
    m.append(" = \"...\")]`");
    proof {
        assert(m@ =~= msg_bad_attr_shape(trait_attr@, meta_key@));
    }
    m
}

fn build_unknown_argument_message(name: &str) -> (r: String)
    ensures
        r@ == msg_unknown_argument(name@),
{
    let mut m = String::new();
    m.append("Unknown `");
    m.append(name);
    m.append("` attribute argument. Allowed arguments are: fmt, bound");
    proof {
        assert(m@ =~= msg_unknown_argument(name@));
    }
    m
}

/// Finds the attribute occurrence `#[<trait_attr>(<meta_key> = "...", ...)]`
/// among `attrs`.  Occurrences of the attribute without an argument list are
/// passed over; one whose first argument is not a `name = "..."` pair, or
/// names an argument that is neither `fmt` nor `bound`, is an error, as is a
/// second occurrence of the same key.
pub fn find_meta(attrs: &Vec<Attr>, trait_attr: &str, meta_key: &str) -> (r: Result<
    Option<usize>,
    Error,
>)
    ensures
        match r {
            Ok(None) => spec_find_meta(attrs@, trait_attr@, meta_key@) == SpecFind::Absent,
            Ok(Some(idx)) => spec_find_meta(attrs@, trait_attr@, meta_key@) == SpecFind::Found(
                idx as int,
            ) && idx < attrs@.len(),
            Err(e) => match spec_find_meta(attrs@, trait_attr@, meta_key@) {
                SpecFind::BadShape(i) => e.message@ == msg_bad_attr_shape(
                    trait_attr@,
                    meta_key@,
                ),
                SpecFind::UnknownArg(i) => e.message@ == msg_unknown_argument(
                    attrs@[i].items@[0]->NameValueStr_name@,
                ),
                SpecFind::TooMany => e.message@ == msg_too_many_attributes(),
                _ => false,
            },
        },
{
    let n = attrs.len();
    let mut i: usize = 0;
    let mut found: Option<usize> = None;
    let mut many: bool = false;
    while i < n
        invariant
            i <= n,
            n == attrs@.len(),
            match found {
                Some(j) => j < i,
                None => true,
            },
            spec_find_meta(attrs@, trait_attr@, meta_key@) == spec_find_from(
                attrs@,
                trait_attr@,
                meta_key@,
                i as int,
                match found {
                    Some(j) => Some(j as int),
                    None => None::<int>,
                },
                many,
            ),
        decreases n - i,
    {
        let a = &attrs[i];
        if str_eq(a.path.as_str(), trait_attr) && a.is_list {
            if a.items.len() == 0 {
                return Err(
                    Error { message: build_bad_shape_message(trait_attr, meta_key) },
                );
            }
            match &attrs[i].items[0] {
                MetaItem::NameValueStr { name, value } => {
                    let is_fmt = str_eq(name.as_str(), "fmt");
                    let is_bound = str_eq(name.as_str(), "bound");
                    if !is_fmt && !is_bound {
                        let mut nm = String::new();
                        nm.append(name.as_str());
                        return Err(
                            Error { message: build_unknown_argument_message(nm.as_str()) },
                        );
                    }
                    if str_eq(name.as_str(), meta_key) {
                        if found.is_some() {
                            many = true;
                        } else {
                            found = Some(i);
                        }
                    }
                },
                _ => {
                    return Err(
                        Error { message: build_bad_shape_message(trait_attr, meta_key) },
                    );
                },
            }
        }
        i += 1;
    }
    if many {
        let mut m = String::new();
        m.append("Too many attributes specified");
        proof {
            assert(m@ =~= msg_too_many_attributes());
        }
        return Err(Error { message: m });
    }
    match found {
        Some(j) => Ok(Some(j)),
        None => Ok(None),
    }
}

} // verus!
