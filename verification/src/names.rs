//! The fixed tables tying a formatting trait name to its attribute name and
//! to the bound text the generated `where` clause uses.

use vstd::prelude::*;
use vstd::string::*;

use crate::text::str_eq;

verus! {

/// The nine formatting trait names the generator accepts.
pub open spec fn is_trait_name(t: Seq<char>) -> bool {
    t == "Display"@ || t == "Binary"@ || t == "Octal"@ || t == "LowerHex"@ || t == "UpperHex"@
        || t == "LowerExp"@ || t == "UpperExp"@ || t == "Pointer"@ || t == "Debug"@
}

/// The attribute names corresponding to the nine traits.
pub open spec fn is_attr_name(a: Seq<char>) -> bool {
    a == "display"@ || a == "binary"@ || a == "octal"@ || a == "lower_hex"@ || a == "upper_hex"@
        || a == "lower_exp"@ || a == "upper_exp"@ || a == "pointer"@ || a == "debug"@
}

/// The attribute name of one trait.
pub open spec fn spec_attr_of_trait(t: Seq<char>) -> Seq<char> {
    if t == "Display"@ {
        "display"@
    } else if t == "Binary"@ {
        "binary"@
    } else if t == "Octal"@ {
        "octal"@
    } else if t == "LowerHex"@ {
        "lower_hex"@
    } else if t == "UpperHex"@ {
        "upper_hex"@
    } else if t == "LowerExp"@ {
        "lower_exp"@
    } else if t == "UpperExp"@ {
        "upper_exp"@
    } else if t == "Pointer"@ {
        "pointer"@
    } else {
        "debug"@
    }
}

/// The trait name of one attribute name.
pub open spec fn spec_trait_of_attr(a: Seq<char>) -> Seq<char> {
    if a == "display"@ {
        "Display"@
    } else if a == "binary"@ {
        "Binary"@
    } else if a == "octal"@ {
        "Octal"@
    } else if a == "lower_hex"@ {
        "LowerHex"@
    } else if a == "upper_hex"@ {
        "UpperHex"@
    } else if a == "lower_exp"@ {
        "LowerExp"@
    } else if a == "upper_exp"@ {
        "UpperExp"@
    } else if a == "pointer"@ {
        "Pointer"@
    } else {
        "Debug"@
    }
}

/// The bound text of one trait name, rooted in the core formatting module.
pub open spec fn spec_trait_bound(t: Seq<char>) -> Seq<char> {
    "::core::fmt::"@ + t
}

/// The attribute name of a recognized trait is a recognized attribute name.
pub proof fn lemma_attr_of_trait_is_attr_name(t: Seq<char>)
    requires
        is_trait_name(t),
    ensures
        is_attr_name(spec_attr_of_trait(t)),
{
}

/// The attribute name that carries the arguments of one derived trait.
pub fn trait_name_to_attribute_name(trait_name: &str) -> (r: &'static str)
    requires
        is_trait_name(trait_name@),
    ensures
        r@ == spec_attr_of_trait(trait_name@),
{
    if str_eq(trait_name, "Display") {
        "display"
    } else if str_eq(trait_name, "Binary") {
        "binary"
    } else if str_eq(trait_name, "Octal") {
        "octal"
    } else if str_eq(trait_name, "LowerHex") {
        "lower_hex"
    } else if str_eq(trait_name, "UpperHex") {
        "upper_hex"
    } else if str_eq(trait_name, "LowerExp") {
        "lower_exp"
    } else if str_eq(trait_name, "UpperExp") {
        "upper_exp"
    } else if str_eq(trait_name, "Pointer") {
        "pointer"
    } else {
        "debug"
    }
}

/// The trait name selected by one attribute name.
pub fn attribute_name_to_trait_name(attribute_name: &str) -> (r: &'static str)
    requires
        is_attr_name(attribute_name@),
    ensures
        r@ == spec_trait_of_attr(attribute_name@),
{
    if str_eq(attribute_name, "display") {
        "Display"
    } else if str_eq(attribute_name, "binary") {
        "Binary"
    } else if str_eq(attribute_name, "octal") {
        "Octal"
    } else if str_eq(attribute_name, "lower_hex") {
        "LowerHex"
    } else if str_eq(attribute_name, "upper_hex") {
        "UpperHex"
    } else if str_eq(attribute_name, "lower_exp") {
        "LowerExp"
    } else if str_eq(attribute_name, "upper_exp") {
        "UpperExp"
    } else if str_eq(attribute_name, "pointer") {
        "Pointer"
    } else {
        "Debug"
    }
}

/// The bound text `::core::fmt::<trait>` used in generated `where` clauses.
pub fn trait_name_to_trait_bound(trait_name: &str) -> (r: String)
    ensures
        r@ == spec_trait_bound(trait_name@),
{
    let mut b = String::new();
    b.append("::core::fmt::");
    b.append(trait_name);
    proof {
        assert(b@ =~= spec_trait_bound(trait_name@));
    }
    b
}

} // verus!
