//! The bounds-literal parser: reads the string of a `bound = "..."`
//! attribute argument as a comma-separated list of `Param: Trait1 + Trait2`
//! clauses and builds the bound requirement map.  It rejects, with a
//! descriptive message: an empty list, a parameter that is not declared on
//! the item, attributes or default values on a clause, lifetime or const
//! clauses, lifetime or higher-rank bounds, and a named parameter left with
//! no bounds.  Commas and plus signs inside brackets belong to the bound
//! they appear in.

use vstd::prelude::*;
use vstd::string::*;

use crate::bounds::{
    param_bounds, spec_add_bound, spec_ensure_param, spec_is_param, Bounds, GEntry,
};
use crate::fmtparse::{find_ident_end, ident_end, is_ident_start};
use crate::input::Error;
use crate::bounds::is_param;

verus! {

/// What parsing a bounds literal yields: a map, or a diagnostic.
pub ghost enum BoundsResult {
    Done(Seq<GEntry>),
    Fail(Seq<char>),
}

pub open spec fn msg_no_bounds() -> Seq<char> {
    "No bounds specified"@
}

pub open spec fn msg_only_trait() -> Seq<char> {
    "Only trait bounds allowed"@
}

pub open spec fn msg_unknown_param() -> Seq<char> {
    "Unknown generic type argument specified"@
}

pub open spec fn msg_attrs_not_allowed() -> Seq<char> {
    "Attributes aren't allowed"@
}

pub open spec fn msg_default_not_allowed() -> Seq<char> {
    "Default type parameters aren't allowed"@
}

pub open spec fn msg_higher_rank() -> Seq<char> {
    "Higher-rank trait bounds aren't allowed"@
}

pub open spec fn msg_no_bounds_for(id: Seq<char>) -> Seq<char> {
    "No bounds specified for type parameter "@ + id
}

/// The expected-syntax diagnostic for the bounds argument.
pub open spec fn spec_proper_bound_syntax(trait_attr: Seq<char>) -> Seq<char> {
    "Proper syntax: #["@ + trait_attr + "(bound = \"T, U: Trait1 + Trait2, V: Trait3\")]"@
}

pub open spec fn is_space(c: char) -> bool {
    c == ' ' || c == '\t' || c == '\n' || c == '\r'
}

/// The first non-space index in `[i, limit)`, or `limit`.
pub open spec fn skip_spaces(s: Seq<char>, i: int, limit: int) -> int
    decreases limit - i
        when i <= limit
{
    if i < limit && is_space(s[i]) {
        skip_spaces(s, i + 1, limit)
    } else {
        i
    }
}

/// The end of `[lo, hi)` with trailing spaces dropped.
pub open spec fn trim_last(s: Seq<char>, lo: int, hi: int) -> int
    decreases hi - lo
        when lo <= hi
{
    if hi > lo && is_space(s[hi - 1]) {
        trim_last(s, lo, hi - 1)
    } else {
        hi
    }
}

/// Bracket depth after one character, never below zero.
pub open spec fn depth_step(d: nat, c: char) -> nat {
    if c == '<' || c == '(' || c == '[' {
        d + 1
    } else if c == '>' || c == ')' || c == ']' {
        if d > 0 {
            (d - 1) as nat
        } else {
            0
        }
    } else {
        d
    }
}

/// The first index in `[i, limit)` holding `sep` at bracket depth zero,
/// or `limit`.
pub open spec fn sep_pos(s: Seq<char>, i: int, limit: int, d: nat, sep: char) -> int
    decreases limit - i
        when i <= limit
{
    if i >= limit {
        limit
    } else if d == 0 && s[i] == sep {
        i
    } else {
        sep_pos(s, i + 1, limit, depth_step(d, s[i]), sep)
    }
}

/// The first index in `[i, limit)` holding `]`, or `limit`.
pub open spec fn rbracket_pos(s: Seq<char>, i: int, limit: int) -> int
    decreases limit - i
        when i <= limit
{
    if i >= limit {
        limit
    } else if s[i] == ']' {
        i
    } else {
        rbracket_pos(s, i + 1, limit)
    }
}

/// Whether `[t, j)` spells the `const` keyword introducing a const clause.
pub open spec fn is_const_clause(s: Seq<char>, t: int, j: int, b: int) -> bool {
    j - t == 5 && s[t] == 'c' && s[t + 1] == 'o' && s[t + 2] == 'n' && s[t + 3] == 's' && s[t + 4]
        == 't' && skip_spaces(s, j, b) < b && is_ident_start(s[skip_spaces(s, j, b)])
}

/// Whether the bound `[t0, t1)` opens with a `for<` binder.
pub open spec fn is_hrtb(s: Seq<char>, t0: int, t1: int) -> bool {
    t0 + 3 <= t1 && ident_end(s, t0) == t0 + 3 && s[t0] == 'f' && s[t0 + 1] == 'o' && s[t0 + 2]
        == 'r' && skip_spaces(s, t0 + 3, t1) < t1 && s[skip_spaces(s, t0 + 3, t1)] == '<'
}

/// The bound pieces of `[i, limit)` split on top-level `+`, each recorded
/// for parameter `p`.
pub open spec fn spec_bound_list(
    s: Seq<char>,
    i: int,
    limit: int,
    p: Seq<char>,
    acc: Seq<GEntry>,
    proper: Seq<char>,
) -> BoundsResult
    decreases limit - i
        when 0 <= i <= limit <= s.len()
{
    let e = sep_pos(s, i, limit, 0, '+');
    if !(i <= e <= limit) {
        BoundsResult::Fail(proper)
    } else {
        let t0 = skip_spaces(s, i, e);
        let t1 = trim_last(s, t0, e);
        if t0 >= t1 {
            BoundsResult::Fail(proper)
        } else if s[t0] == '\'' {
            BoundsResult::Fail(msg_only_trait())
        } else if is_hrtb(s, t0, t1) {
            BoundsResult::Fail(msg_higher_rank())
        } else {
            let acc2 = spec_add_bound(acc, p, s.subrange(t0, t1));
            if e < limit {
                spec_bound_list(s, e + 1, limit, p, acc2, proper)
            } else {
                BoundsResult::Done(acc2)
            }
        }
    }
}

/// One clause `[a, b)`, known not to be all spaces.
pub open spec fn spec_clause(
    params: Seq<String>,
    s: Seq<char>,
    a: int,
    b: int,
    acc: Seq<GEntry>,
    proper: Seq<char>,
) -> BoundsResult {
    let t = skip_spaces(s, a, b);
    if s[t] == '\'' {
        BoundsResult::Fail(msg_only_trait())
    } else if s[t] == '#' && rbracket_pos(s, t, b) >= b {
        BoundsResult::Fail(proper)
    } else {
        let t2 = if s[t] == '#' {
            skip_spaces(s, rbracket_pos(s, t, b) + 1, b)
        } else {
            t
        };
        let j = ident_end(s, t2);
        if j <= t2 || j > b {
            BoundsResult::Fail(proper)
        } else if is_const_clause(s, t2, j, b) {
            BoundsResult::Fail(msg_only_trait())
        } else {
            let id = s.subrange(t2, j);
            let k = skip_spaces(s, j, b);
            if !spec_is_param(params, id) {
                BoundsResult::Fail(msg_unknown_param())
            } else if s[t] == '#' {
                BoundsResult::Fail(msg_attrs_not_allowed())
            } else if k < b && s[k] == '=' {
                BoundsResult::Fail(msg_default_not_allowed())
            } else if k >= b {
                let acc2 = spec_ensure_param(acc, id);
                if param_bounds(acc2, id).len() == 0 {
                    BoundsResult::Fail(msg_no_bounds_for(id))
                } else {
                    BoundsResult::Done(acc2)
                }
            } else if s[k] != ':' {
                BoundsResult::Fail(proper)
            } else if sep_pos(s, k + 1, b, 0, '=') < b {
                BoundsResult::Fail(msg_default_not_allowed())
            } else {
                spec_bound_list(s, k + 1, b, id, spec_ensure_param(acc, id), proper)
            }
        }
    }
}

/// The clauses of `s[i..]` split on top-level commas, folded into `acc`.
/// A final clause of spaces alone is a trailing comma and is passed over.
pub open spec fn spec_clauses(
    params: Seq<String>,
    s: Seq<char>,
    i: int,
    acc: Seq<GEntry>,
    proper: Seq<char>,
) -> BoundsResult
    decreases s.len() - i
        when 0 <= i <= s.len()
{
    let e = sep_pos(s, i, s.len() as int, 0, ',');
    if !(i <= e <= s.len()) {
        BoundsResult::Fail(proper)
    } else if skip_spaces(s, i, e) >= e {
        if e >= s.len() {
            BoundsResult::Done(acc)
        } else {
            BoundsResult::Fail(proper)
        }
    } else {
        match spec_clause(params, s, i, e, acc, proper) {
            BoundsResult::Fail(m) => BoundsResult::Fail(m),
            BoundsResult::Done(acc2) => if e < s.len() {
                spec_clauses(params, s, e + 1, acc2, proper)
            } else {
                BoundsResult::Done(acc2)
            },
        }
    }
}

/// What parsing the whole bounds literal yields.
pub open spec fn spec_parse_bounds(params: Seq<String>, s: Seq<char>, proper: Seq<char>) -> BoundsResult {
    if skip_spaces(s, 0, s.len() as int) >= s.len() {
        BoundsResult::Fail(msg_no_bounds())
    } else {
        spec_clauses(params, s, 0, Seq::empty(), proper)
    }
}

// ---------------------------------------------------------------------------
// Executable parser
// ---------------------------------------------------------------------------
fn char_is_space(c: char) -> (b: bool)
    ensures
        b == is_space(c),
{
    c == ' ' || c == '\t' || c == '\n' || c == '\r'
}

fn skip_spaces_x(s: &str, i: usize, limit: usize) -> (j: usize)
    requires
        i <= limit <= s@.len(),
    ensures
        j as int == skip_spaces(s@, i as int, limit as int),
        i <= j <= limit,
    decreases limit - i,
{
    if i < limit {
        let c = s.get_char(i);
        if char_is_space(c) {
            return skip_spaces_x(s, i + 1, limit);
        }
    }
    i
}

fn trim_last_x(s: &str, lo: usize, hi: usize) -> (j: usize)
    requires
        lo <= hi <= s@.len(),
    ensures
        j as int == trim_last(s@, lo as int, hi as int),
        lo <= j <= hi,
    decreases hi - lo,
{
    if hi > lo {
        let c = s.get_char(hi - 1);
        if char_is_space(c) {
            return trim_last_x(s, lo, hi - 1);
        }
    }
    hi
}

fn sep_pos_x(s: &str, i: usize, limit: usize, d: usize, sep: char) -> (j: usize)
    requires
        i <= limit <= s@.len(),
        d <= i,
    ensures
        j as int == sep_pos(s@, i as int, limit as int, d as nat, sep),
        i <= j <= limit,
    decreases limit - i,
{
    if i >= limit {
        return limit;
    }
    let c = s.get_char(i);
    if d == 0 && c == sep {
        return i;
    }
    let d2: usize = if c == '<' || c == '(' || c == '[' {
        d + 1
    } else if c == '>' || c == ')' || c == ']' {
        if d > 0 {
            d - 1
        } else {
            0
        }
    } else {
        d
    };
    sep_pos_x(s, i + 1, limit, d2, sep)
}

fn rbracket_pos_x(s: &str, i: usize, limit: usize) -> (j: usize)
    requires
        i <= limit <= s@.len(),
    ensures
        j as int == rbracket_pos(s@, i as int, limit as int),
        i <= j <= limit,
    decreases limit - i,
{
    if i >= limit {
        return limit;
    }
    if s.get_char(i) == ']' {
        return i;
    }
    rbracket_pos_x(s, i + 1, limit)
}

fn build_message(text: &str) -> (r: Error)
    ensures
        r.message@ == text@,
{
    let mut m = String::new();
    m.append(text);
    proof {
        assert(m@ =~= text@);
    }
    Error { message: m }
}

fn build_no_bounds_for(id: &str) -> (r: Error)
    ensures
        r.message@ == msg_no_bounds_for(id@),
{
    let mut m = String::new();
    m.append("No bounds specified for type parameter ");
    m.append(id);
    proof {
        assert(m@ =~= msg_no_bounds_for(id@));
    }
    Error { message: m }
}

/// Builds the expected-syntax diagnostic for the bounds argument.
pub fn build_proper_bound_syntax(trait_attr: &str) -> (r: String)
    ensures
        r@ == spec_proper_bound_syntax(trait_attr@),
{
    let mut m = String::new();
    m.append("Proper syntax: #[");
    m.append(trait_attr);
    m.append("(bound = \"T, U: Trait1 + Trait2, V: Trait3\")]");
    proof {
        assert(m@ =~= spec_proper_bound_syntax(trait_attr@));
    }
    m
}

fn bound_list_x(
    s: &str,
    i: usize,
    limit: usize,
    p: &str,
    acc: Bounds,
    proper: &str,
) -> (r: Result<Bounds, Error>)
    requires
        i <= limit <= s@.len(),
    ensures
        match r {
            Ok(b) => spec_bound_list(s@, i as int, limit as int, p@, acc@, proper@)
                == BoundsResult::Done(b@),
            Err(e) => spec_bound_list(s@, i as int, limit as int, p@, acc@, proper@)
                == BoundsResult::Fail(e.message@),
        },
    decreases limit - i,
{
    let e = sep_pos_x(s, i, limit, 0, '+');
    let t0 = skip_spaces_x(s, i, e);
    let t1 = trim_last_x(s, t0, e);
    if t0 >= t1 {
        return Err(build_message(proper));
    }
    if s.get_char(t0) == '\'' {
        return Err(build_message("Only trait bounds allowed"));
    }
    // a `for<...>` binder check
    let hr: bool = if t1 - t0 >= 3 {
        let fe = find_ident_end(s, s.unicode_len(), t0);
        if fe == t0 + 3 && s.get_char(t0) == 'f' && s.get_char(t0 + 1) == 'o' && s.get_char(t0 + 2)
            == 'r' {
            let w = skip_spaces_x(s, t0 + 3, t1);
            w < t1 && s.get_char(w) == '<'
        } else {
            false
        }
    } else {
        false
    };
    assert(hr == is_hrtb(s@, t0 as int, t1 as int));
    if hr {
        return Err(build_message("Higher-rank trait bounds aren't allowed"));
    }
    let piece = String::from_str(s.substring_char(t0, t1));
    let mut acc2 = acc;
    acc2.add(p, piece.as_str());
    if e < limit {
        bound_list_x(s, e + 1, limit, p, acc2, proper)
    } else {
        Ok(acc2)
    }
}

fn clause_x(
    type_params: &Vec<String>,
    s: &str,
    a: usize,
    b: usize,
    acc: Bounds,
    proper: &str,
) -> (r: Result<Bounds, Error>)
    requires
        a <= b <= s@.len(),
        skip_spaces(s@, a as int, b as int) < b as int,
    ensures
        match r {
            Ok(bs) => spec_clause(type_params@, s@, a as int, b as int, acc@, proper@)
                == BoundsResult::Done(bs@),
            Err(e) => spec_clause(type_params@, s@, a as int, b as int, acc@, proper@)
                == BoundsResult::Fail(e.message@),
        },
{
    let t = skip_spaces_x(s, a, b);
    if s.get_char(t) == '\'' {
        return Err(build_message("Only trait bounds allowed"));
    }
    let has_attr = s.get_char(t) == '#';
    let t2 = if has_attr {
        let rb = rbracket_pos_x(s, t, b);
        if rb >= b {
            return Err(build_message(proper));
        }
        skip_spaces_x(s, rb + 1, b)
    } else {
        t
    };
    let j = find_ident_end(s, s.unicode_len(), t2);
    if j <= t2 || j > b {
        return Err(build_message(proper));
    }
    let isconst: bool = if j - t2 == 5 {
        if s.get_char(t2) == 'c' && s.get_char(t2 + 1) == 'o' && s.get_char(t2 + 2) == 'n'
            && s.get_char(t2 + 3) == 's' && s.get_char(t2 + 4) == 't' {
            let w = skip_spaces_x(s, j, b);
            if w < b {
                let c = s.get_char(w);
                ('a' as u32 <= c as u32 && c as u32 <= 'z' as u32) || ('A' as u32 <= c as u32 && c
                    as u32 <= 'Z' as u32) || c == '_'
            } else {
                false
            }
        } else {
            false
        }
    } else {
        false
    };
    assert(isconst == is_const_clause(s@, t2 as int, j as int, b as int));
    if isconst {
        return Err(build_message("Only trait bounds allowed"));
    }
    let id = String::from_str(s.substring_char(t2, j));
    let k = skip_spaces_x(s, j, b);
    if !is_param(type_params, id.as_str()) {
        return Err(build_message("Unknown generic type argument specified"));
    }
    if has_attr {
        return Err(build_message("Attributes aren't allowed"));
    }
    if k < b && s.get_char(k) == '=' {
        return Err(build_message("Default type parameters aren't allowed"));
    }
    if k >= b {
        let mut acc2 = acc;
        acc2.ensure_param(id.as_str());
        if !acc2.has_bounds(id.as_str()) {
            return Err(build_no_bounds_for(id.as_str()));
        }
        return Ok(acc2);
    }
    if s.get_char(k) != ':' {
        return Err(build_message(proper));
    }
    if sep_pos_x(s, k + 1, b, 0, '=') < b {
        return Err(build_message("Default type parameters aren't allowed"));
    }
    let mut acc2 = acc;
    acc2.ensure_param(id.as_str());
    bound_list_x(s, k + 1, b, id.as_str(), acc2, proper)
}

fn clauses_x(
    type_params: &Vec<String>,
    s: &str,
    len: usize,
    i: usize,
    acc: Bounds,
    proper: &str,
) -> (r: Result<Bounds, Error>)
    requires
        i <= len,
        len == s@.len(),
    ensures
        match r {
            Ok(bs) => spec_clauses(type_params@, s@, i as int, acc@, proper@)
                == BoundsResult::Done(bs@),
            Err(e) => spec_clauses(type_params@, s@, i as int, acc@, proper@)
                == BoundsResult::Fail(e.message@),
        },
    decreases len - i,
{
    let e = sep_pos_x(s, i, len, 0, ',');
    let t = skip_spaces_x(s, i, e);
    if t >= e {
        if e >= len {
            return Ok(acc);
        }
        return Err(build_message(proper));
    }
    match clause_x(type_params, s, i, e, acc, proper) {
        Err(er) => Err(er),
        Ok(acc2) => {
            if e < len {
                clauses_x(type_params, s, len, e + 1, acc2, proper)
            } else {
                Ok(acc2)
            }
        },
    }
}

/// Parses the string of a `bound = "..."` argument into a bound requirement
/// map, layering nothing on top: the caller merges the result with the
/// inferred bounds.
pub fn parse_meta_bounds(type_params: &Vec<String>, trait_attr: &str, bounds_lit: &str) -> (r:
    Result<Bounds, Error>)
    ensures
        match r {
            Ok(b) => spec_parse_bounds(
                type_params@,
                bounds_lit@,
                spec_proper_bound_syntax(trait_attr@),
            ) == BoundsResult::Done(b@),
            Err(e) => spec_parse_bounds(
                type_params@,
                bounds_lit@,
                spec_proper_bound_syntax(trait_attr@),
            ) == BoundsResult::Fail(e.message@),
        },
{
    let len = bounds_lit.unicode_len();
    let t = skip_spaces_x(bounds_lit, 0, len);
    if t >= len {
        return Err(build_message("No bounds specified"));
    }
    let proper = build_proper_bound_syntax(trait_attr);
    clauses_x(type_params, bounds_lit, len, 0, Bounds::new(), proper.as_str())
}

} // verus!
