//! The accessor generator: for every variant of an enum it emits an
//! `unwrap_<variant>` method that returns the variant's fields and, by the
//! documented contract of the generated code, aborts the running program
//! with a descriptive message when called on any other variant.

use vstd::prelude::*;
use vstd::string::*;

use crate::casing::{snake_case_of, to_snake_case};
use crate::display::{generics_text, spec_generics_text, TextResult};
use crate::input::{Data, Error, Field, FieldList, Input, Variant};
use crate::text::{append_quoted, spec_decimal, spec_quoted, str_eq, usize_to_string};

verus! {

pub open spec fn msg_not_enum() -> Seq<char> {
    "Unwrap can only be derived for enums"@
}

pub open spec fn msg_anonymous_records() -> Seq<char> {
    "cannot unwrap anonymous records"@
}

/// The accessor name of one variant.
pub open spec fn spec_unwrap_fn_name(ident: Seq<char>) -> Seq<char> {
    "unwrap_"@ + snake_case_of(ident)
}

/// The binder names `field_0, field_1` for `n` tuple fields, from `i` on.
pub open spec fn spec_binders_join(n: int, i: int) -> Seq<char>
    decreases n - i
        when 0 <= i <= n
{
    if i >= n {
        Seq::empty()
    } else if i + 1 == n {
        "field_"@ + spec_decimal(i as nat)
    } else {
        "field_"@ + spec_decimal(i as nat) + ", "@ + spec_binders_join(n, i + 1)
    }
}

/// The field types `T0, T1` of a tuple shape, from `i` on.
pub open spec fn spec_types_join(fs: Seq<Field>, i: int) -> Seq<char>
    decreases fs.len() - i
        when 0 <= i <= fs.len()
{
    if i >= fs.len() {
        Seq::empty()
    } else if i + 1 == fs.len() {
        fs[i].ty.text@
    } else {
        fs[i].ty.text@ + ", "@ + spec_types_join(fs, i + 1)
    }
}

/// The destructuring pattern of the unwrapped variant.
pub open spec fn spec_unwrap_pattern(fields: FieldList) -> Seq<char> {
    match fields {
        FieldList::Unit => Seq::empty(),
        FieldList::Unnamed(fs) => "("@ + spec_binders_join(fs@.len() as int, 0) + ")"@,
        FieldList::Named(fs) => Seq::empty(),
    }
}

/// The returned value of the accessor.
pub open spec fn spec_unwrap_ret(fields: FieldList) -> Seq<char> {
    match fields {
        FieldList::Unit => "()"@,
        FieldList::Unnamed(fs) => "("@ + spec_binders_join(fs@.len() as int, 0) + ")"@,
        FieldList::Named(fs) => Seq::empty(),
    }
}

/// The return type of the accessor.
pub open spec fn spec_unwrap_ret_type(fields: FieldList) -> Seq<char> {
    match fields {
        FieldList::Unit => "()"@,
        FieldList::Unnamed(fs) => "("@ + spec_types_join(fs@, 0) + ")"@,
        FieldList::Named(fs) => Seq::empty(),
    }
}

/// The wildcard pattern of a variant in the aborting arms.
pub open spec fn spec_other_pattern(fields: FieldList) -> Seq<char> {
    match fields {
        FieldList::Unit => Seq::empty(),
        FieldList::Unnamed(fs) => "(..)"@,
        FieldList::Named(fs) => " {..}"@,
    }
}

/// One aborting arm for a variant other than the unwrapped one.
pub open spec fn spec_other_arm(ename: Seq<char>, fn_name: Seq<char>, ov: Variant) -> Seq<char> {
    ename + "::"@ + ov.ident@ + spec_other_pattern(ov.fields)
        + " => panic!(concat!(\"called `\", stringify!("@ + ename + "), \"::\", stringify!("@
        + fn_name + "), \"()` on a `\", stringify!("@ + ov.ident@ + "), \"` value\")), "@
}

/// The aborting arms of every variant other than the one at `cur`.
pub open spec fn spec_other_arms(
    vs: Seq<Variant>,
    i: int,
    cur: int,
    ename: Seq<char>,
    fn_name: Seq<char>,
) -> Seq<char>
    decreases vs.len() - i
        when 0 <= i <= vs.len()
{
    if i >= vs.len() {
        Seq::empty()
    } else {
        (if vs[i].ident@ == vs[cur].ident@ {
            Seq::<char>::empty()
        } else {
            spec_other_arm(ename, fn_name, vs[i])
        }) + spec_other_arms(vs, i + 1, cur, ename, fn_name)
    }
}

/// One accessor: the unwrapped variant's arm returns its fields, every
/// other arm aborts; a record variant cannot be unwrapped.
pub open spec fn spec_unwrap_fn(vs: Seq<Variant>, cur: int, ename: Seq<char>) -> TextResult {
    let v = vs[cur];
    if v.fields is Named {
        TextResult::Fail(msg_anonymous_records())
    } else {
        let fn_name = spec_unwrap_fn_name(v.ident@);
        TextResult::Done(
            "#[track_caller] #[doc = \"Unwraps this value to the `\"] #[doc = "@ + spec_quoted(
                v.ident@,
            ) + "] #[doc = \"` variant\\n\\nPanics if this value is of any other type\"] pub fn "@
                + fn_name + "(self) -> "@ + spec_unwrap_ret_type(v.fields) + " { match self { "@
                + ename + "::"@ + v.ident@ + spec_unwrap_pattern(v.fields) + " => "@
                + spec_unwrap_ret(v.fields) + ", "@ + spec_other_arms(vs, 0, cur, ename, fn_name)
                + "} }"@,
        )
    }
}

/// The accessors of the variants from `i` on, each followed by a space.
pub open spec fn spec_unwrap_fns(vs: Seq<Variant>, i: int, ename: Seq<char>) -> TextResult
    decreases vs.len() - i
        when 0 <= i <= vs.len()
{
    if i >= vs.len() {
        TextResult::Done(Seq::empty())
    } else {
        match spec_unwrap_fn(vs, i, ename) {
            TextResult::Fail(m) => TextResult::Fail(m),
            TextResult::Done(f) => match spec_unwrap_fns(vs, i + 1, ename) {
                TextResult::Fail(m) => TextResult::Fail(m),
                TextResult::Done(rest) => TextResult::Done(f + " "@ + rest),
            },
        }
    }
}

/// What expanding the accessor derivation yields for one declaration.
pub open spec fn spec_unwrap_expand(input: Input) -> TextResult {
    match input.data {
        Data::Enum(vs) => match spec_unwrap_fns(vs@, 0, input.ident@) {
            TextResult::Fail(m) => TextResult::Fail(m),
            TextResult::Done(funcs) => TextResult::Done(
                "#[automatically_derived] impl"@ + spec_generics_text(input.type_params@) + " "@
                    + input.ident@ + spec_generics_text(input.type_params@) + " { "@ + funcs
                    + "}"@,
            ),
        },
        _ => TextResult::Fail(msg_not_enum()),
    }
}

/// Emits the binder list `field_0, field_1` for `n` tuple fields.
fn binders_join(n: usize) -> (r: String)
    ensures
        r@ == spec_binders_join(n as int, 0),
{
    let mut out = String::new();
    let mut i: usize = 0;
    if n == 0 {
        proof {
            assert(out@ =~= spec_binders_join(0, 0));
        }
        return out;
    }
    let ghost whole = spec_binders_join(n as int, 0);
    while i < n
        invariant
            i <= n,
            n > 0,
            whole == spec_binders_join(n as int, 0),
            i < n ==> whole =~= out@ + spec_binders_join(n as int, i as int),
            i == n ==> whole =~= out@,
        decreases n - i,
    {
        out.append("field_");
        let d = usize_to_string(i);
        out.append(d.as_str());
        if i + 1 < n {
            out.append(", ");
        }
        i += 1;
    }
    out
}

/// Emits the type list of a tuple shape.
fn types_join(fs: &Vec<Field>) -> (r: String)
    ensures
        r@ == spec_types_join(fs@, 0),
{
    let mut out = String::new();
    let n = fs.len();
    if n == 0 {
        proof {
            assert(out@ =~= spec_types_join(fs@, 0));
        }
        return out;
    }
    let ghost whole = spec_types_join(fs@, 0);
    let mut i: usize = 0;
    while i < n
        invariant
            i <= n,
            n == fs@.len(),
            n > 0,
            whole == spec_types_join(fs@, 0),
            i < n ==> whole =~= out@ + spec_types_join(fs@, i as int),
            i == n ==> whole =~= out@,
        decreases n - i,
    {
        out.append(fs[i].ty.text.as_str());
        if i + 1 < n {
            out.append(", ");
        }
        i += 1;
    }
    out
}

/// Emits the aborting arms for every variant other than the one at `cur`.
#[verifier::loop_isolation(false)]
fn other_arms(vs: &Vec<Variant>, cur: usize, ename: &str, fn_name: &str) -> (r: String)
    requires
        cur < vs@.len(),
    ensures
        r@ == spec_other_arms(vs@, 0, cur as int, ename@, fn_name@),
{
    let mut out = String::new();
    let n = vs.len();
    let mut i: usize = 0;
    while i < n
        invariant
            i <= n,
            spec_other_arms(vs@, 0, cur as int, ename@, fn_name@) =~= out@ + spec_other_arms(
                vs@,
                i as int,
                cur as int,
                ename@,
                fn_name@,
            ),
        decreases n - i,
    {
        let ghost before = out@;
        if !str_eq(vs[i].ident.as_str(), vs[cur].ident.as_str()) {
            out.append(ename);
            out.append("::");
            out.append(vs[i].ident.as_str());
            match &vs[i].fields {
                FieldList::Unit => {},
                FieldList::Unnamed(_) => {
                    out.append("(..)");
                },
                FieldList::Named(_) => {
                    out.append(" {..}");
                },
            }
            out.append(" => panic!(concat!(\"called `\", stringify!(");
            out.append(ename);
            out.append("), \"::\", stringify!(");
            out.append(fn_name);
            out.append("), \"()` on a `\", stringify!(");
            out.append(vs[i].ident.as_str());
            out.append("), \"` value\")), ");
            proof {
                assert(out@ =~= before + spec_other_arm(ename@, fn_name@, vs@[i as int]));
            }
        }
        proof {
            assert(spec_other_arms(vs@, i as int, cur as int, ename@, fn_name@) == (if vs@[
                i as int
            ].ident@ == vs@[cur as int].ident@ {
                Seq::<char>::empty()
            } else {
                spec_other_arm(ename@, fn_name@, vs@[i as int])
            }) + spec_other_arms(vs@, i + 1, cur as int, ename@, fn_name@));
            assert(before + ((if vs@[i as int].ident@ == vs@[cur as int].ident@ {
                Seq::<char>::empty()
            } else {
                spec_other_arm(ename@, fn_name@, vs@[i as int])
            }) + spec_other_arms(vs@, i + 1, cur as int, ename@, fn_name@)) =~= out@
                + spec_other_arms(vs@, i + 1, cur as int, ename@, fn_name@));
        }
        i += 1;
    }
    proof {
        assert(spec_other_arms(vs@, n as int, cur as int, ename@, fn_name@)
            =~= Seq::<char>::empty());
        assert(out@ =~= spec_other_arms(vs@, 0, cur as int, ename@, fn_name@));
    }
    out
}

/// Emits one variant's accessor.
#[verifier::rlimit(100)]
fn unwrap_fn(vs: &Vec<Variant>, cur: usize, ename: &str) -> (r: Result<String, Error>)
    requires
        cur < vs@.len(),
    ensures
        match r {
            Ok(s) => spec_unwrap_fn(vs@, cur as int, ename@) == TextResult::Done(s@),
            Err(e) => spec_unwrap_fn(vs@, cur as int, ename@) == TextResult::Fail(e.message@),
        },
{
    let (pattern, ret, ret_type): (String, String, String) = match &vs[cur].fields {
        FieldList::Named(_) => {
            let mut m = String::new();
            m.append("cannot unwrap anonymous records");
            proof {
                assert(m@ =~= msg_anonymous_records());
            }
            return Err(Error { message: m });
        },
        FieldList::Unit => {
            let pattern = String::new();
            let mut ret = String::new();
            ret.append("()");
            let mut ret_type = String::new();
            ret_type.append("()");
            proof {
                assert(pattern@ =~= spec_unwrap_pattern(vs@[cur as int].fields));
                assert(ret@ =~= spec_unwrap_ret(vs@[cur as int].fields));
                assert(ret_type@ =~= spec_unwrap_ret_type(vs@[cur as int].fields));
            }
            (pattern, ret, ret_type)
        },
        FieldList::Unnamed(fs) => {
            let binders = binders_join(fs.len());
            let mut pattern = String::new();
            pattern.append("(");
            pattern.append(binders.as_str());
            pattern.append(")");
            let mut ret = String::new();
            ret.append("(");
            ret.append(binders.as_str());
            ret.append(")");
            let tys = types_join(fs);
            let mut ret_type = String::new();
            ret_type.append("(");
            ret_type.append(tys.as_str());
            ret_type.append(")");
            proof {
                assert(pattern@ =~= spec_unwrap_pattern(vs@[cur as int].fields));
                assert(ret@ =~= spec_unwrap_ret(vs@[cur as int].fields));
                assert(ret_type@ =~= spec_unwrap_ret_type(vs@[cur as int].fields));
            }
            (pattern, ret, ret_type)
        },
    };
    let snake = to_snake_case(vs[cur].ident.as_str());
    let mut fn_name = String::new();
    fn_name.append("unwrap_");
    fn_name.append(snake.as_str());
    proof {
        assert(fn_name@ =~= spec_unwrap_fn_name(vs@[cur as int].ident@));
    }
    let others = other_arms(vs, cur, ename, fn_name.as_str());
    let mut quoted_ident = String::new();
    append_quoted(&mut quoted_ident, vs[cur].ident.as_str());
    proof {
        assert(quoted_ident@ =~= spec_quoted(vs@[cur as int].ident@));
    }
    let mut out = String::new();
    out.append("#[track_caller] #[doc = \"Unwraps this value to the `\"] #[doc = ");
    proof {
        assert(out@ =~= "#[track_caller] #[doc = \"Unwraps this value to the `\"] #[doc = "@);
    }
    out.append(quoted_ident.as_str());
    out.append("] #[doc = \"` variant\\n\\nPanics if this value is of any other type\"] pub fn ");
    out.append(fn_name.as_str());
    out.append("(self) -> ");
    out.append(ret_type.as_str());
    out.append(" { match self { ");
    out.append(ename);
    out.append("::");
    out.append(vs[cur].ident.as_str());
    out.append(pattern.as_str());
    out.append(" => ");
    out.append(ret.as_str());
    out.append(", ");
    out.append(others.as_str());
    out.append("} }");
    proof {
        assert(out@ == spec_unwrap_fn(vs@, cur as int, ename@)->Done_0);
    }
    Ok(out)
}

/// Expands the accessor derivation of one enum declaration.
#[verifier::loop_isolation(false)]
pub fn expand(input: &Input) -> (r: Result<String, Error>)
    ensures
        match r {
            Ok(s) => spec_unwrap_expand(*input) == TextResult::Done(s@),
            Err(e) => spec_unwrap_expand(*input) == TextResult::Fail(e.message@),
        },
{
    let vs: &Vec<Variant> = match &input.data {
        Data::Enum(vs) => vs,
        _ => {
            let mut m = String::new();
            m.append("Unwrap can only be derived for enums");
            proof {
                assert(m@ =~= msg_not_enum());
            }
            return Err(Error { message: m });
        },
    };
    let mut funcs = String::new();
    let n = vs.len();
    let mut i: usize = 0;
    while i < n
        invariant
            i <= n,
            spec_unwrap_fns(vs@, 0, input.ident@) == (match spec_unwrap_fns(
                vs@,
                i as int,
                input.ident@,
            ) {
                TextResult::Done(rest) => TextResult::Done(funcs@ + rest),
                TextResult::Fail(m) => TextResult::Fail(m),
            }),
        decreases n - i,
    {
        let f = match unwrap_fn(vs, i, input.ident.as_str()) {
            Ok(f) => f,
            Err(e) => {
                return Err(e);
            },
        };
        let ghost before = funcs@;
        funcs.append(f.as_str());
        funcs.append(" ");
        proof {
            assert(funcs@ =~= before + (f@ + " "@));
            match spec_unwrap_fns(vs@, i + 1, input.ident@) {
                TextResult::Done(rest1) => {
                    assert(before + ((f@ + " "@) + rest1) =~= funcs@ + rest1);
                },
                TextResult::Fail(_) => {},
            }
        }
        i += 1;
    }
    proof {
        assert(spec_unwrap_fns(vs@, n as int, input.ident@) == TextResult::Done(
            Seq::<char>::empty(),
        ));
        assert(funcs@ + Seq::<char>::empty() =~= funcs@);
    }
    let generics = generics_text(&input.type_params);
    let mut out = String::new();
    out.append("#[automatically_derived] impl");
    proof {
        assert(out@ =~= "#[automatically_derived] impl"@);
    }
    out.append(generics.as_str());
    out.append(" ");
    out.append(input.ident.as_str());
    out.append(generics.as_str());
    out.append(" { ");
    out.append(funcs.as_str());
    out.append("}");
    proof {
        assert(out@ == "#[automatically_derived] impl"@ + spec_generics_text(input.type_params@)
            + " "@ + input.ident@ + spec_generics_text(input.type_params@) + " { "@ + funcs@
            + "}"@);
    }
    Ok(out)
}

} // verus!
