//! The error-trait generator's field classification: which field of a
//! variant is the error's source, which supplies the captured backtrace,
//! and what the generated provider does.  An explicit `source` or
//! `backtrace` marker wins; `not(...)` suppresses a field; without any
//! explicit backtrace marker, a field named `backtrace` or typed as the
//! backtrace type is picked implicitly.  The generated provider hands out
//! the variant's own backtrace field when it has one, delegating to the
//! source's own provider when the two coincide, and forwarding the
//! source's other values besides its own backtrace when they differ.

use vstd::prelude::*;
use vstd::string::*;

use crate::text::str_eq;

verus! {

/// One field as the error-trait generator reads it.
pub struct ErrorField {
    /// The field's name; `None` in a tuple position.
    pub ident: Option<String>,
    /// Whether the field's type is the backtrace type itself.
    pub is_backtrace_type: bool,
    /// An explicit `source` (`Some(true)`) or `not(source)` (`Some(false)`)
    /// marker.
    pub source_attr: Option<bool>,
    /// An explicit `backtrace` or `not(backtrace)` marker.
    pub backtrace_attr: Option<bool>,
}

/// The fields of one variant.
pub struct ErrorShape {
    /// Whether the fields are named.
    pub named: bool,
    pub fields: Vec<ErrorField>,
}

/// Whether a field is explicitly marked as the source.
pub open spec fn explicit_source(f: ErrorField) -> bool {
    f.source_attr == Some(true)
}

/// Whether a field is implicitly the source by its name.
pub open spec fn named_source(f: ErrorField) -> bool {
    f.ident matches Some(id) && id@ == "source"@ && f.source_attr != Some(false)
}

/// Whether a field is explicitly marked as the backtrace.
pub open spec fn explicit_backtrace(f: ErrorField) -> bool {
    f.backtrace_attr == Some(true)
}

/// Whether a field is implicitly the backtrace: named `backtrace` or of
/// the backtrace type, and not suppressed.
pub open spec fn implicit_backtrace(f: ErrorField) -> bool {
    (f.is_backtrace_type || (f.ident matches Some(id) && id@ == "backtrace"@))
        && f.backtrace_attr != Some(false)
}

/// The first index at or after `i` whose field is explicitly the source.
pub open spec fn find_explicit_source(fs: Seq<ErrorField>, i: int) -> Option<int>
    decreases fs.len() - i
        when 0 <= i <= fs.len()
{
    if i >= fs.len() {
        None
    } else if explicit_source(fs[i]) {
        Some(i)
    } else {
        find_explicit_source(fs, i + 1)
    }
}

pub open spec fn find_named_source(fs: Seq<ErrorField>, i: int) -> Option<int>
    decreases fs.len() - i
        when 0 <= i <= fs.len()
{
    if i >= fs.len() {
        None
    } else if named_source(fs[i]) {
        Some(i)
    } else {
        find_named_source(fs, i + 1)
    }
}

pub open spec fn find_explicit_backtrace(fs: Seq<ErrorField>, i: int) -> Option<int>
    decreases fs.len() - i
        when 0 <= i <= fs.len()
{
    if i >= fs.len() {
        None
    } else if explicit_backtrace(fs[i]) {
        Some(i)
    } else {
        find_explicit_backtrace(fs, i + 1)
    }
}

pub open spec fn find_implicit_backtrace(fs: Seq<ErrorField>, i: int) -> Option<int>
    decreases fs.len() - i
        when 0 <= i <= fs.len()
{
    if i >= fs.len() {
        None
    } else if implicit_backtrace(fs[i]) {
        Some(i)
    } else {
        find_implicit_backtrace(fs, i + 1)
    }
}

/// The source field of one variant: the first explicitly marked field;
/// else, among named fields, the first field named `source` that is not
/// suppressed; else, a sole unnamed field that is not suppressed.
pub open spec fn spec_source_field(shape: ErrorShape) -> Option<int> {
    match find_explicit_source(shape.fields@, 0) {
        Some(i) => Some(i),
        None => if shape.named {
            find_named_source(shape.fields@, 0)
        } else if shape.fields@.len() == 1 && shape.fields@[0].source_attr != Some(false) {
            Some(0)
        } else {
            None
        },
    }
}

/// The backtrace field of one variant: the first explicitly marked field;
/// an explicit marker anywhere suppresses every implicit candidate.
pub open spec fn spec_backtrace_field(shape: ErrorShape) -> Option<int> {
    match find_explicit_backtrace(shape.fields@, 0) {
        Some(i) => Some(i),
        None => find_implicit_backtrace(shape.fields@, 0),
    }
}

/// What the generated provider does for one variant.
pub ghost enum SpecProvide {
    /// No backtrace field: the provider hands out nothing.
    Nothing,
    /// The backtrace field is the source itself: everything is delegated to
    /// the source's own provider.
    Delegate { source: int },
    /// Distinct backtrace and source fields: the variant's own backtrace is
    /// handed out first, the source's provider supplies the rest.
    OwnAndSource { backtrace: int, source: int },
    /// A backtrace field and no source: only the backtrace is handed out.
    Own { backtrace: int },
}

/// The provider plan of one variant.
pub open spec fn spec_provide_plan(shape: ErrorShape) -> SpecProvide {
    match spec_backtrace_field(shape) {
        None => SpecProvide::Nothing,
        Some(b) => match spec_source_field(shape) {
            None => SpecProvide::Own { backtrace: b },
            Some(s) => if s == b {
                SpecProvide::Delegate { source: s }
            } else {
                SpecProvide::OwnAndSource { backtrace: b, source: s }
            },
        },
    }
}

/// The provider plan, executable form.
pub enum Provide {
    Nothing,
    Delegate { source: usize },
    OwnAndSource { backtrace: usize, source: usize },
    Own { backtrace: usize },
}

impl View for Provide {
    type V = SpecProvide;

    open spec fn view(&self) -> SpecProvide {
        match self {
            Provide::Nothing => SpecProvide::Nothing,
            Provide::Delegate { source } => SpecProvide::Delegate { source: *source as int },
            Provide::OwnAndSource { backtrace, source } => SpecProvide::OwnAndSource {
                backtrace: *backtrace as int,
                source: *source as int,
            },
            Provide::Own { backtrace } => SpecProvide::Own { backtrace: *backtrace as int },
        }
    }
}

/// The view of an optional index.
pub open spec fn opt_index_view(r: Option<usize>) -> Option<int> {
    match r {
        Some(i) => Some(i as int),
        None => None,
    }
}

fn field_explicit_source(f: &ErrorField) -> (r: bool)
    ensures
        r == explicit_source(*f),
{
    match f.source_attr {
        Some(b) => b,
        None => false,
    }
}

fn field_named_source(f: &ErrorField) -> (r: bool)
    ensures
        r == named_source(*f),
{
    let name_matches = match &f.ident {
        Some(id) => str_eq(id.as_str(), "source"),
        None => false,
    };
    name_matches && !matches!(f.source_attr, Some(false))
}

fn field_explicit_backtrace(f: &ErrorField) -> (r: bool)
    ensures
        r == explicit_backtrace(*f),
{
    match f.backtrace_attr {
        Some(b) => b,
        None => false,
    }
}

fn field_implicit_backtrace(f: &ErrorField) -> (r: bool)
    ensures
        r == implicit_backtrace(*f),
{
    let name_matches = match &f.ident {
        Some(id) => str_eq(id.as_str(), "backtrace"),
        None => false,
    };
    (f.is_backtrace_type || name_matches) && !matches!(f.backtrace_attr, Some(false))
}

/// The source field of one variant.
#[verifier::loop_isolation(false)]
pub fn source_field(shape: &ErrorShape) -> (r: Option<usize>)
    ensures
        opt_index_view(r) == spec_source_field(*shape),
{
    let n = shape.fields.len();
    let mut i: usize = 0;
    while i < n
        invariant
            i <= n,
            find_explicit_source(shape.fields@, 0) == find_explicit_source(
                shape.fields@,
                i as int,
            ),
        decreases n - i,
    {
        if field_explicit_source(&shape.fields[i]) {
            return Some(i);
        }
        i += 1;
    }
    if shape.named {
        let mut k: usize = 0;
        while k < n
            invariant
                k <= n,
                find_named_source(shape.fields@, 0) == find_named_source(shape.fields@, k as int),
            decreases n - k,
        {
            if field_named_source(&shape.fields[k]) {
                return Some(k);
            }
            k += 1;
        }
        None
    } else if n == 1 && !matches!(shape.fields[0].source_attr, Some(false)) {
        Some(0)
    } else {
        None
    }
}

/// The backtrace field of one variant.
#[verifier::loop_isolation(false)]
pub fn backtrace_field(shape: &ErrorShape) -> (r: Option<usize>)
    ensures
        opt_index_view(r) == spec_backtrace_field(*shape),
{
    let n = shape.fields.len();
    let mut i: usize = 0;
    while i < n
        invariant
            i <= n,
            find_explicit_backtrace(shape.fields@, 0) == find_explicit_backtrace(
                shape.fields@,
                i as int,
            ),
        decreases n - i,
    {
        if field_explicit_backtrace(&shape.fields[i]) {
            return Some(i);
        }
        i += 1;
    }
    let mut k: usize = 0;
    while k < n
        invariant
            k <= n,
            find_implicit_backtrace(shape.fields@, 0) == find_implicit_backtrace(
                shape.fields@,
                k as int,
            ),
        decreases n - k,
    {
        if field_implicit_backtrace(&shape.fields[k]) {
            return Some(k);
        }
        k += 1;
    }
    None
}

/// The provider plan of one variant.
pub fn provide_plan(shape: &ErrorShape) -> (r: Provide)
    ensures
        r@ == spec_provide_plan(*shape),
{
    match backtrace_field(shape) {
        None => Provide::Nothing,
        Some(b) => match source_field(shape) {
            None => Provide::Own { backtrace: b },
            Some(s) => if s == b {
                Provide::Delegate { source: s }
            } else {
                Provide::OwnAndSource { backtrace: b, source: s }
            },
        },
    }
}

impl Provide {
    /// Whether the provider hands out a backtrace reference at all.
    pub fn provides_backtrace(&self) -> (r: bool)
        ensures
            r == !(self@ is Nothing),
    {
        !matches!(self, Provide::Nothing)
    }

    /// Whether the provider consults the source's own provider.
    pub fn forwards_source(&self) -> (r: bool)
        ensures
            r == (self@ is Delegate || self@ is OwnAndSource),
    {
        matches!(self, Provide::Delegate { .. } | Provide::OwnAndSource { .. })
    }

    /// The field whose backtrace the provider hands out: the variant's own
    /// backtrace field, or the source field when everything is delegated.
    pub fn backtrace_ref_field(&self) -> (r: Option<usize>)
        ensures
            opt_index_view(r) == (match self@ {
                SpecProvide::Nothing => None::<int>,
                SpecProvide::Delegate { source } => Some(source),
                SpecProvide::OwnAndSource { backtrace, source } => Some(backtrace),
                SpecProvide::Own { backtrace } => Some(backtrace),
            }),
    {
        match self {
            Provide::Nothing => None,
            Provide::Delegate { source } => Some(*source),
            Provide::OwnAndSource { backtrace, source } => Some(*backtrace),
            Provide::Own { backtrace } => Some(*backtrace),
        }
    }
}

} // verus!
