//! The format-string parser.
//!
//! A format string holds literal text, escaped brace pairs (`{{` and `}}`),
//! and placeholders (`{...}`).  Each placeholder names the argument it reads
//! (an explicit index, an explicit name, or the next implicit positional
//! slot), may name an argument supplying its width or precision, and selects
//! the formatting trait through the specifier after `:`.
//!
//! The grammar is given by the `scan_*` spec functions; `parse_fmt_string`
//! is the executable parser proved against them.  A string on which the
//! grammar fails yields no placeholders.  One deliberate restriction: a
//! brace is not accepted as a fill character, so a placeholder never holds
//! a `}` before its closing brace.

use vstd::prelude::*;
use vstd::string::*;

verus! {

// ---------------------------------------------------------------------------
// Placeholder model
// ---------------------------------------------------------------------------
/// A formatting argument reference: by position or by name.
pub enum Parameter {
    Positional(usize),
    Named(String),
}

/// The formatting trait a placeholder selects through its type specifier.
#[derive(Clone, Copy, PartialEq, Eq, Structural, Debug)]
pub enum FmtTrait {
    Display,
    Debug,
    Binary,
    Octal,
    LowerHex,
    UpperHex,
    LowerExp,
    UpperExp,
    Pointer,
}

/// One parsed placeholder.
pub struct Placeholder {
    /// The argument this placeholder reads.
    pub arg: Parameter,
    /// The argument supplying the field width, if the width is a parameter.
    pub width: Option<Parameter>,
    /// The argument supplying the precision, if the precision is a parameter.
    pub precision: Option<Parameter>,
    /// The trait that renders this placeholder.
    pub trait_name: FmtTrait,
}

/// Mathematical form of a `Parameter`.
pub ghost enum SpecParameter {
    Positional(nat),
    Named(Seq<char>),
}

/// Mathematical form of a `Placeholder`.
pub ghost struct SpecPlaceholder {
    pub arg: SpecParameter,
    pub width: Option<SpecParameter>,
    pub precision: Option<SpecParameter>,
    pub trait_name: FmtTrait,
}

/// The name of one formatting trait.
pub open spec fn spec_fmt_trait_name(t: FmtTrait) -> Seq<char> {
    match t {
        FmtTrait::Display => "Display"@,
        FmtTrait::Debug => "Debug"@,
        FmtTrait::Binary => "Binary"@,
        FmtTrait::Octal => "Octal"@,
        FmtTrait::LowerHex => "LowerHex"@,
        FmtTrait::UpperHex => "UpperHex"@,
        FmtTrait::LowerExp => "LowerExp"@,
        FmtTrait::UpperExp => "UpperExp"@,
        FmtTrait::Pointer => "Pointer"@,
    }
}

impl FmtTrait {
    /// The trait's name.
    pub fn name(&self) -> (r: &'static str)
        ensures
            r@ == spec_fmt_trait_name(*self),
    {
        match self {
            FmtTrait::Display => "Display",
            FmtTrait::Debug => "Debug",
            FmtTrait::Binary => "Binary",
            FmtTrait::Octal => "Octal",
            FmtTrait::LowerHex => "LowerHex",
            FmtTrait::UpperHex => "UpperHex",
            FmtTrait::LowerExp => "LowerExp",
            FmtTrait::UpperExp => "UpperExp",
            FmtTrait::Pointer => "Pointer",
        }
    }
}

impl View for Parameter {
    type V = SpecParameter;

    open spec fn view(&self) -> SpecParameter {
        match self {
            Parameter::Positional(n) => SpecParameter::Positional(*n as nat),
            Parameter::Named(s) => SpecParameter::Named(s@),
        }
    }
}

/// The view of an optional parameter.
pub open spec fn opt_param_view(p: Option<Parameter>) -> Option<SpecParameter> {
    match p {
        Some(q) => Some(q@),
        None => None,
    }
}

impl View for Placeholder {
    type V = SpecPlaceholder;

    open spec fn view(&self) -> SpecPlaceholder {
        SpecPlaceholder {
            arg: self.arg@,
            width: opt_param_view(self.width),
            precision: opt_param_view(self.precision),
            trait_name: self.trait_name,
        }
    }
}

// ---------------------------------------------------------------------------
// Character classes
// ---------------------------------------------------------------------------
pub open spec fn is_digit(c: char) -> bool {
    '0' as u32 <= c as u32 && c as u32 <= '9' as u32
}

pub open spec fn digit_val(c: char) -> nat {
    (c as u32 - '0' as u32) as nat
}

pub open spec fn is_ident_start(c: char) -> bool {
    ('a' as u32 <= c as u32 && c as u32 <= 'z' as u32) || ('A' as u32 <= c as u32 && c as u32
        <= 'Z' as u32) || c == '_'
}

pub open spec fn is_ident_cont(c: char) -> bool {
    is_ident_start(c) || is_digit(c)
}

pub open spec fn is_align(c: char) -> bool {
    c == '<' || c == '^' || c == '>'
}

// ---------------------------------------------------------------------------
// Token runs
// ---------------------------------------------------------------------------
/// The index just past the run of decimal digits starting at `i`.
pub open spec fn digits_end(s: Seq<char>, i: int) -> int
    decreases s.len() - i
        when 0 <= i <= s.len()
{
    if i < s.len() && is_digit(s[i]) {
        digits_end(s, i + 1)
    } else {
        i
    }
}

/// The index just past the run of identifier characters starting at `i`.
pub open spec fn ident_end(s: Seq<char>, i: int) -> int
    decreases s.len() - i
        when 0 <= i <= s.len()
{
    if i < s.len() && is_ident_cont(s[i]) {
        ident_end(s, i + 1)
    } else {
        i
    }
}

/// The value of the decimal digits `s[i..j)`.
pub open spec fn digits_value(s: Seq<char>, i: int, j: int) -> nat
    decreases j - i
        when i <= j
{
    if i >= j {
        0
    } else {
        digits_value(s, i, j - 1) * 10 + digit_val(s[j - 1])
    }
}

pub proof fn lemma_digits_end_bounds(s: Seq<char>, i: int)
    requires
        0 <= i <= s.len(),
    ensures
        i <= digits_end(s, i) <= s.len(),
    decreases s.len() - i,
{
    if i < s.len() && is_digit(s[i]) {
        lemma_digits_end_bounds(s, i + 1);
    }
}

pub proof fn lemma_ident_end_bounds(s: Seq<char>, i: int)
    requires
        0 <= i <= s.len(),
    ensures
        i <= ident_end(s, i) <= s.len(),
    decreases s.len() - i,
{
    if i < s.len() && is_ident_cont(s[i]) {
        lemma_ident_end_bounds(s, i + 1);
    }
}

/// A longer digit run never has a smaller value.
pub proof fn lemma_digits_value_grows(s: Seq<char>, i: int, k: int, j: int)
    requires
        i <= k <= j,
    ensures
        digits_value(s, i, j) >= digits_value(s, i, k),
    decreases j - k,
{
    if k < j {
        lemma_digits_value_grows(s, i, k, j - 1);
    }
}

// ---------------------------------------------------------------------------
// Placeholder grammar
// ---------------------------------------------------------------------------
/// An argument reference: a decimal index or an identifier.  A digit run
/// whose value does not fit in `usize` is not a recognized argument.
pub open spec fn scan_argument(s: Seq<char>, i: int) -> Option<(SpecParameter, int)>
    recommends
        0 <= i <= s.len(),
{
    if i < s.len() && is_digit(s[i]) {
        let j = digits_end(s, i);
        if digits_value(s, i, j) <= usize::MAX as nat {
            Some((SpecParameter::Positional(digits_value(s, i, j)), j))
        } else {
            None
        }
    } else if i < s.len() && is_ident_start(s[i]) {
        Some((SpecParameter::Named(s.subrange(i, ident_end(s, i))), ident_end(s, i)))
    } else {
        None
    }
}

/// A count: a parameter (`arg$`), a literal integer, or nothing.  Only a
/// parameter count surfaces as a width or precision reference.
pub open spec fn scan_count(s: Seq<char>, i: int) -> (Option<SpecParameter>, int)
    recommends
        0 <= i <= s.len(),
{
    match scan_argument(s, i) {
        Some((p, j)) => {
            if j < s.len() && s[j] == '$' {
                (Some(p), j + 1)
            } else if i < s.len() && is_digit(s[i]) {
                (None, digits_end(s, i))
            } else {
                (None, i)
            }
        },
        None => {
            if i < s.len() && is_digit(s[i]) {
                (None, digits_end(s, i))
            } else {
                (None, i)
            }
        },
    }
}

/// The width position: a leading `0` is the zero flag unless followed by
/// `$`, in which case it is the width parameter with index zero.
pub open spec fn scan_width(s: Seq<char>, i: int) -> (Option<SpecParameter>, int)
    recommends
        0 <= i <= s.len(),
{
    if i < s.len() && s[i] == '0' {
        if i + 1 < s.len() && s[i + 1] == '$' {
            (Some(SpecParameter::Positional(0)), i + 2)
        } else {
            scan_count(s, i + 1)
        }
    } else {
        scan_count(s, i)
    }
}

/// The precision after `.`: `*` or a count.
pub open spec fn scan_precision(s: Seq<char>, i: int) -> (Option<SpecParameter>, int)
    recommends
        0 <= i <= s.len(),
{
    if i < s.len() && s[i] == '.' {
        if i + 1 < s.len() && s[i + 1] == '*' {
            (None, i + 2)
        } else {
            scan_count(s, i + 1)
        }
    } else {
        (None, i)
    }
}

/// The type specifier selecting the formatting trait.  An empty specifier
/// (the closing brace follows at once) selects `Display`.
pub open spec fn scan_type(s: Seq<char>, i: int) -> Option<(FmtTrait, int)>
    recommends
        0 <= i <= s.len(),
{
    if i < s.len() && s[i] == '}' {
        Some((FmtTrait::Display, i))
    } else if i < s.len() && s[i] == '?' {
        Some((FmtTrait::Debug, i + 1))
    } else if i + 1 < s.len() && (s[i] == 'x' || s[i] == 'X') && s[i + 1] == '?' {
        Some((FmtTrait::Debug, i + 2))
    } else if i < s.len() && s[i] == 'x' {
        Some((FmtTrait::LowerHex, i + 1))
    } else if i < s.len() && s[i] == 'X' {
        Some((FmtTrait::UpperHex, i + 1))
    } else if i < s.len() && s[i] == 'o' {
        Some((FmtTrait::Octal, i + 1))
    } else if i < s.len() && s[i] == 'b' {
        Some((FmtTrait::Binary, i + 1))
    } else if i < s.len() && s[i] == 'e' {
        Some((FmtTrait::LowerExp, i + 1))
    } else if i < s.len() && s[i] == 'E' {
        Some((FmtTrait::UpperExp, i + 1))
    } else if i < s.len() && s[i] == 'p' {
        Some((FmtTrait::Pointer, i + 1))
    } else {
        None
    }
}

/// The index after the optional fill-and-align pair.  A fill character may
/// be anything but a brace and must be followed by an alignment character.
pub open spec fn after_fill_align(s: Seq<char>, i: int) -> int
    recommends
        0 <= i <= s.len(),
{
    if i + 1 < s.len() && is_align(s[i + 1]) && s[i] != '{' && s[i] != '}' {
        i + 2
    } else if i < s.len() && is_align(s[i]) {
        i + 1
    } else {
        i
    }
}

pub open spec fn after_sign(s: Seq<char>, i: int) -> int
    recommends
        0 <= i <= s.len(),
{
    if i < s.len() && (s[i] == '+' || s[i] == '-') {
        i + 1
    } else {
        i
    }
}

pub open spec fn after_hash(s: Seq<char>, i: int) -> int
    recommends
        0 <= i <= s.len(),
{
    if i < s.len() && s[i] == '#' {
        i + 1
    } else {
        i
    }
}

/// What a format specifier contributes to the placeholder.
pub ghost struct SpecFSpec {
    pub width: Option<SpecParameter>,
    pub precision: Option<SpecParameter>,
    pub ty: FmtTrait,
}

/// The format specifier after `:`, up to but not past the closing brace.
pub open spec fn scan_fspec(s: Seq<char>, i: int) -> Option<(SpecFSpec, int)>
    recommends
        0 <= i <= s.len(),
{
    let i1 = after_fill_align(s, i);
    let i2 = after_sign(s, i1);
    let i3 = after_hash(s, i2);
    let wr = scan_width(s, i3);
    let pr = scan_precision(s, wr.1);
    match scan_type(s, pr.1) {
        Some((t, j)) => Some((SpecFSpec { width: wr.0, precision: pr.0, ty: t }, j)),
        None => None,
    }
}

/// The interior of one placeholder, starting just after `{`; the returned
/// index is just past the closing `}`.  The argument is `None` when the
/// placeholder leaves its primary argument implicit.
pub open spec fn scan_placeholder(s: Seq<char>, i: int) -> Option<
    ((Option<SpecParameter>, SpecFSpec), int),
>
    recommends
        0 <= i <= s.len(),
{
    let (arg, j) = match scan_argument(s, i) {
        Some((p, j)) => (Some(p), j),
        None => (None, i),
    };
    if j < s.len() && s[j] == ':' {
        match scan_fspec(s, j + 1) {
            Some((fs, k)) => {
                if k < s.len() && s[k] == '}' {
                    Some(((arg, fs), k + 1))
                } else {
                    None
                }
            },
            None => None,
        }
    } else if j < s.len() && s[j] == '}' {
        Some(
            (
                (arg, SpecFSpec { width: None, precision: None, ty: FmtTrait::Display }),
                j + 1,
            ),
        )
    } else {
        None
    }
}

pub proof fn lemma_scan_argument_bounds(s: Seq<char>, i: int)
    requires
        0 <= i <= s.len(),
    ensures
        scan_argument(s, i) matches Some(r) ==> i < r.1 <= s.len(),
{
    if i < s.len() && is_digit(s[i]) {
        lemma_digits_end_bounds(s, i + 1);
        assert(digits_end(s, i) == digits_end(s, i + 1));
    } else if i < s.len() && is_ident_start(s[i]) {
        lemma_ident_end_bounds(s, i + 1);
        assert(ident_end(s, i) == ident_end(s, i + 1));
    }
}

pub proof fn lemma_scan_count_bounds(s: Seq<char>, i: int)
    requires
        0 <= i <= s.len(),
    ensures
        i <= scan_count(s, i).1 <= s.len(),
{
    lemma_scan_argument_bounds(s, i);
    if i < s.len() && is_digit(s[i]) {
        lemma_digits_end_bounds(s, i);
    }
}

pub proof fn lemma_scan_width_bounds(s: Seq<char>, i: int)
    requires
        0 <= i <= s.len(),
    ensures
        i <= scan_width(s, i).1 <= s.len(),
{
    lemma_scan_count_bounds(s, i);
    if i < s.len() {
        lemma_scan_count_bounds(s, i + 1);
    }
}

pub proof fn lemma_scan_precision_bounds(s: Seq<char>, i: int)
    requires
        0 <= i <= s.len(),
    ensures
        i <= scan_precision(s, i).1 <= s.len(),
{
    lemma_scan_count_bounds(s, i);
    if i < s.len() {
        lemma_scan_count_bounds(s, i + 1);
    }
}

pub proof fn lemma_scan_fspec_bounds(s: Seq<char>, i: int)
    requires
        0 <= i <= s.len(),
    ensures
        scan_fspec(s, i) matches Some(r) ==> i <= r.1 <= s.len(),
{
    let i1 = after_fill_align(s, i);
    let i2 = after_sign(s, i1);
    let i3 = after_hash(s, i2);
    lemma_scan_width_bounds(s, i3);
    let wr = scan_width(s, i3);
    lemma_scan_precision_bounds(s, wr.1);
}

pub proof fn lemma_scan_placeholder_bounds(s: Seq<char>, i: int)
    requires
        0 <= i <= s.len(),
    ensures
        scan_placeholder(s, i) matches Some(r) ==> i < r.1 <= s.len(),
{
    lemma_scan_argument_bounds(s, i);
    let j = match scan_argument(s, i) {
        Some((p, j)) => j,
        None => i,
    };
    if j < s.len() && s[j] == ':' {
        lemma_scan_fspec_bounds(s, j + 1);
    }
}

// ---------------------------------------------------------------------------
// Whole-string scan
// ---------------------------------------------------------------------------
/// The scan of a whole format string from index `i` with next implicit
/// positional index `n`.  `None` means the string is not well formed.  Each
/// recognized placeholder is paired with a flag saying whether its primary
/// argument was implicit.
pub open spec fn scan_string(s: Seq<char>, i: int, n: nat) -> Option<Seq<(SpecPlaceholder, bool)>>
    decreases s.len() - i
        when 0 <= i <= s.len()
{
    if i >= s.len() {
        Some(Seq::empty())
    } else if s[i] == '{' && i + 1 < s.len() && s[i + 1] == '{' {
        scan_string(s, i + 2, n)
    } else if s[i] == '}' && i + 1 < s.len() && s[i + 1] == '}' {
        scan_string(s, i + 2, n)
    } else if s[i] == '{' {
        match scan_placeholder(s, i + 1) {
            Some(((arg, fs), j)) => {
                let implicit = arg is None;
                let ph = SpecPlaceholder {
                    arg: match arg {
                        Some(p) => p,
                        None => SpecParameter::Positional(n),
                    },
                    width: fs.width,
                    precision: fs.precision,
                    trait_name: fs.ty,
                };
                let n2 = if implicit {
                    n + 1
                } else {
                    n
                };
                if i < j <= s.len() {
                    match scan_string(s, j, n2) {
                        Some(rest) => Some(seq![(ph, implicit)] + rest),
                        None => None,
                    }
                } else {
                    None
                }
            },
            None => None,
        }
    } else if s[i] == '}' {
        None
    } else {
        scan_string(s, i + 1, n)
    }
}

/// Whether the whole string matches the format grammar.
pub open spec fn wf_fmt_string(s: Seq<char>) -> bool {
    scan_string(s, 0, 0) is Some
}

/// The placeholders of `s` paired with their implicit-argument flags;
/// empty when `s` is not well formed.
pub open spec fn spec_placeholders_flagged(s: Seq<char>) -> Seq<(SpecPlaceholder, bool)> {
    if wf_fmt_string(s) {
        scan_string(s, 0, 0)->Some_0
    } else {
        Seq::empty()
    }
}

/// The views of a sequence of placeholders.
pub open spec fn views_of(ps: Seq<Placeholder>) -> Seq<SpecPlaceholder> {
    ps.map_values(|p: Placeholder| p@)
}

/// The placeholders of a flagged sequence, flags dropped.
pub open spec fn firsts_of(ps: Seq<(SpecPlaceholder, bool)>) -> Seq<SpecPlaceholder> {
    ps.map_values(|pf: (SpecPlaceholder, bool)| pf.0)
}

/// The placeholders of `s`, in order of appearance.
pub open spec fn spec_placeholders(s: Seq<char>) -> Seq<SpecPlaceholder> {
    firsts_of(spec_placeholders_flagged(s))
}

/// Whether `s` is one plain identifier.
pub open spec fn spec_is_identifier(s: Seq<char>) -> bool {
    s.len() > 0 && is_ident_start(s[0]) && (forall|k: int| 0 <= k < s.len() ==> is_ident_cont(s[k]))
}

/// Whether a string is one plain identifier.
pub fn is_identifier(s: &str) -> (b: bool)
    ensures
        b == spec_is_identifier(s@),
{
    let len = s.unicode_len();
    if len == 0 {
        return false;
    }
    let c0 = s.get_char(0);
    if !(('a' as u32 <= c0 as u32 && c0 as u32 <= 'z' as u32) || ('A' as u32 <= c0 as u32 && c0
        as u32 <= 'Z' as u32) || c0 == '_') {
        return false;
    }
    let mut k: usize = 1;
    while k < len
        invariant
            1 <= k <= len,
            len == s@.len(),
            is_ident_start(s@[0]),
            forall|j: int| 0 <= j < k ==> is_ident_cont(s@[j]),
        decreases len - k,
    {
        let c = s.get_char(k);
        let cont = (('a' as u32 <= c as u32 && c as u32 <= 'z' as u32) || ('A' as u32 <= c as u32
            && c as u32 <= 'Z' as u32) || c == '_') || ('0' as u32 <= c as u32 && c as u32
            <= '9' as u32);
        if !cont {
            return false;
        }
        k += 1;
    }
    true
}

// ---------------------------------------------------------------------------
// Laws of the scan
// ---------------------------------------------------------------------------
/// The index of the first `}` at or after `i`, or the length when none.
pub open spec fn rbrace_at(s: Seq<char>, i: int) -> int
    decreases s.len() - i
        when 0 <= i <= s.len()
{
    if i >= s.len() {
        i
    } else if s[i] == '}' {
        i
    } else {
        rbrace_at(s, i + 1)
    }
}

/// The number of unescaped `{...}` groups of `s` from index `i` on: an
/// unescaped `{` opens a group that runs to the next `}`.
pub open spec fn n_groups(s: Seq<char>, i: int) -> nat
    decreases s.len() - i
        when 0 <= i <= s.len()
{
    if i >= s.len() {
        0
    } else if s[i] == '{' && i + 1 < s.len() && s[i + 1] == '{' {
        n_groups(s, i + 2)
    } else if s[i] == '}' && i + 1 < s.len() && s[i + 1] == '}' {
        n_groups(s, i + 2)
    } else if s[i] == '{' {
        let j = rbrace_at(s, i + 1);
        if i < j < s.len() {
            1 + n_groups(s, j + 1)
        } else {
            1
        }
    } else {
        n_groups(s, i + 1)
    }
}

proof fn lemma_rbrace_bounds(s: Seq<char>, i: int)
    requires
        0 <= i <= s.len(),
    ensures
        i <= rbrace_at(s, i) <= s.len(),
        rbrace_at(s, i) < s.len() ==> s[rbrace_at(s, i)] == '}',
        forall|k: int| i <= k < rbrace_at(s, i) ==> s[k] != '}',
    decreases s.len() - i,
{
    if i < s.len() && s[i] != '}' {
        lemma_rbrace_bounds(s, i + 1);
    }
}

/// Skipping characters before the first `}` does not change where it is.
proof fn lemma_rbrace_skip(s: Seq<char>, a: int, b: int)
    requires
        0 <= a <= b <= s.len(),
        b <= rbrace_at(s, a),
    ensures
        rbrace_at(s, b) == rbrace_at(s, a),
    decreases b - a,
{
    lemma_rbrace_bounds(s, a);
    if a < b {
        lemma_rbrace_skip(s, a + 1, b);
    }
}

proof fn lemma_digits_before_rbrace(s: Seq<char>, i: int)
    requires
        0 <= i <= s.len(),
    ensures
        digits_end(s, i) <= rbrace_at(s, i),
    decreases s.len() - i,
{
    lemma_rbrace_bounds(s, i);
    if i < s.len() && is_digit(s[i]) {
        assert(s[i] != '}');
        lemma_digits_before_rbrace(s, i + 1);
    }
}

proof fn lemma_ident_before_rbrace(s: Seq<char>, i: int)
    requires
        0 <= i <= s.len(),
    ensures
        ident_end(s, i) <= rbrace_at(s, i),
    decreases s.len() - i,
{
    lemma_rbrace_bounds(s, i);
    if i < s.len() && is_ident_cont(s[i]) {
        assert(s[i] != '}');
        lemma_ident_before_rbrace(s, i + 1);
    }
}

proof fn lemma_argument_before_rbrace(s: Seq<char>, i: int)
    requires
        0 <= i <= s.len(),
    ensures
        scan_argument(s, i) matches Some(r) ==> r.1 <= rbrace_at(s, i),
{
    lemma_digits_before_rbrace(s, i);
    lemma_ident_before_rbrace(s, i);
}

proof fn lemma_count_before_rbrace(s: Seq<char>, i: int)
    requires
        0 <= i <= s.len(),
    ensures
        scan_count(s, i).1 <= rbrace_at(s, i),
{
    lemma_rbrace_bounds(s, i);
    lemma_argument_before_rbrace(s, i);
    lemma_digits_before_rbrace(s, i);
    lemma_scan_argument_bounds(s, i);
    match scan_argument(s, i) {
        Some((p, j)) => {
            if j < s.len() && s[j] == '$' {
                lemma_rbrace_skip(s, i, j);
                lemma_rbrace_bounds(s, j);
            }
        },
        None => {},
    }
}

proof fn lemma_width_before_rbrace(s: Seq<char>, i: int)
    requires
        0 <= i <= s.len(),
    ensures
        scan_width(s, i).1 <= rbrace_at(s, i),
{
    lemma_rbrace_bounds(s, i);
    lemma_count_before_rbrace(s, i);
    if i < s.len() && s[i] == '0' {
        assert(rbrace_at(s, i) >= i + 1);
        lemma_rbrace_skip(s, i, i + 1);
        lemma_count_before_rbrace(s, i + 1);
        if i + 1 < s.len() && s[i + 1] == '$' {
            lemma_rbrace_bounds(s, i + 1);
        }
    }
}

proof fn lemma_precision_before_rbrace(s: Seq<char>, i: int)
    requires
        0 <= i <= s.len(),
    ensures
        scan_precision(s, i).1 <= rbrace_at(s, i),
{
    lemma_rbrace_bounds(s, i);
    if i < s.len() && s[i] == '.' {
        assert(rbrace_at(s, i) >= i + 1);
        lemma_rbrace_skip(s, i, i + 1);
        lemma_count_before_rbrace(s, i + 1);
        if i + 1 < s.len() && s[i + 1] == '*' {
            lemma_rbrace_bounds(s, i + 1);
        }
    }
}

proof fn lemma_type_before_rbrace(s: Seq<char>, i: int)
    requires
        0 <= i <= s.len(),
    ensures
        scan_type(s, i) matches Some(r) ==> r.1 <= rbrace_at(s, i),
{
    lemma_rbrace_bounds(s, i);
    if i < s.len() && s[i] != '}' {
        lemma_rbrace_bounds(s, i + 1);
        lemma_rbrace_skip(s, i, i + 1);
    }
}

proof fn lemma_fspec_before_rbrace(s: Seq<char>, i: int)
    requires
        0 <= i <= s.len(),
    ensures
        scan_fspec(s, i) matches Some(r) ==> r.1 <= rbrace_at(s, i),
{
    lemma_rbrace_bounds(s, i);
    let i1 = after_fill_align(s, i);
    let i2 = after_sign(s, i1);
    let i3 = after_hash(s, i2);
    assert(i1 <= rbrace_at(s, i));
    lemma_rbrace_skip(s, i, i1);
    assert(i2 <= rbrace_at(s, i1)) by {
        lemma_rbrace_bounds(s, i1);
    }
    lemma_rbrace_skip(s, i1, i2);
    assert(i3 <= rbrace_at(s, i2)) by {
        lemma_rbrace_bounds(s, i2);
    }
    lemma_rbrace_skip(s, i2, i3);
    lemma_width_before_rbrace(s, i3);
    let wr = scan_width(s, i3);
    lemma_scan_width_bounds(s, i3);
    lemma_rbrace_skip(s, i3, wr.1);
    lemma_precision_before_rbrace(s, wr.1);
    let pr = scan_precision(s, wr.1);
    lemma_scan_precision_bounds(s, wr.1);
    lemma_rbrace_skip(s, wr.1, pr.1);
    lemma_type_before_rbrace(s, pr.1);
}

/// A recognized placeholder ends just past the first `}` after it begins.
proof fn lemma_placeholder_extent(s: Seq<char>, i: int)
    requires
        0 <= i <= s.len(),
        scan_placeholder(s, i) is Some,
    ensures
        scan_placeholder(s, i)->Some_0.1 == rbrace_at(s, i) + 1,
        rbrace_at(s, i) < s.len(),
{
    lemma_rbrace_bounds(s, i);
    lemma_argument_before_rbrace(s, i);
    lemma_scan_argument_bounds(s, i);
    let j = match scan_argument(s, i) {
        Some((p, j)) => j,
        None => i,
    };
    lemma_rbrace_skip(s, i, j);
    lemma_rbrace_bounds(s, j);
    if j < s.len() && s[j] == ':' {
        lemma_rbrace_skip(s, j, j + 1);
        lemma_fspec_before_rbrace(s, j + 1);
        lemma_scan_fspec_bounds(s, j + 1);
        let k = scan_fspec(s, j + 1)->Some_0.1;
        lemma_rbrace_skip(s, j + 1, k);
        lemma_rbrace_bounds(s, k);
    }
}

proof fn lemma_count_groups_from(s: Seq<char>, i: int, n: nat)
    requires
        0 <= i <= s.len(),
        scan_string(s, i, n) is Some,
    ensures
        scan_string(s, i, n)->Some_0.len() == n_groups(s, i),
    decreases s.len() - i,
{
    if i >= s.len() {
    } else if s[i] == '{' && i + 1 < s.len() && s[i + 1] == '{' {
        lemma_count_groups_from(s, i + 2, n);
    } else if s[i] == '}' && i + 1 < s.len() && s[i + 1] == '}' {
        lemma_count_groups_from(s, i + 2, n);
    } else if s[i] == '{' {
        lemma_placeholder_extent(s, i + 1);
        lemma_scan_placeholder_bounds(s, i + 1);
        let j = scan_placeholder(s, i + 1)->Some_0.1;
        let implicit = scan_placeholder(s, i + 1)->Some_0.0.0 is None;
        let n2 = if implicit {
            n + 1
        } else {
            n
        };
        lemma_count_groups_from(s, j, n2);
        let rest = scan_string(s, j, n2)->Some_0;
        assert(scan_string(s, i, n)->Some_0.len() == 1 + rest.len());
        assert(rbrace_at(s, i + 1) < s.len());
        assert(n_groups(s, i) == 1 + n_groups(s, j));
    } else if s[i] == '}' {
        assert(false);
    } else {
        lemma_count_groups_from(s, i + 1, n);
    }
}

/// Law: a well-formed format string yields exactly one placeholder per
/// unescaped `{...}` group; escaped `{{` and `}}` pairs yield none.
pub proof fn lemma_placeholder_count(s: Seq<char>)
    requires
        wf_fmt_string(s),
    ensures
        spec_placeholders(s).len() == n_groups(s, 0),
{
    lemma_count_groups_from(s, 0, 0);
}

/// Law: a format string without braces is well formed and yields no
/// placeholders.
pub proof fn lemma_plain_text(s: Seq<char>, i: int)
    requires
        0 <= i <= s.len(),
        forall|k: int| i <= k < s.len() ==> s[k] != '{' && s[k] != '}',
    ensures
        scan_string(s, i, 0) == Some(Seq::<(SpecPlaceholder, bool)>::empty()),
    decreases s.len() - i,
{
    if i < s.len() {
        lemma_plain_text(s, i + 1);
    }
}

/// Law: a well-formed format string containing no unescaped placeholder
/// group parses to the empty placeholder sequence.
pub proof fn lemma_no_groups_no_placeholders(s: Seq<char>)
    requires
        wf_fmt_string(s),
        n_groups(s, 0) == 0,
    ensures
        spec_placeholders(s) == Seq::<SpecPlaceholder>::empty(),
{
    lemma_placeholder_count(s);
    assert(spec_placeholders(s) =~= Seq::<SpecPlaceholder>::empty());
}

/// How many placeholders of `ps` are implicitly numbered.
pub open spec fn n_implicit(ps: Seq<(SpecPlaceholder, bool)>) -> nat
    decreases ps.len(),
{
    if ps.len() == 0 {
        0
    } else {
        (if ps[0].1 {
            1nat
        } else {
            0nat
        }) + n_implicit(ps.subrange(1, ps.len() as int))
    }
}

proof fn lemma_n_implicit_cons(h: (SpecPlaceholder, bool), t: Seq<(SpecPlaceholder, bool)>)
    ensures
        n_implicit(seq![h] + t) == (if h.1 {
            1nat
        } else {
            0nat
        }) + n_implicit(t),
{
    let ps = seq![h] + t;
    assert(ps[0] == h);
    assert(ps.subrange(1, ps.len() as int) =~= t);
}

proof fn lemma_implicit_indices_from(s: Seq<char>, i: int, n: nat)
    requires
        0 <= i <= s.len(),
        scan_string(s, i, n) is Some,
    ensures
        forall|k: int|
            0 <= k < scan_string(s, i, n)->Some_0.len() && scan_string(s, i, n)->Some_0[k].1
                ==> scan_string(s, i, n)->Some_0[k].0.arg == SpecParameter::Positional(
                n + n_implicit(scan_string(s, i, n)->Some_0.subrange(0, k)),
            ),
    decreases s.len() - i,
{
    let ps = scan_string(s, i, n)->Some_0;
    if i >= s.len() {
    } else if s[i] == '{' && i + 1 < s.len() && s[i + 1] == '{' {
        lemma_implicit_indices_from(s, i + 2, n);
    } else if s[i] == '}' && i + 1 < s.len() && s[i + 1] == '}' {
        lemma_implicit_indices_from(s, i + 2, n);
    } else if s[i] == '{' {
        lemma_scan_placeholder_bounds(s, i + 1);
        let r = scan_placeholder(s, i + 1)->Some_0;
        let j = r.1;
        let implicit = r.0.0 is None;
        let n2 = if implicit {
            n + 1
        } else {
            n
        };
        lemma_implicit_indices_from(s, j, n2);
        let rest = scan_string(s, j, n2)->Some_0;
        let head = ps[0];
        assert(ps =~= seq![head] + rest);
        assert forall|k: int| 0 <= k < ps.len() && ps[k].1 implies ps[k].0.arg
            == SpecParameter::Positional(n + n_implicit(ps.subrange(0, k))) by {
            if k == 0 {
                assert(ps.subrange(0, 0) =~= Seq::<(SpecPlaceholder, bool)>::empty());
            } else {
                assert(ps[k] == rest[k - 1]);
                assert(ps.subrange(0, k) =~= seq![head] + rest.subrange(0, k - 1));
                lemma_n_implicit_cons(head, rest.subrange(0, k - 1));
                assert(head.1 == implicit);
            }
        }
    } else {
        lemma_implicit_indices_from(s, i + 1, n);
    }
}

/// Law: within one parse, implicit positional numbering starts at zero and
/// advances by one for each placeholder that leaves its argument implicit;
/// explicitly indexed or named placeholders neither consume nor disturb the
/// implicit counter.
pub proof fn lemma_implicit_numbering(s: Seq<char>)
    requires
        wf_fmt_string(s),
    ensures
        forall|k: int|
            0 <= k < spec_placeholders_flagged(s).len() && spec_placeholders_flagged(s)[k].1
                ==> spec_placeholders_flagged(s)[k].0.arg == SpecParameter::Positional(
                n_implicit(spec_placeholders_flagged(s).subrange(0, k)),
            ),
{
    lemma_implicit_indices_from(s, 0, 0);
}

proof fn lemma_n_implicit_snoc(ps: Seq<(SpecPlaceholder, bool)>, k: int)
    requires
        0 <= k < ps.len(),
    ensures
        n_implicit(ps.subrange(0, k + 1)) == n_implicit(ps.subrange(0, k)) + (if ps[k].1 {
            1nat
        } else {
            0nat
        }),
    decreases k,
{
    if k == 0 {
        assert(ps.subrange(0, 1) =~= seq![ps[0]] + Seq::<(SpecPlaceholder, bool)>::empty());
        lemma_n_implicit_cons(ps[0], Seq::<(SpecPlaceholder, bool)>::empty());
        assert(ps.subrange(0, 0) =~= Seq::<(SpecPlaceholder, bool)>::empty());
    } else {
        let t = ps.subrange(1, ps.len() as int);
        lemma_n_implicit_snoc(t, k - 1);
        assert(ps.subrange(0, k + 1) =~= seq![ps[0]] + t.subrange(0, k));
        assert(ps.subrange(0, k) =~= seq![ps[0]] + t.subrange(0, k - 1));
        lemma_n_implicit_cons(ps[0], t.subrange(0, k));
        lemma_n_implicit_cons(ps[0], t.subrange(0, k - 1));
        assert(t[k - 1] == ps[k]);
    }
}

proof fn lemma_n_implicit_mono(ps: Seq<(SpecPlaceholder, bool)>, a: int, b: int)
    requires
        0 <= a <= b <= ps.len(),
    ensures
        n_implicit(ps.subrange(0, a)) <= n_implicit(ps.subrange(0, b)),
    decreases b - a,
{
    if a < b {
        lemma_n_implicit_snoc(ps, b - 1);
        lemma_n_implicit_mono(ps, a, b - 1);
    }
}

/// Law: the implicit positional indices of one parse are strictly
/// increasing in order of appearance.
pub proof fn lemma_implicit_strictly_increasing(s: Seq<char>, k1: int, k2: int)
    requires
        wf_fmt_string(s),
        0 <= k1 < k2 < spec_placeholders_flagged(s).len(),
        spec_placeholders_flagged(s)[k1].1,
        spec_placeholders_flagged(s)[k2].1,
    ensures
        spec_placeholders_flagged(s)[k1].0.arg matches SpecParameter::Positional(a)
            && spec_placeholders_flagged(s)[k2].0.arg matches SpecParameter::Positional(b) ==> a
            < b,
{
    lemma_implicit_numbering(s);
    let ps = spec_placeholders_flagged(s);
    lemma_n_implicit_snoc(ps, k1);
    lemma_n_implicit_mono(ps, k1 + 1, k2);
}

// ---------------------------------------------------------------------------
// Executable parser
// ---------------------------------------------------------------------------
fn char_is_digit(c: char) -> (b: bool)
    ensures
        b == is_digit(c),
{
    '0' as u32 <= c as u32 && c as u32 <= '9' as u32
}

fn char_is_ident_start(c: char) -> (b: bool)
    ensures
        b == is_ident_start(c),
{
    ('a' as u32 <= c as u32 && c as u32 <= 'z' as u32) || ('A' as u32 <= c as u32 && c as u32
        <= 'Z' as u32) || c == '_'
}

fn char_is_ident_cont(c: char) -> (b: bool)
    ensures
        b == is_ident_cont(c),
{
    char_is_ident_start(c) || char_is_digit(c)
}

fn char_is_align(c: char) -> (b: bool)
    ensures
        b == is_align(c),
{
    c == '<' || c == '^' || c == '>'
}

fn find_digits_end(s: &str, len: usize, cur: usize) -> (j: usize)
    requires
        len == s@.len(),
        cur <= len,
    ensures
        j as int == digits_end(s@, cur as int),
        cur <= j <= len,
    decreases len - cur,
{
    if cur < len {
        let c = s.get_char(cur);
        if char_is_digit(c) {
            return find_digits_end(s, len, cur + 1);
        }
    }
    cur
}

pub(crate) fn find_ident_end(s: &str, len: usize, cur: usize) -> (j: usize)
    requires
        len == s@.len(),
        cur <= len,
    ensures
        j as int == ident_end(s@, cur as int),
        cur <= j <= len,
    decreases len - cur,
{
    if cur < len {
        let c = s.get_char(cur);
        if char_is_ident_cont(c) {
            return find_ident_end(s, len, cur + 1);
        }
    }
    cur
}

/// All characters of a digit run are digits.
proof fn lemma_digits_end_digits(s: Seq<char>, i: int)
    requires
        0 <= i <= s.len(),
    ensures
        forall|k: int| i <= k < digits_end(s, i) ==> is_digit(s[k]),
    decreases s.len() - i,
{
    if i < s.len() && is_digit(s[i]) {
        lemma_digits_end_digits(s, i + 1);
        lemma_digits_end_bounds(s, i + 1);
    }
}

/// The value of a digit run, or `None` when it does not fit in `usize`.
fn parse_usize_digits(s: &str, len: usize, i: usize, j: usize) -> (r: Option<usize>)
    requires
        len == s@.len(),
        i <= j <= len,
        forall|k: int| i <= k < j ==> is_digit(s@[k]),
    ensures
        match r {
            Some(v) => v as nat == digits_value(s@, i as int, j as int),
            None => digits_value(s@, i as int, j as int) > usize::MAX as nat,
        },
{
    let mut acc: usize = 0;
    let mut k = i;
    while k < j
        invariant
            i <= k <= j <= len,
            len == s@.len(),
            forall|m: int| i <= m < j ==> is_digit(s@[m]),
            acc as nat == digits_value(s@, i as int, k as int),
        decreases j - k,
    {
        let c = s.get_char(k);
        let d = (c as u32 - '0' as u32) as usize;
        assert(d as nat == digit_val(s@[k as int]));
        let overflowed: bool = match acc.checked_mul(10) {
            Some(t) => {
                match t.checked_add(d) {
                    Some(v) => {
                        acc = v;
                        false
                    },
                    None => true,
                }
            },
            None => true,
        };
        if overflowed {
            proof {
                assert(digits_value(s@, i as int, k as int + 1) > usize::MAX as nat);
                lemma_digits_value_grows(s@, i as int, k as int + 1, j as int);
            }
            return None;
        }
        k += 1;
    }
    Some(acc)
}

fn scan_argument_x(s: &str, len: usize, i: usize) -> (r: Option<(Parameter, usize)>)
    requires
        len == s@.len(),
        i <= len,
    ensures
        match r {
            Some(pj) => scan_argument(s@, i as int) == Some((pj.0@, pj.1 as int)) && i < pj.1
                <= len,
            None => scan_argument(s@, i as int) is None,
        },
{
    proof {
        lemma_scan_argument_bounds(s@, i as int);
    }
    if i < len {
        let c = s.get_char(i);
        if char_is_digit(c) {
            let j = find_digits_end(s, len, i);
            proof {
                lemma_digits_end_digits(s@, i as int);
            }
            return match parse_usize_digits(s, len, i, j) {
                Some(v) => Some((Parameter::Positional(v), j)),
                None => None,
            };
        } else if char_is_ident_start(c) {
            let j = find_ident_end(s, len, i);
            let name = String::from_str(s.substring_char(i, j));
            return Some((Parameter::Named(name), j));
        }
    }
    None
}

fn scan_count_x(s: &str, len: usize, i: usize) -> (r: (Option<Parameter>, usize))
    requires
        len == s@.len(),
        i <= len,
    ensures
        opt_param_view(r.0) == scan_count(s@, i as int).0,
        r.1 as int == scan_count(s@, i as int).1,
        i <= r.1 <= len,
{
    match scan_argument_x(s, len, i) {
        Some((p, j)) => {
            if j < len && s.get_char(j) == '$' {
                return (Some(p), j + 1);
            }
            let c = s.get_char(i);
            if char_is_digit(c) {
                (None, find_digits_end(s, len, i))
            } else {
                (None, i)
            }
        },
        None => {
            if i < len {
                let c = s.get_char(i);
                if char_is_digit(c) {
                    return (None, find_digits_end(s, len, i));
                }
            }
            (None, i)
        },
    }
}

fn scan_width_x(s: &str, len: usize, i: usize) -> (r: (Option<Parameter>, usize))
    requires
        len == s@.len(),
        i <= len,
    ensures
        opt_param_view(r.0) == scan_width(s@, i as int).0,
        r.1 as int == scan_width(s@, i as int).1,
        i <= r.1 <= len,
{
    if i < len && s.get_char(i) == '0' {
        if i + 1 < len && s.get_char(i + 1) == '$' {
            return (Some(Parameter::Positional(0)), i + 2);
        }
        let r = scan_count_x(s, len, i + 1);
        return r;
    }
    scan_count_x(s, len, i)
}

fn scan_precision_x(s: &str, len: usize, i: usize) -> (r: (Option<Parameter>, usize))
    requires
        len == s@.len(),
        i <= len,
    ensures
        opt_param_view(r.0) == scan_precision(s@, i as int).0,
        r.1 as int == scan_precision(s@, i as int).1,
        i <= r.1 <= len,
{
    if i < len && s.get_char(i) == '.' {
        if i + 1 < len && s.get_char(i + 1) == '*' {
            return (None, i + 2);
        }
        let r = scan_count_x(s, len, i + 1);
        return r;
    }
    (None, i)
}

fn scan_type_x(s: &str, len: usize, i: usize) -> (r: Option<(FmtTrait, usize)>)
    requires
        len == s@.len(),
        i <= len,
    ensures
        match r {
            Some(tj) => scan_type(s@, i as int) == Some((tj.0, tj.1 as int)) && i <= tj.1 <= len,
            None => scan_type(s@, i as int) is None,
        },
{
    if i >= len {
        return None;
    }
    let c = s.get_char(i);
    if c == '}' {
        Some((FmtTrait::Display, i))
    } else if c == '?' {
        Some((FmtTrait::Debug, i + 1))
    } else if (c == 'x' || c == 'X') && i + 1 < len && s.get_char(i + 1) == '?' {
        Some((FmtTrait::Debug, i + 2))
    } else if c == 'x' {
        Some((FmtTrait::LowerHex, i + 1))
    } else if c == 'X' {
        Some((FmtTrait::UpperHex, i + 1))
    } else if c == 'o' {
        Some((FmtTrait::Octal, i + 1))
    } else if c == 'b' {
        Some((FmtTrait::Binary, i + 1))
    } else if c == 'e' {
        Some((FmtTrait::LowerExp, i + 1))
    } else if c == 'E' {
        Some((FmtTrait::UpperExp, i + 1))
    } else if c == 'p' {
        Some((FmtTrait::Pointer, i + 1))
    } else {
        None
    }
}

fn after_fill_align_x(s: &str, len: usize, i: usize) -> (j: usize)
    requires
        len == s@.len(),
        i <= len,
    ensures
        j as int == after_fill_align(s@, i as int),
        i <= j <= len,
{
    if i < len && i + 1 < len {
        let c0 = s.get_char(i);
        let c1 = s.get_char(i + 1);
        if char_is_align(c1) && c0 != '{' && c0 != '}' {
            return i + 2;
        }
    }
    if i < len {
        let c0 = s.get_char(i);
        if char_is_align(c0) {
            return i + 1;
        }
    }
    i
}

fn scan_fspec_x(s: &str, len: usize, i: usize) -> (r: Option<
    (Option<Parameter>, Option<Parameter>, FmtTrait, usize),
>)
    requires
        len == s@.len(),
        i <= len,
    ensures
        match r {
            Some(wptj) => scan_fspec(s@, i as int) == Some(
                (
                    SpecFSpec {
                        width: opt_param_view(wptj.0),
                        precision: opt_param_view(wptj.1),
                        ty: wptj.2,
                    },
                    wptj.3 as int,
                ),
            ) && i <= wptj.3 <= len,
            None => scan_fspec(s@, i as int) is None,
        },
{
    let i1 = after_fill_align_x(s, len, i);
    let i2 = if i1 < len {
        let c = s.get_char(i1);
        if c == '+' || c == '-' {
            i1 + 1
        } else {
            i1
        }
    } else {
        i1
    };
    let i3 = if i2 < len && s.get_char(i2) == '#' {
        i2 + 1
    } else {
        i2
    };
    let (w, i4) = scan_width_x(s, len, i3);
    let (p, i5) = scan_precision_x(s, len, i4);
    match scan_type_x(s, len, i5) {
        Some((t, j)) => Some((w, p, t, j)),
        None => None,
    }
}

fn scan_placeholder_x(s: &str, len: usize, i: usize) -> (r: Option<
    (Option<Parameter>, Option<Parameter>, Option<Parameter>, FmtTrait, usize),
>)
    requires
        len == s@.len(),
        i <= len,
    ensures
        match r {
            Some(ph) => scan_placeholder(s@, i as int) == Some(
                (
                    (
                        opt_param_view(ph.0),
                        SpecFSpec {
                            width: opt_param_view(ph.1),
                            precision: opt_param_view(ph.2),
                            ty: ph.3,
                        },
                    ),
                    ph.4 as int,
                ),
            ) && i < ph.4 <= len,
            None => scan_placeholder(s@, i as int) is None,
        },
{
    let (arg, j) = match scan_argument_x(s, len, i) {
        Some((p, j)) => (Some(p), j),
        None => (None, i),
    };
    if j < len && s.get_char(j) == ':' {
        match scan_fspec_x(s, len, j + 1) {
            Some((w, p, t, k)) => {
                if k < len && s.get_char(k) == '}' {
                    Some((arg, w, p, t, k + 1))
                } else {
                    None
                }
            },
            None => None,
        }
    } else if j < len && s.get_char(j) == '}' {
        Some((arg, None, None, FmtTrait::Display, j + 1))
    } else {
        None
    }
}

impl Placeholder {
    /// Parses the placeholders of a format string, resolving implicit
    /// positional references to the next unclaimed index, starting at zero.
    /// A string the grammar rejects yields no placeholders.
    pub fn parse_fmt_string(s: &str) -> (r: Vec<Placeholder>)
        ensures
            views_of(r@) == spec_placeholders(s@),
            r@.len() == spec_placeholders(s@).len(),
    {
        let len = s.unicode_len();
        let mut out: Vec<Placeholder> = Vec::new();
        let ghost mut done: Seq<(SpecPlaceholder, bool)> = Seq::empty();
        let mut i: usize = 0;
        let mut n: usize = 0;
        proof {
            assert(views_of(out@) =~= firsts_of(done));
        }
        while i < len
            invariant
                i <= len,
                n <= i,
                len == s@.len(),
                out@.len() == done.len(),
                views_of(out@) == firsts_of(done),
                scan_string(s@, 0, 0) == (match scan_string(s@, i as int, n as nat) {
                    Some(rest) => Some(done + rest),
                    None => None::<Seq<(SpecPlaceholder, bool)>>,
                }),
            decreases len - i,
        {
            let c = s.get_char(i);
            if c == '{' && i + 1 < len && s.get_char(i + 1) == '{' {
                i += 2;
            } else if c == '}' && i + 1 < len && s.get_char(i + 1) == '}' {
                i += 2;
            } else if c == '{' {
                match scan_placeholder_x(s, len, i + 1) {
                    Some((arg, w, p, t, j)) => {
                        let implicit = arg.is_none();
                        let ph = Placeholder {
                            arg: match arg {
                                Some(q) => q,
                                None => Parameter::Positional(n),
                            },
                            width: w,
                            precision: p,
                            trait_name: t,
                        };
                        let ghost prev_out = out@;
                        let ghost prev_done = done;
                        proof {
                            done = done + seq![(ph@, implicit)];
                        }
                        out.push(ph);
                        proof {
                            assert forall|k: int| 0 <= k < out@.len() implies views_of(out@)[k]
                                == firsts_of(done)[k] by {
                                if k < prev_out.len() {
                                    assert(views_of(prev_out)[k] == firsts_of(prev_done)[k]);
                                    assert(out@[k] == prev_out[k]);
                                    assert(done[k] == prev_done[k]);
                                }
                            }
                            assert(views_of(out@) =~= firsts_of(done));
                        }
                        if implicit {
                            n += 1;
                        }
                        i = j;
                    },
                    None => {
                        assert(!wf_fmt_string(s@));
                        let empty: Vec<Placeholder> = Vec::new();
                        proof {
                            assert(views_of(empty@) =~= spec_placeholders(s@));
                        }
                        return empty;
                    },
                }
            } else if c == '}' {
                assert(!wf_fmt_string(s@));
                let empty: Vec<Placeholder> = Vec::new();
                proof {
                    assert(views_of(empty@) =~= spec_placeholders(s@));
                }
                return empty;
            } else {
                i += 1;
            }
        }
        proof {
            assert(scan_string(s@, i as int, n as nat) == Some(
                Seq::<(SpecPlaceholder, bool)>::empty(),
            ));
            assert(done + Seq::<(SpecPlaceholder, bool)>::empty() =~= done);
            assert(spec_placeholders_flagged(s@) == done);
        }
        out
    }
}

} // verus!
