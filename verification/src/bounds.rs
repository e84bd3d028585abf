//! The trait-bound requirement map: for each generic type parameter, the
//! set of distinct trait bounds it must satisfy.  Entries keep insertion
//! order and bounds are deduplicated, so emission from the map is
//! deterministic for identical input.

use vstd::prelude::*;
use vstd::string::*;

use crate::fmtparse::{
    is_identifier, spec_fmt_trait_name, spec_is_identifier, spec_placeholders, views_of,
    Parameter, Placeholder, SpecParameter, SpecPlaceholder,
};
use crate::input::{Attr, Field, FieldList, MetaItem};
use crate::names::{attribute_name_to_trait_name, is_attr_name, spec_trait_bound, spec_trait_of_attr, trait_name_to_trait_bound};
use crate::text::{spec_decimal, str_eq, usize_to_string};

verus! {

/// Mathematical form of one entry: a parameter and its bounds.
#[verifier::ext_equal]
pub ghost struct GEntry {
    pub param: Seq<char>,
    pub bounds: Seq<Seq<char>>,
}

/// One parameter with the bounds collected for it.
#[derive(Debug)]
pub struct BoundEntry {
    pub param: String,
    pub bounds: Vec<String>,
}

/// The bound requirements of one derivation, in insertion order.
#[derive(Debug)]
pub struct Bounds {
    pub entries: Vec<BoundEntry>,
}

impl View for BoundEntry {
    type V = GEntry;

    open spec fn view(&self) -> GEntry {
        GEntry { param: self.param@, bounds: self.bounds@.map_values(|b: String| b@) }
    }
}

impl View for Bounds {
    type V = Seq<GEntry>;

    open spec fn view(&self) -> Seq<GEntry> {
        self.entries@.map_values(|e: BoundEntry| e@)
    }
}

/// The first index at or after `i` whose entry is for `p`, or the length.
pub open spec fn find_param_from(bs: Seq<GEntry>, p: Seq<char>, i: int) -> int
    decreases bs.len() - i
        when 0 <= i <= bs.len()
{
    if i >= bs.len() {
        i
    } else if bs[i].param == p {
        i
    } else {
        find_param_from(bs, p, i + 1)
    }
}

/// The index of the entry for `p`, or the length when there is none.
pub open spec fn find_param(bs: Seq<GEntry>, p: Seq<char>) -> int {
    find_param_from(bs, p, 0)
}

/// Whether the map holds an entry for `p`.
pub open spec fn has_param(bs: Seq<GEntry>, p: Seq<char>) -> bool {
    find_param(bs, p) < bs.len()
}

/// The map with an entry for `p`, empty if it was absent.
pub open spec fn spec_ensure_param(bs: Seq<GEntry>, p: Seq<char>) -> Seq<GEntry> {
    if has_param(bs, p) {
        bs
    } else {
        bs + seq![GEntry { param: p, bounds: Seq::empty() }]
    }
}

/// The map with bound `b` recorded for `p`: a new entry when `p` is absent,
/// and no change when `p` already carries `b`.
pub open spec fn spec_add_bound(bs: Seq<GEntry>, p: Seq<char>, b: Seq<char>) -> Seq<GEntry> {
    let bs1 = spec_ensure_param(bs, p);
    let i = find_param(bs1, p);
    if bs1[i].bounds.contains(b) {
        bs1
    } else {
        bs1.update(i, GEntry { param: p, bounds: bs1[i].bounds + seq![b] })
    }
}

/// The map with `list[k..]` all recorded for `p`.
pub open spec fn spec_add_bounds(
    bs: Seq<GEntry>,
    p: Seq<char>,
    list: Seq<Seq<char>>,
    k: int,
) -> Seq<GEntry>
    decreases list.len() - k
        when 0 <= k <= list.len()
{
    if k >= list.len() {
        bs
    } else {
        spec_add_bounds(spec_add_bound(bs, p, list[k]), p, list, k + 1)
    }
}

/// `a` with all entries of `b[i..]` merged in.
pub open spec fn spec_merge_from(a: Seq<GEntry>, b: Seq<GEntry>, i: int) -> Seq<GEntry>
    decreases b.len() - i
        when 0 <= i <= b.len()
{
    if i >= b.len() {
        a
    } else {
        spec_merge_from(spec_add_bounds(a, b[i].param, b[i].bounds, 0), b, i + 1)
    }
}

/// `a` with all of `b` merged in: the union of the two requirement maps.
pub open spec fn spec_merge(a: Seq<GEntry>, b: Seq<GEntry>) -> Seq<GEntry> {
    spec_merge_from(a, b, 0)
}

/// The bounds recorded for `p`, empty when `p` has no entry.
pub open spec fn param_bounds(bs: Seq<GEntry>, p: Seq<char>) -> Seq<Seq<char>> {
    if has_param(bs, p) {
        bs[find_param(bs, p)].bounds
    } else {
        Seq::empty()
    }
}

proof fn lemma_find_param_props(bs: Seq<GEntry>, p: Seq<char>, i: int)
    requires
        0 <= i <= bs.len(),
    ensures
        i <= find_param_from(bs, p, i) <= bs.len(),
        find_param_from(bs, p, i) < bs.len() ==> bs[find_param_from(bs, p, i)].param == p,
    decreases bs.len() - i,
{
    if i < bs.len() && bs[i].param != p {
        lemma_find_param_props(bs, p, i + 1);
    }
}

proof fn lemma_find_param_extends(bs: Seq<GEntry>, p: Seq<char>, i: int, e: GEntry)
    requires
        0 <= i <= bs.len(),
    ensures
        find_param_from(bs, p, i) < bs.len() ==> find_param_from(bs + seq![e], p, i)
            == find_param_from(bs, p, i),
        find_param_from(bs, p, i) == bs.len() && e.param == p ==> find_param_from(
            bs + seq![e],
            p,
            i,
        ) == bs.len(),
    decreases bs.len() - i,
{
    if i < bs.len() {
        assert((bs + seq![e])[i] == bs[i]);
        if bs[i].param != p {
            lemma_find_param_extends(bs, p, i + 1, e);
        }
    } else {
        assert((bs + seq![e])[i] == e);
    }
}

impl Bounds {
    /// An empty requirement map.
    pub fn new() -> (r: Bounds)
        ensures
            r@ == Seq::<GEntry>::empty(),
    {
        let r = Bounds { entries: Vec::new() };
        proof {
            assert(r@ =~= Seq::<GEntry>::empty());
        }
        r
    }

    /// Whether the map has no entries.
    pub fn is_empty(&self) -> (r: bool)
        ensures
            r == (self@.len() == 0),
    {
        self.entries.len() == 0
    }

    /// The index of the entry for `param`, or the number of entries.
    fn find(&self, param: &str) -> (r: usize)
        ensures
            r as int == find_param(self@, param@),
            r <= self@.len(),
    {
        let n = self.entries.len();
        let mut i: usize = 0;
        while i < n
            invariant
                i <= n,
                n == self@.len(),
                n == self.entries@.len(),
                find_param(self@, param@) == find_param_from(self@, param@, i as int),
            decreases n - i,
        {
            if str_eq(self.entries[i].param.as_str(), param) {
                return i;
            }
            i += 1;
        }
        i
    }

    /// Makes sure an entry for `param` exists, possibly with no bounds yet.
    pub fn ensure_param(&mut self, param: &str)
        ensures
            final(self)@ == spec_ensure_param(old(self)@, param@),
    {
        let i = self.find(param);
        if i == self.entries.len() {
            let ghost prev = self@;
            self.entries.push(
                BoundEntry { param: String::from_str(param), bounds: Vec::new() },
            );
            proof {
                let e = GEntry { param: param@, bounds: Seq::empty() };
                assert(self@ =~~= prev + seq![e]);
            }
        }
    }

    /// Whether the entry for `param` already carries `bound`.
    fn entry_has_bound(&self, i: usize, bound: &str) -> (r: bool)
        requires
            i < self@.len(),
        ensures
            r == self@[i as int].bounds.contains(bound@),
    {
        let m = self.entries[i].bounds.len();
        let mut k: usize = 0;
        while k < m
            invariant
                k <= m,
                i < self.entries@.len(),
                m == self@[i as int].bounds.len(),
                m == self.entries@[i as int].bounds@.len(),
                forall|j: int| 0 <= j < k ==> self@[i as int].bounds[j] != bound@,
            decreases m - k,
        {
            if str_eq(self.entries[i].bounds[k].as_str(), bound) {
                assert(self@[i as int].bounds[k as int] == bound@);
                return true;
            }
            k += 1;
        }
        false
    }

    /// Records `bound` for `param`, creating the entry when absent and
    /// leaving the map unchanged when the bound is already there.
    pub fn add(&mut self, param: &str, bound: &str)
        ensures
            final(self)@ == spec_add_bound(old(self)@, param@, bound@),
    {
        self.ensure_param(param);
        let i = self.find(param);
        proof {
            lemma_find_param_props(old(self)@, param@, 0);
            lemma_find_param_extends(
                old(self)@,
                param@,
                0,
                GEntry { param: param@, bounds: Seq::empty() },
            );
            lemma_find_param_props(self@, param@, 0);
        }
        assert(i < self.entries@.len());
        if self.entry_has_bound(i, bound) {
            return ;
        }
        let ghost prev = self@;
        let mut e = self.entries.remove(i);
        e.bounds.push(String::from_str(bound));
        self.entries.insert(i, e);
        proof {
            let ge = GEntry { param: param@, bounds: prev[i as int].bounds + seq![bound@] };
            assert(prev[i as int].param == param@);
            assert(self@ =~~= prev.update(i as int, ge));
        }
    }

    /// Records every bound of `list` for `param`.
    pub fn add_all(&mut self, param: &str, list: &Vec<String>)
        ensures
            final(self)@ == spec_add_bounds(
                old(self)@,
                param@,
                list@.map_values(|b: String| b@),
                0,
            ),
    {
        let ghost glist = list@.map_values(|b: String| b@);
        let m = list.len();
        let mut k: usize = 0;
        while k < m
            invariant
                k <= m,
                m == list@.len(),
                m == glist.len(),
                glist == list@.map_values(|b: String| b@),
                spec_add_bounds(old(self)@, param@, glist, 0) == spec_add_bounds(
                    self@,
                    param@,
                    glist,
                    k as int,
                ),
            decreases m - k,
        {
            self.add(param, list[k].as_str());
            k += 1;
        }
    }

    /// Whether at least one bound is recorded for `param`.
    pub fn has_bounds(&self, param: &str) -> (r: bool)
        ensures
            r == (param_bounds(self@, param@).len() > 0),
    {
        let i = self.find(param);
        if i < self.entries.len() {
            self.entries[i].bounds.len() > 0
        } else {
            false
        }
    }

    /// Merges every entry of `other` into `self`: the union of requirements.
    pub fn merge(&mut self, other: &Bounds)
        ensures
            final(self)@ == spec_merge(old(self)@, other@),
    {
        let n = other.entries.len();
        let mut i: usize = 0;
        while i < n
            invariant
                i <= n,
                n == other@.len(),
                n == other.entries@.len(),
                spec_merge(old(self)@, other@) == spec_merge_from(self@, other@, i as int),
            decreases n - i,
        {
            assert(other@[i as int] == other.entries@[i as int]@);
            self.add_all(other.entries[i].param.as_str(), &other.entries[i].bounds);
            i += 1;
        }
    }
}

// ---------------------------------------------------------------------------
// Bound inference
// ---------------------------------------------------------------------------
/// Whether `id` is one of the declared type parameters.
pub open spec fn spec_is_param(type_params: Seq<String>, id: Seq<char>) -> bool {
    exists|k: int| 0 <= k < type_params.len() && type_params[k]@ == id
}

/// The first identifier of `idents[i..]` that is a declared type parameter.
pub open spec fn spec_used_param_from(
    type_params: Seq<String>,
    idents: Seq<String>,
    i: int,
) -> Option<Seq<char>>
    decreases idents.len() - i
        when 0 <= i <= idents.len()
{
    if i >= idents.len() {
        None
    } else if spec_is_param(type_params, idents[i]@) {
        Some(idents[i]@)
    } else {
        spec_used_param_from(type_params, idents, i + 1)
    }
}

/// The declared type parameter a type depends on, if any: the first
/// identifier of the type's text that is a declared parameter.
pub open spec fn spec_used_param(type_params: Seq<String>, idents: Seq<String>) -> Option<
    Seq<char>,
> {
    spec_used_param_from(type_params, idents, 0)
}

/// The view of an optional owned string.
pub open spec fn opt_string_view(r: Option<String>) -> Option<Seq<char>> {
    match r {
        Some(s) => Some(s@),
        None => None,
    }
}

pub(crate) fn is_param(type_params: &Vec<String>, id: &str) -> (r: bool)
    ensures
        r == spec_is_param(type_params@, id@),
{
    let n = type_params.len();
    let mut k: usize = 0;
    while k < n
        invariant
            k <= n,
            n == type_params@.len(),
            forall|j: int| 0 <= j < k ==> type_params@[j]@ != id@,
        decreases n - k,
    {
        if str_eq(type_params[k].as_str(), id) {
            assert(type_params@[k as int]@ == id@);
            return true;
        }
        k += 1;
    }
    false
}

/// The declared type parameter used in a type, given the identifiers of the
/// type's text, as fresh text; `None` when the type depends on no declared
/// parameter.
pub fn get_if_type_parameter_used_in_type(type_params: &Vec<String>, idents: &Vec<String>) -> (r:
    Option<String>)
    ensures
        opt_string_view(r) == spec_used_param(type_params@, idents@),
{
    let n = idents.len();
    let mut i: usize = 0;
    while i < n
        invariant
            i <= n,
            n == idents@.len(),
            spec_used_param(type_params@, idents@) == spec_used_param_from(
                type_params@,
                idents@,
                i as int,
            ),
        decreases n - i,
    {
        if is_param(type_params, idents[i].as_str()) {
            return Some(String::from_str(idents[i].as_str()));
        }
        i += 1;
    }
    None
}

/// The bound map inferred without an explicit format string: the default
/// body formats only the first field, so when that field's type depends on
/// a declared parameter, that parameter must satisfy the derived trait.
pub open spec fn spec_infer_bounds(
    type_params: Seq<String>,
    fields: FieldList,
    trait_attr: Seq<char>,
) -> Seq<GEntry> {
    if type_params.len() == 0 {
        Seq::empty()
    } else if fields is Unit {
        Seq::empty()
    } else if fields.spec_fields().len() == 0 {
        Seq::empty()
    } else {
        match spec_used_param(type_params, fields.spec_fields()[0].ty.idents@) {
            Some(p) => seq![
                GEntry {
                    param: p,
                    bounds: seq![spec_trait_bound(spec_trait_of_attr(trait_attr))],
                },
            ],
            None => Seq::empty(),
        }
    }
}

/// Infers the bound requirements of a shape with no explicit format string.
pub fn infer_type_params_bounds(
    type_params: &Vec<String>,
    fields: &FieldList,
    trait_attr: &str,
) -> (r: Bounds)
    requires
        is_attr_name(trait_attr@),
    ensures
        r@ == spec_infer_bounds(type_params@, *fields, trait_attr@),
{
    let mut r = Bounds::new();
    if type_params.len() == 0 {
        return r;
    }
    let fs: &Vec<Field> = match fields {
        FieldList::Unit => {
            return r;
        },
        FieldList::Unnamed(fs) => fs,
        FieldList::Named(fs) => fs,
    };
    if fs.len() == 0 {
        return r;
    }
    match get_if_type_parameter_used_in_type(type_params, &fs[0].ty.idents) {
        Some(p) => {
            let bound = trait_name_to_trait_bound(attribute_name_to_trait_name(trait_attr));
            r.add(p.as_str(), bound.as_str());
            proof {
                assert(r@ =~~= spec_infer_bounds(type_params@, *fields, trait_attr@));
            }
            r
        },
        None => r,
    }
}

/// The matcher key of one field: its name, or `_i` in a tuple position.
pub open spec fn spec_field_key(f: Field, i: int) -> Seq<char> {
    match f.ident {
        Some(id) => id@,
        None => "_"@ + spec_decimal(i as nat),
    }
}

/// The association of matcher keys to the type parameter each field's type
/// depends on, for the fields whose type depends on one.
pub open spec fn spec_fields_params(
    type_params: Seq<String>,
    fs: Seq<Field>,
    i: int,
) -> Seq<(Seq<char>, Seq<char>)>
    decreases fs.len() - i
        when 0 <= i <= fs.len()
{
    if i >= fs.len() {
        Seq::empty()
    } else {
        let rest = spec_fields_params(type_params, fs, i + 1);
        match spec_used_param(type_params, fs[i].ty.idents@) {
            Some(p) => seq![(spec_field_key(fs[i], i), p)] + rest,
            None => rest,
        }
    }
}

/// The first value of `m[j..]` under `key`.
pub open spec fn assoc_find_from(
    m: Seq<(Seq<char>, Seq<char>)>,
    key: Seq<char>,
    j: int,
) -> Option<Seq<char>>
    decreases m.len() - j
        when 0 <= j <= m.len()
{
    if j >= m.len() {
        None
    } else if m[j].0 == key {
        Some(m[j].1)
    } else {
        assoc_find_from(m, key, j + 1)
    }
}

/// The first value of an association list under `key`.
pub open spec fn assoc_find(m: Seq<(Seq<char>, Seq<char>)>, key: Seq<char>) -> Option<Seq<char>> {
    assoc_find_from(m, key, 0)
}

/// The identifier an explicit format argument passes through, if any: a
/// bare path argument, or a string-literal argument that is an identifier.
pub open spec fn spec_arg_ident(it: MetaItem) -> Option<Seq<char>> {
    match it {
        MetaItem::Path(id) => Some(id@),
        MetaItem::LitStr(s) => if spec_is_identifier(s@) {
            Some(s@)
        } else {
            None
        },
        _ => None,
    }
}

/// The explicit arguments after the format literal, by position.
pub open spec fn spec_args_map(items: Seq<MetaItem>) -> Seq<Option<Seq<char>>> {
    items.subrange(1, items.len() as int).map_values(|it: MetaItem| spec_arg_ident(it))
}

/// The bound map accumulated over `pls[k..]`: a placeholder whose resolved
/// argument is the matcher key of a field depending on a type parameter
/// requires that parameter to satisfy the placeholder's trait.
pub open spec fn spec_used_bounds_from(
    bs: Seq<GEntry>,
    fieldsmap: Seq<(Seq<char>, Seq<char>)>,
    argsmap: Seq<Option<Seq<char>>>,
    pls: Seq<SpecPlaceholder>,
    k: int,
) -> Seq<GEntry>
    decreases pls.len() - k
        when 0 <= k <= pls.len()
{
    if k >= pls.len() {
        bs
    } else {
        let argname = match pls[k].arg {
            SpecParameter::Positional(i) => if i < argsmap.len() {
                argsmap[i as int]
            } else {
                None
            },
            SpecParameter::Named(n) => Some(n),
        };
        let bs2 = match argname {
            Some(a) => match assoc_find(fieldsmap, a) {
                Some(p) => spec_add_bound(
                    bs,
                    p,
                    spec_trait_bound(spec_fmt_trait_name(pls[k].trait_name)),
                ),
                None => bs,
            },
            None => bs,
        };
        spec_used_bounds_from(bs2, fieldsmap, argsmap, pls, k + 1)
    }
}

/// The bound map required by an explicit format string: every placeholder's
/// resolved argument is cross-referenced against the fields whose type
/// depends on a declared parameter.
pub open spec fn spec_used_bounds(type_params: Seq<String>, fields: FieldList, meta: Attr) -> Seq<
    GEntry,
> {
    if type_params.len() == 0 {
        Seq::empty()
    } else {
        let fm = spec_fields_params(type_params, fields.spec_fields(), 0);
        if fm.len() == 0 {
            Seq::empty()
        } else {
            spec_used_bounds_from(
                Seq::empty(),
                fm,
                spec_args_map(meta.items@),
                spec_placeholders(meta.items@[0]->NameValueStr_value@),
                0,
            )
        }
    }
}

fn assoc_get(keys: &Vec<String>, vals: &Vec<String>, key: &str) -> (r: Option<usize>)
    requires
        keys@.len() == vals@.len(),
    ensures
        ({
            let m = Seq::new(keys@.len(), |j: int| (keys@[j]@, vals@[j]@));
            match r {
                Some(idx) => idx < vals@.len() && assoc_find(m, key@) == Some(vals@[idx as int]@),
                None => assoc_find(m, key@) is None,
            }
        }),
{
    let ghost m = Seq::new(keys@.len(), |j: int| (keys@[j]@, vals@[j]@));
    let n = keys.len();
    let mut j: usize = 0;
    while j < n
        invariant
            j <= n,
            n == keys@.len(),
            n == vals@.len(),
            m == Seq::new(keys@.len(), |j: int| (keys@[j]@, vals@[j]@)),
            assoc_find(m, key@) == assoc_find_from(m, key@, j as int),
        decreases n - j,
    {
        if str_eq(keys[j].as_str(), key) {
            return Some(j);
        }
        j += 1;
    }
    None
}

/// Infers the bound requirements of an explicit format string: every
/// placeholder's resolved argument is cross-referenced against the fields
/// whose type depends on a declared type parameter, and each match requires
/// that parameter to satisfy the trait the placeholder selects.
pub fn get_used_type_params_bounds(
    type_params: &Vec<String>,
    fields: &FieldList,
    meta: &Attr,
) -> (r: Bounds)
    requires
        meta.items@.len() >= 1,
        meta.items@[0] is NameValueStr,
    ensures
        r@ == spec_used_bounds(type_params@, *fields, *meta),
{
    if type_params.len() == 0 {
        return Bounds::new();
    }
    let empty_fields: Vec<Field> = Vec::new();
    let fs: &Vec<Field> = match fields {
        FieldList::Unit => &empty_fields,
        FieldList::Unnamed(v) => v,
        FieldList::Named(v) => v,
    };
    proof {
        assert(fs@ == fields.spec_fields());
    }
    // the matcher keys of the fields whose type depends on a parameter
    let mut keys: Vec<String> = Vec::new();
    let mut params: Vec<String> = Vec::new();
    let nf = fs.len();
    let mut i: usize = 0;
    let ghost fm = spec_fields_params(type_params@, fs@, 0);
    while i < nf
        invariant
            i <= nf,
            nf == fs@.len(),
            keys@.len() == params@.len(),
            fm == spec_fields_params(type_params@, fs@, 0),
            fm == Seq::new(keys@.len(), |j: int| (keys@[j]@, params@[j]@)) + spec_fields_params(
                type_params@,
                fs@,
                i as int,
            ),
        decreases nf - i,
    {
        let ghost prev = Seq::new(keys@.len(), |j: int| (keys@[j]@, params@[j]@));
        match get_if_type_parameter_used_in_type(type_params, &fs[i].ty.idents) {
            Some(p) => {
                let key: String = match &fs[i].ident {
                    Some(id) => String::from_str(id.as_str()),
                    None => {
                        let mut k = String::new();
                        k.append("_");
                        let d = usize_to_string(i);
                        k.append(d.as_str());
                        proof {
                            assert(k@ =~= "_"@ + spec_decimal(i as nat));
                        }
                        k
                    },
                };
                assert(key@ == spec_field_key(fs@[i as int], i as int));
                keys.push(key);
                params.push(p);
                proof {
                    assert(Seq::new(keys@.len(), |j: int| (keys@[j]@, params@[j]@)) =~= prev
                        + seq![
                        (
                            spec_field_key(fs@[i as int], i as int),
                            spec_used_param(type_params@, fs@[i as int].ty.idents@)->Some_0,
                        ),
                    ]);
                    assert(fm =~= Seq::new(keys@.len(), |j: int| (keys@[j]@, params@[j]@))
                        + spec_fields_params(type_params@, fs@, i as int + 1));
                }
            },
            None => {
                proof {
                    assert(fm =~= prev + spec_fields_params(type_params@, fs@, i as int + 1));
                }
            },
        }
        i += 1;
    }
    proof {
        assert(spec_fields_params(type_params@, fs@, nf as int) =~= Seq::<
            (Seq<char>, Seq<char>),
        >::empty());
        assert(fm =~= Seq::new(keys@.len(), |j: int| (keys@[j]@, params@[j]@)));
    }
    if keys.len() == 0 {
        proof {
            assert(fm.len() == 0);
        }
        return Bounds::new();
    }
    // the explicit arguments after the format literal, by position
    let nit = meta.items.len();
    let mut argnames: Vec<Option<String>> = Vec::new();
    let mut a: usize = 1;
    let ghost am = spec_args_map(meta.items@);
    while a < nit
        invariant
            1 <= a <= nit,
            nit == meta.items@.len(),
            argnames@.len() == a - 1,
            am == spec_args_map(meta.items@),
            am.len() == nit - 1,
            forall|j: int|
                0 <= j < a - 1 ==> opt_string_view(argnames@[j]) == am[j],
        decreases nit - a,
    {
        let next: Option<String> = match &meta.items[a] {
            MetaItem::Path(id) => Some(String::from_str(id.as_str())),
            MetaItem::LitStr(s) => {
                if is_identifier(s.as_str()) {
                    Some(String::from_str(s.as_str()))
                } else {
                    None
                }
            },
            _ => None,
        };
        proof {
            assert(am[a - 1] == spec_arg_ident(meta.items@[a as int]));
        }
        argnames.push(next);
        a += 1;
    }
    // the placeholders of the format literal
    let fmt: &String = match &meta.items[0] {
        MetaItem::NameValueStr { name, value } => value,
        _ => {
            // the first argument is a name-value pair by the precondition
            proof {
                assert(false);
            }
            return Bounds::new();
        },
    };
    let pls = Placeholder::parse_fmt_string(fmt.as_str());
    let ghost gpls = spec_placeholders(fmt@);
    let np = pls.len();
    let mut r = Bounds::new();
    let mut k: usize = 0;
    while k < np
        invariant
            k <= np,
            np == pls@.len(),
            views_of(pls@) == gpls,
            keys@.len() == params@.len(),
            fm == Seq::new(keys@.len(), |j: int| (keys@[j]@, params@[j]@)),
            am == spec_args_map(meta.items@),
            argnames@.len() == am.len(),
            forall|j: int|
                0 <= j < am.len() ==> opt_string_view(argnames@[j]) == am[j],
            spec_used_bounds_from(Seq::empty(), fm, am, gpls, 0) == spec_used_bounds_from(
                r@,
                fm,
                am,
                gpls,
                k as int,
            ),
        decreases np - k,
    {
        proof {
            assert(pls@[k as int]@ == gpls[k as int]);
        }
        let hit: Option<usize> = match &pls[k].arg {
            Parameter::Positional(i) => {
                if *i < argnames.len() {
                    match &argnames[*i] {
                        Some(aname) => assoc_get(&keys, &params, aname.as_str()),
                        None => None,
                    }
                } else {
                    None
                }
            },
            Parameter::Named(n) => assoc_get(&keys, &params, n.as_str()),
        };
        match hit {
            Some(idx) => {
                let bound = trait_name_to_trait_bound(pls[k].trait_name.name());
                r.add(params[idx].as_str(), bound.as_str());
            },
            None => {},
        }
        k += 1;
    }
    r
}

/// Law: a shape with one field whose type is a declared type parameter,
/// derived without an explicit format string, needs exactly that parameter
/// bound by the trait being derived, and nothing else.
pub proof fn lemma_infer_single_field(
    type_params: Seq<String>,
    fields: FieldList,
    trait_attr: Seq<char>,
    k: int,
)
    requires
        type_params.len() > 0,
        !(fields is Unit),
        fields.spec_fields().len() == 1,
        fields.spec_fields()[0].ty.idents@.len() == 1,
        0 <= k < type_params.len(),
        fields.spec_fields()[0].ty.idents@[0]@ == type_params[k]@,
    ensures
        spec_infer_bounds(type_params, fields, trait_attr) == seq![
            GEntry {
                param: type_params[k]@,
                bounds: seq![spec_trait_bound(spec_trait_of_attr(trait_attr))],
            },
        ],
{
    let idents = fields.spec_fields()[0].ty.idents@;
    assert(spec_is_param(type_params, idents[0]@));
    assert(spec_used_param(type_params, idents) == Some(idents[0]@));
}

/// Law: one placeholder naming an argument that is the matcher key of a
/// field whose type depends on a declared parameter requires exactly that
/// parameter, bound by exactly the placeholder's trait; every other
/// parameter stays unbounded.
pub proof fn lemma_used_bounds_single_named(
    fieldsmap: Seq<(Seq<char>, Seq<char>)>,
    argsmap: Seq<Option<Seq<char>>>,
    pls: Seq<SpecPlaceholder>,
    name: Seq<char>,
    p: Seq<char>,
)
    requires
        pls.len() == 1,
        pls[0].arg == SpecParameter::Named(name),
        assoc_find(fieldsmap, name) == Some(p),
    ensures
        spec_used_bounds_from(Seq::empty(), fieldsmap, argsmap, pls, 0) == seq![
            GEntry {
                param: p,
                bounds: seq![spec_trait_bound(spec_fmt_trait_name(pls[0].trait_name))],
            },
        ],
        forall|q: Seq<char>|
            q != p ==> !has_param(
                spec_used_bounds_from(Seq::empty(), fieldsmap, argsmap, pls, 0),
                q,
            ),
{
    let b = spec_trait_bound(spec_fmt_trait_name(pls[0].trait_name));
    let one = spec_add_bound(Seq::empty(), p, b);
    assert(find_param_from(Seq::<GEntry>::empty(), p, 0) == 0);
    assert(one =~~= seq![GEntry { param: p, bounds: seq![b] }]) by {
        lemma_find_param_props(spec_ensure_param(Seq::empty(), p), p, 0);
        assert(spec_ensure_param(Seq::<GEntry>::empty(), p) =~~= seq![
            GEntry { param: p, bounds: Seq::empty() },
        ]);
    }
    assert(spec_used_bounds_from(one, fieldsmap, argsmap, pls, 1) == one);
    assert forall|q: Seq<char>| q != p implies !has_param(one, q) by {
        assert(one[0].param == p);
        assert(find_param_from(one, q, 1) == 1);
        assert(find_param_from(one, q, 0) == 1);
    }
}

} // verus!
