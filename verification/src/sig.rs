//! Structural model of a parsed signature fragment and its canonical form.
//!
//! A fragment parses into a raw shape that still carries the spelled names of
//! generic and lifetime parameters.  Canonicalization erases those names: a
//! canonical parameter keeps only its kind, and a canonical argument keeps
//! only what is left once the leading identifier is replaced by the fixed
//! placeholder (the variant itself stands for the placeholder).  Two
//! declarations that differ only in the chosen parameter names therefore
//! canonicalize to equal values, and argument lists are compared as unordered
//! sets of canonical values.

use vstd::prelude::*;
use crate::text::{is_ident_start_char, is_digit_char, ident_start_char, digit_char, chars_eq};
use crate::scan::{depth_change, word_at, word_at_exec, find_top_char, find_top_char_exec,
    has_top_colon, has_top_colon_exec, skip_ws, skip_ws_exec, rtrim_idx, rtrim_exec, ident_end,
    ident_end_exec, strip_ws, strip_ws_exec};


verus! {

// ---------------------------------------------------------------------------
// Raw shapes (specification level only): names still present.
// ---------------------------------------------------------------------------

/// One generic argument as written, before name erasure.
pub enum RawArgV {
    /// A lifetime argument with its spelled name (without the leading `'`).
    Lifetime { name: Seq<char> },
    /// A named type path: its leading identifier and the remaining text with
    /// whitespace removed.
    TypePath { head: Seq<char>, tail: Seq<char> },
    /// Any other type shape (reference, tuple, slice, trait object, ...),
    /// kept as its whitespace-free text.
    TypeOther { repr: Seq<char> },
}

/// One declared generic parameter as written, before name erasure.
pub enum RawParamV {
    TypeParam { name: Seq<char> },
    LifetimeParam { name: Seq<char> },
}

/// A trait-implementation header as written.
pub struct RawImplV {
    pub generics: Seq<RawParamV>,
    pub trait_name: Seq<char>,
    pub trait_generics: Seq<RawArgV>,
    pub struct_name: Seq<char>,
    pub struct_generics: Seq<RawArgV>,
}

/// A parsed fragment: a trait implementation or a function declaration.
pub enum RawSigV {
    ImplTy(RawImplV),
    FnTy { name: Seq<char> },
}

// ---------------------------------------------------------------------------
// Canonical shapes: names erased, usable in executable code.
// ---------------------------------------------------------------------------

/// A canonical generic parameter: only its kind remains.
#[derive(Clone, Copy, PartialEq, Eq, Structural, Debug)]
pub enum CanonParam {
    TypeParam,
    LifetimeParam,
}

/// A canonical generic argument: the identifying name is erased, the
/// remaining shape is kept.
#[derive(Debug)]
pub enum CanonArg {
    Lifetime,
    TypePath { tail: Vec<char> },
    TypeOther { repr: Vec<char> },
}

/// Specification view of a canonical generic argument.
pub enum CanonArgV {
    Lifetime,
    TypePath { tail: Seq<char> },
    TypeOther { repr: Seq<char> },
}

impl View for CanonArg {
    type V = CanonArgV;

    open spec fn view(&self) -> CanonArgV {
        match self {
            CanonArg::Lifetime => CanonArgV::Lifetime,
            CanonArg::TypePath { tail } => CanonArgV::TypePath { tail: tail@ },
            CanonArg::TypeOther { repr } => CanonArgV::TypeOther { repr: repr@ },
        }
    }
}

/// Canonical form of a function declaration: only the identifier matters.
#[derive(Debug)]
pub struct FnSignature {
    pub name: Vec<char>,
}

/// Canonical form of a trait-implementation header.
#[derive(Debug)]
pub struct ImplSignature {
    pub generics: Vec<CanonParam>,
    pub trait_name: Vec<char>,
    pub trait_generics: Vec<CanonArg>,
    pub struct_name: Vec<char>,
    pub struct_generics: Vec<CanonArg>,
}

/// Canonical form of a parsed fragment.
#[derive(Debug)]
pub enum ApiSignature {
    ImplTy(ImplSignature),
    FnTy(FnSignature),
}

pub struct FnSigV {
    pub name: Seq<char>,
}

pub struct ImplSigV {
    pub generics: Seq<CanonParam>,
    pub trait_name: Seq<char>,
    pub trait_generics: Seq<CanonArgV>,
    pub struct_name: Seq<char>,
    pub struct_generics: Seq<CanonArgV>,
}

pub enum SigV {
    ImplTy(ImplSigV),
    FnTy(FnSigV),
}

/// View of a canonical argument vector.
pub open spec fn canon_args_view(v: Seq<CanonArg>) -> Seq<CanonArgV> {
    v.map_values(|a: CanonArg| a@)
}

impl View for ImplSignature {
    type V = ImplSigV;

    open spec fn view(&self) -> ImplSigV {
        ImplSigV {
            generics: self.generics@,
            trait_name: self.trait_name@,
            trait_generics: canon_args_view(self.trait_generics@),
            struct_name: self.struct_name@,
            struct_generics: canon_args_view(self.struct_generics@),
        }
    }
}

impl View for FnSignature {
    type V = FnSigV;

    open spec fn view(&self) -> FnSigV {
        FnSigV { name: self.name@ }
    }
}

impl View for ApiSignature {
    type V = SigV;

    open spec fn view(&self) -> SigV {
        match self {
            ApiSignature::ImplTy(im) => SigV::ImplTy(im@),
            ApiSignature::FnTy(f) => SigV::FnTy(f@),
        }
    }
}

// ---------------------------------------------------------------------------
// Canonicalization: erase parameter and lifetime names.
// ---------------------------------------------------------------------------

/// A raw parameter keeps only its kind.
pub open spec fn canon_param(p: RawParamV) -> CanonParam {
    match p {
        RawParamV::TypeParam { .. } => CanonParam::TypeParam,
        RawParamV::LifetimeParam { .. } => CanonParam::LifetimeParam,
    }
}

/// A raw argument loses its identifying name: every lifetime becomes the one
/// placeholder, and a type path loses its leading identifier.
pub open spec fn canon_arg(a: RawArgV) -> CanonArgV {
    match a {
        RawArgV::Lifetime { .. } => CanonArgV::Lifetime,
        RawArgV::TypePath { head: _, tail } => CanonArgV::TypePath { tail },
        RawArgV::TypeOther { repr } => CanonArgV::TypeOther { repr },
    }
}

pub open spec fn canon_params(ps: Seq<RawParamV>) -> Seq<CanonParam> {
    ps.map_values(|p: RawParamV| canon_param(p))
}

pub open spec fn canon_args(aa: Seq<RawArgV>) -> Seq<CanonArgV> {
    aa.map_values(|a: RawArgV| canon_arg(a))
}

/// Canonical form of a trait-implementation header.
pub open spec fn canon_impl(im: RawImplV) -> ImplSigV {
    ImplSigV {
        generics: canon_params(im.generics),
        trait_name: im.trait_name,
        trait_generics: canon_args(im.trait_generics),
        struct_name: im.struct_name,
        struct_generics: canon_args(im.struct_generics),
    }
}

/// Canonical form of a whole parsed fragment.
pub open spec fn canon_sig(r: RawSigV) -> SigV {
    match r {
        RawSigV::FnTy { name } => SigV::FnTy(FnSigV { name }),
        RawSigV::ImplTy(im) => SigV::ImplTy(canon_impl(im)),
    }
}

/// The equivalence verdict on two canonical implementation headers: trait
/// name, self-type name, and the two argument lists as unordered sets must
/// agree.  The declared generic parameter list is deliberately not part of
/// the verdict.
pub open spec fn impl_match(a: ImplSigV, b: ImplSigV) -> bool {
    a.trait_name == b.trait_name && a.struct_name == b.struct_name
        && a.trait_generics.to_set() == b.trait_generics.to_set()
        && a.struct_generics.to_set() == b.struct_generics.to_set()
}

// ---------------------------------------------------------------------------
// Classification of one argument / parameter chunk.
// ---------------------------------------------------------------------------

pub open spec fn kw_dyn() -> Seq<char> {
    seq!['d', 'y', 'n']
}

pub open spec fn kw_impl() -> Seq<char> {
    seq!['i', 'm', 'p', 'l']
}

pub open spec fn kw_fn() -> Seq<char> {
    seq!['f', 'n']
}

pub open spec fn kw_true() -> Seq<char> {
    seq!['t', 'r', 'u', 'e']
}

pub open spec fn kw_false() -> Seq<char> {
    seq!['f', 'a', 'l', 's', 'e']
}

pub open spec fn kw_const() -> Seq<char> {
    seq!['c', 'o', 'n', 's', 't']
}

/// Classifies the text `[lo0, hi0)` as one generic argument.  `None` means
/// the chunk contributes nothing: an empty chunk, a constant argument, an
/// associated-type binding (top-level `=`) or a constraint (top-level `:`).
pub open spec fn classify_arg(s: Seq<char>, lo0: int, hi0: int) -> Option<RawArgV> {
    let lo = skip_ws(s, lo0, hi0);
    let hi = rtrim_idx(s, lo, hi0);
    if lo >= hi {
        None
    } else if s[lo] == '\'' {
        Some(RawArgV::Lifetime { name: s.subrange(lo + 1, hi) })
    } else if has_top_colon(s, lo, hi, 0, ' ') {
        None
    } else if find_top_char(s, lo, hi, 0, ' ', '=') is Some {
        None
    } else if is_ident_start_char(s[lo]) {
        if word_at(s, lo, hi, kw_dyn()) || word_at(s, lo, hi, kw_impl()) || word_at(
            s,
            lo,
            hi,
            kw_fn(),
        ) {
            Some(RawArgV::TypeOther { repr: strip_ws(s, lo, hi) })
        } else if word_at(s, lo, hi, kw_true()) || word_at(s, lo, hi, kw_false()) {
            None
        } else {
            Some(
                RawArgV::TypePath {
                    head: s.subrange(lo, ident_end(s, lo, hi)),
                    tail: strip_ws(s, ident_end(s, lo, hi), hi),
                },
            )
        }
    } else if is_digit_char(s[lo]) || s[lo] == '-' || s[lo] == '"' || s[lo] == '{' {
        None
    } else {
        Some(RawArgV::TypeOther { repr: strip_ws(s, lo, hi) })
    }
}

/// Classifies the text `[lo0, hi0)` as one declared generic parameter.
/// Constant parameters and anything unrecognized contribute nothing.
pub open spec fn classify_param(s: Seq<char>, lo0: int, hi0: int) -> Option<RawParamV> {
    let lo = skip_ws(s, lo0, hi0);
    let hi = rtrim_idx(s, lo, hi0);
    if lo >= hi {
        None
    } else if s[lo] == '\'' {
        Some(RawParamV::LifetimeParam { name: s.subrange(lo + 1, ident_end(s, lo + 1, hi)) })
    } else if word_at(s, lo, hi, kw_const()) {
        None
    } else if is_ident_start_char(s[lo]) {
        Some(RawParamV::TypeParam { name: s.subrange(lo, ident_end(s, lo, hi)) })
    } else {
        None
    }
}

pub open spec fn canon_arg_opt(a: Option<RawArgV>) -> Option<CanonArgV> {
    match a {
        Some(x) => Some(canon_arg(x)),
        None => None,
    }
}

pub open spec fn canon_param_opt(p: Option<RawParamV>) -> Option<CanonParam> {
    match p {
        Some(x) => Some(canon_param(x)),
        None => None,
    }
}

pub open spec fn view_opt_arg(r: Option<CanonArg>) -> Option<CanonArgV> {
    match r {
        Some(x) => Some(x@),
        None => None,
    }
}

pub fn classify_arg_exec(v: &Vec<char>, lo0: usize, hi0: usize) -> (r: Option<CanonArg>)
    requires
        lo0 <= hi0,
        hi0 <= v@.len(),
    ensures
        view_opt_arg(r) == canon_arg_opt(classify_arg(v@, lo0 as int, hi0 as int)),
{
    let lo: usize = skip_ws_exec(v, lo0, hi0);
    let hi: usize = rtrim_exec(v, lo, hi0);
    if lo >= hi {
        None
    } else if v[lo] == '\'' {
        Some(CanonArg::Lifetime)
    } else if has_top_colon_exec(v, lo, hi) {
        None
    } else if find_top_char_exec(v, lo, hi, '=').is_some() {
        None
    } else if ident_start_char(v[lo]) {
        if word_at_exec(v, lo, hi, &['d', 'y', 'n']) || word_at_exec(v, lo, hi, &['i', 'm', 'p',
            'l']) || word_at_exec(v, lo, hi, &['f', 'n']) {
            Some(CanonArg::TypeOther { repr: strip_ws_exec(v, lo, hi) })
        } else if word_at_exec(v, lo, hi, &['t', 'r', 'u', 'e']) || word_at_exec(v, lo, hi, &['f',
            'a', 'l', 's', 'e']) {
            None
        } else {
            let e: usize = ident_end_exec(v, lo, hi);
            Some(CanonArg::TypePath { tail: strip_ws_exec(v, e, hi) })
        }
    } else if digit_char(v[lo]) || v[lo] == '-' || v[lo] == '"' || v[lo] == '{' {
        None
    } else {
        Some(CanonArg::TypeOther { repr: strip_ws_exec(v, lo, hi) })
    }
}

pub fn classify_param_exec(v: &Vec<char>, lo0: usize, hi0: usize) -> (r: Option<CanonParam>)
    requires
        lo0 <= hi0,
        hi0 <= v@.len(),
    ensures
        r == canon_param_opt(classify_param(v@, lo0 as int, hi0 as int)),
{
    let lo: usize = skip_ws_exec(v, lo0, hi0);
    let hi: usize = rtrim_exec(v, lo, hi0);
    if lo >= hi {
        None
    } else if v[lo] == '\'' {
        Some(CanonParam::LifetimeParam)
    } else if word_at_exec(v, lo, hi, &['c', 'o', 'n', 's', 't']) {
        None
    } else if ident_start_char(v[lo]) {
        Some(CanonParam::TypeParam)
    } else {
        None
    }
}

// ---------------------------------------------------------------------------
// Comma-separated lists of arguments / parameters.
// ---------------------------------------------------------------------------

pub open spec fn opt_arg_seq(a: Option<RawArgV>) -> Seq<RawArgV> {
    match a {
        Some(x) => seq![x],
        None => Seq::empty(),
    }
}

pub open spec fn opt_param_seq(p: Option<RawParamV>) -> Seq<RawParamV> {
    match p {
        Some(x) => seq![x],
        None => Seq::empty(),
    }
}

/// All generic arguments in `[start, hi)`, split at depth-zero commas; the
/// scan is at position `i` with depth `d` after previous character `prev`.
pub open spec fn args_in(
    s: Seq<char>,
    start: int,
    i: int,
    hi: int,
    d: int,
    prev: char,
) -> Seq<RawArgV>
    decreases hi - i,
{
    if start < 0 || i < start || i > hi || hi > s.len() {
        Seq::empty()
    } else if i == hi {
        opt_arg_seq(classify_arg(s, start, hi))
    } else if d == 0 && s[i] == ',' {
        opt_arg_seq(classify_arg(s, start, i)) + args_in(s, i + 1, i + 1, hi, 0, ',')
    } else {
        args_in(s, start, i + 1, hi, d + depth_change(prev, s[i]), s[i])
    }
}

/// All declared generic parameters in `[start, hi)`, split the same way.
pub open spec fn params_in(
    s: Seq<char>,
    start: int,
    i: int,
    hi: int,
    d: int,
    prev: char,
) -> Seq<RawParamV>
    decreases hi - i,
{
    if start < 0 || i < start || i > hi || hi > s.len() {
        Seq::empty()
    } else if i == hi {
        opt_param_seq(classify_param(s, start, hi))
    } else if d == 0 && s[i] == ',' {
        opt_param_seq(classify_param(s, start, i)) + params_in(s, i + 1, i + 1, hi, 0, ',')
    } else {
        params_in(s, start, i + 1, hi, d + depth_change(prev, s[i]), s[i])
    }
}

/// The canonical arguments of the argument list in `[lo, hi)`.
pub fn collect_args(v: &Vec<char>, lo: usize, hi: usize) -> (out: Vec<CanonArg>)
    requires
        lo <= hi,
        hi <= v@.len(),
    ensures
        canon_args_view(out@) == canon_args(args_in(v@, lo as int, lo as int, hi as int, 0, ' ')),
{
    let mut out: Vec<CanonArg> = Vec::new();
    let mut start: usize = lo;
    let mut i: usize = lo;
    let mut d: i128 = 0;
    let mut prev: char = ' ';
    while i < hi
        invariant
            lo <= start <= i <= hi <= v@.len(),
            -(i as int) <= d as int <= i as int,
            canon_args(args_in(v@, lo as int, lo as int, hi as int, 0, ' ')) == canon_args_view(
                out@,
            ) + canon_args(args_in(v@, start as int, i as int, hi as int, d as int, prev)),
        decreases hi - i,
    {
        let c: char = v[i];
        if d == 0 && c == ',' {
            let ghost pre = canon_args_view(out@);
            let a = classify_arg_exec(v, start, i);
            match a {
                Some(x) => {
                    out.push(x);
                    proof {
                        assert(canon_args_view(out@) =~= pre + canon_args(
                            opt_arg_seq(classify_arg(v@, start as int, i as int)),
                        ));
                    }
                },
                None => {
                    proof {
                        assert(canon_args(opt_arg_seq(classify_arg(v@, start as int, i as int)))
                            =~= Seq::<CanonArgV>::empty());
                        assert(canon_args_view(out@) =~= pre + canon_args(
                            opt_arg_seq(classify_arg(v@, start as int, i as int)),
                        ));
                    }
                },
            }
            proof {
                assert(args_in(v@, start as int, i as int, hi as int, d as int, prev)
                    == opt_arg_seq(classify_arg(v@, start as int, i as int)) + args_in(
                    v@,
                    i + 1 as int,
                    i + 1 as int,
                    hi as int,
                    0,
                    ',',
                ));
                assert(canon_args(
                    opt_arg_seq(classify_arg(v@, start as int, i as int)) + args_in(
                        v@,
                        i + 1 as int,
                        i + 1 as int,
                        hi as int,
                        0,
                        ',',
                    ),
                ) =~= canon_args(opt_arg_seq(classify_arg(v@, start as int, i as int)))
                    + canon_args(args_in(v@, i + 1 as int, i + 1 as int, hi as int, 0, ',')));
            }
            start = i + 1;
            i = i + 1;
            d = 0;
            prev = ',';
        } else {
            let dc: i8 = crate::scan::depth_change_exec(prev, c);
            d = d + dc as i128;
            prev = c;
            i = i + 1;
        }
    }
    let ghost pre = canon_args_view(out@);
    let a = classify_arg_exec(v, start, hi);
    match a {
        Some(x) => {
            out.push(x);
            proof {
                assert(canon_args_view(out@) =~= pre + canon_args(
                    opt_arg_seq(classify_arg(v@, start as int, hi as int)),
                ));
            }
        },
        None => {
            proof {
                assert(canon_args(opt_arg_seq(classify_arg(v@, start as int, hi as int))) =~= Seq::<
                    CanonArgV,
                >::empty());
                assert(canon_args_view(out@) =~= pre + canon_args(
                    opt_arg_seq(classify_arg(v@, start as int, hi as int)),
                ));
            }
        },
    }
    out
}

/// The canonical parameters of the declaration list in `[lo, hi)`.
pub fn collect_params(v: &Vec<char>, lo: usize, hi: usize) -> (out: Vec<CanonParam>)
    requires
        lo <= hi,
        hi <= v@.len(),
    ensures
        out@ == canon_params(params_in(v@, lo as int, lo as int, hi as int, 0, ' ')),
{
    let mut out: Vec<CanonParam> = Vec::new();
    let mut start: usize = lo;
    let mut i: usize = lo;
    let mut d: i128 = 0;
    let mut prev: char = ' ';
    while i < hi
        invariant
            lo <= start <= i <= hi <= v@.len(),
            -(i as int) <= d as int <= i as int,
            canon_params(params_in(v@, lo as int, lo as int, hi as int, 0, ' ')) == out@
                + canon_params(params_in(v@, start as int, i as int, hi as int, d as int, prev)),
        decreases hi - i,
    {
        let c: char = v[i];
        if d == 0 && c == ',' {
            let ghost pre = out@;
            let p = classify_param_exec(v, start, i);
            match p {
                Some(x) => {
                    out.push(x);
                },
                None => {},
            }
            proof {
                assert(out@ =~= pre + canon_params(
                    opt_param_seq(classify_param(v@, start as int, i as int)),
                ));
                assert(params_in(v@, start as int, i as int, hi as int, d as int, prev)
                    == opt_param_seq(classify_param(v@, start as int, i as int)) + params_in(
                    v@,
                    i + 1 as int,
                    i + 1 as int,
                    hi as int,
                    0,
                    ',',
                ));
                assert(canon_params(
                    opt_param_seq(classify_param(v@, start as int, i as int)) + params_in(
                        v@,
                        i + 1 as int,
                        i + 1 as int,
                        hi as int,
                        0,
                        ',',
                    ),
                ) =~= canon_params(opt_param_seq(classify_param(v@, start as int, i as int)))
                    + canon_params(params_in(v@, i + 1 as int, i + 1 as int, hi as int, 0, ',')));
            }
            start = i + 1;
            i = i + 1;
            d = 0;
            prev = ',';
        } else {
            let dc: i8 = crate::scan::depth_change_exec(prev, c);
            d = d + dc as i128;
            prev = c;
            i = i + 1;
        }
    }
    let ghost pre = out@;
    let p = classify_param_exec(v, start, hi);
    match p {
        Some(x) => {
            out.push(x);
        },
        None => {},
    }
    proof {
        assert(out@ =~= pre + canon_params(
            opt_param_seq(classify_param(v@, start as int, hi as int)),
        ));
    }
    out
}

// ---------------------------------------------------------------------------
// Set-based equality of canonical argument lists.
// ---------------------------------------------------------------------------

/// Equality of two canonical arguments, i.e. of their views.
pub fn canon_arg_eq(a: &CanonArg, b: &CanonArg) -> (r: bool)
    ensures
        r == (a@ == b@),
{
    match (a, b) {
        (CanonArg::Lifetime, CanonArg::Lifetime) => true,
        (CanonArg::TypePath { tail: ta }, CanonArg::TypePath { tail: tb }) => chars_eq(ta, tb),
        (CanonArg::TypeOther { repr: ra }, CanonArg::TypeOther { repr: rb }) => chars_eq(ra, rb),
        _ => false,
    }
}

/// Whether some element of `v` has the view `x@`.
pub fn canon_args_contains(v: &Vec<CanonArg>, x: &CanonArg) -> (r: bool)
    ensures
        r == canon_args_view(v@).contains(x@),
{
    let n: usize = v.len();
    let mut i: usize = 0;
    while i < n
        invariant
            i <= n,
            n == v@.len(),
            forall|k: int| 0 <= k < i ==> canon_args_view(v@)[k] != x@,
        decreases n - i,
    {
        if canon_arg_eq(&v[i], x) {
            proof {
                assert(canon_args_view(v@)[i as int] == x@);
            }
            return true;
        }
        proof {
            assert(canon_args_view(v@)[i as int] == v@[i as int]@);
        }
        i = i + 1;
    }
    proof {
        if canon_args_view(v@).contains(x@) {
            let k = choose|k: int|
                0 <= k < canon_args_view(v@).len() && canon_args_view(v@)[k] == x@;
            assert(false);
        }
    }
    false
}

/// Whether every element view of `a` also occurs in `b`.
fn canon_args_included(a: &Vec<CanonArg>, b: &Vec<CanonArg>) -> (r: bool)
    ensures
        r == forall|k: int|
            0 <= k < a@.len() ==> canon_args_view(b@).contains(#[trigger] canon_args_view(a@)[k]),
{
    let n: usize = a.len();
    let mut i: usize = 0;
    while i < n
        invariant
            i <= n,
            n == a@.len(),
            forall|k: int|
                0 <= k < i ==> canon_args_view(b@).contains(#[trigger] canon_args_view(a@)[k]),
        decreases n - i,
    {
        if !canon_args_contains(b, &a[i]) {
            proof {
                assert(canon_args_view(a@)[i as int] == a@[i as int]@);
            }
            return false;
        }
        proof {
            assert(canon_args_view(a@)[i as int] == a@[i as int]@);
        }
        i = i + 1;
    }
    true
}

/// Whether the canonical views of `a` and `b` are equal as unordered sets.
pub fn canon_args_set_eq(a: &Vec<CanonArg>, b: &Vec<CanonArg>) -> (r: bool)
    ensures
        r == (canon_args_view(a@).to_set() == canon_args_view(b@).to_set()),
{
    let ab = canon_args_included(a, b);
    let ba = canon_args_included(b, a);
    proof {
        let sa = canon_args_view(a@);
        let sb = canon_args_view(b@);
        if ab && ba {
            assert forall|x: CanonArgV| sa.to_set().contains(x) implies sb.to_set().contains(
                x,
            ) by {
                let k = choose|k: int| 0 <= k < sa.len() && sa[k] == x;
                assert(sb.contains(sa[k]));
            }
            assert forall|x: CanonArgV| sb.to_set().contains(x) implies sa.to_set().contains(
                x,
            ) by {
                let k = choose|k: int| 0 <= k < sb.len() && sb[k] == x;
                assert(sa.contains(sb[k]));
            }
            assert(sa.to_set() =~= sb.to_set());
        } else if !ab {
            let k = choose|k: int| 0 <= k < sa.len() && !sb.contains(#[trigger] sa[k]);
            assert(sa.to_set().contains(sa[k]));
            assert(!sb.to_set().contains(sa[k]));
        } else {
            let k = choose|k: int| 0 <= k < sb.len() && !sa.contains(#[trigger] sb[k]);
            assert(sb.to_set().contains(sb[k]));
            assert(!sa.to_set().contains(sb[k]));
        }
    }
    ab && ba
}

} // verus!
