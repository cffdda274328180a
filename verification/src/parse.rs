//! The signature parser: from a raw fragment string to a canonical shape.
//!
//! A fragment is one of three things.  A fragment whose first four characters
//! are `impl` is treated as a trait-implementation header: everything from
//! the first occurrence of the substring `where` onward is discarded (bound
//! expressions are too unstable across documentation renderings to compare),
//! then the declared generic parameter list, the trait reference and the
//! self type are extracted.  A fragment containing the standalone keyword
//! `fn` after optional qualifiers (`pub`, `const`, `unsafe`, `async`,
//! `default`, `extern "..."`) is a function declaration, of which only the
//! identifier is kept.  Anything else — type aliases, inherent `impl`s
//! (no `for` clause), a self type that is not a plain named path, or text
//! the grammar cannot make sense of — yields `None`, and callers degrade to
//! verbatim string comparison.

use vstd::prelude::*;
use crate::text::{is_ws_char, is_ident_start_char, ws_char, ident_start_char, chars_of};
use crate::scan::{find_where, find_where_exec, lemma_find_where_bounds, find_for, find_for_exec,
    lemma_find_for_props, find_close, find_close_exec, find_char, find_char_exec, skip_ws,
    skip_ws_exec, lemma_skip_ws_bounds, rtrim_idx, rtrim_exec, ident_end, ident_end_exec,
    word_at, word_at_exec, copy_range, lemma_find_close_bounds, lemma_find_char_bounds};
use crate::sig::{RawArgV, RawParamV, RawImplV, RawSigV, CanonParam, CanonArg, ApiSignature,
    FnSignature, ImplSignature, SigV, canon_params, canon_args, canon_sig, canon_args_view,
    args_in, params_in, collect_args, collect_params, kw_dyn, kw_impl, kw_fn, kw_const};

verus! {

pub open spec fn kw_pub() -> Seq<char> {
    seq!['p', 'u', 'b']
}

pub open spec fn kw_unsafe() -> Seq<char> {
    seq!['u', 'n', 's', 'a', 'f', 'e']
}

pub open spec fn kw_async() -> Seq<char> {
    seq!['a', 's', 'y', 'n', 'c']
}

pub open spec fn kw_default() -> Seq<char> {
    seq!['d', 'e', 'f', 'a', 'u', 'l', 't']
}

pub open spec fn kw_extern() -> Seq<char> {
    seq!['e', 'x', 't', 'e', 'r', 'n']
}

/// The fragment's first four characters spell `impl` and something follows.
pub open spec fn impl_prefixed(s: Seq<char>) -> bool {
    s.len() > 4 && s[0] == 'i' && s[1] == 'm' && s[2] == 'p' && s[3] == 'l'
}

/// Index at which the fragment is truncated: the start of the first
/// occurrence of the substring `where`, or the whole length.
pub open spec fn where_cut(s: Seq<char>) -> int {
    match find_where(s, 0) {
        Some(k) => k,
        None => s.len() as int,
    }
}

pub proof fn lemma_where_cut_bounds(s: Seq<char>)
    ensures
        0 <= where_cut(s) <= s.len(),
{
    lemma_find_where_bounds(s, 0);
}

/// Reads a type path head out of `[lo0, hi0)`: an optional leading `::`, the
/// first segment's identifier, and that segment's angle-bracketed argument
/// list if one follows.  Anything after the argument list (further path
/// segments, parenthesized argument sugar) does not take part in the
/// comparison and is ignored.  Returns `None` when the text does not start
/// with a plain named path.
pub open spec fn parse_path_head(s: Seq<char>, lo0: int, hi0: int) -> Option<
    (Seq<char>, Seq<RawArgV>),
> {
    let lo1 = skip_ws(s, lo0, hi0);
    let hi = rtrim_idx(s, lo1, hi0);
    let lo = if lo1 + 2 <= hi && s[lo1] == ':' && s[lo1 + 1] == ':' {
        lo1 + 2
    } else {
        lo1
    };
    if lo >= hi || !is_ident_start_char(s[lo]) {
        None
    } else if word_at(s, lo, hi, kw_dyn()) || word_at(s, lo, hi, kw_impl()) || word_at(
        s,
        lo,
        hi,
        kw_fn(),
    ) {
        None
    } else {
        let e = ident_end(s, lo, hi);
        let k = skip_ws(s, e, hi);
        if k < hi && s[k] == '<' {
            match find_close(s, k + 1, hi, 1, '<', '>') {
                Some(m) => Some((s.subrange(lo, e), args_in(s, k + 1, k + 1, m, 0, ' '))),
                None => None,
            }
        } else {
            Some((s.subrange(lo, e), Seq::empty()))
        }
    }
}

/// Completes an `impl` header: finds the standalone `for` separating the
/// trait reference from the self type, and reads both path heads.
pub open spec fn finish_impl(s: Seq<char>, params: Seq<RawParamV>, from: int, hi: int) -> Option<
    RawSigV,
> {
    match find_for(s, from, hi, 0, ' ') {
        None => None,
        Some(k) => match (parse_path_head(s, from, k), parse_path_head(s, k + 3, hi)) {
            (Some(t), Some(st)) => Some(
                RawSigV::ImplTy(
                    RawImplV {
                        generics: params,
                        trait_name: t.0,
                        trait_generics: t.1,
                        struct_name: st.0,
                        struct_generics: st.1,
                    },
                ),
            ),
            _ => None,
        },
    }
}

/// Parses a trait-implementation header (the fragment is `impl`-prefixed).
pub open spec fn parse_impl(s: Seq<char>) -> Option<RawSigV> {
    let hi = where_cut(s);
    if hi <= 4 {
        None
    } else if s[4] == '<' {
        match find_close(s, 5, hi, 1, '<', '>') {
            Some(m) => finish_impl(s, params_in(s, 5, 5, m, 0, ' '), m + 1, hi),
            None => None,
        }
    } else if is_ws_char(s[4]) {
        finish_impl(s, Seq::empty(), 4, hi)
    } else {
        None
    }
}

/// Parses a function declaration from position `i`: skips qualifier
/// keywords, then expects `fn` followed by the identifier that names the
/// function.  Everything after the identifier is irrelevant by design.
pub open spec fn parse_fn(s: Seq<char>, i: int) -> Option<Seq<char>>
    decreases s.len() - i,
    via parse_fn_dec
{
    let n = s.len() as int;
    let j = skip_ws(s, i, n);
    if i < 0 || j >= n {
        None
    } else if word_at(s, j, n, kw_fn()) {
        let k = skip_ws(s, j + 2, n);
        if k < n && is_ident_start_char(s[k]) {
            Some(s.subrange(k, ident_end(s, k, n)))
        } else {
            None
        }
    } else if word_at(s, j, n, kw_pub()) {
        let j2 = skip_ws(s, j + 3, n);
        if j2 < n && s[j2] == '(' {
            match find_close(s, j2 + 1, n, 1, '(', ')') {
                Some(m) => parse_fn(s, m + 1),
                None => None,
            }
        } else {
            parse_fn(s, j + 3)
        }
    } else if word_at(s, j, n, kw_const()) {
        parse_fn(s, j + 5)
    } else if word_at(s, j, n, kw_unsafe()) {
        parse_fn(s, j + 6)
    } else if word_at(s, j, n, kw_async()) {
        parse_fn(s, j + 5)
    } else if word_at(s, j, n, kw_default()) {
        parse_fn(s, j + 7)
    } else if word_at(s, j, n, kw_extern()) {
        let j2 = skip_ws(s, j + 6, n);
        if j2 < n && s[j2] == '"' {
            match find_char(s, j2 + 1, n, '"') {
                Some(m) => parse_fn(s, m + 1),
                None => None,
            }
        } else {
            parse_fn(s, j + 6)
        }
    } else {
        None
    }
}

#[via_fn]
proof fn parse_fn_dec(s: Seq<char>, i: int) {
    let n = s.len() as int;
    if 0 <= i && i <= n {
        lemma_skip_ws_bounds(s, i, n);
        let j = skip_ws(s, i, n);
        if 0 <= j + 3 && j + 3 <= n {
            lemma_skip_ws_bounds(s, j + 3, n);
            let j2 = skip_ws(s, j + 3, n);
            lemma_find_close_bounds(s, j2 + 1, n, 1, '(', ')');
        }
        if 0 <= j + 6 && j + 6 <= n {
            lemma_skip_ws_bounds(s, j + 6, n);
            let j2 = skip_ws(s, j + 6, n);
            lemma_find_char_bounds(s, j2 + 1, n, '"');
        }
    }
}

/// Raw parse of a whole fragment.
pub open spec fn spec_parse_raw(s: Seq<char>) -> Option<RawSigV> {
    if impl_prefixed(s) {
        parse_impl(s)
    } else {
        match parse_fn(s, 0) {
            Some(name) => Some(RawSigV::FnTy { name }),
            None => None,
        }
    }
}

pub open spec fn canon_opt(r: Option<RawSigV>) -> Option<SigV> {
    match r {
        Some(x) => Some(canon_sig(x)),
        None => None,
    }
}

/// Canonical parse of a whole fragment: what `parse_api` computes.
pub open spec fn spec_parse(s: Seq<char>) -> Option<SigV> {
    canon_opt(spec_parse_raw(s))
}

/// Relation between an exec path-head result and its specification value.
pub open spec fn path_head_rel(
    r: Option<(Vec<char>, Vec<CanonArg>)>,
    p: Option<(Seq<char>, Seq<RawArgV>)>,
) -> bool {
    match (r, p) {
        (Some(rv), Some(pv)) => rv.0@ == pv.0 && canon_args_view(rv.1@) == canon_args(pv.1),
        (None, None) => true,
        _ => false,
    }
}

fn parse_path_head_exec(v: &Vec<char>, lo0: usize, hi0: usize) -> (r: Option<
    (Vec<char>, Vec<CanonArg>),
>)
    requires
        lo0 <= hi0,
        hi0 <= v@.len(),
    ensures
        path_head_rel(r, parse_path_head(v@, lo0 as int, hi0 as int)),
{
    let lo1: usize = skip_ws_exec(v, lo0, hi0);
    let hi: usize = rtrim_exec(v, lo1, hi0);
    let lo: usize = if hi - lo1 >= 2 && v[lo1] == ':' && v[lo1 + 1] == ':' {
        lo1 + 2
    } else {
        lo1
    };
    if lo >= hi {
        return None;
    }
    if !ident_start_char(v[lo]) {
        return None;
    }
    if word_at_exec(v, lo, hi, &['d', 'y', 'n']) || word_at_exec(v, lo, hi, &['i', 'm', 'p', 'l'])
        || word_at_exec(v, lo, hi, &['f', 'n']) {
        return None;
    }
    let e: usize = ident_end_exec(v, lo, hi);
    let name = copy_range(v, lo, e);
    let k: usize = skip_ws_exec(v, e, hi);
    if k < hi && v[k] == '<' {
        match find_close_exec(v, k + 1, hi, '<', '>') {
            Some(m) => {
                let args = collect_args(v, k + 1, m);
                Some((name, args))
            },
            None => None,
        }
    } else {
        let args: Vec<CanonArg> = Vec::new();
        proof {
            assert(canon_args_view(args@) =~= canon_args(Seq::<RawArgV>::empty()));
        }
        Some((name, args))
    }
}

/// Relation between an exec parse result and the canonical specification
/// value: same success, and on success the view of the returned signature is
/// exactly the specified canonical shape.
pub open spec fn parse_rel(r: Option<ApiSignature>, p: Option<SigV>) -> bool {
    match (r, p) {
        (Some(sig), Some(x)) => sig@ == x,
        (None, None) => true,
        _ => false,
    }
}

fn finish_impl_exec(
    v: &Vec<char>,
    params: Vec<CanonParam>,
    raw_params: Ghost<Seq<RawParamV>>,
    from: usize,
    hi: usize,
) -> (r: Option<ApiSignature>)
    requires
        from <= hi,
        hi <= v@.len(),
        params@ == canon_params(raw_params@),
    ensures
        parse_rel(r, canon_opt(finish_impl(v@, raw_params@, from as int, hi as int))),
{
    match find_for_exec(v, from, hi) {
        None => None,
        Some(k) => {
            proof {
                lemma_find_for_props(v@, from as int, hi as int, 0, ' ');
            }
            let t = parse_path_head_exec(v, from, k);
            let st = parse_path_head_exec(v, k + 3, hi);
            match (t, st) {
                (Some(tv), Some(sv)) => {
                    let (trait_name, trait_generics) = tv;
                    let (struct_name, struct_generics) = sv;
                    let sig = ImplSignature {
                        generics: params,
                        trait_name,
                        trait_generics,
                        struct_name,
                        struct_generics,
                    };
                    Some(ApiSignature::ImplTy(sig))
                },
                _ => None,
            }
        },
    }
}

fn parse_fn_exec(v: &Vec<char>, i: usize) -> (r: Option<Vec<char>>)
    requires
        i <= v@.len(),
    ensures
        match r {
            Some(name) => parse_fn(v@, i as int) == Some(name@),
            None => parse_fn(v@, i as int) is None,
        },
    decreases v@.len() - i,
{
    let n: usize = v.len();
    let j: usize = skip_ws_exec(v, i, n);
    if j >= n {
        return None;
    }
    if word_at_exec(v, j, n, &['f', 'n']) {
        let k: usize = skip_ws_exec(v, j + 2, n);
        if k < n && ident_start_char(v[k]) {
            let e: usize = ident_end_exec(v, k, n);
            return Some(copy_range(v, k, e));
        }
        return None;
    }
    if word_at_exec(v, j, n, &['p', 'u', 'b']) {
        let j2: usize = skip_ws_exec(v, j + 3, n);
        if j2 < n && v[j2] == '(' {
            return match find_close_exec(v, j2 + 1, n, '(', ')') {
                Some(m) => parse_fn_exec(v, m + 1),
                None => None,
            };
        }
        return parse_fn_exec(v, j + 3);
    }
    if word_at_exec(v, j, n, &['c', 'o', 'n', 's', 't']) {
        return parse_fn_exec(v, j + 5);
    }
    if word_at_exec(v, j, n, &['u', 'n', 's', 'a', 'f', 'e']) {
        return parse_fn_exec(v, j + 6);
    }
    if word_at_exec(v, j, n, &['a', 's', 'y', 'n', 'c']) {
        return parse_fn_exec(v, j + 5);
    }
    if word_at_exec(v, j, n, &['d', 'e', 'f', 'a', 'u', 'l', 't']) {
        return parse_fn_exec(v, j + 7);
    }
    if word_at_exec(v, j, n, &['e', 'x', 't', 'e', 'r', 'n']) {
        let j2: usize = skip_ws_exec(v, j + 6, n);
        if j2 < n && v[j2] == '"' {
            return match find_char_exec(v, j2 + 1, n, '"') {
                Some(m) => parse_fn_exec(v, m + 1),
                None => None,
            };
        }
        return parse_fn_exec(v, j + 6);
    }
    None
}

/// Parses a signature fragment into its canonical comparable shape, or
/// `None` when no structural form is available.  This function is total: no
/// input makes it fail or panic, and `None` is an ordinary answer meaning
/// "compare the raw text instead".
pub fn parse_api(api_sig: &str) -> (r: Option<ApiSignature>)
    ensures
        parse_rel(r, spec_parse(api_sig@)),
{
    let v = chars_of(api_sig);
    let n: usize = v.len();
    if n > 4 && v[0] == 'i' && v[1] == 'm' && v[2] == 'p' && v[3] == 'l' {
        proof {
            assert(impl_prefixed(v@));
            lemma_where_cut_bounds(v@);
        }
        let hi: usize = match find_where_exec(&v, 0) {
            Some(k) => k,
            None => n,
        };
        proof {
            assert(hi as int == where_cut(v@));
        }
        if hi <= 4 {
            return None;
        }
        if v[4] == '<' {
            match find_close_exec(&v, 5, hi, '<', '>') {
                Some(m) => {
                    let params = collect_params(&v, 5, m);
                    finish_impl_exec(
                        &v,
                        params,
                        Ghost(params_in(v@, 5, 5, m as int, 0, ' ')),
                        m + 1,
                        hi,
                    )
                },
                None => None,
            }
        } else if ws_char(v[4]) {
            let params: Vec<CanonParam> = Vec::new();
            proof {
                assert(params@ =~= canon_params(Seq::<RawParamV>::empty()));
            }
            finish_impl_exec(&v, params, Ghost(Seq::<RawParamV>::empty()), 4, hi)
        } else {
            None
        }
    } else {
        proof {
            assert(!impl_prefixed(v@));
        }
        match parse_fn_exec(&v, 0) {
            Some(name) => Some(ApiSignature::FnTy(FnSignature { name })),
            None => None,
        }
    }
}

} // verus!
