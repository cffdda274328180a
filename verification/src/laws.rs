//! The laws of the equivalence relation and of the linker, stated and proved
//! over the same specification functions that the executable contracts use.

use vstd::prelude::*;
use crate::text::{is_ws_char, is_ident_char, is_ident_start_char};
use crate::scan::{skip_ws, lemma_skip_ws_bounds, ident_end, word_at, find_close, find_char,
    depth_change};
use crate::sig::{RawArgV, RawImplV, RawSigV, canon_arg, canon_args, canon_impl, impl_match,
    SigV, kw_const, kw_fn};
use crate::parse::{parse_fn, spec_parse_raw, spec_parse, impl_prefixed, kw_pub, kw_unsafe,
    kw_async, kw_default, kw_extern};
use crate::api::{ApiEntry, entries_same, entries_similar, spec_compare};
use crate::link::{first_same_from, first_similar_from, linked_index};

verus! {

// ---------------------------------------------------------------------------
// Reflexivity and symmetry of the equivalence verdict.
// ---------------------------------------------------------------------------

/// Every fragment is equivalent to itself, whether or not it parses.
pub proof fn lemma_compare_reflexive(a: Seq<char>)
    ensures
        spec_compare(a, a),
{
}

/// The equivalence verdict does not depend on the order of its arguments.
pub proof fn lemma_compare_symmetric(a: Seq<char>, b: Seq<char>)
    ensures
        spec_compare(a, b) == spec_compare(b, a),
{
}

/// A fragment with no structural form compares by its text alone, whatever
/// stands on the other side.
pub proof fn lemma_unparseable_compares_by_text(a: Seq<char>, b: Seq<char>)
    requires
        spec_parse(a) is None,
    ensures
        spec_compare(a, b) == (a == b),
{
}

/// A function declaration and a trait-implementation header are never
/// equivalent: parsing is a function of the text, so fragments of different
/// shapes cannot be byte-identical either.
pub proof fn lemma_mixed_shapes_never_equivalent(a: Seq<char>, b: Seq<char>)
    requires
        spec_parse(a) matches Some(SigV::ImplTy(_)),
        spec_parse(b) matches Some(SigV::FnTy(_)),
    ensures
        !spec_compare(a, b),
{
    if a == b {
        assert(spec_parse(a) == spec_parse(b));
        assert(false);
    }
}

// ---------------------------------------------------------------------------
// Name invariance: generic and lifetime parameter names never matter.
// ---------------------------------------------------------------------------

/// Two raw arguments that differ at most in their identifying names: any two
/// lifetimes agree, and two type paths agree whenever everything after the
/// leading identifier agrees.
pub open spec fn arg_alpha_eq(x: RawArgV, y: RawArgV) -> bool {
    match (x, y) {
        (RawArgV::Lifetime { .. }, RawArgV::Lifetime { .. }) => true,
        (
            RawArgV::TypePath { head: _, tail: t1 },
            RawArgV::TypePath { head: _, tail: t2 },
        ) => t1 == t2,
        (RawArgV::TypeOther { repr: r1 }, RawArgV::TypeOther { repr: r2 }) => r1 == r2,
        _ => false,
    }
}

/// Pointwise alpha-equality of two raw argument lists.
pub open spec fn args_alpha_eq(xs: Seq<RawArgV>, ys: Seq<RawArgV>) -> bool {
    xs.len() == ys.len() && forall|i: int|
        0 <= i < xs.len() ==> arg_alpha_eq(#[trigger] xs[i], ys[i])
}

/// Two implementation headers whose trait and self-type names agree and
/// whose argument lists agree up to renamed generic and lifetime identifiers
/// are equivalent — and their declared generic parameter lists may differ
/// arbitrarily, since the verdict never looks at them.  This is the
/// generic-name invariance and the lifetime-elision invariance of the
/// canonical form in one statement.
pub proof fn lemma_names_and_params_irrelevant(r1: RawImplV, r2: RawImplV)
    requires
        r1.trait_name == r2.trait_name,
        r1.struct_name == r2.struct_name,
        args_alpha_eq(r1.trait_generics, r2.trait_generics),
        args_alpha_eq(r1.struct_generics, r2.struct_generics),
    ensures
        impl_match(canon_impl(r1), canon_impl(r2)),
{
    assert forall|i: int| 0 <= i < r1.trait_generics.len() implies canon_arg(
        r1.trait_generics[i],
    ) == canon_arg(r2.trait_generics[i]) by {
        assert(arg_alpha_eq(r1.trait_generics[i], r2.trait_generics[i]));
    }
    assert(canon_args(r1.trait_generics) =~= canon_args(r2.trait_generics));
    assert forall|i: int| 0 <= i < r1.struct_generics.len() implies canon_arg(
        r1.struct_generics[i],
    ) == canon_arg(r2.struct_generics[i]) by {
        assert(arg_alpha_eq(r1.struct_generics[i], r2.struct_generics[i]));
    }
    assert(canon_args(r1.struct_generics) =~= canon_args(r2.struct_generics));
}

/// The same invariance lifted to whole fragments: two fragments that parse
/// into alpha-equal implementation headers are equivalent.
pub proof fn lemma_equivalent_up_to_names(a: Seq<char>, b: Seq<char>, r1: RawImplV, r2: RawImplV)
    requires
        spec_parse_raw(a) == Some(RawSigV::ImplTy(r1)),
        spec_parse_raw(b) == Some(RawSigV::ImplTy(r2)),
        r1.trait_name == r2.trait_name,
        r1.struct_name == r2.struct_name,
        args_alpha_eq(r1.trait_generics, r2.trait_generics),
        args_alpha_eq(r1.struct_generics, r2.struct_generics),
    ensures
        spec_compare(a, b),
{
    lemma_names_and_params_irrelevant(r1, r2);
}

// ---------------------------------------------------------------------------
// Trait-argument sensitivity: argument lists of different size distinguish.
// ---------------------------------------------------------------------------

/// An implementation header whose trait carries no generic arguments is
/// never equivalent to one whose trait carries at least one: the canonical
/// argument sets differ, whatever the names involved.
pub proof fn lemma_trait_args_distinguish(r1: RawImplV, r2: RawImplV)
    requires
        r1.trait_generics.len() == 0,
        r2.trait_generics.len() > 0,
    ensures
        !impl_match(canon_impl(r1), canon_impl(r2)),
{
    let s1 = canon_args(r1.trait_generics);
    let s2 = canon_args(r2.trait_generics);
    assert(s1.len() == 0);
    assert(s2[0] == canon_arg(r2.trait_generics[0]));
    assert(s2.contains(s2[0]));
    assert(s2.to_set().contains(s2[0]));
    assert(!s1.contains(s2[0]));
    assert(!s1.to_set().contains(s2[0]));
}

// ---------------------------------------------------------------------------
// Function equivalence is name equivalence.
// ---------------------------------------------------------------------------

/// Two fragments that parse as function declarations are equivalent exactly
/// when their identifiers agree; parameters, return types and bounds play no
/// part, by design.
pub proof fn lemma_fn_equivalence_is_name_equality(
    a: Seq<char>,
    b: Seq<char>,
    n1: Seq<char>,
    n2: Seq<char>,
)
    requires
        spec_parse_raw(a) == Some(RawSigV::FnTy { name: n1 }),
        spec_parse_raw(b) == Some(RawSigV::FnTy { name: n2 }),
    ensures
        spec_compare(a, b) == (n1 == n2),
{
}

// ---------------------------------------------------------------------------
// Trailing text after a function's identifier is irrelevant (in particular,
// a `where` clause).
// ---------------------------------------------------------------------------

/// `s1` is a character-level prefix of `s2`, and where `s2` continues it
/// does not extend an identifier.
pub open spec fn prefix_with_boundary(s1: Seq<char>, s2: Seq<char>) -> bool {
    s1.len() <= s2.len() && (forall|k: int| 0 <= k < s1.len() ==> s1[k] == s2[k]) && (s1.len()
        < s2.len() ==> !is_ident_char(s2[s1.len() as int]))
}

proof fn lemma_skip_ws_prefix(s1: Seq<char>, s2: Seq<char>, i: int)
    requires
        prefix_with_boundary(s1, s2),
        0 <= i <= s1.len(),
        skip_ws(s1, i, s1.len() as int) < s1.len(),
    ensures
        skip_ws(s2, i, s2.len() as int) == skip_ws(s1, i, s1.len() as int),
    decreases s1.len() - i,
{
    if i < s1.len() && is_ws_char(s1[i]) {
        lemma_skip_ws_prefix(s1, s2, i + 1);
    }
}

proof fn lemma_ident_end_prefix(s1: Seq<char>, s2: Seq<char>, k: int)
    requires
        prefix_with_boundary(s1, s2),
        0 <= k <= s1.len(),
    ensures
        ident_end(s2, k, s2.len() as int) == ident_end(s1, k, s1.len() as int),
    decreases s1.len() - k,
{
    if k < s1.len() && is_ident_char(s1[k]) {
        lemma_ident_end_prefix(s1, s2, k + 1);
    }
}

proof fn lemma_word_at_prefix(s1: Seq<char>, s2: Seq<char>, j: int, w: Seq<char>)
    requires
        prefix_with_boundary(s1, s2),
        word_at(s1, j, s1.len() as int, w),
    ensures
        word_at(s2, j, s2.len() as int, w),
{
    assert forall|k: int| 0 <= k < w.len() implies s2[j + k] == w[k] by {
        assert(s1[j + k] == w[k]);
    }
}

proof fn lemma_find_close_prefix(s1: Seq<char>, s2: Seq<char>, i: int, d: int, prev: char, c: char)
    requires
        prefix_with_boundary(s1, s2),
        0 <= i,
        find_close(s1, i, s1.len() as int, d, prev, c) is Some,
    ensures
        find_close(s2, i, s2.len() as int, d, prev, c) == find_close(
            s1,
            i,
            s1.len() as int,
            d,
            prev,
            c,
        ),
    decreases s1.len() - i,
{
    let nd = d + depth_change(prev, s1[i]);
    if nd != 0 {
        lemma_find_close_prefix(s1, s2, i + 1, nd, s1[i], c);
    }
}

proof fn lemma_find_char_prefix(s1: Seq<char>, s2: Seq<char>, i: int, t: char)
    requires
        prefix_with_boundary(s1, s2),
        0 <= i,
        find_char(s1, i, s1.len() as int, t) is Some,
    ensures
        find_char(s2, i, s2.len() as int, t) == find_char(s1, i, s1.len() as int, t),
    decreases s1.len() - i,
{
    if i < s1.len() && s1[i] != t {
        lemma_find_char_prefix(s1, s2, i + 1, t);
    }
}

proof fn lemma_parse_fn_prefix(s1: Seq<char>, s2: Seq<char>, i: int)
    requires
        prefix_with_boundary(s1, s2),
        0 <= i <= s1.len(),
        parse_fn(s1, i) is Some,
    ensures
        parse_fn(s2, i) == parse_fn(s1, i),
    decreases s1.len() - i,
{
    let n1 = s1.len() as int;
    let n2 = s2.len() as int;
    lemma_skip_ws_bounds(s1, i, n1);
    let j = skip_ws(s1, i, n1);
    assert(j < n1);
    lemma_skip_ws_prefix(s1, s2, i);
    if word_at(s1, j, n1, kw_fn()) {
        lemma_word_at_prefix(s1, s2, j, kw_fn());
        lemma_skip_ws_bounds(s1, j + 2, n1);
        let k = skip_ws(s1, j + 2, n1);
        assert(k < n1 && is_ident_start_char(s1[k]));
        lemma_skip_ws_prefix(s1, s2, j + 2);
        lemma_ident_end_prefix(s1, s2, k);
        crate::scan::lemma_ident_end_bounds(s1, k, n1);
        let e = ident_end(s1, k, n1);
        assert(s1.subrange(k, e) =~= s2.subrange(k, e));
    } else if word_at(s1, j, n1, kw_pub()) {
        assert(!word_at(s2, j, n2, kw_fn())) by {
            assert(s2[j] == 'p');
            assert(kw_fn()[0] == 'f');
        }
        lemma_word_at_prefix(s1, s2, j, kw_pub());
        let j2 = skip_ws(s1, j + 3, n1);
        lemma_skip_ws_bounds(s1, j + 3, n1);
        if j2 < n1 && s1[j2] == '(' {
            lemma_skip_ws_prefix(s1, s2, j + 3);
            let m = find_close(s1, j2 + 1, n1, 1, '(', ')');
            assert(m is Some);
            lemma_find_close_prefix(s1, s2, j2 + 1, 1, '(', ')');
            crate::scan::lemma_find_close_bounds(s1, j2 + 1, n1, 1, '(', ')');
            lemma_parse_fn_prefix(s1, s2, m->0 + 1);
        } else {
            if j2 == n1 {
                assert(skip_ws(s1, j + 3, n1) == n1);
                assert(parse_fn(s1, j + 3) is None);
                assert(false);
            }
            lemma_skip_ws_prefix(s1, s2, j + 3);
            lemma_parse_fn_prefix(s1, s2, j + 3);
        }
    } else if word_at(s1, j, n1, kw_const()) {
        assert(!word_at(s2, j, n2, kw_fn()) && !word_at(s2, j, n2, kw_pub())) by {
            assert(s2[j] == 'c');
            assert(kw_fn()[0] == 'f' && kw_pub()[0] == 'p');
        }
        lemma_word_at_prefix(s1, s2, j, kw_const());
        lemma_parse_fn_prefix(s1, s2, j + 5);
    } else if word_at(s1, j, n1, kw_unsafe()) {
        assert(!word_at(s2, j, n2, kw_fn()) && !word_at(s2, j, n2, kw_pub()) && !word_at(
            s2,
            j,
            n2,
            kw_const(),
        )) by {
            assert(s2[j] == 'u');
            assert(kw_fn()[0] == 'f' && kw_pub()[0] == 'p' && kw_const()[0] == 'c');
        }
        lemma_word_at_prefix(s1, s2, j, kw_unsafe());
        lemma_parse_fn_prefix(s1, s2, j + 6);
    } else if word_at(s1, j, n1, kw_async()) {
        assert(!word_at(s2, j, n2, kw_fn()) && !word_at(s2, j, n2, kw_pub()) && !word_at(
            s2,
            j,
            n2,
            kw_const(),
        ) && !word_at(s2, j, n2, kw_unsafe())) by {
            assert(s2[j] == 'a');
            assert(kw_fn()[0] == 'f' && kw_pub()[0] == 'p' && kw_const()[0] == 'c' && kw_unsafe()[0]
                == 'u');
        }
        lemma_word_at_prefix(s1, s2, j, kw_async());
        lemma_parse_fn_prefix(s1, s2, j + 5);
    } else if word_at(s1, j, n1, kw_default()) {
        assert(!word_at(s2, j, n2, kw_fn()) && !word_at(s2, j, n2, kw_pub()) && !word_at(
            s2,
            j,
            n2,
            kw_const(),
        ) && !word_at(s2, j, n2, kw_unsafe()) && !word_at(s2, j, n2, kw_async())) by {
            assert(s2[j] == 'd');
            assert(kw_fn()[0] == 'f' && kw_pub()[0] == 'p' && kw_const()[0] == 'c' && kw_unsafe()[0]
                == 'u' && kw_async()[0] == 'a');
        }
        lemma_word_at_prefix(s1, s2, j, kw_default());
        lemma_parse_fn_prefix(s1, s2, j + 7);
    } else if word_at(s1, j, n1, kw_extern()) {
        assert(!word_at(s2, j, n2, kw_fn()) && !word_at(s2, j, n2, kw_pub()) && !word_at(
            s2,
            j,
            n2,
            kw_const(),
        ) && !word_at(s2, j, n2, kw_unsafe()) && !word_at(s2, j, n2, kw_async()) && !word_at(
            s2,
            j,
            n2,
            kw_default(),
        )) by {
            assert(s2[j] == 'e');
            assert(kw_fn()[0] == 'f' && kw_pub()[0] == 'p' && kw_const()[0] == 'c' && kw_unsafe()[0]
                == 'u' && kw_async()[0] == 'a' && kw_default()[0] == 'd');
        }
        lemma_word_at_prefix(s1, s2, j, kw_extern());
        let j2 = skip_ws(s1, j + 6, n1);
        lemma_skip_ws_bounds(s1, j + 6, n1);
        if j2 < n1 && s1[j2] == '"' {
            lemma_skip_ws_prefix(s1, s2, j + 6);
            let m = find_char(s1, j2 + 1, n1, '"');
            assert(m is Some);
            lemma_find_char_prefix(s1, s2, j2 + 1, '"');
            crate::scan::lemma_find_char_bounds(s1, j2 + 1, n1, '"');
            lemma_parse_fn_prefix(s1, s2, m->0 + 1);
        } else {
            if j2 == n1 {
                assert(parse_fn(s1, j + 6) is None);
                assert(false);
            }
            lemma_skip_ws_prefix(s1, s2, j + 6);
            lemma_parse_fn_prefix(s1, s2, j + 6);
        }
    } else {
        assert(parse_fn(s1, i) is None);
        assert(false);
    }
}

/// A function declaration keeps its parse when a `where` clause, or any
/// other text that does not extend the final identifier, is appended to it;
/// the two declarations are then equivalent.
pub proof fn lemma_fn_trailing_text_irrelevant(s1: Seq<char>, s2: Seq<char>)
    requires
        4 < s1.len(),
        prefix_with_boundary(s1, s2),
        !impl_prefixed(s1),
        parse_fn(s1, 0) is Some,
    ensures
        spec_parse_raw(s2) == spec_parse_raw(s1),
        spec_compare(s1, s2),
{
    assert(!impl_prefixed(s2));
    lemma_parse_fn_prefix(s1, s2, 0);
}

// ---------------------------------------------------------------------------
// Removal: an entry matching nothing keeps the sentinel.
// ---------------------------------------------------------------------------

proof fn lemma_first_same_none(e: ApiEntry, next: Seq<ApiEntry>, j: int)
    requires
        forall|k: int| 0 <= k < next.len() ==> !entries_same(e, #[trigger] next[k]),
        0 <= j,
    ensures
        first_same_from(e, next, j) is None,
    decreases next.len() - j,
{
    if j < next.len() {
        lemma_first_same_none(e, next, j + 1);
    }
}

proof fn lemma_first_similar_none(e: ApiEntry, next: Seq<ApiEntry>, j: int)
    requires
        forall|k: int| 0 <= k < next.len() ==> !entries_similar(e, #[trigger] next[k]),
        0 <= j,
    ensures
        first_similar_from(e, next, j) is None,
    decreases next.len() - j,
{
    if j < next.len() {
        lemma_first_similar_none(e, next, j + 1);
    }
}

/// An unresolved entry whose strings match no entry of the next version,
/// neither identically nor structurally, keeps the `-1` sentinel: the API is
/// recorded as removed.
pub proof fn lemma_unmatched_entry_removed(e: ApiEntry, next: Seq<ApiEntry>)
    requires
        e.next_api_index == -1,
        forall|k: int| 0 <= k < next.len() ==> !entries_same(e, #[trigger] next[k]),
        forall|k: int| 0 <= k < next.len() ==> !entries_similar(e, #[trigger] next[k]),
    ensures
        linked_index(e, next) == -1,
{
    lemma_first_same_none(e, next, 0);
    lemma_first_similar_none(e, next, 0);
}

proof fn lemma_first_same_at(e: ApiEntry, next: Seq<ApiEntry>, j: int, k: int)
    requires
        0 <= j <= k < next.len(),
        entries_same(e, next[k]),
        forall|t: int| j <= t < k ==> !entries_same(e, #[trigger] next[t]),
    ensures
        first_same_from(e, next, j) == Some(k),
    decreases k - j,
{
    if j < k {
        lemma_first_same_at(e, next, j + 1, k);
    }
}

proof fn lemma_first_similar_at(e: ApiEntry, next: Seq<ApiEntry>, j: int, k: int)
    requires
        0 <= j <= k < next.len(),
        entries_similar(e, next[k]),
        forall|t: int| j <= t < k ==> !entries_similar(e, #[trigger] next[t]),
    ensures
        first_similar_from(e, next, j) == Some(k),
    decreases k - j,
{
    if j < k {
        lemma_first_similar_at(e, next, j + 1, k);
    }
}

/// The identity pass scans the next version's list in order and the first
/// byte-identical entry wins: an unresolved entry whose first identical
/// counterpart sits at position `k` is linked to `k`, whatever else the list
/// holds.
pub proof fn lemma_first_identical_match_wins(e: ApiEntry, next: Seq<ApiEntry>, k: int)
    requires
        e.next_api_index == -1,
        0 <= k < next.len(),
        entries_same(e, next[k]),
        forall|t: int| 0 <= t < k ==> !entries_same(e, #[trigger] next[t]),
    ensures
        linked_index(e, next) == k,
{
    lemma_first_same_at(e, next, 0, k);
}

/// The equivalence pass runs only for entries the identity pass left
/// unresolved, and again the first match in list order wins.
pub proof fn lemma_first_equivalent_match_wins(e: ApiEntry, next: Seq<ApiEntry>, k: int)
    requires
        e.next_api_index == -1,
        forall|t: int| 0 <= t < next.len() ==> !entries_same(e, #[trigger] next[t]),
        0 <= k < next.len(),
        entries_similar(e, next[k]),
        forall|t: int| 0 <= t < k ==> !entries_similar(e, #[trigger] next[t]),
    ensures
        linked_index(e, next) == k,
{
    lemma_first_same_none(e, next, 0);
    lemma_first_similar_at(e, next, 0, k);
}

/// A resolved entry is never touched again: linking leaves an already
/// assigned forward link exactly as it stands.
pub proof fn lemma_resolved_entry_untouched(e: ApiEntry, next: Seq<ApiEntry>)
    requires
        e.next_api_index != -1,
    ensures
        linked_index(e, next) == e.next_api_index as int,
{
}

} // verus!
