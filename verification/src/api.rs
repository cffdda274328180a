//! The equivalence engine over documented API entries.
//!
//! Two operations, both total: `is_api_same` is the cheap byte-identical
//! first-pass filter, and `is_api_similar` is the structural fallback built
//! on `compare_api`.  Comparison never fails: when a fragment has no
//! structural form, the verdict degrades to verbatim string equality.

use vstd::prelude::*;
use crate::text::{chars_eq, str_view_eq};
use crate::sig::{ApiSignature, SigV, impl_match, canon_args_set_eq};
use crate::parse::{spec_parse, parse_api};

verus! {

/// One documented API element of one version snapshot.  `impl_sig` holds the
/// enclosing `impl` header (empty for free functions) and `api` the element's
/// own signature.  `next_api_index` is the forward link into the next
/// version's entry list for the same submodule: `-1` means unresolved (and,
/// after linking, removed).
#[derive(Debug)]
pub struct ApiEntry {
    pub submodule: String,
    pub impl_sig: String,
    pub api: String,
    pub head: String,
    pub stability: Vec<String>,
    pub next_api_index: i64,
}

/// The two entries have byte-identical `impl` and `api` strings.
pub open spec fn entries_same(a: ApiEntry, b: ApiEntry) -> bool {
    a.impl_sig@ == b.impl_sig@ && a.api@ == b.api@
}

/// The structural equivalence verdict on two fragment strings: parse both;
/// if both are trait implementations, compare their canonical forms; if both
/// are function declarations, compare the identifiers; otherwise fall back
/// to verbatim equality of the raw text.
pub open spec fn spec_compare(a: Seq<char>, b: Seq<char>) -> bool {
    match (spec_parse(a), spec_parse(b)) {
        (Some(SigV::ImplTy(x)), Some(SigV::ImplTy(y))) => impl_match(x, y),
        (Some(SigV::FnTy(f)), Some(SigV::FnTy(g))) => f.name == g.name,
        _ => a == b,
    }
}

/// Both the `impl` comparison and the `api` comparison succeed.
pub open spec fn entries_similar(a: ApiEntry, b: ApiEntry) -> bool {
    spec_compare(a.impl_sig@, b.impl_sig@) && spec_compare(a.api@, b.api@)
}

/// Byte-identity of two entries' `impl` and `api` strings: the cheap
/// first-pass filter.
pub fn is_api_same(api1: &ApiEntry, api2: &ApiEntry) -> (r: bool)
    ensures
        r == entries_same(*api1, *api2),
{
    let im = str_view_eq(api1.impl_sig.as_str(), api2.impl_sig.as_str());
    let ap = str_view_eq(api1.api.as_str(), api2.api.as_str());
    im && ap
}

/// Compares two signature fragments of any kind, in string form.
pub fn compare_api(api1: &str, api2: &str) -> (r: bool)
    ensures
        r == spec_compare(api1@, api2@),
{
    let sig1 = parse_api(api1);
    let sig2 = parse_api(api2);
    match (sig1, sig2) {
        (Some(ApiSignature::ImplTy(x)), Some(ApiSignature::ImplTy(y))) => {
            let tn = chars_eq(&x.trait_name, &y.trait_name);
            let sn = chars_eq(&x.struct_name, &y.struct_name);
            let tg = canon_args_set_eq(&x.trait_generics, &y.trait_generics);
            let sg = canon_args_set_eq(&x.struct_generics, &y.struct_generics);
            tn && sn && tg && sg
        },
        (Some(ApiSignature::FnTy(f)), Some(ApiSignature::FnTy(g))) => chars_eq(&f.name, &g.name),
        _ => str_view_eq(api1, api2),
    }
}

/// Structural equivalence of two entries: their `impl` headers and their
/// `api` signatures must each compare equivalent.
pub fn is_api_similar(api1: &ApiEntry, api2: &ApiEntry) -> (r: bool)
    ensures
        r == entries_similar(*api1, *api2),
{
    if !compare_api(api1.impl_sig.as_str(), api2.impl_sig.as_str()) {
        return false;
    }
    if !compare_api(api1.api.as_str(), api2.api.as_str()) {
        return false;
    }
    true
}

} // verus!
