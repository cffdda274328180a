//! The cross-version linker.
//!
//! For one adjacent version pair, each unresolved entry of the earlier
//! version's list is linked to the position of its counterpart in the next
//! version's list: first by byte-identity (the overwhelmingly common case),
//! then by structural equivalence.  Both passes take the first match in list
//! order; later duplicates are ignored.  An entry that matches nothing keeps
//! the `-1` sentinel and is thereby recorded as removed.  Snapshots are
//! joined submodule by submodule; a submodule path absent from the next
//! snapshot is skipped, its entries left untouched.

use vstd::prelude::*;
use crate::api::{ApiEntry, entries_same, entries_similar, is_api_same, is_api_similar};
use crate::text::str_view_eq;

verus! {

/// Index of the first entry of `next` at or after `j` that is byte-identical
/// to `e`.
pub open spec fn first_same_from(e: ApiEntry, next: Seq<ApiEntry>, j: int) -> Option<int>
    decreases next.len() - j,
{
    if j < 0 || j >= next.len() {
        None
    } else if entries_same(e, next[j]) {
        Some(j)
    } else {
        first_same_from(e, next, j + 1)
    }
}

/// Index of the first entry of `next` at or after `j` that is structurally
/// equivalent to `e`.
pub open spec fn first_similar_from(e: ApiEntry, next: Seq<ApiEntry>, j: int) -> Option<int>
    decreases next.len() - j,
{
    if j < 0 || j >= next.len() {
        None
    } else if entries_similar(e, next[j]) {
        Some(j)
    } else {
        first_similar_from(e, next, j + 1)
    }
}

/// The forward link an entry receives against the next version's list: an
/// already-resolved entry keeps its value; otherwise the first
/// byte-identical position wins, then the first structurally equivalent
/// position, and `-1` records a removal.
pub open spec fn linked_index(e: ApiEntry, next: Seq<ApiEntry>) -> int {
    if e.next_api_index != -1 {
        e.next_api_index as int
    } else {
        match first_same_from(e, next, 0) {
            Some(k) => k,
            None => match first_similar_from(e, next, 0) {
                Some(k) => k,
                None => -1,
            },
        }
    }
}

/// The two entries carry the same text in every descriptive field.
pub open spec fn same_text(a: ApiEntry, b: ApiEntry) -> bool {
    a.submodule@ == b.submodule@ && a.impl_sig@ == b.impl_sig@ && a.api@ == b.api@ && a.head@
        == b.head@ && a.stability@ == b.stability@
}

/// `a` is `b` with every forward link recomputed against `nx`.
pub open spec fn entries_linked(a: Seq<ApiEntry>, b: Seq<ApiEntry>, nx: Seq<ApiEntry>) -> bool {
    a.len() == b.len() && forall|k: int|
        0 <= k < b.len() ==> same_text(#[trigger] a[k], b[k]) && a[k].next_api_index as int
            == linked_index(b[k], nx)
}

/// `a` is `b` unchanged, forward links included.
pub open spec fn entries_unchanged(a: Seq<ApiEntry>, b: Seq<ApiEntry>) -> bool {
    a.len() == b.len() && forall|k: int|
        0 <= k < b.len() ==> same_text(#[trigger] a[k], b[k]) && a[k].next_api_index
            == b[k].next_api_index
}

fn clone_string(s: &String) -> (r: String)
    ensures
        r@ == s@,
{
    s.clone()
}

fn clone_strings(v: &Vec<String>) -> (r: Vec<String>)
    ensures
        r@ == v@,
{
    let n: usize = v.len();
    let mut r: Vec<String> = Vec::new();
    let mut i: usize = 0;
    while i < n
        invariant
            i <= n,
            n == v@.len(),
            r@ == v@.subrange(0, i as int),
        decreases n - i,
    {
        let s: String = v[i].clone();
        r.push(s);
        proof {
            assert(r@ =~= v@.subrange(0, i + 1 as int));
        }
        i = i + 1;
    }
    proof {
        assert(r@ =~= v@);
    }
    r
}

/// Copies an entry, substituting the given forward link.
fn clone_entry_with_index(e: &ApiEntry, idx: i64) -> (r: ApiEntry)
    ensures
        same_text(r, *e),
        r.next_api_index == idx,
{
    ApiEntry {
        submodule: clone_string(&e.submodule),
        impl_sig: clone_string(&e.impl_sig),
        api: clone_string(&e.api),
        head: clone_string(&e.head),
        stability: clone_strings(&e.stability),
        next_api_index: idx,
    }
}

fn find_first_same(e: &ApiEntry, next: &Vec<ApiEntry>) -> (r: Option<usize>)
    ensures
        match r {
            Some(k) => first_same_from(*e, next@, 0) == Some(k as int) && k < next@.len(),
            None => first_same_from(*e, next@, 0) is None,
        },
{
    let n: usize = next.len();
    let mut j: usize = 0;
    while j < n
        invariant
            j <= n,
            n == next@.len(),
            first_same_from(*e, next@, 0) == first_same_from(*e, next@, j as int),
        decreases n - j,
    {
        if is_api_same(e, &next[j]) {
            return Some(j);
        }
        j = j + 1;
    }
    None
}

fn find_first_similar(e: &ApiEntry, next: &Vec<ApiEntry>) -> (r: Option<usize>)
    ensures
        match r {
            Some(k) => first_similar_from(*e, next@, 0) == Some(k as int) && k < next@.len(),
            None => first_similar_from(*e, next@, 0) is None,
        },
{
    let n: usize = next.len();
    let mut j: usize = 0;
    while j < n
        invariant
            j <= n,
            n == next@.len(),
            first_similar_from(*e, next@, 0) == first_similar_from(*e, next@, j as int),
        decreases n - j,
    {
        if is_api_similar(e, &next[j]) {
            return Some(j);
        }
        j = j + 1;
    }
    None
}

/// Computes the forward link for one entry.
fn compute_link(e: &ApiEntry, next: &Vec<ApiEntry>) -> (r: i64)
    requires
        next@.len() <= i64::MAX,
    ensures
        r as int == linked_index(*e, next@),
{
    if e.next_api_index != -1 {
        return e.next_api_index;
    }
    match find_first_same(e, next) {
        Some(k) => k as i64,
        None => match find_first_similar(e, next) {
            Some(k) => k as i64,
            None => -1,
        },
    }
}

/// A copy of `apis` in which every entry's forward link is recomputed
/// against `next`.
pub fn linked_copy(apis: &Vec<ApiEntry>, next: &Vec<ApiEntry>) -> (out: Vec<ApiEntry>)
    requires
        next@.len() <= i64::MAX,
    ensures
        entries_linked(out@, apis@, next@),
{
    let n: usize = apis.len();
    let mut out: Vec<ApiEntry> = Vec::new();
    let mut i: usize = 0;
    while i < n
        invariant
            i <= n,
            n == apis@.len(),
            next@.len() <= i64::MAX,
            out@.len() == i,
            forall|k: int|
                0 <= k < i ==> same_text(#[trigger] out@[k], apis@[k])
                    && out@[k].next_api_index as int == linked_index(apis@[k], next@),
        decreases n - i,
    {
        let idx: i64 = compute_link(&apis[i], next);
        let e2 = clone_entry_with_index(&apis[i], idx);
        out.push(e2);
        i = i + 1;
    }
    out
}

/// An unchanged copy of `apis`.
fn unchanged_copy(apis: &Vec<ApiEntry>) -> (out: Vec<ApiEntry>)
    ensures
        entries_unchanged(out@, apis@),
{
    let n: usize = apis.len();
    let mut out: Vec<ApiEntry> = Vec::new();
    let mut i: usize = 0;
    while i < n
        invariant
            i <= n,
            n == apis@.len(),
            out@.len() == i,
            forall|k: int|
                0 <= k < i ==> same_text(#[trigger] out@[k], apis@[k])
                    && out@[k].next_api_index == apis@[k].next_api_index,
        decreases n - i,
    {
        let e2 = clone_entry_with_index(&apis[i], apis[i].next_api_index);
        out.push(e2);
        i = i + 1;
    }
    out
}

/// Recomputes every forward link of `apis` in place, against `next`.
pub fn link_apis(apis: &mut Vec<ApiEntry>, next: &Vec<ApiEntry>)
    requires
        next@.len() <= i64::MAX,
    ensures
        entries_linked(final(apis)@, old(apis)@, next@),
{
    let out = linked_copy(apis, next);
    *apis = out;
}

/// A named bucket of one version snapshot: the entries documented under one
/// submodule path, in their significant order.
#[derive(Debug)]
pub struct Submodule {
    pub submodule_path: String,
    pub plain_apis: Vec<ApiEntry>,
}

/// One documentation release: its submodules, keyed by path.
#[derive(Debug)]
pub struct VersionSnapshot {
    pub submodules: Vec<Submodule>,
}

/// Index of the first submodule of `subs` at or after `j` with the given
/// path.
pub open spec fn find_submodule_idx(subs: Seq<Submodule>, path: Seq<char>, j: int) -> Option<int>
    decreases subs.len() - j,
{
    if j < 0 || j >= subs.len() {
        None
    } else if subs[j].submodule_path@ == path {
        Some(j)
    } else {
        find_submodule_idx(subs, path, j + 1)
    }
}

/// Finds the submodule with the given path.
pub fn find_submodule<'a>(snap: &'a VersionSnapshot, path: &str) -> (r: Option<&'a Submodule>)
    ensures
        match r {
            Some(sub) => exists|j: int|
                find_submodule_idx(snap.submodules@, path@, 0) == Some(j) && 0 <= j
                    < snap.submodules@.len() && *sub == snap.submodules@[j],
            None => find_submodule_idx(snap.submodules@, path@, 0) is None,
        },
{
    let n: usize = snap.submodules.len();
    let mut j: usize = 0;
    while j < n
        invariant
            j <= n,
            n == snap.submodules@.len(),
            find_submodule_idx(snap.submodules@, path@, 0) == find_submodule_idx(
                snap.submodules@,
                path@,
                j as int,
            ),
        decreases n - j,
    {
        if str_view_eq(snap.submodules[j].submodule_path.as_str(), path) {
            return Some(&snap.submodules[j]);
        }
        j = j + 1;
    }
    None
}

/// The new snapshot contents `newsubs` are the old contents `oldsubs` with
/// every submodule present in `nextsubs` linked against its counterpart and
/// every other submodule untouched.
pub open spec fn snapshot_linked(
    newsubs: Seq<Submodule>,
    oldsubs: Seq<Submodule>,
    nextsubs: Seq<Submodule>,
) -> bool {
    newsubs.len() == oldsubs.len() && forall|i: int|
        0 <= i < oldsubs.len() ==> {
            let o = oldsubs[i];
            let nw = #[trigger] newsubs[i];
            nw.submodule_path@ == o.submodule_path@ && match find_submodule_idx(
                nextsubs,
                o.submodule_path@,
                0,
            ) {
                Some(j) => entries_linked(nw.plain_apis@, o.plain_apis@, nextsubs[j].plain_apis@),
                None => entries_unchanged(nw.plain_apis@, o.plain_apis@),
            }
        }
}

/// Links one adjacent version pair: every submodule of `cur` that also
/// exists in `next` has its entries' forward links recomputed against the
/// counterpart's entry list; submodules missing from `next` are skipped.
pub fn link_snapshots(cur: &mut VersionSnapshot, next: &VersionSnapshot)
    requires
        forall|j: int|
            0 <= j < next.submodules@.len() ==> (#[trigger] next.submodules@[j]).plain_apis@.len()
                <= i64::MAX,
    ensures
        snapshot_linked(final(cur).submodules@, old(cur).submodules@, next.submodules@),
{
    let n: usize = cur.submodules.len();
    let mut out: Vec<Submodule> = Vec::new();
    let mut i: usize = 0;
    while i < n
        invariant
            i <= n,
            n == cur.submodules@.len(),
            cur.submodules@ == old(cur).submodules@,
            forall|j: int|
                0 <= j < next.submodules@.len() ==> (#[trigger] next.submodules@[j])
                    .plain_apis@.len() <= i64::MAX,
            out@.len() == i,
            forall|k: int|
                0 <= k < i ==> {
                    let o = cur.submodules@[k];
                    let nw = #[trigger] out@[k];
                    nw.submodule_path@ == o.submodule_path@ && match find_submodule_idx(
                        next.submodules@,
                        o.submodule_path@,
                        0,
                    ) {
                        Some(j) => entries_linked(
                            nw.plain_apis@,
                            o.plain_apis@,
                            next.submodules@[j].plain_apis@,
                        ),
                        None => entries_unchanged(nw.plain_apis@, o.plain_apis@),
                    }
                },
        decreases n - i,
    {
        let path = clone_string(&cur.submodules[i].submodule_path);
        let linked: Vec<ApiEntry> = match find_submodule(next, path.as_str()) {
            Some(partner) => linked_copy(&cur.submodules[i].plain_apis, &partner.plain_apis),
            None => unchanged_copy(&cur.submodules[i].plain_apis),
        };
        out.push(Submodule { submodule_path: path, plain_apis: linked });
        i = i + 1;
    }
    cur.submodules = out;
}

} // verus!
