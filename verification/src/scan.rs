//! Depth-aware scanning over signature text.
//!
//! Signature fragments nest angle brackets, parentheses, brackets and braces.
//! The scanner walks a character sequence while tracking a single nesting
//! depth across all four bracket kinds, treating `->` as a unit so the `>` of
//! an arrow never closes an angle bracket.  Every exec scanner returns exactly
//! the value of its spec counterpart, so the parser's contracts can be stated
//! purely over the spec functions.

use vstd::prelude::*;
use crate::text::{is_ws_char, is_ident_char, ws_char, ident_char};

verus! {

/// How one character changes the bracket nesting depth, given the character
/// just before it (`->` must not count as a closing angle bracket).
pub open spec fn depth_change(prev: char, c: char) -> int {
    if c == '<' || c == '(' || c == '[' || c == '{' {
        1
    } else if c == '>' && prev == '-' {
        0
    } else if c == '>' || c == ')' || c == ']' || c == '}' {
        -1
    } else {
        0
    }
}

pub fn depth_change_exec(prev: char, c: char) -> (r: i8)
    ensures
        r as int == depth_change(prev, c),
{
    if c == '<' || c == '(' || c == '[' || c == '{' {
        1
    } else if c == '>' && prev == '-' {
        0
    } else if c == '>' || c == ')' || c == ']' || c == '}' {
        -1
    } else {
        0
    }
}

/// The five characters of the `where` keyword start at `i` (plain substring
/// occurrence; no word boundary, matching the coarse truncation rule).
pub open spec fn where_at(s: Seq<char>, i: int) -> bool {
    0 <= i && i + 5 <= s.len() && s[i] == 'w' && s[i + 1] == 'h' && s[i + 2] == 'e' && s[i + 3]
        == 'r' && s[i + 4] == 'e'
}

/// Index of the first occurrence of the substring `where` at or after `i`.
pub open spec fn find_where(s: Seq<char>, i: int) -> Option<int>
    decreases s.len() - i,
{
    if i < 0 || i + 5 > s.len() {
        None
    } else if where_at(s, i) {
        Some(i)
    } else {
        find_where(s, i + 1)
    }
}

pub fn find_where_exec(v: &Vec<char>, from: usize) -> (r: Option<usize>)
    ensures
        match r {
            Some(k) => find_where(v@, from as int) == Some(k as int) && k + 5 <= v@.len(),
            None => find_where(v@, from as int) is None,
        },
{
    let n: usize = v.len();
    if n < 5 {
        return None;
    }
    let mut i: usize = from;
    while i <= n - 5
        invariant
            n == v@.len(),
            5 <= n,
            from <= i,
            find_where(v@, from as int) == find_where(v@, i as int),
        decreases n - i,
    {
        if v[i] == 'w' && v[i + 1] == 'h' && v[i + 2] == 'e' && v[i + 3] == 'r' && v[i + 4]
            == 'e' {
            proof {
                assert(where_at(v@, i as int));
            }
            return Some(i);
        }
        proof {
            assert(!where_at(v@, i as int));
        }
        i = i + 1;
    }
    None
}

/// The word `w` (a non-empty identifier-like keyword) occupies `[i, i+|w|)`
/// within `[.., hi)` and is not followed by another identifier character.
pub open spec fn word_at(s: Seq<char>, i: int, hi: int, w: Seq<char>) -> bool {
    0 <= i && i + w.len() <= hi && hi <= s.len() && (forall|k: int|
        0 <= k < w.len() ==> s[i + k] == w[k]) && (i + w.len() == hi || !is_ident_char(
        s[i + w.len()],
    ))
}

pub fn word_at_exec(v: &Vec<char>, i: usize, hi: usize, w: &[char]) -> (r: bool)
    requires
        hi <= v@.len(),
        w@.len() >= 1,
    ensures
        r == word_at(v@, i as int, hi as int, w@),
{
    let wn: usize = w.len();
    if i >= hi || hi - i < wn {
        return false;
    }
    proof {
        assert(i + wn <= hi);
    }
    let mut k: usize = 0;
    while k < wn
        invariant
            wn == w@.len(),
            i + wn <= hi <= v@.len(),
            k <= wn,
            forall|t: int| 0 <= t < k ==> v@[i + t] == w@[t],
        decreases wn - k,
    {
        if v[i + k] != w[k] {
            proof {
                assert(v@[i + k as int] != w@[k as int]);
            }
            return false;
        }
        k = k + 1;
    }
    if i + wn == hi {
        true
    } else {
        !ident_char(v[i + wn])
    }
}

/// The keyword `for` as a standalone word at depth zero, bounded by `hi`.
pub open spec fn for_at(s: Seq<char>, i: int, hi: int) -> bool {
    0 <= i && i + 3 <= hi && hi <= s.len() && s[i] == 'f' && s[i + 1] == 'o' && s[i + 2] == 'r'
        && (i == 0 || !is_ident_char(s[i - 1])) && (i + 3 == hi || !is_ident_char(s[i + 3]))
}

/// First standalone `for` at bracket depth zero in `[i, hi)`.
pub open spec fn find_for(s: Seq<char>, i: int, hi: int, d: int, prev: char) -> Option<int>
    decreases hi - i,
{
    if i < 0 || i >= hi || hi > s.len() {
        None
    } else if d == 0 && for_at(s, i, hi) {
        Some(i)
    } else {
        find_for(s, i + 1, hi, d + depth_change(prev, s[i]), s[i])
    }
}

pub fn find_for_exec(v: &Vec<char>, from: usize, hi: usize) -> (r: Option<usize>)
    requires
        hi <= v@.len(),
    ensures
        match r {
            Some(k) => find_for(v@, from as int, hi as int, 0, ' ') == Some(k as int) && k < hi,
            None => find_for(v@, from as int, hi as int, 0, ' ') is None,
        },
{
    let mut i: usize = from;
    let mut d: i128 = 0;
    let mut prev: char = ' ';
    while i < hi
        invariant
            hi <= v@.len(),
            from <= i,
            -(i as int) <= d as int <= i as int,
            find_for(v@, from as int, hi as int, 0, ' ') == find_for(
                v@,
                i as int,
                hi as int,
                d as int,
                prev,
            ),
        decreases hi - i,
    {
        if d == 0 && hi - i >= 3 && v[i] == 'f' && v[i + 1] == 'o' && v[i + 2] == 'r' && (i == 0
            || !ident_char(v[i - 1])) && (hi - i == 3 || !ident_char(v[i + 3])) {
            proof {
                assert(for_at(v@, i as int, hi as int));
            }
            return Some(i);
        }
        proof {
            assert(!(d == 0 && for_at(v@, i as int, hi as int)));
        }
        let c: char = v[i];
        let dc: i8 = depth_change_exec(prev, c);
        d = d + dc as i128;
        prev = c;
        i = i + 1;
    }
    None
}

/// First occurrence of the plain character `t` at bracket depth zero in
/// `[i, hi)`.  Only used for characters that do not themselves change the
/// depth (such as `,` and `=`).
pub open spec fn find_top_char(
    s: Seq<char>,
    i: int,
    hi: int,
    d: int,
    prev: char,
    t: char,
) -> Option<int>
    decreases hi - i,
{
    if i < 0 || i >= hi || hi > s.len() {
        None
    } else if d == 0 && s[i] == t {
        Some(i)
    } else {
        find_top_char(s, i + 1, hi, d + depth_change(prev, s[i]), s[i], t)
    }
}

pub fn find_top_char_exec(v: &Vec<char>, from: usize, hi: usize, t: char) -> (r: Option<usize>)
    requires
        hi <= v@.len(),
    ensures
        match r {
            Some(k) => find_top_char(v@, from as int, hi as int, 0, ' ', t) == Some(k as int)
                && from <= k < hi,
            None => find_top_char(v@, from as int, hi as int, 0, ' ', t) is None,
        },
{
    let mut i: usize = from;
    let mut d: i128 = 0;
    let mut prev: char = ' ';
    while i < hi
        invariant
            hi <= v@.len(),
            from <= i,
            -(i as int) <= d as int <= i as int,
            find_top_char(v@, from as int, hi as int, 0, ' ', t) == find_top_char(
                v@,
                i as int,
                hi as int,
                d as int,
                prev,
                t,
            ),
        decreases hi - i,
    {
        let c: char = v[i];
        if d == 0 && c == t {
            return Some(i);
        }
        let dc: i8 = depth_change_exec(prev, c);
        d = d + dc as i128;
        prev = c;
        i = i + 1;
    }
    None
}

/// There is a single `:` (not part of a `::` separator) at bracket depth zero
/// in `[i, hi)`.
pub open spec fn has_top_colon(s: Seq<char>, i: int, hi: int, d: int, prev: char) -> bool
    decreases hi - i,
{
    if i < 0 || i >= hi || hi > s.len() {
        false
    } else if d == 0 && s[i] == ':' {
        if i + 1 < hi && s[i + 1] == ':' {
            has_top_colon(s, i + 2, hi, d, ':')
        } else {
            true
        }
    } else {
        has_top_colon(s, i + 1, hi, d + depth_change(prev, s[i]), s[i])
    }
}

pub fn has_top_colon_exec(v: &Vec<char>, from: usize, hi: usize) -> (r: bool)
    requires
        hi <= v@.len(),
    ensures
        r == has_top_colon(v@, from as int, hi as int, 0, ' '),
{
    let mut i: usize = from;
    let mut d: i128 = 0;
    let mut prev: char = ' ';
    while i < hi
        invariant
            hi <= v@.len(),
            from <= i,
            -(i as int) <= d as int <= i as int,
            has_top_colon(v@, from as int, hi as int, 0, ' ') == has_top_colon(
                v@,
                i as int,
                hi as int,
                d as int,
                prev,
            ),
        decreases hi - i,
    {
        let c: char = v[i];
        if d == 0 && c == ':' {
            if i + 1 < hi && v[i + 1] == ':' {
                prev = ':';
                i = i + 2;
                continue ;
            }
            return true;
        }
        let dc: i8 = depth_change_exec(prev, c);
        d = d + dc as i128;
        prev = c;
        i = i + 1;
    }
    false
}

/// Index of the closing delimiter `closer` that brings the depth `d` back to
/// zero, scanning `[i, hi)`.  Returns `None` when the text is exhausted first
/// or when depth zero is reached on a different closing delimiter.
pub open spec fn find_close(
    s: Seq<char>,
    i: int,
    hi: int,
    d: int,
    prev: char,
    closer: char,
) -> Option<int>
    decreases hi - i,
{
    if i < 0 || i >= hi || hi > s.len() || d <= 0 {
        None
    } else {
        let nd = d + depth_change(prev, s[i]);
        if nd == 0 {
            if s[i] == closer {
                Some(i)
            } else {
                None
            }
        } else {
            find_close(s, i + 1, hi, nd, s[i], closer)
        }
    }
}

pub fn find_close_exec(v: &Vec<char>, from: usize, hi: usize, opener: char, closer: char) -> (r:
    Option<usize>)
    requires
        hi <= v@.len(),
    ensures
        match r {
            Some(k) => find_close(v@, from as int, hi as int, 1, opener, closer) == Some(
                k as int,
            ) && from <= k < hi,
            None => find_close(v@, from as int, hi as int, 1, opener, closer) is None,
        },
{
    let mut i: usize = from;
    let mut d: i128 = 1;
    let mut prev: char = opener;
    while i < hi
        invariant
            hi <= v@.len(),
            from <= i,
            1 <= d as int <= i as int + 1,
            find_close(v@, from as int, hi as int, 1, opener, closer) == find_close(
                v@,
                i as int,
                hi as int,
                d as int,
                prev,
                closer,
            ),
        decreases hi - i,
    {
        let c: char = v[i];
        let dc: i8 = depth_change_exec(prev, c);
        let nd: i128 = d + dc as i128;
        if nd == 0 {
            if c == closer {
                return Some(i);
            }
            return None;
        }
        d = nd;
        prev = c;
        i = i + 1;
    }
    None
}

/// First plain occurrence of `t` in `[i, hi)`, with no depth tracking.
pub open spec fn find_char(s: Seq<char>, i: int, hi: int, t: char) -> Option<int>
    decreases hi - i,
{
    if i < 0 || i >= hi || hi > s.len() {
        None
    } else if s[i] == t {
        Some(i)
    } else {
        find_char(s, i + 1, hi, t)
    }
}

pub fn find_char_exec(v: &Vec<char>, from: usize, hi: usize, t: char) -> (r: Option<usize>)
    requires
        hi <= v@.len(),
    ensures
        match r {
            Some(k) => find_char(v@, from as int, hi as int, t) == Some(k as int) && from <= k
                < hi,
            None => find_char(v@, from as int, hi as int, t) is None,
        },
{
    let mut i: usize = from;
    while i < hi
        invariant
            hi <= v@.len(),
            from <= i,
            find_char(v@, from as int, hi as int, t) == find_char(v@, i as int, hi as int, t),
        decreases hi - i,
    {
        if v[i] == t {
            return Some(i);
        }
        i = i + 1;
    }
    None
}

/// First index at or after `i` (bounded by `hi`) holding a non-whitespace
/// character, or `hi` when everything left is whitespace.
pub open spec fn skip_ws(s: Seq<char>, i: int, hi: int) -> int
    decreases hi - i,
{
    if i < 0 || i >= hi || hi > s.len() {
        i
    } else if is_ws_char(s[i]) {
        skip_ws(s, i + 1, hi)
    } else {
        i
    }
}

pub proof fn lemma_skip_ws_bounds(s: Seq<char>, i: int, hi: int)
    requires
        0 <= i <= hi <= s.len(),
    ensures
        i <= skip_ws(s, i, hi) <= hi,
        skip_ws(s, i, hi) < hi ==> !is_ws_char(s[skip_ws(s, i, hi)]),
    decreases hi - i,
{
    if i < hi && is_ws_char(s[i]) {
        lemma_skip_ws_bounds(s, i + 1, hi);
    }
}

pub fn skip_ws_exec(v: &Vec<char>, from: usize, hi: usize) -> (r: usize)
    requires
        hi <= v@.len(),
    ensures
        r as int == skip_ws(v@, from as int, hi as int),
        from <= hi ==> from <= r <= hi,
{
    let mut i: usize = from;
    if from >= hi {
        return from;
    }
    while i < hi
        invariant
            hi <= v@.len(),
            from <= i <= hi,
            skip_ws(v@, from as int, hi as int) == skip_ws(v@, i as int, hi as int),
        decreases hi - i,
    {
        if !ws_char(v[i]) {
            return i;
        }
        i = i + 1;
    }
    i
}

/// Largest index `r` in `[lo, hi]` such that `[r, hi)` is all whitespace and
/// the character before `r` (if any, within `[lo, hi)`) is not whitespace.
pub open spec fn rtrim_idx(s: Seq<char>, lo: int, hi: int) -> int
    decreases hi - lo,
{
    if lo < 0 || hi <= lo || hi > s.len() {
        lo
    } else if is_ws_char(s[hi - 1]) {
        rtrim_idx(s, lo, hi - 1)
    } else {
        hi
    }
}

pub proof fn lemma_rtrim_bounds(s: Seq<char>, lo: int, hi: int)
    requires
        0 <= lo <= hi <= s.len(),
    ensures
        lo <= rtrim_idx(s, lo, hi) <= hi,
        rtrim_idx(s, lo, hi) > lo ==> !is_ws_char(s[rtrim_idx(s, lo, hi) - 1]),
    decreases hi - lo,
{
    if lo < hi && is_ws_char(s[hi - 1]) {
        lemma_rtrim_bounds(s, lo, hi - 1);
    }
}

pub fn rtrim_exec(v: &Vec<char>, lo: usize, hi: usize) -> (r: usize)
    requires
        lo <= hi,
        hi <= v@.len(),
    ensures
        r as int == rtrim_idx(v@, lo as int, hi as int),
        lo <= r <= hi,
{
    let mut h: usize = hi;
    while h > lo
        invariant
            lo <= h <= hi <= v@.len(),
            rtrim_idx(v@, lo as int, hi as int) == rtrim_idx(v@, lo as int, h as int),
        decreases h,
    {
        if !ws_char(v[h - 1]) {
            return h;
        }
        h = h - 1;
    }
    h
}

/// End of the identifier-character run starting at `i`, bounded by `hi`.
pub open spec fn ident_end(s: Seq<char>, i: int, hi: int) -> int
    decreases hi - i,
{
    if i < 0 || i >= hi || hi > s.len() {
        i
    } else if is_ident_char(s[i]) {
        ident_end(s, i + 1, hi)
    } else {
        i
    }
}

pub proof fn lemma_ident_end_bounds(s: Seq<char>, i: int, hi: int)
    requires
        0 <= i <= hi <= s.len(),
    ensures
        i <= ident_end(s, i, hi) <= hi,
    decreases hi - i,
{
    if i < hi && is_ident_char(s[i]) {
        lemma_ident_end_bounds(s, i + 1, hi);
    }
}

pub fn ident_end_exec(v: &Vec<char>, from: usize, hi: usize) -> (r: usize)
    requires
        from <= hi,
        hi <= v@.len(),
    ensures
        r as int == ident_end(v@, from as int, hi as int),
        from <= r <= hi,
{
    let mut i: usize = from;
    while i < hi
        invariant
            from <= i <= hi <= v@.len(),
            ident_end(v@, from as int, hi as int) == ident_end(v@, i as int, hi as int),
        decreases hi - i,
    {
        if !ident_char(v[i]) {
            return i;
        }
        i = i + 1;
    }
    i
}

/// The characters of `[i, hi)` with all whitespace removed.
pub open spec fn strip_ws(s: Seq<char>, i: int, hi: int) -> Seq<char>
    decreases hi - i,
{
    if i < 0 || i >= hi || hi > s.len() {
        Seq::empty()
    } else if is_ws_char(s[i]) {
        strip_ws(s, i + 1, hi)
    } else {
        seq![s[i]] + strip_ws(s, i + 1, hi)
    }
}

pub fn strip_ws_exec(v: &Vec<char>, from: usize, hi: usize) -> (out: Vec<char>)
    requires
        hi <= v@.len(),
    ensures
        out@ == strip_ws(v@, from as int, hi as int),
{
    let mut out: Vec<char> = Vec::new();
    let mut i: usize = from;
    if from >= hi {
        return out;
    }
    while i < hi
        invariant
            from <= i <= hi <= v@.len(),
            strip_ws(v@, from as int, hi as int) == out@ + strip_ws(v@, i as int, hi as int),
        decreases hi - i,
    {
        let c: char = v[i];
        if !ws_char(c) {
            out.push(c);
        }
        proof {
            assert(strip_ws(v@, from as int, hi as int) == out@ + strip_ws(
                v@,
                i + 1 as int,
                hi as int,
            ));
        }
        i = i + 1;
    }
    proof {
        assert(strip_ws(v@, i as int, hi as int) == Seq::<char>::empty());
        assert(out@ + Seq::<char>::empty() =~= out@);
    }
    out
}

pub proof fn lemma_find_where_bounds(s: Seq<char>, i: int)
    ensures
        match find_where(s, i) {
            Some(k) => i <= k && k + 5 <= s.len() && where_at(s, k),
            None => true,
        },
    decreases s.len() - i,
{
    if i < 0 || i + 5 > s.len() {
    } else if where_at(s, i) {
    } else {
        lemma_find_where_bounds(s, i + 1);
    }
}

pub proof fn lemma_find_for_props(s: Seq<char>, i: int, hi: int, d: int, prev: char)
    ensures
        match find_for(s, i, hi, d, prev) {
            Some(k) => i <= k && for_at(s, k, hi),
            None => true,
        },
    decreases hi - i,
{
    if i < 0 || i >= hi || hi > s.len() {
    } else if d == 0 && for_at(s, i, hi) {
    } else {
        lemma_find_for_props(s, i + 1, hi, d + depth_change(prev, s[i]), s[i]);
    }
}

pub proof fn lemma_find_close_bounds(s: Seq<char>, i: int, hi: int, d: int, prev: char, closer: char)
    ensures
        match find_close(s, i, hi, d, prev, closer) {
            Some(k) => i <= k < hi,
            None => true,
        },
    decreases hi - i,
{
    if i < 0 || i >= hi || hi > s.len() || d <= 0 {
    } else {
        let nd = d + depth_change(prev, s[i]);
        if nd == 0 {
        } else {
            lemma_find_close_bounds(s, i + 1, hi, nd, s[i], closer);
        }
    }
}

pub proof fn lemma_find_char_bounds(s: Seq<char>, i: int, hi: int, t: char)
    ensures
        match find_char(s, i, hi, t) {
            Some(k) => i <= k < hi,
            None => true,
        },
    decreases hi - i,
{
    if i < 0 || i >= hi || hi > s.len() {
    } else if s[i] == t {
    } else {
        lemma_find_char_bounds(s, i + 1, hi, t);
    }
}

/// Extracts the characters of `[lo, hi)` as an owned vector.
pub fn copy_range(v: &Vec<char>, lo: usize, hi: usize) -> (out: Vec<char>)
    requires
        lo <= hi,
        hi <= v@.len(),
    ensures
        out@ == v@.subrange(lo as int, hi as int),
{
    let mut out: Vec<char> = Vec::new();
    let mut i: usize = lo;
    while i < hi
        invariant
            lo <= i <= hi <= v@.len(),
            out@ == v@.subrange(lo as int, i as int),
        decreases hi - i,
    {
        out.push(v[i]);
        proof {
            assert(out@ =~= v@.subrange(lo as int, i + 1 as int));
        }
        i = i + 1;
    }
    out
}

} // verus!
