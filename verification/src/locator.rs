//! The chapter payload locator: finds the embedded player-constructor
//! invocation in the raw markup text and isolates its argument list.
//!
//! The scan is textual, not structural: the first occurrence of the literal
//! invocation prefix is located, and the arguments are the span from there to
//! the matching closing parenthesis followed by a semicolon. The closing scan
//! tracks string-quote and escape state, so an argument string that itself
//! contains `);` cannot cut the capture short.

use vstd::prelude::*;

verus! {

/// The literal that opens the player-constructor invocation.
pub const PLAYER_PREFIX: &'static str = "var player = new BookPlayer(";

/// Equality of executable and mathematical scan results.
pub open spec fn opt_idx_eq(r: Option<usize>, m: Option<int>) -> bool {
    match (r, m) {
        (Option::Some(a), Option::Some(b)) => a as int == b,
        (Option::None, Option::None) => true,
        _ => false,
    }
}

/// Position of the first occurrence of `p` in `s` at or after `i`.
pub open spec fn find_prefix_from(s: Seq<char>, p: Seq<char>, i: int) -> Option<int>
    decreases s.len() - i,
    when 0 <= i && 1 <= p.len()
{
    if i + p.len() > s.len() {
        Option::None
    } else if s.subrange(i, i + p.len()) == p {
        Option::Some(i)
    } else {
        find_prefix_from(s, p, i + 1)
    }
}

/// Whether the characters of `p` stand at position `i` of `v`.
fn match_at(v: &Vec<char>, p: &Vec<char>, i: usize) -> (b: bool)
    requires
        i + p@.len() <= v@.len(),
    ensures
        b == (v@.subrange(i as int, i + p@.len()) == p@),
{
    let n = v.len();
    let m = p.len();
    let mut k: usize = 0;
    while k < m
        invariant
            n == v@.len(),
            m == p@.len(),
            i + m <= n,
            k <= m,
            forall|t: int| 0 <= t < k ==> v@[i + t] == p@[t],
        decreases m - k,
    {
        if v[i + k] != p[k] {
            proof {
                assert(v@.subrange(i as int, i + p@.len())[k as int] != p@[k as int]);
            }
            return false;
        }
        k = k + 1;
    }
    proof {
        assert(v@.subrange(i as int, i + p@.len()) =~= p@);
    }
    true
}

/// Finds the first occurrence of `p` in `v` at or after `from`.
pub(crate) fn find_prefix(v: &Vec<char>, p: &Vec<char>, from: usize) -> (r: Option<usize>)
    requires
        1 <= p@.len(),
        from <= v@.len(),
    ensures
        opt_idx_eq(r, find_prefix_from(v@, p@, from as int)),
        r matches Option::Some(i) ==> from <= i && i + p@.len() <= v@.len(),
{
    let n = v.len();
    let m = p.len();
    if m > n || from > n - m {
        return None;
    }
    let mut i: usize = from;
    while i <= n - m
        invariant
            n == v@.len(),
            m == p@.len(),
            1 <= m <= n,
            from <= i <= n - m + 1,
            find_prefix_from(v@, p@, from as int) == find_prefix_from(v@, p@, i as int),
        decreases n - i,
    {
        if match_at(v, p, i) {
            return Some(i);
        }
        i = i + 1;
    }
    None
}

/// Position of the closing parenthesis of the argument list that starts at
/// `i`: the first `)` outside a string literal. Inside a string, a backslash
/// escapes the next character, so neither an escaped quote nor a `)` in the
/// text can end the scan early.
pub open spec fn scan_close(s: Seq<char>, i: int, in_str: bool, esc: bool) -> Option<int>
    decreases s.len() - i,
    when 0 <= i <= s.len()
{
    if i >= s.len() {
        Option::None
    } else if in_str {
        if esc {
            scan_close(s, i + 1, true, false)
        } else if s[i] == '\\' {
            scan_close(s, i + 1, true, true)
        } else if s[i] == '"' {
            scan_close(s, i + 1, false, false)
        } else {
            scan_close(s, i + 1, true, false)
        }
    } else if s[i] == ')' {
        Option::Some(i)
    } else if s[i] == '"' {
        scan_close(s, i + 1, true, false)
    } else {
        scan_close(s, i + 1, false, false)
    }
}

/// A successful closing scan lands inside the text, at or after its start.
pub proof fn lemma_scan_close_bounds(s: Seq<char>, i: int, in_str: bool, esc: bool, c: int)
    requires
        0 <= i <= s.len(),
        scan_close(s, i, in_str, esc) == Option::Some(c),
    ensures
        i <= c < s.len(),
    decreases s.len() - i,
{
    if i >= s.len() {
    } else if in_str {
        if esc {
            lemma_scan_close_bounds(s, i + 1, true, false, c);
        } else if s[i] == '\\' {
            lemma_scan_close_bounds(s, i + 1, true, true, c);
        } else if s[i] == '"' {
            lemma_scan_close_bounds(s, i + 1, false, false, c);
        } else {
            lemma_scan_close_bounds(s, i + 1, true, false, c);
        }
    } else if s[i] == ')' {
    } else if s[i] == '"' {
        lemma_scan_close_bounds(s, i + 1, true, false, c);
    } else {
        lemma_scan_close_bounds(s, i + 1, false, false, c);
    }
}

/// Scans for the closing parenthesis from `start`.
pub(crate) fn scan_close_from(v: &Vec<char>, start: usize) -> (r: Option<usize>)
    requires
        start <= v@.len(),
    ensures
        opt_idx_eq(r, scan_close(v@, start as int, false, false)),
        r matches Option::Some(c) ==> start <= c < v@.len(),
{
    let n = v.len();
    let mut i: usize = start;
    let mut in_str: bool = false;
    let mut esc: bool = false;
    while i < n
        invariant
            start <= i <= n,
            n == v@.len(),
            in_str || !esc,
            scan_close(v@, start as int, false, false) == scan_close(v@, i as int, in_str, esc),
        decreases n - i,
    {
        let c = v[i];
        if in_str {
            if esc {
                esc = false;
            } else if c == '\\' {
                esc = true;
            } else if c == '"' {
                in_str = false;
            }
        } else if c == ')' {
            return Some(i);
        } else if c == '"' {
            in_str = true;
        }
        i = i + 1;
    }
    None
}

} // verus!
