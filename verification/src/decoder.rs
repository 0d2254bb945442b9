//! The chapter payload decoder: a strict structured-literal grammar over the
//! isolated argument text.
//!
//! The grammar is the JSON value grammar: a string escape is one of the
//! eight single-character escapes (`\" \\ \/ \b \f \n \r \t`) or `\u` with
//! four hex digits, where a high surrogate must be followed by a `\u`-escaped
//! low surrogate and a lone surrogate is rejected; whitespace between tokens
//! is the four ASCII whitespace characters. Every parsing function exists
//! twice: a specification function over `Seq<char>` that defines the
//! grammar, and an executable scanner proved to return exactly what the
//! specification says.

use vstd::prelude::*;
use vstd::string::*;

use crate::locator::opt_idx_eq;
use crate::text::{chars_to_string, is_ws, is_ws_char, push_char};

verus! {

/// A decimal digit.
pub open spec fn is_digit(c: char) -> bool {
    48 <= c as u32 <= 57
}

fn is_digit_x(c: char) -> (b: bool)
    ensures
        b == is_digit(c),
{
    (c as u32) >= 48 && (c as u32) <= 57
}

/// What a single-character string escape stands for.
pub open spec fn unescape(c: char) -> Option<char> {
    if c == '"' {
        Option::Some('"')
    } else if c == '\\' {
        Option::Some('\\')
    } else if c == '/' {
        Option::Some('/')
    } else if c == 'b' {
        Option::Some('\u{8}')
    } else if c == 'f' {
        Option::Some('\u{c}')
    } else if c == 'n' {
        Option::Some('\n')
    } else if c == 'r' {
        Option::Some('\r')
    } else if c == 't' {
        Option::Some('\t')
    } else {
        Option::None
    }
}

fn unescape_x(c: char) -> (r: Option<char>)
    ensures
        r == unescape(c),
{
    if c == '"' {
        Some('"')
    } else if c == '\\' {
        Some('\\')
    } else if c == '/' {
        Some('/')
    } else if c == 'b' {
        Some('\u{8}')
    } else if c == 'f' {
        Some('\u{c}')
    } else if c == 'n' {
        Some('\n')
    } else if c == 'r' {
        Some('\r')
    } else if c == 't' {
        Some('\t')
    } else {
        None
    }
}

/// The value of a hexadecimal digit.
pub open spec fn hex_val(c: char) -> Option<int> {
    let u = c as u32;
    if 48 <= u && u <= 57 {
        Option::Some(u - 48)
    } else if 97 <= u && u <= 102 {
        Option::Some(u - 97 + 10)
    } else if 65 <= u && u <= 70 {
        Option::Some(u - 65 + 10)
    } else {
        Option::None
    }
}

fn hex_val_x(c: char) -> (r: Option<u32>)
    ensures
        match r {
            Option::Some(h) => hex_val(c) == Option::Some(h as int) && h < 16,
            Option::None => hex_val(c) is None,
        },
{
    let u = c as u32;
    if u >= 48 && u <= 57 {
        Some(u - 48)
    } else if u >= 97 && u <= 102 {
        Some(u - 97 + 10)
    } else if u >= 65 && u <= 70 {
        Some(u - 65 + 10)
    } else {
        None
    }
}

/// The value of the four hexadecimal digits at `i`.
pub open spec fn hex4(s: Seq<char>, i: int) -> Option<int> {
    if !(0 <= i && i + 4 <= s.len()) {
        Option::None
    } else {
        match (hex_val(s[i]), hex_val(s[i + 1]), hex_val(s[i + 2]), hex_val(s[i + 3])) {
            (Option::Some(a), Option::Some(b), Option::Some(c), Option::Some(d)) => Option::Some(
                a * 4096 + b * 256 + c * 16 + d,
            ),
            _ => Option::None,
        }
    }
}

fn hex4_x(v: &Vec<char>, i: usize) -> (r: Option<u32>)
    requires
        i <= v@.len(),
    ensures
        match r {
            Option::Some(u) => hex4(v@, i as int) == Option::Some(u as int) && u < 0x10000,
            Option::None => hex4(v@, i as int) is None,
        },
{
    let n = v.len();
    if n - i < 4 {
        return None;
    }
    let a = match hex_val_x(v[i]) {
        Some(x) => x,
        None => return None,
    };
    let b = match hex_val_x(v[i + 1]) {
        Some(x) => x,
        None => return None,
    };
    let c = match hex_val_x(v[i + 2]) {
        Some(x) => x,
        None => return None,
    };
    let d = match hex_val_x(v[i + 3]) {
        Some(x) => x,
        None => return None,
    };
    Some(a * 4096 + b * 256 + c * 16 + d)
}

/// Relies on std's `char::from_u32`: `Some` exactly for Unicode scalar
/// values (not a surrogate, at most 0x10FFFF), holding the character with
/// that value.
#[verifier::external_body]
fn char_from_u32(u: u32) -> (r: Option<char>)
    ensures
        (r is Some) == (u < 0xD800 || (0xE000 <= u && u <= 0x10FFFF)),
        r matches Option::Some(c) ==> c == u as char,
{
    char::from_u32(u)
}

/// The character denoted by the escape sequence whose backslash stands at
/// `i`, and the position just past the sequence: a single-character escape,
/// or `\u` with four hex digits, where a high surrogate must be followed by
/// a `\u`-escaped low surrogate and a lone surrogate denotes nothing.
pub open spec fn escape_at(s: Seq<char>, i: int) -> Option<(char, int)> {
    if !(0 <= i && i + 1 < s.len() && s[i] == '\\') {
        Option::None
    } else if s[i + 1] == 'u' {
        match hex4(s, i + 2) {
            Option::None => Option::None,
            Option::Some(u) => if 0xD800 <= u && u < 0xDC00 {
                if i + 7 < s.len() && s[i + 6] == '\\' && s[i + 7] == 'u' {
                    match hex4(s, i + 8) {
                        Option::Some(u2) => if 0xDC00 <= u2 && u2 < 0xE000 {
                            Option::Some(
                                (
                                    ((0x10000 + (u - 0xD800) * 0x400 + (u2 - 0xDC00)) as u32) as char,
                                    i + 12,
                                ),
                            )
                        } else {
                            Option::None
                        },
                        Option::None => Option::None,
                    }
                } else {
                    Option::None
                }
            } else if 0xDC00 <= u && u < 0xE000 {
                Option::None
            } else {
                Option::Some(((u as u32) as char, i + 6))
            },
        }
    } else {
        match unescape(s[i + 1]) {
            Option::Some(c) => Option::Some((c, i + 2)),
            Option::None => Option::None,
        }
    }
}

/// Executable counterpart of [`escape_at`].
fn escape_at_x(v: &Vec<char>, i: usize) -> (r: Option<(char, usize)>)
    requires
        i <= v@.len(),
    ensures
        match r {
            Option::Some((c, j)) => escape_at(v@, i as int) == Option::Some((c, j as int)) && i < j
                <= v@.len(),
            Option::None => escape_at(v@, i as int) is None,
        },
{
    let n = v.len();
    if n - i < 2 || v[i] != '\\' {
        return None;
    }
    if v[i + 1] == 'u' {
        match hex4_x(v, i + 2) {
            None => None,
            Some(u) => {
                if u >= 0xD800 && u < 0xDC00 {
                    if n - i >= 8 && v[i + 6] == '\\' && v[i + 7] == 'u' {
                        match hex4_x(v, i + 8) {
                            Some(u2) => {
                                if u2 >= 0xDC00 && u2 < 0xE000 {
                                    let sc: u32 = 0x10000 + (u - 0xD800) * 0x400 + (u2 - 0xDC00);
                                    match char_from_u32(sc) {
                                        Some(c) => Some((c, i + 12)),
                                        None => {
                                            proof {
                                                assert(false);
                                            }
                                            None
                                        },
                                    }
                                } else {
                                    None
                                }
                            },
                            None => None,
                        }
                    } else {
                        None
                    }
                } else if u >= 0xDC00 && u < 0xE000 {
                    None
                } else {
                    match char_from_u32(u) {
                        Some(c) => Some((c, i + 6)),
                        None => {
                            proof {
                                assert(false);
                            }
                            None
                        },
                    }
                }
            },
        }
    } else {
        match unescape_x(v[i + 1]) {
            Some(c) => Some((c, i + 2)),
            None => None,
        }
    }
}

/// First index at or after `i` that does not hold grammar whitespace.
pub open spec fn ws_end(s: Seq<char>, i: int) -> int
    decreases s.len() - i,
    when 0 <= i <= s.len()
{
    if i < s.len() && is_ws_char(s[i]) {
        ws_end(s, i + 1)
    } else {
        i
    }
}

/// Skips grammar whitespace: the executable counterpart of [`ws_end`].
pub(crate) fn skip_ws_x(v: &Vec<char>, i: usize) -> (r: usize)
    requires
        i <= v@.len(),
    ensures
        r as int == ws_end(v@, i as int),
        i <= r <= v@.len(),
{
    let n = v.len();
    let mut r = i;
    while r < n && is_ws(v[r])
        invariant
            i <= r <= n,
            n == v@.len(),
            ws_end(v@, i as int) == ws_end(v@, r as int),
        decreases n - r,
    {
        r = r + 1;
    }
    r
}

/// First index at or after `i` that does not hold a digit.
pub open spec fn digits_end(s: Seq<char>, i: int) -> int
    decreases s.len() - i,
    when 0 <= i <= s.len()
{
    if i < s.len() && is_digit(s[i]) {
        digits_end(s, i + 1)
    } else {
        i
    }
}

fn digits_end_x(v: &Vec<char>, i: usize) -> (r: usize)
    requires
        i <= v@.len(),
    ensures
        r as int == digits_end(v@, i as int),
        i <= r <= v@.len(),
{
    let n = v.len();
    let mut r = i;
    while r < n && is_digit_x(v[r])
        invariant
            i <= r <= n,
            n == v@.len(),
            digits_end(v@, i as int) == digits_end(v@, r as int),
        decreases n - r,
    {
        r = r + 1;
    }
    r
}

/// End position of a string body that starts at `i`, just after the opening
/// quote: the index past the closing quote, or `None` when the body is
/// unterminated, holds a bad escape, or holds a raw control character.
pub open spec fn str_end_pos(s: Seq<char>, i: int) -> Option<int>
    decreases s.len() - i,
    when 0 <= i <= s.len()
{
    if i >= s.len() {
        Option::None
    } else if s[i] == '"' {
        Option::Some(i + 1)
    } else if s[i] == '\\' {
        match escape_at(s, i) {
            Option::Some((c, j)) => if i < j <= s.len() {
                str_end_pos(s, j)
            } else {
                Option::None
            },
            Option::None => Option::None,
        }
    } else if (s[i] as u32) < 32 {
        Option::None
    } else {
        str_end_pos(s, i + 1)
    }
}

/// The decoded content of the string body that starts at `i`; meaningful
/// only where [`str_end_pos`] succeeds.
pub open spec fn str_content(s: Seq<char>, i: int) -> Seq<char>
    decreases s.len() - i,
    when 0 <= i <= s.len()
{
    if i >= s.len() {
        Seq::empty()
    } else if s[i] == '"' {
        Seq::empty()
    } else if s[i] == '\\' {
        match escape_at(s, i) {
            Option::Some((c, j)) => if i < j <= s.len() {
                seq![c] + str_content(s, j)
            } else {
                Seq::empty()
            },
            Option::None => Seq::empty(),
        }
    } else if (s[i] as u32) < 32 {
        Seq::empty()
    } else {
        seq![s[i]] + str_content(s, i + 1)
    }
}

/// Scans a string body from `i` (just after the opening quote), returning
/// the decoded content and the position past the closing quote.
pub(crate) fn str_x(v: &Vec<char>, i: usize) -> (r: Option<(String, usize)>)
    requires
        i <= v@.len(),
    ensures
        match r {
            Option::Some((t, j)) => str_end_pos(v@, i as int) == Option::Some(j as int) && t@
                == str_content(v@, i as int) && i < j <= v@.len(),
            Option::None => str_end_pos(v@, i as int) is None,
        },
{
    let n = v.len();
    let mut cur = i;
    let mut acc = String::new();
    proof {
        assert(str_content(v@, i as int) =~= acc@ + str_content(v@, i as int));
    }
    loop
        invariant
            i <= cur <= n,
            n == v@.len(),
            str_end_pos(v@, i as int) == str_end_pos(v@, cur as int),
            str_content(v@, i as int) == acc@ + str_content(v@, cur as int),
        decreases n - cur,
    {
        if cur >= n {
            return None;
        }
        let c = v[cur];
        if c == '"' {
            proof {
                assert(str_content(v@, i as int) =~= acc@);
            }
            return Some((acc, cur + 1));
        } else if c == '\\' {
            match escape_at_x(v, cur) {
                Some((d, j)) => {
                    proof {
                        assert(str_content(v@, cur as int) == seq![d] + str_content(
                            v@,
                            j as int,
                        ));
                    }
                    push_char(&mut acc, d);
                    proof {
                        assert(str_content(v@, i as int) =~= acc@ + str_content(v@, j as int));
                    }
                    cur = j;
                },
                None => {
                    return None;
                },
            }
        } else if (c as u32) < 32 {
            return None;
        } else {
            proof {
                assert(str_content(v@, cur as int) == seq![c] + str_content(v@, cur + 1));
            }
            push_char(&mut acc, c);
            proof {
                assert(str_content(v@, i as int) =~= acc@ + str_content(v@, cur + 1));
            }
            cur = cur + 1;
        }
    }
}

/// End of the optional exponent part that may stand at `c`.
pub open spec fn num_exp_end(s: Seq<char>, c: int) -> Option<int> {
    if 0 <= c < s.len() && (s[c] == 'e' || s[c] == 'E') {
        let d = if c + 1 < s.len() && (s[c + 1] == '+' || s[c + 1] == '-') {
            c + 2
        } else {
            c + 1
        };
        if !(0 <= d <= s.len()) {
            Option::None
        } else {
            let g = digits_end(s, d);
            if d < g <= s.len() {
                Option::Some(g)
            } else {
                Option::None
            }
        }
    } else {
        Option::Some(c)
    }
}

/// End position of the number token that starts at `i`: an optional minus
/// sign, an integer part without leading zeros, an optional fraction, an
/// optional exponent.
pub open spec fn num_end(s: Seq<char>, i: int) -> Option<int> {
    if !(0 <= i < s.len()) {
        Option::None
    } else {
        let a = if s[i] == '-' {
            i + 1
        } else {
            i
        };
        if a >= s.len() || !is_digit(s[a]) {
            Option::None
        } else {
            let b = if s[a] == '0' {
                a + 1
            } else {
                digits_end(s, a)
            };
            if !(a < b <= s.len()) {
                Option::None
            } else if b < s.len() && s[b] == '.' {
                let f = digits_end(s, b + 1);
                if b + 1 < f <= s.len() {
                    num_exp_end(s, f)
                } else {
                    Option::None
                }
            } else {
                num_exp_end(s, b)
            }
        }
    }
}

fn num_exp_end_x(v: &Vec<char>, c: usize) -> (r: Option<usize>)
    requires
        c <= v@.len(),
    ensures
        opt_idx_eq(r, num_exp_end(v@, c as int)),
        r matches Option::Some(m) ==> c <= m <= v@.len(),
{
    let n = v.len();
    if c < n && (v[c] == 'e' || v[c] == 'E') {
        let d = if c + 1 < n && (v[c + 1] == '+' || v[c + 1] == '-') {
            c + 2
        } else {
            c + 1
        };
        let g = digits_end_x(v, d);
        if d < g {
            Some(g)
        } else {
            None
        }
    } else {
        Some(c)
    }
}

pub(crate) fn num_end_x(v: &Vec<char>, i: usize) -> (r: Option<usize>)
    requires
        i <= v@.len(),
    ensures
        opt_idx_eq(r, num_end(v@, i as int)),
        r matches Option::Some(m) ==> i < m <= v@.len(),
{
    let n = v.len();
    if i >= n {
        return None;
    }
    let a = if v[i] == '-' {
        i + 1
    } else {
        i
    };
    if a >= n || !is_digit_x(v[a]) {
        return None;
    }
    let b = if v[a] == '0' {
        a + 1
    } else {
        digits_end_x(v, a)
    };
    if !(a < b) {
        return None;
    }
    if b < n && v[b] == '.' {
        let f = digits_end_x(v, b + 1);
        if b + 1 < f {
            num_exp_end_x(v, f)
        } else {
            None
        }
    } else {
        num_exp_end_x(v, b)
    }
}

/// End position of the keyword literal (`true`, `false` or `null`) at `i`.
pub open spec fn lit_end(s: Seq<char>, i: int) -> Option<int> {
    if 0 <= i && i + 4 <= s.len() && s[i] == 't' && s[i + 1] == 'r' && s[i + 2] == 'u' && s[i + 3]
        == 'e' {
        Option::Some(i + 4)
    } else if 0 <= i && i + 5 <= s.len() && s[i] == 'f' && s[i + 1] == 'a' && s[i + 2] == 'l' && s[i
        + 3] == 's' && s[i + 4] == 'e' {
        Option::Some(i + 5)
    } else if 0 <= i && i + 4 <= s.len() && s[i] == 'n' && s[i + 1] == 'u' && s[i + 2] == 'l' && s[i
        + 3] == 'l' {
        Option::Some(i + 4)
    } else {
        Option::None
    }
}

pub(crate) fn lit_end_x(v: &Vec<char>, i: usize) -> (r: Option<usize>)
    requires
        i <= v@.len(),
    ensures
        opt_idx_eq(r, lit_end(v@, i as int)),
        r matches Option::Some(m) ==> i < m <= v@.len(),
{
    let n = v.len();
    if n - i >= 4 && v[i] == 't' && v[i + 1] == 'r' && v[i + 2] == 'u' && v[i + 3] == 'e' {
        Some(i + 4)
    } else if n - i >= 5 && v[i] == 'f' && v[i + 1] == 'a' && v[i + 2] == 'l' && v[i + 3] == 's'
        && v[i + 4] == 'e' {
        Some(i + 5)
    } else if n - i >= 4 && v[i] == 'n' && v[i + 1] == 'u' && v[i + 2] == 'l' && v[i + 3] == 'l' {
        Some(i + 4)
    } else {
        None
    }
}

/// End position of the value that starts at `i`, or `None` when no value of
/// the grammar starts there.
pub open spec fn skip_value(s: Seq<char>, i: int) -> Option<int>
    decreases s.len() - i, 0int,
    when 0 <= i <= s.len()
{
    if i >= s.len() {
        Option::None
    } else if s[i] == '"' {
        str_end_pos(s, i + 1)
    } else if s[i] == '[' {
        skip_items(s, i + 1, false)
    } else if s[i] == '{' {
        skip_members(s, i + 1, false)
    } else if s[i] == '-' || is_digit(s[i]) {
        num_end(s, i)
    } else {
        lit_end(s, i)
    }
}

/// End position of an array tail: `i` stands just past `[` or past a parsed
/// element, `seen` says whether an element was parsed already.
pub open spec fn skip_items(s: Seq<char>, i: int, seen: bool) -> Option<int>
    decreases s.len() - i, 1int,
    when 0 <= i <= s.len()
{
    let j = ws_end(s, i);
    if !(i <= j <= s.len()) {
        Option::None
    } else if j >= s.len() {
        Option::None
    } else if s[j] == ']' {
        Option::Some(j + 1)
    } else if seen && s[j] != ',' {
        Option::None
    } else {
        let k = if seen {
            ws_end(s, j + 1)
        } else {
            j
        };
        if !(i <= k <= s.len()) {
            Option::None
        } else {
            match skip_value(s, k) {
                Option::Some(m) => if k < m <= s.len() {
                    skip_items(s, m, true)
                } else {
                    Option::None
                },
                Option::None => Option::None,
            }
        }
    }
}

/// End position of an object tail, in the same style as [`skip_items`].
pub open spec fn skip_members(s: Seq<char>, i: int, seen: bool) -> Option<int>
    decreases s.len() - i, 1int,
    when 0 <= i <= s.len()
{
    let j = ws_end(s, i);
    if !(i <= j <= s.len()) {
        Option::None
    } else if j >= s.len() {
        Option::None
    } else if s[j] == '}' {
        Option::Some(j + 1)
    } else if seen && s[j] != ',' {
        Option::None
    } else {
        let k = if seen {
            ws_end(s, j + 1)
        } else {
            j
        };
        if !(i <= k <= s.len()) {
            Option::None
        } else if k >= s.len() || s[k] != '"' {
            Option::None
        } else {
            match str_end_pos(s, k + 1) {
                Option::None => Option::None,
                Option::Some(p) => if !(k < p <= s.len()) {
                    Option::None
                } else {
                    let q = ws_end(s, p);
                    if !(p <= q <= s.len()) {
                        Option::None
                    } else if q >= s.len() || s[q] != ':' {
                        Option::None
                    } else {
                        let r = ws_end(s, q + 1);
                        if !(i < r <= s.len()) {
                            Option::None
                        } else {
                            match skip_value(s, r) {
                                Option::Some(m) => if r < m <= s.len() {
                                    skip_members(s, m, true)
                                } else {
                                    Option::None
                                },
                                Option::None => Option::None,
                            }
                        }
                    }
                },
            }
        }
    }
}

proof fn lemma_str_end_pos_bounds(s: Seq<char>, i: int, j: int)
    requires
        0 <= i <= s.len(),
        str_end_pos(s, i) == Option::Some(j),
    ensures
        i < j <= s.len(),
    decreases s.len() - i,
{
    if i >= s.len() {
    } else if s[i] == '"' {
    } else if s[i] == '\\' {
        match escape_at(s, i) {
            Option::Some((c, k)) => {
                if i < k <= s.len() {
                    lemma_str_end_pos_bounds(s, k, j);
                }
            },
            Option::None => {},
        }
    } else if (s[i] as u32) < 32 {
    } else {
        lemma_str_end_pos_bounds(s, i + 1, j);
    }
}

proof fn lemma_num_end_bounds(s: Seq<char>, i: int, m: int)
    requires
        num_end(s, i) == Option::Some(m),
    ensures
        0 <= i < m <= s.len(),
{
}

/// Bounds of a successful value skip: the end lies past the start, inside
/// the text.
proof fn lemma_skip_value_bounds(s: Seq<char>, i: int, m: int)
    requires
        0 <= i <= s.len(),
        skip_value(s, i) == Option::Some(m),
    ensures
        i < m <= s.len(),
    decreases s.len() - i, 0int,
{
    if i >= s.len() {
    } else if s[i] == '"' {
        lemma_str_end_pos_bounds(s, i + 1, m);
    } else if s[i] == '[' {
        lemma_skip_items_bounds(s, i + 1, false, m);
    } else if s[i] == '{' {
        lemma_skip_members_bounds(s, i + 1, false, m);
    } else if s[i] == '-' || is_digit(s[i]) {
        lemma_num_end_bounds(s, i, m);
    } else {
    }
}

proof fn lemma_skip_items_bounds(s: Seq<char>, i: int, seen: bool, m: int)
    requires
        0 <= i <= s.len(),
        skip_items(s, i, seen) == Option::Some(m),
    ensures
        i < m <= s.len(),
    decreases s.len() - i, 1int,
{
    let j = ws_end(s, i);
    if i <= j <= s.len() && j < s.len() && s[j] != ']' && !(seen && s[j] != ',') {
        let k = if seen {
            ws_end(s, j + 1)
        } else {
            j
        };
        if i <= k <= s.len() {
            match skip_value(s, k) {
                Option::Some(m1) => {
                    if k < m1 <= s.len() {
                        lemma_skip_items_bounds(s, m1, true, m);
                    }
                },
                Option::None => {},
            }
        }
    }
}

proof fn lemma_skip_members_bounds(s: Seq<char>, i: int, seen: bool, m: int)
    requires
        0 <= i <= s.len(),
        skip_members(s, i, seen) == Option::Some(m),
    ensures
        i < m <= s.len(),
    decreases s.len() - i, 1int,
{
    let j = ws_end(s, i);
    if i <= j <= s.len() && j < s.len() && s[j] != '}' && !(seen && s[j] != ',') {
        let k = if seen {
            ws_end(s, j + 1)
        } else {
            j
        };
        if i <= k <= s.len() && k < s.len() && s[k] == '"' {
            match str_end_pos(s, k + 1) {
                Option::Some(p) => {
                    if k < p <= s.len() {
                        let q = ws_end(s, p);
                        if p <= q <= s.len() && q < s.len() && s[q] == ':' {
                            let r = ws_end(s, q + 1);
                            if i < r <= s.len() {
                                match skip_value(s, r) {
                                    Option::Some(m1) => {
                                        if r < m1 <= s.len() {
                                            lemma_skip_members_bounds(s, m1, true, m);
                                        }
                                    },
                                    Option::None => {},
                                }
                            }
                        }
                    }
                },
                Option::None => {},
            }
        }
    }
}

/// One container the iterative skip scanner is inside of.
enum Frame {
    Arr,
    Obj,
}

/// What the whole skip comes to, given that the value inside the innermost
/// pending container just ended at `m`: each pending container's tail is
/// scanned in turn, innermost first.
spec fn unwind(s: Seq<char>, st: Seq<Frame>, m: int) -> Option<int>
    decreases st.len(),
{
    if st.len() == 0 {
        Option::Some(m)
    } else {
        let r = match st.last() {
            Frame::Arr => skip_items(s, m, true),
            Frame::Obj => skip_members(s, m, true),
        };
        match r {
            Option::Some(e) => unwind(s, st.drop_last(), e),
            Option::None => Option::None,
        }
    }
}

/// What the whole skip comes to, given that a value is about to be scanned
/// at `k` inside the pending containers.
spec fn value_then_unwind(s: Seq<char>, st: Seq<Frame>, k: int) -> Option<int> {
    match skip_value(s, k) {
        Option::Some(m) => unwind(s, st, m),
        Option::None => Option::None,
    }
}

/// Executable counterpart of [`skip_value`]: an iterative scanner whose
/// explicit stack of pending containers keeps the recursion depth off the
/// call stack, so arbitrarily deep nesting cannot exhaust it.
pub(crate) fn skip_value_x(v: &Vec<char>, i: usize) -> (r: Option<usize>)
    requires
        i <= v@.len(),
    ensures
        opt_idx_eq(r, skip_value(v@, i as int)),
        r matches Option::Some(m) ==> i < m <= v@.len(),
{
    let n = v.len();
    let mut pos = i;
    let mut at_value = true;
    let mut frames: Vec<Frame> = Vec::new();
    loop
        invariant
            n == v@.len(),
            pos <= n,
            at_value ==> i <= pos,
            !at_value ==> i < pos,
            at_value ==> skip_value(v@, i as int) == value_then_unwind(v@, frames@, pos as int),
            !at_value ==> skip_value(v@, i as int) == unwind(v@, frames@, pos as int),
        decreases n - pos,
    {
        if at_value {
            let k = pos;
            if k >= n {
                return None;
            }
            let c = v[k];
            if c == '"' {
                match str_x(v, k + 1) {
                    Some((_t, m)) => {
                        pos = m;
                        at_value = false;
                    },
                    None => {
                        return None;
                    },
                }
            } else if c == '[' {
                let j = skip_ws_x(v, k + 1);
                if j >= n {
                    return None;
                }
                if v[j] == ']' {
                    pos = j + 1;
                    at_value = false;
                } else {
                    proof {
                        if skip_value(v@, j as int) is Some {
                            lemma_skip_value_bounds(
                                v@,
                                j as int,
                                skip_value(v@, j as int)->0,
                            );
                        }
                        assert(frames@.push(Frame::Arr).drop_last() =~= frames@);
                    }
                    frames.push(Frame::Arr);
                    pos = j;
                }
            } else if c == '{' {
                let j = skip_ws_x(v, k + 1);
                if j >= n {
                    return None;
                }
                if v[j] == '}' {
                    pos = j + 1;
                    at_value = false;
                } else {
                    if v[j] != '"' {
                        return None;
                    }
                    match str_x(v, j + 1) {
                        None => {
                            return None;
                        },
                        Some((_key, p)) => {
                            let q = skip_ws_x(v, p);
                            if q >= n || v[q] != ':' {
                                return None;
                            }
                            let r = skip_ws_x(v, q + 1);
                            proof {
                                if skip_value(v@, r as int) is Some {
                                    lemma_skip_value_bounds(
                                        v@,
                                        r as int,
                                        skip_value(v@, r as int)->0,
                                    );
                                }
                                assert(frames@.push(Frame::Obj).drop_last() =~= frames@);
                            }
                            frames.push(Frame::Obj);
                            pos = r;
                        },
                    }
                }
            } else if c == '-' || is_digit_x(c) {
                match num_end_x(v, k) {
                    Some(m) => {
                        pos = m;
                        at_value = false;
                    },
                    None => {
                        return None;
                    },
                }
            } else {
                match lit_end_x(v, k) {
                    Some(m) => {
                        pos = m;
                        at_value = false;
                    },
                    None => {
                        return None;
                    },
                }
            }
        } else {
            let m = pos;
            let fr = match frames.pop() {
                None => {
                    return Some(m);
                },
                Some(fr) => fr,
            };
            let j = skip_ws_x(v, m);
            if j >= n {
                return None;
            }
            match fr {
                Frame::Arr => {
                    if v[j] == ']' {
                        pos = j + 1;
                    } else if v[j] != ',' {
                        return None;
                    } else {
                        let k2 = skip_ws_x(v, j + 1);
                        proof {
                            if skip_value(v@, k2 as int) is Some {
                                lemma_skip_value_bounds(
                                    v@,
                                    k2 as int,
                                    skip_value(v@, k2 as int)->0,
                                );
                            }
                            assert(frames@.push(Frame::Arr).drop_last() =~= frames@);
                        }
                        frames.push(Frame::Arr);
                        pos = k2;
                        at_value = true;
                    }
                },
                Frame::Obj => {
                    if v[j] == '}' {
                        pos = j + 1;
                    } else if v[j] != ',' {
                        return None;
                    } else {
                        let k2 = skip_ws_x(v, j + 1);
                        if k2 >= n || v[k2] != '"' {
                            return None;
                        }
                        match str_x(v, k2 + 1) {
                            None => {
                                return None;
                            },
                            Some((_key, p)) => {
                                let q = skip_ws_x(v, p);
                                if q >= n || v[q] != ':' {
                                    return None;
                                }
                                let r = skip_ws_x(v, q + 1);
                                proof {
                                    if skip_value(v@, r as int) is Some {
                                        lemma_skip_value_bounds(
                                            v@,
                                            r as int,
                                            skip_value(v@, r as int)->0,
                                        );
                                    }
                                    assert(frames@.push(Frame::Obj).drop_last() =~= frames@);
                                }
                                frames.push(Frame::Obj);
                                pos = r;
                                at_value = true;
                            },
                        }
                    }
                },
            }
        }
    }
}

/// The mathematical content of one chapter: the duration as the number token
/// found in the payload, the decoded title and the decoded media location.
pub struct ChapterModel {
    pub duration: Seq<char>,
    pub title: Seq<char>,
    pub url: Seq<char>,
}

/// One playable segment of the book.
#[derive(Debug, PartialEq, Eq)]
pub struct BookChapter {
    /// The chapter length, verbatim as the decimal literal in the payload.
    /// The library states nothing about floating-point arithmetic, so the
    /// token is handed over undecoded; callers interpret it.
    pub duration_float: String,
    pub title: String,
    pub url: String,
}

impl View for BookChapter {
    type V = ChapterModel;

    open spec fn view(&self) -> ChapterModel {
        ChapterModel { duration: self.duration_float@, title: self.title@, url: self.url@ }
    }
}

/// The chapter models that a chapter vector stands for.
pub open spec fn cmodels(cs: Seq<BookChapter>) -> Seq<ChapterModel> {
    cs.map_values(|c: BookChapter| c@)
}

/// The view of an optional accumulated string.
pub open spec fn opt_str_view(o: &Option<String>) -> Option<Seq<char>> {
    match o {
        Option::Some(s) => Option::Some(s@),
        Option::None => Option::None,
    }
}

/// Members of a chapter object, from `i` just past `{` or past a parsed
/// member. The three required fields are collected as they appear; a
/// duplicate required field fails, any other member is skipped. At `}` the
/// chapter is complete only if all three fields were seen.
pub open spec fn chapter_members(
    s: Seq<char>,
    i: int,
    seen: bool,
    dur: Option<Seq<char>>,
    title: Option<Seq<char>>,
    url: Option<Seq<char>>,
) -> Option<(ChapterModel, int)>
    decreases s.len() - i,
    when 0 <= i <= s.len()
{
    let j = ws_end(s, i);
    if !(i <= j <= s.len()) {
        Option::None
    } else if j >= s.len() {
        Option::None
    } else if s[j] == '}' {
        if dur is Some && title is Some && url is Some {
            Option::Some((ChapterModel { duration: dur->0, title: title->0, url: url->0 }, j + 1))
        } else {
            Option::None
        }
    } else if seen && s[j] != ',' {
        Option::None
    } else {
        let k = if seen {
            ws_end(s, j + 1)
        } else {
            j
        };
        if !(i <= k <= s.len()) {
            Option::None
        } else if k >= s.len() || s[k] != '"' {
            Option::None
        } else {
            match str_end_pos(s, k + 1) {
                Option::None => Option::None,
                Option::Some(p) => if !(k < p <= s.len()) {
                    Option::None
                } else {
                    let key = str_content(s, k + 1);
                    let q = ws_end(s, p);
                    if !(p <= q <= s.len()) {
                        Option::None
                    } else if q >= s.len() || s[q] != ':' {
                        Option::None
                    } else {
                        let r = ws_end(s, q + 1);
                        if !(i < r <= s.len()) {
                            Option::None
                        } else if key == "duration_float"@ {
                            if dur is Some {
                                Option::None
                            } else {
                                match num_end(s, r) {
                                    Option::Some(m) => if r < m <= s.len() {
                                        chapter_members(
                                            s,
                                            m,
                                            true,
                                            Option::Some(s.subrange(r, m)),
                                            title,
                                            url,
                                        )
                                    } else {
                                        Option::None
                                    },
                                    Option::None => Option::None,
                                }
                            }
                        } else if key == "title"@ {
                            if title is Some || r >= s.len() || s[r] != '"' {
                                Option::None
                            } else {
                                match str_end_pos(s, r + 1) {
                                    Option::Some(m) => if r < m <= s.len() {
                                        chapter_members(
                                            s,
                                            m,
                                            true,
                                            dur,
                                            Option::Some(str_content(s, r + 1)),
                                            url,
                                        )
                                    } else {
                                        Option::None
                                    },
                                    Option::None => Option::None,
                                }
                            }
                        } else if key == "url"@ {
                            if url is Some || r >= s.len() || s[r] != '"' {
                                Option::None
                            } else {
                                match str_end_pos(s, r + 1) {
                                    Option::Some(m) => if r < m <= s.len() {
                                        chapter_members(
                                            s,
                                            m,
                                            true,
                                            dur,
                                            title,
                                            Option::Some(str_content(s, r + 1)),
                                        )
                                    } else {
                                        Option::None
                                    },
                                    Option::None => Option::None,
                                }
                            }
                        } else {
                            match skip_value(s, r) {
                                Option::Some(m) => if r < m <= s.len() {
                                    chapter_members(s, m, true, dur, title, url)
                                } else {
                                    Option::None
                                },
                                Option::None => Option::None,
                            }
                        }
                    }
                },
            }
        }
    }
}

/// Whether the string holds exactly the given text.
fn str_is(s: &String, lit: &str) -> (b: bool)
    ensures
        b == (s@ == lit@),
{
    let other = String::from_str(lit);
    s.eq(&other)
}

/// Executable counterpart of [`chapter_members`], entered just past `{`.
pub(crate) fn parse_chapter_x(v: &Vec<char>, i: usize) -> (r: Option<(BookChapter, usize)>)
    requires
        i <= v@.len(),
    ensures
        match r {
            Option::Some((c, j)) => chapter_members(
                v@,
                i as int,
                false,
                Option::None,
                Option::None,
                Option::None,
            ) == Option::Some((c@, j as int)) && i < j <= v@.len(),
            Option::None => chapter_members(
                v@,
                i as int,
                false,
                Option::None,
                Option::None,
                Option::None,
            ) is None,
        },
{
    let n = v.len();
    let mut cur = i;
    let mut seen = false;
    let mut dur: Option<String> = None;
    let mut title: Option<String> = None;
    let mut url: Option<String> = None;
    loop
        invariant
            i <= cur <= n,
            n == v@.len(),
            chapter_members(
                v@,
                i as int,
                false,
                Option::None,
                Option::None,
                Option::None,
            ) == chapter_members(
                v@,
                cur as int,
                seen,
                opt_str_view(&dur),
                opt_str_view(&title),
                opt_str_view(&url),
            ),
        decreases n - cur,
    {
        let j = skip_ws_x(v, cur);
        if j >= n {
            return None;
        }
        if v[j] == '}' {
            match (dur, title, url) {
                (Some(d), Some(t), Some(u)) => {
                    return Some((BookChapter { duration_float: d, title: t, url: u }, j + 1));
                },
                _ => {
                    return None;
                },
            }
        }
        if seen && v[j] != ',' {
            return None;
        }
        let k = if seen {
            skip_ws_x(v, j + 1)
        } else {
            j
        };
        if k >= n || v[k] != '"' {
            return None;
        }
        match str_x(v, k + 1) {
            None => {
                return None;
            },
            Some((key, p)) => {
                let q = skip_ws_x(v, p);
                if q >= n || v[q] != ':' {
                    return None;
                }
                let r = skip_ws_x(v, q + 1);
                if str_is(&key, "duration_float") {
                    if dur.is_some() {
                        return None;
                    }
                    match num_end_x(v, r) {
                        Some(m) => {
                            dur = Some(chars_to_string(v, r, m));
                            seen = true;
                            cur = m;
                        },
                        None => {
                            return None;
                        },
                    }
                } else if str_is(&key, "title") {
                    if title.is_some() || r >= n || v[r] != '"' {
                        return None;
                    }
                    match str_x(v, r + 1) {
                        Some((t, m)) => {
                            title = Some(t);
                            seen = true;
                            cur = m;
                        },
                        None => {
                            return None;
                        },
                    }
                } else if str_is(&key, "url") {
                    if url.is_some() || r >= n || v[r] != '"' {
                        return None;
                    }
                    match str_x(v, r + 1) {
                        Some((u, m)) => {
                            url = Some(u);
                            seen = true;
                            cur = m;
                        },
                        None => {
                            return None;
                        },
                    }
                } else {
                    match skip_value_x(v, r) {
                        Some(m) => {
                            seen = true;
                            cur = m;
                        },
                        None => {
                            return None;
                        },
                    }
                }
            },
        }
    }
}

/// Elements of the chapter array, from `i` just past `[` or past a parsed
/// element: every element must be a chapter object, collected in source
/// order.
pub open spec fn chapter_items(s: Seq<char>, i: int, seen: bool, acc: Seq<ChapterModel>) -> Option<
    (Seq<ChapterModel>, int),
>
    decreases s.len() - i,
    when 0 <= i <= s.len()
{
    let j = ws_end(s, i);
    if !(i <= j <= s.len()) {
        Option::None
    } else if j >= s.len() {
        Option::None
    } else if s[j] == ']' {
        Option::Some((acc, j + 1))
    } else if seen && s[j] != ',' {
        Option::None
    } else {
        let k = if seen {
            ws_end(s, j + 1)
        } else {
            j
        };
        if !(i <= k <= s.len()) {
            Option::None
        } else if k >= s.len() || s[k] != '{' {
            Option::None
        } else {
            match chapter_members(s, k + 1, false, Option::None, Option::None, Option::None) {
                Option::Some((c, m)) => if k < m <= s.len() {
                    chapter_items(s, m, true, acc.push(c))
                } else {
                    Option::None
                },
                Option::None => Option::None,
            }
        }
    }
}

/// Executable counterpart of [`chapter_items`], entered just past `[`.
pub(crate) fn chapter_items_x(v: &Vec<char>, i: usize) -> (r: Option<(Vec<BookChapter>, usize)>)
    requires
        i <= v@.len(),
    ensures
        match r {
            Option::Some((ms, e)) => chapter_items(v@, i as int, false, Seq::empty())
                == Option::Some((cmodels(ms@), e as int)),
            Option::None => chapter_items(v@, i as int, false, Seq::empty()) is None,
        },
{
    let n = v.len();
    let mut cur = i;
    let mut seen = false;
    let mut acc: Vec<BookChapter> = Vec::new();
    proof {
        assert(cmodels(acc@) =~= Seq::<ChapterModel>::empty());
    }
    loop
        invariant
            i <= cur <= n,
            n == v@.len(),
            chapter_items(v@, i as int, false, Seq::empty()) == chapter_items(
                v@,
                cur as int,
                seen,
                cmodels(acc@),
            ),
        decreases n - cur,
    {
        let j = skip_ws_x(v, cur);
        if j >= n {
            return None;
        }
        if v[j] == ']' {
            return Some((acc, j + 1));
        }
        if seen && v[j] != ',' {
            return None;
        }
        let k = if seen {
            skip_ws_x(v, j + 1)
        } else {
            j
        };
        if k >= n || v[k] != '{' {
            return None;
        }
        match parse_chapter_x(v, k + 1) {
            Some((c, m)) => {
                proof {
                    assert(cmodels(acc@.push(c)) =~= cmodels(acc@).push(c@));
                }
                acc.push(c);
                seen = true;
                cur = m;
            },
            None => {
                return None;
            },
        }
    }
}

/// Law: order preservation. Whatever the chapter-array parse goes on to
/// collect, the chapters already collected stay, unchanged and in place, at
/// the front of the final sequence: chapters come back in source order.
pub proof fn lemma_chapter_order(
    s: Seq<char>,
    i: int,
    seen: bool,
    acc: Seq<ChapterModel>,
    ms: Seq<ChapterModel>,
    e: int,
)
    requires
        0 <= i <= s.len(),
        chapter_items(s, i, seen, acc) == Option::Some((ms, e)),
    ensures
        acc.len() <= ms.len(),
        forall|t: int| 0 <= t < acc.len() ==> ms[t] == acc[t],
    decreases s.len() - i,
{
    let j = ws_end(s, i);
    if i <= j <= s.len() && j < s.len() && s[j] != ']' && !(seen && s[j] != ',') {
        let k = if seen {
            ws_end(s, j + 1)
        } else {
            j
        };
        if i <= k <= s.len() && k < s.len() && s[k] == '{' {
            match chapter_members(s, k + 1, false, Option::None, Option::None, Option::None) {
                Option::Some((c, m)) => {
                    if k < m <= s.len() {
                        lemma_chapter_order(s, m, true, acc.push(c), ms, e);
                        assert forall|t: int| 0 <= t < acc.len() implies ms[t] == acc[t] by {
                            assert(acc.push(c)[t] == acc[t]);
                        }
                    }
                },
                Option::None => {},
            }
        }
    }
}

/// The spans, as positions in the capture, that an executable span vector
/// stands for.
pub open spec fn spans_of(ps: Seq<(usize, usize)>) -> Seq<(int, int)> {
    ps.map_values(|p: (usize, usize)| (p.0 as int, p.1 as int))
}

/// The spans of the top-level arguments: values separated by commas, running
/// to the end of the capture. An empty argument list does not belong to the
/// grammar.
pub open spec fn top_args(s: Seq<char>, i: int, seen: bool, acc: Seq<(int, int)>) -> Option<
    Seq<(int, int)>,
>
    decreases s.len() - i,
    when 0 <= i <= s.len()
{
    let j = ws_end(s, i);
    if !(i <= j <= s.len()) {
        Option::None
    } else if j >= s.len() {
        if seen {
            Option::Some(acc)
        } else {
            Option::None
        }
    } else if seen && s[j] != ',' {
        Option::None
    } else {
        let k = if seen {
            ws_end(s, j + 1)
        } else {
            j
        };
        if !(i <= k <= s.len()) {
            Option::None
        } else {
            match skip_value(s, k) {
                Option::Some(m) => if k < m <= s.len() {
                    top_args(s, m, true, acc.push((k, m)))
                } else {
                    Option::None
                },
                Option::None => Option::None,
            }
        }
    }
}

/// Executable counterpart of [`top_args`], over the whole capture.
pub(crate) fn top_args_x(v: &Vec<char>) -> (r: Option<Vec<(usize, usize)>>)
    ensures
        match r {
            Option::Some(sp) => top_args(v@, 0, false, Seq::empty()) == Option::Some(spans_of(sp@))
                && forall|t: int|
                0 <= t < sp@.len() ==> ((#[trigger] sp@[t]).0 < sp@[t].1 && sp@[t].1 <= v@.len()),
            Option::None => top_args(v@, 0, false, Seq::empty()) is None,
        },
{
    let n = v.len();
    let mut cur: usize = 0;
    let mut seen = false;
    let mut acc: Vec<(usize, usize)> = Vec::new();
    proof {
        assert(spans_of(acc@) =~= Seq::<(int, int)>::empty());
    }
    loop
        invariant
            cur <= n,
            n == v@.len(),
            top_args(v@, 0, false, Seq::empty()) == top_args(v@, cur as int, seen, spans_of(acc@)),
            forall|t: int|
                0 <= t < acc@.len() ==> ((#[trigger] acc@[t]).0 < acc@[t].1 && acc@[t].1
                    <= v@.len()),
        decreases n - cur,
    {
        let j = skip_ws_x(v, cur);
        if j >= n {
            if seen {
                return Some(acc);
            } else {
                return None;
            }
        }
        if seen && v[j] != ',' {
            return None;
        }
        let k = if seen {
            skip_ws_x(v, j + 1)
        } else {
            j
        };
        match skip_value_x(v, k) {
            Some(m) => {
                proof {
                    assert(spans_of(acc@.push((k, m))) =~= spans_of(acc@).push(
                        (k as int, m as int),
                    ));
                }
                acc.push((k, m));
                seen = true;
                cur = m;
            },
            None => {
                return None;
            },
        }
    }
}

} // verus!
