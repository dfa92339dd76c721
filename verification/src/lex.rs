//! Character-level scanning shared by the model, fit and NeuroML parsers.
//!
//! Every executable scanner mirrors a spec-level scanner exactly: the spec
//! functions are the definition of the low-level token grammar, and each
//! executable function ensures that it returns precisely what its spec
//! counterpart denotes on the input's view.

use vstd::prelude::*;

verus! {

/// A character allowed inside a quoted name: printable ASCII without the
/// quote and the backslash, so names never need escaping.
pub open spec fn is_name_char(c: char) -> bool {
    0x20 <= c as u32 && c as u32 <= 0x7e && c != '"' && c != '\\'
}

pub open spec fn is_digit_char(c: char) -> bool {
    0x30 <= c as u32 && c as u32 <= 0x39
}

/// A character of an unquoted numeric token.
pub open spec fn is_num_char(c: char) -> bool {
    is_digit_char(c) || c == '.' || c == '-' || c == '+' || c == 'e' || c == 'E'
}

/// The numeric value of a decimal digit character.
pub open spec fn digit_val(c: char) -> u64 {
    (c as u32 - 0x30) as u64
}

fn name_char(c: char) -> (r: bool)
    ensures
        r == is_name_char(c),
{
    let u = c as u32;
    0x20 <= u && u <= 0x7e && c != '"' && c != '\\'
}

fn digit_char(c: char) -> (r: bool)
    ensures
        r == is_digit_char(c),
{
    let u = c as u32;
    0x30 <= u && u <= 0x39
}

fn num_char(c: char) -> (r: bool)
    ensures
        r == is_num_char(c),
{
    digit_char(c) || c == '.' || c == '-' || c == '+' || c == 'e' || c == 'E'
}

/// Matching a fixed literal at position `i`: the position just past it, or
/// nothing if the input does not carry the literal there.
pub open spec fn spec_match(s: Seq<char>, i: int, lit: Seq<char>) -> Option<int> {
    if 0 <= i && i + lit.len() <= s.len() && s.subrange(i, i + lit.len()) == lit {
        Some(i + lit.len())
    } else {
        None
    }
}

/// Matches the literal `lit` at position `i` of `s`.
pub fn match_lit(s: &str, n: usize, i: usize, lit: &str) -> (r: Option<usize>)
    requires
        n == s@.len(),
        i <= n,
    ensures
        match r {
            Some(j) => spec_match(s@, i as int, lit@) == Some(j as int) && i <= j <= n,
            None => spec_match(s@, i as int, lit@) is None,
        },
{
    let m = lit.unicode_len();
    if m > n - i {
        return None;
    }
    let mut k: usize = 0;
    while k < m
        invariant
            n == s@.len(),
            m == lit@.len(),
            i + m <= n,
            0 <= k <= m,
            forall|j: int| 0 <= j < k ==> s@[i + j] == lit@[j],
        decreases m - k,
    {
        if s.get_char(i + k) != lit.get_char(k) {
            proof {
                assert(s@.subrange(i as int, i + m) != lit@) by {
                    assert(s@.subrange(i as int, i + m)[k as int] == s@[i + k]);
                }
            }
            return None;
        }
        k += 1;
    }
    proof {
        assert(s@.subrange(i as int, i + m) =~= lit@);
    }
    Some(i + m)
}

/// Compares two text slices character by character.
pub fn str_eq(a: &str, b: &str) -> (r: bool)
    ensures
        r == (a@ == b@),
{
    let n = a.unicode_len();
    let m = b.unicode_len();
    if n != m {
        return false;
    }
    match match_lit(a, n, 0, b) {
        Some(_) => {
            proof {
                assert(a@.subrange(0, m as int) =~= a@);
            }
            true
        },
        None => {
            proof {
                assert(a@.subrange(0, m as int) =~= a@);
            }
            false
        },
    }
}

/// The index of the closing quote of a name that starts at `j`, if the run
/// from `j` consists of name characters closed by a quote.
pub open spec fn str_end(s: Seq<char>, j: int) -> Option<int>
    decreases s.len() - j,
{
    if j < 0 || j >= s.len() {
        None
    } else if s[j] == '"' {
        Some(j)
    } else if is_name_char(s[j]) {
        str_end(s, j + 1)
    } else {
        None
    }
}

/// A quoted name at position `i`: its characters and the position just past
/// the closing quote.
pub open spec fn spec_parse_string(s: Seq<char>, i: int) -> Option<(Seq<char>, int)> {
    if 0 <= i && i < s.len() && s[i] == '"' {
        match str_end(s, i + 1) {
            Some(e) => Some((s.subrange(i + 1, e), e + 1)),
            None => None,
        }
    } else {
        None
    }
}

/// Parses a quoted name at position `i` of `s`.
pub fn parse_string(s: &str, n: usize, i: usize) -> (r: Option<(String, usize)>)
    requires
        s.is_ascii(),
        n == s@.len(),
        i <= n,
    ensures
        match r {
            Some(t) => spec_parse_string(s@, i as int) == Some((t.0@, t.1 as int)) && i < t.1
                <= n,
            None => spec_parse_string(s@, i as int) is None,
        },
{
    if i >= n || s.get_char(i) != '"' {
        return None;
    }
    let mut j: usize = i + 1;
    loop
        invariant
            s.is_ascii(),
            n == s@.len(),
            i + 1 <= j <= n,
            s@[i as int] == '"',
            str_end(s@, i + 1) == str_end(s@, j as int),
        decreases n - j,
    {
        if j >= n {
            return None;
        }
        let c = s.get_char(j);
        if c == '"' {
            let t = s.substring_ascii(i + 1, j).to_owned();
            return Some((t, j + 1));
        }
        if !name_char(c) {
            return None;
        }
        j += 1;
    }
}

/// Accumulates decimal digits from `j` onto `acc`, failing on a value that
/// does not fit in 64 bits; stops at the first non-digit.
pub open spec fn spec_u64_loop(s: Seq<char>, j: int, acc: u64) -> Option<(u64, int)>
    decreases s.len() - j,
{
    if 0 <= j < s.len() && is_digit_char(s[j]) {
        if acc as int * 10 + digit_val(s[j]) as int <= u64::MAX as int {
            spec_u64_loop(s, j + 1, (acc * 10 + digit_val(s[j])) as u64)
        } else {
            None
        }
    } else {
        Some((acc, j))
    }
}

/// An unsigned decimal number at position `i`: its value and the position
/// just past its digits.  Empty runs and values over 64 bits fail.
pub open spec fn spec_parse_u64(s: Seq<char>, i: int) -> Option<(u64, int)> {
    if 0 <= i < s.len() && is_digit_char(s[i]) {
        spec_u64_loop(s, i, 0)
    } else {
        None
    }
}

/// Parses an unsigned decimal number at position `i` of `s`.
pub fn parse_u64(s: &str, n: usize, i: usize) -> (r: Option<(u64, usize)>)
    requires
        n == s@.len(),
        i <= n,
    ensures
        match r {
            Some(t) => spec_parse_u64(s@, i as int) == Some((t.0, t.1 as int)) && i < t.1 <= n,
            None => spec_parse_u64(s@, i as int) is None,
        },
{
    if i >= n || !digit_char(s.get_char(i)) {
        return None;
    }
    let mut j: usize = i;
    let mut acc: u64 = 0;
    loop
        invariant
            n == s@.len(),
            i <= j <= n,
            spec_parse_u64(s@, i as int) == spec_u64_loop(s@, j as int, acc),
        decreases n - j,
    {
        if j >= n || !digit_char(s.get_char(j)) {
            return Some((acc, j));
        }
        let d: u64 = (s.get_char(j) as u32 - 0x30) as u64;
        proof {
            assert(d == digit_val(s@[j as int]));
            vstd::arithmetic::div_mod::lemma_fundamental_div_mod(
                u64::MAX as int - d as int,
                10,
            );
        }
        if acc > (u64::MAX - d) / 10 {
            return None;
        }
        acc = acc * 10 + d;
        j += 1;
    }
}

/// The first position at or after `j` that does not hold a numeric-token
/// character.
pub open spec fn num_end(s: Seq<char>, j: int) -> int
    decreases s.len() - j,
{
    if 0 <= j < s.len() && is_num_char(s[j]) {
        num_end(s, j + 1)
    } else {
        j
    }
}

/// A non-empty numeric token at position `i`: its characters and the
/// position just past it.  The token's digits are kept as text; no numeric
/// interpretation happens here.
pub open spec fn spec_parse_numtok(s: Seq<char>, i: int) -> Option<(Seq<char>, int)> {
    if 0 <= i < s.len() && is_num_char(s[i]) {
        Some((s.subrange(i, num_end(s, i)), num_end(s, i)))
    } else {
        None
    }
}

/// Parses a non-empty numeric token at position `i` of `s`.
pub fn parse_numtok(s: &str, n: usize, i: usize) -> (r: Option<(String, usize)>)
    requires
        s.is_ascii(),
        n == s@.len(),
        i <= n,
    ensures
        match r {
            Some(t) => spec_parse_numtok(s@, i as int) == Some((t.0@, t.1 as int)) && i < t.1
                <= n,
            None => spec_parse_numtok(s@, i as int) is None,
        },
{
    if i >= n || !num_char(s.get_char(i)) {
        return None;
    }
    let mut j: usize = i + 1;
    loop
        invariant
            s.is_ascii(),
            n == s@.len(),
            i < j <= n,
            num_end(s@, i as int) == num_end(s@, j as int),
        decreases n - j,
    {
        if j >= n || !num_char(s.get_char(j)) {
            proof {
                assert(num_end(s@, j as int) == j as int);
            }
            let t = s.substring_ascii(i, j).to_owned();
            return Some((t, j));
        }
        j += 1;
    }
}

} // verus!
