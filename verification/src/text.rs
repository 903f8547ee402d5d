//! Character-level text helpers: namespace sanitization, ASCII lowercasing,
//! and small utilities for working with strings as character sequences.

use vstd::prelude::*;

verus! {

/// Whether a character counts as alphanumeric, exactly as `char::is_alphanumeric`
/// decides it (a Unicode property; a pure function of the character).
pub uninterp spec fn alphanumeric(c: char) -> bool;

/// Relies on char::is_alphanumeric: a pure Unicode property lookup,
/// the same answer for the same character everywhere.
pub assume_specification[ char::is_alphanumeric ](c: char) -> (r: bool)
    ensures
        r == alphanumeric(c),
;

/// Lowercase an ASCII uppercase letter; leave every other character alone.
pub open spec fn lower_char(c: char) -> char {
    if 'A' <= c && c <= 'Z' {
        ((c as u8) + 32) as char
    } else {
        c
    }
}

/// Lowercase every character of a sequence (ASCII letters only).
pub open spec fn lower_seq(s: Seq<char>) -> Seq<char> {
    s.map_values(|c: char| lower_char(c))
}

/// Lowercase an ASCII uppercase letter; leave every other character alone.
pub fn lower_char_exec(c: char) -> (r: char)
    ensures
        r == lower_char(c),
{
    if 'A' <= c && c <= 'Z' {
        ((c as u8) + 32) as char
    } else {
        c
    }
}

/// A character that is safe in a cache path: alphanumerics, `-` and `_`
/// pass through, everything else becomes `_`.
pub open spec fn sanitize_char(c: char) -> char {
    if alphanumeric(c) || c == '-' || c == '_' {
        c
    } else {
        '_'
    }
}

/// The sanitized form of a namespace identifier.
pub open spec fn sanitize_seq(s: Seq<char>) -> Seq<char> {
    s.map_values(|c: char| sanitize_char(c))
}

/// Replace every character of `name` that is not alphanumeric, `-` or `_`
/// by `_`, so the result is safe to use as a path component.
pub fn sanitize_for_path(name: &str) -> (r: String)
    ensures
        r@ == sanitize_seq(name@),
{
    let n = name.unicode_len();
    let mut r = String::new();
    let mut i: usize = 0;
    while i < n
        invariant
            n == name@.len(),
            i <= n,
            r@ == sanitize_seq(name@.subrange(0, i as int)),
        decreases n - i,
    {
        let c = name.get_char(i);
        if c.is_alphanumeric() || c == '-' || c == '_' {
            let piece = name.substring_char(i, i + 1);
            r.append(piece);
        } else {
            proof {
                reveal_strlit("_");
            }
            r.append("_");
        }
        proof {
            assert(sanitize_seq(name@.subrange(0, i + 1 as int)) =~= sanitize_seq(
                name@.subrange(0, i as int),
            ).push(sanitize_char(name@[i as int])));
            assert(name@.subrange(i as int, i + 1 as int) =~= seq![name@[i as int]]);
        }
        i = i + 1;
    }
    proof {
        assert(name@.subrange(0, n as int) =~= name@);
    }
    r
}

/// The characters of a string, as a vector.
pub fn str_to_chars(s: &str) -> (v: Vec<char>)
    ensures
        v@ == s@,
{
    let n = s.unicode_len();
    let mut v: Vec<char> = Vec::new();
    let mut i: usize = 0;
    while i < n
        invariant
            n == s@.len(),
            i <= n,
            v@ == s@.subrange(0, i as int),
        decreases n - i,
    {
        v.push(s.get_char(i));
        proof {
            assert(v@ =~= s@.subrange(0, i + 1 as int));
        }
        i = i + 1;
    }
    proof {
        assert(s@.subrange(0, n as int) =~= s@);
    }
    v
}

/// Whether a character vector spells exactly the given string.
pub fn chars_eq_str(v: &Vec<char>, s: &str) -> (r: bool)
    ensures
        r == (v@ == s@),
{
    let n = s.unicode_len();
    if v.len() != n {
        return false;
    }
    let mut i: usize = 0;
    while i < n
        invariant
            n == s@.len(),
            v@.len() == n,
            i <= n,
            forall|j: int| 0 <= j < i ==> v@[j] == s@[j],
        decreases n - i,
    {
        if v[i] != s.get_char(i) {
            return false;
        }
        i = i + 1;
    }
    proof {
        assert(v@ =~= s@);
    }
    true
}

/// Whether two strings hold the same characters.
pub fn str_eq(a: &str, b: &str) -> (r: bool)
    ensures
        r == (a@ == b@),
{
    let n = a.unicode_len();
    if b.unicode_len() != n {
        return false;
    }
    let mut i: usize = 0;
    while i < n
        invariant
            n == a@.len(),
            b@.len() == n,
            i <= n,
            forall|j: int| 0 <= j < i ==> a@[j] == b@[j],
        decreases n - i,
    {
        if a.get_char(i) != b.get_char(i) {
            return false;
        }
        i = i + 1;
    }
    proof {
        assert(a@ =~= b@);
    }
    true
}

} // verus!
