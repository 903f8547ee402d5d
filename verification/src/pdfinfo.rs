//! Parsing of the page-count/title/author listing that the PDF inspection
//! tool prints: `Key: value` lines, one per property.
//!
//! The subprocess itself is driven by the shell around the library; this
//! module turns its captured output into numbers and strings, with the whole
//! interpretation — line splitting, key/value separation, trimming, decimal
//! parsing with its overflow rule — pinned down by specifications.

use vstd::prelude::*;

use crate::text::str_to_chars;

verus! {

/// Whether a character counts as whitespace, exactly as `char::is_whitespace`
/// decides it (a Unicode property; a pure function of the character).
pub uninterp spec fn whitespace(c: char) -> bool;

/// Relies on char::is_whitespace: a pure Unicode property lookup, the same
/// answer for the same character everywhere.
pub assume_specification[ char::is_whitespace ](c: char) -> (r: bool)
    ensures
        r == whitespace(c),
;

/// `s` without its leading whitespace.
pub open spec fn trim_start_spec(s: Seq<char>) -> Seq<char>
    decreases s.len(),
{
    if s.len() > 0 && whitespace(s[0]) {
        trim_start_spec(s.drop_first())
    } else {
        s
    }
}

/// `s` without its trailing whitespace.
pub open spec fn trim_end_spec(s: Seq<char>) -> Seq<char>
    decreases s.len(),
{
    if s.len() > 0 && whitespace(s.last()) {
        trim_end_spec(s.drop_last())
    } else {
        s
    }
}

/// `s` without leading and trailing whitespace.
pub open spec fn trim_spec(s: Seq<char>) -> Seq<char> {
    trim_end_spec(trim_start_spec(s))
}

/// Split at the first `:`: the characters before it and after it, or `None`
/// when there is no colon.
pub open spec fn split_colon(s: Seq<char>) -> Option<(Seq<char>, Seq<char>)>
    decreases s.len(),
{
    if s.len() == 0 {
        Option::None
    } else if s[0] == ':' {
        Option::Some((Seq::empty(), s.drop_first()))
    } else {
        match split_colon(s.drop_first()) {
            Option::Some(kv) => Option::Some((seq![s[0]] + kv.0, kv.1)),
            Option::None => Option::None,
        }
    }
}

/// The lines of `s`: segments separated by `\n`, with no final empty
/// segment after a trailing `\n`.
pub open spec fn split_lines(s: Seq<char>) -> Seq<Seq<char>>
    decreases s.len(),
{
    if s.len() == 0 {
        Seq::empty()
    } else if s[0] == '\n' {
        seq![Seq::<char>::empty()] + split_lines(s.drop_first())
    } else {
        let rest = split_lines(s.drop_first());
        if rest.len() == 0 {
            seq![seq![s[0]]]
        } else {
            seq![seq![s[0]] + rest[0]] + rest.skip(1)
        }
    }
}

/// The numeric value of a digit string, most significant first.
pub open spec fn digits_val(s: Seq<char>) -> int
    decreases s.len(),
{
    if s.len() == 0 {
        0
    } else {
        digits_val(s.drop_last()) * 10 + (s.last() as int - 48)
    }
}

/// Whether every character is an ASCII decimal digit.
pub open spec fn all_digits(s: Seq<char>) -> bool {
    forall|i: int| 0 <= i < s.len() ==> '0' <= s[i] && s[i] <= '9'
}

/// What parsing `s` as a 32-bit signed integer yields, with failures mapped
/// to 0: an optional sign, then at least one digit and nothing else, within
/// the type's range.
pub open spec fn parse_i32_spec(s: Seq<char>) -> int {
    if s.len() == 0 {
        0
    } else {
        let neg = s[0] == '-';
        let body = if s[0] == '-' || s[0] == '+' {
            s.drop_first()
        } else {
            s
        };
        if body.len() == 0 || !all_digits(body) {
            0
        } else {
            let v = if neg {
                -digits_val(body)
            } else {
                digits_val(body)
            };
            if i32::MIN <= v <= i32::MAX {
                v
            } else {
                0
            }
        }
    }
}

/// Page count, title and author accumulated so far.
pub type InfoAcc = (int, Option<Seq<char>>, Option<Seq<char>>);

/// Fold one `Key: value` line into the accumulated metadata: `Pages`
/// replaces the page count by the parsed value, `Title` and `Author` are
/// recorded when their value is non-empty, everything else is ignored.
pub open spec fn apply_info_line(acc: InfoAcc, line: Seq<char>) -> InfoAcc {
    match split_colon(line) {
        Option::None => acc,
        Option::Some(kv) => {
            let key = trim_spec(kv.0);
            let val = trim_spec(kv.1);
            if key == "Pages"@ {
                (parse_i32_spec(val), acc.1, acc.2)
            } else if key == "Title"@ {
                if val.len() > 0 {
                    (acc.0, Option::Some(val), acc.2)
                } else {
                    acc
                }
            } else if key == "Author"@ {
                if val.len() > 0 {
                    (acc.0, acc.1, Option::Some(val))
                } else {
                    acc
                }
            } else {
                acc
            }
        },
    }
}

/// Fold a whole listing, line by line, starting from nothing.
pub open spec fn fold_info_lines(lines: Seq<Seq<char>>) -> InfoAcc
    decreases lines.len(),
{
    if lines.len() == 0 {
        (0int, Option::None, Option::None)
    } else {
        apply_info_line(fold_info_lines(lines.drop_last()), lines.last())
    }
}

/// The metadata a listing describes.
pub open spec fn pdf_info_spec(s: Seq<char>) -> InfoAcc {
    fold_info_lines(split_lines(s))
}

proof fn lemma_trim_start_scan(s: Seq<char>, k: int)
    requires
        0 <= k <= s.len(),
        forall|j: int| 0 <= j < k ==> whitespace(s[j]),
        k == s.len() || !whitespace(s[k]),
    ensures
        trim_start_spec(s) == s.subrange(k, s.len() as int),
    decreases k,
{
    if k == 0 {
        assert(s.subrange(0, s.len() as int) =~= s);
    } else {
        lemma_trim_start_scan(s.drop_first(), k - 1);
        assert(s.drop_first().subrange(k - 1, s.len() - 1) =~= s.subrange(k, s.len() as int));
    }
}

proof fn lemma_trim_end_scan(s: Seq<char>, k: int)
    requires
        0 <= k <= s.len(),
        forall|j: int| k <= j < s.len() ==> whitespace(s[j]),
        k == 0 || !whitespace(s[k - 1]),
    ensures
        trim_end_spec(s) == s.subrange(0, k),
    decreases s.len(),
{
    if k == s.len() {
        if s.len() == 0 {
            assert(s.subrange(0, 0) =~= s);
        } else {
            assert(s.subrange(0, s.len() as int) =~= s);
        }
    } else {
        lemma_trim_end_scan(s.drop_last(), k);
        assert(s.drop_last().subrange(0, k) =~= s.subrange(0, k));
    }
}

proof fn lemma_split_colon_at(s: Seq<char>, j: int)
    requires
        0 <= j < s.len(),
        s[j] == ':',
        forall|i: int| 0 <= i < j ==> s[i] != ':',
    ensures
        split_colon(s) == Option::Some((s.subrange(0, j), s.subrange(j + 1, s.len() as int))),
    decreases j,
{
    if j == 0 {
        assert(Seq::<char>::empty() =~= s.subrange(0, 0));
        assert(s.drop_first() =~= s.subrange(1, s.len() as int));
    } else {
        lemma_split_colon_at(s.drop_first(), j - 1);
        assert(seq![s[0]] + s.drop_first().subrange(0, j - 1) =~= s.subrange(0, j));
        assert(s.drop_first().subrange(j, s.len() - 1) =~= s.subrange(j + 1, s.len() as int));
    }
}

proof fn lemma_split_colon_none(s: Seq<char>)
    requires
        forall|i: int| 0 <= i < s.len() ==> s[i] != ':',
    ensures
        split_colon(s) is None,
    decreases s.len(),
{
    if s.len() > 0 {
        lemma_split_colon_none(s.drop_first());
    }
}

proof fn lemma_split_lines_len(s: Seq<char>)
    requires
        s.len() > 0,
    ensures
        split_lines(s).len() >= 1,
    decreases s.len(),
{
    if s[0] != '\n' && s.len() > 1 {
        lemma_split_lines_len(s.drop_first());
    }
}

proof fn lemma_split_lines_concat(a: Seq<char>, b: Seq<char>)
    requires
        a.len() > 0,
        a.last() == '\n',
    ensures
        split_lines(a + b) == split_lines(a) + split_lines(b),
    decreases a.len(),
{
    let ab = a + b;
    if a.len() == 1 {
        assert(ab.drop_first() =~= b);
        assert(split_lines(a) =~~= seq![Seq::<char>::empty()]);
        assert(split_lines(ab) =~~= split_lines(a) + split_lines(b));
    } else {
        assert(ab.drop_first() =~= a.drop_first() + b);
        lemma_split_lines_concat(a.drop_first(), b);
        if a[0] == '\n' {
            assert(split_lines(ab) =~~= split_lines(a) + split_lines(b));
        } else {
            lemma_split_lines_len(a.drop_first());
            let rest_a = split_lines(a.drop_first());
            let rest_ab = split_lines(ab.drop_first());
            assert(rest_ab == rest_a + split_lines(b));
            assert(rest_ab.len() >= 1);
            assert(rest_ab[0] == rest_a[0]);
            assert(rest_ab.skip(1) =~~= rest_a.skip(1) + split_lines(b));
            assert(split_lines(ab) =~~= split_lines(a) + split_lines(b));
        }
    }
}

proof fn lemma_split_lines_solo(s: Seq<char>)
    requires
        s.len() > 0,
        forall|i: int| 0 <= i < s.len() ==> s[i] != '\n',
    ensures
        split_lines(s) == seq![s],
    decreases s.len(),
{
    if s.len() == 1 {
        assert(s.drop_first().len() == 0);
        assert(split_lines(s.drop_first()) =~~= Seq::<Seq<char>>::empty());
        assert(seq![s[0]] =~= s);
        assert(split_lines(s) =~~= seq![s]);
    } else {
        lemma_split_lines_solo(s.drop_first());
        let rest = split_lines(s.drop_first());
        assert(rest.skip(1) =~~= Seq::<Seq<char>>::empty());
        assert(seq![s[0]] + rest[0] =~= s);
        assert(split_lines(s) =~~= seq![s]);
    }
}

proof fn lemma_split_lines_term(seg: Seq<char>)
    requires
        forall|i: int| 0 <= i < seg.len() ==> seg[i] != '\n',
    ensures
        split_lines(seg + seq!['\n']) == seq![seg],
    decreases seg.len(),
{
    let s = seg + seq!['\n'];
    if seg.len() == 0 {
        assert(s.drop_first() =~= Seq::<char>::empty());
        assert(split_lines(s.drop_first()) =~~= Seq::<Seq<char>>::empty());
        assert(split_lines(s) =~~= seq![seg]);
    } else {
        lemma_split_lines_term(seg.drop_first());
        assert(s.drop_first() =~= seg.drop_first() + seq!['\n']);
        let rest = split_lines(s.drop_first());
        assert(rest == seq![seg.drop_first()]);
        assert(rest.skip(1) =~~= Seq::<Seq<char>>::empty());
        assert(seq![s[0]] + rest[0] =~= seg);
        assert(split_lines(s) =~~= seq![seg]);
    }
}

proof fn lemma_digits_val_nonneg(s: Seq<char>)
    requires
        all_digits(s),
    ensures
        digits_val(s) >= 0,
    decreases s.len(),
{
    if s.len() > 0 {
        assert(all_digits(s.drop_last()));
        lemma_digits_val_nonneg(s.drop_last());
        let v = digits_val(s.drop_last());
        assert(v * 10 >= 0) by (nonlinear_arith)
            requires
                v >= 0,
        ;
    }
}


/// Whether the characters `v[lo..hi]` spell exactly the string `s`.
fn range_eq_str(v: &Vec<char>, lo: usize, hi: usize, s: &str) -> (r: bool)
    requires
        lo <= hi <= v@.len(),
    ensures
        r == (v@.subrange(lo as int, hi as int) == s@),
{
    let n = s.unicode_len();
    if hi - lo != n {
        return false;
    }
    let mut i: usize = 0;
    while i < n
        invariant
            n == s@.len(),
            lo + n == hi,
            hi <= v@.len(),
            i <= n,
            forall|k: int| 0 <= k < i ==> v@[lo + k] == s@[k],
        decreases n - i,
    {
        if v[lo + i] != s.get_char(i) {
            return false;
        }
        i = i + 1;
    }
    proof {
        assert(v@.subrange(lo as int, hi as int) =~= s@);
    }
    true
}

/// The bounds of `v[lo..hi]` with surrounding whitespace stripped.
fn trimmed_bounds(v: &Vec<char>, lo: usize, hi: usize) -> (r: (usize, usize))
    requires
        lo <= hi <= v@.len(),
    ensures
        lo <= r.0 <= r.1 <= hi,
        v@.subrange(r.0 as int, r.1 as int) == trim_spec(v@.subrange(lo as int, hi as int)),
{
    let mut a = lo;
    while a < hi && v[a].is_whitespace()
        invariant
            lo <= a <= hi,
            hi <= v@.len(),
            forall|k: int| lo <= k < a ==> whitespace(v@[k]),
        decreases hi - a,
    {
        a = a + 1;
    }
    let mut b = hi;
    while b > a && v[b - 1].is_whitespace()
        invariant
            a <= b <= hi,
            hi <= v@.len(),
            forall|k: int| b <= k < hi ==> whitespace(v@[k]),
        decreases b,
    {
        b = b - 1;
    }
    proof {
        let s = v@.subrange(lo as int, hi as int);
        lemma_trim_start_scan(s, a - lo);
        assert(s.subrange(a - lo, s.len() as int) =~= v@.subrange(a as int, hi as int));
        let s1 = v@.subrange(a as int, hi as int);
        lemma_trim_end_scan(s1, b - a);
        assert(s1.subrange(0, b - a) =~= v@.subrange(a as int, b as int));
    }
    (a, b)
}

/// Parse `v[lo..hi]` as a 32-bit integer, yielding 0 on any failure — a
/// missing digit, a stray character, or a value out of range.
fn parse_i32_range(v: &Vec<char>, lo: usize, hi: usize) -> (r: i32)
    requires
        lo <= hi <= v@.len(),
    ensures
        r as int == parse_i32_spec(v@.subrange(lo as int, hi as int)),
{
    let ghost s = v@.subrange(lo as int, hi as int);
    if lo == hi {
        return 0;
    }
    let first = v[lo];
    let neg = first == '-';
    let body_lo = if first == '-' || first == '+' {
        lo + 1
    } else {
        lo
    };
    let ghost body = v@.subrange(body_lo as int, hi as int);
    proof {
        if body_lo > lo {
            assert(s.drop_first() =~= body);
        } else {
            assert(s =~= body);
        }
    }
    if body_lo == hi {
        return 0;
    }
    let mut mag: u64 = 0;
    let mut k = body_lo;
    while k < hi
        invariant
            lo < hi <= v@.len(),
            body_lo <= k <= hi,
            body_lo == lo || body_lo == lo + 1,
            body_lo < hi,
            (body_lo == lo + 1) == (v@[lo as int] == '-' || v@[lo as int] == '+'),
            neg == (v@[lo as int] == '-'),
            body == v@.subrange(body_lo as int, hi as int),
            forall|j: int| body_lo <= j < k ==> '0' <= v@[j] && v@[j] <= '9',
            ({
                let val = digits_val(v@.subrange(body_lo as int, k as int));
                &&& (val <= 0x8000_0000 ==> mag == val)
                &&& (val > 0x8000_0000 ==> mag == 0x8000_0001u64)
            }),
        decreases hi - k,
    {
        let c = v[k];
        if !(c >= '0' && c <= '9') {
            proof {
                let s = v@.subrange(lo as int, hi as int);
                if body_lo > lo {
                    assert(s.drop_first() =~= body);
                } else {
                    assert(s =~= body);
                }
                assert(body[k - body_lo] == v@[k as int]);
                assert(!all_digits(body));
            }
            return 0;
        }
        let d = (c as u8 - 48) as u64;
        proof {
            let prefix = v@.subrange(body_lo as int, k as int);
            assert(all_digits(prefix));
            lemma_digits_val_nonneg(prefix);
            let val = digits_val(prefix);
            assert(v@.subrange(body_lo as int, k + 1 as int).drop_last() =~= prefix);
            if val > 0x8000_0000 {
                assert(val * 10 + (v@[k as int] as int - 48) > 0x8000_0000) by (nonlinear_arith)
                    requires
                        val > 0x8000_0000,
                        v@[k as int] as int - 48 >= 0,
                ;
            }
        }
        if mag > 0x8000_0000 {
            // already out of range; more digits keep it out of range
        } else {
            let m2 = mag * 10 + d;
            mag = if m2 > 0x8000_0000 {
                0x8000_0001
            } else {
                m2
            };
        }
        k = k + 1;
    }
    proof {
        assert(v@.subrange(body_lo as int, hi as int) =~= body);
        lemma_digits_val_nonneg(body);
    }
    if neg {
        if mag < 0x8000_0000 {
            -(mag as i32)
        } else if mag == 0x8000_0000 {
            i32::MIN
        } else {
            0
        }
    } else {
        if mag <= 0x7fff_ffff {
            mag as i32
        } else {
            0
        }
    }
}

/// Fold the line `v[lo..hi]` into the accumulated metadata, exactly as
/// `apply_info_line` describes.
fn apply_line_exec(
    output: &str,
    v: &Vec<char>,
    lo: usize,
    hi: usize,
    acc: (i32, Option<String>, Option<String>),
) -> (r: (i32, Option<String>, Option<String>))
    requires
        v@ == output@,
        lo <= hi <= v@.len(),
    ensures
        ({
            let a = apply_info_line(
                (acc.0 as int, acc.1.deep_view(), acc.2.deep_view()),
                v@.subrange(lo as int, hi as int),
            );
            &&& r.0 as int == a.0
            &&& r.1.deep_view() == a.1
            &&& r.2.deep_view() == a.2
        }),
{
    let ghost line = v@.subrange(lo as int, hi as int);
    // find the first colon
    let mut j = lo;
    while j < hi && v[j] != ':'
        invariant
            lo <= j <= hi,
            hi <= v@.len(),
            forall|k: int| lo <= k < j ==> v@[k] != ':',
        decreases hi - j,
    {
        j = j + 1;
    }
    if j == hi {
        proof {
            lemma_split_colon_none(line);
        }
        return acc;
    }
    proof {
        lemma_split_colon_at(line, j - lo);
        assert(line.subrange(0, j - lo) =~= v@.subrange(lo as int, j as int));
        assert(line.subrange(j - lo + 1, line.len() as int) =~= v@.subrange(j + 1 as int, hi as int));
    }
    let key = trimmed_bounds(v, lo, j);
    let val = trimmed_bounds(v, j + 1, hi);
    if range_eq_str(v, key.0, key.1, "Pages") {
        (parse_i32_range(v, val.0, val.1), acc.1, acc.2)
    } else if range_eq_str(v, key.0, key.1, "Title") {
        if val.0 < val.1 {
            let text = output.substring_char(val.0, val.1).to_owned();
            (acc.0, Some(text), acc.2)
        } else {
            acc
        }
    } else if range_eq_str(v, key.0, key.1, "Author") {
        if val.0 < val.1 {
            let text = output.substring_char(val.0, val.1).to_owned();
            (acc.0, acc.1, Some(text))
        } else {
            acc
        }
    } else {
        acc
    }
}

/// The metadata a document listing declares.
#[derive(Debug)]
pub struct PdfInfo {
    /// Number of pages; the value of the last `Pages` line.
    pub page_count: i32,
    /// The declared title, when a `Title` line has a non-empty value.
    pub title: Option<String>,
    /// The declared author, when an `Author` line has a non-empty value.
    pub author: Option<String>,
}

/// Failure of listing interpretation.
#[derive(Clone, Copy, PartialEq, Eq, Structural, Debug)]
pub enum PdfInfoError {
    /// No usable `Pages` line was found, so the page count is unknown.
    NoPageCount,
}

impl PdfInfoError {
    /// A human-readable description of the failure.
    pub fn message(&self) -> (r: String)
        ensures
            r@ == "Could not determine page count"@,
    {
        proof {
            reveal_strlit("Could not determine page count");
        }
        String::from_str("Could not determine page count")
    }
}

/// Interpret the captured output of the PDF inspection tool: `Key: value`
/// lines, of which `Pages`, `Title` and `Author` are read. Fails exactly
/// when the lines leave the page count at zero.
pub fn parse_pdf_info(output: &str) -> (r: Result<PdfInfo, PdfInfoError>)
    ensures
        ({
            let t = pdf_info_spec(output@);
            &&& t.0 != 0 ==> (r matches Ok(info) && info.page_count as int == t.0
                && info.title.deep_view() == t.1 && info.author.deep_view() == t.2)
            &&& t.0 == 0 ==> r == Err::<PdfInfo, PdfInfoError>(PdfInfoError::NoPageCount)
        }),
{
    let v = str_to_chars(output);
    let n = v.len();
    let mut acc: (i32, Option<String>, Option<String>) = (0, None, None);
    let mut line_start: usize = 0;
    let mut i: usize = 0;
    proof {
        assert(v@.subrange(0, 0) =~= Seq::<char>::empty());
    }
    while i < n
        invariant
            v@ == output@,
            n == v@.len(),
            line_start <= i <= n,
            forall|k: int| line_start <= k < i ==> v@[k] != '\n',
            ({
                let a = fold_info_lines(split_lines(v@.subrange(0, line_start as int)));
                &&& acc.0 as int == a.0
                &&& acc.1.deep_view() == a.1
                &&& acc.2.deep_view() == a.2
            }),
            line_start == 0 || v@[line_start - 1] == '\n',
        decreases n - i,
    {
        if v[i] == '\n' {
            let ghost pre = v@.subrange(0, line_start as int);
            let ghost seg = v@.subrange(line_start as int, i as int);
            acc = apply_line_exec(output, &v, line_start, i, acc);
            proof {
                lemma_split_lines_term(seg);
                let lines_new = split_lines(v@.subrange(0, i + 1 as int));
                if line_start > 0 {
                    assert(v@.subrange(0, i + 1 as int) =~= pre + (seg + seq!['\n']));
                    lemma_split_lines_concat(pre, seg + seq!['\n']);
                } else {
                    assert(v@.subrange(0, i + 1 as int) =~= seg + seq!['\n']);
                    assert(split_lines(pre) =~~= Seq::<Seq<char>>::empty());
                }
                assert(lines_new =~~= split_lines(pre).push(seg));
                assert(lines_new.drop_last() =~~= split_lines(pre));
            }
            line_start = i + 1;
        }
        i = i + 1;
    }
    if line_start < n {
        let ghost pre = v@.subrange(0, line_start as int);
        let ghost seg = v@.subrange(line_start as int, n as int);
        acc = apply_line_exec(output, &v, line_start, n, acc);
        proof {
            lemma_split_lines_solo(seg);
            if line_start > 0 {
                assert(v@ =~= pre + seg);
                lemma_split_lines_concat(pre, seg);
            } else {
                assert(v@ =~= seg);
                assert(split_lines(pre) =~~= Seq::<Seq<char>>::empty());
            }
            let lines_all = split_lines(v@);
            assert(lines_all =~~= split_lines(pre).push(seg));
            assert(lines_all.drop_last() =~~= split_lines(pre));
        }
    } else {
        proof {
            assert(v@.subrange(0, n as int) =~= v@);
        }
    }
    if acc.0 == 0 {
        Err(PdfInfoError::NoPageCount)
    } else {
        Ok(PdfInfo { page_count: acc.0, title: acc.1, author: acc.2 })
    }
}

} // verus!
