//! The result protocol of the script backend.
//!
//! The build-and-run command reports its verdict on a line that contains
//! the marker `rtkaller:` and reads `rtkaller: <key>=<value>`; the key
//! `result` with the value `success` or `crashed` classifies the run, and
//! anything else counts as a failure.
use crate::exec::{ExecResult, Feedback};
use vstd::prelude::*;
use vstd::std_specs::iter::IteratorSpec;

verus! {

/// The characters of `s`, in order.
pub fn chars_of(s: &str) -> (r: Vec<char>)
    ensures
        r@ == s@,
{
    let mut it = s.chars();
    let mut out: Vec<char> = Vec::new();
    proof {
        vstd::string::axiom_spec_iter(s);
    }
    loop
        invariant
            it.remaining() == s@.skip(out@.len() as int),
            out@ == s@.take(out@.len() as int),
            out@.len() <= s@.len(),
        decreases s@.len() - out@.len(),
    {
        let ghost prev = it;
        match it.next() {
            Some(c) => {
                proof {
                    vstd::string::next_postcondition(&prev, &it, Some(c));
                }
                assert(s@.skip(out@.len() as int).len() > 0);
                out.push(c);
                assert(out@ =~= s@.take(out@.len() as int));
                assert(it.remaining() =~= s@.skip(out@.len() as int));
            },
            None => {
                proof {
                    vstd::string::next_postcondition(&prev, &it, None);
                }
                assert(out@ =~= s@);
                return out;
            },
        }
    }
}

/// The characters that `char::is_whitespace` accepts: those with the
/// Unicode `White_Space` property.
pub open spec fn is_ws(c: char) -> bool {
    ('\u{9}' <= c <= '\u{d}') || c == ' ' || c == '\u{85}' || c == '\u{a0}' || c == '\u{1680}'
        || ('\u{2000}' <= c <= '\u{200a}') || c == '\u{2028}' || c == '\u{2029}' || c == '\u{202f}'
        || c == '\u{205f}' || c == '\u{3000}'
}

fn is_ws_char(c: char) -> (r: bool)
    ensures
        r == is_ws(c),
{
    ('\u{9}' <= c && c <= '\u{d}') || c == ' ' || c == '\u{85}' || c == '\u{a0}' || c == '\u{1680}'
        || ('\u{2000}' <= c && c <= '\u{200a}') || c == '\u{2028}' || c == '\u{2029}' || c
        == '\u{202f}' || c == '\u{205f}' || c == '\u{3000}'
}

pub open spec fn trim_start(s: Seq<char>) -> Seq<char>
    decreases s.len(),
{
    if s.len() > 0 && is_ws(s[0]) {
        trim_start(s.drop_first())
    } else {
        s
    }
}

pub open spec fn trim_end(s: Seq<char>) -> Seq<char>
    decreases s.len(),
{
    if s.len() > 0 && is_ws(s.last()) {
        trim_end(s.drop_last())
    } else {
        s
    }
}

/// `s` without its leading and trailing whitespace.
pub open spec fn trim(s: Seq<char>) -> Seq<char> {
    trim_end(trim_start(s))
}

/// The first position at or after `i` where `c` occurs, if any.
pub open spec fn find_char_from(s: Seq<char>, c: char, i: int) -> Option<int>
    decreases s.len() - i,
{
    if i < 0 || i >= s.len() {
        None
    } else if s[i] == c {
        Some(i)
    } else {
        find_char_from(s, c, i + 1)
    }
}

/// `pat` occurs in `s` at position `i`.
pub open spec fn occurs_at(s: Seq<char>, pat: Seq<char>, i: int) -> bool {
    0 <= i && i + pat.len() <= s.len() && s.subrange(i, i + pat.len()) == pat
}

/// The first position at or after `i` where `pat` occurs, if any.
pub open spec fn find_from(s: Seq<char>, pat: Seq<char>, i: int) -> Option<int>
    decreases s.len() + 1 - i,
{
    if i < 0 || i + pat.len() > s.len() {
        None
    } else if occurs_at(s, pat, i) {
        Some(i)
    } else {
        find_from(s, pat, i + 1)
    }
}

/// Where the line holding position `m` begins.
pub open spec fn line_start(s: Seq<char>, m: int) -> int
    decreases m,
{
    if m <= 0 || s[m - 1] == '\n' {
        m
    } else {
        line_start(s, m - 1)
    }
}

/// Where the line holding position `m` ends (its newline, or the end).
pub open spec fn line_end(s: Seq<char>, m: int) -> int
    decreases s.len() - m,
{
    if m >= s.len() || s[m] == '\n' {
        m
    } else {
        line_end(s, m + 1)
    }
}

/// The marker of a result line.
pub open spec fn marker() -> Seq<char> {
    seq!['r', 't', 'k', 'a', 'l', 'l', 'e', 'r', ':']
}

/// The first line of `out` that holds the marker, if any.
pub open spec fn marked_line(out: Seq<char>) -> Option<Seq<char>> {
    match find_from(out, marker(), 0) {
        Some(m) => Some(out.subrange(line_start(out, m), line_end(out, m))),
        None => None,
    }
}

/// The verdict of a result line: 0 for success, 2 for a crash, 1 for
/// anything else. The line is read as `<anything>:<key>=<value>`, split at
/// its first `:` and the first `=` after it, with whitespace trimmed.
pub open spec fn record_code(line: Seq<char>) -> u8 {
    let t = trim(line);
    match find_char_from(t, ':', 0) {
        None => 1,
        Some(i) => {
            let rest = t.subrange(i + 1, t.len() as int);
            match find_char_from(rest, '=', 0) {
                None => 1,
                Some(j) => {
                    let key = trim(rest.subrange(0, j));
                    let v = trim(rest.subrange(j + 1, rest.len() as int));
                    if key == seq!['r', 'e', 's', 'u', 'l', 't'] {
                        if v == seq!['s', 'u', 'c', 'c', 'e', 's', 's'] {
                            0
                        } else if v == seq!['c', 'r', 'a', 's', 'h', 'e', 'd'] {
                            2
                        } else {
                            1
                        }
                    } else {
                        1
                    }
                },
            }
        },
    }
}

/// The start of `v[lo..hi]` once leading whitespace is dropped.
fn skip_ws_front(v: &Vec<char>, lo: usize, hi: usize) -> (r: usize)
    requires
        lo <= hi <= v@.len(),
    ensures
        lo <= r <= hi,
        v@.subrange(r as int, hi as int) == trim_start(v@.subrange(lo as int, hi as int)),
{
    let mut i = lo;
    while i < hi && is_ws_char(v[i])
        invariant
            lo <= i <= hi <= v@.len(),
            trim_start(v@.subrange(i as int, hi as int)) == trim_start(v@.subrange(lo as int, hi as int)),
        decreases hi - i,
    {
        assert(v@.subrange(i as int, hi as int).drop_first() =~= v@.subrange(i + 1, hi as int));
        i = i + 1;
    }
    i
}

/// The end of `v[lo..hi]` once trailing whitespace is dropped.
fn skip_ws_back(v: &Vec<char>, lo: usize, hi: usize) -> (r: usize)
    requires
        lo <= hi <= v@.len(),
    ensures
        lo <= r <= hi,
        v@.subrange(lo as int, r as int) == trim_end(v@.subrange(lo as int, hi as int)),
{
    let mut j = hi;
    while j > lo && is_ws_char(v[j - 1])
        invariant
            lo <= j <= hi <= v@.len(),
            trim_end(v@.subrange(lo as int, j as int)) == trim_end(v@.subrange(lo as int, hi as int)),
        decreases j - lo,
    {
        assert(v@.subrange(lo as int, j as int).drop_last() =~= v@.subrange(lo as int, j - 1));
        j = j - 1;
    }
    j
}

proof fn lemma_trim_start_suffix(s: Seq<char>)
    ensures
        exists|k: int| 0 <= k <= s.len() && trim_start(s) == s.subrange(k, s.len() as int),
    decreases s.len(),
{
    if s.len() > 0 && is_ws(s[0]) {
        lemma_trim_start_suffix(s.drop_first());
        let k = choose|k: int|
            0 <= k <= s.drop_first().len() && trim_start(s.drop_first()) == s.drop_first().subrange(
                k,
                s.drop_first().len() as int,
            );
        assert(s.drop_first().subrange(k, s.drop_first().len() as int) =~= s.subrange(k + 1, s.len() as int));
    } else {
        assert(s.subrange(0, s.len() as int) =~= s);
    }
}

/// `v[lo..hi]` trimmed, as a range.
fn trim_range(v: &Vec<char>, lo: usize, hi: usize) -> (r: (usize, usize))
    requires
        lo <= hi <= v@.len(),
    ensures
        lo <= r.0 <= r.1 <= hi,
        v@.subrange(r.0 as int, r.1 as int) == trim(v@.subrange(lo as int, hi as int)),
{
    let a = skip_ws_front(v, lo, hi);
    let b = skip_ws_back(v, a, hi);
    (a, b)
}

/// The first position of `c` in `v[lo..hi]`, relative to `lo`.
fn find_char(v: &Vec<char>, lo: usize, hi: usize, c: char) -> (r: Option<usize>)
    requires
        lo <= hi <= v@.len(),
    ensures
        r matches Some(k) ==> lo + k < hi && find_char_from(v@.subrange(lo as int, hi as int), c, 0)
            == Some(k as int),
        r is None ==> find_char_from(v@.subrange(lo as int, hi as int), c, 0) is None,
{
    let ghost s = v@.subrange(lo as int, hi as int);
    let mut i = lo;
    while i < hi
        invariant
            lo <= i <= hi <= v@.len(),
            s == v@.subrange(lo as int, hi as int),
            find_char_from(s, c, 0) == find_char_from(s, c, i - lo),
        decreases hi - i,
    {
        if v[i] == c {
            return Some(i - lo);
        }
        i = i + 1;
    }
    None
}

/// `v[lo..hi]` equals `lit`.
fn range_is(v: &Vec<char>, lo: usize, hi: usize, lit: &Vec<char>) -> (r: bool)
    requires
        lo <= hi <= v@.len(),
    ensures
        r == (v@.subrange(lo as int, hi as int) == lit@),
{
    if hi - lo != lit.len() {
        return false;
    }
    let mut k: usize = 0;
    while k < lit.len()
        invariant
            hi - lo == lit@.len(),
            lo <= hi <= v@.len(),
            k <= lit@.len(),
            forall|m: int| 0 <= m < k ==> v@[lo + m] == lit@[m],
        decreases lit@.len() - k,
    {
        if v[lo + k] != lit[k] {
            assert(v@.subrange(lo as int, hi as int)[k as int] != lit@[k as int]);
            return false;
        }
        k = k + 1;
    }
    assert(v@.subrange(lo as int, hi as int) =~= lit@);
    true
}

/// The verdict of the line `v[lo..hi]`.
fn parse_range(v: &Vec<char>, lo: usize, hi: usize) -> (r: u8)
    requires
        lo <= hi <= v@.len(),
    ensures
        r == record_code(v@.subrange(lo as int, hi as int)),
{
    let (a, b) = trim_range(v, lo, hi);
    let ghost t = v@.subrange(a as int, b as int);
    match find_char(v, a, b, ':') {
        None => 1,
        Some(i) => {
            let c = a + i + 1;
            assert(v@.subrange(c as int, b as int) =~= t.subrange(i + 1, t.len() as int));
            match find_char(v, c, b, '=') {
                None => 1,
                Some(j) => {
                    let e = c + j;
                    let ghost rest = t.subrange(i + 1, t.len() as int);
                    assert(v@.subrange(c as int, e as int) =~= rest.subrange(0, j as int));
                    assert(v@.subrange(e + 1, b as int) =~= rest.subrange(j + 1, rest.len() as int));
                    let (ka, kb) = trim_range(v, c, e);
                    let (va, vb) = trim_range(v, e + 1, b);
                    let result_key = chars_of("result");
                    let success = chars_of("success");
                    let crashed = chars_of("crashed");
                    proof {
                        reveal_strlit("result");
                        reveal_strlit("success");
                        reveal_strlit("crashed");
                        assert(result_key@ =~= seq!['r', 'e', 's', 'u', 'l', 't']);
                        assert(success@ =~= seq!['s', 'u', 'c', 'c', 'e', 's', 's']);
                        assert(crashed@ =~= seq!['c', 'r', 'a', 's', 'h', 'e', 'd']);
                    }
                    if range_is(v, ka, kb, &result_key) {
                        if range_is(v, va, vb, &success) {
                            0
                        } else if range_is(v, va, vb, &crashed) {
                            2
                        } else {
                            1
                        }
                    } else {
                        1
                    }
                },
            }
        },
    }
}

/// The verdict of the result line `record`: 0 for success, 2 for a crash,
/// 1 for anything else.
pub fn parse_record(record: &str) -> (r: u8)
    ensures
        r == record_code(record@),
{
    let v = chars_of(record);
    assert(v@.subrange(0, v@.len() as int) =~= record@);
    parse_range(&v, 0, v.len())
}

/// The first position of `pat` in `v` at or after `from`.
pub(crate) fn find_pattern(v: &Vec<char>, pat: &Vec<char>) -> (r: Option<usize>)
    ensures
        r matches Some(k) ==> find_from(v@, pat@, 0) == Some(k as int) && k + pat@.len() <= v@.len(),
        r is None ==> find_from(v@, pat@, 0) is None,
{
    let n = v.len();
    let m = pat.len();
    if m > n {
        return None;
    }
    let mut i: usize = 0;
    while i <= n - m
        invariant
            n == v@.len(),
            m == pat@.len(),
            m <= n,
            i <= n - m + 1,
            find_from(v@, pat@, 0) == find_from(v@, pat@, i as int),
        decreases n - i,
    {
        let mut k: usize = 0;
        let mut same = true;
        while k < m
            invariant
                n == v@.len(),
                m == pat@.len(),
                i + m <= n,
                k <= m,
                same == forall|q: int| 0 <= q < k ==> v@[i + q] == pat@[q],
            decreases m - k,
        {
            if v[i + k] != pat[k] {
                same = false;
            }
            k = k + 1;
        }
        if same {
            assert(v@.subrange(i as int, i + m) =~= pat@);
            return Some(i);
        }
        proof {
            if v@.subrange(i as int, i + m) == pat@ {
                let q = choose|q: int| 0 <= q < m && v@[i + q] != pat@[q];
                assert(v@.subrange(i as int, i + m)[q] == v@[i + q]);
            }
        }
        i = i + 1;
    }
    None
}

/// The classification of a run from the full output of the build-and-run
/// command, or `None` when no line holds the marker.
pub fn extract_result(info: String) -> (r: Option<ExecResult>)
    ensures
        match marked_line(info@) {
            None => r is None,
            Some(line) => {
                let code = record_code(line);
                if code == 0 {
                    r == Some(ExecResult::Success(Feedback))
                } else if code == 2 {
                    r == Some(ExecResult::Crashed(info))
                } else {
                    r == Some(ExecResult::Failed(info))
                }
            },
        },
{
    let v = chars_of(info.as_str());
    let pat = chars_of("rtkaller:");
    proof {
        reveal_strlit("rtkaller:");
        assert(pat@ =~= marker());
    }
    match find_pattern(&v, &pat) {
        None => None,
        Some(m) => {
            let mut a = m;
            while a > 0 && v[a - 1] != '\n'
                invariant
                    a <= m < v@.len(),
                    line_start(v@, a as int) == line_start(v@, m as int),
                decreases a,
            {
                a = a - 1;
            }
            let mut b = m;
            while b < v.len() && v[b] != '\n'
                invariant
                    a <= m <= b <= v@.len(),
                    line_end(v@, b as int) == line_end(v@, m as int),
                decreases v@.len() - b,
            {
                b = b + 1;
            }
            let code = parse_range(&v, a, b);
            if code == 0 {
                Some(ExecResult::Success(Feedback))
            } else if code == 2 {
                Some(ExecResult::Crashed(info))
            } else {
                Some(ExecResult::Failed(info))
            }
        },
    }
}

} // verus!
