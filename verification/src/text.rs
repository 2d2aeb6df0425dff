//! Verified text utilities: string equality, substring search, scanning for
//! separators, splitting, whitespace tokenization, and decimal rendering of
//! lengths. All contracts are stated over `Seq<char>` views.

use vstd::prelude::*;
use vstd::string::*;

verus! {

/// The views of a sequence of strings, as a sequence of character sequences.
pub open spec fn views(v: Seq<String>) -> Seq<Seq<char>> {
    Seq::new(v.len(), |i: int| v[i]@)
}

/// Character-for-character string equality.
pub fn str_eq(a: &str, b: &str) -> (r: bool)
    ensures
        r == (a@ == b@),
{
    let alen = a.unicode_len();
    let blen = b.unicode_len();
    if alen != blen {
        return false;
    }
    let mut i: usize = 0;
    while i < alen
        invariant
            alen == a@.len(),
            blen == b@.len(),
            alen == blen,
            i <= alen,
            forall|j: int| 0 <= j < i ==> a@[j] == b@[j],
        decreases alen - i,
    {
        if a.get_char(i) != b.get_char(i) {
            return false;
        }
        i += 1;
    }
    proof {
        assert(a@ =~= b@);
    }
    true
}

/// The whitespace characters recognized when a request line is tokenized:
/// space, horizontal tab, carriage return and line feed.
pub open spec fn is_wsp(c: char) -> bool {
    c == ' ' || c == '\t' || c == '\r' || c == '\n'
}

/// Whether `c` is one of the whitespace characters of `is_wsp`.
pub fn is_wsp_exec(c: char) -> (r: bool)
    ensures
        r == is_wsp(c),
{
    c == ' ' || c == '\t' || c == '\r' || c == '\n'
}

/// The first index at or after `i` that holds `c`, or `s.len()` if none does.
pub open spec fn char_from(s: Seq<char>, c: char, i: int) -> int
    decreases s.len() - i,
{
    if !(0 <= i < s.len()) {
        s.len() as int
    } else if s[i] == c {
        i
    } else {
        char_from(s, c, i + 1)
    }
}

pub proof fn lemma_char_from_bounds(s: Seq<char>, c: char, i: int)
    requires
        0 <= i <= s.len(),
    ensures
        i <= char_from(s, c, i) <= s.len(),
    decreases s.len() - i,
{
    if i < s.len() && s[i] != c {
        lemma_char_from_bounds(s, c, i + 1);
    }
}

/// The first index at or after `i` that starts a CRLF pair, or `s.len()` if
/// none does.
pub open spec fn crlf_from(s: Seq<char>, i: int) -> int
    decreases s.len() - i,
{
    if !(0 <= i && i + 2 <= s.len()) {
        s.len() as int
    } else if s[i] == '\r' && s[i + 1] == '\n' {
        i
    } else {
        crlf_from(s, i + 1)
    }
}

pub proof fn lemma_crlf_from_bounds(s: Seq<char>, i: int)
    requires
        0 <= i <= s.len(),
    ensures
        i <= crlf_from(s, i) <= s.len(),
        crlf_from(s, i) < s.len() ==> crlf_from(s, i) + 2 <= s.len(),
    decreases s.len() - i,
{
    if i + 2 <= s.len() && !(s[i] == '\r' && s[i + 1] == '\n') {
        lemma_crlf_from_bounds(s, i + 1);
    }
}

/// The first index at or after `i` whose character is whitespace (when
/// `want_wsp`) or non-whitespace (otherwise), or `s.len()` if none is.
pub open spec fn scan_wsp(s: Seq<char>, i: int, want_wsp: bool) -> int
    decreases s.len() - i,
{
    if !(0 <= i < s.len()) {
        s.len() as int
    } else if is_wsp(s[i]) == want_wsp {
        i
    } else {
        scan_wsp(s, i + 1, want_wsp)
    }
}

/// Finds the first occurrence of `c` at or after `from`.
pub fn find_char_from(s: &str, c: char, from: usize) -> (j: usize)
    requires
        from <= s@.len(),
    ensures
        j == char_from(s@, c, from as int),
        from <= j <= s@.len(),
{
    let n = s.unicode_len();
    let mut i: usize = from;
    while i < n
        invariant
            n == s@.len(),
            from <= i <= n,
            char_from(s@, c, from as int) == char_from(s@, c, i as int),
        decreases n - i,
    {
        if s.get_char(i) == c {
            proof {
                assert(char_from(s@, c, i as int) == i);
            }
            return i;
        }
        proof {
            assert(char_from(s@, c, i as int) == char_from(s@, c, i + 1));
        }
        i += 1;
    }
    proof {
        assert(char_from(s@, c, i as int) == n);
    }
    n
}

/// Finds the first CRLF pair at or after `from`.
pub fn find_crlf_from(s: &str, from: usize) -> (j: usize)
    requires
        from <= s@.len(),
    ensures
        j == crlf_from(s@, from as int),
        from <= j <= s@.len(),
        j < s@.len() ==> j + 2 <= s@.len(),
{
    let n = s.unicode_len();
    let mut i: usize = from;
    while i < n && n - i >= 2
        invariant
            n == s@.len(),
            from <= i <= n,
            crlf_from(s@, from as int) == crlf_from(s@, i as int),
        decreases n - i,
    {
        if s.get_char(i) == '\r' && s.get_char(i + 1) == '\n' {
            proof {
                assert(crlf_from(s@, i as int) == i);
            }
            return i;
        }
        proof {
            assert(crlf_from(s@, i as int) == crlf_from(s@, i + 1));
        }
        i += 1;
    }
    proof {
        assert(crlf_from(s@, i as int) == n);
    }
    n
}

/// Finds the first whitespace (or non-whitespace) character at or after
/// `from`.
pub fn find_wsp_from(s: &str, from: usize, want_wsp: bool) -> (j: usize)
    requires
        from <= s@.len(),
    ensures
        j == scan_wsp(s@, from as int, want_wsp),
        from <= j <= s@.len(),
{
    let n = s.unicode_len();
    let mut i: usize = from;
    while i < n
        invariant
            n == s@.len(),
            from <= i <= n,
            scan_wsp(s@, from as int, want_wsp) == scan_wsp(s@, i as int, want_wsp),
        decreases n - i,
    {
        if is_wsp_exec(s.get_char(i)) == want_wsp {
            proof {
                assert(scan_wsp(s@, i as int, want_wsp) == i);
            }
            return i;
        }
        proof {
            assert(scan_wsp(s@, i as int, want_wsp) == scan_wsp(s@, i + 1, want_wsp));
        }
        i += 1;
    }
    proof {
        assert(scan_wsp(s@, i as int, want_wsp) == n);
    }
    n
}

/// The pieces of `s` from position `i` on, split at every occurrence of `c`.
/// Splitting keeps empty pieces, so the result always has one piece more than
/// there are separators.
pub open spec fn split_char_from(s: Seq<char>, c: char, i: int) -> Seq<Seq<char>>
    decreases s.len() - i,
    via split_char_from_dec
{
    let j = char_from(s, c, i);
    if j < s.len() {
        seq![s.subrange(i, j)] + split_char_from(s, c, j + 1)
    } else {
        seq![s.subrange(i, s.len() as int)]
    }
}

#[via_fn]
proof fn split_char_from_dec(s: Seq<char>, c: char, i: int) {
    if 0 <= i <= s.len() {
        lemma_char_from_bounds(s, c, i);
    }
}

/// The pieces of `s`, split at every occurrence of `c`.
pub open spec fn split_char(s: Seq<char>, c: char) -> Seq<Seq<char>> {
    split_char_from(s, c, 0)
}

/// Splits `s` at every occurrence of `c`, keeping empty pieces.
pub fn split_char_exec(s: &str, c: char) -> (r: Vec<String>)
    ensures
        views(r@) == split_char(s@, c),
{
    let n = s.unicode_len();
    let mut out: Vec<String> = Vec::new();
    let mut i: usize = 0;
    proof {
        assert(views(out@) + split_char_from(s@, c, 0) =~= split_char_from(s@, c, 0));
    }
    loop
        invariant
            n == s@.len(),
            i <= n,
            split_char(s@, c) == views(out@) + split_char_from(s@, c, i as int),
        decreases n - i,
    {
        let ghost prev = out@;
        let j = find_char_from(s, c, i);
        if j < n {
            out.push(s.substring_char(i, j).to_owned());
            proof {
                assert(views(out@) =~= views(prev) + seq![s@.subrange(i as int, j as int)]);
                assert((views(prev) + seq![s@.subrange(i as int, j as int)])
                    + split_char_from(s@, c, j + 1) =~= views(prev) + (seq![
                    s@.subrange(i as int, j as int),
                ] + split_char_from(s@, c, j + 1)));
            }
            i = j + 1;
        } else {
            out.push(s.substring_char(i, n).to_owned());
            proof {
                assert(views(out@) =~= views(prev) + seq![s@.subrange(i as int, n as int)]);
            }
            return out;
        }
    }
}

/// The pieces of `s` from position `i` on, split at every CRLF pair.
pub open spec fn split_crlf_from(s: Seq<char>, i: int) -> Seq<Seq<char>>
    decreases s.len() - i,
    via split_crlf_from_dec
{
    let j = crlf_from(s, i);
    if j < s.len() {
        seq![s.subrange(i, j)] + split_crlf_from(s, j + 2)
    } else {
        seq![s.subrange(i, s.len() as int)]
    }
}

#[via_fn]
proof fn split_crlf_from_dec(s: Seq<char>, i: int) {
    if 0 <= i <= s.len() {
        lemma_crlf_from_bounds(s, i);
    }
}

/// The lines of `s`: the pieces that splitting at every CRLF leaves.
pub open spec fn split_crlf(s: Seq<char>) -> Seq<Seq<char>> {
    split_crlf_from(s, 0)
}

/// Splits `s` at every CRLF pair, keeping empty pieces.
pub fn split_crlf_exec(s: &str) -> (r: Vec<String>)
    ensures
        views(r@) == split_crlf(s@),
{
    let n = s.unicode_len();
    let mut out: Vec<String> = Vec::new();
    let mut i: usize = 0;
    proof {
        assert(views(out@) + split_crlf_from(s@, 0) =~= split_crlf_from(s@, 0));
    }
    loop
        invariant
            n == s@.len(),
            i <= n,
            split_crlf(s@) == views(out@) + split_crlf_from(s@, i as int),
        decreases n - i,
    {
        let ghost prev = out@;
        let j = find_crlf_from(s, i);
        if j < n {
            out.push(s.substring_char(i, j).to_owned());
            proof {
                assert(views(out@) =~= views(prev) + seq![s@.subrange(i as int, j as int)]);
                assert((views(prev) + seq![s@.subrange(i as int, j as int)])
                    + split_crlf_from(s@, j + 2) =~= views(prev) + (seq![
                    s@.subrange(i as int, j as int),
                ] + split_crlf_from(s@, j + 2)));
            }
            i = j + 2;
        } else {
            out.push(s.substring_char(i, n).to_owned());
            proof {
                assert(views(out@) =~= views(prev) + seq![s@.subrange(i as int, n as int)]);
            }
            return out;
        }
    }
}

/// Where the first whitespace-separated token of `s` begins; `s.len()` if `s`
/// holds only whitespace.
pub open spec fn token_start(s: Seq<char>) -> int {
    scan_wsp(s, 0, false)
}

/// Where the first whitespace-separated token of `s` ends.
pub open spec fn token_end(s: Seq<char>) -> int {
    scan_wsp(s, token_start(s), true)
}

/// The first whitespace-separated token of `s`; empty if there is none.
pub open spec fn first_token(s: Seq<char>) -> Seq<char> {
    s.subrange(token_start(s), token_end(s))
}

/// What remains of `s` after its first whitespace-separated token.
pub open spec fn after_token(s: Seq<char>) -> Seq<char> {
    s.subrange(token_end(s), s.len() as int)
}

/// Whether `s` holds at least one whitespace-separated token.
pub open spec fn has_token(s: Seq<char>) -> bool {
    token_start(s) < s.len()
}

/// Takes the first whitespace-separated token off `s`, returning the token,
/// what follows it, and whether a token was there at all.
pub fn next_token(s: &str) -> (r: (String, String, bool))
    ensures
        r.0@ == first_token(s@),
        r.1@ == after_token(s@),
        r.2 == has_token(s@),
{
    let n = s.unicode_len();
    let a = find_wsp_from(s, 0, false);
    let b = find_wsp_from(s, a, true);
    let tok = s.substring_char(a, b).to_owned();
    let rest = s.substring_char(b, n).to_owned();
    (tok, rest, a < n)
}

/// Whether `p` occurs in `s` starting at position `i`.
pub open spec fn matches_at(s: Seq<char>, p: Seq<char>, i: int) -> bool {
    0 <= i && i + p.len() <= s.len() && s.subrange(i, i + p.len() as int) == p
}

/// The first position at or after `i` where `p` occurs in `s`, or `s.len()`
/// if it occurs nowhere there.
pub open spec fn sub_from(s: Seq<char>, p: Seq<char>, i: int) -> int
    decreases s.len() - i,
{
    if !(0 <= i && i < s.len() && i + p.len() <= s.len()) {
        s.len() as int
    } else if matches_at(s, p, i) {
        i
    } else {
        sub_from(s, p, i + 1)
    }
}

/// Whether `p` occurs anywhere in `s`.
pub open spec fn contains_sub(s: Seq<char>, p: Seq<char>) -> bool {
    sub_from(s, p, 0) < s.len()
}

/// Whether `s` holds the character `c` anywhere.
pub open spec fn contains_char(s: Seq<char>, c: char) -> bool {
    char_from(s, c, 0) < s.len()
}

/// Whether the nonempty pattern `p` occurs anywhere in `s`.
pub fn contains_sub_exec(s: &str, p: &str) -> (r: bool)
    requires
        p@.len() >= 1,
    ensures
        r == contains_sub(s@, p@),
{
    let n = s.unicode_len();
    let m = p.unicode_len();
    let mut i: usize = 0;
    while i < n && n - i >= m
        invariant
            n == s@.len(),
            m == p@.len(),
            m >= 1,
            i <= n,
            sub_from(s@, p@, 0) == sub_from(s@, p@, i as int),
        decreases n - i,
    {
        if str_eq(s.substring_char(i, i + m), p) {
            proof {
                assert(matches_at(s@, p@, i as int));
                assert(sub_from(s@, p@, i as int) == i);
            }
            return true;
        }
        proof {
            assert(!matches_at(s@, p@, i as int));
            assert(sub_from(s@, p@, i as int) == sub_from(s@, p@, i + 1));
        }
        i += 1;
    }
    proof {
        assert(sub_from(s@, p@, i as int) == n);
    }
    false
}

/// Whether `s` ends with the suffix `p`.
pub open spec fn ends_with(s: Seq<char>, p: Seq<char>) -> bool {
    p.len() <= s.len() && s.subrange(s.len() - p.len(), s.len() as int) == p
}

/// Whether `s` ends with the suffix `p`.
pub fn ends_with_exec(s: &str, p: &str) -> (r: bool)
    ensures
        r == ends_with(s@, p@),
{
    let n = s.unicode_len();
    let m = p.unicode_len();
    if m > n {
        return false;
    }
    str_eq(s.substring_char(n - m, n), p)
}

/// The decimal digit character for `n` (a single digit).
pub open spec fn dec_digit(n: nat) -> char {
    if n == 0 {
        '0'
    } else if n == 1 {
        '1'
    } else if n == 2 {
        '2'
    } else if n == 3 {
        '3'
    } else if n == 4 {
        '4'
    } else if n == 5 {
        '5'
    } else if n == 6 {
        '6'
    } else if n == 7 {
        '7'
    } else if n == 8 {
        '8'
    } else {
        '9'
    }
}

/// The decimal representation of `n`, most significant digit first, with no
/// leading zeros (`0` itself is the single digit `0`).
pub open spec fn dec_rep(n: nat) -> Seq<char>
    decreases n,
{
    if n < 10 {
        seq![dec_digit(n)]
    } else {
        dec_rep(n / 10) + seq![dec_digit(n % 10)]
    }
}

/// The single decimal digit `d` as a string.
pub fn digit_str(d: usize) -> (r: &'static str)
    requires
        d < 10,
    ensures
        r@ == seq![dec_digit(d as nat)],
{
    proof {
        reveal_strlit("0");
        reveal_strlit("1");
        reveal_strlit("2");
        reveal_strlit("3");
        reveal_strlit("4");
        reveal_strlit("5");
        reveal_strlit("6");
        reveal_strlit("7");
        reveal_strlit("8");
        reveal_strlit("9");
    }
    let r = if d == 0 {
        "0"
    } else if d == 1 {
        "1"
    } else if d == 2 {
        "2"
    } else if d == 3 {
        "3"
    } else if d == 4 {
        "4"
    } else if d == 5 {
        "5"
    } else if d == 6 {
        "6"
    } else if d == 7 {
        "7"
    } else if d == 8 {
        "8"
    } else {
        "9"
    };
    proof {
        assert(r@ =~= seq![dec_digit(d as nat)]);
    }
    r
}

/// Renders `n` in decimal.
pub fn dec_str(n: usize) -> (r: String)
    ensures
        r@ == dec_rep(n as nat),
    decreases n,
{
    if n < 10 {
        digit_str(n).to_owned()
    } else {
        let mut r = dec_str(n / 10);
        r.append(digit_str(n % 10));
        r
    }
}

} // verus!
