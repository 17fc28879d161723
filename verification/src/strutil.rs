//! Verified string utilities: trimming, searching, whitespace normalisation
//! and decimal parsing, each specified over `Seq<char>` views.
//!
//! Trimming and word splitting treat the ASCII whitespace characters as
//! blank; that is the alphabet the scraped pages use.

use vstd::prelude::*;

verus! {

/// Whitespace, as far as trimming and word splitting are concerned.
pub open spec fn is_ws(c: char) -> bool {
    c == ' ' || c == '\t' || c == '\n' || c == '\r' || c == '\u{b}' || c == '\u{c}'
}

/// Decimal digit.
pub open spec fn is_digit(c: char) -> bool {
    '0' <= c && c <= '9'
}

/// Numeric value of a decimal digit.
pub open spec fn digit_val(c: char) -> nat {
    (c as nat - '0' as nat) as nat
}

/// Executable whitespace test, usable as its own spec.
#[verifier::when_used_as_spec(is_ws)]
pub fn is_ws_exec(c: char) -> (r: bool)
    ensures
        r == is_ws(c),
{
    c == ' ' || c == '\t' || c == '\n' || c == '\r' || c == '\u{b}' || c == '\u{c}'
}

/// Executable digit test, usable as its own spec.
#[verifier::when_used_as_spec(is_digit)]
pub fn is_digit_exec(c: char) -> (r: bool)
    ensures
        r == is_digit(c),
{
    '0' <= c && c <= '9'
}

/// `s` with leading whitespace removed.
pub open spec fn spec_trim_start(s: Seq<char>) -> Seq<char>
    decreases s.len(),
{
    if s.len() == 0 {
        s
    } else if is_ws(s[0]) {
        spec_trim_start(s.drop_first())
    } else {
        s
    }
}

/// `s` with trailing whitespace removed.
pub open spec fn spec_trim_end(s: Seq<char>) -> Seq<char>
    decreases s.len(),
{
    if s.len() == 0 {
        s
    } else if is_ws(s[s.len() - 1]) {
        spec_trim_end(s.drop_last())
    } else {
        s
    }
}

/// `s` with whitespace removed from both ends.
pub open spec fn spec_trim(s: Seq<char>) -> Seq<char> {
    spec_trim_end(spec_trim_start(s))
}

proof fn lemma_trim_start_at(s: Seq<char>, i: int)
    requires
        0 <= i <= s.len(),
        forall|k: int| 0 <= k < i ==> is_ws(s[k]),
        i == s.len() || !is_ws(s[i]),
    ensures
        spec_trim_start(s) == s.subrange(i, s.len() as int),
    decreases i,
{
    if i == 0 {
        assert(s.subrange(0, s.len() as int) =~= s);
        if s.len() > 0 && is_ws(s[0]) {
        } else {
        }
    } else {
        assert(is_ws(s[0]));
        let t = s.drop_first();
        assert(forall|k: int| 0 <= k < i - 1 ==> is_ws(t[k]));
        lemma_trim_start_at(t, i - 1);
        assert(t.subrange(i - 1, t.len() as int) =~= s.subrange(i, s.len() as int));
    }
}

proof fn lemma_trim_end_at(s: Seq<char>, j: int)
    requires
        0 <= j <= s.len(),
        forall|k: int| j <= k < s.len() ==> is_ws(s[k]),
        j == 0 || !is_ws(s[j - 1]),
    ensures
        spec_trim_end(s) == s.subrange(0, j),
    decreases s.len() - j,
{
    if j == s.len() {
        assert(s.subrange(0, s.len() as int) =~= s);
    } else {
        assert(is_ws(s[s.len() - 1]));
        let t = s.drop_last();
        lemma_trim_end_at(t, j);
        assert(t.subrange(0, j) =~= s.subrange(0, j));
    }
}

/// Trims whitespace from both ends of `s`.
pub fn trim<'a>(s: &'a str) -> (r: &'a str)
    ensures
        r@ == spec_trim(s@),
{
    let len = s.unicode_len();
    let mut i: usize = 0;
    while i < len && is_ws_exec(s.get_char(i))
        invariant
            0 <= i <= len,
            len == s@.len(),
            forall|k: int| 0 <= k < i ==> is_ws(s@[k]),
        decreases len - i,
    {
        i = i + 1;
    }
    let mut j: usize = len;
    while j > i && is_ws_exec(s.get_char(j - 1))
        invariant
            i <= j <= len,
            len == s@.len(),
            forall|k: int| 0 <= k < i ==> is_ws(s@[k]),
            forall|k: int| j <= k < len ==> is_ws(s@[k]),
        decreases j,
    {
        j = j - 1;
    }
    proof {
        lemma_trim_start_at(s@, i as int);
        let t = s@.subrange(i as int, s@.len() as int);
        if j == i {
            lemma_trim_end_at(t, 0);
        } else {
            lemma_trim_end_at(t, j - i);
        }
        assert(t.subrange(0, j - i) =~= s@.subrange(i as int, j as int));
    }
    s.substring_char(i, j)
}

/// Character-wise string equality, decided without trusting any outside
/// comparison.
pub fn str_eq(a: &str, b: &str) -> (r: bool)
    ensures
        r == (a@ == b@),
{
    let alen = a.unicode_len();
    let blen = b.unicode_len();
    if alen != blen {
        assert(a@ != b@);
        return false;
    }
    let mut i: usize = 0;
    while i < alen
        invariant
            0 <= i <= alen,
            alen == a@.len() && alen == b@.len(),
            forall|k: int| 0 <= k < i ==> a@[k] == b@[k],
        decreases alen - i,
    {
        if a.get_char(i) != b.get_char(i) {
            assert(a@ != b@);
            return false;
        }
        i = i + 1;
    }
    proof {
        assert(a@ =~= b@);
    }
    true
}

/// The needle `n` occurs in `h` at position `i`.
pub open spec fn matches_at(h: Seq<char>, n: Seq<char>, i: int) -> bool {
    0 <= i && i + n.len() <= h.len() && h.subrange(i, i + n.len()) == n
}

/// `h` contains `n` somewhere.
pub open spec fn spec_contains(h: Seq<char>, n: Seq<char>) -> bool {
    exists|i: int| matches_at(h, n, i)
}

/// `h` starts with `n`.
pub open spec fn spec_starts_with(h: Seq<char>, n: Seq<char>) -> bool {
    matches_at(h, n, 0)
}

/// `h` ends with `n`.
pub open spec fn spec_ends_with(h: Seq<char>, n: Seq<char>) -> bool {
    matches_at(h, n, h.len() - n.len())
}

/// Decides whether `n` occurs in `h` at position `i`.
pub fn match_at(h: &str, n: &str, i: usize) -> (r: bool)
    requires
        i + n@.len() <= h@.len(),
    ensures
        r == matches_at(h@, n@, i as int),
{
    let hlen = h.unicode_len();
    let nlen = n.unicode_len();
    let mut j: usize = 0;
    while j < nlen
        invariant
            0 <= j <= nlen,
            nlen == n@.len(),
            hlen == h@.len(),
            i + nlen <= hlen,
            forall|k: int| 0 <= k < j ==> h@[i + k] == n@[k],
        decreases nlen - j,
    {
        if h.get_char(i + j) != n.get_char(j) {
            assert(h@.subrange(i as int, i + nlen) != n@) by {
                assert(h@.subrange(i as int, i + nlen)[j as int] == h@[i + j]);
            }
            return false;
        }
        j = j + 1;
    }
    proof {
        assert(h@.subrange(i as int, i + nlen) =~= n@);
    }
    true
}

/// Decides whether `h` contains `n`.
pub fn contains(h: &str, n: &str) -> (r: bool)
    ensures
        r == spec_contains(h@, n@),
{
    let hlen = h.unicode_len();
    let nlen = n.unicode_len();
    if nlen > hlen {
        assert(forall|i: int| !matches_at(h@, n@, i));
        return false;
    }
    if nlen == 0 {
        assert(h@.subrange(0, 0) =~= n@);
        assert(matches_at(h@, n@, 0));
        return true;
    }
    let mut i: usize = 0;
    while i <= hlen - nlen
        invariant
            0 <= i <= hlen - nlen + 1,
            0 < nlen <= hlen,
            hlen == h@.len() && nlen == n@.len(),
            forall|k: int| 0 <= k < i ==> !matches_at(h@, n@, k),
        decreases hlen - i,
    {
        if match_at(h, n, i) {
            return true;
        }
        i = i + 1;
    }
    proof {
        assert(forall|k: int| matches_at(h@, n@, k) ==> 0 <= k && k + n@.len() <= h@.len());
    }
    false
}

/// Decides whether `h` starts with `n`.
pub fn starts_with(h: &str, n: &str) -> (r: bool)
    ensures
        r == spec_starts_with(h@, n@),
{
    let hlen = h.unicode_len();
    let nlen = n.unicode_len();
    if nlen > hlen {
        return false;
    }
    match_at(h, n, 0)
}

/// Decides whether `h` ends with `n`.
pub fn ends_with(h: &str, n: &str) -> (r: bool)
    ensures
        r == spec_ends_with(h@, n@),
{
    let hlen = h.unicode_len();
    let nlen = n.unicode_len();
    if nlen > hlen {
        return false;
    }
    match_at(h, n, hlen - nlen)
}

/// Index of the first occurrence of `c` in `s`, or `s.len()` if absent.
pub open spec fn spec_find_char(s: Seq<char>, c: char) -> int
    decreases s.len(),
{
    if s.len() == 0 {
        0
    } else if s[0] == c {
        0
    } else {
        1 + spec_find_char(s.drop_first(), c)
    }
}

proof fn lemma_find_char_at(s: Seq<char>, c: char, i: int)
    requires
        0 <= i <= s.len(),
        forall|k: int| 0 <= k < i ==> s[k] != c,
        i == s.len() || s[i] == c,
    ensures
        spec_find_char(s, c) == i,
    decreases i,
{
    if i == 0 {
    } else {
        lemma_find_char_at(s.drop_first(), c, i - 1);
    }
}

/// Finds the first occurrence of `c` in `s`, returning `s.len()` if absent.
pub fn find_char(s: &str, c: char) -> (r: usize)
    ensures
        r == spec_find_char(s@, c),
        r <= s@.len(),
        r < s@.len() ==> s@[r as int] == c,
        forall|k: int| 0 <= k < r ==> s@[k] != c,
{
    let len = s.unicode_len();
    let mut i: usize = 0;
    while i < len && s.get_char(i) != c
        invariant
            0 <= i <= len,
            len == s@.len(),
            forall|k: int| 0 <= k < i ==> s@[k] != c,
        decreases len - i,
    {
        i = i + 1;
    }
    proof {
        lemma_find_char_at(s@, c, i as int);
    }
    i
}

pub proof fn lemma_find_char_range(s: Seq<char>, c: char)
    ensures
        0 <= spec_find_char(s, c) <= s.len(),
    decreases s.len(),
{
    if s.len() != 0 && s[0] != c {
        lemma_find_char_range(s.drop_first(), c);
    }
}

/// The text sanitised for a one-line message: split at newlines, each line
/// trimmed, the lines joined with single spaces.  A final newline ends the
/// last line rather than opening an empty one.
pub open spec fn spec_collapse(s: Seq<char>) -> Seq<char>
    decreases s.len(),
    via spec_collapse_decreases
{
    let i = spec_find_char(s, '\n');
    if i == s.len() {
        spec_trim(s)
    } else if i == s.len() - 1 {
        spec_trim(s.subrange(0, i))
    } else {
        spec_trim(s.subrange(0, i)) + seq![' '] + spec_collapse(s.subrange(i + 1, s.len() as int))
    }
}

#[via_fn]
proof fn spec_collapse_decreases(s: Seq<char>) {
    lemma_find_char_range(s, '\n');
}

/// Joins the trimmed lines of `s` with single spaces.
pub fn collapse_lines(s: &str) -> (r: String)
    ensures
        r@ == spec_collapse(s@),
    decreases s@.len(),
{
    let len = s.unicode_len();
    let i = find_char(s, '\n');
    proof {
        lemma_find_char_range(s@, '\n');
    }
    if i == len {
        trim(s).to_owned()
    } else if i == len - 1 {
        trim(s.substring_char(0, i)).to_owned()
    } else {
        let rest = collapse_lines(s.substring_char(i + 1, len));
        let mut out = trim(s.substring_char(0, i)).to_owned();
        out.append(" ");
        out.append(rest.as_str());
        proof {
            reveal_strlit(" ");
            assert(" "@ =~= seq![' ']);
            assert(out@ =~= spec_collapse(s@));
        }
        out
    }
}

/// Whitespace-normal form, read from outside a word: leading blanks are
/// dropped, inner runs of blanks become single spaces, trailing blanks are
/// dropped.
pub open spec fn spec_norm_ws(s: Seq<char>) -> Seq<char>
    decreases s.len(), 1int,
{
    if s.len() == 0 {
        Seq::empty()
    } else if is_ws(s[0]) {
        spec_norm_ws(s.drop_first())
    } else {
        seq![s[0]] + spec_norm_ws_word(s.drop_first())
    }
}

/// Whitespace-normal form, read from inside a word: a blank ends the word,
/// and contributes one space only if another word follows.
pub open spec fn spec_norm_ws_word(s: Seq<char>) -> Seq<char>
    decreases s.len(), 2int,
{
    if s.len() == 0 {
        Seq::empty()
    } else if is_ws(s[0]) {
        let rest = spec_norm_ws(s.drop_first());
        if rest.len() == 0 {
            Seq::empty()
        } else {
            seq![' '] + rest
        }
    } else {
        seq![s[0]] + spec_norm_ws_word(s.drop_first())
    }
}

fn norm_ws_gap(s: &str) -> (r: String)
    ensures
        r@ == spec_norm_ws(s@),
    decreases s@.len(), 1int,
{
    let len = s.unicode_len();
    if len == 0 {
        String::new()
    } else {
        let rest = s.substring_char(1, len);
        proof {
            assert(rest@ =~= s@.drop_first());
        }
        if is_ws_exec(s.get_char(0)) {
            norm_ws_gap(rest)
        } else {
            let tail = norm_ws_word(rest);
            let mut out = s.substring_char(0, 1).to_owned();
            out.append(tail.as_str());
            proof {
                assert(s@.subrange(0, 1) =~= seq![s@[0]]);
            }
            out
        }
    }
}

fn norm_ws_word(s: &str) -> (r: String)
    ensures
        r@ == spec_norm_ws_word(s@),
    decreases s@.len(), 2int,
{
    let len = s.unicode_len();
    if len == 0 {
        String::new()
    } else {
        let rest = s.substring_char(1, len);
        proof {
            assert(rest@ =~= s@.drop_first());
        }
        if is_ws_exec(s.get_char(0)) {
            let tail = norm_ws_gap(rest);
            if tail.as_str().unicode_len() == 0 {
                proof {
                    assert(spec_norm_ws(rest@).len() == 0);
                }
                String::new()
            } else {
                let mut out = " ".to_owned();
                out.append(tail.as_str());
                proof {
                    reveal_strlit(" ");
                    assert(" "@ =~= seq![' ']);
                }
                out
            }
        } else {
            let tail = norm_ws_word(rest);
            let mut out = s.substring_char(0, 1).to_owned();
            out.append(tail.as_str());
            proof {
                assert(s@.subrange(0, 1) =~= seq![s@[0]]);
            }
            out
        }
    }
}

/// Collapses every run of whitespace in `s` to a single space and trims
/// both ends: the normal form `split_whitespace` plus a single-space join
/// would give.
pub fn normalize_ws(s: &str) -> (r: String)
    ensures
        r@ == spec_norm_ws(s@),
{
    norm_ws_gap(s)
}

/// `s` with every occurrence of the needle `n` removed, scanning left to
/// right without overlap; an empty needle removes nothing.
pub open spec fn spec_remove_all(s: Seq<char>, n: Seq<char>) -> Seq<char>
    decreases s.len(),
{
    if n.len() == 0 || s.len() < n.len() {
        s
    } else if spec_starts_with(s, n) {
        spec_remove_all(s.subrange(n.len() as int, s.len() as int), n)
    } else {
        seq![s[0]] + spec_remove_all(s.drop_first(), n)
    }
}

/// Removes every occurrence of `n` from `s`.
pub fn remove_all(s: &str, n: &str) -> (r: String)
    ensures
        r@ == spec_remove_all(s@, n@),
    decreases s@.len(),
{
    let slen = s.unicode_len();
    let nlen = n.unicode_len();
    if nlen == 0 || slen < nlen {
        return s.to_owned();
    }
    if match_at(s, n, 0) {
        remove_all(s.substring_char(nlen, slen), n)
    } else {
        let tail = remove_all(s.substring_char(1, slen), n);
        let mut out = s.substring_char(0, 1).to_owned();
        out.append(tail.as_str());
        proof {
            assert(s@.subrange(1, slen as int) =~= s@.drop_first());
            assert(s@.subrange(0, 1) =~= seq![s@[0]]);
        }
        out
    }
}

/// The calendar part of an ISO-like timestamp: everything before the first
/// `T`, or nothing when no `T` occurs.
pub open spec fn spec_date_part(s: Seq<char>) -> Seq<char> {
    let i = spec_find_char(s, 'T');
    if i == s.len() {
        Seq::empty()
    } else {
        s.subrange(0, i)
    }
}

/// Extracts the date half of a `datetime` value.
pub fn date_part<'a>(s: &'a str) -> (r: &'a str)
    ensures
        r@ == spec_date_part(s@),
{
    let len = s.unicode_len();
    let i = find_char(s, 'T');
    if i == len {
        let r = "";
        proof {
            reveal_strlit("");
            assert(r@ =~= Seq::<char>::empty());
        }
        r
    } else {
        s.substring_char(0, i)
    }
}

/// The value of a digit string, most significant digit first.
pub open spec fn spec_digits_val(s: Seq<char>) -> nat
    decreases s.len(),
{
    if s.len() == 0 {
        0
    } else {
        spec_digits_val(s.drop_last()) * 10 + digit_val(s.last())
    }
}

/// All characters of `s` are decimal digits.
pub open spec fn all_digits(s: Seq<char>) -> bool {
    forall|i: int| 0 <= i < s.len() ==> is_digit(s[i])
}

/// The digit body of a decimal literal: everything after an optional
/// leading plus sign.
pub open spec fn spec_u64_body(s: Seq<char>) -> Seq<char> {
    if s.len() >= 1 && s[0] == '+' {
        s.drop_first()
    } else {
        s
    }
}

/// `s` is a well-formed `u64` literal: an optional plus sign, then at
/// least one digit, with a value that fits.
pub open spec fn spec_u64_ok(s: Seq<char>) -> bool {
    let body = spec_u64_body(s);
    body.len() > 0 && all_digits(body) && spec_digits_val(body) <= u64::MAX
}

/// Parses a decimal `u64`, accepting exactly the strings `spec_u64_ok`
/// admits: an optional leading plus, then digits, value in range.
pub fn parse_u64(s: &str) -> (r: Option<u64>)
    ensures
        match r {
            Some(v) => spec_u64_ok(s@) && v == spec_digits_val(spec_u64_body(s@)),
            None => !spec_u64_ok(s@),
        },
{
    let len = s.unicode_len();
    let start: usize = if len >= 1 && s.get_char(0) == '+' {
        1
    } else {
        0
    };
    let ghost body = spec_u64_body(s@);
    proof {
        assert(body =~= s@.subrange(start as int, len as int));
    }
    if start >= len {
        return None;
    }
    let mut v: u64 = 0;
    let mut i: usize = start;
    while i < len
        invariant
            start <= i <= len,
            len == s@.len(),
            body == spec_u64_body(s@),
            body == s@.subrange(start as int, len as int),
            all_digits(s@.subrange(start as int, i as int)),
            v == spec_digits_val(s@.subrange(start as int, i as int)),
        decreases len - i,
    {
        let c = s.get_char(i);
        if !is_digit_exec(c) {
            assert(!all_digits(body)) by {
                assert(body[i - start] == s@[i as int]);
                assert(!is_digit(body[i - start]));
            }
            return None;
        }
        let d: u64 = (c as u32 as u64) - ('0' as u32 as u64);
        assert(d == digit_val(c) && d <= 9);
        if v > (u64::MAX - d) / 10 {
            assert(spec_digits_val(s@.subrange(start as int, i as int + 1)) > u64::MAX) by {
                let pre = s@.subrange(start as int, i as int);
                let cur = s@.subrange(start as int, i as int + 1);
                assert(cur.drop_last() =~= pre);
                assert(cur.last() == c);
                assert(v * 10 + d > u64::MAX) by (nonlinear_arith)
                    requires
                        v > (u64::MAX - d) / 10,
                        d <= 9,
                ;
            }
            assert(!spec_u64_ok(s@)) by {
                let pre = s@.subrange(start as int, i as int + 1);
                if all_digits(body) && spec_digits_val(body) <= u64::MAX {
                    lemma_digits_val_prefix_le(body, i + 1 - start);
                    assert(body.subrange(0, i + 1 - start) =~= pre);
                    assert(spec_digits_val(pre) <= spec_digits_val(body));
                    assert(false);
                }
            }
            return None;
        }
        assert(v * 10 + d <= u64::MAX) by (nonlinear_arith)
            requires
                v <= (u64::MAX - d) / 10,
                d <= 9,
        ;
        let next = v * 10 + d;
        proof {
            let pre = s@.subrange(start as int, i as int);
            let cur = s@.subrange(start as int, i as int + 1);
            assert(cur.drop_last() =~= pre);
            assert(cur.last() == c);
        }
        v = next;
        i = i + 1;
    }
    proof {
        assert(s@.subrange(start as int, len as int) =~= body);
    }
    Some(v)
}

/// A digit-string prefix never exceeds the whole string's value.
proof fn lemma_digits_val_prefix_le(s: Seq<char>, n: int)
    requires
        0 <= n <= s.len(),
        all_digits(s),
    ensures
        spec_digits_val(s.subrange(0, n)) <= spec_digits_val(s),
    decreases s.len() - n,
{
    if n == s.len() {
        assert(s.subrange(0, n) =~= s);
    } else {
        lemma_digits_val_prefix_le(s, n + 1);
        let a = s.subrange(0, n);
        let b = s.subrange(0, n + 1);
        assert(b.drop_last() =~= a);
        assert(spec_digits_val(b) == spec_digits_val(a) * 10 + digit_val(b.last()));
        assert(spec_digits_val(a) <= spec_digits_val(a) * 10) by (nonlinear_arith);
    }
}

/// The canonical decimal rendering of `n`.
pub open spec fn spec_u64_dec(n: nat) -> Seq<char>
    decreases n,
{
    if n < 10 {
        seq![spec_digit_char(n)]
    } else {
        spec_u64_dec(n / 10).push(spec_digit_char(n % 10))
    }
}

/// The digit character for a value below ten.
pub open spec fn spec_digit_char(n: nat) -> char {
    if n == 0 {
        '0'
    } else if n == 1 {
        '1'
    } else if n == 2 {
        '2'
    } else if n == 3 {
        '3'
    } else if n == 4 {
        '4'
    } else if n == 5 {
        '5'
    } else if n == 6 {
        '6'
    } else if n == 7 {
        '7'
    } else if n == 8 {
        '8'
    } else {
        '9'
    }
}

/// The one-character string for a digit value below ten.
pub fn digit_str(d: u64) -> (r: &'static str)
    requires
        d < 10,
    ensures
        r@ =~= seq![spec_digit_char(d as nat)],
{
    proof {
        reveal_strlit("0");
        reveal_strlit("1");
        reveal_strlit("2");
        reveal_strlit("3");
        reveal_strlit("4");
        reveal_strlit("5");
        reveal_strlit("6");
        reveal_strlit("7");
        reveal_strlit("8");
        reveal_strlit("9");
    }
    match d {
        0 => "0",
        1 => "1",
        2 => "2",
        3 => "3",
        4 => "4",
        5 => "5",
        6 => "6",
        7 => "7",
        8 => "8",
        _ => "9",
    }
}

/// Renders `n` in decimal.
pub fn u64_to_string(n: u64) -> (r: String)
    ensures
        r@ == spec_u64_dec(n as nat),
    decreases n,
{
    if n < 10 {
        digit_str(n).to_owned()
    } else {
        let mut prefix = u64_to_string(n / 10);
        prefix.append(digit_str(n % 10));
        assert(prefix@ =~= spec_u64_dec(n as nat));
        prefix
    }
}

} // verus!
