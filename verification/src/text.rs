//! Character-sequence helpers: ASCII case folding, trimming, token
//! splitting, decimal rendering and parsing. Everything here is stated over
//! `Seq<char>` views and proved; the one trusted item is a wrapper around
//! `String::push`, which vstd does not specify.

use vstd::prelude::*;

verus! {

/// ASCII lower-casing of one character; every other character is unchanged.
pub open spec fn lower_char(c: char) -> char {
    if 'A' <= c && c <= 'Z' {
        ((c as u8) + 32) as char
    } else {
        c
    }
}

/// ASCII upper-casing of one character; every other character is unchanged.
pub open spec fn upper_char(c: char) -> char {
    if 'a' <= c && c <= 'z' {
        ((c as u8) - 32) as char
    } else {
        c
    }
}

/// ASCII lower-casing of a character sequence.
pub open spec fn lower_spec(s: Seq<char>) -> Seq<char> {
    s.map_values(|c: char| lower_char(c))
}

/// ASCII upper-casing of a character sequence.
pub open spec fn upper_spec(s: Seq<char>) -> Seq<char> {
    s.map_values(|c: char| upper_char(c))
}

/// Relies on `String::push`: appends exactly one character to the string.
#[verifier::external_body]
pub(crate) fn push_char(s: &mut String, c: char)
    ensures
        final(s)@ == old(s)@.push(c),
{
    s.push(c);
}

/// The characters of a string slice, in order.
pub fn str_chars(s: &str) -> (r: Vec<char>)
    ensures
        r@ == s@,
{
    let n = s.unicode_len();
    let mut r: Vec<char> = Vec::new();
    let mut i: usize = 0;
    while i < n
        invariant
            n == s@.len(),
            i <= n,
            r@ == s@.take(i as int),
        decreases n - i,
    {
        r.push(s.get_char(i));
        proof {
            assert(r@ =~= s@.take(i + 1 as int));
        }
        i = i + 1;
    }
    proof {
        assert(s@.take(n as int) =~= s@);
    }
    r
}

/// A `String` holding exactly the given characters.
pub fn string_from_chars(v: &[char]) -> (r: String)
    ensures
        r@ == v@,
{
    let mut r = String::new();
    let mut i: usize = 0;
    while i < v.len()
        invariant
            i <= v@.len(),
            r@ == v@.take(i as int),
        decreases v@.len() - i,
    {
        push_char(&mut r, v[i]);
        proof {
            assert(r@ =~= v@.take(i + 1 as int));
        }
        i = i + 1;
    }
    proof {
        assert(v@.take(v@.len() as int) =~= v@);
    }
    r
}

/// Whether a character vector holds the same characters as a string slice.
pub fn chars_eq_str(v: &[char], s: &str) -> (r: bool)
    ensures
        r == (v@ == s@),
{
    let n = s.unicode_len();
    if v.len() != n {
        proof {
            assert(v@ != s@) by {
                assert(v@.len() != s@.len());
            }
        }
        return false;
    }
    let mut i: usize = 0;
    while i < n
        invariant
            n == s@.len(),
            v@.len() == n,
            i <= n,
            forall|j: int| 0 <= j < i ==> v@[j] == s@[j],
        decreases n - i,
    {
        if v[i] != s.get_char(i) {
            return false;
        }
        i = i + 1;
    }
    proof {
        assert(v@ =~= s@);
    }
    true
}

/// ASCII lower-casing of a character vector.
pub fn lower_chars(v: &[char]) -> (r: Vec<char>)
    ensures
        r@ == lower_spec(v@),
{
    let mut r: Vec<char> = Vec::new();
    let mut i: usize = 0;
    while i < v.len()
        invariant
            i <= v@.len(),
            r@ == lower_spec(v@.take(i as int)),
        decreases v@.len() - i,
    {
        let c = v[i];
        let lc: char = if 'A' <= c && c <= 'Z' {
            (((c as u8) + 32) as char)
        } else {
            c
        };
        assert(lc == lower_char(c));
        r.push(lc);
        proof {
            assert(r@ =~= lower_spec(v@.take(i + 1 as int)));
        }
        i = i + 1;
    }
    proof {
        assert(v@.take(v@.len() as int) =~= v@);
    }
    r
}

/// ASCII upper-casing of a character vector.
pub fn upper_chars(v: &[char]) -> (r: Vec<char>)
    ensures
        r@ == upper_spec(v@),
{
    let mut r: Vec<char> = Vec::new();
    let mut i: usize = 0;
    while i < v.len()
        invariant
            i <= v@.len(),
            r@ == upper_spec(v@.take(i as int)),
        decreases v@.len() - i,
    {
        let c = v[i];
        let uc: char = if 'a' <= c && c <= 'z' {
            (((c as u8) - 32) as char)
        } else {
            c
        };
        assert(uc == upper_char(c));
        r.push(uc);
        proof {
            assert(r@ =~= upper_spec(v@.take(i + 1 as int)));
        }
        i = i + 1;
    }
    proof {
        assert(v@.take(v@.len() as int) =~= v@);
    }
    r
}

/// The ASCII whitespace characters that trimming removes.
pub open spec fn is_ws(c: char) -> bool {
    c == ' ' || c == '\t' || c == '\n' || c == '\r'
}

/// The sequence with its leading whitespace removed.
pub open spec fn ltrim_spec(s: Seq<char>) -> Seq<char>
    decreases s.len(),
{
    if s.len() > 0 && is_ws(s[0]) {
        ltrim_spec(s.drop_first())
    } else {
        s
    }
}

/// The sequence with its trailing whitespace removed.
pub open spec fn rtrim_spec(s: Seq<char>) -> Seq<char>
    decreases s.len(),
{
    if s.len() > 0 && is_ws(s.last()) {
        rtrim_spec(s.drop_last())
    } else {
        s
    }
}

/// The sequence with whitespace removed from both ends.
pub open spec fn trim_spec(s: Seq<char>) -> Seq<char> {
    rtrim_spec(ltrim_spec(s))
}

/// A copy of the characters between two positions.
pub fn subrange_chars(v: &[char], lo: usize, hi: usize) -> (r: Vec<char>)
    requires
        lo <= hi <= v@.len(),
    ensures
        r@ == v@.subrange(lo as int, hi as int),
{
    let mut r: Vec<char> = Vec::new();
    let mut i: usize = lo;
    while i < hi
        invariant
            lo <= i <= hi <= v@.len(),
            r@ == v@.subrange(lo as int, i as int),
        decreases hi - i,
    {
        r.push(v[i]);
        proof {
            assert(r@ =~= v@.subrange(lo as int, i + 1 as int));
        }
        i = i + 1;
    }
    r
}

/// Whitespace-trims a character vector.
pub fn trim_chars(v: &[char]) -> (r: Vec<char>)
    ensures
        r@ == trim_spec(v@),
{
    let n = v.len();
    proof {
        assert(v@.skip(0) =~= v@);
    }
    let mut lo: usize = 0;
    while lo < n && (v[lo] == ' ' || v[lo] == '\t' || v[lo] == '\n' || v[lo] == '\r')
        invariant
            lo <= n == v@.len(),
            ltrim_spec(v@) == ltrim_spec(v@.skip(lo as int)),
        decreases n - lo,
    {
        proof {
            assert(v@.skip(lo as int).drop_first() =~= v@.skip(lo + 1 as int));
        }
        lo = lo + 1;
    }
    proof {
        if lo == n {
            assert(v@.skip(lo as int) =~= Seq::<char>::empty());
        }
        assert(ltrim_spec(v@) == v@.skip(lo as int));
    }
    let ghost t = v@.skip(lo as int);
    proof {
        assert(t.take(n - lo as int) =~= t);
    }
    let mut hi: usize = n;
    while hi > lo && (v[hi - 1] == ' ' || v[hi - 1] == '\t' || v[hi - 1] == '\n' || v[hi - 1]
        == '\r')
        invariant
            lo <= hi <= n == v@.len(),
            t == v@.skip(lo as int),
            rtrim_spec(t) == rtrim_spec(t.take(hi - lo as int)),
        decreases hi,
    {
        proof {
            let k = hi - lo as int;
            assert(t.take(k).last() == v@[hi - 1]);
            assert(t.take(k).drop_last() =~= t.take(k - 1));
        }
        hi = hi - 1;
    }
    proof {
        let k = hi - lo as int;
        if hi == lo {
            assert(t.take(k) =~= Seq::<char>::empty());
        } else {
            assert(t.take(k).last() == v@[hi - 1]);
        }
        assert(rtrim_spec(t) == t.take(k));
        assert(t.take(k) =~= v@.subrange(lo as int, hi as int));
    }
    subrange_chars(v, lo, hi)
}

/// The length of the prefix before the first occurrence of `sep`.
pub open spec fn tok_len(s: Seq<char>, sep: char) -> nat
    decreases s.len(),
{
    if s.len() == 0 || s[0] == sep {
        0
    } else {
        (1 + tok_len(s.drop_first(), sep)) as nat
    }
}

/// A scan that stops at the first `sep`, or at the end, determines `tok_len`.
pub proof fn lemma_tok_len_at(s: Seq<char>, sep: char, i: int)
    requires
        0 <= i <= s.len(),
        forall|j: int| 0 <= j < i ==> s[j] != sep,
        i < s.len() ==> s[i] == sep,
    ensures
        tok_len(s, sep) == i,
    decreases i,
{
    if i > 0 {
        lemma_tok_len_at(s.drop_first(), sep, i - 1);
    }
}

/// Splits at the first occurrence of `sep`: the head token, and the rest
/// after the separator if the separator occurs at all.
pub fn split_first(v: &[char], sep: char) -> (r: (Vec<char>, Option<Vec<char>>))
    ensures
        tok_len(v@, sep) <= v@.len(),
        r.0@ == v@.take(tok_len(v@, sep) as int),
        tok_len(v@, sep) < v@.len() ==> (r.1 matches Some(rest) && rest@ == v@.skip(
            tok_len(v@, sep) + 1 as int,
        )),
        tok_len(v@, sep) == v@.len() ==> r.1 is None,
{
    let n = v.len();
    let mut i: usize = 0;
    while i < n && v[i] != sep
        invariant
            i <= n == v@.len(),
            forall|j: int| 0 <= j < i ==> v@[j] != sep,
        decreases n - i,
    {
        i = i + 1;
    }
    proof {
        lemma_tok_len_at(v@, sep, i as int);
        assert(v@.take(i as int) =~= v@.subrange(0, i as int));
    }
    let head = subrange_chars(v, 0, i);
    if i < n {
        proof {
            assert(v@.skip(i + 1 as int) =~= v@.subrange(i + 1 as int, n as int));
        }
        let rest = subrange_chars(v, i + 1, n);
        (head, Some(rest))
    } else {
        (head, None)
    }
}

/// Whether `p` is a prefix of `s`.
pub open spec fn has_prefix(s: Seq<char>, p: Seq<char>) -> bool {
    s.len() >= p.len() && s.take(p.len() as int) == p
}

/// Whether the character vector starts with the given string.
pub fn starts_with_str(v: &[char], p: &str) -> (r: bool)
    ensures
        r == has_prefix(v@, p@),
{
    let n = p.unicode_len();
    if v.len() < n {
        return false;
    }
    let mut i: usize = 0;
    while i < n
        invariant
            n == p@.len(),
            n <= v@.len(),
            i <= n,
            forall|j: int| 0 <= j < i ==> v@[j] == p@[j],
        decreases n - i,
    {
        if v[i] != p.get_char(i) {
            proof {
                assert(v@.take(n as int)[i as int] != p@[i as int]);
            }
            return false;
        }
        i = i + 1;
    }
    proof {
        assert(v@.take(n as int) =~= p@);
    }
    true
}

/// The character for one decimal digit.
pub open spec fn digit_char(d: int) -> char {
    if d == 0 {
        '0'
    } else if d == 1 {
        '1'
    } else if d == 2 {
        '2'
    } else if d == 3 {
        '3'
    } else if d == 4 {
        '4'
    } else if d == 5 {
        '5'
    } else if d == 6 {
        '6'
    } else if d == 7 {
        '7'
    } else if d == 8 {
        '8'
    } else {
        '9'
    }
}

/// The decimal rendering of a natural number, most significant digit first.
pub open spec fn dec_rep(n: nat) -> Seq<char>
    decreases n,
{
    if n < 10 {
        seq![digit_char(n as int)]
    } else {
        dec_rep(n / 10).push(digit_char((n % 10) as int))
    }
}

/// The decimal rendering of a signed number: a minus sign before the
/// magnitude when negative.
pub open spec fn dec_rep_i(n: int) -> Seq<char> {
    if n >= 0 {
        dec_rep(n as nat)
    } else {
        seq!['-'] + dec_rep((-n) as nat)
    }
}

fn digit_to_char(d: u64) -> (c: char)
    requires
        d < 10,
    ensures
        c == digit_char(d as int),
{
    match d {
        0 => '0',
        1 => '1',
        2 => '2',
        3 => '3',
        4 => '4',
        5 => '5',
        6 => '6',
        7 => '7',
        8 => '8',
        _ => '9',
    }
}

/// The decimal digits of `n`.
pub fn u64_to_chars(n: u64) -> (r: Vec<char>)
    ensures
        r@ == dec_rep(n as nat),
{
    let mut digits: Vec<char> = Vec::new();
    let mut cur: u64 = n;
    proof {
        assert(dec_rep(n as nat) =~= dec_rep(cur as nat) + digits@.reverse());
    }
    while cur >= 10
        invariant
            dec_rep(n as nat) == dec_rep(cur as nat) + digits@.reverse(),
        decreases cur,
    {
        let d = cur % 10;
        let ghost prev = cur as nat;
        let ghost prev_digits = digits@;
        digits.push(digit_to_char(d));
        cur = cur / 10;
        proof {
            assert(dec_rep(prev) == dec_rep(cur as nat).push(digit_char(d as int)));
            assert(prev_digits.push(digit_char(d as int)).reverse() =~= seq![
                digit_char(d as int),
            ] + prev_digits.reverse());
            assert(dec_rep(cur as nat) + digits@.reverse() =~= dec_rep(prev)
                + prev_digits.reverse());
        }
    }
    let ghost low_digits = digits@;
    digits.push(digit_to_char(cur));
    proof {
        assert(dec_rep(cur as nat) =~= seq![digit_char(cur as int)]);
        assert(digits@.reverse() =~= dec_rep(cur as nat) + low_digits.reverse());
        assert(digits@.reverse().reverse() =~= digits@);
        assert(dec_rep(n as nat) == digits@.reverse());
    }
    let m = digits.len();
    let mut r: Vec<char> = Vec::new();
    let mut i: usize = 0;
    while i < m
        invariant
            m == digits@.len(),
            i <= m,
            r@ == digits@.reverse().take(i as int),
        decreases m - i,
    {
        r.push(digits[m - 1 - i]);
        proof {
            assert(r@ =~= digits@.reverse().take(i + 1 as int));
        }
        i = i + 1;
    }
    proof {
        assert(digits@.reverse().take(m as int) =~= digits@.reverse());
    }
    r
}

/// The decimal rendering of an unsigned number.
pub fn u64_to_string(n: u64) -> (r: String)
    ensures
        r@ == dec_rep(n as nat),
{
    let digits = u64_to_chars(n);
    string_from_chars(digits.as_slice())
}

/// The decimal rendering of a signed number.
pub fn i64_to_string(n: i64) -> (r: String)
    ensures
        r@ == dec_rep_i(n as int),
{
    if n >= 0 {
        u64_to_string(n as u64)
    } else {
        let mag: u64 = if n == i64::MIN {
            9223372036854775808u64
        } else {
            (-n) as u64
        };
        let mut chars: Vec<char> = Vec::new();
        chars.push('-');
        let mut digits = u64_to_chars(mag);
        chars.append(&mut digits);
        proof {
            assert(chars@ =~= dec_rep_i(n as int));
        }
        string_from_chars(chars.as_slice())
    }
}

/// A decimal digit.
pub open spec fn is_digit(c: char) -> bool {
    '0' <= c && c <= '9'
}

/// The numeric value of a digit character.
pub open spec fn digit_val(c: char) -> int {
    c as int - 48
}

pub open spec fn all_digits(s: Seq<char>) -> bool {
    forall|i: int| 0 <= i < s.len() ==> is_digit(#[trigger] s[i])
}

/// The value of a digit string, most significant digit first.
pub open spec fn dec_val(s: Seq<char>) -> int
    decreases s.len(),
{
    if s.len() == 0 {
        0
    } else {
        dec_val(s.drop_last()) * 10 + digit_val(s.last())
    }
}

/// What parsing an unsigned decimal number returns: the value when the text
/// is one or more digits after an optional leading plus sign and the value
/// fits; nothing otherwise.
pub open spec fn parse_u64_spec(s: Seq<char>) -> Option<u64> {
    let t = if s.len() > 0 && s[0] == '+' {
        s.drop_first()
    } else {
        s
    };
    if t.len() > 0 && all_digits(t) && dec_val(t) <= u64::MAX {
        Some(dec_val(t) as u64)
    } else {
        None
    }
}

proof fn lemma_dec_val_nonneg(s: Seq<char>)
    requires
        all_digits(s),
    ensures
        dec_val(s) >= 0,
    decreases s.len(),
{
    if s.len() > 0 {
        assert(all_digits(s.drop_last()));
        lemma_dec_val_nonneg(s.drop_last());
    }
}

proof fn lemma_dec_val_take_le(s: Seq<char>, k: int)
    requires
        all_digits(s),
        0 <= k <= s.len(),
    ensures
        dec_val(s.take(k)) <= dec_val(s),
    decreases s.len() - k,
{
    if k < s.len() {
        lemma_dec_val_take_le(s, k + 1);
        assert(s.take(k + 1).drop_last() =~= s.take(k));
        assert(s.take(k + 1).last() == s[k]);
        assert(all_digits(s.take(k)));
        lemma_dec_val_nonneg(s.take(k));
        assert(dec_val(s.take(k + 1)) == dec_val(s.take(k)) * 10 + digit_val(s.take(k + 1).last()));
        assert(dec_val(s.take(k)) * 10 >= dec_val(s.take(k)));
        assert(is_digit(s[k]));
        assert(digit_val(s[k]) >= 0);
    } else {
        assert(s.take(k) =~= s);
    }
}

/// Parses an unsigned decimal number out of a character vector.
pub fn parse_u64_chars(v: &[char]) -> (r: Option<u64>)
    ensures
        r == parse_u64_spec(v@),
{
    let n = v.len();
    let start: usize = if n > 0 && v[0] == '+' {
        1
    } else {
        0
    };
    let ghost t = if v@.len() > 0 && v@[0] == '+' {
        v@.drop_first()
    } else {
        v@
    };
    proof {
        assert(t =~= v@.skip(start as int));
    }
    if n == start {
        return None;
    }
    let mut acc: u128 = 0;
    let mut i: usize = start;
    while i < n
        invariant
            start <= i <= n == v@.len(),
            start < n,
            t == v@.skip(start as int),
            t == (if v@.len() > 0 && v@[0] == '+' {
                v@.drop_first()
            } else {
                v@
            }),
            all_digits(t.take(i - start as int)),
            acc <= u64::MAX,
            acc as int == dec_val(t.take(i - start as int)),
        decreases n - i,
    {
        let c = v[i];
        if !('0' <= c && c <= '9') {
            proof {
                assert(t[i - start as int] == v@[i as int]);
                assert(t[i - start as int] == c);
                assert(!is_digit(t[i - start as int]));
                assert(!all_digits(t));
            }
            return None;
        }
        let d: u128 = (c as u32 as u128) - 48;
        let ghost prev = i - start as int;
        acc = acc * 10 + d;
        proof {
            assert(t.take(prev + 1).drop_last() =~= t.take(prev));
            assert(t.take(prev + 1).last() == c);
            assert(all_digits(t.take(prev + 1)));
            assert(acc as int == dec_val(t.take(prev + 1)));
        }
        i = i + 1;
        if acc > u64::MAX as u128 {
            proof {
                if all_digits(t) {
                    lemma_dec_val_take_le(t, i - start as int);
                    assert(dec_val(t) >= dec_val(t.take(i - start as int)));
                    assert(dec_val(t) > u64::MAX);
                }
            }
            return None;
        }
    }
    proof {
        assert(t.take(n - start as int) =~= t);
    }
    Some(acc as u64)
}

/// Lexicographic order on character sequences, by code point.
pub open spec fn chars_le(a: Seq<char>, b: Seq<char>) -> bool
    decreases a.len(),
{
    if a.len() == 0 {
        true
    } else if b.len() == 0 {
        false
    } else if (a[0] as int) < (b[0] as int) {
        true
    } else if a[0] == b[0] {
        chars_le(a.drop_first(), b.drop_first())
    } else {
        false
    }
}

pub proof fn lemma_chars_le_total(a: Seq<char>, b: Seq<char>)
    ensures
        chars_le(a, b) || chars_le(b, a),
    decreases a.len(),
{
    if a.len() > 0 && b.len() > 0 && a[0] == b[0] {
        lemma_chars_le_total(a.drop_first(), b.drop_first());
    }
}

pub proof fn lemma_chars_le_trans(a: Seq<char>, b: Seq<char>, c: Seq<char>)
    requires
        chars_le(a, b),
        chars_le(b, c),
    ensures
        chars_le(a, c),
    decreases a.len(),
{
    if a.len() > 0 && b.len() > 0 && c.len() > 0 && a[0] == b[0] && b[0] == c[0] {
        lemma_chars_le_trans(a.drop_first(), b.drop_first(), c.drop_first());
    }
}

proof fn lemma_chars_le_skip(a: Seq<char>, b: Seq<char>, i: int)
    requires
        0 <= i <= a.len(),
        i <= b.len(),
        forall|j: int| 0 <= j < i ==> a[j] == b[j],
    ensures
        chars_le(a, b) == chars_le(a.skip(i), b.skip(i)),
    decreases i,
{
    if i > 0 {
        assert(a.len() > 0 && b.len() > 0 && a[0] == b[0]);
        assert(a.drop_first() =~= a.skip(1));
        assert(b.drop_first() =~= b.skip(1));
        lemma_chars_le_skip(a.skip(1), b.skip(1), i - 1);
        assert(a.skip(1).skip(i - 1) =~= a.skip(i));
        assert(b.skip(1).skip(i - 1) =~= b.skip(i));
    } else {
        assert(a.skip(0) =~= a);
        assert(b.skip(0) =~= b);
    }
}

/// Lexicographic comparison of two strings.
pub fn string_le(a: &str, b: &str) -> (r: bool)
    ensures
        r == chars_le(a@, b@),
{
    let na = a.unicode_len();
    let nb = b.unicode_len();
    let min: usize = if na < nb {
        na
    } else {
        nb
    };
    let mut i: usize = 0;
    while i < min
        invariant
            min <= na == a@.len(),
            min <= nb == b@.len(),
            i <= min,
            forall|j: int| 0 <= j < i ==> a@[j] == b@[j],
        decreases min - i,
    {
        let ca = a.get_char(i);
        let cb = b.get_char(i);
        if ca != cb {
            proof {
                lemma_chars_le_skip(a@, b@, i as int);
            }
            return (ca as u32) < (cb as u32);
        }
        i = i + 1;
    }
    proof {
        lemma_chars_le_skip(a@, b@, min as int);
        if na <= nb {
            assert(a@.skip(min as int).len() == 0);
        } else {
            assert(a@.skip(min as int).len() > 0);
            assert(b@.skip(min as int).len() == 0);
        }
    }
    na <= nb
}

} // verus!
