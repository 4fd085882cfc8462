//! Verified text helpers: decimal rendering of integers, character-level
//! string comparison and search, and substring replacement.

use vstd::prelude::*;
use vstd::string::*;

verus! {

/// The decimal digit character for a value in 0..=9.
pub open spec fn spec_digit_char(d: int) -> char {
    if d == 0 {
        '0'
    } else if d == 1 {
        '1'
    } else if d == 2 {
        '2'
    } else if d == 3 {
        '3'
    } else if d == 4 {
        '4'
    } else if d == 5 {
        '5'
    } else if d == 6 {
        '6'
    } else if d == 7 {
        '7'
    } else if d == 8 {
        '8'
    } else {
        '9'
    }
}

/// Decimal rendering of a non-negative integer, most significant digit first.
pub open spec fn spec_u64_string(n: int) -> Seq<char>
    decreases n,
{
    if n < 10 {
        seq![spec_digit_char(n)]
    } else {
        spec_u64_string(n / 10).push(spec_digit_char(n % 10))
    }
}

/// Decimal rendering of a signed integer: a leading '-' for negative values.
pub open spec fn spec_i64_string(n: int) -> Seq<char> {
    if n < 0 {
        seq!['-'] + spec_u64_string(-n)
    } else {
        spec_u64_string(n)
    }
}

fn digit_str(d: u64) -> (r: &'static str)
    requires
        d < 10,
    ensures
        r@ =~= seq![spec_digit_char(d as int)],
{
    proof {
        reveal_strlit("0");
        reveal_strlit("1");
        reveal_strlit("2");
        reveal_strlit("3");
        reveal_strlit("4");
        reveal_strlit("5");
        reveal_strlit("6");
        reveal_strlit("7");
        reveal_strlit("8");
        reveal_strlit("9");
    }
    match d {
        0 => "0",
        1 => "1",
        2 => "2",
        3 => "3",
        4 => "4",
        5 => "5",
        6 => "6",
        7 => "7",
        8 => "8",
        _ => "9",
    }
}

/// Renders an unsigned integer in decimal.
pub fn u64_to_string(n: u64) -> (r: String)
    ensures
        r@ == spec_u64_string(n as int),
    decreases n,
{
    if n < 10 {
        digit_str(n).to_owned()
    } else {
        let mut s = u64_to_string(n / 10);
        s.append(digit_str(n % 10));
        proof {
            assert(s@ =~= spec_u64_string(n as int));
        }
        s
    }
}

/// Renders a signed integer in decimal.
pub fn i64_to_string(n: i64) -> (r: String)
    ensures
        r@ == spec_i64_string(n as int),
{
    if n >= 0 {
        u64_to_string(n as u64)
    } else {
        let t: i64 = -(n + 1);
        let m: u64 = (t as u64) + 1;
        let mut s = "-".to_owned();
        let digits = u64_to_string(m);
        s.append(digits.as_str());
        proof {
            reveal_strlit("-");
            assert(m as int == -(n as int));
            assert(s@ =~= spec_i64_string(n as int));
        }
        s
    }
}

/// Character-for-character equality of two string slices.
pub fn str_eq(a: &str, b: &str) -> (r: bool)
    ensures
        r == (a@ == b@),
{
    let an = a.unicode_len();
    let bn = b.unicode_len();
    if an != bn {
        proof {
            assert(a@ != b@) by {
                if a@ == b@ {
                    assert(a@.len() == b@.len());
                }
            }
        }
        return false;
    }
    let mut i: usize = 0;
    while i < an
        invariant
            an == a@.len(),
            bn == b@.len(),
            an == bn,
            i <= an,
            forall|j: int| 0 <= j < i ==> a@[j] == b@[j],
        decreases an - i,
    {
        if a.get_char(i) != b.get_char(i) {
            proof {
                assert(a@[i as int] != b@[i as int]);
            }
            return false;
        }
        i += 1;
    }
    proof {
        assert(a@ =~= b@);
    }
    true
}

/// Whether `needle` occurs as a contiguous run of characters inside `hay`.
pub open spec fn spec_contains_seq(hay: Seq<char>, needle: Seq<char>) -> bool {
    exists|i: int|
        0 <= i && i + needle.len() <= hay.len() && #[trigger] hay.subrange(i, i + needle.len())
            == needle
}

/// Substring search, character by character.
pub fn contains_str(hay: &str, needle: &str) -> (r: bool)
    ensures
        r == spec_contains_seq(hay@, needle@),
{
    let hn = hay.unicode_len();
    let nn = needle.unicode_len();
    if nn > hn {
        return false;
    }
    if nn == 0 {
        proof {
            assert(hay@.subrange(0, 0 + needle@.len() as int) =~= needle@);
        }
        return true;
    }
    let limit = hn - nn;
    let mut i: usize = 0;
    loop
        invariant
            hn == hay@.len(),
            nn == needle@.len(),
            0 < nn <= hn,
            limit == hn - nn,
            i <= limit + 1,
            forall|j: int|
                0 <= j < i ==> #[trigger] hay@.subrange(j, j + needle@.len()) != needle@,
        decreases limit + 1 - i,
    {
        if i > limit {
            return false;
        }
        let part = hay.substring_char(i, i + nn);
        if str_eq(part, needle) {
            return true;
        }
        i += 1;
    }
}

/// Whether `s` ends with the characters of `suffix`.
pub open spec fn spec_ends_with(s: Seq<char>, suffix: Seq<char>) -> bool {
    suffix.len() <= s.len() && s.subrange(s.len() - suffix.len(), s.len() as int) == suffix
}

/// Suffix test, character by character.
pub fn ends_with_str(s: &str, suffix: &str) -> (r: bool)
    ensures
        r == spec_ends_with(s@, suffix@),
{
    let sn = s.unicode_len();
    let xn = suffix.unicode_len();
    if xn > sn {
        return false;
    }
    let part = s.substring_char(sn - xn, sn);
    str_eq(part, suffix)
}

/// Whether `s` starts with the characters of `prefix`.
pub open spec fn spec_starts_with(s: Seq<char>, prefix: Seq<char>) -> bool {
    prefix.len() <= s.len() && s.subrange(0, prefix.len() as int) == prefix
}

/// Prefix test, character by character.
pub fn starts_with_str(s: &str, prefix: &str) -> (r: bool)
    ensures
        r == spec_starts_with(s@, prefix@),
{
    let sn = s.unicode_len();
    let xn = prefix.unicode_len();
    if xn > sn {
        return false;
    }
    let part = s.substring_char(0, xn);
    str_eq(part, prefix)
}

/// Left-to-right, non-overlapping replacement of every occurrence of `pat`
/// by `rep`.
pub open spec fn spec_replace(s: Seq<char>, pat: Seq<char>, rep: Seq<char>) -> Seq<char>
    recommends
        pat.len() > 0,
    decreases s.len(),
{
    if s.len() < pat.len() || pat.len() == 0 {
        s
    } else if s.subrange(0, pat.len() as int) == pat {
        rep + spec_replace(s.skip(pat.len() as int), pat, rep)
    } else {
        seq![s[0]] + spec_replace(s.skip(1), pat, rep)
    }
}

/// Replaces every occurrence of `pat` in `s` by `rep`, scanning left to
/// right without overlap, as `str::replace` does.
pub fn replace_str(s: &str, pat: &str, rep: &str) -> (r: String)
    requires
        pat@.len() > 0,
    ensures
        r@ == spec_replace(s@, pat@, rep@),
{
    let sn = s.unicode_len();
    let pn = pat.unicode_len();
    let mut out = String::new();
    let mut i: usize = 0;
    proof {
        assert(s@.subrange(0, sn as int) =~= s@);
        assert(out@ + spec_replace(s@, pat@, rep@) =~= spec_replace(s@, pat@, rep@));
    }
    while i < sn
        invariant
            sn == s@.len(),
            pn == pat@.len(),
            pn > 0,
            i <= sn,
            spec_replace(s@, pat@, rep@) == out@ + spec_replace(
                s@.subrange(i as int, sn as int),
                pat@,
                rep@,
            ),
        decreases sn - i,
    {
        let ghost tail = s@.subrange(i as int, sn as int);
        if pn <= sn - i {
            let part = s.substring_char(i, i + pn);
            if str_eq(part, pat) {
                out.append(rep);
                proof {
                    assert(tail.subrange(0, pat@.len() as int) =~= pat@);
                    assert(tail.skip(pat@.len() as int) =~= s@.subrange(
                        i + pn,
                        sn as int,
                    ));
                }
                i += pn;
                continue;
            }
        }
        let one = s.substring_char(i, i + 1);
        out.append(one);
        proof {
            if tail.len() >= pat@.len() {
                assert(tail.subrange(0, pat@.len() as int) != pat@) by {
                    if i + pn <= sn {
                        assert(tail.subrange(0, pat@.len() as int) =~= s@.subrange(
                            i as int,
                            i + pn,
                        ));
                    }
                }
            }
            assert(seq![tail[0]] =~= one@);
            assert(tail.skip(1) =~= s@.subrange(i + 1, sn as int));
        }
        i += 1;
    }
    proof {
        assert(s@.subrange(sn as int, sn as int) =~= Seq::<char>::empty());
        assert(out@ =~= spec_replace(s@, pat@, rep@));
    }
    out
}

/// An ASCII whitespace character.
pub open spec fn is_ws_char(c: char) -> bool {
    c == ' ' || c == '\t' || c == '\n' || c == '\r'
}

/// `s` without leading ASCII whitespace.
pub open spec fn spec_trim_chars_front(s: Seq<char>) -> Seq<char>
    decreases s.len(),
{
    if s.len() > 0 && is_ws_char(s[0]) {
        spec_trim_chars_front(s.skip(1))
    } else {
        s
    }
}

/// `s` without trailing ASCII whitespace.
pub open spec fn spec_trim_chars_back(s: Seq<char>) -> Seq<char>
    decreases s.len(),
{
    if s.len() > 0 && is_ws_char(s.last()) {
        spec_trim_chars_back(s.drop_last())
    } else {
        s
    }
}

/// `s` without leading and trailing ASCII whitespace.
pub open spec fn spec_trim_chars(s: Seq<char>) -> Seq<char> {
    spec_trim_chars_back(spec_trim_chars_front(s))
}

fn is_ws_exec(c: char) -> (r: bool)
    ensures
        r == is_ws_char(c),
{
    c == ' ' || c == '\t' || c == '\n' || c == '\r'
}

/// Copies `s` without its leading and trailing ASCII whitespace.
pub fn trim_str(s: &str) -> (r: String)
    ensures
        r@ == spec_trim_chars(s@),
{
    let n = s.unicode_len();
    let mut a: usize = 0;
    proof {
        assert(s@.skip(0) =~= s@);
    }
    while a < n && is_ws_exec(s.get_char(a))
        invariant
            n == s@.len(),
            a <= n,
            spec_trim_chars_front(s@) == spec_trim_chars_front(s@.skip(a as int)),
        decreases n - a,
    {
        proof {
            assert(s@.skip(a as int).skip(1) =~= s@.skip(a + 1));
        }
        a += 1;
    }
    proof {
        assert(spec_trim_chars_front(s@.skip(a as int)) =~= s@.skip(a as int));
    }
    let mut b: usize = n;
    while b > a && is_ws_exec(s.get_char(b - 1))
        invariant
            n == s@.len(),
            a <= b <= n,
            spec_trim_chars_front(s@) == s@.skip(a as int),
            spec_trim_chars_back(s@.skip(a as int)) == spec_trim_chars_back(
                s@.subrange(a as int, b as int),
            ),
        decreases b,
    {
        proof {
            assert(s@.subrange(a as int, b as int).drop_last() =~= s@.subrange(a as int, b - 1));
        }
        b -= 1;
    }
    proof {
        assert(spec_trim_chars_back(s@.subrange(a as int, b as int)) =~= s@.subrange(
            a as int,
            b as int,
        ));
    }
    let part = s.substring_char(a, b);
    let r = part.to_owned();
    proof {
        assert(r@ =~= spec_trim_chars(s@));
    }
    r
}

/// An ASCII decimal digit.
pub open spec fn is_digit_char(c: char) -> bool {
    48 <= c as int && c as int <= 57
}

/// The value of one digit character.
pub open spec fn digit_val(c: char) -> int {
    c as int - 48
}

/// Every character is a digit.
pub open spec fn all_digit_chars(s: Seq<char>) -> bool {
    forall|i: int| 0 <= i < s.len() ==> is_digit_char(#[trigger] s[i])
}

/// The number a digit string denotes, most significant digit first.
pub open spec fn spec_digits_value(s: Seq<char>) -> int
    decreases s.len(),
{
    if s.len() == 0 {
        0
    } else {
        spec_digits_value(s.drop_last()) * 10 + digit_val(s.last())
    }
}

/// Only the digit characters of `s`, in order.
pub open spec fn spec_filter_digits(s: Seq<char>) -> Seq<char>
    decreases s.len(),
{
    if s.len() == 0 {
        Seq::empty()
    } else {
        spec_filter_digits(s.drop_last()) + (if is_digit_char(s.last()) {
            seq![s.last()]
        } else {
            Seq::<char>::empty()
        })
    }
}

/// A digit string denotes a non-negative number.
pub proof fn lemma_digits_value_nonneg(s: Seq<char>)
    requires
        all_digit_chars(s),
    ensures
        spec_digits_value(s) >= 0,
    decreases s.len(),
{
    if s.len() > 0 {
        assert(forall|i: int|
            0 <= i < s.drop_last().len() ==> is_digit_char(#[trigger] s.drop_last()[i]));
        lemma_digits_value_nonneg(s.drop_last());
    }
}

/// Appending digits never shrinks the denoted number.
pub proof fn lemma_digits_value_prefix(s: Seq<char>, k: int)
    requires
        all_digit_chars(s),
        0 <= k <= s.len(),
    ensures
        spec_digits_value(s) >= spec_digits_value(s.subrange(0, k)),
    decreases s.len() - k,
{
    if k < s.len() {
        lemma_digits_value_prefix(s, k + 1);
        assert(s.subrange(0, k + 1).drop_last() =~= s.subrange(0, k));
        assert(forall|i: int|
            0 <= i < s.subrange(0, k).len() ==> is_digit_char(#[trigger] s.subrange(0, k)[i]));
        lemma_digits_value_nonneg(s.subrange(0, k));
    } else {
        assert(s.subrange(0, k) =~= s);
    }
}

/// What `str::parse::<i32>` accepts and returns: an optional sign, one or
/// more digits, the whole string, and a value within the type's range.
pub open spec fn spec_parse_i32(s: Seq<char>) -> Option<int> {
    let body = if s.len() > 0 && (s[0] == '+' || s[0] == '-') {
        s.skip(1)
    } else {
        s
    };
    if body.len() == 0 || !all_digit_chars(body) {
        None
    } else {
        let v = spec_digits_value(body);
        let signed = if s.len() > 0 && s[0] == '-' {
            -v
        } else {
            v
        };
        if -0x80000000 <= signed <= 0x7fffffff {
            Some(signed)
        } else {
            None
        }
    }
}

/// Parses a whole string as a signed 32-bit integer, as `str::parse`
/// reads one.
#[verifier::loop_isolation(false)]
pub fn parse_i32(s: &str) -> (r: Option<i32>)
    ensures
        match r {
            Some(v) => spec_parse_i32(s@) == Some(v as int),
            None => spec_parse_i32(s@) is None,
        },
{
    let n = s.unicode_len();
    if n == 0 {
        return None;
    }
    let first = s.get_char(0);
    let negative = first == '-';
    let start: usize = if first == '-' || first == '+' {
        1
    } else {
        0
    };
    let ghost body = if first == '-' || first == '+' {
        s@.skip(1)
    } else {
        s@
    };
    if start >= n {
        proof {
            assert(body.len() == 0);
        }
        return None;
    }
    let mut acc: u64 = 0;
    let mut i: usize = start;
    proof {
        assert(body =~= s@.subrange(start as int, n as int));
        assert(s@.subrange(start as int, start as int) =~= body.subrange(0, 0));
    }
    while i < n
        invariant
            start <= i <= n,
            body == s@.subrange(start as int, n as int),
            body.len() == n - start,
            acc == spec_digits_value(body.subrange(0, i - start)),
            all_digit_chars(body.subrange(0, i - start)),
            acc <= 0x80000000,
        decreases n - i,
    {
        let c = s.get_char(i);
        proof {
            assert(body[i - start] == s@[i as int]);
            assert(body.subrange(0, i + 1 - start).drop_last() =~= body.subrange(
                0,
                i - start,
            ));
            assert(body.subrange(0, i + 1 - start).last() == body[i - start]);
        }
        if !(('0' <= c) && (c <= '9')) {
            proof {
                assert(!is_digit_char(body[i - start]));
            }
            return None;
        }
        let d: u64 = (c as u32 as u64) - 48;
        let next: u64 = acc * 10 + d;
        if next > 0x80000000 {
            proof {
                if all_digit_chars(body) {
                    lemma_digits_value_prefix(body, i + 1 - start);
                    lemma_digits_value_nonneg(body);
                }
            }
            return None;
        }
        acc = next;
        i += 1;
    }
    proof {
        assert(body.subrange(0, n - start) =~= body);
    }
    if negative {
        if acc == 0x80000000 {
            Some(i32::MIN)
        } else {
            let v = acc as u32;
            Some(-(v as i32))
        }
    } else {
        if acc <= 0x7fffffff {
            Some(acc as i32)
        } else {
            None
        }
    }
}

/// The number the digit characters of `s` denote, read in order as
/// `str::parse` would read the filtered string; nothing when `s` has no
/// digit or the number overflows the 32-bit range.
#[verifier::loop_isolation(false)]
pub fn filtered_digits_value(s: &str) -> (r: Option<i32>)
    ensures
        ({
            let f = spec_filter_digits(s@);
            match r {
                Some(v) => f.len() > 0 && spec_digits_value(f) == v as int,
                None => f.len() == 0 || spec_digits_value(f) > 0x7fffffff,
            }
        }),
{
    let n = s.unicode_len();
    let mut acc: u64 = 0;
    let mut found = false;
    let mut i: usize = 0;
    proof {
        assert(s@.subrange(0, 0) =~= Seq::<char>::empty());
        assert(spec_filter_digits(s@.subrange(0, 0)) =~= Seq::<char>::empty());
    }
    while i < n
        invariant
            i <= n,
            n == s@.len(),
            found == (spec_filter_digits(s@.subrange(0, i as int)).len() > 0),
            acc == spec_digits_value(spec_filter_digits(s@.subrange(0, i as int))),
            all_digit_chars(spec_filter_digits(s@.subrange(0, i as int))),
            acc <= 0x7fffffff,
        decreases n - i,
    {
        let c = s.get_char(i);
        proof {
            assert(s@.subrange(0, i + 1).drop_last() =~= s@.subrange(0, i as int));
            assert(s@.subrange(0, i + 1).last() == s@[i as int]);
        }
        if ('0' <= c) && (c <= '9') {
            let d: u64 = (c as u32 as u64) - 48;
            let next: u64 = acc * 10 + d;
            let ghost f_next = spec_filter_digits(s@.subrange(0, i + 1));
            proof {
                assert(f_next =~= spec_filter_digits(s@.subrange(0, i as int)) + seq![
                    s@[i as int],
                ]);
                assert(f_next.drop_last() =~= spec_filter_digits(s@.subrange(0, i as int)));
            }
            if next > 0x7fffffff {
                proof {
                    let f_all = spec_filter_digits(s@);
                    lemma_filter_digits_prefix(s@, i + 1);
                    lemma_digits_value_nonneg(f_all);
                }
                return None;
            }
            acc = next;
            found = true;
        } else {
            proof {
                assert(spec_filter_digits(s@.subrange(0, i + 1)) =~= spec_filter_digits(
                    s@.subrange(0, i as int),
                ));
            }
        }
        i += 1;
    }
    proof {
        assert(s@.subrange(0, n as int) =~= s@);
    }
    if found {
        Some(acc as i32)
    } else {
        None
    }
}

/// The digits of a longer prefix extend those of a shorter one, so the
/// denoted number never shrinks as the text grows.
pub proof fn lemma_filter_digits_prefix(s: Seq<char>, k: int)
    requires
        0 <= k <= s.len(),
    ensures
        all_digit_chars(spec_filter_digits(s)),
        all_digit_chars(spec_filter_digits(s.subrange(0, k))),
        spec_digits_value(spec_filter_digits(s)) >= spec_digits_value(
            spec_filter_digits(s.subrange(0, k)),
        ),
    decreases s.len() - k,
{
    lemma_filter_all_digits(s);
    lemma_filter_all_digits(s.subrange(0, k));
    if k < s.len() {
        lemma_filter_digits_prefix(s, k + 1);
        assert(s.subrange(0, k + 1).drop_last() =~= s.subrange(0, k));
        assert(s.subrange(0, k + 1).last() == s[k]);
        let fk = spec_filter_digits(s.subrange(0, k));
        let fk1 = spec_filter_digits(s.subrange(0, k + 1));
        lemma_filter_all_digits(s.subrange(0, k + 1));
        lemma_digits_value_nonneg(fk);
        if is_digit_char(s[k]) {
            assert(fk1 =~= fk + seq![s[k]]);
            assert(fk1.drop_last() =~= fk);
            assert(spec_digits_value(fk1) == spec_digits_value(fk) * 10 + digit_val(s[k]));
        } else {
            assert(fk1 =~= fk);
        }
    } else {
        assert(s.subrange(0, k) =~= s);
    }
}

/// Whatever the text, its filtered digits are digits.
pub proof fn lemma_filter_all_digits(s: Seq<char>)
    ensures
        all_digit_chars(spec_filter_digits(s)),
    decreases s.len(),
{
    if s.len() > 0 {
        lemma_filter_all_digits(s.drop_last());
    }
}

} // verus!
