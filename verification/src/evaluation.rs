//! Reading a value score out of an evaluation model's reply: the reply may
//! be a JSON object carrying a score, a bare number, or prose with digits
//! in it, and each path degrades to the next; the score is clamped to the
//! band limits either way.

use vstd::prelude::*;
use vstd::string::*;
use vstd::utf8::encode_utf8;

use crate::text::{
    filtered_digits_value,
    lemma_digits_value_nonneg,
    lemma_filter_all_digits,
    parse_i32,
    spec_digits_value,
    spec_filter_digits,
    spec_parse_i32,
    spec_trim_chars,
    trim_str,
};

verus! {

/// Index of the first occurrence of `c`, or -1.
pub open spec fn first_char_in(s: Seq<char>, c: char, i: int) -> int
    recommends
        0 <= i,
    decreases s.len() - i when 0 <= i <= s.len()
{
    if i >= s.len() {
        -1
    } else if s[i] == c {
        i
    } else {
        first_char_in(s, c, i + 1)
    }
}

/// Index of the last occurrence of `c`, or -1.
pub open spec fn last_char_in(s: Seq<char>, c: char) -> int
    decreases s.len(),
{
    if s.len() == 0 {
        -1
    } else if s.last() == c {
        s.len() - 1
    } else {
        last_char_in(s.drop_last(), c)
    }
}

fn find_char(s: &str, c: char) -> (r: Option<usize>)
    ensures
        match r {
            Some(i) => i == first_char_in(s@, c, 0),
            None => first_char_in(s@, c, 0) == -1,
        },
{
    let n = s.unicode_len();
    let mut i: usize = 0;
    while i < n
        invariant
            n == s@.len(),
            i <= n,
            first_char_in(s@, c, 0) == first_char_in(s@, c, i as int),
        decreases n - i,
    {
        if s.get_char(i) == c {
            return Some(i);
        }
        i += 1;
    }
    None
}

fn rfind_char(s: &str, c: char) -> (r: Option<usize>)
    ensures
        match r {
            Some(i) => i == last_char_in(s@, c),
            None => last_char_in(s@, c) == -1,
        },
{
    let n = s.unicode_len();
    let mut i: usize = n;
    proof {
        assert(s@.subrange(0, n as int) =~= s@);
    }
    while i > 0
        invariant
            n == s@.len(),
            i <= n,
            last_char_in(s@, c) == last_char_in(s@.subrange(0, i as int), c),
        decreases i,
    {
        proof {
            assert(s@.subrange(0, i as int).drop_last() =~= s@.subrange(0, i - 1));
            assert(s@.subrange(0, i as int).last() == s@[i - 1]);
        }
        if s.get_char(i - 1) == c {
            return Some(i - 1);
        }
        i -= 1;
    }
    None
}

/// The JSON block of a reply: the text between the first `{` and the last
/// `}`, both included; a reply without such a pair — a reversed pair
/// included — is taken whole.
pub open spec fn spec_brace_slice(s: Seq<char>) -> Seq<char> {
    let b = first_char_in(s, '{', 0);
    let e = last_char_in(s, '}');
    if b < 0 || e < b {
        s
    } else {
        s.subrange(b, e + 1)
    }
}

fn brace_slice(s: &str) -> (r: String)
    ensures
        r@ == spec_brace_slice(s@),
{
    let b = match find_char(s, '{') {
        Some(b) => b,
        None => {
            return s.to_owned();
        },
    };
    let e = match rfind_char(s, '}') {
        Some(e) => e,
        None => {
            return s.to_owned();
        },
    };
    let n = s.unicode_len();
    proof {
        lemma_first_char_props(s@, '{', 0);
        lemma_last_char_props(s@, '}');
        assert(e < n);
    }
    if e < b {
        return s.to_owned();
    }
    let part = s.substring_char(b, e + 1);
    part.to_owned()
}

proof fn lemma_first_char_props(s: Seq<char>, c: char, i: int)
    requires
        0 <= i <= s.len(),
    ensures
        ({
            let d = first_char_in(s, c, i);
            d == -1 || (i <= d && d < s.len())
        }),
    decreases s.len() - i,
{
    if i < s.len() && s[i] != c {
        lemma_first_char_props(s, c, i + 1);
    }
}

proof fn lemma_last_char_props(s: Seq<char>, c: char)
    ensures
        ({
            let d = last_char_in(s, c);
            d == -1 || (0 <= d && d < s.len())
        }),
    decreases s.len(),
{
    if s.len() > 0 && s.last() != c {
        lemma_last_char_props(s.drop_last(), c);
    }
}

/// The `score` field of a reply document: the value of its top-level
/// `score` member when the document is JSON and that member is an
/// integer; nothing otherwise. A function of the bytes alone.
pub uninterp spec fn spec_wire_score(bytes: Seq<u8>) -> Option<i64>;

/// Relies on serde_json::from_slice, Value::get and Value::as_i64: reads
/// the score field of a reply document, as the name's account says.
#[verifier::external_body]
fn read_score(bytes: &[u8]) -> (r: Option<i64>)
    ensures
        r == spec_wire_score(bytes@),
{
    let v: serde_json::Value = serde_json::from_slice(bytes).ok()?;
    v.get("score").and_then(serde_json::Value::as_i64)
}

/// A score held to the band limits.
pub open spec fn spec_clamp_score(n: int) -> int {
    if n < 0 {
        0
    } else if n > 100 {
        100
    } else {
        n
    }
}

/// The score of a reply whose JSON block read nothing: the whole trimmed
/// reply as a signed number, else the number its digits spell, else the
/// middle score.
pub open spec fn spec_fallback_score(t: Seq<char>) -> int {
    match spec_parse_i32(t) {
        Some(v) => spec_clamp_score(v),
        None => {
            let f = spec_filter_digits(t);
            if f.len() > 0 && spec_digits_value(f) <= 0x7fffffff {
                spec_clamp_score(spec_digits_value(f))
            } else {
                50
            }
        },
    }
}

fn clamp_score_i64(n: i64) -> (r: i32)
    ensures
        r as int == spec_clamp_score(n as int),
{
    if n < 0 {
        0
    } else if n > 100 {
        100
    } else {
        n as i32
    }
}

/// Reads the value score out of an evaluation reply: the named score of
/// its JSON block when the block carries one, else the trimmed reply as a
/// bare number, else the number its digits spell, else the middle score
/// of 50 — clamped to 0..=100 on every path, and exactly pinned on each.
pub fn parse_evaluation_score(response: &str) -> (score: i32)
    ensures
        0 <= score <= 100,
        score as int == (match spec_wire_score(
            encode_utf8(spec_brace_slice(spec_trim_chars(response@))),
        ) {
            Some(n) => spec_clamp_score(n as int),
            None => spec_fallback_score(spec_trim_chars(response@)),
        }),
{
    let trimmed = trim_str(response);
    let slice = brace_slice(trimmed.as_str());
    match read_score(slice.as_str().as_bytes()) {
        Some(n) => {
            return clamp_score_i64(n);
        },
        None => {},
    }
    match parse_i32(trimmed.as_str()) {
        Some(v) => {
            if v < 0 {
                0
            } else if v > 100 {
                100
            } else {
                v
            }
        },
        None => {
            match filtered_digits_value(trimmed.as_str()) {
                Some(v) => {
                    proof {
                        lemma_filter_all_digits(trimmed@);
                        lemma_digits_value_nonneg(spec_filter_digits(trimmed@));
                    }
                    if v > 100 {
                        100
                    } else {
                        v
                    }
                },
                None => 50,
            }
        },
    }
}

} // verus!
