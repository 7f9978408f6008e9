//! Work on the characters of strings: cutting at a separator, reading
//! numbers, and reading UTF-8.

use crate::error::{Error, ErrorKind};
use vstd::prelude::*;
use vstd::string::{StringExecFns, StringSliceAdditionalSpecFns};

verus! {

/// `str::eq`: two strings are equal when they hold the same characters.
#[verifier::external_body]
pub(crate) fn str_eq(a: &str, b: &str) -> (same: bool)
    ensures
        same == (a@ == b@),
{
    a == b
}

/// `String::from_iter` over characters: the string that holds just these
/// characters, in this order.
#[verifier::external_body]
pub(crate) fn string_from_chars(chars: &Vec<char>) -> (text: String)
    ensures
        text@ == chars@,
{
    String::from_iter(chars.iter())
}

/// The characters of a string, in order.
pub fn chars_of(text: &str) -> (chars: Vec<char>)
    ensures
        chars@ == text@,
{
    let mut chars: Vec<char> = Vec::new();
    for c in it: text.chars()
        invariant
            chars@ == it.seq().subrange(0, it.index() as int),
            it.seq() == text@,
    {
        chars.push(c);
    }
    chars
}

/// The index of the first `sep` in `s` at or after `from`, or the length of
/// `s` where there is none.
pub open spec fn first_sep(s: Seq<char>, sep: char, from: int) -> int
    decreases s.len() - from,
{
    if from < 0 || from >= s.len() {
        s.len() as int
    } else if s[from] == sep {
        from
    } else {
        first_sep(s, sep, from + 1)
    }
}

/// The pieces of `s` from `from` on, cut at each `sep`. There is always at
/// least one piece; a `sep` at the end leaves an empty last piece. (The
/// first separator never lies before `from`; that it does not is said so
/// that the cutting is seen to end.)
pub open spec fn split_from(s: Seq<char>, sep: char, from: int) -> Seq<Seq<char>>
    decreases s.len() - from,
{
    let end = first_sep(s, sep, from);
    if from < 0 || from > s.len() {
        Seq::empty()
    } else if end >= s.len() {
        seq![s.subrange(from, s.len() as int)]
    } else if end < from {
        Seq::empty()
    } else {
        seq![s.subrange(from, end)] + split_from(s, sep, end + 1)
    }
}

/// The pieces of `s`, cut at each `sep`.
pub open spec fn split_on(s: Seq<char>, sep: char) -> Seq<Seq<char>> {
    split_from(s, sep, 0)
}

/// The view of a vector of strings: the characters of each.
pub open spec fn strings_view(v: Seq<String>) -> Seq<Seq<char>> {
    Seq::new(v.len(), |i: int| v[i]@)
}

/// The first separator is found at or after the start, and nothing before
/// it is one.
pub proof fn lemma_first_sep(s: Seq<char>, sep: char, from: int)
    requires
        0 <= from <= s.len(),
    ensures
        from <= first_sep(s, sep, from) <= s.len(),
        first_sep(s, sep, from) < s.len() ==> s[first_sep(s, sep, from)] == sep,
        forall|j: int| from <= j < first_sep(s, sep, from) ==> s[j] != sep,
    decreases s.len() - from,
{
    if from < s.len() && s[from] != sep {
        lemma_first_sep(s, sep, from + 1);
    }
}

/// A stretch without separator does not change where the first one is.
pub proof fn lemma_first_sep_skip(s: Seq<char>, sep: char, from: int, to: int)
    requires
        0 <= from <= to <= s.len(),
        forall|j: int| from <= j < to ==> s[j] != sep,
    ensures
        first_sep(s, sep, from) == first_sep(s, sep, to),
    decreases to - from,
{
    if from < to {
        lemma_first_sep_skip(s, sep, from + 1, to);
    }
}

/// A text has at most one piece more than it has characters.
pub proof fn lemma_split_len(s: Seq<char>, sep: char, from: int)
    requires
        0 <= from <= s.len(),
    ensures
        1 <= split_from(s, sep, from).len() <= s.len() - from + 1,
    decreases s.len() - from,
{
    lemma_first_sep(s, sep, from);
    let end = first_sep(s, sep, from);
    if end < s.len() {
        lemma_split_len(s, sep, end + 1);
    }
}

/// What each vector of characters holds.
pub open spec fn chars_views(pieces: Seq<Vec<char>>) -> Seq<Seq<char>> {
    Seq::new(pieces.len(), |i: int| pieces[i]@)
}

/// Cuts a row of characters at each `sep`.
pub fn split_chars(chars: &Vec<char>, sep: char) -> (parts: Vec<Vec<char>>)
    ensures
        chars_views(parts@) == split_on(chars@, sep),
        parts@.len() >= 1,
{
    let n = chars.len();
    let ghost text = chars@;
    let mut parts: Vec<Vec<char>> = Vec::new();
    let mut current: Vec<char> = Vec::new();
    let mut start: usize = 0;
    let mut i: usize = 0;
    assert(chars_views(parts@) =~= Seq::empty());
    assert(current@ =~= chars@.subrange(0, 0));
    while i < n
        invariant
            chars@ == text,
            n == chars@.len(),
            0 <= start <= i <= n,
            current@ == chars@.subrange(start as int, i as int),
            forall|j: int| start <= j < i ==> chars@[j] != sep,
            split_on(text, sep) == chars_views(parts@) + split_from(text, sep, start as int),
        decreases n - i,
    {
        if chars[i] == sep {
            proof {
                lemma_first_sep_skip(text, sep, start as int, i as int);
                assert(first_sep(text, sep, i as int) == i);
            }
            let ghost before = chars_views(parts@);
            parts.push(current);
            assert(chars_views(parts@) =~= before + seq![text.subrange(start as int, i as int)]);
            current = Vec::new();
            start = i + 1;
            assert(current@ =~= chars@.subrange(start as int, i as int + 1));
        } else {
            current.push(chars[i]);
            assert(current@ =~= chars@.subrange(start as int, i as int + 1));
        }
        i += 1;
    }
    proof {
        lemma_first_sep_skip(text, sep, start as int, n as int);
        assert(first_sep(text, sep, n as int) == n);
    }
    let ghost before = chars_views(parts@);
    parts.push(current);
    assert(chars_views(parts@) =~= before + seq![text.subrange(start as int, n as int)]);
    parts
}

/// Cuts `text` at each `sep`.
pub fn split(text: &str, sep: char) -> (parts: Vec<String>)
    ensures
        strings_view(parts@) == split_on(text@, sep),
        parts@.len() >= 1,
{
    let chars = chars_of(text);
    let pieces = split_chars(&chars, sep);
    let n = pieces.len();
    let mut parts: Vec<String> = Vec::new();
    let mut i: usize = 0;
    while i < n
        invariant
            n == pieces@.len(),
            i <= n,
            parts@.len() == i,
            forall|j: int| 0 <= j < i ==> (#[trigger] parts@[j])@ == pieces@[j]@,
        decreases n - i,
    {
        parts.push(string_from_chars(&pieces[i]));
        i += 1;
    }
    assert(strings_view(parts@) =~= chars_views(pieces@));
    parts
}

/// Whether `c` is one of the ten decimal digits.
pub open spec fn is_digit(c: char) -> bool {
    '0' <= c <= '9'
}

/// Whether `s` is made of decimal digits only and holds at least one.
pub open spec fn is_digits(s: Seq<char>) -> bool {
    s.len() > 0 && forall|i: int| 0 <= i < s.len() ==> is_digit(#[trigger] s[i])
}

/// The number that a row of decimal digits denotes.
pub open spec fn decimal_value(s: Seq<char>) -> nat
    decreases s.len(),
{
    if s.len() == 0 {
        0
    } else {
        decimal_value(s.drop_last()) * 10 + (s.last() as nat - '0' as nat) as nat
    }
}

/// The number that `s` denotes as an unsigned integer: an optional `+`, then
/// digits whose value fits in `usize`.
pub open spec fn parsed_usize(s: Seq<char>) -> Option<usize> {
    let digits = if s.len() > 0 && s[0] == '+' {
        s.drop_first()
    } else {
        s
    };
    if is_digits(digits) && decimal_value(digits) <= usize::MAX {
        Some(decimal_value(digits) as usize)
    } else {
        None
    }
}

/// The number that `s` denotes as a signed 32-bit integer: an optional `+`
/// or `-`, then digits whose signed value fits in `i32`.
pub open spec fn parsed_i32(s: Seq<char>) -> Option<i32> {
    let negative = s.len() > 0 && s[0] == '-';
    let digits = if s.len() > 0 && (s[0] == '+' || s[0] == '-') {
        s.drop_first()
    } else {
        s
    };
    if !is_digits(digits) {
        None
    } else if negative {
        if decimal_value(digits) <= 0x8000_0000 {
            Some((-(decimal_value(digits) as int)) as i32)
        } else {
            None
        }
    } else {
        if decimal_value(digits) <= 0x7fff_ffff {
            Some(decimal_value(digits) as i32)
        } else {
            None
        }
    }
}

/// A longer row of digits denotes no smaller a number.
pub proof fn lemma_decimal_value_grows(s: Seq<char>, k: int)
    requires
        0 <= k <= s.len(),
        forall|i: int| 0 <= i < s.len() ==> is_digit(#[trigger] s[i]),
    ensures
        decimal_value(s.subrange(0, k)) <= decimal_value(s),
    decreases s.len() - k,
{
    if k == s.len() {
        assert(s.subrange(0, k) =~= s);
    } else {
        lemma_decimal_value_grows(s, k + 1);
        let longer = s.subrange(0, k + 1);
        assert(longer.drop_last() =~= s.subrange(0, k));
        assert(is_digit(s[k]));
        assert(longer.last() == s[k]);
    }
}

/// Reads the digits of `chars` from `from` on as a number of at most
/// `limit`; `None` where there is no digit, another character, or a larger
/// number.
fn parse_digits(chars: &Vec<char>, from: usize, limit: u64) -> (value: Option<u64>)
    requires
        from <= chars@.len(),
        9 <= limit,
    ensures
        ({
            let digits = chars@.subrange(from as int, chars@.len() as int);
            match value {
                Some(v) => is_digits(digits) && decimal_value(digits) == v && v <= limit,
                None => !is_digits(digits) || decimal_value(digits) > limit,
            }
        }),
{
    let n = chars.len();
    let ghost digits = chars@.subrange(from as int, n as int);
    if from == n {
        return None;
    }
    let mut value: u64 = 0;
    let mut i: usize = from;
    while i < n
        invariant
            from <= i <= n,
            n == chars@.len(),
            digits == chars@.subrange(from as int, n as int),
            forall|j: int| 0 <= j < i - from ==> is_digit(#[trigger] digits[j]),
            value == decimal_value(digits.subrange(0, i - from)),
            value <= limit,
            9 <= limit,
        decreases n - i,
    {
        let c = chars[i];
        assert(digits[i - from] == c);
        if c < '0' || c > '9' {
            return None;
        }
        let d: u64 = (c as u32 - '0' as u32) as u64;
        let ghost longer = digits.subrange(0, i - from + 1);
        proof {
            assert(longer.drop_last() =~= digits.subrange(0, i - from));
            assert(longer.last() == c);
            assert(decimal_value(longer) == value * 10 + d);
        }
        if value > (limit - d) / 10 {
            proof {
                assert(value * 10 + d > limit);
                if is_digits(digits) {
                    lemma_decimal_value_grows(digits, i - from + 1);
                }
            }
            return None;
        }
        value = value * 10 + d;
        i += 1;
    }
    assert(digits.subrange(0, n - from) =~= digits);
    Some(value)
}

/// Reads `text` as an unsigned integer, as `str::parse::<usize>` does.
pub fn parse_usize(text: &str) -> (value: Option<usize>)
    ensures
        value == parsed_usize(text@),
{
    let chars = chars_of(text);
    let from: usize = if chars.len() > 0 && chars[0] == '+' {
        1
    } else {
        0
    };
    proof {
        if from == 1 {
            assert(chars@.subrange(1, chars@.len() as int) =~= text@.drop_first());
        } else {
            assert(chars@.subrange(0, chars@.len() as int) =~= text@);
        }
    }
    match parse_digits(&chars, from, usize::MAX as u64) {
        Some(v) => Some(v as usize),
        None => None,
    }
}

/// Reads `text` as a signed 32-bit integer, as `str::parse::<i32>` does.
pub fn parse_i32(text: &str) -> (value: Option<i32>)
    ensures
        value == parsed_i32(text@),
{
    let chars = chars_of(text);
    let negative = chars.len() > 0 && chars[0] == '-';
    let from: usize = if chars.len() > 0 && (chars[0] == '+' || chars[0] == '-') {
        1
    } else {
        0
    };
    proof {
        if from == 1 {
            assert(chars@.subrange(1, chars@.len() as int) =~= text@.drop_first());
        } else {
            assert(chars@.subrange(0, chars@.len() as int) =~= text@);
        }
    }
    if negative {
        match parse_digits(&chars, from, 0x8000_0000) {
            Some(v) => Some((0 - v as i64) as i32),
            None => None,
        }
    } else {
        match parse_digits(&chars, from, 0x7fff_ffff) {
            Some(v) => Some(v as i32),
            None => None,
        }
    }
}


#[verifier::external_type_specification]
#[verifier::external_body]
pub struct ExUtf8Error(std::str::Utf8Error);

/// `str::from_utf8`: the string slice that holds just these bytes, and a
/// failure where the bytes are not UTF-8.
#[verifier::external_body]
pub(crate) fn str_from_utf8<'a>(bytes: &'a [u8]) -> (r: Result<&'a str, std::str::Utf8Error>)
    ensures
        match r {
            Ok(text) => vstd::utf8::valid_utf8(bytes@) && text.spec_bytes() == bytes@,
            Err(_) => !vstd::utf8::valid_utf8(bytes@),
        },
{
    std::str::from_utf8(bytes)
}

/// `Utf8Error::to_string`: the failure in words.
#[verifier::external_body]
pub(crate) fn utf8_error_text(error: &std::str::Utf8Error) -> (text: String) {
    error.to_string()
}

/// The text that `bytes` encode, as a string of its own; fails with
/// `InvalidUTF8String` where the bytes are not UTF-8.
pub fn decode_text(bytes: &[u8]) -> (r: Result<String, Error>)
    ensures
        match r {
            Ok(text) => {
                &&& vstd::utf8::valid_utf8(bytes@)
                &&& text@ == vstd::utf8::decode_utf8(bytes@)
                &&& vstd::utf8::encode_utf8(text@) == bytes@
            },
            Err(e) => !vstd::utf8::valid_utf8(bytes@) && e.kind() == ErrorKind::InvalidUTF8String,
        },
{
    match str_from_utf8(bytes) {
        Ok(text) => {
            proof {
                vstd::utf8::encode_utf8_decode_utf8(text@);
            }
            let owned = String::from_str(text);
            Ok(owned)
        },
        Err(e) => Err(Error::InvalidUTF8String(utf8_error_text(&e))),
    }
}

} // verus!
