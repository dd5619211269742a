//! Reading what the operator types: offsets, answers and keys.

use vstd::prelude::*;
use vstd::slice::slice_subrange;
use vstd::string::StringSliceAdditionalSpecFns;
use vstd::utf8::encode_utf8;
use crate::encrypt::ROOT_KEY_LEN;
use crate::number::{parse_hex, parse_hex_spec};
use crate::text::{all_alnum, byte_is_alnum, has_prefix, is_alnum, starts_with};

verus! {

/// Why an input was not accepted.
#[derive(Clone, Copy, Debug, PartialEq, Eq)]
pub enum ConfigError {
    /// Not a hexadecimal number that fits.
    BadHex,
    /// Not a root key.
    BadKeyFormat,
    /// The pattern for root keys was not accepted.
    BadPattern,
}

/// The answer that counts as consent at a yes/no prompt: one letter `y`, in either case.
pub open spec fn is_yes(s: Seq<u8>) -> bool {
    s.len() == 1 && (s[0] == 0x79u8 || s[0] == 0x59u8)
}

/// Reads a yes/no answer. Every answer is accepted; only `y` and `Y` consent.
pub fn confirm(s: &str) -> (r: bool)
    ensures
        r == is_yes(s.spec_bytes()),
{
    let b = s.as_bytes();
    b.len() == 1 && (b[0] == 0x79u8 || b[0] == 0x59u8)
}

/// The prefix that a hexadecimal number may carry.
pub open spec fn hex_mark() -> Seq<u8> {
    seq![0x30u8, 0x78u8]
}

/// The number that an input writes in hexadecimal, with or without `0x` before it.
pub open spec fn hex_input_value(s: Seq<u8>) -> Option<int> {
    if has_prefix(s, hex_mark()) {
        parse_hex_spec(s.subrange(2, s.len() as int), usize::MAX as int)
    } else {
        parse_hex_spec(s, usize::MAX as int)
    }
}

/// Reads an offset written in hexadecimal, with or without `0x` before it.
pub fn hex_to_usize(hex: &str) -> (r: Result<usize, ConfigError>)
    ensures
        match hex_input_value(hex.spec_bytes()) {
            Some(v) => r == Ok::<usize, ConfigError>(v as usize),
            None => r == Err::<usize, ConfigError>(ConfigError::BadHex),
        },
{
    let bytes = hex.as_bytes();
    let mark: [u8; 2] = [0x30, 0x78];
    assert(mark@ =~= hex_mark());
    let digits = if starts_with(bytes, mark.as_slice()) {
        slice_subrange(bytes, 2, bytes.len())
    } else {
        bytes
    };
    match parse_hex(digits, usize::MAX as u64) {
        Some(v) => Ok(v as usize),
        None => Err(ConfigError::BadHex),
    }
}

/// A character that `str::trim` takes away: one with the Unicode property White_Space.
pub open spec fn is_white_space(c: char) -> bool {
    let u = c as u32;
    (0x09 <= u <= 0x0d) || u == 0x20 || u == 0x85 || u == 0xa0 || u == 0x1680 || (0x2000 <= u
        <= 0x200a) || u == 0x2028 || u == 0x2029 || u == 0x202f || u == 0x205f || u == 0x3000
}

/// Number of white-space characters at the start of `s`.
pub open spec fn leading_white(s: Seq<char>) -> int
    decreases s.len(),
{
    if s.len() > 0 && is_white_space(s[0]) {
        1 + leading_white(s.drop_first())
    } else {
        0
    }
}

/// Number of white-space characters at the end of `s`.
pub open spec fn trailing_white(s: Seq<char>) -> int
    decreases s.len(),
{
    if s.len() > 0 && is_white_space(s.last()) {
        1 + trailing_white(s.drop_last())
    } else {
        0
    }
}

/// `s` without the white space at its two ends.
pub open spec fn trim_spec(s: Seq<char>) -> Seq<char> {
    if leading_white(s) >= s.len() {
        Seq::empty()
    } else {
        s.subrange(leading_white(s), s.len() - trailing_white(s))
    }
}

/// `str::trim`: the text without the white space at its two ends.
#[verifier::external_body]
fn trim(s: &str) -> (r: &str)
    ensures
        r@ == trim_spec(s@),
{
    s.trim()
}

/// What `regex::Regex::new(pattern)` and then `is_match(text)` give: whether the pattern
/// matches anywhere in the text, or nothing when the pattern is not accepted.
pub uninterp spec fn regex_matches(pattern: Seq<char>, text: Seq<char>) -> Option<bool>;

/// `regex::Regex::new`, then `Regex::is_match`.
#[verifier::external_body]
fn regex_is_match(pattern: &str, text: &str) -> (r: Option<bool>)
    ensures
        r == regex_matches(pattern@, text@),
{
    match regex::Regex::new(pattern) {
        Ok(re) => Some(re.is_match(text)),
        Err(_) => None,
    }
}

/// The pattern that a root key must match: 48 letters or digits in a row.
pub open spec fn key_pattern() -> Seq<char> {
    "[0-9a-zA-Z]{48}"@
}

/// What a match result means for a key.
pub open spec fn key_verdict_spec(key: Seq<char>, matched: Option<bool>) -> Result<
    Seq<char>,
    ConfigError,
> {
    match matched {
        Some(true) => Ok(key),
        Some(false) => Err(ConfigError::BadKeyFormat),
        None => Err(ConfigError::BadPattern),
    }
}

/// Accepts `key` when the pattern matched it.
pub fn key_verdict(key: &str, matched: Option<bool>) -> (r: Result<String, ConfigError>)
    ensures
        match key_verdict_spec(key@, matched) {
            Ok(k) => r is Ok && r->Ok_0@ == k,
            Err(e) => r == Err::<String, ConfigError>(e),
        },
{
    match matched {
        Some(true) => Ok(key.to_owned()),
        Some(false) => Err(ConfigError::BadKeyFormat),
        None => Err(ConfigError::BadPattern),
    }
}

/// The bytes are a root key: exactly `ROOT_KEY_LEN` of them, each a letter or a digit.
pub open spec fn is_root_key(bytes: Seq<u8>) -> bool {
    bytes.len() == ROOT_KEY_LEN && all_alnum(bytes)
}

/// Tells whether the bytes are a root key.
pub fn check_root_key(bytes: &[u8]) -> (r: bool)
    ensures
        r == is_root_key(bytes@),
{
    if bytes.len() != ROOT_KEY_LEN {
        return false;
    }
    let mut i: usize = 0;
    while i < bytes.len()
        invariant
            i <= bytes@.len(),
            forall|j: int| 0 <= j < i ==> is_alnum(#[trigger] bytes@[j]),
        decreases bytes@.len() - i,
    {
        if !byte_is_alnum(bytes[i]) {
            return false;
        }
        i += 1;
    }
    true
}

/// What reading a key gives: the text without the white space around it, when that is a
/// root key and the pattern matched it.
pub open spec fn input_key_spec(input: Seq<char>, matched: Option<bool>) -> Result<
    Seq<char>,
    ConfigError,
> {
    if !is_root_key(encode_utf8(trim_spec(input))) {
        Err(ConfigError::BadKeyFormat)
    } else {
        key_verdict_spec(trim_spec(input), matched)
    }
}

/// Reads a root key: the input without the white space around it. It is accepted only
/// when it is exactly `ROOT_KEY_LEN` letters and digits; the pattern for root keys is asked
/// too.
pub fn valid_input_key(input_key: &str) -> (r: Result<String, ConfigError>)
    ensures
        match input_key_spec(input_key@, regex_matches(key_pattern(), trim_spec(input_key@))) {
            Ok(k) => r is Ok && r->Ok_0@ == k,
            Err(e) => r == Err::<String, ConfigError>(e),
        },
        r is Ok ==> is_root_key(encode_utf8(r->Ok_0@)),
{
    let key = trim(input_key);
    if !check_root_key(key.as_bytes()) {
        return Err(ConfigError::BadKeyFormat);
    }
    let matched = regex_is_match("[0-9a-zA-Z]{48}", key);
    key_verdict(key, matched)
}

} // verus!
