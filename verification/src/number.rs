//! Numbers as text: decimal rendering and hexadecimal parsing and rendering.

use vstd::prelude::*;

verus! {

/// The character of a decimal digit.
pub open spec fn digit_char(d: nat) -> char
    recommends
        d < 10,
{
    ((0x30 + d) as u8) as char
}

/// The decimal representation of `n`, without leading zeros.
pub open spec fn decimal(n: nat) -> Seq<char>
    decreases n,
{
    if n < 10 {
        seq![digit_char(n)]
    } else {
        decimal(n / 10).push(digit_char(n % 10))
    }
}

/// The decimal representation of `n`, with a minus sign when it is negative.
pub open spec fn signed_decimal(n: int) -> Seq<char> {
    if n < 0 {
        seq!['-'] + decimal((-n) as nat)
    } else {
        decimal(n as nat)
    }
}

/// `String::push` appends one character.
pub assume_specification[ String::push ](s: &mut String, c: char)
    ensures
        final(s)@ == old(s)@.push(c),
;

/// Appends the decimal representation of `n`.
pub fn push_decimal(out: &mut String, n: u64)
    ensures
        final(out)@ == old(out)@ + decimal(n as nat),
    decreases n,
{
    if n >= 10 {
        push_decimal(out, n / 10);
    }
    let d: u8 = (n % 10) as u8;
    out.push((0x30 + d) as char);
    assert(final(out)@ =~= old(out)@ + decimal(n as nat));
}

/// Appends the decimal representation of `n`, signed.
pub fn push_signed_decimal(out: &mut String, n: i64)
    ensures
        final(out)@ == old(out)@ + signed_decimal(n as int),
{
    if n < 0 {
        out.push('-');
        let m: u64 = (-(n as i128)) as u64;
        push_decimal(out, m);
        assert(final(out)@ =~= old(out)@ + signed_decimal(n as int));
    } else {
        push_decimal(out, n as u64);
    }
}

/// The value of a hexadecimal digit, in either case.
pub open spec fn hex_digit_value(b: u8) -> Option<int> {
    if 0x30 <= b <= 0x39 {
        Some(b - 0x30)
    } else if 0x61 <= b <= 0x66 {
        Some(b - 0x61 + 10)
    } else if 0x41 <= b <= 0x46 {
        Some(b - 0x41 + 10)
    } else {
        None
    }
}

pub open spec fn is_hex_digit(b: u8) -> bool {
    hex_digit_value(b) is Some
}

/// Every byte of `s` is a hexadecimal digit.
pub open spec fn all_hex(s: Seq<u8>) -> bool {
    forall|i: int| 0 <= i < s.len() ==> is_hex_digit(#[trigger] s[i])
}

/// The number that the hexadecimal digits `s` write, most significant digit first.
pub open spec fn hex_number(s: Seq<u8>) -> int
    decreases s.len(),
{
    if s.len() == 0 {
        0
    } else {
        hex_number(s.drop_last()) * 16 + hex_digit_value(s.last()).unwrap_or(0)
    }
}

/// The digits of an unsigned numeral: `s` itself, or what follows one leading `+`.
pub open spec fn hex_body(s: Seq<u8>) -> Seq<u8> {
    if s.len() > 0 && s[0] == 0x2b {
        s.subrange(1, s.len() as int)
    } else {
        s
    }
}

/// The value of the numeral `s` when it is an optional `+` and at least one hexadecimal digit
/// and its value is at most `max`.
pub open spec fn parse_hex_spec(s: Seq<u8>, max: int) -> Option<int> {
    let body = hex_body(s);
    if body.len() > 0 && all_hex(body) && hex_number(body) <= max {
        Some(hex_number(body))
    } else {
        None
    }
}

pub fn hex_digit(b: u8) -> (r: Option<u8>)
    ensures
        match r {
            Some(v) => hex_digit_value(b) == Some(v as int) && v < 16,
            None => hex_digit_value(b) is None,
        },
{
    if 0x30 <= b && b <= 0x39 {
        Some(b - 0x30)
    } else if 0x61 <= b && b <= 0x66 {
        Some(b - 0x61 + 10)
    } else if 0x41 <= b && b <= 0x46 {
        Some(b - 0x41 + 10)
    } else {
        None
    }
}

proof fn lemma_hex_number_nonneg(s: Seq<u8>)
    ensures
        hex_number(s) >= 0,
    decreases s.len(),
{
    if s.len() > 0 {
        lemma_hex_number_nonneg(s.drop_last());
    }
}

/// Appending digits never makes the number smaller.
proof fn lemma_hex_number_grows(s: Seq<u8>, n: int)
    requires
        0 <= n <= s.len(),
    ensures
        hex_number(s.subrange(0, n)) <= hex_number(s),
    decreases s.len() - n,
{
    if n < s.len() {
        lemma_hex_number_grows(s, n + 1);
        let t = s.subrange(0, n + 1);
        assert(t.drop_last() =~= s.subrange(0, n));
        lemma_hex_number_nonneg(s.subrange(0, n));
    } else {
        assert(s.subrange(0, n) =~= s);
    }
}

/// Parses an unsigned hexadecimal numeral: an optional `+`, then digits in either case.
pub fn parse_hex(s: &[u8], max: u64) -> (r: Option<u64>)
    ensures
        match r {
            Some(v) => parse_hex_spec(s@, max as int) == Some(v as int),
            None => parse_hex_spec(s@, max as int) is None,
        },
{
    let start: usize = if s.len() > 0 && s[0] == 0x2b {
        1
    } else {
        0
    };
    let ghost body = hex_body(s@);
    assert(body =~= s@.subrange(start as int, s@.len() as int));
    if start == s.len() {
        return None;
    }
    let mut acc: u64 = 0;
    let mut i: usize = start;
    while i < s.len()
        invariant
            start <= i <= s@.len(),
            body == s@.subrange(start as int, s@.len() as int),
            body == hex_body(s@),
            all_hex(body.subrange(0, i - start)),
            acc as int == hex_number(body.subrange(0, i - start)),
            acc <= max,
        decreases s@.len() - i,
    {
        let ghost seen = body.subrange(0, i - start);
        let ghost more = body.subrange(0, i + 1 - start);
        proof {
            assert(more.drop_last() =~= seen);
            assert(more.last() == s@[i as int]);
        }
        match hex_digit(s[i]) {
            None => {
                assert(body[i - start] == s@[i as int]);
                assert(!is_hex_digit(body[i - start]));
                return None;
            },
            Some(d) => {
                let next: u128 = acc as u128 * 16 + d as u128;
                if next > max as u128 {
                    proof {
                        assert(hex_number(more) > max);
                        lemma_hex_number_grows(body, i + 1 - start);
                    }
                    return None;
                }
                acc = next as u64;
                proof {
                    assert forall|j: int| 0 <= j < more.len() implies is_hex_digit(
                        #[trigger] more[j],
                    ) by {
                        if j < seen.len() {
                            assert(more[j] == seen[j]);
                        }
                    }
                }
            },
        }
        i += 1;
    }
    assert(body.subrange(0, i - start) =~= body);
    Some(acc)
}

/// Every byte of `s` is a decimal digit.
pub open spec fn all_digits(s: Seq<u8>) -> bool {
    forall|i: int| 0 <= i < s.len() ==> 0x30 <= #[trigger] s[i] <= 0x39
}

/// The number that the decimal digits `s` write.
pub open spec fn dec_number(s: Seq<u8>) -> int
    decreases s.len(),
{
    if s.len() == 0 {
        0
    } else {
        dec_number(s.drop_last()) * 10 + (s.last() - 0x30)
    }
}

/// The value of the numeral `s` when it is made of at least one decimal digit and its value
/// is at most `max`.
pub open spec fn parse_dec_spec(s: Seq<u8>, max: int) -> Option<int> {
    if s.len() > 0 && all_digits(s) && dec_number(s) <= max {
        Some(dec_number(s))
    } else {
        None
    }
}

proof fn lemma_dec_number_grows(s: Seq<u8>, n: int)
    requires
        0 <= n <= s.len(),
        all_digits(s),
    ensures
        0 <= dec_number(s.subrange(0, n)) <= dec_number(s),
    decreases s.len() - n,
{
    if n < s.len() {
        lemma_dec_number_grows(s, n + 1);
        let t = s.subrange(0, n + 1);
        assert(t.drop_last() =~= s.subrange(0, n));
        assert(t.last() == s[n]);
        lemma_dec_number_nonneg(s.subrange(0, n));
    } else {
        assert(s.subrange(0, n) =~= s);
        lemma_dec_number_nonneg(s);
    }
}

proof fn lemma_dec_number_nonneg(s: Seq<u8>)
    requires
        all_digits(s),
    ensures
        dec_number(s) >= 0,
    decreases s.len(),
{
    if s.len() > 0 {
        let t = s.drop_last();
        assert forall|i: int| 0 <= i < t.len() implies 0x30 <= #[trigger] t[i] <= 0x39 by {
            assert(t[i] == s[i]);
        }
        lemma_dec_number_nonneg(t);
    }
}

/// Parses an unsigned decimal numeral made of digits alone.
pub fn parse_dec(s: &[u8], max: u64) -> (r: Option<u64>)
    ensures
        match r {
            Some(v) => parse_dec_spec(s@, max as int) == Some(v as int),
            None => parse_dec_spec(s@, max as int) is None,
        },
{
    if s.len() == 0 {
        return None;
    }
    let mut i: usize = 0;
    while i < s.len()
        invariant
            i <= s@.len(),
            all_digits(s@.subrange(0, i as int)),
        decreases s@.len() - i,
    {
        if s[i] < 0x30 || s[i] > 0x39 {
            return None;
        }
        i += 1;
        assert forall|j: int| 0 <= j < i implies 0x30 <= #[trigger] s@.subrange(0, i as int)[j]
            <= 0x39 by {
            if j < i - 1 {
                assert(s@.subrange(0, i as int)[j] == s@.subrange(0, i - 1)[j]);
            }
        }
    }
    assert(s@.subrange(0, i as int) =~= s@);
    let mut acc: u64 = 0;
    let mut k: usize = 0;
    while k < s.len()
        invariant
            k <= s@.len(),
            all_digits(s@),
            acc as int == dec_number(s@.subrange(0, k as int)),
            acc <= max,
        decreases s@.len() - k,
    {
        let ghost more = s@.subrange(0, k + 1);
        proof {
            assert(more.drop_last() =~= s@.subrange(0, k as int));
            assert(more.last() == s@[k as int]);
        }
        let d: u8 = s[k] - 0x30;
        let next: u128 = acc as u128 * 10 + d as u128;
        if next > max as u128 {
            proof {
                lemma_dec_number_grows(s@, k + 1);
            }
            return None;
        }
        acc = next as u64;
        k += 1;
    }
    assert(s@.subrange(0, k as int) =~= s@);
    Some(acc)
}

/// The value of the numeral `s` when it is an optional `+` and at least one decimal digit and
/// its value is at most `max`.
pub open spec fn parse_unsigned_spec(s: Seq<u8>, max: int) -> Option<int> {
    parse_dec_spec(hex_body(s), max)
}

/// Parses an unsigned decimal numeral: an optional `+`, then digits.
pub fn parse_unsigned(s: &[u8], max: u64) -> (r: Option<u64>)
    ensures
        match r {
            Some(v) => parse_unsigned_spec(s@, max as int) == Some(v as int),
            None => parse_unsigned_spec(s@, max as int) is None,
        },
{
    if s.len() > 0 && s[0] == 0x2b {
        parse_dec(vstd::slice::slice_subrange(s, 1, s.len()), max)
    } else {
        parse_dec(s, max)
    }
}

/// The lower-case hexadecimal digit of a value below 16.
pub open spec fn hex_lower(v: int) -> u8
    recommends
        0 <= v < 16,
{
    if v < 10 {
        (0x30 + v) as u8
    } else {
        (0x61 + v - 10) as u8
    }
}

/// The two lower-case hexadecimal digits of a byte.
pub open spec fn hex_pair(b: u8) -> Seq<u8> {
    seq![hex_lower(b as int / 16), hex_lower(b as int % 16)]
}

/// The value of two hexadecimal digits.
pub open spec fn pair_value(hi: u8, lo: u8) -> Option<u8> {
    match (hex_digit_value(hi), hex_digit_value(lo)) {
        (Some(h), Some(l)) => Some((h * 16 + l) as u8),
        _ => None,
    }
}

pub fn hex_lower_digit(v: u8) -> (r: u8)
    requires
        v < 16,
    ensures
        r == hex_lower(v as int),
        hex_digit_value(r) == Some(v as int),
{
    if v < 10 {
        0x30 + v
    } else {
        0x61 + (v - 10)
    }
}

/// Appends the two lower-case hexadecimal digits of `b`.
pub fn push_hex_pair(out: &mut Vec<u8>, b: u8)
    ensures
        final(out)@ == old(out)@ + hex_pair(b),
        pair_value(hex_pair(b)[0], hex_pair(b)[1]) == Some(b),
{
    let hi: u8 = hex_lower_digit(b / 16);
    let lo: u8 = hex_lower_digit(b % 16);
    out.push(hi);
    out.push(lo);
    assert(final(out)@ =~= old(out)@ + hex_pair(b));
}

/// Reads two hexadecimal digits as a byte.
pub fn parse_hex_pair(hi: u8, lo: u8) -> (r: Option<u8>)
    ensures
        r == pair_value(hi, lo),
{
    match hex_digit(hi) {
        None => None,
        Some(h) => match hex_digit(lo) {
            None => None,
            Some(l) => Some(h * 16 + l),
        },
    }
}

} // verus!
