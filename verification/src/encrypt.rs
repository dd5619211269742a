//! The cipher that hides the root key in a directory name.
//!
//! The key is put behind a random prefix, written in base64, and each byte of that text is
//! shifted by the byte before it in the output and mixed with a byte of the cipher key. The
//! output is written in hexadecimal, after the random byte that shifts the first one.

use vstd::prelude::*;
use vstd::slice::{slice_subrange, slice_to_vec};
use vstd::string::StringSliceAdditionalSpecFns;
use vstd::utf8::{decode_utf8, encode_utf8, encode_utf8_decode_utf8, encode_utf8_valid_utf8, valid_utf8};
use crate::number::{
    decimal, hex_digit_value, hex_lower, hex_pair, pair_value, parse_hex_pair, push_decimal,
    push_hex_pair,
};
use crate::text::{all_alnum, all_ascii, ascii_string, is_alnum, string_from_utf8};

verus! {

/// Length of a root key.
pub const ROOT_KEY_LEN: usize = 48;

/// Length of the random prefix that is put before a key.
pub const RANDOM_GUID_LEN: usize = 10;

/// What `base64`'s standard engine writes for `data`.
pub uninterp spec fn b64_encoded(data: Seq<u8>) -> Seq<u8>;

/// What `base64`'s standard engine reads from `text`, when it accepts it.
pub uninterp spec fn b64_decoded(text: Seq<u8>) -> Option<Seq<u8>>;

/// The length of padded base64 text for `n` bytes: four characters for every three bytes
/// or part of three.
pub open spec fn b64_len(n: nat) -> nat {
    4 * ((n + 2) / 3)
}

/// `base64::engine::general_purpose::STANDARD.encode`: the text is ASCII, holds no zero
/// byte, has four characters for every three bytes or part of three, and the same
/// engine's `decode` reads the data back from it.
#[verifier::external_body]
fn b64_encode(data: &[u8]) -> (r: Vec<u8>)
    requires
        data@.len() <= usize::MAX / 2,
    ensures
        r@ == b64_encoded(data@),
        r@.len() == b64_len(data@.len()),
        b64_decoded(r@) == Some(data@),
        forall|i: int| 0 <= i < r@.len() ==> 0 < #[trigger] r@[i] < 0x80,
{
    base64::Engine::encode(&base64::engine::general_purpose::STANDARD, data).into_bytes()
}

/// `base64::engine::general_purpose::STANDARD.decode`.
#[verifier::external_body]
fn b64_decode(text: &[u8]) -> (r: Option<Vec<u8>>)
    ensures
        match r {
            Some(v) => b64_decoded(text@) == Some(v@),
            None => b64_decoded(text@) is None,
        },
{
    base64::Engine::decode(&base64::engine::general_purpose::STANDARD, text).ok()
}

/// `rand::random::<u8>()`: any byte.
#[verifier::external_body]
fn random_byte() -> (r: u8) {
    rand::random::<u8>()
}

/// `rand::random::<usize>()`: any number.
#[verifier::external_body]
fn random_index() -> (r: usize) {
    rand::random::<usize>()
}

/// The day of the month of `time::OffsetDateTime::now_local()`, or of `now_utc()` when the
/// local offset cannot be had: from 1 to 31.
#[verifier::external_body]
fn today() -> (r: u8)
    ensures
        1 <= r <= 31,
{
    time::OffsetDateTime::now_local().unwrap_or_else(|_| time::OffsetDateTime::now_utc()).day()
}

/// One byte enciphered: shifted by `offset` modulo 255, then mixed with a key byte.
pub open spec fn enc_byte(b: u8, offset: u8, k: u8) -> u8 {
    (((b + offset) % 255) as u8) ^ k
}

/// One byte deciphered: unmixed, then shifted back modulo 255. An unmixed byte below the
/// offset is one that the shift carried past 255.
pub open spec fn dec_byte(v: u8, offset: u8, k: u8) -> u8 {
    let x = v ^ k;
    if x < offset {
        (x + 255 - offset) as u8
    } else {
        (x - offset) as u8
    }
}

/// The cipher stream of the first `n` bytes of `src`: the starting offset, then each byte
/// enciphered with the stream's byte before it as its offset and the key bytes taken in
/// turn.
pub open spec fn cipher_stream(src: Seq<u8>, key: Seq<u8>, offset: u8, n: int) -> Seq<u8>
    decreases n,
{
    if n <= 0 {
        seq![offset]
    } else {
        let before = cipher_stream(src, key, offset, n - 1);
        before.push(enc_byte(src[n - 1], before.last(), key[(n - 1) % (key.len() as int)]))
    }
}

/// What a cipher stream hides: each byte after the first deciphered with the byte before
/// it as its offset.
pub open spec fn decipher(stream: Seq<u8>, key: Seq<u8>) -> Seq<u8> {
    Seq::new(
        (stream.len() - 1) as nat,
        |i: int| dec_byte(stream[i + 1], stream[i], key[i % (key.len() as int)]),
    )
}

/// Bytes written in lower-case hexadecimal, two digits each.
pub open spec fn hex_text(bytes: Seq<u8>) -> Seq<u8> {
    Seq::new(
        2 * bytes.len(),
        |i: int|
            if i % 2 == 0 {
                hex_lower(bytes[i / 2] as int / 16)
            } else {
                hex_lower(bytes[i / 2] as int % 16)
            },
    )
}

/// A text is hexadecimal: an even number of hexadecimal digits.
pub open spec fn is_hex_text(text: Seq<u8>) -> bool {
    text.len() % 2 == 0 && forall|i: int| 0 <= i < text.len() ==> hex_digit_value(#[trigger] text[i]) is Some
}

/// The bytes that a hexadecimal text writes.
pub open spec fn unhex(text: Seq<u8>) -> Seq<u8> {
    Seq::new(
        text.len() / 2,
        |i: int| (hex_digit_value(text[2 * i]).unwrap() * 16 + hex_digit_value(text[2 * i + 1]).unwrap()) as u8,
    )
}

/// The cipher text of `src`: its cipher stream in hexadecimal.
pub open spec fn encry_text(src: Seq<u8>, key: Seq<u8>, offset: u8) -> Seq<u8> {
    hex_text(cipher_stream(src, key, offset, src.len() as int))
}

/// A cipher text can be deciphered: it is hexadecimal, holds at least the starting offset,
/// and there is a key byte for each byte after that.
pub open spec fn can_decipher(text: Seq<u8>, key: Seq<u8>) -> bool {
    is_hex_text(text) && text.len() >= 2 && (key.len() > 0 || text.len() == 2)
}

/// What a cipher text hides.
pub open spec fn uncry_text(text: Seq<u8>, key: Seq<u8>) -> Seq<u8> {
    decipher(unhex(text), key)
}

/// The root key in a deciphered and decoded blob: its last `ROOT_KEY_LEN` bytes, when it has
/// as many and they are valid UTF-8.
pub open spec fn root_key_in(blob: Seq<u8>) -> Option<Seq<char>> {
    if blob.len() >= ROOT_KEY_LEN && valid_utf8(
        blob.subrange(blob.len() - ROOT_KEY_LEN, blob.len() as int),
    ) {
        Some(decode_utf8(blob.subrange(blob.len() - ROOT_KEY_LEN, blob.len() as int)))
    } else {
        None
    }
}

/// The root key that a cipher text hides, when there is one: the text can be deciphered,
/// what it hides is base64, and the decoded blob holds a key.
pub open spec fn uncry_spec(text: Seq<u8>, key: Seq<u8>) -> Option<Seq<char>> {
    if !can_decipher(text, key) {
        None
    } else {
        match b64_decoded(uncry_text(text, key)) {
            Some(blob) => root_key_in(blob),
            None => None,
        }
    }
}

/// Counting modulo `m`: the next number's remainder is the next remainder, or zero after
/// the last.
proof fn lemma_next_mod(a: int, m: int)
    requires
        a >= 0,
        m > 0,
    ensures
        (a + 1) % m == if a % m == m - 1 {
            0
        } else {
            a % m + 1
        },
{
    vstd::arithmetic::div_mod::lemma_fundamental_div_mod(a, m);
    vstd::arithmetic::div_mod::lemma_mod_bound(a, m);
    assert((a / m + 1) * m == (a / m) * m + m) by (nonlinear_arith);
    assert(m * (a / m) == (a / m) * m) by (nonlinear_arith);
    if a % m == m - 1 {
        vstd::arithmetic::div_mod::lemma_fundamental_div_mod_converse(a + 1, m, a / m + 1, 0);
    } else {
        vstd::arithmetic::div_mod::lemma_fundamental_div_mod_converse(
            a + 1,
            m,
            a / m,
            a % m + 1,
        );
    }
}

proof fn lemma_xor_twice(x: u8, k: u8)
    ensures
        (x ^ k) ^ k == x,
{
    assert((x ^ k) ^ k == x) by (bit_vector);
}

/// Deciphering undoes enciphering for every byte but 255.
pub proof fn lemma_dec_enc(b: u8, offset: u8, k: u8)
    requires
        b < 255,
    ensures
        dec_byte(enc_byte(b, offset, k), offset, k) == b,
{
    let x = ((b + offset) % 255) as u8;
    lemma_xor_twice(x, k);
}

proof fn lemma_stream_len(src: Seq<u8>, key: Seq<u8>, offset: u8, n: int)
    requires
        0 <= n,
    ensures
        cipher_stream(src, key, offset, n).len() == n + 1,
    decreases n,
{
    if n > 0 {
        lemma_stream_len(src, key, offset, n - 1);
    }
}

proof fn lemma_stream_prefix(src: Seq<u8>, key: Seq<u8>, offset: u8, n: int, i: int)
    requires
        0 <= i <= n,
    ensures
        cipher_stream(src, key, offset, n).len() == n + 1,
        cipher_stream(src, key, offset, n)[i] == cipher_stream(src, key, offset, i)[i],
    decreases n,
{
    lemma_stream_len(src, key, offset, n);
    if i < n {
        lemma_stream_prefix(src, key, offset, n - 1, i);
        lemma_stream_len(src, key, offset, n - 1);
    }
}

/// A cipher stream hides its source, when the source holds no byte 255.
pub proof fn lemma_decipher_stream(src: Seq<u8>, key: Seq<u8>, offset: u8)
    requires
        key.len() > 0,
        forall|i: int| 0 <= i < src.len() ==> #[trigger] src[i] < 255,
    ensures
        decipher(cipher_stream(src, key, offset, src.len() as int), key) == src,
{
    let n = src.len() as int;
    let stream = cipher_stream(src, key, offset, n);
    lemma_stream_len(src, key, offset, n);
    assert forall|i: int| 0 <= i < n implies decipher(stream, key)[i] == src[i] by {
        lemma_stream_prefix(src, key, offset, n, i + 1);
        lemma_stream_prefix(src, key, offset, n, i);
        lemma_stream_len(src, key, offset, i);
        let before = cipher_stream(src, key, offset, i);
        lemma_stream_prefix(src, key, offset, i + 1, i);
        assert(cipher_stream(src, key, offset, i + 1) == before.push(
            enc_byte(src[i], before.last(), key[i % (key.len() as int)]),
        ));
        lemma_dec_enc(src[i], before.last(), key[i % (key.len() as int)]);
    }
    assert(decipher(stream, key) =~= src);
}

/// Hexadecimal text reads back as the bytes it was written from.
pub proof fn lemma_unhex_hex(bytes: Seq<u8>)
    ensures
        is_hex_text(hex_text(bytes)),
        unhex(hex_text(bytes)) == bytes,
        all_ascii(hex_text(bytes)),
{
    let t = hex_text(bytes);
    assert forall|i: int| 0 <= i < t.len() implies hex_digit_value(#[trigger] t[i]) is Some && t[i]
        < 0x80 by {
        let b = bytes[i / 2] as int;
        assert(0 <= b / 16 < 16 && 0 <= b % 16 < 16);
    }
    assert forall|i: int| 0 <= i < bytes.len() implies unhex(t)[i] == bytes[i] by {
        let b = bytes[i] as int;
        assert(t[2 * i] == hex_lower(b / 16));
        assert(t[2 * i + 1] == hex_lower(b % 16));
        assert(0 <= b / 16 < 16 && 0 <= b % 16 < 16);
        assert(hex_digit_value(hex_lower(b / 16)) == Some(b / 16));
        assert(hex_digit_value(hex_lower(b % 16)) == Some(b % 16));
    }
    assert(unhex(t) =~= bytes);
}

/// A cipher text can be deciphered, and hides the text it was made from when that text
/// is ASCII.
pub proof fn lemma_hidden_text(text: Seq<u8>, key: Seq<u8>, offset: u8)
    requires
        key.len() > 0,
        forall|i: int| 0 <= i < text.len() ==> 0 < #[trigger] text[i] < 0x80,
    ensures
        can_decipher(encry_text(text, key, offset), key),
        uncry_text(encry_text(text, key, offset), key) == text,
        encry_text(text, key, offset).len() == 2 + 2 * text.len(),
{
    let stream = cipher_stream(text, key, offset, text.len() as int);
    lemma_stream_len(text, key, offset, text.len() as int);
    lemma_unhex_hex(stream);
    lemma_decipher_stream(text, key, offset);
}

/// A blob that ends with the UTF-8 bytes of a text of the length of a root key holds that
/// text as its key.
pub proof fn lemma_key_found(blob: Seq<u8>, key_text: Seq<char>)
    requires
        blob.len() >= ROOT_KEY_LEN,
        blob.subrange(blob.len() - ROOT_KEY_LEN, blob.len() as int) == encode_utf8(key_text),
    ensures
        root_key_in(blob) == Some(key_text),
{
    encode_utf8_valid_utf8(key_text);
    encode_utf8_decode_utf8(key_text);
}

/// Enciphers `base64_src` with `key`, beginning with the offset `offset`.
pub fn encipher(base64_src: &[u8], key: &[u8], offset: u8) -> (r: Vec<u8>)
    requires
        key@.len() > 0,
    ensures
        r@ == encry_text(base64_src@, key@, offset),
        all_ascii(r@),
{
    let mut out: Vec<u8> = Vec::new();
    push_hex_pair(&mut out, offset);
    let ghost mut stream = seq![offset];
    assert(out@ =~= hex_text(stream));
    let mut last: u8 = offset;
    let mut key_pos: usize = 0;
    let mut i: usize = 0;
    while i < base64_src.len()
        invariant
            i <= base64_src@.len(),
            key@.len() > 0,
            key_pos < key@.len(),
            key_pos == (i as int) % (key@.len() as int),
            stream == cipher_stream(base64_src@, key@, offset, i as int),
            stream.len() == i + 1,
            last == stream.last(),
            out@ == hex_text(stream),
        decreases base64_src@.len() - i,
    {
        let shifted: u8 = ((base64_src[i] as u16 + last as u16) % 255) as u8;
        let v: u8 = shifted ^ key[key_pos];
        push_hex_pair(&mut out, v);
        proof {
            let next = stream.push(v);
            assert(hex_text(next) =~= hex_text(stream) + hex_pair(v));
            stream = next;
        }
        last = v;
        if key_pos < key.len() - 1 {
            key_pos += 1;
        } else {
            key_pos = 0;
        }
        i += 1;
        proof {
            lemma_next_mod(i - 1, key@.len() as int);
        }
    }
    proof {
        lemma_unhex_hex(stream);
    }
    out
}

/// Enciphers `base64_src` with `key`, beginning with a random offset.
pub fn _encry(base64_src: &[u8], key: &str) -> (r: String)
    requires
        key.spec_bytes().len() > 0,
    ensures
        exists|offset: u8| encode_utf8(r@) == encry_text(base64_src@, key.spec_bytes(), offset),
{
    let offset = random_byte();
    ascii_string(encipher(base64_src, key.as_bytes(), offset))
}

/// Deciphers a cipher text. There is no result when the text cannot be deciphered.
pub fn _uncry(src: &[u8], key: &[u8]) -> (r: Option<Vec<u8>>)
    ensures
        match r {
            Some(v) => can_decipher(src@, key@) && v@ == uncry_text(src@, key@),
            None => !can_decipher(src@, key@),
        },
{
    let n: usize = src.len();
    if n < 2 || n % 2 != 0 || (key.len() == 0 && n != 2) {
        return None;
    }
    let mut offset: u8 = match parse_hex_pair(src[0], src[1]) {
        Some(v) => v,
        None => {
            return None;
        },
    };
    let ghost stream = unhex(src@);
    let mut out: Vec<u8> = Vec::new();
    let mut key_pos: usize = 0;
    let mut i: usize = 2;
    while i < n
        invariant
            2 <= i <= n,
            i % 2 == 0,
            n == src@.len(),
            n % 2 == 0,
            key@.len() > 0 || n == 2,
            key@.len() > 0 ==> key_pos == (i / 2 - 1) % (key@.len() as int),
            stream == unhex(src@),
            forall|j: int| 0 <= j < i ==> hex_digit_value(#[trigger] src@[j]) is Some,
            offset == stream[(i / 2) as int - 1],
            out@ == Seq::new(
                (i / 2 - 1) as nat,
                |j: int| dec_byte(stream[j + 1], stream[j], key@[j % (key@.len() as int)]),
            ),
        decreases n - i,
    {
        let v: u8 = match parse_hex_pair(src[i], src[i + 1]) {
            Some(v) => v,
            None => {
                return None;
            },
        };
        assert(v == stream[(i / 2) as int]);
        let x: u8 = v ^ key[key_pos];
        let b: u8 = if x < offset {
            x + (255 - offset)
        } else {
            x - offset
        };
        out.push(b);
        offset = v;
        if key_pos < key.len() - 1 {
            key_pos += 1;
        } else {
            key_pos = 0;
        }
        proof {
            if key@.len() > 0 {
                lemma_next_mod(i / 2 - 1, key@.len() as int);
            }
        }
        i += 2;
        assert(out@ =~= Seq::new(
            (i / 2 - 1) as nat,
            |j: int| dec_byte(stream[j + 1], stream[j], key@[j % (key@.len() as int)]),
        ));
    }
    assert(out@ =~= decipher(stream, key@));
    Some(out)
}

/// The root key in a deciphered and decoded blob: its last `ROOT_KEY_LEN` bytes.
pub fn root_key_from(blob: &[u8]) -> (r: Option<String>)
    ensures
        match r {
            Some(s) => root_key_in(blob@) == Some(s@),
            None => root_key_in(blob@) is None,
        },
{
    if blob.len() < ROOT_KEY_LEN {
        return None;
    }
    string_from_utf8(slice_to_vec(slice_subrange(blob, blob.len() - ROOT_KEY_LEN, blob.len())))
}

/// The root key that the cipher text `src` hides under `key`, when there is one.
pub fn uncry_bytes(src: &[u8], key: &[u8]) -> (r: Option<String>)
    ensures
        match r {
            Some(s) => uncry_spec(src@, key@) == Some(s@),
            None => uncry_spec(src@, key@) is None,
        },
{
    let hidden = match _uncry(src, key) {
        Some(v) => v,
        None => {
            return None;
        },
    };
    match b64_decode(hidden.as_slice()) {
        Some(blob) => root_key_from(blob.as_slice()),
        None => None,
    }
}

/// The root key that the cipher text `src` hides under `key`, when there is one.
pub fn try_uncry(src: &str, key: &str) -> (r: Option<String>)
    ensures
        match r {
            Some(s) => uncry_spec(src.spec_bytes(), key.spec_bytes()) == Some(s@),
            None => uncry_spec(src.spec_bytes(), key.spec_bytes()) is None,
        },
{
    match uncry_bytes(src.as_bytes(), key.as_bytes()) {
        Some(_) => Some(uncry(src, key)),
        None => None,
    }
}

/// The root key that the cipher text `src` hides under `key`.
pub fn uncry(src: &str, key: &str) -> (r: String)
    requires
        uncry_spec(src.spec_bytes(), key.spec_bytes()) is Some,
    ensures
        uncry_spec(src.spec_bytes(), key.spec_bytes()) == Some(r@),
{
    match uncry_bytes(src.as_bytes(), key.as_bytes()) {
        Some(s) => s,
        None => String::new(),
    }
}

/// The pool that random text is drawn from: the letters in both cases and the digits.
pub open spec fn chars_pool() -> Seq<u8> {
    Seq::new(
        62,
        |i: int|
            if i < 26 {
                (0x61 + i) as u8
            } else if i < 52 {
                (0x41 + i - 26) as u8
            } else {
                (0x30 + i - 52) as u8
            },
    )
}

/// The pool's byte for a random number.
pub fn pool_byte(n: usize) -> (r: u8)
    ensures
        r == chars_pool()[(n % 62) as int],
        is_alnum(r),
{
    let i: u8 = (n % 62) as u8;
    if i < 26 {
        0x61 + i
    } else if i < 52 {
        0x41 + (i - 26)
    } else {
        0x30 + (i - 52)
    }
}

/// Random text of `len` letters and digits.
pub fn get_random_str(len: usize) -> (r: Vec<u8>)
    ensures
        r@.len() == len,
        all_alnum(r@),
{
    let mut out: Vec<u8> = Vec::with_capacity(len);
    let mut i: usize = 0;
    while i < len
        invariant
            i <= len,
            out@.len() == i,
            all_alnum(out@),
        decreases len - i,
    {
        out.push(pool_byte(random_index()));
        i += 1;
    }
    out
}

/// A random root key: `ROOT_KEY_LEN` letters and digits.
pub fn generate_random_root_key() -> (r: String)
    ensures
        encode_utf8(r@).len() == ROOT_KEY_LEN,
        all_alnum(encode_utf8(r@)),
{
    let bytes = get_random_str(ROOT_KEY_LEN);
    assert(all_ascii(bytes@)) by {
        assert forall|i: int| 0 <= i < bytes@.len() implies #[trigger] bytes@[i] < 0x80 by {
            assert(is_alnum(bytes@[i]));
        }
    }
    ascii_string(bytes)
}

/// The cipher key of a day of the month: the day times `RANDOM_GUID_LEN`, in decimal.
pub open spec fn default_key_text(day: u8) -> Seq<char> {
    decimal((day * RANDOM_GUID_LEN) as nat)
}

/// The cipher key of a day of the month.
pub fn default_key_for_day(day: u8) -> (r: String)
    ensures
        r@ == default_key_text(day),
{
    let mut out = String::new();
    push_decimal(&mut out, day as u64 * RANDOM_GUID_LEN as u64);
    assert(out@ =~= default_key_text(day));
    out
}

/// The cipher key of today.
pub fn get_default_key() -> (r: String)
    ensures
        exists|day: u8| 1 <= day <= 31 && r@ == #[trigger] default_key_text(day),
{
    default_key_for_day(today())
}

/// `text` hides `plain` under `key`, beginning with `offset`: it is the cipher text of the
/// base64 text of `plain`; it has two digits for the offset and two for each character of
/// base64; deciphering it gives the base64 text back, and decoding that gives `plain`.
pub open spec fn hides(text: Seq<u8>, plain: Seq<u8>, key: Seq<u8>, offset: u8) -> bool {
    &&& text == encry_text(b64_encoded(plain), key, offset)
    &&& text.len() == 2 + 2 * b64_len(plain.len())
    &&& can_decipher(text, key)
    &&& uncry_text(text, key) == b64_encoded(plain)
    &&& b64_decoded(b64_encoded(plain)) == Some(plain)
}

/// Hides `src` under `key`: enciphers the base64 text of `prefix` and `src`, beginning
/// with `offset`. Deciphering the result with the same key and decoding it gives `prefix`
/// and `src` back, whatever they are; so the last bytes of that are `src`, and `uncry`
/// finds `src` when it has the length of a root key.
pub fn encry_with(src: &str, key: &str, prefix: &[u8], offset: u8) -> (r: String)
    requires
        key.spec_bytes().len() > 0,
        prefix@.len() + src.spec_bytes().len() <= usize::MAX / 2,
    ensures
        hides(encode_utf8(r@), prefix@ + src.spec_bytes(), key.spec_bytes(), offset),
        src.spec_bytes().len() == ROOT_KEY_LEN ==> uncry_spec(encode_utf8(r@), key.spec_bytes())
            == Some(src@),
{
    let mut plain: Vec<u8> = slice_to_vec(prefix);
    plain.extend_from_slice(src.as_bytes());
    assert(plain@ == prefix@ + src.spec_bytes());
    let text = b64_encode(plain.as_slice());
    let hidden = encipher(text.as_slice(), key.as_bytes(), offset);
    proof {
        lemma_hidden_text(text@, key.spec_bytes(), offset);
        if src.spec_bytes().len() == ROOT_KEY_LEN {
            assert(plain@.subrange(plain@.len() - ROOT_KEY_LEN, plain@.len() as int)
                =~= src.spec_bytes());
            lemma_key_found(plain@, src@);
        }
    }
    ascii_string(hidden)
}

/// Hides `src` under `key`, with a random prefix of `RANDOM_GUID_LEN` letters and digits
/// and a random starting offset. Whatever the random choices are, deciphering the result
/// with the same key and decoding it gives the prefix and `src` back, and `uncry` finds
/// `src` when it has the length of a root key.
pub fn encry(src: &str, key: &str) -> (r: String)
    requires
        key.spec_bytes().len() > 0,
        RANDOM_GUID_LEN + src.spec_bytes().len() <= usize::MAX / 2,
    ensures
        exists|prefix: Seq<u8>, offset: u8|
            prefix.len() == RANDOM_GUID_LEN && all_alnum(prefix) && #[trigger] hides(
                encode_utf8(r@),
                prefix + src.spec_bytes(),
                key.spec_bytes(),
                offset,
            ),
        encode_utf8(r@).len() == 2 + 2 * b64_len(RANDOM_GUID_LEN as nat + src.spec_bytes().len()),
        src.spec_bytes().len() == ROOT_KEY_LEN ==> uncry_spec(encode_utf8(r@), key.spec_bytes())
            == Some(src@),
{
    let prefix = get_random_str(RANDOM_GUID_LEN);
    let offset = random_byte();
    encry_with(src, key, prefix.as_slice(), offset)
}

} // verus!
