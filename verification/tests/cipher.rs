use base64::engine::general_purpose;
use base64::Engine;
use regex::Regex;
use skroot::encrypt::{
    _encry, _uncry, default_key_for_day, encipher, encry, encry_with, generate_random_root_key,
    get_default_key, get_random_str, pool_byte, root_key_from, try_uncry, uncry, uncry_bytes,
    RANDOM_GUID_LEN, ROOT_KEY_LEN,
};

const ENCRYPTED: &str = "e00f49abcb2a6b85e272f67598d13292ee678de31cb4ca21a63590c00b51a7364997db1e5ef40967ef0a529031bc2449f07191fe45a23e47a0324aacc03bb0d129b8156bf061963f5f8d8dc0c52344b5c2";

const KEY: &str = "abcdefghijklmnopqrstuvwxABCDEFGHIJKLMNOPQRSTUVWX";

#[test]
fn test_rand() {
    println!("{}", pool_byte(get_random_str(1)[0] as usize));
}

#[test]
fn test_encry() {
    let uncrypted = uncry(ENCRYPTED, "40");
    println!("uncrypted: {}", uncrypted);
    let root_key = general_purpose::STANDARD.decode(uncrypted).unwrap();
    if root_key.len() < RANDOM_GUID_LEN + ROOT_KEY_LEN {
    } else {
        let start_idx = root_key.len() - ROOT_KEY_LEN;
        let root_key = String::from_utf8(root_key[start_idx..].to_vec()).unwrap();
        println!("root_key = {}", root_key);
    }
}

#[test]
fn test_generate_random_root_key() {
    let ramdom_root_key = generate_random_root_key();
    let regex = Regex::new(r"[0-9a-zA-Z]{48}").unwrap();
    assert!(regex.is_match(&ramdom_root_key));
}

#[test]
fn uncry_gives_the_last_48_bytes_of_the_decoded_blob() {
    assert_eq!(uncry(ENCRYPTED, "40"), "KKuRGtRnfGsdVBe3Ol2q5tiYf0OOoBNHxsC4NFrRTtKtgH9A");
    assert_eq!(
        try_uncry(ENCRYPTED, "40"),
        Some("KKuRGtRnfGsdVBe3Ol2q5tiYf0OOoBNHxsC4NFrRTtKtgH9A".to_string())
    );
}

#[test]
fn uncry_with_another_key_finds_no_key() {
    assert_eq!(try_uncry(ENCRYPTED, "50"), None);
}

#[test]
fn encipher_small_example() {
    // 'Q' is 0x51: (0x51 + 0x10) % 255 = 0x61, mixed with 'k' (0x6b) gives 0x0a.
    assert_eq!(encipher(b"QQ==", b"k", 0x10), b"100a300628".to_vec());
    assert_eq!(encipher(b"", b"k", 0xab), b"ab".to_vec());
}

#[test]
fn decipher_small_example() {
    assert_eq!(_uncry(b"100a300628", b"k"), Some(b"QQ==".to_vec()));
    assert_eq!(_uncry(b"ab", b"k"), Some(Vec::new()));
    assert_eq!(_uncry(b"ab", b""), Some(Vec::new()));
}

#[test]
fn unmixed_byte_equal_to_the_offset_deciphers_to_zero() {
    // 0x24 mixed with '4' (0x34) is 0x10, the offset: nothing was carried past 255.
    assert_eq!(_uncry(b"1024", b"4"), Some(vec![0]));
    assert_eq!(encipher(&[0], b"4", 0x10), b"1024".to_vec());
    // One below the offset was carried: 0x0f + 255 - 0x10 = 254.
    assert_eq!(_uncry(b"103b", b"4"), Some(vec![254]));
    assert_eq!(encipher(&[254], b"4", 0x10), b"103b".to_vec());
    // Every byte but 255 comes back, for every offset.
    for offset in 0u8..=255 {
        let plain: Vec<u8> = (0u8..255).collect();
        let hidden = encipher(&plain, b"key", offset);
        assert_eq!(_uncry(&hidden, b"key"), Some(plain));
    }
}

#[test]
fn cipher_text_has_the_length_of_its_parts() {
    for len in [0usize, 1, 2, 3, 4, 47, 48, 49, 100] {
        let src = "x".repeat(len);
        let hidden = encry(&src, "40");
        assert_eq!(hidden.len(), 2 + 2 * 4 * ((RANDOM_GUID_LEN + len + 2) / 3));
        let text = _uncry(hidden.as_bytes(), b"40").unwrap();
        let plain = general_purpose::STANDARD.decode(text).unwrap();
        assert_eq!(plain.len(), RANDOM_GUID_LEN + len);
        assert_eq!(&plain[RANDOM_GUID_LEN..], src.as_bytes());
        assert!(plain[..RANDOM_GUID_LEN].iter().all(|b| b.is_ascii_alphanumeric()));
    }
}

#[test]
fn decipher_refuses_what_is_no_cipher_text() {
    assert_eq!(_uncry(b"", b"k"), None);
    assert_eq!(_uncry(b"1", b"k"), None);
    assert_eq!(_uncry(b"100", b"k"), None);
    assert_eq!(_uncry(b"10zz", b"k"), None);
    assert_eq!(_uncry(b"+f0a", b"k"), None);
    assert_eq!(_uncry(b"100a", b""), None);
}

#[test]
fn decipher_reads_both_cases_of_digits() {
    assert_eq!(_uncry(b"100A300628", b"k"), _uncry(b"100a300628", b"k"));
}

#[test]
fn encry_with_exact_text() {
    let text = encry_with(KEY, "40", b"0123456789", 0xe0);
    assert_eq!(
        text,
        "e01a6e87314af47293d570e72c4f96e8628ff170ec73d0014095dc79db0a61a62cbadd14bc14b235558dd5040758adc73bb8d81f5593ce076087ec6985ed03007fe7295f81e27ff97fe108569ec13344b1"
    );
    assert_eq!(uncry(&text, "40"), KEY);
}

#[test]
fn encry_then_uncry_round_trip() {
    for day in 1u8..=31 {
        let day_key = default_key_for_day(day);
        let hidden = encry(KEY, &day_key);
        assert_ne!(hidden, KEY);
        assert_eq!(hidden.len() % 2, 0);
        assert!(hidden.bytes().all(|b| b.is_ascii_hexdigit()));
        assert_eq!(try_uncry(&hidden, &day_key), Some(KEY.to_string()));
    }
}

#[test]
fn round_trip_for_every_offset() {
    for offset in 0u8..=255 {
        let hidden = encry_with(KEY, "310", b"zzzzzzzzzz", offset);
        assert_eq!(&hidden[0..2], format!("{:02x}", offset));
        assert_eq!(uncry_bytes(hidden.as_bytes(), b"310"), Some(KEY.to_string()));
    }
}

#[test]
fn random_encry_has_the_length_of_its_parts() {
    // 58 bytes give 80 characters of base64; each is two digits, after the offset's two.
    let hidden = _encry(general_purpose::STANDARD.encode(format!("0123456789{}", KEY)).as_bytes(), "40");
    assert_eq!(hidden.len(), 2 + 2 * 80);
}

#[test]
fn root_key_from_blob() {
    let mut blob = b"0123456789".to_vec();
    blob.extend_from_slice(KEY.as_bytes());
    assert_eq!(root_key_from(&blob), Some(KEY.to_string()));
    assert_eq!(root_key_from(KEY.as_bytes()), Some(KEY.to_string()));
    assert_eq!(root_key_from(&KEY.as_bytes()[1..]), None);
    let mut bad = vec![0xffu8; 48];
    bad[0] = b'a';
    assert_eq!(root_key_from(&bad), None);
}

#[test]
fn try_uncry_refuses_text_that_is_not_base64_inside() {
    // One byte of cipher text deciphers to one byte, which is no base64.
    assert_eq!(try_uncry("100a", "k"), None);
    // Valid base64 of one byte: too short to hold a key.
    assert_eq!(try_uncry("100a300628", "k"), None);
}

#[test]
fn default_key_is_ten_times_the_day() {
    assert_eq!(default_key_for_day(4), "40");
    assert_eq!(default_key_for_day(1), "10");
    assert_eq!(default_key_for_day(31), "310");
    let today = get_default_key();
    let n: u32 = today.parse().unwrap();
    assert_eq!(n % 10, 0);
    assert!(10 <= n && n <= 310);
}

#[test]
fn random_text_is_letters_and_digits() {
    for len in [0usize, 1, 10, 48, 200] {
        let s = get_random_str(len);
        assert_eq!(s.len(), len);
        assert!(s.iter().all(|b| b.is_ascii_alphanumeric()));
    }
    assert_eq!(generate_random_root_key().len(), 48);
}

#[test]
fn pool_bytes_in_order() {
    assert_eq!(pool_byte(0), b'a');
    assert_eq!(pool_byte(25), b'z');
    assert_eq!(pool_byte(26), b'A');
    assert_eq!(pool_byte(51), b'Z');
    assert_eq!(pool_byte(52), b'0');
    assert_eq!(pool_byte(61), b'9');
    assert_eq!(pool_byte(62), b'a');
}
