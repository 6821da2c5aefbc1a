use zust_core::crypto::{cas_encrypt_password, decode_base64, encode_base64, random_chars, wisedu_encrypt_password};
use zust_core::error::ZustError;

#[test]
fn test_random_chars_length() {
    let s = random_chars(64);
    assert_eq!(s.len(), 64);
    let s = random_chars(16);
    assert_eq!(s.len(), 16);
}

#[test]
fn test_random_chars_no_ambiguous() {
    let s = random_chars(1000);
    assert!(!s.contains('0'));
    assert!(!s.contains('O'));
    assert!(!s.contains('1'));
    assert!(!s.contains('l'));
    assert!(!s.contains('9'));
}

#[test]
fn test_cas_encrypt_basic() {
    let salt = "1234567890123456"; // exactly 16 bytes
    let result = cas_encrypt_password("test_password", salt);
    assert!(result.is_ok(), "Encryption failed: {result:?}");
    let ct = result.unwrap();
    assert!(!ct.is_empty());
}

#[test]
fn test_cas_encrypt_wrong_key_size() {
    let salt = "short"; // not 16 bytes
    let result = cas_encrypt_password("test", salt);
    assert!(result.is_err());
}

#[test]
fn cas_encrypt_wrong_key_size_message() {
    match cas_encrypt_password("test", "short") {
        Err(ZustError::Crypto(m)) => assert_eq!(m, "CAS salt_key must be 16 bytes, got 5"),
        other => panic!("unexpected {other:?}"),
    }
}

#[test]
fn cas_ciphertext_is_base64_of_whole_blocks() {
    let ct = cas_encrypt_password("test_password", "1234567890123456").unwrap();
    let raw = decode_base64(&ct).unwrap();
    // 64 random characters and the 13-byte password, padded to whole blocks.
    assert_eq!(raw.len(), 80);
    assert_eq!(ct.len(), 108);
    assert_ne!(&raw[64..80], b"test_password\x03\x03\x03");
}

#[test]
fn base64_exact_values() {
    assert_eq!(encode_base64(b""), "");
    assert_eq!(encode_base64(b"f"), "Zg==");
    assert_eq!(encode_base64(b"fo"), "Zm8=");
    assert_eq!(encode_base64(b"foo"), "Zm9v");
    assert_eq!(decode_base64("Zm9vYmFy").unwrap(), b"foobar".to_vec());
    assert!(decode_base64("@@").is_none());
}

#[test]
fn base64_round_trip() {
    let data: Vec<u8> = (0u8..=255).collect();
    assert_eq!(decode_base64(&encode_base64(&data)).unwrap(), data);
}

#[test]
fn wisedu_encrypt_rejects_bad_base64() {
    match wisedu_encrypt_password("pw", "@@", "AQAB") {
        Err(ZustError::Crypto(m)) => assert!(m.starts_with("modulus base64 decode: ")),
        other => panic!("unexpected {other:?}"),
    }
    match wisedu_encrypt_password("pw", "AQAB", "@@") {
        Err(ZustError::Crypto(m)) => assert!(m.starts_with("exponent base64 decode: ")),
        other => panic!("unexpected {other:?}"),
    }
}

#[test]
fn wisedu_encrypt_gives_one_modulus_of_ciphertext() {
    let modulus = encode_base64(&[0xC5u8; 128]);
    let exponent = encode_base64(&[0x01, 0x00, 0x01]);
    let ct = wisedu_encrypt_password("pw", &modulus, &exponent).unwrap();
    let raw = decode_base64(&ct).unwrap();
    assert_eq!(raw.len(), 128);
    assert_ne!(&raw[126..128], b"pw");
}

fn hex(s: &str) -> Vec<u8> {
    (0..s.len()).step_by(2).map(|i| u8::from_str_radix(&s[i..i + 2], 16).unwrap()).collect()
}

#[test]
fn wisedu_ciphertext_decrypts_to_a_pkcs1_block_of_the_password() {
    let n = hex("9db14bc6742d9b7d513760f19566ef55");
    let d = hex("8969397291423cbeaab769d6846d3201");
    let ct = wisedu_encrypt_password("pw", &encode_base64(&n), &encode_base64(&[0x01, 0x00, 0x01])).unwrap();
    let c = decode_base64(&ct).unwrap();
    assert_eq!(c.len(), 16);
    let m = rsa::BigUint::from_bytes_be(&c).modpow(&rsa::BigUint::from_bytes_be(&d), &rsa::BigUint::from_bytes_be(&n));
    let mut em = m.to_bytes_be();
    while em.len() < 16 {
        em.insert(0, 0);
    }
    assert_eq!(em[0], 0);
    assert_eq!(em[1], 2);
    assert!(em[2..13].iter().all(|&b| b != 0));
    assert_eq!(em[13], 0);
    assert_eq!(&em[14..], b"pw");
}

#[test]
fn chars_at_picks_in_order() {
    assert_eq!(zust_core::crypto::chars_at(&[0, 1, 21, 47]), "ABa8");
    assert_eq!(zust_core::crypto::chars_at(&[]), "");
    assert_eq!(zust_core::crypto::CHARS.chars().count(), 48);
}
