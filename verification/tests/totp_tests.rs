use gmpass::totp::{base32_decode, generate_totp};

#[test]
fn test_base32_decode_simple() {
    // "GEZDGNBV" is base32 for "12345"
    let result = base32_decode("GEZDGNBV");
    assert!(result.is_some());
    assert_eq!(&result.unwrap(), b"12345");
}

#[test]
fn test_base32_decode_known_value() {
    let r1 = base32_decode("JBSWY3DPEHPK3PXP");
    let r2 = base32_decode("JBSWY3DPEHPK3PXP");
    assert!(r1.is_some());
    assert_eq!(r1, r2);
}

#[test]
fn test_base32_decode_lowercase() {
    let upper = base32_decode("GEZDGNBV");
    let lower = base32_decode("gezdgnbv");
    assert_eq!(upper, lower);
}

#[test]
fn test_base32_decode_with_spaces() {
    let clean = base32_decode("GEZDGNBV");
    let spaced = base32_decode("GEZD GNBV");
    assert_eq!(clean, spaced);
}

#[test]
fn test_base32_decode_invalid() {
    let result = base32_decode("!!!INVALID!!!");
    assert!(result.is_none());
}

#[test]
fn test_base32_decode_empty() {
    let result = base32_decode("");
    assert!(result.is_some());
    assert!(result.unwrap().is_empty());
}

#[test]
fn test_generate_totp_valid_secret() {
    let result = generate_totp("JBSWY3DPEHPK3PXP");
    assert!(result.is_some());
    let (code, remaining) = result.unwrap();
    assert_eq!(code.len(), 6);
    assert!(code.chars().all(|c| c.is_ascii_digit()));
    assert!(remaining > 0 && remaining <= 30);
}

#[test]
fn test_generate_totp_invalid_secret() {
    let result = generate_totp("!!!INVALID!!!");
    assert!(result.is_none());
}

#[test]
fn test_generate_totp_empty_secret() {
    let result = generate_totp("");
    assert!(result.is_none());
}

#[test]
fn test_totp_code_is_six_digits() {
    let result = generate_totp("GEZDGNBVGY3TQOJQ");
    assert!(result.is_some());
    let (code, _) = result.unwrap();
    assert_eq!(code.len(), 6);
    let num: u32 = code.parse().unwrap();
    assert!(num < 1_000_000);
}

#[test]
fn base32_padding_and_hyphens_are_ignored() {
    assert_eq!(base32_decode("GEZD-GNBV===="), Some(b"12345".to_vec()));
    assert_eq!(base32_decode("MY======"), Some(b"f".to_vec()));
    assert_eq!(base32_decode("MZXW6YTBOI======"), Some(b"foobar".to_vec()));
}

#[test]
fn base32_rejects_digits_outside_alphabet() {
    assert_eq!(base32_decode("GEZ1"), None);
}
