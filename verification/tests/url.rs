use url_shortener::url::{base32_normalize, digest, truncate_base32};

#[test]
fn test_digest() {
    const LONG_URL: &str = "https://jinArchive.com/long-url-1";
    let digest_1: Vec<u8> = digest(LONG_URL);

    const DIGEST_TARGET_LEN: usize = 32;
    assert_eq!(DIGEST_TARGET_LEN, digest_1.len());
    assert_eq!(digest_1, digest(LONG_URL));
}

#[test]
fn test_base32() {
    const TRUNCATE_LEN: usize = 2;
    const LONG_URL: &str = "https://long-url";
    let data = digest(LONG_URL);
    let base32 = truncate_base32(&data, TRUNCATE_LEN);

    const BASE_32_TARGET_LEN: usize = 4;
    const BASE_32_EXAMPLE: &str = "CGF0";
    assert_eq!(base32.len(), BASE_32_TARGET_LEN);
    assert_eq!(BASE_32_EXAMPLE, base32);
}

#[test]
fn digest_is_sha256() {
    assert_eq!(
        hex::encode(digest("abc")),
        "ba7816bf8f01cfea414140de5dae2223b00361a396177a9cb410ff61f20015ad"
    );
    assert_eq!(
        hex::encode(digest("")),
        "e3b0c44298fc1c149afbf4c8996fb92427ae41e4649b934ca495991b7852b855"
    );
}

#[test]
fn digest_is_32_bytes_for_any_length() {
    let long = "x".repeat(10_000);
    for url in ["", "a", "https://example.com/", long.as_str(), "열쇠"] {
        assert_eq!(digest(url).len(), 32);
        assert_eq!(digest(url), digest(url));
    }
}

#[test]
fn digest_differs_for_different_urls() {
    assert_ne!(digest("https://a.example"), digest("https://b.example"));
}

#[test]
fn code_length_is_eight_fifths_rounded_up() {
    let data = digest("https://long-url");
    let expected = [
        0, 2, 4, 5, 7, 8, 10, 12, 13, 15, 16, 18, 20, 21, 23, 24, 26, 28, 29, 31, 32, 34, 36, 37,
        39, 40, 42, 44, 45, 47, 48, 50, 52,
    ];
    for n in 0..=32usize {
        let code = truncate_base32(&data, n);
        assert_eq!(code.len(), expected[n]);
        assert_eq!(code.len(), (n * 8 + 4) / 5);
    }
}

#[test]
fn codes_of_known_bytes() {
    let bytes = vec![0xF8, 0x3E, 0x0F, 0x83, 0xE0];
    assert_eq!(truncate_base32(&bytes, 5), "Z0Z0Z0Z0");
    assert_eq!(truncate_base32(&bytes, 0), "");
    assert_eq!(truncate_base32(&bytes, 1), "Z0");
    let other = vec![0x07, 0xC1, 0xF0, 0x7C, 0x1F];
    assert_eq!(truncate_base32(&other, 5), "0Z0Z0Z0Z");
}

#[test]
fn longer_prefix_extends_the_shorter_code_by_whole_groups() {
    let data = digest("https://long-url");
    let five = truncate_base32(&data, 5);
    let ten = truncate_base32(&data, 10);
    assert!(ten.starts_with(&five));
}

#[test]
fn normalize_collapses_look_alikes() {
    assert_eq!(base32_normalize("cgfo"), Some("CGF0".to_string()));
    assert_eq!(base32_normalize("CGFO"), Some("CGF0".to_string()));
    assert_eq!(base32_normalize("IiLlOo"), base32_normalize("111100"));
    assert_eq!(base32_normalize("z0z0z0z0"), Some("Z0Z0Z0Z0".to_string()));
}

#[test]
fn normalize_rejects_what_is_outside_the_alphabet() {
    assert_eq!(base32_normalize("CGFU"), None);
    assert_eq!(base32_normalize("cgfu"), None);
    assert_eq!(base32_normalize("CG-F0"), None);
    assert_eq!(base32_normalize(","), None);
    assert_eq!(base32_normalize("CGF0="), None);
    assert_eq!(base32_normalize(" CGF0"), None);
    assert_eq!(base32_normalize("CGFé"), None);
}

#[test]
fn normalize_of_nothing_is_nothing() {
    assert_eq!(base32_normalize(""), Some(String::new()));
}

#[test]
fn normalize_is_idempotent() {
    for typed in ["cgfo", "IiLlOo", "0", "zz", "abc", "1234567", "hello", "Z0Z0Z0Z0Z"] {
        let once = base32_normalize(typed).unwrap();
        assert_eq!(base32_normalize(&once), Some(once.clone()));
    }
}

#[test]
fn normalize_keeps_a_code_of_the_engine() {
    let data = digest("https://jinArchive.com/long-url-1");
    for n in 0..=32usize {
        let code = truncate_base32(&data, n);
        assert_eq!(base32_normalize(&code), Some(code.clone()));
        assert_eq!(base32_normalize(&code.to_lowercase()), Some(code));
    }
}
