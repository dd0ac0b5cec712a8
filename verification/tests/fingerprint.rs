use content_hash::hex::hex_encode;
use content_hash::{hash_content, is_hashable};
use sha2::{Digest, Sha256};

#[test]
fn test_hash_content() {
    let content = "Hello, World!";
    let hash = hash_content(content);
    assert_eq!(hash.len(), 64); // SHA-256 = 64 hex chars
}

#[test]
fn hash_of_empty_text_is_the_empty_input_digest() {
    assert_eq!(
        hash_content(""),
        "e3b0c44298fc1c149afbf4c8996fb92427ae41e4649b934ca495991b7852b855"
    );
}

#[test]
fn hash_of_known_texts() {
    assert_eq!(
        hash_content("abc"),
        "ba7816bf8f01cfea414140de5dae2223b00361a396177a9cb410ff61f20015ad"
    );
    assert_eq!(
        hash_content("hello world"),
        "b94d27b9934d3e08a52e52d7da7dabfac484efe37a5380ee9088f7ace2efcde9"
    );
    assert_eq!(
        hash_content("Hello, World!"),
        "dffd6021bb2bd5b0af676290809ec3a53191dd81c7f70a4b28688a362182986f"
    );
}

#[test]
fn hash_is_taken_over_the_utf8_bytes() {
    // "é" is the two bytes C3 A9.
    assert_eq!(hash_content("\u{e9}"), hex_encode(&sha2_of(&[0xc3, 0xa9])));
    assert_ne!(hash_content("\u{e9}"), hex_encode(&sha2_of(&[0xe9])));
}

fn sha2_of(bytes: &[u8]) -> [u8; 32] {
    Sha256::digest(bytes).into()
}

#[test]
fn hash_is_64_lowercase_hex_digits() {
    for text in ["", "a", "Hello, World!", "  spaced  ", "line\nline\r\n", "\u{1F600} smile"] {
        let hash = hash_content(text);
        assert_eq!(hash.chars().count(), 64);
        assert!(hash.chars().all(|c| matches!(c, '0'..='9' | 'a'..='f')));
    }
}

#[test]
fn hash_is_deterministic() {
    for text in ["", "a", "Hello, World!", "\u{3000}wide"] {
        assert_eq!(hash_content(text), hash_content(text));
        assert_eq!(hash_content(text), hash_content(&text.to_string()));
    }
}

#[test]
fn hash_differs_from_its_input_and_between_inputs() {
    assert_ne!(hash_content("a"), "a");
    assert_ne!(hash_content("a"), hash_content("b"));
    assert_ne!(hash_content("a"), hash_content("a "));
}

#[test]
fn ordinary_texts_are_hashable() {
    assert!(is_hashable(""));
    assert!(is_hashable("Hello, World!"));
}

#[test]
fn hex_encode_renders_two_digits_per_byte() {
    assert_eq!(hex_encode(&[]), "");
    assert_eq!(hex_encode(&[0x00]), "00");
    assert_eq!(hex_encode(&[0x0a]), "0a");
    assert_eq!(hex_encode(&[0xa0]), "a0");
    assert_eq!(hex_encode(&[0xff]), "ff");
    assert_eq!(hex_encode(&[0x01, 0x23, 0x45, 0x67, 0x89, 0xab, 0xcd, 0xef]), "0123456789abcdef");
}

#[test]
fn hex_encode_agrees_with_formatting_on_every_byte() {
    for byte in 0..=255u8 {
        assert_eq!(hex_encode(&[byte]), format!("{:02x}", byte));
    }
}
