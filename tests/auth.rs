use comacode::auth::AuthToken;
use comacode::CoreError;
use std::collections::HashSet;

#[test]
fn test_token_generation() {
    let token1 = AuthToken::generate();
    let token2 = AuthToken::generate();
    assert_ne!(token1, token2, "Tokens should be unique");
}

#[test]
fn test_token_size() {
    let token = AuthToken::generate();
    assert_eq!(token.as_bytes().len(), 32);
}

#[test]
fn test_token_hex_length() {
    let token = AuthToken::generate();
    let hex = token.to_hex();
    assert_eq!(hex.len(), 64);
}

#[test]
fn test_token_hex_roundtrip() {
    let token = AuthToken::generate();
    let hex = token.to_hex();
    let decoded = AuthToken::from_hex(&hex).unwrap();
    assert_eq!(token, decoded);
}

#[test]
fn test_token_from_hex_invalid_length() {
    let result = AuthToken::from_hex("abc123");
    assert!(matches!(result, Err(CoreError::InvalidTokenFormat)));
}

#[test]
fn test_token_from_hex_invalid_chars() {
    let result = AuthToken::from_hex("gggggggggggggggggggggggggggggggggggggggggggggggggggggggggggggggg");
    assert!(matches!(result, Err(CoreError::InvalidTokenFormat)));
}

#[test]
fn test_token_copy() {
    let token1 = AuthToken::generate();
    let token2 = token1;
    assert_eq!(token1, token2);
}

#[test]
fn test_token_hash() {
    let mut set = HashSet::new();
    let token = AuthToken::generate();
    set.insert(token);
    assert!(set.contains(&token));
}

#[test]
fn token_hex_of_known_bytes() {
    let mut bytes = [0u8; 32];
    bytes[0] = 0xde;
    bytes[1] = 0xad;
    bytes[31] = 0x0f;
    let token = AuthToken::from_bytes(bytes);
    let hex = token.to_hex();
    assert!(hex.starts_with("dead00"));
    assert!(hex.ends_with("000f"));
}

#[test]
fn token_from_upper_case_hex() {
    let text = "AB".repeat(32);
    let token = AuthToken::from_hex(&text).unwrap();
    assert_eq!(token.as_bytes(), &[0xab; 32]);
    assert_eq!(token.to_hex(), "ab".repeat(32));
}

#[test]
fn token_from_hex_rejects_65_digits() {
    let text = "a".repeat(65);
    assert!(matches!(AuthToken::from_hex(&text), Err(CoreError::InvalidTokenFormat)));
}

#[test]
fn tokens_compare_by_bytes() {
    let a = AuthToken::from_bytes([7; 32]);
    let b = AuthToken::from_bytes([7; 32]);
    let c = AuthToken::from_bytes([8; 32]);
    assert!(a.same_as(&b));
    assert!(!a.same_as(&c));
}
