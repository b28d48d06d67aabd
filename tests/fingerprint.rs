use comacode::cert::CertStore;
use comacode::fingerprint::{fingerprint_from_cert_der, format_fingerprint, TofuVerifier};
use sha2::{Digest, Sha256};

#[test]
fn test_normalize_fingerprint() {
    assert_eq!(TofuVerifier::normalize_fingerprint("AA:BB:CC"), "AABBCC");
    assert_eq!(TofuVerifier::normalize_fingerprint("aa:bb:cc"), "AABBCC");
    assert_eq!(TofuVerifier::normalize_fingerprint("aabbcc"), "AABBCC");
    assert_eq!(TofuVerifier::normalize_fingerprint("aa-bb-cc"), "AABBCC");
    assert_eq!(TofuVerifier::normalize_fingerprint("AA BB CC"), "AABBCC");
    assert_eq!(TofuVerifier::normalize_fingerprint("Aa:Bb-Cc"), "AABBCC");
}

#[test]
fn test_fingerprint_calculation() {
    let verifier = TofuVerifier::new("AA:BB:CC".to_string());
    let fingerprint = verifier.calculate_fingerprint(&[0x42u8]);
    assert!(fingerprint.len() == 95);
    assert!(fingerprint.chars().filter(|c| *c == ':').count() == 31);
}

#[test]
fn test_fingerprint_format() {
    let dummy_der = b"test certificate data";
    let hash = Sha256::digest(dummy_der);
    let expected: String = hash.iter().map(|b| format!("{:02x}", b)).collect::<Vec<_>>().join(":");
    assert_eq!(expected.len(), 95);
    assert_eq!(expected.chars().filter(|c| *c == ':').count(), 31);
    assert_eq!(fingerprint_from_cert_der(dummy_der), expected);
}

#[test]
fn format_fingerprint_known_bytes() {
    assert_eq!(format_fingerprint(&[0xab, 0x01, 0xff], true), "AB:01:FF");
    assert_eq!(format_fingerprint(&[0xab, 0x01, 0xff], false), "ab:01:ff");
    assert_eq!(format_fingerprint(&[], true), "");
}

#[test]
fn sha256_of_abc() {
    let fp = fingerprint_from_cert_der(b"abc");
    assert!(fp.starts_with("ba:78:16:bf:8f:01:cf:ea"));
    assert!(fp.ends_with("f2:00:15:ad"));
}

#[test]
fn verifier_matches_pinned_fingerprint() {
    let der = b"certificate bytes";
    let pinned = fingerprint_from_cert_der(der);
    let verifier = TofuVerifier::new(pinned.replace(':', "-"));
    assert!(verifier.matches_certificate(der));
    let other = TofuVerifier::new("AA:BB".to_string());
    assert!(!other.matches_certificate(der));
}

#[test]
fn test_cert_store_new() {
    let store = CertStore::new().unwrap();
    assert!(store.data_dir().ends_with("comacode"));
}

#[test]
fn test_cert_store_paths() {
    let store = CertStore::new().unwrap();
    assert!(store.cert_path().ends_with("host.crt"));
    assert!(store.key_path().ends_with("host.key"));
}

#[test]
fn cert_store_under_base() {
    let store = CertStore::under("/home/u/.local/share".to_string());
    assert_eq!(store.data_dir(), "/home/u/.local/share/comacode");
    assert_eq!(store.cert_path(), "/home/u/.local/share/comacode/host.crt");
    assert_eq!(store.key_path(), "/home/u/.local/share/comacode/host.key");
}
