use ncrypt::encryption::algorithm::{AsymmetricAlgo, SymmetricAlgo};
use ncrypt::encryption::header::{
    check_version, DataHeader, EncryptionHeader, HeaderError, KeyHeader, CURRENT_VERSION, V0,
};
use ncrypt::string::{NBString, NCString, NString};
use ncrypt::versionable::{version, Versionable};
use std::collections::HashSet;

fn text(s: &str) -> Box<NCString> {
    Box::new(NCString::malloc(Some(s.as_bytes()), s.len()).unwrap())
}

fn data_header(v: u16) -> DataHeader {
    DataHeader {
        version: v,
        empty: true,
        empty_fields: HashSet::new(),
        algorithm: text(SymmetricAlgo::AES_GCM_256.name()),
    }
}

fn key_header(v: u16) -> KeyHeader {
    KeyHeader { version: v, algorithm: text(AsymmetricAlgo::RSA_4096.name()) }
}

#[test]
fn compose_headers_of_one_version() {
    let wrapped = NBString::malloc(None, 0).unwrap();
    let h = EncryptionHeader::compose(data_header(0), key_header(0), wrapped).unwrap();
    assert_eq!(h.version, 0);
    assert_eq!(h.data_header.version, 0);
    assert!(h.data_header.empty);
    assert!(h.data_header.empty_fields.is_empty());
    assert_eq!(h.data_header.algorithm.get(), Some(&b"AES_GCM_256\0"[..]));
    assert_eq!(h.key_header.version, 0);
    assert_eq!(h.key_header.algorithm.get(), Some(&b"RSA_4096\0"[..]));
    assert_eq!(h.key.get_len(), 0);
    assert_eq!(h.key.get(), Some(&[][..]));
}

#[test]
fn compose_headers_of_two_versions_fails() {
    let wrapped = NBString::malloc(None, 0).unwrap();
    let r = EncryptionHeader::compose(data_header(0), key_header(1), wrapped);
    assert!(matches!(r, Err(HeaderError::VersionMismatch)));
    let wrapped = NBString::malloc(None, 0).unwrap();
    let r = EncryptionHeader::compose(data_header(1), key_header(0), wrapped);
    assert!(matches!(r, Err(HeaderError::VersionMismatch)));
}

#[test]
fn compose_takes_the_common_version_whatever_it_is() {
    let wrapped = NBString::malloc(Some(&[1, 2, 3]), 3).unwrap();
    let h = EncryptionHeader::compose(data_header(7), key_header(7), wrapped).unwrap();
    assert_eq!(h.version, 7);
    assert_eq!(version(&h), 7);
    assert_eq!(h.key.get(), Some(&[1u8, 2u8, 3u8][..]));
}

#[test]
fn fresh_headers_carry_the_current_version() {
    let mut fields = HashSet::new();
    fields.insert(text("name"));
    let d = DataHeader::new(false, fields, text("CHACHA20_POLY1305"));
    assert_eq!(d.version, CURRENT_VERSION);
    assert_eq!(version(&d), DataHeader::CURRENT_VERSION);
    assert!(!d.empty);
    assert_eq!(d.empty_fields.len(), 1);
    assert!(d.empty_fields.contains(&text("name")));
    assert_eq!(d.algorithm.get(), Some(&b"CHACHA20_POLY1305\0"[..]));
    let k = KeyHeader::new(text("X25519"));
    assert_eq!(k.version, CURRENT_VERSION);
    assert_eq!(version(&k), KeyHeader::CURRENT_VERSION);
    assert_eq!(k.algorithm.get(), Some(&b"X25519\0"[..]));
    let h = EncryptionHeader::compose(d, k, NBString::from(vec![9u8])).unwrap();
    assert_eq!(version(&h), EncryptionHeader::CURRENT_VERSION);
}

#[test]
fn declared_versions() {
    assert_eq!(V0, 0);
    assert_eq!(CURRENT_VERSION, 0);
    assert_eq!(EncryptionHeader::CURRENT_VERSION, 0);
    assert_eq!(DataHeader::CURRENT_VERSION, 0);
    assert_eq!(KeyHeader::CURRENT_VERSION, 0);
}

#[test]
fn version_reads_the_leading_tag() {
    assert_eq!(version(&data_header(3)), 3);
    assert_eq!(version(&key_header(65535)), 65535);
    assert_eq!(data_header(3).leading_tag(), 3);
}

#[test]
fn check_version_knows_only_the_defined_versions() {
    assert_eq!(check_version(0), Ok(()));
    assert_eq!(check_version(1), Err(HeaderError::UnknownVersion));
    assert_eq!(check_version(65535), Err(HeaderError::UnknownVersion));
}

#[test]
fn decompose_gives_the_parts_back() {
    let wrapped = NBString::malloc(Some(&[5, 0, 6]), 3).unwrap();
    let h = EncryptionHeader::compose(data_header(0), key_header(0), wrapped).unwrap();
    let (d, k, w) = h.decompose().unwrap();
    assert_eq!(d.version, 0);
    assert!(d.empty);
    assert_eq!(d.algorithm.get(), Some(&b"AES_GCM_256\0"[..]));
    assert_eq!(k.version, 0);
    assert_eq!(k.algorithm.get(), Some(&b"RSA_4096\0"[..]));
    assert_eq!(w.get(), Some(&[5u8, 0u8, 6u8][..]));
}

#[test]
fn decompose_refuses_an_unknown_version() {
    let wrapped = NBString::malloc(None, 1).unwrap();
    let h = EncryptionHeader::compose(data_header(1), key_header(1), wrapped).unwrap();
    assert!(matches!(h.decompose(), Err(HeaderError::UnknownVersion)));
}

#[test]
fn decompose_refuses_headers_that_disagree() {
    let wrapped = NBString::malloc(None, 1).unwrap();
    let mut h = EncryptionHeader::compose(data_header(0), key_header(0), wrapped).unwrap();
    h.key_header.version = 1;
    assert!(matches!(h.decompose(), Err(HeaderError::VersionMismatch)));
    let wrapped = NBString::malloc(None, 1).unwrap();
    let mut h = EncryptionHeader::compose(data_header(0), key_header(0), wrapped).unwrap();
    h.data_header.version = 2;
    assert!(matches!(h.decompose(), Err(HeaderError::VersionMismatch)));
}

#[test]
fn decompose_looks_at_the_envelope_version_first() {
    let wrapped = NBString::malloc(None, 1).unwrap();
    let mut h = EncryptionHeader::compose(data_header(0), key_header(0), wrapped).unwrap();
    h.version = 4;
    assert!(matches!(h.decompose(), Err(HeaderError::UnknownVersion)));
}

#[test]
fn algorithm_names() {
    assert_eq!(AsymmetricAlgo::RSA_3072.name(), "RSA_3072");
    assert_eq!(AsymmetricAlgo::RSA_4096.name(), "RSA_4096");
    assert_eq!(AsymmetricAlgo::X25519.name(), "X25519");
    assert_eq!(SymmetricAlgo::AES_GCM_256.name(), "AES_GCM_256");
    assert_eq!(SymmetricAlgo::CHACHA20_POLY1305.name(), "CHACHA20_POLY1305");
}
