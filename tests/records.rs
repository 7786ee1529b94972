use fver::digest::{key_filename, username_hash};
use fver::error::Error;
use fver::record::{Object, Signature, User};

fn digest_of_hex(s: &str) -> [u8; 32] {
    let mut out = [0u8; 32];
    for i in 0..32 {
        out[i] = u8::from_str_radix(&s[2 * i..2 * i + 2], 16).unwrap();
    }
    out
}

#[test]
fn username_hash_is_sha256() {
    let expected = digest_of_hex("ba7816bf8f01cfea414140de5dae2223b00361a396177a9cb410ff61f20015ad");
    assert_eq!(username_hash(b"abc"), expected);
    let empty = digest_of_hex("e3b0c44298fc1c149afbf4c8996fb92427ae41e4649b934ca495991b7852b855");
    assert_eq!(username_hash(b""), empty);
}

#[test]
fn key_filename_is_lowercase_hex() {
    let d = digest_of_hex("ba7816bf8f01cfea414140de5dae2223b00361a396177a9cb410ff61f20015ad");
    assert_eq!(
        key_filename(&d),
        "ba7816bf8f01cfea414140de5dae2223b00361a396177a9cb410ff61f20015ad"
    );
    assert_eq!(key_filename(&[0u8; 32]), "0".repeat(64));
}

#[test]
fn user_record_layout() {
    let u = User { username: b"alice".to_vec(), key: vec![0x30, 0x82, 0x01] };
    let mut out = Vec::new();
    u.write_to(&mut out);
    assert_eq!(out, vec![3, 0, 0, 0, 0x30, 0x82, 0x01, b'a', b'l', b'i', b'c', b'e']);
}

#[test]
fn user_record_round_trip() {
    let u = User { username: b"bob".to_vec(), key: vec![7u8; 300] };
    let mut out = vec![9u8];
    u.write_to(&mut out);
    assert_eq!(&out[..5], &[9, 44, 1, 0, 0]);
    let back = User::read_from(&out[1..]).unwrap();
    assert_eq!(back.username, u.username);
    assert_eq!(back.key, u.key);
}

#[test]
fn user_record_largest_key() {
    let u = User { username: b"k".to_vec(), key: vec![1u8; 4096] };
    let mut out = Vec::new();
    u.write_to(&mut out);
    let back = User::read_from(&out).unwrap();
    assert_eq!(back.key.len(), 4096);
    assert_eq!(back.username, b"k".to_vec());
}

#[test]
fn user_record_rejects_long_key() {
    let mut b = vec![0x01, 0x10, 0, 0];
    b.extend(vec![0u8; 5000]);
    assert_eq!(User::read_from(&b).unwrap_err(), Error::CorruptedStorage);
}

#[test]
fn user_record_rejects_truncation() {
    assert_eq!(User::read_from(&[1, 0, 0]).unwrap_err(), Error::CorruptedStorage);
    assert_eq!(User::read_from(&[5, 0, 0, 0, 1, 2]).unwrap_err(), Error::CorruptedStorage);
    let empty_name = User::read_from(&[2, 0, 0, 0, 1, 2]).unwrap();
    assert_eq!(empty_name.key, vec![1, 2]);
    assert!(empty_name.username.is_empty());
}

#[test]
fn signature_record_round_trip() {
    let s = Signature { obj: [0xAA; 32], user: [1; 32], prev_sig: [0; 32], signature: vec![5, 6, 7] };
    let mut out = Vec::new();
    s.write_to(&mut out);
    assert_eq!(out.len(), 99);
    assert_eq!(&out[..32], &[0xAA; 32]);
    assert_eq!(&out[32..64], &[1; 32]);
    assert_eq!(&out[96..], &[5, 6, 7]);
    let back = Signature::read_from(&out).unwrap();
    assert_eq!(back.obj, s.obj);
    assert_eq!(back.user, s.user);
    assert_eq!(back.prev_sig, s.prev_sig);
    assert_eq!(back.signature, s.signature);
}

#[test]
fn signature_record_rejects_short() {
    assert_eq!(Signature::read_from(&[0u8; 95]).unwrap_err(), Error::CorruptedStorage);
    let bare = Signature::read_from(&[3u8; 96]).unwrap();
    assert!(bare.signature.is_empty());
}

#[test]
fn object_index_entries() {
    let mut b = vec![1u8; 32];
    b.extend(vec![2u8; 32]);
    let o = Object::read_from(&b).unwrap();
    assert_eq!(o.sigs, vec![[1u8; 32], [2u8; 32]]);
    assert!(Object::read_from(&[]).unwrap().sigs.is_empty());
}

#[test]
fn object_index_partial_entry() {
    let b = vec![1u8; 40];
    assert_eq!(Object::read_from(&b).unwrap_err(), Error::CorruptedStorage);
}
