use fver::digest::username_hash;
use fver::error::Error;
use fver::record::{Signature, User};
use fver::storage::{LocalStorage, Namespace, StoreWrite};

fn alice() -> User {
    User { username: b"alice".to_vec(), key: vec![0x30, 0x59, 0x30, 0x13] }
}

fn sig_bytes(s: &Signature) -> Vec<u8> {
    let mut out = Vec::new();
    s.write_to(&mut out);
    out
}

fn sig(obj: [u8; 32], user: [u8; 32], prev: [u8; 32], body: &[u8]) -> Signature {
    Signature { obj, user, prev_sig: prev, signature: body.to_vec() }
}

fn tip_or_zero(st: &LocalStorage) -> [u8; 32] {
    st.get_prev().unwrap_or([0u8; 32])
}

#[test]
fn fresh_registration() {
    let mut st = LocalStorage::new();
    let w = st.set_user(alice()).unwrap();
    match w {
        StoreWrite::Create(ns, key, data) => {
            assert_eq!(ns, Namespace::User);
            assert_eq!(key, username_hash(b"alice"));
            assert_eq!(data, vec![4, 0, 0, 0, 0x30, 0x59, 0x30, 0x13, b'a', b'l', b'i', b'c', b'e']);
        }
        _ => panic!("expected a new user file"),
    }
    assert_eq!(Namespace::User.dir_name(), "user");
}

#[test]
fn duplicate_registration() {
    let mut st = LocalStorage::new();
    st.set_user(alice()).unwrap();
    let other = User { username: b"alice".to_vec(), key: vec![1, 2, 3] };
    assert_eq!(st.set_user(other).unwrap_err(), Error::HashCollision);
    let u = st.get_user(&username_hash(b"alice")).unwrap().unwrap();
    assert_eq!(u.key, alice().key);
}

#[test]
fn user_round_trip() {
    let mut st = LocalStorage::new();
    let u = User { username: b"carol".to_vec(), key: vec![9u8; 4096] };
    st.set_user(u.clone()).unwrap();
    let back = st.get_user(&username_hash(b"carol")).unwrap().unwrap();
    assert_eq!(back.username, u.username);
    assert_eq!(back.key, u.key);
    assert!(st.get_user(&username_hash(b"dave")).unwrap().is_none());
}

#[test]
fn get_user_wrong_length() {
    let st = LocalStorage::new();
    assert_eq!(st.get_user(&[0u8; 31]).unwrap_err(), Error::CorruptedMessage);
    assert_eq!(st.get_sig(&[0u8; 33]).unwrap_err(), Error::CorruptedMessage);
    assert_eq!(st.get_obj(&[]).unwrap_err(), Error::CorruptedMessage);
}

#[test]
fn set_user_twice_keeps_store() {
    let mut st = LocalStorage::new();
    assert!(st.set_user(alice()).is_ok());
    assert_eq!(st.set_user(alice()).unwrap_err(), Error::HashCollision);
    let u = st.get_user(&username_hash(b"alice")).unwrap().unwrap();
    assert_eq!(u.username, b"alice".to_vec());
    assert_eq!(u.key, alice().key);
}

#[test]
fn first_signature_sets_tip() {
    let mut st = LocalStorage::new();
    assert!(st.get_prev().is_none());
    let s = sig([0xAA; 32], username_hash(b"alice"), [0; 32], &[0x30, 0x45, 1]);
    let expected = openssl::sha::sha256(&sig_bytes(&s));
    let writes = st.add_sig(s).unwrap();
    assert_eq!(st.get_prev(), Some(expected));
    assert_eq!(writes.len(), 3);
    match &writes[0] {
        StoreWrite::Create(Namespace::Sig, k, d) => {
            assert_eq!(*k, expected);
            assert_eq!(d.len(), 99);
        }
        _ => panic!("expected the signature file first"),
    }
    match &writes[1] {
        StoreWrite::Append(Namespace::Obj, k, d) => {
            assert_eq!(*k, [0xAA; 32]);
            assert_eq!(d.as_slice(), &expected[..]);
        }
        _ => panic!("expected the index append second"),
    }
    match &writes[2] {
        StoreWrite::SetTip(t) => assert_eq!(*t, expected),
        _ => panic!("expected the tip last"),
    }
}

#[test]
fn content_addressed_names() {
    let mut st = LocalStorage::new();
    for i in 0..3u8 {
        let s = sig([i; 32], [7; 32], tip_or_zero(&st), &[i, i]);
        st.add_sig(s).unwrap();
        let tip = st.get_prev().unwrap();
        let stored = st.get_sig(&tip).unwrap().unwrap();
        assert_eq!(openssl::sha::sha256(&sig_bytes(&stored)), tip);
    }
}

#[test]
fn object_index_in_commit_order() {
    let mut st = LocalStorage::new();
    let a = sig([0xAA; 32], username_hash(b"alice"), [0; 32], &[1]);
    st.add_sig(a).unwrap();
    let first = st.get_prev().unwrap();
    let other = sig([0xBB; 32], username_hash(b"alice"), first, &[2]);
    st.add_sig(other).unwrap();
    let mid = st.get_prev().unwrap();
    let b = sig([0xAA; 32], username_hash(b"bob"), mid, &[3]);
    st.add_sig(b).unwrap();
    let second = st.get_prev().unwrap();
    let idx = st.get_obj(&[0xAA; 32]).unwrap().unwrap();
    assert_eq!(idx.sigs, vec![first, second]);
    let idx_b = st.get_obj(&[0xBB; 32]).unwrap().unwrap();
    assert_eq!(idx_b.sigs, vec![mid]);
    assert!(st.get_obj(&[0xCC; 32]).unwrap().is_none());
}

#[test]
fn chain_walk_reaches_zero() {
    let mut st = LocalStorage::new();
    let mut committed = Vec::new();
    for i in 0..4u8 {
        let s = sig([i % 2; 32], [5; 32], tip_or_zero(&st), &[i]);
        st.add_sig(s).unwrap();
        committed.push(st.get_prev().unwrap());
    }
    let mut walked = Vec::new();
    let mut cur = st.get_prev().unwrap();
    while cur != [0u8; 32] {
        walked.push(cur);
        cur = st.get_sig(&cur).unwrap().unwrap().prev_sig;
    }
    walked.reverse();
    assert_eq!(walked, committed);
}

#[test]
fn colliding_signature_is_rejected() {
    let mut st = LocalStorage::new();
    let s = sig([0xAA; 32], [1; 32], [0; 32], &[1, 2]);
    st.add_sig(s.clone()).unwrap();
    let tip = st.get_prev();
    assert_eq!(st.add_sig(s).unwrap_err(), Error::HashCollision);
    assert_eq!(st.get_prev(), tip);
    assert_eq!(st.get_obj(&[0xAA; 32]).unwrap().unwrap().sigs.len(), 1);
}

#[test]
fn restore_records_from_disk() {
    let mut st = LocalStorage::new();
    let mut rec = Vec::new();
    alice().write_to(&mut rec);
    let name = fver::digest::key_filename(&username_hash(b"alice"));
    st.restore_record(Namespace::User, &name, rec.clone()).unwrap();
    let u = st.get_user(&username_hash(b"alice")).unwrap().unwrap();
    assert_eq!(u.username, b"alice".to_vec());
    assert_eq!(
        st.restore_record(Namespace::User, &name, rec.clone()).unwrap_err(),
        Error::CorruptedStorage
    );
    assert_eq!(
        st.restore_record(Namespace::Sig, &name.to_uppercase(), rec.clone()).unwrap_err(),
        Error::CorruptedStorage
    );
    assert_eq!(
        st.restore_record(Namespace::Sig, "abcd", rec.clone()).unwrap_err(),
        Error::CorruptedStorage
    );
    assert_eq!(st.restore_prev(&[1u8; 31]).unwrap_err(), Error::CorruptedStorage);
    st.restore_prev(&[1u8; 32]).unwrap();
    assert_eq!(st.get_prev(), Some([1u8; 32]));
}

#[test]
fn corrupted_records_surface_on_read() {
    let mut st = LocalStorage::new();
    let key = [3u8; 32];
    let name = fver::digest::key_filename(&key);
    st.restore_record(Namespace::User, &name, vec![0, 0x20, 0, 0]).unwrap();
    st.restore_record(Namespace::Obj, &name, vec![1u8; 33]).unwrap();
    st.restore_record(Namespace::Sig, &name, vec![1u8; 10]).unwrap();
    assert_eq!(st.get_user(&key).unwrap_err(), Error::CorruptedStorage);
    assert_eq!(st.get_obj(&key).unwrap_err(), Error::CorruptedStorage);
    assert_eq!(st.get_sig(&key).unwrap_err(), Error::CorruptedStorage);
}

#[test]
fn keys_sharing_leading_bytes() {
    let mut st = LocalStorage::new();
    let mut other = [0xAA; 32];
    other[31] = 1;
    let first = sig([0xAA; 32], [1; 32], [0; 32], &[1]);
    st.add_sig(first).unwrap();
    let id1 = st.get_prev().unwrap();
    let second = sig(other, [1; 32], id1, &[2]);
    st.add_sig(second).unwrap();
    let id2 = st.get_prev().unwrap();
    let third = sig([0xAA; 32], [1; 32], id2, &[3]);
    st.add_sig(third).unwrap();
    let id3 = st.get_prev().unwrap();
    assert_eq!(st.get_obj(&[0xAA; 32]).unwrap().unwrap().sigs, vec![id1, id3]);
    assert_eq!(st.get_obj(&other).unwrap().unwrap().sigs, vec![id2]);
    let mut near = [0xAA; 32];
    near[5] = 0;
    assert!(st.get_obj(&near).unwrap().is_none());
}
