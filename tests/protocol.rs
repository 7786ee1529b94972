use fver::client::{
    check_signature, enqueue_request, get_obj_request, get_sig_request, get_user_request, judge,
    parse_obj_reply, parse_sig_reply, parse_status_reply, parse_tip_reply, parse_user_reply,
    set_user_request, sign_object, signed_input, submission, Verdict,
};
use fver::digest::username_hash;
use fver::error::Error;
use fver::frame::{Frame, STATUS_ERROR, STATUS_FOUND, STATUS_OK};
use fver::record::{Signature, User};
use fver::server::{
    process_message, ClientAction, EnqueueAction, EnqueueEvent, EnqueueSession, EnqueueState,
    RoundRobin,
};
use fver::storage::LocalStorage;

use openssl::ec::{EcGroup, EcKey};
use openssl::nid::Nid;
use openssl::pkey::{PKey, Private};

fn frame(code: u8, buffers: Vec<Vec<u8>>) -> Frame {
    Frame { code: Some(code), buffers }
}

fn reply_of(action: ClientAction) -> Frame {
    match action {
        ClientAction::Respond(f) => f,
        _ => panic!("expected a reply"),
    }
}

fn new_key() -> PKey<Private> {
    let group = EcGroup::from_curve_name(Nid::SECP384R1).unwrap();
    PKey::from_ec_key(EcKey::generate(&group).unwrap()).unwrap()
}

fn register(st: &mut LocalStorage, name: &[u8], key: Vec<u8>) -> Frame {
    let req = set_user_request(&User { username: name.to_vec(), key });
    reply_of(process_message(&req, st).0)
}

/// Runs one whole enqueue exchange; the submitted record is built from the tip that was sent.
fn enqueue(
    st: &mut LocalStorage,
    make: impl FnOnce([u8; 32]) -> Signature,
) -> (Frame, Option<Frame>) {
    let mut session = EnqueueSession::new();
    let (action, writes) = session.step(EnqueueEvent::Begin, st);
    assert!(writes.is_empty());
    let tip_msg = match action {
        EnqueueAction::SendAndAwait(f) => f,
        _ => panic!("expected the tip"),
    };
    let tip = parse_tip_reply(Some(&tip_msg)).unwrap();
    let sub = submission(&make(tip));
    assert!(sub.code.is_none());
    let (action, _) = session.step(EnqueueEvent::Received(sub.buffers), st);
    assert_eq!(session.state, EnqueueState::Done);
    match action {
        EnqueueAction::SendAndClose(f) => (tip_msg, Some(f)),
        EnqueueAction::Close => (tip_msg, None),
        EnqueueAction::SendAndAwait(_) => panic!("exchange should be over"),
    }
}

#[test]
fn registration_over_the_wire() {
    let mut st = LocalStorage::new();
    let r = register(&mut st, b"alice", vec![0x30, 1, 2]);
    assert_eq!(r.code, Some(STATUS_OK));
    assert!(r.buffers.is_empty());
    let again = register(&mut st, b"alice", vec![0x30, 1, 2]);
    assert_eq!(again.code, Some(STATUS_ERROR));
    assert_eq!(again.code, Some(0xFF));
    assert_eq!(parse_status_reply(Some(&again)).unwrap_err(), Error::ServerError);
    assert!(parse_status_reply(Some(&r)).is_ok());
}

#[test]
fn get_user_over_the_wire() {
    let mut st = LocalStorage::new();
    register(&mut st, b"alice", vec![0x30, 9]);
    let (action, writes) = process_message(&get_user_request(&username_hash(b"alice")), &mut st);
    assert!(writes.is_empty());
    let f = reply_of(action);
    assert_eq!(f.code, Some(STATUS_FOUND));
    assert_eq!(f.buffers, vec![b"alice".to_vec(), vec![0x30, 9]]);
    let u = parse_user_reply(Some(&f)).unwrap().unwrap();
    assert_eq!(u.username, b"alice".to_vec());
    assert_eq!(u.key, vec![0x30, 9]);
    let missing = reply_of(process_message(&get_user_request(&[1; 32]), &mut st).0);
    assert_eq!(missing.code, Some(STATUS_OK));
    assert!(parse_user_reply(Some(&missing)).unwrap().is_none());
}

#[test]
fn corrupt_request_disconnects() {
    let mut st = LocalStorage::new();
    let short = frame(1, vec![vec![0u8; 31]]);
    assert!(matches!(process_message(&short, &mut st).0, ClientAction::Disconnect));
    assert!(matches!(process_message(&frame(2, vec![]), &mut st).0, ClientAction::Disconnect));
    assert!(matches!(process_message(&frame(0, vec![vec![1]]), &mut st).0, ClientAction::Disconnect));
    assert!(matches!(process_message(&frame(9, vec![]), &mut st).0, ClientAction::Disconnect));
    let empty = Frame { code: None, buffers: vec![] };
    assert!(matches!(process_message(&empty, &mut st).0, ClientAction::Disconnect));
    assert!(matches!(process_message(&enqueue_request(), &mut st).0, ClientAction::Enqueue));
}

#[test]
fn first_and_second_signature() {
    let mut st = LocalStorage::new();
    register(&mut st, b"alice", vec![0x30]);
    register(&mut st, b"bob", vec![0x31]);
    let file_hash = [0xAA; 32];
    let (tip1, status1) = enqueue(&mut st, |tip| Signature {
        obj: file_hash,
        user: username_hash(b"alice"),
        prev_sig: tip,
        signature: vec![0x30, 0x44],
    });
    assert_eq!(tip1.code, Some(STATUS_OK));
    assert!(tip1.buffers.is_empty());
    assert_eq!(status1.unwrap().code, Some(STATUS_OK));
    let mut expected_bytes = vec![0xAA; 32];
    expected_bytes.extend_from_slice(&username_hash(b"alice"));
    expected_bytes.extend_from_slice(&[0u8; 32]);
    expected_bytes.extend_from_slice(&[0x30, 0x44]);
    let first = openssl::sha::sha256(&expected_bytes);
    assert_eq!(st.get_prev(), Some(first));

    let (tip2, status2) = enqueue(&mut st, |tip| Signature {
        obj: file_hash,
        user: username_hash(b"bob"),
        prev_sig: tip,
        signature: vec![0x30, 0x45],
    });
    assert_eq!(tip2.code, Some(STATUS_FOUND));
    assert_eq!(tip2.buffers, vec![first.to_vec()]);
    assert_eq!(status2.unwrap().code, Some(STATUS_OK));
    let second = st.get_prev().unwrap();

    let f = reply_of(process_message(&get_obj_request(&file_hash), &mut st).0);
    assert_eq!(f.code, Some(STATUS_FOUND));
    assert_eq!(parse_obj_reply(Some(&f)).unwrap(), vec![first, second]);
    let g = reply_of(process_message(&get_sig_request(&second), &mut st).0);
    let s = parse_sig_reply(Some(&g)).unwrap().unwrap();
    assert_eq!(s.prev_sig, first);
    assert_eq!(s.user, username_hash(b"bob"));
}

#[test]
fn sign_and_verify_two_users() {
    let mut st = LocalStorage::new();
    let alice_key = new_key();
    let bob_key = new_key();
    register(&mut st, b"alice", alice_key.public_key_to_der().unwrap());
    register(&mut st, b"bob", bob_key.public_key_to_der().unwrap());
    let file_hash = openssl::sha::sha256(&[0, 1, 2, 3, 4, 5, 6, 7, 8, 9]);
    for (name, key) in [(&b"alice"[..], &alice_key), (&b"bob"[..], &bob_key)] {
        let (_, status) = enqueue(&mut st, |tip| sign_object(key, file_hash, name, tip).unwrap());
        assert_eq!(status.unwrap().code, Some(STATUS_OK));
    }
    let ids = parse_obj_reply(Some(&reply_of(
        process_message(&get_obj_request(&file_hash), &mut st).0,
    )))
    .unwrap();
    assert_eq!(ids.len(), 2);
    for id in ids {
        let sig = parse_sig_reply(Some(&reply_of(process_message(&get_sig_request(&id), &mut st).0)))
            .unwrap()
            .unwrap();
        let user = parse_user_reply(Some(&reply_of(
            process_message(&get_user_request(&sig.user), &mut st).0,
        )))
        .unwrap()
        .unwrap();
        assert_eq!(check_signature(&user.key, &sig), Ok(true));
        assert_eq!(judge(Some(&sig), Some(&user)), Ok(Verdict::Valid));
        let mut forged = sig.clone();
        forged.prev_sig = [0x11; 32];
        assert_eq!(judge(Some(&forged), Some(&user)), Ok(Verdict::Invalid));
    }
}

#[test]
fn judge_missing_parts() {
    let s = Signature { obj: [1; 32], user: [2; 32], prev_sig: [0; 32], signature: vec![1] };
    assert_eq!(judge(None, None), Ok(Verdict::UnknownSignature));
    assert_eq!(judge(Some(&s), None), Ok(Verdict::UnknownUser));
    let bad = User { username: b"x".to_vec(), key: vec![1, 2, 3] };
    assert_eq!(judge(Some(&s), Some(&bad)), Err(Error::CryptoError));
    assert_eq!(check_signature(&[0u8; 4], &s), Err(Error::CryptoError));
}

#[test]
fn signed_input_appends_zero_tip() {
    let v = signed_input(&[7; 32], &[0; 32]);
    assert_eq!(v.len(), 64);
    assert_eq!(&v[..32], &[7; 32]);
    assert_eq!(&v[32..], &[0; 32]);
}

#[test]
fn sign_object_fills_fields() {
    let key = new_key();
    let s = sign_object(&key, [4; 32], b"alice", [6; 32]).unwrap();
    assert_eq!(s.obj, [4; 32]);
    assert_eq!(s.user, username_hash(b"alice"));
    assert_eq!(s.prev_sig, [6; 32]);
    assert!(!s.signature.is_empty());
}

#[test]
fn enqueue_timeout_changes_nothing() {
    let mut st = LocalStorage::new();
    let mut session = EnqueueSession::new();
    let (a, _) = session.step(EnqueueEvent::Begin, &mut st);
    assert!(matches!(a, EnqueueAction::SendAndAwait(_)));
    let (a, w) = session.step(EnqueueEvent::TimedOut, &mut st);
    assert!(matches!(a, EnqueueAction::Close));
    assert!(w.is_empty());
    assert_eq!(session.state, EnqueueState::Done);
    assert!(st.get_prev().is_none());
    let (tip, status) = enqueue(&mut st, |tip| Signature {
        obj: [1; 32],
        user: [2; 32],
        prev_sig: tip,
        signature: vec![3],
    });
    assert_eq!(tip.code, Some(STATUS_OK));
    assert_eq!(status.unwrap().code, Some(STATUS_OK));
}

#[test]
fn enqueue_malformed_submission_is_silent() {
    let mut st = LocalStorage::new();
    let mut session = EnqueueSession::new();
    session.step(EnqueueEvent::Begin, &mut st);
    let bufs = vec![vec![1u8; 32], vec![2u8; 32], vec![0u8; 32], vec![]];
    let (a, w) = session.step(EnqueueEvent::Received(bufs), &mut st);
    assert!(matches!(a, EnqueueAction::Close));
    assert!(w.is_empty());
    assert!(st.get_prev().is_none());
    let mut out_of_order = EnqueueSession::new();
    let (a, _) = out_of_order.step(EnqueueEvent::Received(vec![]), &mut st);
    assert!(matches!(a, EnqueueAction::Close));
    assert_eq!(out_of_order.state, EnqueueState::Done);
}

#[test]
fn collision_under_contention() {
    let mut st = LocalStorage::new();
    let make = |tip: [u8; 32]| Signature {
        obj: [0xAA; 32],
        user: [1; 32],
        prev_sig: tip,
        signature: vec![9],
    };
    let (_, s1) = enqueue(&mut st, make);
    assert_eq!(s1.unwrap().code, Some(STATUS_OK));
    let tip = st.get_prev();
    let (_, s2) = enqueue(&mut st, |_| make([0u8; 32]));
    assert_eq!(s2.unwrap().code, Some(STATUS_ERROR));
    assert_eq!(st.get_prev(), tip);
    assert_eq!(st.get_obj(&[0xAA; 32]).unwrap().unwrap().sigs.len(), 1);
}

#[test]
fn serialized_commits_have_distinct_predecessors() {
    let mut st = LocalStorage::new();
    let mut prevs = Vec::new();
    for i in 0..5u8 {
        enqueue(&mut st, |tip| {
            prevs.push(tip);
            Signature { obj: [i; 32], user: [i; 32], prev_sig: tip, signature: vec![i + 1] }
        });
    }
    for i in 0..prevs.len() {
        for j in 0..prevs.len() {
            if i != j {
                assert_ne!(prevs[i], prevs[j]);
            }
        }
    }
}

#[test]
fn round_robin_wraps() {
    let mut rr = RoundRobin::new(3);
    let picks: Vec<usize> = (0..7).map(|_| rr.next_worker()).collect();
    assert_eq!(picks, vec![0, 1, 2, 0, 1, 2, 0]);
    let mut one = RoundRobin::new(1);
    assert_eq!(one.next_worker(), 0);
    assert_eq!(one.next_worker(), 0);
}

#[test]
fn client_reply_errors() {
    assert_eq!(parse_tip_reply(None).unwrap_err(), Error::ServerError);
    let no_status = Frame { code: None, buffers: vec![] };
    assert_eq!(parse_tip_reply(Some(&no_status)).unwrap_err(), Error::CorruptedMessage);
    assert_eq!(parse_tip_reply(Some(&frame(0xFF, vec![]))).unwrap_err(), Error::ServerError);
    assert_eq!(parse_tip_reply(Some(&frame(1, vec![vec![1; 31]]))).unwrap_err(), Error::CorruptedMessage);
    assert_eq!(parse_tip_reply(Some(&frame(0, vec![]))).unwrap(), [0u8; 32]);
    assert_eq!(parse_user_reply(Some(&frame(1, vec![vec![1]]))).unwrap_err(), Error::CorruptedMessage);
    assert_eq!(parse_user_reply(Some(&frame(0xFF, vec![]))).unwrap_err(), Error::ServerError);
    assert_eq!(parse_obj_reply(Some(&frame(1, vec![vec![1; 32], vec![2; 3]]))).unwrap_err(), Error::CorruptedMessage);
    assert!(parse_obj_reply(Some(&frame(0, vec![]))).unwrap().is_empty());
    assert_eq!(parse_obj_reply(Some(&frame(7, vec![]))).unwrap_err(), Error::ServerError);
    assert_eq!(parse_sig_reply(Some(&frame(1, vec![vec![1; 32]]))).unwrap_err(), Error::CorruptedMessage);
    assert!(parse_sig_reply(Some(&frame(0, vec![]))).unwrap().is_none());
    assert_eq!(parse_status_reply(None).unwrap_err(), Error::ServerError);
}

#[test]
fn request_layouts() {
    let u = User { username: b"alice".to_vec(), key: vec![0x30] };
    let r = set_user_request(&u);
    assert_eq!(r.code, Some(0));
    assert_eq!(r.buffers, vec![vec![0x30], b"alice".to_vec()]);
    assert_eq!(get_user_request(&[1; 32]).code, Some(1));
    assert_eq!(get_obj_request(&[1; 32]).code, Some(2));
    assert_eq!(get_sig_request(&[1; 32]).buffers, vec![vec![1u8; 32]]);
    assert_eq!(get_sig_request(&[1; 32]).code, Some(3));
    assert_eq!(enqueue_request().code, Some(4));
}

#[test]
fn registration_key_length_bound() {
    let mut st = LocalStorage::new();
    let longest = register(&mut st, b"max", vec![1u8; 4096]);
    assert_eq!(longest.code, Some(STATUS_OK));
    let req = set_user_request(&User { username: b"big".to_vec(), key: vec![1u8; 4097] });
    let (action, writes) = process_message(&req, &mut st);
    assert!(matches!(action, ClientAction::Disconnect));
    assert!(writes.is_empty());
    assert!(st.get_user(&username_hash(b"big")).unwrap().is_none());
}
