use vstd::prelude::*;

use openssl::error::ErrorStack;
use openssl::pkey::{PKey, Private};

use crate::digest::{username_hash, Digest};
use crate::error::Error;
use crate::frame::{status_frame, Frame, FrameView, STATUS_FOUND, STATUS_OK};
use crate::record::{hash_at, Signature, SignatureView, User, UserView};
use crate::server::{
    parse_request, parse_submission, sig_reply, user_reply, RequestView, OP_ENQUEUE, OP_GET_OBJ,
    OP_GET_SIG, OP_GET_USER, OP_SET_USER,
};
use crate::storage::zero_digest;

verus! {

#[verifier::external_type_specification]
#[verifier::external_body]
#[verifier::reject_recursive_types(T)]
pub struct ExPKey<T>(PKey<T>);

#[verifier::external_type_specification]
#[verifier::external_body]
pub struct ExPrivate(Private);

#[verifier::external_type_specification]
#[verifier::external_body]
pub struct ExErrorStack(ErrorStack);

/// Whether `sig` is a valid signature of `data` under the public key whose DER encoding is
/// `key_der`.
pub uninterp spec fn signature_verifies(key_der: Seq<u8>, data: Seq<u8>, sig: Seq<u8>) -> bool;

/// Whether checking `sig` against `data` under the DER-encoded key `key_der` fails outright: the
/// key does not parse, or the verifier reports an error.
pub uninterp spec fn verify_fails(key_der: Seq<u8>, data: Seq<u8>, sig: Seq<u8>) -> bool;

/// Relies on openssl's `Signer::new_without_digest`, `update` and `sign_to_vec`: a signature of
/// `data` under `key`. ECDSA draws a fresh nonce, so nothing is known of the bytes.
#[verifier::external_body]
fn ecdsa_sign(key: &PKey<Private>, data: &[u8]) -> (r: Result<Vec<u8>, ErrorStack>) {
    let mut signer = openssl::sign::Signer::new_without_digest(key)?;
    signer.update(data)?;
    signer.sign_to_vec()
}

/// Relies on openssl's `PKey::public_key_from_der` and `Verifier::new_without_digest`,
/// `update` and `verify`: whether `sig` signs `data` under the DER-encoded public key, and
/// whether the check fails, both depend on the three byte strings alone.
#[verifier::external_body]
fn ecdsa_verify(key_der: &[u8], data: &[u8], sig: &[u8]) -> (r: Result<bool, ErrorStack>)
    ensures
        r matches Ok(b) ==> b == signature_verifies(key_der@, data@, sig@),
        r is Err <==> verify_fails(key_der@, data@, sig@),
{
    let key = PKey::public_key_from_der(key_der)?;
    let mut verifier = openssl::sign::Verifier::new_without_digest(&key)?;
    verifier.update(data)?;
    verifier.verify(sig)
}

/// The bytes that a signature covers: the object's digest, then the tip it extends. The
/// all-zero tip of the first signature is included like any other.
pub open spec fn signed_input_spec(obj: Seq<u8>, prev_sig: Seq<u8>) -> Seq<u8> {
    obj + prev_sig
}

/// Builds the bytes that a signature covers; signing and checking both use it.
pub fn signed_input(obj: &Digest, prev_sig: &Digest) -> (r: Vec<u8>)
    ensures
        r@ == signed_input_spec(obj@, prev_sig@),
{
    let mut r: Vec<u8> = Vec::new();
    crate::record::push_all(&mut r, obj.as_slice());
    crate::record::push_all(&mut r, prev_sig.as_slice());
    r
}

/// Signs the object `obj` for `username` on top of the tip `prev_sig`. The record names the
/// object, the digest of the username and the tip; a failure of the signer is `CryptoError`.
pub fn sign_object(key: &PKey<Private>, obj: Digest, username: &[u8], prev_sig: Digest) -> (r:
    Result<Signature, Error>)
    ensures
        match r {
            Ok(s) => s.obj == obj && s.user == crate::digest::sha256_of(username@) && s.prev_sig
                == prev_sig,
            Err(e) => e == Error::CryptoError,
        },
{
    let data = signed_input(&obj, &prev_sig);
    match ecdsa_sign(key, data.as_slice()) {
        Ok(signature) => Ok(Signature { obj, user: username_hash(username), prev_sig, signature }),
        Err(_) => Err(Error::CryptoError),
    }
}

/// Checks a signature record against the DER-encoded public key of its signer, over the
/// object's digest followed by the record's tip. A key that does not parse, or a failure of
/// the verifier, is `CryptoError`.
pub fn check_signature(key_der: &[u8], sig: &Signature) -> (r: Result<bool, Error>)
    ensures
        r matches Ok(b) ==> b == signature_verifies(
            key_der@,
            signed_input_spec(sig.obj@, sig.prev_sig@),
            sig.signature@,
        ),
        r matches Err(e) ==> e == Error::CryptoError,
        r is Err <==> verify_fails(
            key_der@,
            signed_input_spec(sig.obj@, sig.prev_sig@),
            sig.signature@,
        ),
{
    let data = signed_input(&sig.obj, &sig.prev_sig);
    match ecdsa_verify(key_der, data.as_slice(), sig.signature.as_slice()) {
        Ok(b) => Ok(b),
        Err(_) => Err(Error::CryptoError),
    }
}

/// The outcome of checking one signature of an object.
#[derive(Debug, Clone, Copy, PartialEq, Eq, Structural)]
pub enum Verdict {
    /// The server holds no record under the identifier.
    UnknownSignature,
    /// The server holds no user under the record's signer.
    UnknownUser,
    /// The signature is valid under the signer's key.
    Valid,
    /// The signature is not valid under the signer's key.
    Invalid,
}

/// Judges one signature of an object from what the server returned for it: its record, and
/// the user that the record names as signer.
pub fn judge(sig: Option<&Signature>, user: Option<&User>) -> (r: Result<Verdict, Error>)
    ensures
        sig is None ==> r == Ok::<_, Error>(Verdict::UnknownSignature),
        sig is Some && user is None ==> r == Ok::<_, Error>(Verdict::UnknownUser),
        sig is Some && user is Some ==> match r {
            Ok(v) => (v == Verdict::Valid || v == Verdict::Invalid) && ((v == Verdict::Valid)
                == signature_verifies(
                user.unwrap().key@,
                signed_input_spec(sig.unwrap().obj@, sig.unwrap().prev_sig@),
                sig.unwrap().signature@,
            )),
            Err(e) => e == Error::CryptoError,
        },
        sig is Some && user is Some ==> (r is Err <==> verify_fails(
            user.unwrap().key@,
            signed_input_spec(sig.unwrap().obj@, sig.unwrap().prev_sig@),
            sig.unwrap().signature@,
        )),
{
    match sig {
        None => Ok(Verdict::UnknownSignature),
        Some(s) => match user {
            None => Ok(Verdict::UnknownUser),
            Some(u) => match check_signature(u.key.as_slice(), s) {
                Ok(true) => Ok(Verdict::Valid),
                Ok(false) => Ok(Verdict::Invalid),
                Err(e) => Err(e),
            },
        },
    }
}

/// A request that registers `u`: its key, then its name.
pub fn set_user_request(u: &User) -> (r: Frame)
    ensures
        r@ == (FrameView { code: Some(OP_SET_USER), buffers: seq![u.key@, u.username@] }),
{
    let mut r = Frame::with_code(OP_SET_USER);
    r.push_buffer(u.key.as_slice());
    r.push_buffer(u.username.as_slice());
    assert(r@.buffers =~= seq![u.key@, u.username@]);
    r
}

fn lookup_request(op: u8, hash: &Digest) -> (r: Frame)
    ensures
        r@ == (FrameView { code: Some(op), buffers: seq![hash@] }),
{
    let mut r = Frame::with_code(op);
    r.push_buffer(hash.as_slice());
    assert(r@.buffers =~= seq![hash@]);
    r
}

/// A request that looks up the user `hash`.
pub fn get_user_request(hash: &Digest) -> (r: Frame)
    ensures
        r@ == (FrameView { code: Some(OP_GET_USER), buffers: seq![hash@] }),
{
    lookup_request(OP_GET_USER, hash)
}

/// A request that lists the signatures of the object `hash`.
pub fn get_obj_request(hash: &Digest) -> (r: Frame)
    ensures
        r@ == (FrameView { code: Some(OP_GET_OBJ), buffers: seq![hash@] }),
{
    lookup_request(OP_GET_OBJ, hash)
}

/// A request that looks up the signature record `hash`.
pub fn get_sig_request(hash: &Digest) -> (r: Frame)
    ensures
        r@ == (FrameView { code: Some(OP_GET_SIG), buffers: seq![hash@] }),
{
    lookup_request(OP_GET_SIG, hash)
}

/// The request that opens an enqueue exchange.
pub fn enqueue_request() -> (r: Frame)
    ensures
        r@ == status_frame(OP_ENQUEUE),
{
    Frame::with_code(OP_ENQUEUE)
}

/// The follow-up message of an enqueue exchange: the four fields of the record, with no
/// leading byte.
pub fn submission(s: &Signature) -> (r: Frame)
    ensures
        r@ == (FrameView {
            code: None,
            buffers: seq![s.obj@, s.user@, s.prev_sig@, s.signature@],
        }),
{
    let mut r = Frame { code: None, buffers: Vec::new() };
    r.push_buffer(s.obj.as_slice());
    r.push_buffer(s.user.as_slice());
    r.push_buffer(s.prev_sig.as_slice());
    r.push_buffer(s.signature.as_slice());
    assert(r@.buffers =~= seq![s.obj@, s.user@, s.prev_sig@, s.signature@]);
    r
}

/// What a reply to an enqueue request means: the tip, the all-zero identifier where the chain
/// is empty, or an error. No reply, or a reply with another status, is `ServerError`; a reply
/// without status or with a malformed tip is `CorruptedMessage`.
pub open spec fn tip_result(reply: Option<FrameView>) -> Result<Seq<u8>, Error> {
    match reply {
        None => Err(Error::ServerError),
        Some(f) => match f.code {
            None => Err(Error::CorruptedMessage),
            Some(c) => if c == STATUS_OK {
                Ok(zero_digest())
            } else if c == STATUS_FOUND {
                if f.buffers.len() >= 1 && f.buffers[0].len() == 32 {
                    Ok(f.buffers[0])
                } else {
                    Err(Error::CorruptedMessage)
                }
            } else {
                Err(Error::ServerError)
            },
        },
    }
}

/// What a status-only reply means: success on `STATUS_OK`, else `ServerError`.
pub open spec fn status_result(reply: Option<FrameView>) -> Result<(), Error> {
    match reply {
        None => Err(Error::ServerError),
        Some(f) => match f.code {
            None => Err(Error::CorruptedMessage),
            Some(c) => if c == STATUS_OK {
                Ok(())
            } else {
                Err(Error::ServerError)
            },
        },
    }
}

/// What a reply to a user lookup means: not found, the user (name, then key), or an error.
pub open spec fn user_result(reply: Option<FrameView>) -> Result<Option<UserView>, Error> {
    match reply {
        None => Err(Error::ServerError),
        Some(f) => match f.code {
            None => Err(Error::CorruptedMessage),
            Some(c) => if c == STATUS_OK {
                Ok(None)
            } else if c == STATUS_FOUND {
                if f.buffers.len() >= 2 {
                    Ok(Some(UserView { username: f.buffers[0], key: f.buffers[1] }))
                } else {
                    Err(Error::CorruptedMessage)
                }
            } else {
                Err(Error::ServerError)
            },
        },
    }
}

/// Every buffer is one identifier.
pub open spec fn all_identifiers(b: Seq<Seq<u8>>) -> bool {
    forall|i: int| 0 <= i < b.len() ==> (#[trigger] b[i]).len() == 32
}

/// What a reply to an object lookup means: the identifiers of its signatures, none where the
/// object is unknown, or an error.
pub open spec fn obj_result(reply: Option<FrameView>) -> Result<Seq<Seq<u8>>, Error> {
    match reply {
        None => Err(Error::ServerError),
        Some(f) => match f.code {
            None => Err(Error::CorruptedMessage),
            Some(c) => if c == STATUS_OK {
                Ok(Seq::empty())
            } else if c == STATUS_FOUND {
                if all_identifiers(f.buffers) {
                    Ok(f.buffers)
                } else {
                    Err(Error::CorruptedMessage)
                }
            } else {
                Err(Error::ServerError)
            },
        },
    }
}

/// What a reply to a signature lookup means: not found, the record, or an error.
pub open spec fn sig_result(reply: Option<FrameView>) -> Result<Option<SignatureView>, Error> {
    match reply {
        None => Err(Error::ServerError),
        Some(f) => match f.code {
            None => Err(Error::CorruptedMessage),
            Some(c) => if c == STATUS_OK {
                Ok(None)
            } else if c == STATUS_FOUND {
                if f.buffers.len() >= 4 && f.buffers[0].len() == 32 && f.buffers[1].len() == 32
                    && f.buffers[2].len() == 32 {
                    Ok(
                        Some(
                            SignatureView {
                                obj: f.buffers[0],
                                user: f.buffers[1],
                                prev_sig: f.buffers[2],
                                signature: f.buffers[3],
                            },
                        ),
                    )
                } else {
                    Err(Error::CorruptedMessage)
                }
            } else {
                Err(Error::ServerError)
            },
        },
    }
}

/// The content of a reply that may be missing.
pub open spec fn reply_view(reply: Option<&Frame>) -> Option<FrameView> {
    match reply {
        Some(f) => Some(f@),
        None => None,
    }
}

/// Reads the reply to an enqueue request; see `tip_result`.
pub fn parse_tip_reply(reply: Option<&Frame>) -> (r: Result<Digest, Error>)
    ensures
        match r {
            Ok(d) => tip_result(reply_view(reply)) == Ok::<_, Error>(d@),
            Err(e) => tip_result(reply_view(reply)) == Err::<Seq<u8>, _>(e),
        },
{
    let f = match reply {
        None => {
            return Err(Error::ServerError);
        },
        Some(f) => f,
    };
    match f.code {
        None => Err(Error::CorruptedMessage),
        Some(c) => if c == STATUS_OK {
            let z: Digest = [0u8; 32];
            assert(z@ =~= zero_digest());
            Ok(z)
        } else if c == STATUS_FOUND {
            if f.buffers.len() >= 1 && f.buffers[0].len() == 32 {
                let d = hash_at(f.buffers[0].as_slice(), 0);
                assert(d@ =~= f@.buffers[0]);
                Ok(d)
            } else {
                Err(Error::CorruptedMessage)
            }
        } else {
            Err(Error::ServerError)
        },
    }
}

/// Reads a status-only reply; see `status_result`.
pub fn parse_status_reply(reply: Option<&Frame>) -> (r: Result<(), Error>)
    ensures
        r == status_result(reply_view(reply)),
{
    match reply {
        None => Err(Error::ServerError),
        Some(f) => match f.code {
            None => Err(Error::CorruptedMessage),
            Some(c) => if c == STATUS_OK {
                Ok(())
            } else {
                Err(Error::ServerError)
            },
        },
    }
}

/// Reads the reply to a user lookup; see `user_result`.
pub fn parse_user_reply(reply: Option<&Frame>) -> (r: Result<Option<User>, Error>)
    ensures
        match r {
            Ok(Some(u)) => user_result(reply_view(reply)) == Ok::<_, Error>(Some(u@)),
            Ok(None) => user_result(reply_view(reply)) == Ok::<_, Error>(None::<UserView>),
            Err(e) => user_result(reply_view(reply)) == Err::<Option<UserView>, _>(e),
        },
{
    let f = match reply {
        None => {
            return Err(Error::ServerError);
        },
        Some(f) => f,
    };
    match f.code {
        None => Err(Error::CorruptedMessage),
        Some(c) => if c == STATUS_OK {
            Ok(None)
        } else if c == STATUS_FOUND {
            if f.buffers.len() >= 2 {
                let mut username: Vec<u8> = Vec::new();
                crate::record::push_all(&mut username, f.buffers[0].as_slice());
                let mut key: Vec<u8> = Vec::new();
                crate::record::push_all(&mut key, f.buffers[1].as_slice());
                Ok(Some(User { username, key }))
            } else {
                Err(Error::CorruptedMessage)
            }
        } else {
            Err(Error::ServerError)
        },
    }
}

/// Reads the reply to an object lookup; see `obj_result`.
pub fn parse_obj_reply(reply: Option<&Frame>) -> (r: Result<Vec<Digest>, Error>)
    ensures
        match r {
            Ok(ids) => obj_result(reply_view(reply)) == Ok::<_, Error>(
                ids@.map_values(|d: Digest| d@),
            ),
            Err(e) => obj_result(reply_view(reply)) == Err::<Seq<Seq<u8>>, _>(e),
        },
{
    let f = match reply {
        None => {
            return Err(Error::ServerError);
        },
        Some(f) => f,
    };
    match f.code {
        None => Err(Error::CorruptedMessage),
        Some(c) => if c == STATUS_OK {
            assert(reply_view(reply) == Some(f@));
            let ids: Vec<Digest> = Vec::new();
            assert(ids@.map_values(|d: Digest| d@) =~= Seq::<Seq<u8>>::empty());
            Ok(ids)
        } else if c == STATUS_FOUND {
            let mut ids: Vec<Digest> = Vec::new();
            let mut i: usize = 0;
            while i < f.buffers.len()
                invariant
                    0 <= i <= f.buffers@.len(),
                    reply_view(reply) == Some(f@),
                    f@.code == Some(STATUS_FOUND),
                    ids@.map_values(|d: Digest| d@) == f@.buffers.subrange(0, i as int),
                    all_identifiers(f@.buffers.subrange(0, i as int)),
                decreases f.buffers@.len() - i,
            {
                if f.buffers[i].len() != 32 {
                    assert(reply_view(reply) == Some(f@));
                    assert(f@.buffers[i as int].len() != 32);
                    assert(!all_identifiers(f@.buffers));
                    return Err(Error::CorruptedMessage);
                }
                let d = hash_at(f.buffers[i].as_slice(), 0);
                assert(d@ =~= f@.buffers[i as int]);
                let ghost before = ids@;
                ids.push(d);
                assert(ids@.map_values(|d: Digest| d@) =~= before.map_values(|d: Digest| d@).push(
                    d@,
                ));
                assert(f@.buffers.subrange(0, i + 1) =~= f@.buffers.subrange(0, i as int).push(
                    f@.buffers[i as int],
                ));
                i = i + 1;
                assert(all_identifiers(f@.buffers.subrange(0, i as int))) by {
                    assert forall|j: int| 0 <= j < i implies (#[trigger] f@.buffers.subrange(
                        0,
                        i as int,
                    )[j]).len() == 32 by {
                        if j < i - 1 {
                            assert(f@.buffers.subrange(0, i as int)[j] == f@.buffers.subrange(
                                0,
                                i - 1,
                            )[j]);
                        }
                    }
                }
            }
            assert(f@.buffers.subrange(0, f@.buffers.len() as int) =~= f@.buffers);
            Ok(ids)
        } else {
            Err(Error::ServerError)
        },
    }
}

/// Reads the reply to a signature lookup; see `sig_result`.
pub fn parse_sig_reply(reply: Option<&Frame>) -> (r: Result<Option<Signature>, Error>)
    ensures
        match r {
            Ok(Some(s)) => sig_result(reply_view(reply)) == Ok::<_, Error>(Some(s@)),
            Ok(None) => sig_result(reply_view(reply)) == Ok::<_, Error>(None::<SignatureView>),
            Err(e) => sig_result(reply_view(reply)) == Err::<Option<SignatureView>, _>(e),
        },
{
    let f = match reply {
        None => {
            return Err(Error::ServerError);
        },
        Some(f) => f,
    };
    match f.code {
        None => Err(Error::CorruptedMessage),
        Some(c) => if c == STATUS_OK {
            Ok(None)
        } else if c == STATUS_FOUND {
            if f.buffers.len() >= 4 && f.buffers[0].len() == 32 && f.buffers[1].len() == 32
                && f.buffers[2].len() == 32 {
                let obj = hash_at(f.buffers[0].as_slice(), 0);
                let user = hash_at(f.buffers[1].as_slice(), 0);
                let prev_sig = hash_at(f.buffers[2].as_slice(), 0);
                let mut signature: Vec<u8> = Vec::new();
                crate::record::push_all(&mut signature, f.buffers[3].as_slice());
                assert(obj@ =~= f@.buffers[0]);
                assert(user@ =~= f@.buffers[1]);
                assert(prev_sig@ =~= f@.buffers[2]);
                Ok(Some(Signature { obj, user, prev_sig, signature }))
            } else {
                Err(Error::CorruptedMessage)
            }
        } else {
            Err(Error::ServerError)
        },
    }
}

/// A registration that the client sends is read by the server as the same user, and the
/// server's reply to a lookup of that user is read by the client as the same user.
pub proof fn lemma_user_wire_round_trip(u: UserView)
    requires
        u.well_formed(),
    ensures
        parse_request(FrameView { code: Some(OP_SET_USER), buffers: seq![u.key, u.username] })
            == Some(RequestView::SetUser(u)),
        user_result(Some(user_reply(Ok(Some(u))))) == Ok::<_, Error>(Some(u)),
{
}

/// A submission that the client sends for a record with a non-empty signature is read by the
/// serial worker as the same record, and the server's reply to a lookup of that record is read
/// by the client as the same record.
pub proof fn lemma_signature_wire_round_trip(s: SignatureView)
    requires
        s.well_formed(),
        s.signature.len() > 0,
    ensures
        parse_submission(seq![s.obj, s.user, s.prev_sig, s.signature]) == Some(s),
        sig_result(Some(sig_reply(Ok(Some(s))))) == Ok::<_, Error>(Some(s)),
{
}

} // verus!
