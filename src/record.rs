use vstd::prelude::*;

use crate::digest::Digest;
use crate::error::Error;

verus! {

/// The largest public key, in bytes, that a stored user record may hold.
pub const MAX_KEY_LEN: u32 = 4096;

/// The number of bytes of an identifier.
pub const HASH_LEN: usize = 32;

/// The little-endian value of the first four bytes of `b`.
pub open spec fn le32(b: Seq<u8>) -> int {
    b[0] as int + b[1] as int * 256 + b[2] as int * 65536 + b[3] as int * 16777216
}

/// The four little-endian bytes of `n`.
pub open spec fn le32_bytes(n: nat) -> Seq<u8> {
    seq![
        (n % 256) as u8,
        ((n / 256) % 256) as u8,
        ((n / 65536) % 256) as u8,
        ((n / 16777216) % 256) as u8,
    ]
}

pub proof fn lemma_le32_round_trip(n: nat)
    requires
        n <= u32::MAX,
    ensures
        le32_bytes(n).len() == 4,
        le32(le32_bytes(n)) == n,
{
    let b = le32_bytes(n);
    assert(n == (n % 256) + ((n / 256) % 256) * 256 + ((n / 65536) % 256) * 65536 + ((n
        / 16777216) % 256) * 16777216) by (nonlinear_arith)
        requires
            n <= 4294967295,
    ;
}

/// Appends the four little-endian bytes of `n`.
fn push_le32(out: &mut Vec<u8>, n: u32)
    ensures
        final(out)@ == old(out)@ + le32_bytes(n as nat),
{
    out.push((n % 256) as u8);
    out.push(((n / 256) % 256) as u8);
    out.push(((n / 65536) % 256) as u8);
    out.push(((n / 16777216) % 256) as u8);
    assert(final(out)@ =~= old(out)@ + le32_bytes(n as nat));
}

/// Reads the little-endian value of the first four bytes.
pub(crate) fn read_le32(b: &[u8]) -> (r: u32)
    requires
        b@.len() >= 4,
    ensures
        r as nat == le32(b@),
{
    b[0] as u32 + b[1] as u32 * 256 + b[2] as u32 * 65536 + b[3] as u32 * 16777216
}

/// Appends `src` to `out`.
pub(crate) fn push_all(out: &mut Vec<u8>, src: &[u8])
    ensures
        final(out)@ == old(out)@ + src@,
{
    let mut i: usize = 0;
    while i < src.len()
        invariant
            0 <= i <= src@.len(),
            out@ == old(out)@ + src@.subrange(0, i as int),
        decreases src@.len() - i,
    {
        out.push(src[i]);
        i = i + 1;
        assert(out@ =~= old(out)@ + src@.subrange(0, i as int));
    }
    assert(src@.subrange(0, src@.len() as int) =~= src@);
}

/// The bytes of `b` from `start` up to `end`, as a vector.
fn copy_range(b: &[u8], start: usize, end: usize) -> (r: Vec<u8>)
    requires
        start <= end <= b@.len(),
    ensures
        r@ == b@.subrange(start as int, end as int),
{
    let mut r: Vec<u8> = Vec::new();
    let mut i: usize = start;
    while i < end
        invariant
            start <= i <= end,
            end <= b@.len(),
            r@ == b@.subrange(start as int, i as int),
        decreases end - i,
    {
        r.push(b[i]);
        i = i + 1;
        assert(r@ =~= b@.subrange(start as int, i as int));
    }
    r
}

/// The identifier stored at `start` in `b`.
pub(crate) fn hash_at(b: &[u8], start: usize) -> (r: Digest)
    requires
        start + 32 <= b@.len(),
    ensures
        r@ == b@.subrange(start as int, start + 32),
{
    let mut r: Digest = [0u8; 32];
    let n = b.len();
    let mut i: usize = 0;
    while i < HASH_LEN
        invariant
            0 <= i <= 32,
            n == b@.len(),
            start + 32 <= b@.len(),
            r@.len() == 32,
            forall|j: int| 0 <= j < i ==> r@[j] == b@[start + j],
        decreases 32 - i,
    {
        r[i] = b[start + i];
        i = i + 1;
    }
    assert(r@ =~= b@.subrange(start as int, start + 32));
    r
}

/// A user as the store holds it: a name and the DER encoding of its public key.
#[derive(Clone, Debug)]
pub struct User {
    pub username: Vec<u8>,
    pub key: Vec<u8>,
}

/// The mathematical content of a user.
pub ghost struct UserView {
    pub username: Seq<u8>,
    pub key: Seq<u8>,
}

impl View for User {
    type V = UserView;

    open spec fn view(&self) -> UserView {
        UserView { username: self.username@, key: self.key@ }
    }
}

/// The stored form of a user: the key length as four little-endian bytes, the key, then the name.
pub open spec fn user_bytes(u: UserView) -> Seq<u8> {
    le32_bytes(u.key.len()) + u.key + u.username
}

/// The user that stored bytes hold, if they are a valid user record: the key length is at
/// most `MAX_KEY_LEN` and the record is long enough to hold the key.
pub open spec fn parse_user(b: Seq<u8>) -> Option<UserView> {
    if b.len() >= 4 && le32(b) <= MAX_KEY_LEN && b.len() >= 4 + le32(b) {
        Some(
            UserView {
                key: b.subrange(4, 4 + le32(b)),
                username: b.subrange(4 + le32(b), b.len() as int),
            },
        )
    } else {
        None
    }
}

impl UserView {
    /// A user whose key fits a stored record.
    pub open spec fn well_formed(self) -> bool {
        self.key.len() <= MAX_KEY_LEN
    }
}

/// A well-formed user reads back from its stored form unchanged.
pub proof fn lemma_user_bytes_round_trip(u: UserView)
    requires
        u.well_formed(),
    ensures
        parse_user(user_bytes(u)) == Some(u),
{
    lemma_le32_round_trip(u.key.len());
    let b = user_bytes(u);
    assert(le32(b) == le32(le32_bytes(u.key.len())));
    assert(b.subrange(4, 4 + u.key.len() as int) =~= u.key);
    assert(b.subrange(4 + u.key.len() as int, b.len() as int) =~= u.username);
}

impl User {
    /// Appends the stored form of the user to `out`.
    pub fn write_to(&self, out: &mut Vec<u8>)
        requires
            self.key@.len() <= u32::MAX,
        ensures
            final(out)@ == old(out)@ + user_bytes(self@),
    {
        push_le32(out, self.key.len() as u32);
        push_all(out, self.key.as_slice());
        push_all(out, self.username.as_slice());
        assert(final(out)@ =~= old(out)@ + user_bytes(self@));
    }

    /// Reads a user from its stored form; a record that is too short or announces a key longer
    /// than `MAX_KEY_LEN` is `CorruptedStorage`.
    pub fn read_from(bytes: &[u8]) -> (r: Result<User, Error>)
        ensures
            match r {
                Ok(u) => parse_user(bytes@) == Some(u@),
                Err(e) => parse_user(bytes@) is None && e == Error::CorruptedStorage,
            },
    {
        if bytes.len() < 4 {
            return Err(Error::CorruptedStorage);
        }
        let key_len = read_le32(bytes);
        if key_len > MAX_KEY_LEN {
            return Err(Error::CorruptedStorage);
        }
        if bytes.len() - 4 < key_len as usize {
            return Err(Error::CorruptedStorage);
        }
        let end = 4 + key_len as usize;
        let key = copy_range(bytes, 4, end);
        let username = copy_range(bytes, end, bytes.len());
        Ok(User { username, key })
    }
}

/// A signature record: the object signed, the signer, the chain tip it extends, and the
/// signature itself.
#[derive(Clone, Debug)]
pub struct Signature {
    pub obj: Digest,
    pub user: Digest,
    pub prev_sig: Digest,
    pub signature: Vec<u8>,
}

/// The mathematical content of a signature record.
pub ghost struct SignatureView {
    pub obj: Seq<u8>,
    pub user: Seq<u8>,
    pub prev_sig: Seq<u8>,
    pub signature: Seq<u8>,
}

impl View for Signature {
    type V = SignatureView;

    open spec fn view(&self) -> SignatureView {
        SignatureView {
            obj: self.obj@,
            user: self.user@,
            prev_sig: self.prev_sig@,
            signature: self.signature@,
        }
    }
}

impl SignatureView {
    /// The three identifiers have the length of a digest.
    pub open spec fn well_formed(self) -> bool {
        self.obj.len() == 32 && self.user.len() == 32 && self.prev_sig.len() == 32
    }
}

/// The stored form of a signature record: the four fields concatenated. Its digest is the
/// record's identifier.
pub open spec fn signature_bytes(s: SignatureView) -> Seq<u8> {
    s.obj + s.user + s.prev_sig + s.signature
}

/// The signature record that stored bytes hold: three identifiers, then the signature.
pub open spec fn parse_signature(b: Seq<u8>) -> Option<SignatureView> {
    if b.len() >= 96 {
        Some(
            SignatureView {
                obj: b.subrange(0, 32),
                user: b.subrange(32, 64),
                prev_sig: b.subrange(64, 96),
                signature: b.subrange(96, b.len() as int),
            },
        )
    } else {
        None
    }
}

/// A well-formed signature record reads back from its stored form unchanged.
pub proof fn lemma_signature_bytes_round_trip(s: SignatureView)
    requires
        s.well_formed(),
    ensures
        parse_signature(signature_bytes(s)) == Some(s),
{
    let b = signature_bytes(s);
    assert(b.subrange(0, 32) =~= s.obj);
    assert(b.subrange(32, 64) =~= s.user);
    assert(b.subrange(64, 96) =~= s.prev_sig);
    assert(b.subrange(96, b.len() as int) =~= s.signature);
}

impl Signature {
    /// Appends the stored form of the record to `out`.
    pub fn write_to(&self, out: &mut Vec<u8>)
        ensures
            final(out)@ == old(out)@ + signature_bytes(self@),
    {
        push_all(out, self.obj.as_slice());
        push_all(out, self.user.as_slice());
        push_all(out, self.prev_sig.as_slice());
        push_all(out, self.signature.as_slice());
        assert(final(out)@ =~= old(out)@ + signature_bytes(self@));
    }

    /// Reads a signature record from its stored form; one shorter than three identifiers is
    /// `CorruptedStorage`.
    pub fn read_from(bytes: &[u8]) -> (r: Result<Signature, Error>)
        ensures
            match r {
                Ok(s) => parse_signature(bytes@) == Some(s@),
                Err(e) => parse_signature(bytes@) is None && e == Error::CorruptedStorage,
            },
    {
        if bytes.len() < 96 {
            return Err(Error::CorruptedStorage);
        }
        let obj = hash_at(bytes, 0);
        let user = hash_at(bytes, 32);
        let prev_sig = hash_at(bytes, 64);
        let signature = copy_range(bytes, 96, bytes.len());
        Ok(Signature { obj, user, prev_sig, signature })
    }
}

/// The list of signature identifiers that an object index holds.
#[derive(Clone, Debug)]
pub struct Object {
    pub sigs: Vec<Digest>,
}

impl View for Object {
    type V = Seq<Seq<u8>>;

    open spec fn view(&self) -> Seq<Seq<u8>> {
        self.sigs@.map_values(|d: Digest| d@)
    }
}

/// The identifiers that the stored form of an object index holds: a run of 32-byte entries.
/// A length that is not a multiple of 32 ends in a partial entry, and is no valid index.
pub open spec fn parse_ids(b: Seq<u8>) -> Option<Seq<Seq<u8>>> {
    if b.len() % 32 == 0 {
        Some(Seq::new(b.len() / 32, |i: int| b.subrange(32 * i, 32 * i + 32)))
    } else {
        None
    }
}

impl Object {
    /// Reads an object index from its stored form; a partial last entry is `CorruptedStorage`.
    pub fn read_from(bytes: &[u8]) -> (r: Result<Object, Error>)
        ensures
            match r {
                Ok(o) => parse_ids(bytes@) == Some(o@),
                Err(e) => parse_ids(bytes@) is None && e == Error::CorruptedStorage,
            },
    {
        let n = bytes.len();
        if n % 32 != 0 {
            return Err(Error::CorruptedStorage);
        }
        let mut sigs: Vec<Digest> = Vec::new();
        let mut off: usize = 0;
        while off < n
            invariant
                n == bytes@.len(),
                n % 32 == 0,
                off <= n,
                off == 32 * sigs@.len(),
                forall|k: int|
                    0 <= k < sigs@.len() ==> #[trigger] sigs@[k]@ == bytes@.subrange(
                        32 * k,
                        32 * k + 32,
                    ),
            decreases n - off,
        {
            sigs.push(hash_at(bytes, off));
            off = off + 32;
        }
        let o = Object { sigs };
        assert(o@ =~= Seq::new(n as nat / 32, |i: int| bytes@.subrange(32 * i, 32 * i + 32)));
        Ok(o)
    }
}

} // verus!
