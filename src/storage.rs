use vstd::prelude::*;

use crate::digest::{from_hex, hex_chars, sha256, sha256_of, to_hex, Digest};
use crate::error::Error;
use crate::record::{
    hash_at, parse_ids, parse_signature, parse_user, signature_bytes, user_bytes, Object,
    Signature, SignatureView, User, UserView,
};
use crate::table::Table;

verus! {

/// The three keyed namespaces of the store, each a flat directory of records named by the
/// lowercase hex of their key.
#[derive(Debug, Clone, Copy, PartialEq, Eq, Structural)]
pub enum Namespace {
    User,
    Sig,
    Obj,
}

impl Namespace {
    /// The directory of the namespace under the storage root.
    pub fn dir_name(&self) -> (r: &'static str)
        ensures
            r@ == self.dir_name_spec(),
    {
        match self {
            Namespace::User => "user",
            Namespace::Sig => "sig",
            Namespace::Obj => "obj",
        }
    }

    pub open spec fn dir_name_spec(&self) -> Seq<char> {
        match self {
            Namespace::User => "user"@,
            Namespace::Sig => "sig"@,
            Namespace::Obj => "obj"@,
        }
    }
}

/// A change that makes a store operation durable on disk.
#[derive(Clone, Debug)]
pub enum StoreWrite {
    /// Create the record file `key` in the namespace with `data`; it does not exist yet.
    Create(Namespace, Digest, Vec<u8>),
    /// Append `data` to the record file `key` in the namespace, creating it if absent.
    Append(Namespace, Digest, Vec<u8>),
    /// Overwrite the singleton tip file with the identifier.
    SetTip(Digest),
}

impl StoreWrite {
    pub open spec fn creates(&self, ns: Namespace, key: Seq<u8>, data: Seq<u8>) -> bool {
        match self {
            StoreWrite::Create(n, k, d) => *n == ns && k@ == key && d@ == data,
            _ => false,
        }
    }

    pub open spec fn appends(&self, ns: Namespace, key: Seq<u8>, data: Seq<u8>) -> bool {
        match self {
            StoreWrite::Append(n, k, d) => *n == ns && k@ == key && d@ == data,
            _ => false,
        }
    }

    pub open spec fn sets_tip(&self, key: Seq<u8>) -> bool {
        match self {
            StoreWrite::SetTip(k) => k@ == key,
            _ => false,
        }
    }

    /// The files of the store after this write.
    pub open spec fn effect(&self, v: StoreView) -> StoreView {
        match self {
            StoreWrite::Create(ns, k, d) => v.with_record(*ns, k@, d@),
            StoreWrite::Append(ns, k, d) => v.with_record(
                *ns,
                k@,
                if v.table(*ns).contains_key(k@) {
                    v.table(*ns)[k@] + d@
                } else {
                    d@
                },
            ),
            StoreWrite::SetTip(k) => StoreView { prev: Some(k@), ..v },
        }
    }
}

/// The files of the store after a sequence of writes, in order.
pub open spec fn apply_writes(v: StoreView, ws: Seq<StoreWrite>) -> StoreView
    decreases ws.len(),
{
    if ws.len() == 0 {
        v
    } else {
        ws.last().effect(apply_writes(v, ws.drop_last()))
    }
}

/// The identifier of a user: the digest of its name.
pub open spec fn user_id(u: UserView) -> Seq<u8> {
    sha256_of(u.username)@
}

/// The identifier of a signature record: the digest of its stored form.
pub open spec fn signature_id(s: SignatureView) -> Seq<u8> {
    sha256_of(signature_bytes(s))@
}

/// The all-zero identifier, which stands for the absent tip.
pub open spec fn zero_digest() -> Seq<u8> {
    Seq::new(32, |i: int| 0u8)
}

/// An operation that changes the store.
pub ghost enum StoreOp {
    SetUser(UserView),
    AddSig(SignatureView),
}

/// The contents of the store: the stored bytes of each namespace by key, and the tip.
pub ghost struct StoreView {
    pub users: Map<Seq<u8>, Seq<u8>>,
    pub sigs: Map<Seq<u8>, Seq<u8>>,
    pub objs: Map<Seq<u8>, Seq<u8>>,
    pub prev: Option<Seq<u8>>,
}

impl StoreView {
    pub open spec fn empty() -> StoreView {
        StoreView { users: Map::empty(), sigs: Map::empty(), objs: Map::empty(), prev: None }
    }

    /// The tip, or the all-zero identifier while the chain is empty.
    pub open spec fn tip_or_zero(self) -> Seq<u8> {
        match self.prev {
            Some(t) => t,
            None => zero_digest(),
        }
    }

    /// The stored object index of `obj`, empty where there is none.
    pub open spec fn index_bytes(self, obj: Seq<u8>) -> Seq<u8> {
        if self.objs.contains_key(obj) {
            self.objs[obj]
        } else {
            Seq::empty()
        }
    }

    /// Registering `u` fails exactly when its slot is taken.
    pub open spec fn set_user_outcome(self, u: UserView) -> Result<(), Error> {
        if self.users.contains_key(user_id(u)) {
            Err(Error::HashCollision)
        } else {
            Ok(())
        }
    }

    /// The store after `u` is written into its free slot.
    pub open spec fn with_user(self, u: UserView) -> StoreView {
        StoreView { users: self.users.insert(user_id(u), user_bytes(u)), ..self }
    }

    /// Committing `s` fails exactly when its slot is taken.
    pub open spec fn add_sig_outcome(self, s: SignatureView) -> Result<(), Error> {
        if self.sigs.contains_key(signature_id(s)) {
            Err(Error::HashCollision)
        } else {
            Ok(())
        }
    }

    /// The store after `s` is committed: its record is written, its identifier is appended to
    /// the index of its object, and it becomes the tip.
    pub open spec fn with_signature(self, s: SignatureView) -> StoreView {
        let id = signature_id(s);
        StoreView {
            sigs: self.sigs.insert(id, signature_bytes(s)),
            objs: self.objs.insert(s.obj, self.index_bytes(s.obj) + id),
            prev: Some(id),
            ..self
        }
    }

    /// The namespace `ns` of the store.
    pub open spec fn table(self, ns: Namespace) -> Map<Seq<u8>, Seq<u8>> {
        match ns {
            Namespace::User => self.users,
            Namespace::Sig => self.sigs,
            Namespace::Obj => self.objs,
        }
    }

    /// The store with `data` stored under `key` in namespace `ns`.
    pub open spec fn with_record(self, ns: Namespace, key: Seq<u8>, data: Seq<u8>) -> StoreView {
        match ns {
            Namespace::User => StoreView { users: self.users.insert(key, data), ..self },
            Namespace::Sig => StoreView { sigs: self.sigs.insert(key, data), ..self },
            Namespace::Obj => StoreView { objs: self.objs.insert(key, data), ..self },
        }
    }

    /// The store after an operation; a rejected one leaves it unchanged.
    pub open spec fn apply(self, op: StoreOp) -> StoreView {
        match op {
            StoreOp::SetUser(u) => if self.set_user_outcome(u) is Ok {
                self.with_user(u)
            } else {
                self
            },
            StoreOp::AddSig(s) => if self.add_sig_outcome(s) is Ok {
                self.with_signature(s)
            } else {
                self
            },
        }
    }

    /// The store after a sequence of operations, in order.
    pub open spec fn apply_all(self, ops: Seq<StoreOp>) -> StoreView
        decreases ops.len(),
    {
        if ops.len() == 0 {
            self
        } else {
            self.apply_all(ops.drop_last()).apply(ops.last())
        }
    }

    /// What a lookup of user `h` returns: a key of the wrong length is `CorruptedMessage`, an
    /// empty slot is `None`, and an invalid record is `CorruptedStorage`.
    pub open spec fn user_lookup(self, h: Seq<u8>) -> Result<Option<UserView>, Error> {
        if h.len() != 32 {
            Err(Error::CorruptedMessage)
        } else if !self.users.contains_key(h) {
            Ok(None)
        } else {
            match parse_user(self.users[h]) {
                Some(u) => Ok(Some(u)),
                None => Err(Error::CorruptedStorage),
            }
        }
    }

    /// What a lookup of signature `h` returns, in the same way.
    pub open spec fn sig_lookup(self, h: Seq<u8>) -> Result<Option<SignatureView>, Error> {
        if h.len() != 32 {
            Err(Error::CorruptedMessage)
        } else if !self.sigs.contains_key(h) {
            Ok(None)
        } else {
            match parse_signature(self.sigs[h]) {
                Some(s) => Ok(Some(s)),
                None => Err(Error::CorruptedStorage),
            }
        }
    }

    /// What a lookup of the index of object `h` returns, in the same way.
    pub open spec fn obj_lookup(self, h: Seq<u8>) -> Result<Option<Seq<Seq<u8>>>, Error> {
        if h.len() != 32 {
            Err(Error::CorruptedMessage)
        } else if !self.objs.contains_key(h) {
            Ok(None)
        } else {
            match parse_ids(self.objs[h]) {
                Some(ids) => Ok(Some(ids)),
                None => Err(Error::CorruptedStorage),
            }
        }
    }
}

/// The content-addressed store: users, signature records and object indices by key, and the
/// chain tip. The value held here is the store's contents; each change returns the writes
/// that make it durable, in the order in which they must reach the disk.
pub struct LocalStorage {
    users: Table,
    sigs: Table,
    objs: Table,
    prev: Option<Digest>,
}

impl View for LocalStorage {
    type V = StoreView;

    closed spec fn view(&self) -> StoreView {
        StoreView {
            users: self.users@,
            sigs: self.sigs@,
            objs: self.objs@,
            prev: match self.prev {
                Some(d) => Some(d@),
                None => None,
            },
        }
    }
}

impl LocalStorage {
    pub closed spec fn wf(&self) -> bool {
        self.users.wf() && self.sigs.wf() && self.objs.wf()
    }

    /// An empty store.
    pub fn new() -> (r: LocalStorage)
        ensures
            r.wf(),
            r@ == StoreView::empty(),
    {
        LocalStorage { users: Table::new(), sigs: Table::new(), objs: Table::new(), prev: None }
    }

    /// Loads a record file found on disk: `name` must be the lowercase hex of a 32-byte key
    /// that the namespace does not hold yet, else the file is `CorruptedStorage` and nothing
    /// changes. The contents are taken as they are; lookups validate them.
    pub fn restore_record(&mut self, namespace: Namespace, name: &str, data: Vec<u8>) -> (r:
        Result<(), Error>)
        requires
            old(self).wf(),
        ensures
            final(self).wf(),
            r is Ok <==> exists|k: Seq<u8>|
                k.len() == 32 && #[trigger] hex_chars(k) == name@ && !old(self)@.table(
                    namespace,
                ).contains_key(k),
            r matches Ok(_) ==> exists|k: Seq<u8>|
                k.len() == 32 && #[trigger] hex_chars(k) == name@ && final(self)@ == old(
                    self,
                )@.with_record(namespace, k, data@),
            r matches Err(e) ==> e == Error::CorruptedStorage && final(self)@ == old(self)@,
    {
        let decoded = match from_hex(name) {
            Some(v) => v,
            None => {
                return Err(Error::CorruptedStorage);
            },
        };
        if decoded.len() != 32 {
            return Err(Error::CorruptedStorage);
        }
        let text = to_hex(decoded.as_slice());
        if text != name.to_owned() {
            return Err(Error::CorruptedStorage);
        }
        let key = hash_at(decoded.as_slice(), 0);
        assert(key@ =~= decoded@);
        let taken = match namespace {
            Namespace::User => self.users.contains(&key),
            Namespace::Sig => self.sigs.contains(&key),
            Namespace::Obj => self.objs.contains(&key),
        };
        if taken {
            return Err(Error::CorruptedStorage);
        }
        let ghost d = data@;
        match namespace {
            Namespace::User => self.users.insert_new(key, data),
            Namespace::Sig => self.sigs.insert_new(key, data),
            Namespace::Obj => self.objs.insert_new(key, data),
        }
        assert(final(self)@ =~= old(self)@.with_record(namespace, key@, d));
        Ok(())
    }

    /// Loads the tip file found on disk: it must hold exactly one identifier, else it is
    /// `CorruptedStorage` and nothing changes.
    pub fn restore_prev(&mut self, data: &[u8]) -> (r: Result<(), Error>)
        requires
            old(self).wf(),
        ensures
            final(self).wf(),
            r is Ok <==> data@.len() == 32,
            r matches Ok(_) ==> final(self)@ == (StoreView { prev: Some(data@), ..old(self)@ }),
            r matches Err(e) ==> e == Error::CorruptedStorage && final(self)@ == old(self)@,
    {
        if data.len() != 32 {
            return Err(Error::CorruptedStorage);
        }
        let tip = hash_at(data, 0);
        assert(tip@ =~= data@);
        self.prev = Some(tip);
        Ok(())
    }

    /// Registers `u` under the digest of its name. An occupied slot is `HashCollision`, and the
    /// store is then unchanged.
    pub fn set_user(&mut self, u: User) -> (r: Result<StoreWrite, Error>)
        requires
            old(self).wf(),
            u.key@.len() <= u32::MAX,
        ensures
            final(self).wf(),
            final(self)@ == old(self)@.apply(StoreOp::SetUser(u@)),
            r is Ok <==> old(self)@.set_user_outcome(u@) is Ok,
            r matches Err(e) ==> e == Error::HashCollision,
            r matches Ok(w) ==> w.creates(Namespace::User, user_id(u@), user_bytes(u@)),
            r matches Ok(w) ==> w.effect(old(self)@) == final(self)@,
    {
        let id = sha256(u.username.as_slice());
        if self.users.contains(&id) {
            return Err(Error::HashCollision);
        }
        let mut data: Vec<u8> = Vec::new();
        u.write_to(&mut data);
        assert(data@ =~= user_bytes(u@));
        let ghost d = data@;
        let mut copy: Vec<u8> = Vec::new();
        crate::record::push_all(&mut copy, data.as_slice());
        assert(copy@ =~= d);
        self.users.insert_new(id, data);
        let w = StoreWrite::Create(Namespace::User, id, copy);
        assert(w.effect(old(self)@) =~= final(self)@);
        Ok(w)
    }

    /// Looks up the user whose identifier is `hash`.
    pub fn get_user(&self, hash: &[u8]) -> (r: Result<Option<User>, Error>)
        requires
            self.wf(),
        ensures
            match r {
                Ok(Some(u)) => self@.user_lookup(hash@) == Ok::<_, Error>(Some(u@)),
                Ok(None) => self@.user_lookup(hash@) == Ok::<_, Error>(None::<UserView>),
                Err(e) => self@.user_lookup(hash@) == Err::<Option<UserView>, _>(e),
            },
    {
        if hash.len() != 32 {
            return Err(Error::CorruptedMessage);
        }
        let key = hash_at(hash, 0);
        assert(key@ =~= hash@);
        match self.users.get(&key) {
            None => Ok(None),
            Some(data) => match User::read_from(data.as_slice()) {
                Ok(u) => Ok(Some(u)),
                Err(e) => Err(e),
            },
        }
    }

    /// Looks up the signature record whose identifier is `hash`.
    pub fn get_sig(&self, hash: &[u8]) -> (r: Result<Option<Signature>, Error>)
        requires
            self.wf(),
        ensures
            match r {
                Ok(Some(s)) => self@.sig_lookup(hash@) == Ok::<_, Error>(Some(s@)),
                Ok(None) => self@.sig_lookup(hash@) == Ok::<_, Error>(None::<SignatureView>),
                Err(e) => self@.sig_lookup(hash@) == Err::<Option<SignatureView>, _>(e),
            },
    {
        if hash.len() != 32 {
            return Err(Error::CorruptedMessage);
        }
        let key = hash_at(hash, 0);
        assert(key@ =~= hash@);
        match self.sigs.get(&key) {
            None => Ok(None),
            Some(data) => match Signature::read_from(data.as_slice()) {
                Ok(s) => Ok(Some(s)),
                Err(e) => Err(e),
            },
        }
    }

    /// Lists the signatures of the object whose identifier is `hash`, in commit order.
    pub fn get_obj(&self, hash: &[u8]) -> (r: Result<Option<Object>, Error>)
        requires
            self.wf(),
        ensures
            match r {
                Ok(Some(o)) => self@.obj_lookup(hash@) == Ok::<_, Error>(Some(o@)),
                Ok(None) => self@.obj_lookup(hash@) == Ok::<_, Error>(None::<Seq<Seq<u8>>>),
                Err(e) => self@.obj_lookup(hash@) == Err::<Option<Seq<Seq<u8>>>, _>(e),
            },
    {
        if hash.len() != 32 {
            return Err(Error::CorruptedMessage);
        }
        let key = hash_at(hash, 0);
        assert(key@ =~= hash@);
        match self.objs.get(&key) {
            None => Ok(None),
            Some(data) => match Object::read_from(data.as_slice()) {
                Ok(o) => Ok(Some(o)),
                Err(e) => Err(e),
            },
        }
    }

    /// The chain tip: the identifier of the last committed signature, if any.
    pub fn get_prev(&self) -> (r: Option<Digest>)
        ensures
            match r {
                Some(d) => self@.prev == Some(d@),
                None => self@.prev is None,
            },
    {
        self.prev
    }

    /// Commits a signature record: writes it under its identifier, appends that identifier to
    /// the index of its object and makes it the tip. An occupied slot is `HashCollision`, and
    /// the store is then unchanged. The writes come record first, index entry next, tip last:
    /// a crash part way leaves a record that is not indexed yet, or an indexed record that the
    /// tip does not name yet, so the tip lags the chain by at most one record.
    pub fn add_sig(&mut self, sig: Signature) -> (r: Result<Vec<StoreWrite>, Error>)
        requires
            old(self).wf(),
        ensures
            final(self).wf(),
            final(self)@ == old(self)@.apply(StoreOp::AddSig(sig@)),
            r is Ok <==> old(self)@.add_sig_outcome(sig@) is Ok,
            r matches Err(e) ==> e == Error::HashCollision,
            r matches Ok(ws) ==> {
                &&& ws@.len() == 3
                &&& ws@[0].creates(Namespace::Sig, signature_id(sig@), signature_bytes(sig@))
                &&& ws@[1].appends(Namespace::Obj, sig@.obj, signature_id(sig@))
                &&& ws@[2].sets_tip(signature_id(sig@))
                &&& apply_writes(old(self)@, ws@) == final(self)@
            },
    {
        let mut data: Vec<u8> = Vec::new();
        sig.write_to(&mut data);
        assert(data@ =~= signature_bytes(sig@));
        let id = sha256(data.as_slice());
        if self.sigs.contains(&id) {
            return Err(Error::HashCollision);
        }
        let ghost d = data@;
        let mut copy: Vec<u8> = Vec::new();
        crate::record::push_all(&mut copy, data.as_slice());
        assert(copy@ =~= d);
        self.sigs.insert_new(id, data);
        self.objs.append(sig.obj, id.as_slice());
        self.prev = Some(id);
        let mut id_bytes: Vec<u8> = Vec::new();
        crate::record::push_all(&mut id_bytes, id.as_slice());
        let mut writes: Vec<StoreWrite> = Vec::new();
        writes.push(StoreWrite::Create(Namespace::Sig, id, copy));
        writes.push(StoreWrite::Append(Namespace::Obj, sig.obj, id_bytes));
        writes.push(StoreWrite::SetTip(id));
        assert(final(self)@ =~= old(self)@.with_signature(sig@));
        proof {
            let v = old(self)@;
            let ws = writes@;
            assert(ws.drop_last().drop_last().drop_last() =~= Seq::<StoreWrite>::empty());
            assert(apply_writes(v, ws.drop_last().drop_last().drop_last()) == v);
            assert(ws.drop_last().drop_last().last() == ws[0]);
            assert(ws.drop_last().last() == ws[1]);
            let v1 = ws[0].effect(v);
            assert(v1 =~= StoreView { sigs: v.sigs.insert(id@, d), ..v });
            assert(apply_writes(v, ws.drop_last().drop_last()) == v1);
            let v2 = ws[1].effect(v1);
            assert(v2 =~= StoreView {
                objs: v.objs.insert(sig.obj@, v.index_bytes(sig.obj@) + id@),
                ..v1
            });
            assert(apply_writes(v, ws.drop_last()) == v2);
            assert(ws[2].effect(v2) =~= final(self)@);
        }
        Ok(writes)
    }
}

} // verus!
