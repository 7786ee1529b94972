use vstd::prelude::*;

use std::collections::HashMap;

use crate::digest::Digest;
use crate::record::{le32, read_le32};

verus! {

/// Whether two identifiers are equal, byte by byte.
pub fn digest_eq(a: &Digest, b: &Digest) -> (r: bool)
    ensures
        r == (a@ == b@),
{
    let mut i: usize = 0;
    while i < 32
        invariant
            0 <= i <= 32,
            a@.len() == 32,
            b@.len() == 32,
            forall|j: int| 0 <= j < i ==> a@[j] == b@[j],
        decreases 32 - i,
    {
        if a[i] != b[i] {
            return false;
        }
        i = i + 1;
    }
    assert(a@ =~= b@);
    true
}

/// The bucket of a key: the little-endian value of its first four bytes.
pub open spec fn bucket_key(k: Seq<u8>) -> u32 {
    le32(k) as u32
}

/// One namespace of the store: byte records keyed by identifier, each key present once. The
/// records are grouped in buckets by the first four bytes of their key; identifiers are
/// digests, so a bucket holds one record but by rare chance.
pub struct Table {
    buckets: HashMap<u32, Vec<(Digest, Vec<u8>)>>,
    contents: Ghost<Map<Seq<u8>, Seq<u8>>>,
}

impl View for Table {
    type V = Map<Seq<u8>, Seq<u8>>;

    closed spec fn view(&self) -> Map<Seq<u8>, Seq<u8>> {
        self.contents@
    }
}

impl Table {
    /// The records of bucket `p`, none where it is absent.
    closed spec fn bucket(&self, p: u32) -> Seq<(Digest, Vec<u8>)> {
        if self.buckets@.contains_key(p) {
            self.buckets@[p]@
        } else {
            Seq::empty()
        }
    }

    /// The buckets and the view agree, every record sits in the bucket of its key, and no key
    /// appears twice.
    pub closed spec fn wf(&self) -> bool {
        &&& forall|p: u32, i: int|
            0 <= i < self.bucket(p).len() ==> {
                &&& bucket_key((#[trigger] self.bucket(p)[i]).0@) == p
                &&& self.contents@.contains_key(self.bucket(p)[i].0@)
                &&& self.contents@[self.bucket(p)[i].0@] == self.bucket(p)[i].1@
            }
        &&& forall|k: Seq<u8>|
            #[trigger] self.contents@.contains_key(k) ==> k.len() == 32 && exists|i: int|
                0 <= i < self.bucket(bucket_key(k)).len() && self.bucket(bucket_key(k))[i].0@
                    == k
        &&& forall|p: u32, i: int, j: int|
            0 <= i < self.bucket(p).len() && 0 <= j < self.bucket(p).len() && i != j
                ==> (#[trigger] self.bucket(p)[i]).0@ != (#[trigger] self.bucket(p)[j]).0@
    }

    /// An empty table.
    pub fn new() -> (r: Table)
        ensures
            r.wf(),
            r@ == Map::<Seq<u8>, Seq<u8>>::empty(),
    {
        let r = Table { buckets: HashMap::new(), contents: Ghost(Map::empty()) };
        assert forall|p: u32| #[trigger] r.bucket(p) == Seq::<(Digest, Vec<u8>)>::empty() by {}
        r
    }

    /// The bucket of `key` and the position of `key` in it, if it is present.
    fn find(&self, key: &Digest) -> (r: (u32, Option<usize>))
        requires
            self.wf(),
        ensures
            r.0 == bucket_key(key@),
            match r.1 {
                Some(i) => i < self.bucket(r.0).len() && self.bucket(r.0)[i as int].0@ == key@,
                None => !self@.contains_key(key@),
            },
    {
        let p = read_le32(key.as_slice());
        let b = match self.buckets.get(&p) {
            Some(b) => b,
            None => {
                assert(self.bucket(p) == Seq::<(Digest, Vec<u8>)>::empty());
                return (p, None);
            },
        };
        assert(b@ == self.bucket(p));
        let mut i: usize = 0;
        while i < b.len()
            invariant
                self.wf(),
                b@ == self.bucket(p),
                p == bucket_key(key@),
                0 <= i <= b@.len(),
                forall|j: int| 0 <= j < i ==> b@[j].0@ != key@,
            decreases b@.len() - i,
        {
            if digest_eq(&b[i].0, key) {
                return (p, Some(i));
            }
            i = i + 1;
        }
        (p, None)
    }

    /// Whether a record is stored under `key`.
    pub fn contains(&self, key: &Digest) -> (r: bool)
        requires
            self.wf(),
        ensures
            r == self@.contains_key(key@),
    {
        let (p, found) = self.find(key);
        match found {
            Some(i) => {
                assert(self.contents@.contains_key(self.bucket(p)[i as int].0@));
                true
            },
            None => false,
        }
    }

    /// The record stored under `key`.
    pub fn get(&self, key: &Digest) -> (r: Option<&Vec<u8>>)
        requires
            self.wf(),
        ensures
            match r {
                Some(v) => self@.contains_key(key@) && v@ == self@[key@],
                None => !self@.contains_key(key@),
            },
    {
        let (p, found) = self.find(key);
        match found {
            Some(i) => {
                assert(self.contents@.contains_key(self.bucket(p)[i as int].0@));
                match self.buckets.get(&p) {
                    Some(b) => Some(&b[i].1),
                    None => None,
                }
            },
            None => None,
        }
    }

    /// Takes the bucket `p` out of the map, leaving it absent.
    fn take_bucket(&mut self, p: u32) -> (r: Vec<(Digest, Vec<u8>)>)
        ensures
            r@ == old(self).bucket(p),
            final(self).buckets@ == old(self).buckets@.remove(p),
            final(self).contents == old(self).contents,
    {
        match self.buckets.remove(&p) {
            Some(b) => b,
            None => Vec::new(),
        }
    }

    /// Stores `data` under a key that is not yet present.
    pub fn insert_new(&mut self, key: Digest, data: Vec<u8>)
        requires
            old(self).wf(),
            !old(self)@.contains_key(key@),
        ensures
            final(self).wf(),
            final(self)@ == old(self)@.insert(key@, data@),
    {
        let ghost k = key@;
        let ghost d = data@;
        let p = read_le32(key.as_slice());
        let mut b = self.take_bucket(p);
        b.push((key, data));
        self.buckets.insert(p, b);
        self.contents = Ghost(self.contents@.insert(k, d));
        assert(self.bucket(p) == old(self).bucket(p).push((key, data)));
        assert forall|q: u32| q != p implies #[trigger] self.bucket(q) == old(self).bucket(q) by {}
        assert forall|q: u32, i: int| 0 <= i < self.bucket(q).len() implies {
            &&& bucket_key((#[trigger] self.bucket(q)[i]).0@) == q
            &&& self.contents@.contains_key(self.bucket(q)[i].0@)
            &&& self.contents@[self.bucket(q)[i].0@] == self.bucket(q)[i].1@
        } by {
            if q != p || i < old(self).bucket(p).len() {
                assert(self.bucket(q)[i] == old(self).bucket(q)[i]);
                assert(old(self).contents@.contains_key(old(self).bucket(q)[i].0@));
            }
        }
        assert forall|q: Seq<u8>| #[trigger] self.contents@.contains_key(q) implies q.len() == 32
            && exists|i: int|
            0 <= i < self.bucket(bucket_key(q)).len() && self.bucket(bucket_key(q))[i].0@
                == q by {
            if q != k {
                let i = choose|i: int|
                    0 <= i < old(self).bucket(bucket_key(q)).len() && old(self).bucket(
                        bucket_key(q),
                    )[i].0@ == q;
                assert(self.bucket(bucket_key(q))[i] == old(self).bucket(bucket_key(q))[i]);
            } else {
                let n = old(self).bucket(p).len() as int;
                assert(self.bucket(p)[n].0@ == q);
            }
        }
        assert forall|q: u32, i: int, j: int|
            0 <= i < self.bucket(q).len() && 0 <= j < self.bucket(q).len() && i != j implies (
            #[trigger] self.bucket(q)[i]).0@ != (#[trigger] self.bucket(q)[j]).0@ by {
            let n = old(self).bucket(p).len() as int;
            if q == p && (i == n || j == n) {
                let o = if i == n { j } else { i };
                assert(old(self).contents@.contains_key(old(self).bucket(p)[o].0@));
            } else {
                assert(self.bucket(q)[i] == old(self).bucket(q)[i]);
                assert(self.bucket(q)[j] == old(self).bucket(q)[j]);
            }
        }
    }

    /// Appends `extra` to the record under `key`, or stores `extra` there if there is none.
    pub fn append(&mut self, key: Digest, extra: &[u8])
        requires
            old(self).wf(),
        ensures
            final(self).wf(),
            final(self)@ == old(self)@.insert(
                key@,
                if old(self)@.contains_key(key@) {
                    old(self)@[key@] + extra@
                } else {
                    extra@
                },
            ),
    {
        let (p, found) = self.find(&key);
        match found {
            None => {
                let mut data: Vec<u8> = Vec::new();
                crate::record::push_all(&mut data, extra);
                assert(data@ =~= extra@);
                self.insert_new(key, data);
            },
            Some(i) => {
                let ghost k = key@;
                assert(old(self).contents@.contains_key(old(self).bucket(p)[i as int].0@));
                let mut b = self.take_bucket(p);
                let mut data: Vec<u8> = Vec::new();
                crate::record::push_all(&mut data, b[i].1.as_slice());
                crate::record::push_all(&mut data, extra);
                let ghost d = data@;
                b.set(i, (key, data));
                self.buckets.insert(p, b);
                self.contents = Ghost(self.contents@.insert(k, d));
                assert(self.bucket(p) == old(self).bucket(p).update(i as int, (key, data)));
                assert forall|q: u32| q != p implies #[trigger] self.bucket(q) == old(self).bucket(
                    q,
                ) by {}
                assert forall|q: u32, j: int| 0 <= j < self.bucket(q).len() implies {
                    &&& bucket_key((#[trigger] self.bucket(q)[j]).0@) == q
                    &&& self.contents@.contains_key(self.bucket(q)[j].0@)
                    &&& self.contents@[self.bucket(q)[j].0@] == self.bucket(q)[j].1@
                } by {
                    if q != p || j != i {
                        assert(self.bucket(q)[j] == old(self).bucket(q)[j]);
                        assert(old(self).contents@.contains_key(old(self).bucket(q)[j].0@));
                    }
                }
                assert forall|q: Seq<u8>| #[trigger] self.contents@.contains_key(q) implies q.len()
                    == 32 && exists|j: int|
                    0 <= j < self.bucket(bucket_key(q)).len() && self.bucket(bucket_key(q))[j].0@
                        == q by {
                    let j = choose|j: int|
                        0 <= j < old(self).bucket(bucket_key(q)).len() && old(self).bucket(
                            bucket_key(q),
                        )[j].0@ == q;
                    assert(self.bucket(bucket_key(q))[j].0@ == q);
                }
                assert forall|q: u32, a: int, c: int|
                    0 <= a < self.bucket(q).len() && 0 <= c < self.bucket(q).len() && a != c implies (
                    #[trigger] self.bucket(q)[a]).0@ != (#[trigger] self.bucket(q)[c]).0@ by {
                    assert(self.bucket(q)[a].0@ == old(self).bucket(q)[a].0@);
                    assert(self.bucket(q)[c].0@ == old(self).bucket(q)[c].0@);
                }
            },
        }
    }
}

} // verus!
