use vstd::prelude::*;

use crate::digest::sha256_of;
use crate::error::Error;
use crate::record::{
    lemma_signature_bytes_round_trip, lemma_user_bytes_round_trip, parse_ids, parse_signature,
    signature_bytes, SignatureView, UserView,
};
use crate::storage::{signature_id, user_id, zero_digest, StoreOp, StoreView};

verus! {

/// Every signature record that an operation sequence hands in has identifiers of digest length,
/// as every `Signature` value has.
pub open spec fn ops_well_formed(ops: Seq<StoreOp>) -> bool {
    forall|i: int|
        0 <= i < ops.len() ==> match #[trigger] ops[i] {
            StoreOp::AddSig(s) => s.well_formed(),
            StoreOp::SetUser(_) => true,
        }
}

/// Every stored signature record lies under the digest of its stored form.
pub open spec fn content_addressed(v: StoreView) -> bool {
    forall|k: Seq<u8>| #[trigger] v.sigs.contains_key(k) ==> sha256_of(v.sigs[k])@ == k
}

/// Content addressing holds after any sequence of operations on an empty store.
pub proof fn lemma_content_addressed(ops: Seq<StoreOp>)
    ensures
        content_addressed(StoreView::empty().apply_all(ops)),
    decreases ops.len(),
{
    if ops.len() > 0 {
        lemma_content_addressed(ops.drop_last());
    }
}

/// The identifiers that the index of `obj` lists.
pub open spec fn indexed_ids(v: StoreView, obj: Seq<u8>) -> Set<Seq<u8>> {
    match parse_ids(v.index_bytes(obj)) {
        Some(ids) => ids.to_set(),
        None => Set::empty(),
    }
}

/// The identifiers of the stored signature records whose object is `obj`.
pub open spec fn signatures_of(v: StoreView, obj: Seq<u8>) -> Set<Seq<u8>> {
    Set::new(
        |k: Seq<u8>|
            v.sigs.contains_key(k) && match parse_signature(v.sigs[k]) {
                Some(s) => s.obj == obj,
                None => false,
            },
    )
}

/// Each object index is a run of whole entries that lists exactly the signatures of its object.
pub open spec fn index_complete(v: StoreView) -> bool {
    &&& forall|o: Seq<u8>| (#[trigger] v.index_bytes(o)).len() % 32 == 0
    &&& forall|o: Seq<u8>| #[trigger] indexed_ids(v, o) == signatures_of(v, o)
    &&& forall|k: Seq<u8>| #[trigger] v.sigs.contains_key(k) ==> v.sigs[k].len() >= 96
}

proof fn lemma_parse_ids_push(b: Seq<u8>, id: Seq<u8>)
    requires
        b.len() % 32 == 0,
        id.len() == 32,
    ensures
        parse_ids(b + id) is Some,
        parse_ids(b + id).unwrap() == parse_ids(b).unwrap().push(id),
{
    let ids = parse_ids(b).unwrap();
    let ids2 = parse_ids(b + id).unwrap();
    assert(ids2.len() == ids.len() + 1);
    assert forall|i: int| 0 <= i < ids2.len() implies ids2[i] == ids.push(id)[i] by {
        if i < ids.len() {
            assert(ids2[i] =~= ids[i]);
        } else {
            assert(ids2[i] =~= id);
        }
    }
    assert(ids2 =~= ids.push(id));
}

proof fn lemma_index_step(v: StoreView, op: StoreOp)
    requires
        index_complete(v),
        match op {
            StoreOp::AddSig(s) => s.well_formed(),
            StoreOp::SetUser(_) => true,
        },
    ensures
        index_complete(v.apply(op)),
{
    match op {
        StoreOp::SetUser(u) => {
            let w = v.apply(op);
            assert(w.sigs == v.sigs && w.objs == v.objs);
            assert forall|o: Seq<u8>| (#[trigger] w.index_bytes(o)).len() % 32 == 0 by {
                assert(w.index_bytes(o) == v.index_bytes(o));
            }
            assert forall|o: Seq<u8>| #[trigger] indexed_ids(w, o) == signatures_of(w, o) by {
                assert(indexed_ids(w, o) == indexed_ids(v, o));
                assert(signatures_of(w, o) =~= signatures_of(v, o));
            }
        },
        StoreOp::AddSig(s) => {
            if v.add_sig_outcome(s) is Ok {
                let w = v.apply(op);
                let id = signature_id(s);
                lemma_signature_bytes_round_trip(s);
                assert forall|o: Seq<u8>| (#[trigger] w.index_bytes(o)).len() % 32 == 0 by {
                    assert(v.index_bytes(o).len() % 32 == 0);
                    if o == s.obj {
                        assert(w.index_bytes(o) == v.index_bytes(o) + id);
                    } else {
                        assert(w.index_bytes(o) == v.index_bytes(o));
                    }
                }
                assert forall|o: Seq<u8>| #[trigger] indexed_ids(w, o) == signatures_of(w, o) by {
                    assert(v.index_bytes(o).len() % 32 == 0);
                    assert(indexed_ids(v, o) == signatures_of(v, o));
                    if o == s.obj {
                        lemma_parse_ids_push(v.index_bytes(o), id);
                        assert(w.index_bytes(o) == v.index_bytes(o) + id);
                        let old_ids = parse_ids(v.index_bytes(o)).unwrap();
                        assert(old_ids.push(id).to_set() =~= old_ids.to_set().insert(id)) by {
                            old_ids.lemma_push_to_set_commute(id);
                        }
                        assert(signatures_of(w, o) =~= signatures_of(v, o).insert(id));
                    } else {
                        assert(w.index_bytes(o) == v.index_bytes(o));
                        assert(signatures_of(w, o) =~= signatures_of(v, o));
                    }
                }
            }
        },
    }
}

/// After any sequence of operations on an empty store, the index of every object lists exactly
/// the committed signatures of that object.
pub proof fn lemma_index_complete(ops: Seq<StoreOp>)
    requires
        ops_well_formed(ops),
    ensures
        index_complete(StoreView::empty().apply_all(ops)),
    decreases ops.len(),
{
    if ops.len() == 0 {
        let v = StoreView::empty();
        assert forall|o: Seq<u8>| #[trigger] indexed_ids(v, o) == signatures_of(v, o) by {
            assert(parse_ids(v.index_bytes(o)).unwrap() =~= Seq::<Seq<u8>>::empty());
            assert(indexed_ids(v, o) =~= Set::empty());
            assert(signatures_of(v, o) =~= Set::empty());
        }
    } else {
        let init = ops.drop_last();
        assert forall|i: int| 0 <= i < init.len() implies match #[trigger] init[i] {
            StoreOp::AddSig(s) => s.well_formed(),
            StoreOp::SetUser(_) => true,
        } by {
            assert(init[i] == ops[i]);
        }
        lemma_index_complete(init);
        assert(match ops[ops.len() - 1] {
            StoreOp::AddSig(s) => s.well_formed(),
            StoreOp::SetUser(_) => true,
        });
        lemma_index_step(StoreView::empty().apply_all(init), ops.last());
    }
}

/// Every commit in the sequence links to the tip that the store had just before it: the
/// signature names that tip as its predecessor, or the all-zero identifier while there is none.
pub open spec fn commits_follow_tip(ops: Seq<StoreOp>) -> bool
    decreases ops.len(),
{
    if ops.len() == 0 {
        true
    } else {
        commits_follow_tip(ops.drop_last()) && match ops.last() {
            StoreOp::AddSig(s) => s.prev_sig == StoreView::empty().apply_all(
                ops.drop_last(),
            ).tip_or_zero(),
            StoreOp::SetUser(_) => true,
        }
    }
}

/// The identifiers of the signatures that the sequence commits, in commit order.
pub open spec fn committed_chain(ops: Seq<StoreOp>) -> Seq<Seq<u8>>
    decreases ops.len(),
{
    if ops.len() == 0 {
        Seq::empty()
    } else {
        let before = StoreView::empty().apply_all(ops.drop_last());
        match ops.last() {
            StoreOp::AddSig(s) => if before.add_sig_outcome(s) is Ok {
                committed_chain(ops.drop_last()).push(signature_id(s))
            } else {
                committed_chain(ops.drop_last())
            },
            StoreOp::SetUser(_) => committed_chain(ops.drop_last()),
        }
    }
}

/// The stored record `id` names `prev` as its predecessor.
pub open spec fn links_to(v: StoreView, id: Seq<u8>, prev: Seq<u8>) -> bool {
    v.sigs.contains_key(id) && match parse_signature(v.sigs[id]) {
        Some(s) => s.prev_sig == prev,
        None => false,
    }
}

/// The stored signatures form the single chain `chain`: the tip is its last element, every
/// stored signature occurs in it exactly once, the first names the all-zero identifier as its
/// predecessor and each other one names the one before it.
pub open spec fn linear_chain(v: StoreView, chain: Seq<Seq<u8>>) -> bool {
    &&& v.prev == if chain.len() == 0 {
        None::<Seq<u8>>
    } else {
        Some(chain.last())
    }
    &&& v.sigs.dom() == chain.to_set()
    &&& chain.no_duplicates()
    &&& forall|i: int|
        0 <= i < chain.len() ==> links_to(
            v,
            #[trigger] chain[i],
            if i == 0 {
                zero_digest()
            } else {
                chain[i - 1]
            },
        )
}

proof fn lemma_well_formed_prefix(ops: Seq<StoreOp>)
    requires
        ops_well_formed(ops),
        ops.len() > 0,
    ensures
        ops_well_formed(ops.drop_last()),
        match ops.last() {
            StoreOp::AddSig(s) => s.well_formed(),
            StoreOp::SetUser(_) => true,
        },
{
    let init = ops.drop_last();
    assert forall|i: int| 0 <= i < init.len() implies match #[trigger] init[i] {
        StoreOp::AddSig(s) => s.well_formed(),
        StoreOp::SetUser(_) => true,
    } by {
        assert(init[i] == ops[i]);
    }
    assert(match ops[ops.len() - 1] {
        StoreOp::AddSig(s) => s.well_formed(),
        StoreOp::SetUser(_) => true,
    });
}

proof fn lemma_chain_step(v: StoreView, c: Seq<Seq<u8>>, s: SignatureView)
    requires
        linear_chain(v, c),
        s.well_formed(),
        s.prev_sig == v.tip_or_zero(),
        v.add_sig_outcome(s) is Ok,
    ensures
        linear_chain(v.with_signature(s), c.push(signature_id(s))),
{
    let id = signature_id(s);
    let w = v.with_signature(s);
    let c2 = c.push(id);
    lemma_signature_bytes_round_trip(s);
    assert(!c.to_set().contains(id));
    c.lemma_push_to_set_commute(id);
    assert(w.sigs.dom() =~= c2.to_set());
    assert forall|i: int, j: int|
        0 <= i < c2.len() && 0 <= j < c2.len() && i != j implies c2[i] != c2[j] by {
        if i < c.len() && j < c.len() {
            assert(c2[i] == c[i] && c2[j] == c[j]);
        } else if i < c.len() {
            assert(c.to_set().contains(c[i]));
        } else {
            assert(c.to_set().contains(c[j]));
        }
    }
    assert forall|i: int| 0 <= i < c2.len() implies links_to(
        w,
        #[trigger] c2[i],
        if i == 0 {
            zero_digest()
        } else {
            c2[i - 1]
        },
    ) by {
        if i < c.len() {
            assert(c2[i] == c[i]);
            assert(links_to(
                v,
                c[i],
                if i == 0 {
                    zero_digest()
                } else {
                    c[i - 1]
                },
            ));
            assert(c.to_set().contains(c[i]));
            assert(c[i] != id);
            if i > 0 {
                assert(c2[i - 1] == c[i - 1]);
            }
        } else {
            assert(c2[i] == id);
            assert(w.sigs[id] == signature_bytes(s));
            if i > 0 {
                assert(c2[i - 1] == c.last());
            }
        }
    }
}

proof fn lemma_chain_unchanged(v: StoreView, w: StoreView, c: Seq<Seq<u8>>)
    requires
        linear_chain(v, c),
        w.sigs == v.sigs,
        w.prev == v.prev,
    ensures
        linear_chain(w, c),
{
    assert forall|i: int| 0 <= i < c.len() implies links_to(
        w,
        #[trigger] c[i],
        if i == 0 {
            zero_digest()
        } else {
            c[i - 1]
        },
    ) by {
        assert(links_to(
            v,
            c[i],
            if i == 0 {
                zero_digest()
            } else {
                c[i - 1]
            },
        ));
    }
}

/// After any sequence of operations on an empty store in which every commit links to the tip
/// it found, following the predecessors back from the tip visits every committed signature
/// exactly once, in reverse commit order, and ends at the all-zero identifier.
pub proof fn lemma_chain_linear(ops: Seq<StoreOp>)
    requires
        ops_well_formed(ops),
        commits_follow_tip(ops),
    ensures
        linear_chain(StoreView::empty().apply_all(ops), committed_chain(ops)),
    decreases ops.len(),
{
    if ops.len() == 0 {
        assert(StoreView::empty().sigs.dom() =~= Seq::<Seq<u8>>::empty().to_set());
    } else {
        let init = ops.drop_last();
        lemma_well_formed_prefix(ops);
        lemma_chain_linear(init);
        let v = StoreView::empty().apply_all(init);
        let c = committed_chain(init);
        match ops.last() {
            StoreOp::SetUser(u) => {
                lemma_chain_unchanged(v, v.apply(ops.last()), c);
            },
            StoreOp::AddSig(s) => {
                if v.add_sig_outcome(s) is Ok {
                    lemma_chain_step(v, c, s);
                }
            },
        }
    }
}

/// In a linear chain whose identifiers are all nonzero, no two signatures name the same
/// predecessor: each commit extends a different tip.
pub proof fn lemma_distinct_predecessors(v: StoreView, chain: Seq<Seq<u8>>, i: int, j: int)
    requires
        linear_chain(v, chain),
        forall|k: int| 0 <= k < chain.len() ==> #[trigger] chain[k] != zero_digest(),
        0 <= i < chain.len(),
        0 <= j < chain.len(),
        i != j,
    ensures
        parse_signature(v.sigs[chain[i]]).unwrap().prev_sig != parse_signature(
            v.sigs[chain[j]],
        ).unwrap().prev_sig,
{
    assert(links_to(v, chain[i], if i == 0 { zero_digest() } else { chain[i - 1] }));
    assert(links_to(v, chain[j], if j == 0 { zero_digest() } else { chain[j - 1] }));
    if i > 0 && j > 0 {
        assert(chain[i - 1] != chain[j - 1]);
    } else if i == 0 {
        assert(chain[j - 1] != zero_digest());
    } else {
        assert(chain[i - 1] != zero_digest());
    }
}

/// After any sequence of operations on an empty store in which every commit links to the tip
/// it found, no two stored signatures name the same predecessor: each tip is extended at most
/// once. This needs every committed identifier to differ from the all-zero identifier, which
/// also stands for the empty chain.
pub proof fn lemma_commits_distinct_predecessors(ops: Seq<StoreOp>, k1: Seq<u8>, k2: Seq<u8>)
    requires
        ops_well_formed(ops),
        commits_follow_tip(ops),
        forall|i: int|
            0 <= i < committed_chain(ops).len() ==> #[trigger] committed_chain(ops)[i]
                != zero_digest(),
        StoreView::empty().apply_all(ops).sigs.contains_key(k1),
        StoreView::empty().apply_all(ops).sigs.contains_key(k2),
        k1 != k2,
    ensures
        parse_signature(StoreView::empty().apply_all(ops).sigs[k1]).unwrap().prev_sig
            != parse_signature(StoreView::empty().apply_all(ops).sigs[k2]).unwrap().prev_sig,
{
    let v = StoreView::empty().apply_all(ops);
    let c = committed_chain(ops);
    lemma_chain_linear(ops);
    assert(c.to_set().contains(k1));
    assert(c.to_set().contains(k2));
    let i = choose|i: int| 0 <= i < c.len() && c[i] == k1;
    let j = choose|j: int| 0 <= j < c.len() && c[j] == k2;
    lemma_distinct_predecessors(v, c, i, j);
}

/// A user written into a free slot reads back unchanged under the digest of its name.
pub proof fn lemma_user_round_trip(v: StoreView, u: UserView)
    requires
        u.well_formed(),
        !v.users.contains_key(user_id(u)),
    ensures
        v.set_user_outcome(u) == Ok::<(), Error>(()),
        v.apply(StoreOp::SetUser(u)).user_lookup(user_id(u)) == Ok::<_, Error>(Some(u)),
{
    lemma_user_bytes_round_trip(u);
}

/// Registering the same user twice succeeds, then fails with `HashCollision`, and the second
/// attempt leaves the store as the first left it.
pub proof fn lemma_set_user_twice(v: StoreView, u: UserView)
    requires
        !v.users.contains_key(user_id(u)),
    ensures
        v.set_user_outcome(u) == Ok::<(), Error>(()),
        v.apply(StoreOp::SetUser(u)).set_user_outcome(u) == Err::<(), _>(Error::HashCollision),
        v.apply(StoreOp::SetUser(u)).apply(StoreOp::SetUser(u)) == v.apply(StoreOp::SetUser(u)),
{
}

} // verus!
