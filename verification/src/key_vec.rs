//! Small verified helpers on vectors of keys and of signal identities.
use vstd::prelude::*;

use crate::runtime::SignalId;

verus! {

broadcast use {vstd::seq_lib::group_seq_properties, vstd::set_lib::group_set_properties};

/// Whether `x` occurs in `keys`.
pub fn contains_key(keys: &Vec<u64>, x: u64) -> (b: bool)
    ensures
        b == keys@.contains(x),
{
    let mut i: usize = 0;
    while i < keys.len()
        invariant
            i <= keys.len(),
            forall|j: int| 0 <= j < i ==> keys@[j] != x,
        decreases keys.len() - i,
    {
        if keys[i] == x {
            assert(keys@[i as int] == x);
            return true;
        }
        i = i + 1;
    }
    false
}

/// Whether `a` and `b` hold the same keys in the same order.
pub fn same_keys(a: &Vec<u64>, b: &Vec<u64>) -> (r: bool)
    ensures
        r == (a@ == b@),
{
    if a.len() != b.len() {
        return false;
    }
    let mut i: usize = 0;
    while i < a.len()
        invariant
            i <= a.len(),
            a.len() == b.len(),
            forall|j: int| 0 <= j < i ==> a@[j] == b@[j],
        decreases a.len() - i,
    {
        if a[i] != b[i] {
            return false;
        }
        i = i + 1;
    }
    proof {
        assert(a@ =~= b@);
    }
    true
}

/// A copy of `v`.
pub fn copy_keys(v: &Vec<u64>) -> (r: Vec<u64>)
    ensures
        r@ == v@,
{
    let mut r: Vec<u64> = Vec::new();
    let mut i: usize = 0;
    while i < v.len()
        invariant
            i <= v.len(),
            r@ == v@.subrange(0, i as int),
        decreases v.len() - i,
    {
        r.push(v[i]);
        proof {
            assert(r@ =~= v@.subrange(0, i + 1));
        }
        i = i + 1;
    }
    proof {
        assert(v@.subrange(0, v@.len() as int) =~= v@);
    }
    r
}

/// `keys` without any occurrence of `key`.
pub fn without_key(keys: &Vec<u64>, key: u64) -> (r: Vec<u64>)
    ensures
        r@ == keys@.filter(|k: u64| k != key),
{
    let ghost pred = |k: u64| k != key;
    let mut r: Vec<u64> = Vec::new();
    let mut i: usize = 0;
    proof {
        assert(keys@.subrange(0, 0) =~= Seq::<u64>::empty());
        reveal(Seq::filter);
        assert(Seq::<u64>::empty().filter(pred) =~= Seq::<u64>::empty());
    }
    while i < keys.len()
        invariant
            i <= keys.len(),
            pred == (|k: u64| k != key),
            r@ == keys@.subrange(0, i as int).filter(pred),
        decreases keys.len() - i,
    {
        let k = keys[i];
        proof {
            assert(keys@.subrange(0, i + 1) =~= keys@.subrange(0, i as int).push(k));
            keys@.subrange(0, i as int).lemma_filter_push(k, pred);
        }
        if k != key {
            r.push(k);
        }
        i = i + 1;
    }
    proof {
        assert(keys@.subrange(0, keys@.len() as int) =~= keys@);
    }
    r
}

/// Record `id` in `ids`.
pub fn push_id(ids: &mut Vec<SignalId>, id: SignalId)
    ensures
        final(ids)@.to_set() == old(ids)@.to_set().insert(id),
{
    ids.push(id);
    proof {
        assert(ids@.to_set() =~= old(ids)@.to_set().insert(id));
    }
}

/// Record every identity of `more` in `ids`.
pub fn append_ids(ids: &mut Vec<SignalId>, more: &Vec<SignalId>)
    ensures
        final(ids)@.to_set() == old(ids)@.to_set().union(more@.to_set()),
{
    let mut i: usize = 0;
    while i < more.len()
        invariant
            i <= more.len(),
            ids@.to_set() == old(ids)@.to_set().union(more@.subrange(0, i as int).to_set()),
        decreases more.len() - i,
    {
        push_id(ids, more[i]);
        proof {
            assert(more@.subrange(0, i + 1) =~= more@.subrange(0, i as int).push(more@[i as int]));
            assert(ids@.to_set() =~= old(ids)@.to_set().union(more@.subrange(0, i + 1).to_set()));
        }
        i = i + 1;
    }
    proof {
        assert(more@.subrange(0, more@.len() as int) =~= more@);
    }
}

} // verus!
