//! List mutation helpers for signals holding a `Vec`.
//!
//! Each helper changes the list in place and wakes the signal's readers
//! when the list changed structurally; a helper that leaves the list as it
//! was wakes nobody.
use vstd::prelude::*;

use crate::key_vec::{append_ids, push_id};
use crate::runtime::{ReactiveRuntime, SignalId, SignalNotifications};
use crate::selector::{Selector, collect_keys, keys_callable, keys_of, reconciled};
use crate::signal::{Signal, written};

verus! {

broadcast use {vstd::seq_lib::group_seq_properties, vstd::set_lib::group_set_properties};

/// The items of `s` whose entry of `keep` is `true`, in order.
pub open spec fn kept<T>(s: Seq<T>, keep: Seq<bool>) -> Seq<T>
    decreases s.len(),
{
    if s.len() == 0 || keep.len() != s.len() {
        Seq::empty()
    } else {
        let rest = kept(s.drop_last(), keep.drop_last());
        if keep.last() {
            rest.push(s.last())
        } else {
            rest
        }
    }
}

/// `i` is the first position of `s` at which `predicate` may answer `true`,
/// every earlier item having been answered `false`.
pub open spec fn first_match<T, F: Fn(&T) -> bool>(s: Seq<T>, predicate: F, i: int) -> bool {
    &&& 0 <= i < s.len()
    &&& call_ensures(predicate, (&s[i],), true)
    &&& forall|j: int| 0 <= j < i ==> call_ensures(predicate, (&s[j],), false)
}

/// Whether `predicate` can be called on every item of `s`.
pub open spec fn callable_on<T, F: Fn(&T) -> bool>(s: Seq<T>, predicate: F) -> bool {
    forall|i: int| 0 <= i < s.len() ==> call_requires(predicate, (&#[trigger] s[i],))
}

/// The position of the first item for which `predicate` answers `true`.
fn position_where<T, F: Fn(&T) -> bool>(list: &Vec<T>, predicate: &F) -> (r: Option<usize>)
    requires
        callable_on(list@, *predicate),
    ensures
        match r {
            Some(i) => first_match(list@, *predicate, i as int),
            None => forall|j: int| 0 <= j < list@.len() ==> call_ensures(*predicate, (&list@[j],), false),
        },
{
    let mut i: usize = 0;
    while i < list.len()
        invariant
            i <= list.len(),
            callable_on(list@, *predicate),
            forall|j: int| 0 <= j < i ==> call_ensures(*predicate, (&list@[j],), false),
        decreases list.len() - i,
    {
        if predicate(&list[i]) {
            return Some(i);
        }
        i = i + 1;
    }
    None
}

impl<T> Signal<Vec<T>> {
    /// Push a value onto the end of the list and notify dependents.
    pub fn push(&mut self, rt: &mut ReactiveRuntime, value: T) -> (n: SignalNotifications)
        requires
            old(rt).wf(),
        ensures
            final(rt).wf(),
            final(self).spec_id() == old(self).spec_id(),
            final(self).spec_value()@ == old(self).spec_value()@.push(value),
            old(rt)@.notified(final(rt)@, old(self).spec_id(), n),
    {
        let mut list = self.swap_silent(Vec::new());
        list.push(value);
        self.set_silent(list);
        self.notify(rt)
    }

    /// Append `values` to the end of the list; dependents are notified once
    /// when at least one value was appended.
    pub fn extend(&mut self, rt: &mut ReactiveRuntime, values: Vec<T>) -> (n: SignalNotifications)
        requires
            old(rt).wf(),
        ensures
            final(rt).wf(),
            final(self).spec_id() == old(self).spec_id(),
            final(self).spec_value()@ == old(self).spec_value()@ + values@,
            written(old(rt)@, final(rt)@, old(self).spec_id(), values@.len() > 0, n),
    {
        if values.len() == 0 {
            proof {
                assert(old(self).spec_value()@ + values@ =~= old(self).spec_value()@);
            }
            return SignalNotifications::empty();
        }
        let mut list = self.swap_silent(Vec::new());
        let mut values = values;
        list.append(&mut values);
        self.set_silent(list);
        self.notify(rt)
    }

    /// Insert a value at `index`, shifting later elements right.
    pub fn insert(&mut self, rt: &mut ReactiveRuntime, index: usize, value: T) -> (n: SignalNotifications)
        requires
            old(rt).wf(),
            index <= old(self).spec_value()@.len(),
        ensures
            final(rt).wf(),
            final(self).spec_id() == old(self).spec_id(),
            final(self).spec_value()@ == old(self).spec_value()@.insert(index as int, value),
            old(rt)@.notified(final(rt)@, old(self).spec_id(), n),
    {
        let mut list = self.swap_silent(Vec::new());
        list.insert(index, value);
        self.set_silent(list);
        self.notify(rt)
    }

    /// Remove and return the value at `index`; an index past the end
    /// changes nothing.
    pub fn remove(&mut self, rt: &mut ReactiveRuntime, index: usize) -> (r: (Option<T>, SignalNotifications))
        requires
            old(rt).wf(),
        ensures
            final(rt).wf(),
            final(self).spec_id() == old(self).spec_id(),
            index < old(self).spec_value()@.len() ==> {
                &&& r.0 == Some(old(self).spec_value()@[index as int])
                &&& final(self).spec_value()@ == old(self).spec_value()@.remove(index as int)
            },
            index >= old(self).spec_value()@.len() ==> r.0 is None && final(self).spec_value()@ == old(
                self,
            ).spec_value()@,
            written(old(rt)@, final(rt)@, old(self).spec_id(), index < old(self).spec_value()@.len(), r.1),
    {
        if index >= self.peek().len() {
            return (None, SignalNotifications::empty());
        }
        let mut list = self.swap_silent(Vec::new());
        let removed = list.remove(index);
        self.set_silent(list);
        let n = self.notify(rt);
        (Some(removed), n)
    }

    /// Remove the first value for which `predicate` answers `true`; returns
    /// whether one was removed.
    pub fn remove_first<F: Fn(&T) -> bool>(&mut self, rt: &mut ReactiveRuntime, predicate: F) -> (r: (
        bool,
        SignalNotifications,
    ))
        requires
            old(rt).wf(),
            callable_on(old(self).spec_value()@, predicate),
        ensures
            final(rt).wf(),
            final(self).spec_id() == old(self).spec_id(),
            r.0 ==> exists|i: int|
                first_match(old(self).spec_value()@, predicate, i) && final(self).spec_value()@ == old(
                    self,
                ).spec_value()@.remove(i),
            !r.0 ==> final(self).spec_value()@ == old(self).spec_value()@ && forall|j: int|
                0 <= j < old(self).spec_value()@.len() ==> call_ensures(
                    predicate,
                    (&old(self).spec_value()@[j],),
                    false,
                ),
            written(old(rt)@, final(rt)@, old(self).spec_id(), r.0, r.1),
    {
        match position_where(self.peek(), &predicate) {
            Some(i) => {
                let mut list = self.swap_silent(Vec::new());
                list.remove(i);
                self.set_silent(list);
                let n = self.notify(rt);
                (true, n)
            },
            None => (false, SignalNotifications::empty()),
        }
    }

    /// Keep only the values for which `predicate` answers `true`;
    /// dependents are notified when the length changed.
    pub fn retain<F: Fn(&T) -> bool>(&mut self, rt: &mut ReactiveRuntime, predicate: F) -> (n: SignalNotifications)
        requires
            old(rt).wf(),
            callable_on(old(self).spec_value()@, predicate),
        ensures
            final(rt).wf(),
            final(self).spec_id() == old(self).spec_id(),
            exists|keep: Seq<bool>|
                {
                    &&& keep.len() == old(self).spec_value()@.len()
                    &&& forall|i: int|
                        0 <= i < keep.len() ==> call_ensures(
                            predicate,
                            (&old(self).spec_value()@[i],),
                            #[trigger] keep[i],
                        )
                    &&& final(self).spec_value()@ == kept(old(self).spec_value()@, keep)
                },
            written(
                old(rt)@,
                final(rt)@,
                old(self).spec_id(),
                final(self).spec_value()@.len() != old(self).spec_value()@.len(),
                n,
            ),
    {
        let mut list = self.swap_silent(Vec::new());
        let ghost start = list@;
        let before = list.len();
        assert(start.len() <= usize::MAX);
        let mut out: Vec<T> = Vec::new();
        let mut keep: Ghost<Seq<bool>> = Ghost(Seq::empty());
        let mut done: usize = 0;
        proof {
            assert(start.subrange(0, 0) =~= Seq::<T>::empty());
        }
        while list.len() > 0
            invariant
                callable_on(start, predicate),
                start.len() <= usize::MAX,
                done + list@.len() == start.len(),
                list@ == start.subrange(done as int, start.len() as int),
                keep@.len() == done,
                forall|i: int| 0 <= i < done ==> call_ensures(predicate, (&start[i],), #[trigger] keep@[i]),
                out@ == kept(start.subrange(0, done as int), keep@),
            decreases list.len(),
        {
            let item = list.remove(0);
            proof {
                assert(item == start[done as int]);
                assert(list@ =~= start.subrange(done + 1, start.len() as int));
            }
            let k = predicate(&item);
            proof {
                let sub = start.subrange(0, done + 1);
                let nk = keep@.push(k);
                assert(sub.drop_last() =~= start.subrange(0, done as int));
                assert(nk.drop_last() =~= keep@);
                assert(sub.last() == item);
                assert(nk.last() == k);
            }
            proof {
                keep@ = keep@.push(k);
            }
            if k {
                out.push(item);
            }
            done = done + 1;
        }
        proof {
            assert(start.subrange(0, done as int) =~= start);
        }
        let changed = out.len() != before;
        self.set_silent(out);
        if changed {
            self.notify(rt)
        } else {
            SignalNotifications::empty()
        }
    }

    /// Remove every value; an empty list changes nothing.
    pub fn clear(&mut self, rt: &mut ReactiveRuntime) -> (n: SignalNotifications)
        requires
            old(rt).wf(),
        ensures
            final(rt).wf(),
            final(self).spec_id() == old(self).spec_id(),
            final(self).spec_value()@.len() == 0,
            written(old(rt)@, final(rt)@, old(self).spec_id(), old(self).spec_value()@.len() > 0, n),
    {
        if self.peek().len() == 0 {
            return SignalNotifications::empty();
        }
        self.set_silent(Vec::new());
        self.notify(rt)
    }

    /// Replace the entire list and notify dependents.
    pub fn set_all(&mut self, rt: &mut ReactiveRuntime, values: Vec<T>) -> (n: SignalNotifications)
        requires
            old(rt).wf(),
        ensures
            final(rt).wf(),
            final(self).spec_id() == old(self).spec_id(),
            final(self).spec_value()@ == values@,
            old(rt)@.notified(final(rt)@, old(self).spec_id(), n),
    {
        self.set_silent(values);
        self.notify(rt)
    }

    /// Remove the item that `selector` selects, if any, then reconcile the
    /// selector with the keys of the resulting list, clearing a selection
    /// that is no longer present. The list's and the selection's readers
    /// are woken as one batch. Returns the removed item.
    pub fn remove_selected_by<F: Fn(&T) -> u64>(
        &mut self,
        rt: &mut ReactiveRuntime,
        selector: &mut Selector,
        key: F,
    ) -> (r: (Option<T>, SignalNotifications))
        requires
            old(rt).wf(),
            old(selector).wf(),
            forall|s: Seq<T>| keys_callable(s, key),
        ensures
            final(rt).wf(),
            final(selector).wf(),
            final(self).spec_id() == old(self).spec_id(),
            final(selector).spec_id() == old(selector).spec_id(),
            exists|ks: Seq<u64>|
                {
                    &&& keys_of(old(self).spec_value()@, key, ks)
                    &&& match old(selector).spec_selected() {
                        Some(s) if ks.contains(s) => {
                            let i = ks.index_of_first(s)->0;
                            &&& r.0 == Some(old(self).spec_value()@[i])
                            &&& final(self).spec_value()@ == old(self).spec_value()@.remove(i)
                        },
                        _ => r.0 is None && final(self).spec_value()@ == old(self).spec_value()@,
                    }
                },
            exists|ks: Seq<u64>|
                {
                    &&& keys_of(final(self).spec_value()@, key, ks)
                    &&& final(selector).spec_selected() == reconciled(ks, old(selector).spec_selected(), false)
                    &&& final(selector).keyed_keys().to_set() == old(selector).keyed_keys().to_set().intersect(
                        ks.to_set(),
                    )
                },
            old(rt)@.wrote(
                final(rt)@,
                Set::<SignalId>::empty().union(
                    if r.0 is Some {
                        Set::empty().insert(old(self).spec_id())
                    } else {
                        Set::empty()
                    },
                ).union(old(selector).touched(old(selector).spec_selected(), final(selector).spec_selected())),
                r.1,
            ),
    {
        let mut ids: Vec<SignalId> = Vec::new();
        let mut removed: Option<T> = None;
        let ks = collect_keys(self.peek(), &key);
        let ghost ks0 = ks@;
        match selector.get_untracked() {
            Some(s) => {
                proof {
                    ks@.index_of_first_ensures(s);
                }
                let mut i: usize = 0;
                let mut found: Option<usize> = None;
                while i < ks.len()
                    invariant
                        i <= ks.len(),
                        found is None ==> forall|j: int| 0 <= j < i ==> ks@[j] != s,
                        found matches Some(f) ==> f < ks@.len() && ks@.index_of_first(s) == Some(f as int),
                        match ks@.index_of_first(s) {
                            Some(index) => {
                                &&& 0 <= index < ks@.len()
                                &&& ks@[index] == s
                                &&& forall|j: int| 0 <= j < index < ks@.len() ==> ks@[j] != s
                            },
                            None => !ks@.contains(s),
                        },
                    decreases ks.len() - i,
                {
                    if found.is_none() && ks[i] == s {
                        proof {
                            assert(ks@.contains(s));
                        }
                        found = Some(i);
                    }
                    i = i + 1;
                }
                if let Some(f) = found {
                    let mut list = self.swap_silent(Vec::new());
                    removed = Some(list.remove(f));
                    self.set_silent(list);
                    push_id(&mut ids, self.id());
                }
            },
            None => {},
        }
        let ghost list_ids = ids@.to_set();
        let after = collect_keys(self.peek(), &key);
        let (_, selection_ids) = selector.reconcile_silent(&after, false);
        append_ids(&mut ids, &selection_ids);
        proof {
            assert(ids@.to_set() =~= Set::<SignalId>::empty().union(
                if removed is Some {
                    Set::empty().insert(old(self).spec_id())
                } else {
                    Set::empty()
                },
            ).union(old(selector).touched(old(selector).spec_selected(), selector.spec_selected())));
        }
        let n = rt.notify_all(&ids);
        (removed, n)
    }
}

} // verus!
