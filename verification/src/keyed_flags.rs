//! Per-key boolean flag signals.
//!
//! A [`KeyFlags`] holds at most one flag signal per key, created the first
//! time a reader asks about the key. Owners keep every flag equal to a
//! membership test of their own state, so that a change wakes only the
//! readers of the keys whose answer changed.
use vstd::prelude::*;

use crate::key_vec::contains_key;
use crate::runtime::{ReactiveRuntime, RuntimeView, SignalId};
use crate::signal::Signal;

verus! {

broadcast use {vstd::seq_lib::group_seq_properties, vstd::set_lib::group_set_properties};

/// The flag signal registered for one key.
struct KeyFlag {
    key: u64,
    flag: Signal<bool>,
}

/// Flag signals keyed by `u64`.
pub struct KeyFlags {
    entries: Vec<KeyFlag>,
}

impl KeyFlags {
    /// The keys that have a flag, in registration order.
    pub closed spec fn keys(&self) -> Seq<u64> {
        self.entries@.map_values(|f: KeyFlag| f.key)
    }

    /// The identity of the flag of `key`.
    pub closed spec fn flag_id(&self, key: u64) -> SignalId {
        self.entries@[self.keys().index_of_first(key)->0].flag.spec_id()
    }

    /// The value of the flag of `key`.
    pub closed spec fn value(&self, key: u64) -> bool {
        self.entries@[self.keys().index_of_first(key)->0].flag.spec_value()
    }

    /// No key has two flags.
    pub closed spec fn wf(&self) -> bool {
        self.keys().no_duplicates()
    }

    /// Every flag says whether its key is in `members`.
    pub open spec fn agrees(&self, members: Seq<u64>) -> bool {
        forall|k: u64| #[trigger] self.keys().contains(k) ==> self.value(k) == members.contains(k)
    }

    /// The flags whose value differs from membership in `members`.
    pub open spec fn changed_ids(&self, members: Seq<u64>) -> Set<SignalId> {
        Set::new(
            |id: SignalId|
                exists|k: u64|
                    #[trigger] self.keys().contains(k) && self.value(k) != members.contains(k) && self.flag_id(k)
                        == id,
        )
    }

    /// `self` keeps the flags of `other` for every key it has.
    pub open spec fn keeps_ids(&self, other: &Self) -> bool {
        forall|k: u64| #[trigger] self.keys().contains(k) ==> self.flag_id(k) == other.flag_id(k)
    }

    proof fn lemma_entry(&self, i: int)
        requires
            self.wf(),
            0 <= i < self.entries@.len(),
        ensures
            self.keys().index_of_first(self.entries@[i].key) == Some(i),
            self.flag_id(self.entries@[i].key) == self.entries@[i].flag.spec_id(),
            self.value(self.entries@[i].key) == self.entries@[i].flag.spec_value(),
            self.keys()[i] == self.entries@[i].key,
    {
        let k = self.entries@[i].key;
        self.keys().index_of_first_ensures(k);
        assert(self.keys()[i] == k);
    }

    /// No flags.
    pub fn new() -> (f: Self)
        ensures
            f.wf(),
            f.keys().len() == 0,
    {
        let f = KeyFlags { entries: Vec::new() };
        proof {
            assert(f.keys() =~= Seq::<u64>::empty());
        }
        f
    }

    fn find(&self, key: u64) -> (r: Option<usize>)
        ensures
            match r {
                Some(i) => i < self.entries@.len() && self.entries@[i as int].key == key && self.keys().contains(key),
                None => !self.keys().contains(key),
            },
    {
        let mut i: usize = 0;
        while i < self.entries.len()
            invariant
                i <= self.entries.len(),
                forall|j: int| 0 <= j < i ==> self.entries@[j].key != key,
            decreases self.entries.len() - i,
        {
            if self.entries[i].key == key {
                proof {
                    assert(self.keys()[i as int] == key);
                }
                return Some(i);
            }
            i = i + 1;
        }
        proof {
            if self.keys().contains(key) {
                let j = choose|j: int| 0 <= j < self.keys().len() && self.keys()[j] == key;
                assert(self.entries@[j].key == key);
            }
        }
        None
    }

    /// Read the flag of `key` with dependency tracking, first creating it
    /// with the value `initial` when `key` has none.
    pub fn read(&mut self, rt: &mut ReactiveRuntime, key: u64, initial: bool) -> (b: bool)
        requires
            old(rt).wf(),
            old(self).wf(),
            old(rt)@.next_signal < u64::MAX,
        ensures
            final(rt).wf(),
            final(self).wf(),
            final(self).keys().contains(key),
            forall|k: u64| #[trigger] old(self).keys().contains(k) ==> final(self).keys().contains(k)
                && final(self).value(k) == old(self).value(k) && final(self).flag_id(k) == old(self).flag_id(k),
            forall|k: u64| #[trigger] final(self).keys().contains(k) ==> old(self).keys().contains(k) || k == key,
            old(self).keys().contains(key) ==> {
                &&& b == old(self).value(key)
                &&& final(self).keys() == old(self).keys()
                &&& final(rt)@ == old(rt)@.after_track(old(self).flag_id(key))
            },
            !old(self).keys().contains(key) ==> {
                &&& b == initial
                &&& final(self).value(key) == initial
                &&& final(self).flag_id(key) == SignalId(old(rt)@.next_signal)
                &&& final(rt)@ == (RuntimeView {
                    next_signal: (old(rt)@.next_signal + 1) as u64,
                    ..old(rt)@
                }).after_track(SignalId(old(rt)@.next_signal))
            },
    {
        match self.find(key) {
            Some(i) => {
                proof {
                    self.lemma_entry(i as int);
                }
                *self.entries[i].flag.read(rt)
            },
            None => {
                let flag = Signal::new(rt, initial);
                let ghost before = self.entries@;
                self.entries.push(KeyFlag { key, flag });
                let n = self.entries.len();
                proof {
                    assert(self.keys() =~= old(self).keys().push(key));
                    assert forall|k: u64| #[trigger] old(self).keys().contains(k) implies self.keys().contains(k)
                        && self.flag_id(k) == old(self).flag_id(k) && self.value(k) == old(self).value(k) by {
                        let j = choose|j: int| 0 <= j < old(self).keys().len() && old(self).keys()[j] == k;
                        old(self).lemma_entry(j);
                        assert(self.entries@[j] == before[j]);
                        self.lemma_entry(j);
                    }
                    self.lemma_entry(n - 1);
                }
                *self.entries[n - 1].flag.read(rt)
            },
        }
    }

    /// Overwrite the value of entry `i`, keeping its key and identity.
    fn write(&mut self, i: usize, value: bool) -> (id: SignalId)
        requires
            i < old(self).entries@.len(),
        ensures
            final(self).entries@.len() == old(self).entries@.len(),
            forall|j: int|
                0 <= j < old(self).entries@.len() && j != i ==> final(self).entries@[j] == old(self).entries@[j],
            final(self).entries@[i as int].key == old(self).entries@[i as int].key,
            final(self).entries@[i as int].flag.spec_id() == old(self).entries@[i as int].flag.spec_id(),
            final(self).entries@[i as int].flag.spec_value() == value,
            id == old(self).entries@[i as int].flag.spec_id(),
    {
        let mut entry = self.entries.remove(i);
        entry.flag.set_silent(value);
        let id = entry.flag.id();
        self.entries.insert(i, entry);
        id
    }

    /// Set every flag to whether its key is in `members`, without
    /// notifying; returns the flags whose value changed.
    pub fn set_all(&mut self, members: &Vec<u64>) -> (ids: Vec<SignalId>)
        requires
            old(self).wf(),
        ensures
            final(self).wf(),
            final(self).keys() == old(self).keys(),
            final(self).keeps_ids(old(self)),
            final(self).agrees(members@),
            ids@.to_set() == old(self).changed_ids(members@),
    {
        let ghost start = self.entries@;
        let mut ids: Vec<SignalId> = Vec::new();
        let mut i: usize = 0;
        proof {
            assert(ids@.to_set() =~= Set::<SignalId>::empty());
        }
        while i < self.entries.len()
            invariant
                old(self).wf(),
                start == old(self).entries@,
                i <= self.entries.len(),
                self.entries@.len() == start.len(),
                forall|j: int|
                    0 <= j < start.len() ==> (#[trigger] self.entries@[j]).key == start[j].key
                        && self.entries@[j].flag.spec_id() == start[j].flag.spec_id(),
                forall|j: int|
                    0 <= j < i ==> (#[trigger] self.entries@[j]).flag.spec_value() == members@.contains(
                        start[j].key,
                    ),
                forall|j: int| i <= j < start.len() ==> #[trigger] self.entries@[j] == start[j],
                forall|id: SignalId|
                    #[trigger] ids@.to_set().contains(id) <==> exists|j: int|
                        0 <= j < i && start[j].flag.spec_value() != members@.contains(start[j].key)
                            && start[j].flag.spec_id() == id,
            decreases self.entries.len() - i,
        {
            let key = self.entries[i].key;
            let desired = contains_key(members, key);
            let current = *self.entries[i].flag.peek();
            let ghost before_ids = ids@.to_set();
            let ghost prev = ids@;
            if current != desired {
                let id = self.write(i, desired);
                ids.push(id);
            }
            proof {
                assert forall|id: SignalId|
                    #[trigger] ids@.to_set().contains(id) <==> exists|j: int|
                        0 <= j < i + 1 && start[j].flag.spec_value() != members@.contains(start[j].key)
                            && start[j].flag.spec_id() == id by {
                    if ids@.to_set().contains(id) && !before_ids.contains(id) {
                        assert(ids@.last() == id);
                        assert(start[i as int].flag.spec_id() == id);
                    }
                    if ids@.to_set().contains(id) && before_ids.contains(id) {
                    }
                    if exists|j: int|
                        0 <= j < i + 1 && start[j].flag.spec_value() != members@.contains(start[j].key)
                            && start[j].flag.spec_id() == id {
                        let j = choose|j: int|
                            0 <= j < i + 1 && start[j].flag.spec_value() != members@.contains(start[j].key)
                                && start[j].flag.spec_id() == id;
                        if j == i {
                            assert(ids@.last() == id);
                            assert(ids@.contains(id));
                        } else {
                            assert(before_ids.contains(id));
                            let m = choose|m: int| 0 <= m < prev.len() && prev[m] == id;
                            assert(ids@[m] == id);
                        }
                    }
                }
            }
            i = i + 1;
        }
        proof {
            assert(self.keys() =~= old(self).keys());
            assert forall|k: u64| #[trigger] self.keys().contains(k) implies self.flag_id(k) == old(self).flag_id(k)
                && self.value(k) == members@.contains(k) by {
                let j = choose|j: int| 0 <= j < self.keys().len() && self.keys()[j] == k;
                self.lemma_entry(j);
                old(self).lemma_entry(j);
            }
            assert forall|id: SignalId| ids@.to_set().contains(id) implies old(self).changed_ids(members@).contains(id) by {
                let j = choose|j: int|
                    0 <= j < i && start[j].flag.spec_value() != members@.contains(start[j].key)
                        && start[j].flag.spec_id() == id;
                old(self).lemma_entry(j);
                assert(old(self).keys().contains(start[j].key));
            }
            assert forall|id: SignalId| old(self).changed_ids(members@).contains(id) implies ids@.to_set().contains(id) by {
                let k = choose|k: u64|
                    #[trigger] old(self).keys().contains(k) && old(self).value(k) != members@.contains(k)
                        && old(self).flag_id(k) == id;
                let j = choose|j: int| 0 <= j < old(self).keys().len() && old(self).keys()[j] == k;
                old(self).lemma_entry(j);
                assert(0 <= j < i && start[j].flag.spec_value() != members@.contains(start[j].key)
                    && start[j].flag.spec_id() == id);
            }
            assert(ids@.to_set() =~= old(self).changed_ids(members@));
        }
        ids
    }

    /// Drop the flags of keys not in `keys`.
    pub fn retain(&mut self, keys: &Vec<u64>)
        requires
            old(self).wf(),
        ensures
            final(self).wf(),
            final(self).keys().to_set() == old(self).keys().to_set().intersect(keys@.to_set()),
            final(self).keeps_ids(old(self)),
            forall|k: u64| #[trigger] final(self).keys().contains(k) ==> final(self).value(k) == old(self).value(k),
    {
        let ghost start = self.entries@;
        let mut kept: Vec<KeyFlag> = Vec::new();
        while self.entries.len() > 0
            invariant
                old(self).wf(),
                start == old(self).entries@,
                self.entries@.len() <= start.len(),
                self.entries@ == start.subrange(start.len() - self.entries@.len(), start.len() as int),
                kept@.map_values(|f: KeyFlag| f.key).no_duplicates(),
                forall|j: int| 0 <= j < kept@.len() ==> keys@.contains((#[trigger] kept@[j]).key),
                forall|j: int|
                    0 <= j < kept@.len() ==> exists|m: int|
                        0 <= m < start.len() - self.entries@.len() && start[m] == #[trigger] kept@[j],
                forall|m: int|
                    0 <= m < start.len() - self.entries@.len() && keys@.contains(start[m].key) ==> exists|j: int|
                        0 <= j < kept@.len() && #[trigger] kept@[j] == start[m],
            decreases self.entries.len(),
        {
            let entry = self.entries.remove(0);
            let ghost m = start.len() - self.entries@.len() - 1;
            let ghost before = kept@;
            proof {
                assert(entry == start[m]);
                assert(self.entries@ =~= start.subrange(start.len() - self.entries@.len(), start.len() as int));
            }
            if contains_key(keys, entry.key) {
                proof {
                    assert forall|j: int| 0 <= j < kept@.len() implies kept@[j].key != entry.key by {
                        let mm = choose|mm: int| 0 <= mm < m && start[mm] == kept@[j];
                        old(self).lemma_entry(mm);
                        old(self).lemma_entry(m);
                    }
                    lemma_keys_push(kept@, entry);
                }
                kept.push(entry);
                proof {
                    assert forall|j: int| 0 <= j < kept@.len() implies exists|mm: int|
                        0 <= mm < m + 1 && start[mm] == #[trigger] kept@[j] by {
                        if j < before.len() {
                            let mm = choose|mm: int| 0 <= mm < m && start[mm] == before[j];
                            assert(start[mm] == kept@[j]);
                        } else {
                            assert(start[m] == kept@[j]);
                        }
                    }
                    assert forall|mm: int| 0 <= mm < m + 1 && keys@.contains(start[mm].key) implies exists|j: int|
                        0 <= j < kept@.len() && #[trigger] kept@[j] == start[mm] by {
                        if mm < m {
                            let j = choose|j: int| 0 <= j < before.len() && before[j] == start[mm];
                            assert(kept@[j] == start[mm]);
                        } else {
                            assert(kept@[before.len() as int] == start[mm]);
                        }
                    }
                }
            } else {
                proof {
                    assert forall|j: int| 0 <= j < kept@.len() implies exists|mm: int|
                        0 <= mm < m + 1 && start[mm] == #[trigger] kept@[j] by {
                        let mm = choose|mm: int| 0 <= mm < m && start[mm] == before[j];
                    }
                }
            }
        }
        self.entries = kept;
        proof {
            assert forall|k: u64| self.keys().to_set().contains(k) <==> old(self).keys().to_set().intersect(
                keys@.to_set(),
            ).contains(k) by {
                if self.keys().contains(k) {
                    let j = choose|j: int| 0 <= j < self.keys().len() && self.keys()[j] == k;
                    let m = choose|m: int| 0 <= m < start.len() && start[m] == self.entries@[j];
                    assert(old(self).keys()[m] == k);
                }
                if old(self).keys().contains(k) && keys@.contains(k) {
                    let m = choose|m: int| 0 <= m < old(self).keys().len() && old(self).keys()[m] == k;
                    let j = choose|j: int| 0 <= j < self.entries@.len() && self.entries@[j] == start[m];
                    assert(self.keys()[j] == k);
                }
            }
            assert(self.keys().to_set() =~= old(self).keys().to_set().intersect(keys@.to_set()));
            assert forall|k: u64| #[trigger] self.keys().contains(k) implies self.flag_id(k) == old(self).flag_id(k)
                && self.value(k) == old(self).value(k) by {
                let j = choose|j: int| 0 <= j < self.keys().len() && self.keys()[j] == k;
                let m = choose|m: int| 0 <= m < start.len() && start[m] == self.entries@[j];
                self.lemma_entry(j);
                old(self).lemma_entry(m);
            }
        }
    }

    /// Drop every flag.
    pub fn clear(&mut self)
        ensures
            final(self).wf(),
            final(self).keys().len() == 0,
    {
        self.entries = Vec::new();
        proof {
            assert(self.keys() =~= Seq::<u64>::empty());
        }
    }
}

proof fn lemma_keys_push(kept: Seq<KeyFlag>, entry: KeyFlag)
    requires
        kept.map_values(|f: KeyFlag| f.key).no_duplicates(),
        forall|j: int| 0 <= j < kept.len() ==> kept[j].key != entry.key,
    ensures
        kept.push(entry).map_values(|f: KeyFlag| f.key).no_duplicates(),
{
    let ks = kept.map_values(|f: KeyFlag| f.key);
    assert(kept.push(entry).map_values(|f: KeyFlag| f.key) =~= ks.push(entry.key));
    assert forall|i: int, j: int|
        0 <= i < ks.push(entry.key).len() && 0 <= j < ks.push(entry.key).len() && i != j implies ks.push(
        entry.key,
    )[i] != ks.push(entry.key)[j] by {
        if i < ks.len() && j < ks.len() {
        } else if i == ks.len() {
            assert(ks.push(entry.key)[j] == kept[j].key);
        } else {
            assert(ks.push(entry.key)[i] == kept[i].key);
        }
    }
}

} // verus!
