//! Keyed retention of row views for list-shaped views.
//!
//! [`KeyedSubViews`] keeps one row view per stable item key, in item order.
//! [`KeyedSubViews::sync`] reconciles the rows with the latest item keys: a
//! key that already has a row keeps it, a new key takes the row the host
//! built for it, and rows of keys that disappeared are dropped. The host
//! builds rows for the keys that [`KeyedSubViews::contains_key`] does not
//! know, and refreshes the rows that `sync` reports as reused.
use vstd::prelude::*;

verus! {

broadcast use {vstd::seq_lib::group_seq_properties, vstd::set_lib::group_set_properties};

/// One retained keyed row.
pub struct KeyedSubView<V> {
    key: u64,
    view: V,
}

impl<V> KeyedSubView<V> {
    /// The row's key.
    pub closed spec fn spec_key(&self) -> u64 {
        self.key
    }

    /// The row's view.
    pub closed spec fn spec_view(&self) -> V {
        self.view
    }

    /// Borrow this row's key.
    pub fn key(&self) -> (k: &u64)
        ensures
            *k == self.spec_key(),
    {
        &self.key
    }

    /// Borrow this row's retained view.
    pub fn view(&self) -> (v: &V)
        ensures
            *v == self.spec_view(),
    {
        &self.view
    }
}

/// Retains one row view per stable item key, in item order.
pub struct KeyedSubViews<V> {
    entries: Vec<KeyedSubView<V>>,
}

/// The row of `key` in `rows`, the first one with that key.
pub open spec fn row_of<V>(rows: Seq<(u64, V)>, key: u64) -> V {
    rows[rows.map_values(|r: (u64, V)| r.0).index_of_first(key)->0].1
}

impl<V> KeyedSubViews<V> {
    /// The retained rows, in order, as key and view.
    pub closed spec fn rows(&self) -> Seq<(u64, V)> {
        self.entries@.map_values(|e: KeyedSubView<V>| (e.key, e.view))
    }

    /// The keys of the retained rows, in order.
    pub open spec fn keys(&self) -> Seq<u64> {
        self.rows().map_values(|r: (u64, V)| r.0)
    }

    /// No key has two rows.
    pub open spec fn wf(&self) -> bool {
        self.keys().no_duplicates()
    }

    /// Create an empty collection.
    pub fn new() -> (s: Self)
        ensures
            s.wf(),
            s.rows().len() == 0,
    {
        let s = KeyedSubViews { entries: Vec::new() };
        proof {
            assert(s.rows() =~= Seq::<(u64, V)>::empty());
            assert(s.keys() =~= Seq::<u64>::empty());
        }
        s
    }

    /// The number of retained rows.
    pub fn len(&self) -> (n: usize)
        ensures
            n == self.rows().len(),
    {
        self.entries.len()
    }

    /// Whether no row is retained.
    pub fn is_empty(&self) -> (b: bool)
        ensures
            b == (self.rows().len() == 0),
    {
        self.entries.len() == 0
    }

    /// Drop every row.
    pub fn clear(&mut self)
        ensures
            final(self).wf(),
            final(self).rows().len() == 0,
    {
        self.entries = Vec::new();
        proof {
            assert(self.rows() =~= Seq::<(u64, V)>::empty());
            assert(self.keys() =~= Seq::<u64>::empty());
        }
    }

    /// The position of `key`'s row, if any.
    fn position(&self, key: u64) -> (r: Option<usize>)
        ensures
            match r {
                Some(i) => i < self.rows().len() && self.keys().index_of_first(key) == Some(i as int),
                None => !self.keys().contains(key),
            },
    {
        proof {
            self.keys().index_of_first_ensures(key);
        }
        let mut i: usize = 0;
        while i < self.entries.len()
            invariant
                i <= self.entries.len(),
                forall|j: int| 0 <= j < i ==> self.keys()[j] != key,
                match self.keys().index_of_first(key) {
                    Some(index) => {
                        &&& 0 <= index < self.keys().len()
                        &&& self.keys()[index] == key
                        &&& forall|j: int| 0 <= j < index < self.keys().len() ==> self.keys()[j] != key
                    },
                    None => !self.keys().contains(key),
                },
            decreases self.entries.len() - i,
        {
            if self.entries[i].key == key {
                proof {
                    assert(self.keys()[i as int] == key);
                }
                return Some(i);
            }
            i = i + 1;
        }
        None
    }

    /// Whether `key` has a retained row.
    pub fn contains_key(&self, key: u64) -> (b: bool)
        ensures
            b == self.keys().contains(key),
    {
        match self.position(key) {
            Some(i) => {
                proof {
                    self.keys().index_of_first_ensures(key);
                }
                true
            },
            None => false,
        }
    }

    /// Borrow the row of `key`, if it is retained.
    pub fn get(&self, key: u64) -> (v: Option<&V>)
        ensures
            match v {
                Some(view) => self.keys().contains(key) && *view == row_of(self.rows(), key),
                None => !self.keys().contains(key),
            },
    {
        match self.position(key) {
            Some(i) => {
                proof {
                    self.keys().index_of_first_ensures(key);
                }
                Some(&self.entries[i].view)
            },
            None => None,
        }
    }

    /// Borrow the retained rows in item order.
    pub fn entries(&self) -> (e: &Vec<KeyedSubView<V>>)
        ensures
            e@.map_values(|x: KeyedSubView<V>| (x.spec_key(), x.spec_view())) == self.rows(),
    {
        proof {
            assert(self.entries@.map_values(|x: KeyedSubView<V>| (x.spec_key(), x.spec_view())) =~= self.rows());
        }
        &self.entries
    }

    /// Reconcile the retained rows with `keys`, the item keys in order.
    ///
    /// A key that has a row keeps it; any other key takes its entry of
    /// `built`, the row the host made for it; rows of keys not in `keys` are
    /// dropped. Returns, for each key, whether its row was reused, so that
    /// the host can refresh those rows.
    pub fn sync(&mut self, keys: &Vec<u64>, built: Vec<Option<V>>) -> (reused: Vec<bool>)
        requires
            old(self).wf(),
            keys@.no_duplicates(),
            built@.len() == keys@.len(),
            forall|i: int| 0 <= i < keys@.len() && !old(self).keys().contains(keys@[i]) ==> built@[i] is Some,
        ensures
            final(self).wf(),
            final(self).keys() == keys@,
            reused@.len() == keys@.len(),
            forall|i: int|
                0 <= i < keys@.len() ==> (#[trigger] reused@[i]) == old(self).keys().contains(keys@[i]),
            forall|i: int|
                0 <= i < keys@.len() ==> (#[trigger] final(self).rows()[i]).1 == if old(self).keys().contains(
                    keys@[i],
                ) {
                    row_of(old(self).rows(), keys@[i])
                } else {
                    built@[i]->0
                },
    {
        let ghost old_rows = self.rows();
        let ghost old_keys = self.keys();
        let mut previous: Vec<KeyedSubView<V>> = Vec::new();
        std::mem::swap(&mut previous, &mut self.entries);
        let mut built = built;
        let mut next: Vec<KeyedSubView<V>> = Vec::new();
        let mut reused: Vec<bool> = Vec::new();
        let ghost built0 = built@;
        let mut i: usize = 0;
        proof {
            assert(previous@.map_values(|e: KeyedSubView<V>| (e.key, e.view)) == old_rows);
            assert(keys@.subrange(0, 0) =~= Seq::<u64>::empty());
            assert forall|m: int| 0 <= m < previous@.len() implies {
                &&& old_keys.contains((#[trigger] previous@[m]).key)
                &&& !keys@.subrange(0, 0).contains(previous@[m].key)
                &&& previous@[m].view == row_of(old_rows, previous@[m].key)
            } by {
                assert(previous@[m].key == old_keys[m]);
                assert(old_rows[m] == (previous@[m].key, previous@[m].view));
                old_keys.index_of_first_ensures(old_keys[m]);
                let idx = old_keys.index_of_first(old_keys[m])->0;
                assert(old_keys[idx] == old_keys[m]);
                assert(idx == m);
            }
            assert forall|a: int, b: int| 0 <= a < b < previous@.len() implies (#[trigger] previous@[a]).key
                != (#[trigger] previous@[b]).key by {
                assert(previous@[a].key == old_keys[a]);
                assert(previous@[b].key == old_keys[b]);
            }
            assert forall|k: u64| old_keys.contains(k) implies exists|m: int|
                0 <= m < previous@.len() && (#[trigger] previous@[m]).key == k by {
                let m = choose|m: int| 0 <= m < old_keys.len() && old_keys[m] == k;
                assert(previous@[m].key == k);
            }
        }
        while i < keys.len()
            invariant
                i <= keys.len(),
                keys@.no_duplicates(),
                old_keys.no_duplicates(),
                old_keys == old_rows.map_values(|r: (u64, V)| r.0),
                built@.len() == keys@.len(),
                built0.len() == keys@.len(),
                forall|j: int| i <= j < keys@.len() ==> built@[j] == built0[j],
                forall|j: int| 0 <= j < keys@.len() && !old_keys.contains(keys@[j]) ==> built0[j] is Some,
                next@.len() == i,
                reused@.len() == i,
                forall|j: int| 0 <= j < i ==> (#[trigger] next@[j]).key == keys@[j],
                forall|j: int| 0 <= j < i ==> (#[trigger] reused@[j]) == old_keys.contains(keys@[j]),
                forall|j: int|
                    0 <= j < i ==> (#[trigger] next@[j]).view == if old_keys.contains(keys@[j]) {
                        row_of(old_rows, keys@[j])
                    } else {
                        built0[j]->0
                    },
                forall|a: int, b: int|
                    0 <= a < b < previous@.len() ==> (#[trigger] previous@[a]).key != (#[trigger] previous@[b]).key,
                forall|m: int|
                    0 <= m < previous@.len() ==> {
                        &&& old_keys.contains((#[trigger] previous@[m]).key)
                        &&& !keys@.subrange(0, i as int).contains(previous@[m].key)
                        &&& previous@[m].view == row_of(old_rows, previous@[m].key)
                    },
                forall|k: u64|
                    old_keys.contains(k) && !keys@.subrange(0, i as int).contains(k) ==> exists|m: int|
                        0 <= m < previous@.len() && (#[trigger] previous@[m]).key == k,
            decreases keys.len() - i,
        {
            let key = keys[i];
            let mut found: Option<usize> = None;
            let mut m: usize = 0;
            while m < previous.len()
                invariant
                    m <= previous.len(),
                    found is None ==> forall|t: int| 0 <= t < m ==> previous@[t].key != key,
                    found matches Some(f) ==> f < previous@.len() && previous@[f as int].key == key,
                decreases previous.len() - m,
            {
                if found.is_none() && previous[m].key == key {
                    found = Some(m);
                }
                m = m + 1;
            }
            let ghost prev_before = previous@;
            let mut slot: Option<V> = None;
            std::mem::swap(&mut slot, &mut built[i]);
            match found {
                Some(f) => {
                    let entry = previous.remove(f);
                    proof {
                        assert(old_keys.contains(key));
                    }
                    next.push(entry);
                    reused.push(true);
                },
                None => {
                    proof {
                        assert(!old_keys.contains(key)) by {
                            if old_keys.contains(key) {
                                assert(!keys@.subrange(0, i as int).contains(key)) by {
                                    if keys@.subrange(0, i as int).contains(key) {
                                        let j = choose|j: int| 0 <= j < i && keys@.subrange(0, i as int)[j] == key;
                                        assert(keys@[j] == keys@[i as int]);
                                    }
                                }
                            }
                        }
                    }
                    let view = slot.unwrap();
                    next.push(KeyedSubView { key, view });
                    reused.push(false);
                },
            }
            proof {
                assert(keys@.subrange(0, i + 1) =~= keys@.subrange(0, i as int).push(key));
                assert forall|mm: int| 0 <= mm < previous@.len() implies {
                    &&& old_keys.contains((#[trigger] previous@[mm]).key)
                    &&& !keys@.subrange(0, i + 1).contains(previous@[mm].key)
                    &&& previous@[mm].view == row_of(old_rows, previous@[mm].key)
                } by {
                    let src = if found is Some && mm >= found->0 {
                        mm + 1
                    } else {
                        mm
                    };
                    assert(previous@[mm] == prev_before[src]);
                    if found is None {
                        assert(prev_before[src].key != key);
                    } else {
                        let f = found->0 as int;
                        assert(src != f);
                        assert(prev_before[f].key == key);
                        if src < f {
                            assert(prev_before[src].key != prev_before[f].key);
                        } else {
                            assert(prev_before[f].key != prev_before[src].key);
                        }
                    }
                }
                assert forall|a: int, b: int| 0 <= a < b < previous@.len() implies (#[trigger] previous@[a]).key
                    != (#[trigger] previous@[b]).key by {
                    let sa = if found is Some && a >= found->0 {
                        a + 1
                    } else {
                        a
                    };
                    let sb = if found is Some && b >= found->0 {
                        b + 1
                    } else {
                        b
                    };
                    assert(previous@[a] == prev_before[sa]);
                    assert(previous@[b] == prev_before[sb]);
                    assert(sa < sb);
                }
                assert forall|k: u64| old_keys.contains(k) && !keys@.subrange(0, i + 1).contains(k) implies exists|
                    mm: int,
                | 0 <= mm < previous@.len() && (#[trigger] previous@[mm]).key == k by {
                    assert(!keys@.subrange(0, i as int).contains(k));
                    let t = choose|t: int| 0 <= t < prev_before.len() && (#[trigger] prev_before[t]).key == k;
                    assert(k != key);
                    if found is Some && t > found->0 {
                        assert(previous@[t - 1] == prev_before[t]);
                    } else {
                        assert(previous@[t] == prev_before[t]);
                    }
                }
            }
            i = i + 1;
        }
        self.entries = next;
        proof {
            assert(self.keys() =~= keys@);
        }
        reused
    }
}

} // verus!
