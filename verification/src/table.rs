use vstd::prelude::*;
use crate::errors::Message;
use crate::record::Record;
use crate::record::fits;
use crate::record::check_fits;

verus! {

// One keyed container per entity type: entries are kept in strictly
// ascending key order, so iteration is ascending and every key occurs at
// most once.  An update is a re-insert under the same key; an insert is
// rejected with `SizeExceeded` when the record's encoded footprint is over
// the store ceiling.

/// Keys strictly ascend along the entry list.
pub open spec fn sorted_keys<T>(s: Seq<(u64, T)>) -> bool {
    forall|i: int, j: int| 0 <= i < j < s.len() ==> (#[trigger] s[i]).0 < (#[trigger] s[j]).0
}

/// Some entry carries key `k`.
pub open spec fn has_key<T>(s: Seq<(u64, T)>, k: u64) -> bool {
    exists|i: int| 0 <= i < s.len() && (#[trigger] s[i]).0 == k
}

/// The pair `e` stands somewhere in the entry list.
pub open spec fn in_entries<T>(s: Seq<(u64, T)>, e: (u64, T)) -> bool {
    exists|i: int| 0 <= i < s.len() && s[i] == e
}

/// Value of the first entry carrying key `k`, if any.
pub open spec fn lookup<T>(s: Seq<(u64, T)>, k: u64) -> Option<T>
    decreases s.len(),
{
    if s.len() == 0 {
        None
    } else if s[0].0 == k {
        Some(s[0].1)
    } else {
        lookup(s.drop_first(), k)
    }
}

/// A scan that found no key `k` in the first `i` entries may continue from
/// entry `i`.
pub proof fn lemma_lookup_skip<T>(s: Seq<(u64, T)>, k: u64, i: int)
    requires
        0 <= i <= s.len(),
        forall|j: int| 0 <= j < i ==> (#[trigger] s[j]).0 != k,
    ensures
        lookup(s, k) == lookup(s.skip(i), k),
    decreases i,
{
    if i > 0 {
        let t = s.drop_first();
        assert(s[0].0 != k);
        assert(forall|j: int| 0 <= j < i - 1 ==> (#[trigger] t[j]).0 != k);
        lemma_lookup_skip(t, k, i - 1);
        assert(t.skip(i - 1) =~= s.skip(i));
    } else {
        assert(s.skip(0) =~= s);
    }
}

/// An entry with key `k` whose predecessors all carry other keys decides
/// the lookup.
pub proof fn lemma_lookup_from_entry<T>(s: Seq<(u64, T)>, k: u64, i: int)
    requires
        0 <= i < s.len(),
        s[i].0 == k,
        forall|j: int| 0 <= j < i ==> (#[trigger] s[j]).0 != k,
    ensures
        lookup(s, k) == Some(s[i].1),
{
    lemma_lookup_skip(s, k, i);
    assert(s.skip(i)[0] == s[i]);
}

/// A key that no entry carries is not found.
pub proof fn lemma_lookup_absent<T>(s: Seq<(u64, T)>, k: u64)
    requires
        forall|j: int| 0 <= j < s.len() ==> (#[trigger] s[j]).0 != k,
    ensures
        lookup(s, k) is None,
{
    lemma_lookup_skip(s, k, s.len() as int);
    assert(s.skip(s.len() as int).len() == 0);
}

/// In a sorted entry list the lookup finds a key exactly when some entry
/// carries it, and returns that entry's value.
pub proof fn lemma_lookup_sorted<T>(s: Seq<(u64, T)>, k: u64)
    requires
        sorted_keys(s),
    ensures
        has_key(s, k) <==> lookup(s, k) is Some,
        forall|i: int|
            0 <= i < s.len() && (#[trigger] s[i]).0 == k ==> lookup(s, k) == Some(s[i].1),
{
    if has_key(s, k) {
        assert forall|i: int|
            0 <= i < s.len() && (#[trigger] s[i]).0 == k implies lookup(s, k) == Some(
            s[i].1,
        ) by {
            assert(forall|j: int| 0 <= j < i ==> (#[trigger] s[j]).0 < k);
            lemma_lookup_from_entry(s, k, i);
        }
        let i = choose|i: int| 0 <= i < s.len() && (#[trigger] s[i]).0 == k;
        assert(lookup(s, k) == Some(s[i].1));
    } else {
        lemma_lookup_absent(s, k);
    }
}

/// Effect of replacing the value of the entry at `pos`, whose key is `k`,
/// in a sorted entry list.
pub proof fn lemma_update_at<T>(s: Seq<(u64, T)>, pos: int, k: u64, v: T)
    requires
        sorted_keys(s),
        0 <= pos < s.len(),
        s[pos].0 == k,
    ensures
        sorted_keys(s.update(pos, (k, v))),
        s.update(pos, (k, v)).len() == s.len(),
        lookup(s.update(pos, (k, v)), k) == Some(v),
        forall|k2: u64| k2 != k ==> lookup(s.update(pos, (k, v)), k2) == lookup(s, k2),
        forall|k2: u64| has_key(s.update(pos, (k, v)), k2) <==> has_key(s, k2),
        forall|i: int|
            0 <= i < s.len() ==> s.update(pos, (k, v))[i] == (k, v) || in_entries(
                s,
                s.update(pos, (k, v))[i],
            ),
        forall|j: int|
            0 <= j < s.len() && (#[trigger] s[j]).0 != k ==> in_entries(s.update(pos, (k, v)), s[j]),
{
    let t = s.update(pos, (k, v));
    assert(forall|i: int| 0 <= i < s.len() && i != pos ==> t[i] == s[i]);
    assert(t[pos] == (k, v));
    assert forall|k2: u64| has_key(t, k2) <==> has_key(s, k2) by {
        if has_key(t, k2) {
            let i = choose|i: int| 0 <= i < t.len() && (#[trigger] t[i]).0 == k2;
            assert(s[i].0 == t[i].0);
            assert(has_key(s, k2));
        }
        if has_key(s, k2) {
            let i = choose|i: int| 0 <= i < s.len() && (#[trigger] s[i]).0 == k2;
            assert(t[i].0 == s[i].0);
            assert(has_key(t, k2));
        }
    }
    assert(forall|j: int| 0 <= j < pos ==> (#[trigger] t[j]).0 != k);
    lemma_lookup_from_entry(t, k, pos);
    assert forall|k2: u64| k2 != k implies lookup(t, k2) == lookup(s, k2) by {
        if has_key(s, k2) {
            let i = choose|i: int| 0 <= i < s.len() && (#[trigger] s[i]).0 == k2;
            assert(forall|j: int| 0 <= j < i ==> (#[trigger] s[j]).0 != k2);
            assert(forall|j: int| 0 <= j < i ==> (#[trigger] t[j]).0 != k2);
            assert(i != pos);
            lemma_lookup_from_entry(s, k2, i);
            lemma_lookup_from_entry(t, k2, i);
        } else {
            assert(forall|j: int| 0 <= j < s.len() ==> (#[trigger] s[j]).0 != k2);
            assert(forall|j: int| 0 <= j < t.len() ==> (#[trigger] t[j]).0 != k2);
            lemma_lookup_absent(s, k2);
            lemma_lookup_absent(t, k2);
        }
    }
    assert forall|j: int| 0 <= j < s.len() && (#[trigger] s[j]).0 != k implies in_entries(
        t,
        s[j],
    ) by {
        assert(j != pos);
        assert(t[j] == s[j]);
    }
}

/// Effect of inserting a fresh entry `(k, v)` at its sorted position `pos`.
pub proof fn lemma_insert_at<T>(s: Seq<(u64, T)>, pos: int, k: u64, v: T)
    requires
        sorted_keys(s),
        0 <= pos <= s.len(),
        forall|j: int| 0 <= j < pos ==> (#[trigger] s[j]).0 < k,
        forall|j: int| pos <= j < s.len() ==> (#[trigger] s[j]).0 > k,
    ensures
        sorted_keys(s.insert(pos, (k, v))),
        s.insert(pos, (k, v)).len() == s.len() + 1,
        lookup(s.insert(pos, (k, v)), k) == Some(v),
        forall|k2: u64| k2 != k ==> lookup(s.insert(pos, (k, v)), k2) == lookup(s, k2),
        forall|k2: u64| has_key(s.insert(pos, (k, v)), k2) <==> (k2 == k || has_key(s, k2)),
        forall|i: int|
            0 <= i < s.insert(pos, (k, v)).len() ==> s.insert(pos, (k, v))[i] == (k, v)
                || in_entries(s, s.insert(pos, (k, v))[i]),
        forall|j: int| 0 <= j < s.len() ==> in_entries(s.insert(pos, (k, v)), s[j]),
        !has_key(s, k),
{
    let t = s.insert(pos, (k, v));
    s.insert_ensures(pos, (k, v));
    assert(forall|i: int| 0 <= i < pos ==> t[i] == s[i]);
    assert(forall|i: int| pos <= i < s.len() ==> t[i + 1] == s[i]);
    assert(t[pos] == (k, v));
    assert forall|i: int, j: int| 0 <= i < j < t.len() implies (#[trigger] t[i]).0 < (
    #[trigger] t[j]).0 by {
        if i < pos && j < pos {
        } else if i < pos && j == pos {
        } else if i < pos && j > pos {
            assert(t[j] == s[j - 1]);
        } else if i == pos {
            assert(t[j] == s[j - 1]);
        } else {
            assert(t[i] == s[i - 1]);
            assert(t[j] == s[j - 1]);
        }
    }
    assert(forall|j: int| 0 <= j < pos ==> (#[trigger] t[j]).0 != k);
    lemma_lookup_from_entry(t, k, pos);
    assert forall|i: int| 0 <= i < t.len() implies t[i] == (k, v) || in_entries(s, t[i]) by {
        if i < pos {
            assert(t[i] == s[i]);
        } else if i > pos {
            assert(t[i] == s[i - 1]);
        }
    }
    assert forall|j: int| 0 <= j < s.len() implies in_entries(t, s[j]) by {
        if j < pos {
            assert(t[j] == s[j]);
        } else {
            assert(t[j + 1] == s[j]);
        }
    }
    assert forall|k2: u64| has_key(t, k2) <==> (k2 == k || has_key(s, k2)) by {
        if has_key(t, k2) && k2 != k {
            let i = choose|i: int| 0 <= i < t.len() && (#[trigger] t[i]).0 == k2;
            if i < pos {
                assert(s[i].0 == k2);
            } else {
                assert(i != pos);
                assert(s[i - 1].0 == k2);
            }
            assert(has_key(s, k2));
        }
        if has_key(s, k2) {
            let i = choose|i: int| 0 <= i < s.len() && (#[trigger] s[i]).0 == k2;
            if i < pos {
                assert(t[i].0 == k2);
            } else {
                assert(t[i + 1].0 == k2);
            }
            assert(has_key(t, k2));
        }
    }
    assert forall|k2: u64| k2 != k implies lookup(t, k2) == lookup(s, k2) by {
        if has_key(s, k2) {
            let i = choose|i: int| 0 <= i < s.len() && (#[trigger] s[i]).0 == k2;
            assert(forall|j: int| 0 <= j < i ==> (#[trigger] s[j]).0 != k2);
            lemma_lookup_from_entry(s, k2, i);
            if i < pos {
                assert(t[i].0 == k2);
                assert(forall|j: int| 0 <= j < i ==> (#[trigger] t[j]).0 != k2);
                lemma_lookup_from_entry(t, k2, i);
            } else {
                assert(t[i + 1].0 == k2);
                assert forall|j: int| 0 <= j < i + 1 implies (#[trigger] t[j]).0 != k2 by {
                    if j < pos {
                        assert(t[j] == s[j]);
                    } else if j == pos {
                    } else {
                        assert(t[j] == s[j - 1]);
                    }
                }
                lemma_lookup_from_entry(t, k2, i + 1);
            }
        } else {
            assert(forall|j: int| 0 <= j < s.len() ==> (#[trigger] s[j]).0 != k2);
            lemma_lookup_absent(s, k2);
            assert(!has_key(t, k2));
            assert forall|j: int| 0 <= j < t.len() implies (#[trigger] t[j]).0 != k2 by {
                assert(has_key(t, k2) || t[j].0 != k2);
            }
            lemma_lookup_absent(t, k2);
        }
    }
    if has_key(s, k) {
        let i = choose|i: int| 0 <= i < s.len() && (#[trigger] s[i]).0 == k;
        assert(false);
    }
}

/// What adding or replacing the record under `k` does to the entry list:
/// `k` now carries `v`, every other key is untouched, and no entry appears
/// from anywhere else.  When `k` was present the list is a pointwise
/// update; when it was absent the list grows by one.
pub open spec fn table_upserted<T>(s0: Seq<(u64, T)>, s1: Seq<(u64, T)>, k: u64, v: T) -> bool {
    &&& s1.len() == s0.len() + (if has_key(s0, k) {
        0int
    } else {
        1int
    })
    &&& lookup(s1, k) == Some(v)
    &&& forall|k2: u64| k2 != k ==> lookup(s1, k2) == lookup(s0, k2)
    &&& forall|k2: u64| has_key(s1, k2) <==> (k2 == k || has_key(s0, k2))
    &&& forall|i: int| 0 <= i < s1.len() ==> s1[i] == (k, v) || in_entries(s0, s1[i])
    &&& forall|j: int|
        0 <= j < s0.len() && (#[trigger] s0[j]).0 != k ==> in_entries(s1, s0[j])
    &&& has_key(s0, k) ==> exists|j: int|
        0 <= j < s0.len() && (#[trigger] s0[j]).0 == k && s1 == s0.update(j, (k, v))
}

/// Generic keyed entity store with entries in ascending key order.
pub struct Table<T> {
    entries: Vec<(u64, T)>,
}

impl<T> View for Table<T> {
    type V = Seq<(u64, T)>;

    closed spec fn view(&self) -> Seq<(u64, T)> {
        self.entries@
    }
}

impl<T: Record> Table<T> {
    /// The store's invariant: strictly ascending keys.
    pub open spec fn wf(&self) -> bool {
        sorted_keys(self@)
    }

    /// Fresh empty store.
    pub fn new() -> (t: Self)
        ensures
            t@ == Seq::<(u64, T)>::empty(),
            t.wf(),
    {
        Table { entries: Vec::new() }
    }

    /// Number of stored records.
    pub fn len(&self) -> (n: usize)
        ensures
            n == self@.len(),
    {
        self.entries.len()
    }

    /// The entry at iteration position `i`; positions ascend by key.
    pub fn entry_at(&self, i: usize) -> (e: &(u64, T))
        requires
            i < self@.len(),
        ensures
            *e == self@[i as int],
    {
        &self.entries[i]
    }

    /// Looks a record up by key, by binary search over the ascending
    /// entry list.
    pub fn get(&self, k: u64) -> (r: Option<&T>)
        requires
            self.wf(),
        ensures
            match r {
                Some(v) => lookup(self@, k) == Some(*v),
                None => lookup(self@, k) is None,
            },
            (r is Some) == has_key(self@, k),
    {
        let n = self.entries.len();
        let mut lo: usize = 0;
        let mut hi: usize = n;
        while lo < hi
            invariant
                self.wf(),
                n == self@.len(),
                0 <= lo <= hi <= n,
                forall|j: int| 0 <= j < lo ==> (#[trigger] self@[j]).0 < k,
                forall|j: int| hi <= j < n ==> (#[trigger] self@[j]).0 > k,
            decreases hi - lo,
        {
            let mid = lo + (hi - lo) / 2;
            let key = self.entries[mid].0;
            if key == k {
                proof {
                    lemma_lookup_from_entry(self@, k, mid as int);
                }
                return Some(&self.entries[mid].1);
            } else if key < k {
                proof {
                    assert forall|j: int| 0 <= j < mid + 1 implies (#[trigger] self@[j]).0
                        < k by {
                        if j < mid {
                            assert(self@[j].0 < self@[mid as int].0);
                        }
                    }
                }
                lo = mid + 1;
            } else {
                proof {
                    assert forall|j: int| mid <= j < n implies (#[trigger] self@[j]).0 > k by {
                        if j > mid {
                            assert(self@[mid as int].0 < self@[j].0);
                        }
                    }
                }
                hi = mid;
            }
        }
        proof {
            lemma_lookup_absent(self@, k);
        }
        None
    }

    /// Referential-integrity test: does a record exist under `k`?
    pub fn contains(&self, k: u64) -> (b: bool)
        requires
            self.wf(),
        ensures
            b == has_key(self@, k),
    {
        match self.get(k) {
            Some(_) => true,
            None => false,
        }
    }

    /// Adds or replaces the record under `k`, keeping ascending key order,
    /// unless its encoded footprint is over the store ceiling, in which
    /// case nothing changes and `SizeExceeded` comes back.
    pub fn insert(&mut self, k: u64, v: T) -> (r: Result<(), Message>)
        requires
            old(self).wf(),
        ensures
            final(self).wf(),
            !fits(&v) ==> r == Err::<(), Message>(Message::SizeExceeded) && final(self)@ == old(
                self,
            )@,
            fits(&v) ==> r == Ok::<(), Message>(()),
            fits(&v) ==> table_upserted(old(self)@, final(self)@, k, v),
    {
        if !check_fits(&v) {
            return Err(Message::SizeExceeded);
        }
        let n = self.entries.len();
        let mut pos: usize = 0;
        while pos < n && self.entries[pos].0 < k
            invariant
                n == self@.len(),
                0 <= pos <= n,
                forall|j: int| 0 <= j < pos ==> (#[trigger] self@[j]).0 < k,
            decreases n - pos,
        {
            pos = pos + 1;
        }
        if pos < n && self.entries[pos].0 == k {
            proof {
                lemma_update_at(self@, pos as int, k, v);
            }
            self.entries[pos] = (k, v);
            Ok(())
        } else {
            proof {
                assert forall|j: int| pos <= j < self@.len() implies (#[trigger] self@[j]).0
                    > k by {
                    if j > pos {
                        assert(self@[pos as int].0 < self@[j].0);
                    }
                }
                lemma_insert_at(self@, pos as int, k, v);
            }
            self.entries.insert(pos, (k, v));
            Ok(())
        }
    }
}

} // verus!
