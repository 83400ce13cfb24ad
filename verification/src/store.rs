//! The ordinal-versioned key-value store shared by the pipeline stages.
//!
//! The store records every write as a `(key, ordinal, value)` entry in write
//! order; it is a pure value, so state can be re-derived deterministically by
//! replaying the event sequence. Two write disciplines are offered:
//! write-once (`set_if_absent`, first writer wins) and last-write-wins
//! (`set`). `get_last` reads the most recent value; `get_at` reads the value
//! visible at a given ordinal position.

use vstd::prelude::*;

use crate::util::str_eq;

verus! {

/// One recorded write, as the store's history models it.
pub ghost struct StoreEntry<V> {
    pub ordinal: u64,
    pub key: Seq<char>,
    pub value: V,
}

/// Whether some write under `k` exists anywhere in the history.
pub open spec fn contains_key<V>(s: Seq<StoreEntry<V>>, k: Seq<char>) -> bool {
    exists|i: int| 0 <= i < s.len() && s[i].key == k
}

/// Number of writes under `k` in the history.
pub open spec fn count_key<V>(s: Seq<StoreEntry<V>>, k: Seq<char>) -> nat
    decreases s.len(),
{
    if s.len() == 0 {
        0
    } else {
        count_key(s.drop_last(), k) + if s.last().key == k {
            1nat
        } else {
            0nat
        }
    }
}

/// The history after an unconditional write.
pub open spec fn spec_set<V>(
    s: Seq<StoreEntry<V>>,
    ordinal: u64,
    key: Seq<char>,
    value: V,
) -> Seq<StoreEntry<V>> {
    s.push(StoreEntry { ordinal, key, value })
}

/// The history after a write-once write: a no-op if the key was ever
/// written before.
pub open spec fn spec_set_if_absent<V>(
    s: Seq<StoreEntry<V>>,
    ordinal: u64,
    key: Seq<char>,
    value: V,
) -> Seq<StoreEntry<V>> {
    if contains_key(s, key) {
        s
    } else {
        s.push(StoreEntry { ordinal, key, value })
    }
}

/// The most recently written value under `k`, if any.
pub open spec fn spec_get_last<V>(s: Seq<StoreEntry<V>>, k: Seq<char>) -> Option<V>
    decreases s.len(),
{
    if s.len() == 0 {
        None
    } else if s.last().key == k {
        Some(s.last().value)
    } else {
        spec_get_last(s.drop_last(), k)
    }
}

/// The value under `k` visible at position `pos`: of the writes with
/// ordinal at most `pos`, the one applied last.
pub open spec fn spec_get_at<V>(s: Seq<StoreEntry<V>>, k: Seq<char>, pos: u64) -> Option<V>
    decreases s.len(),
{
    if s.len() == 0 {
        None
    } else if s.last().key == k && s.last().ordinal <= pos {
        Some(s.last().value)
    } else {
        spec_get_at(s.drop_last(), k, pos)
    }
}

struct StoreWrite<V> {
    ordinal: u64,
    key: String,
    value: V,
}

/// The ordinal-versioned key-value store.
pub struct Store<V> {
    writes: Vec<StoreWrite<V>>,
}

impl<V> View for Store<V> {
    type V = Seq<StoreEntry<V>>;

    closed spec fn view(&self) -> Seq<StoreEntry<V>> {
        self.writes@.map_values(
            |w: StoreWrite<V>| StoreEntry { ordinal: w.ordinal, key: w.key@, value: w.value },
        )
    }
}

impl<V> Store<V> {
    pub fn new() -> (r: Store<V>)
        ensures
            r@ == Seq::<StoreEntry<V>>::empty(),
    {
        let r = Store { writes: Vec::new() };
        proof {
            assert(r@ =~= Seq::<StoreEntry<V>>::empty());
        }
        r
    }

    /// Unconditionally records `value` at `key` for `ordinal`
    /// (last-write-wins discipline).
    pub fn set(&mut self, ordinal: u64, key: String, value: V)
        ensures
            final(self)@ == spec_set(old(self)@, ordinal, key@, value),
    {
        self.writes.push(StoreWrite { ordinal, key, value });
        proof {
            assert(self@ =~= spec_set(old(self)@, ordinal, key@, value));
        }
    }

    /// Whether some write under `key` exists.
    pub fn has_key(&self, key: &str) -> (r: bool)
        ensures
            r == contains_key(self@, key@),
    {
        let n = self.writes.len();
        let mut i: usize = 0;
        while i < n
            invariant
                n == self@.len(),
                0 <= i <= n,
                forall|j: int| 0 <= j < i ==> self@[j].key != key@,
            decreases n - i,
        {
            if str_eq(self.writes[i].key.as_str(), key) {
                proof {
                    assert(self@[i as int].key == key@);
                }
                return true;
            }
            i = i + 1;
        }
        false
    }

    /// Records `value` at `key` only if no prior write to `key` exists
    /// (write-once discipline); otherwise a no-op.
    pub fn set_if_absent(&mut self, ordinal: u64, key: String, value: V)
        ensures
            final(self)@ == spec_set_if_absent(old(self)@, ordinal, key@, value),
    {
        if !self.has_key(key.as_str()) {
            self.writes.push(StoreWrite { ordinal, key, value });
            proof {
                assert(self@ =~= spec_set_if_absent(old(self)@, ordinal, key@, value));
            }
        }
    }

    /// The most recently written value under `key`, if any.
    pub fn get_last(&self, key: &str) -> (r: Option<&V>)
        ensures
            match r {
                Some(v) => spec_get_last(self@, key@) == Some(*v),
                None => spec_get_last(self@, key@) is None,
            },
    {
        let n = self.writes.len();
        proof {
            assert(self@.take(n as int) =~= self@);
        }
        let mut i: usize = n;
        while i > 0
            invariant
                n == self@.len(),
                0 <= i <= n,
                spec_get_last(self@, key@) == spec_get_last(self@.take(i as int), key@),
            decreases i,
        {
            i = i - 1;
            proof {
                assert(self@.take(i as int + 1).last() == self@[i as int]);
                assert(self@.take(i as int + 1).drop_last() =~= self@.take(i as int));
            }
            if str_eq(self.writes[i].key.as_str(), key) {
                proof {
                    assert(self@[i as int].key == key@);
                    assert(self@[i as int].value == self.writes@[i as int].value);
                }
                return Some(&self.writes[i].value);
            }
        }
        proof {
            assert(self@.take(0) =~= Seq::<StoreEntry<V>>::empty());
        }
        None
    }

    /// The value under `key` visible at position `pos`: of the writes with
    /// ordinal at most `pos`, the one applied last.
    pub fn get_at(&self, key: &str, pos: u64) -> (r: Option<&V>)
        ensures
            match r {
                Some(v) => spec_get_at(self@, key@, pos) == Some(*v),
                None => spec_get_at(self@, key@, pos) is None,
            },
    {
        let n = self.writes.len();
        proof {
            assert(self@.take(n as int) =~= self@);
        }
        let mut i: usize = n;
        while i > 0
            invariant
                n == self@.len(),
                0 <= i <= n,
                spec_get_at(self@, key@, pos) == spec_get_at(self@.take(i as int), key@, pos),
            decreases i,
        {
            i = i - 1;
            proof {
                assert(self@.take(i as int + 1).last() == self@[i as int]);
                assert(self@.take(i as int + 1).drop_last() =~= self@.take(i as int));
            }
            if self.writes[i].ordinal <= pos && str_eq(self.writes[i].key.as_str(), key) {
                proof {
                    assert(self@[i as int].key == key@ && self@[i as int].ordinal <= pos);
                    assert(self@[i as int].value == self.writes@[i as int].value);
                }
                return Some(&self.writes[i].value);
            }
        }
        proof {
            assert(self@.take(0) =~= Seq::<StoreEntry<V>>::empty());
        }
        None
    }
}

/// A value read out of the history is some recorded write's value.
pub proof fn lemma_get_last_in_store<V>(s: Seq<StoreEntry<V>>, k: Seq<char>)
    ensures
        spec_get_last(s, k) is Some ==> exists|i: int|
            0 <= i < s.len() && s[i].key == k && s[i].value == spec_get_last(s, k)->Some_0,
    decreases s.len(),
{
    if s.len() == 0 {
    } else if s.last().key == k {
        assert(s[s.len() - 1].key == k && s[s.len() - 1].value == spec_get_last(s, k)->Some_0);
    } else {
        lemma_get_last_in_store(s.drop_last(), k);
        if spec_get_last(s, k) is Some {
            let i = choose|i: int|
                0 <= i < s.drop_last().len() && s.drop_last()[i].key == k && s.drop_last()[i].value
                    == spec_get_last(s.drop_last(), k)->Some_0;
            assert(s[i].key == k && s[i].value == spec_get_last(s, k)->Some_0);
        }
    }
}

/// No write under `k` means a zero count.
pub proof fn lemma_absent_count_zero<V>(s: Seq<StoreEntry<V>>, k: Seq<char>)
    requires
        !contains_key(s, k),
    ensures
        count_key(s, k) == 0,
    decreases s.len(),
{
    if s.len() == 0 {
    } else {
        assert(!contains_key(s.drop_last(), k)) by {
            if contains_key(s.drop_last(), k) {
                let i = choose|i: int| 0 <= i < s.drop_last().len() && s.drop_last()[i].key == k;
                assert(s[i].key == k);
            }
        }
        assert(s.last().key != k) by {
            if s.last().key == k {
                assert(s[s.len() - 1].key == k);
            }
        }
        lemma_absent_count_zero(s.drop_last(), k);
    }
}

/// Write-once registration is idempotent: starting from a history with no
/// write under the key, applying the same pair-creation write twice leaves
/// exactly one record under the key, holding the first value.
pub proof fn lemma_set_if_absent_idempotent<V>(
    s: Seq<StoreEntry<V>>,
    o1: u64,
    o2: u64,
    k: Seq<char>,
    v1: V,
    v2: V,
)
    requires
        !contains_key(s, k),
    ensures
        spec_set_if_absent(spec_set_if_absent(s, o1, k, v1), o2, k, v2) == spec_set_if_absent(
            s,
            o1,
            k,
            v1,
        ),
        count_key(spec_set_if_absent(spec_set_if_absent(s, o1, k, v1), o2, k, v2), k) == 1,
        spec_get_last(spec_set_if_absent(spec_set_if_absent(s, o1, k, v1), o2, k, v2), k) == Some(
            v1,
        ),
{
    let s1 = spec_set_if_absent(s, o1, k, v1);
    assert(s1 == s.push(StoreEntry { ordinal: o1, key: k, value: v1 }));
    assert(s1[s1.len() - 1].key == k);
    assert(contains_key(s1, k));
    assert(spec_set_if_absent(s1, o2, k, v2) == s1);
    lemma_absent_count_zero(s, k);
    assert(s1.drop_last() =~= s);
    assert(count_key(s1, k) == 1);
    assert(s1.last().key == k);
}

/// Last-write-wins reads are ordinal-monotone: under a per-key discipline of
/// strictly increasing ordinals, a read at position `pos` returns the value
/// written at the greatest ordinal at most `pos`, never a later one.
pub proof fn lemma_get_at_greatest<V>(s: Seq<StoreEntry<V>>, k: Seq<char>, pos: u64)
    requires
        forall|i: int, j: int|
            0 <= i < j < s.len() && s[i].key == k && s[j].key == k ==> s[i].ordinal < s[j].ordinal,
    ensures
        spec_get_at(s, k, pos) is Some <==> exists|i: int|
            0 <= i < s.len() && s[i].key == k && s[i].ordinal <= pos,
        spec_get_at(s, k, pos) is Some ==> exists|i: int|
            {
                &&& 0 <= i < s.len()
                &&& s[i].key == k
                &&& s[i].ordinal <= pos
                &&& spec_get_at(s, k, pos) == Some(s[i].value)
                &&& forall|j: int|
                    0 <= j < s.len() && s[j].key == k && s[j].ordinal <= pos ==> s[j].ordinal
                        <= s[i].ordinal
            },
    decreases s.len(),
{
    if s.len() == 0 {
    } else {
        let prefix = s.drop_last();
        let last = s.len() - 1;
        if s.last().key == k && s.last().ordinal <= pos {
            assert(spec_get_at(s, k, pos) == Some(s[last].value));
            assert forall|j: int|
                0 <= j < s.len() && s[j].key == k && s[j].ordinal <= pos implies s[j].ordinal
                <= s[last].ordinal by {
                if j < last {
                    assert(s[j].ordinal < s[last].ordinal);
                }
            }
            assert(s[last].key == k && s[last].ordinal <= pos);
        } else {
            lemma_get_at_greatest(prefix, k, pos);
            assert(spec_get_at(s, k, pos) == spec_get_at(prefix, k, pos));
            if spec_get_at(s, k, pos) is Some {
                let i = choose|i: int|
                    {
                        &&& 0 <= i < prefix.len()
                        &&& prefix[i].key == k
                        &&& prefix[i].ordinal <= pos
                        &&& spec_get_at(prefix, k, pos) == Some(prefix[i].value)
                        &&& forall|j: int|
                            0 <= j < prefix.len() && prefix[j].key == k && prefix[j].ordinal <= pos
                                ==> prefix[j].ordinal <= prefix[i].ordinal
                    };
                assert(s[i].key == k && s[i].ordinal <= pos && spec_get_at(s, k, pos) == Some(
                    s[i].value,
                ));
                assert forall|j: int|
                    0 <= j < s.len() && s[j].key == k && s[j].ordinal <= pos implies s[j].ordinal
                    <= s[i].ordinal by {
                    if j < last {
                        assert(prefix[j].key == k && prefix[j].ordinal <= pos);
                    }
                }
            }
            if exists|i: int| 0 <= i < s.len() && s[i].key == k && s[i].ordinal <= pos {
                let i = choose|i: int| 0 <= i < s.len() && s[i].key == k && s[i].ordinal <= pos;
                if i < last {
                    assert(prefix[i].key == k && prefix[i].ordinal <= pos);
                }
            }
        }
    }
}

} // verus!
