use vstd::prelude::*;

verus! {

/// A key of a persistent table: a value whose view identifies it, with an
/// executable test for equal views.
pub trait Key: View + Sized {
    /// Whether the two keys name the same entry.
    fn same(&self, other: &Self) -> (r: bool)
        ensures
            r == (self@ == other@),
    ;
}

impl Key for u64 {
    fn same(&self, other: &Self) -> (r: bool) {
        *self == *other
    }
}

impl Key for String {
    fn same(&self, other: &Self) -> (r: bool) {
        *self == *other
    }
}

impl Key for (String, u64) {
    fn same(&self, other: &Self) -> (r: bool) {
        self.0 == other.0 && self.1 == other.1
    }
}

impl Key for (String, String) {
    fn same(&self, other: &Self) -> (r: bool) {
        self.0 == other.0 && self.1 == other.1
    }
}

/// One write to a table.
pub struct Entry<K, V> {
    pub key: K,
    pub value: V,
}

/// A keyed table kept as the journal of its writes: a later write to a key
/// supersedes every earlier one. Its view is the map from keys to the values
/// last written.
pub struct Table<K, V> {
    pub entries: Vec<Entry<K, V>>,
}

/// The map that a journal of writes amounts to.
pub open spec fn replay<K: Key, V>(s: Seq<Entry<K, V>>) -> Map<K::V, V>
    decreases s.len(),
{
    if s.len() == 0 {
        Map::empty()
    } else {
        replay(s.drop_last()).insert(s.last().key@, s.last().value)
    }
}

/// The keys of the map are the keys of the writes.
pub proof fn lemma_replay_keys<K: Key, V>(s: Seq<Entry<K, V>>)
    ensures
        forall|k: K::V|
            replay(s).contains_key(k) <==> exists|i: int|
                0 <= i < s.len() && (#[trigger] s[i]).key@ == k,
    decreases s.len(),
{
    if s.len() > 0 {
        let t = s.drop_last();
        lemma_replay_keys(t);
        assert(replay(s) == replay(t).insert(s.last().key@, s.last().value));
        assert forall|k: K::V|
            replay(s).contains_key(k) <==> exists|i: int|
                0 <= i < s.len() && (#[trigger] s[i]).key@ == k by {
            if replay(s).contains_key(k) {
                if s.last().key@ == k {
                    assert(s[s.len() - 1].key@ == k);
                } else {
                    assert(replay(t).contains_key(k));
                    let i = choose|i: int| 0 <= i < t.len() && (#[trigger] t[i]).key@ == k;
                    assert(s[i].key@ == k);
                }
            }
            if exists|i: int| 0 <= i < s.len() && (#[trigger] s[i]).key@ == k {
                let i = choose|i: int| 0 <= i < s.len() && (#[trigger] s[i]).key@ == k;
                if i < s.len() - 1 {
                    assert(t[i].key@ == k);
                    assert(replay(t).contains_key(k));
                }
            }
        }
    }
}

/// Taking one write to a key out of a journal changes nothing for the other keys.
pub proof fn lemma_remove_write<K: Key, V>(s: Seq<Entry<K, V>>, i: int)
    requires
        0 <= i < s.len(),
    ensures
        replay(s.remove(i)).remove(s[i].key@) == replay(s).remove(s[i].key@),
    decreases s.len(),
{
    let k = s[i].key@;
    let t = s.drop_last();
    assert(replay(s) == replay(t).insert(s.last().key@, s.last().value));
    if i == s.len() - 1 {
        assert(s.remove(i) =~= t);
        assert(replay(t).remove(k) =~= replay(s).remove(k));
    } else {
        let r = s.remove(i);
        assert(r.drop_last() =~= t.remove(i));
        assert(r.last() == s.last());
        assert(t[i] == s[i]);
        lemma_remove_write(t, i);
        assert(replay(r) == replay(t.remove(i)).insert(s.last().key@, s.last().value));
        let a = replay(t.remove(i));
        let b = replay(t);
        assert(a.remove(k) == b.remove(k));
        let lk = s.last().key@;
        let lv = s.last().value;
        let m = a.insert(lk, lv).remove(k);
        let n = b.insert(lk, lv).remove(k);
        assert forall|x: K::V| #![trigger m.dom().contains(x)] #![trigger n.dom().contains(x)]
            m.dom().contains(x) == n.dom().contains(x) by {
            if x != k && x != lk {
                assert(a.remove(k).dom().contains(x) == a.dom().contains(x));
                assert(b.remove(k).dom().contains(x) == b.dom().contains(x));
            }
        }
        assert forall|x: K::V| #[trigger] m.dom().contains(x) implies m[x] == n[x] by {
            if x != k && x != lk {
                assert(a.remove(k).dom().contains(x));
                assert(a.remove(k)[x] == a[x]);
                assert(b.remove(k)[x] == b[x]);
            }
        }
        assert(m =~= n);
    }
}

impl<K: Key, V> View for Table<K, V> {
    type V = Map<K::V, V>;

    open spec fn view(&self) -> Map<K::V, V> {
        replay(self.entries@)
    }
}

impl<K: Key, V> Table<K, V> {
    /// The table without entries.
    pub fn new() -> (t: Self)
        ensures
            t@ == Map::<K::V, V>::empty(),
    {
        Table { entries: Vec::new() }
    }

    /// The value last written under `key`, if any was.
    pub fn get(&self, key: &K) -> (r: Option<&V>)
        ensures
            self@.contains_key(key@) ==> r == Some(&self@[key@]),
            !self@.contains_key(key@) ==> r is None,
    {
        let mut i: usize = self.entries.len();
        assert(self.entries@.take(i as int) =~= self.entries@);
        while i > 0
            invariant
                i <= self.entries.len(),
                self@.contains_key(key@) == replay(self.entries@.take(i as int)).contains_key(
                    key@,
                ),
                self@.contains_key(key@) ==> self@[key@] == replay(
                    self.entries@.take(i as int),
                )[key@],
            decreases i,
        {
            proof {
                let s = self.entries@.take(i as int);
                assert(s.drop_last() =~= self.entries@.take(i - 1));
                assert(s.last() == self.entries@[i - 1]);
            }
            i = i - 1;
            if self.entries[i].key.same(key) {
                return Some(&self.entries[i].value);
            }
        }
        None
    }

    /// Whether anything was written under `key`.
    pub fn contains(&self, key: &K) -> (r: bool)
        ensures
            r == self@.contains_key(key@),
    {
        self.get(key).is_some()
    }

    /// The number of writes so far: a mark to which the table can be rewound.
    pub fn mark(&self) -> (n: usize)
        ensures
            n == self.entries@.len(),
    {
        self.entries.len()
    }

    /// Takes back every write after the first `n`.
    pub fn rewind(&mut self, n: usize)
        requires
            n <= old(self).entries@.len(),
        ensures
            final(self).entries@ == old(self).entries@.take(n as int),
    {
        self.entries.truncate(n);
        assert(self.entries@ =~= old(self).entries@.take(n as int));
    }

    /// Takes out what was written under `key`, if anything was.
    pub fn remove(&mut self, key: &K)
        ensures
            final(self)@ == old(self)@.remove(key@),
    {
        let mut i: usize = 0;
        while i < self.entries.len()
            invariant
                i <= self.entries@.len(),
                replay(self.entries@).remove(key@) == replay(old(self).entries@).remove(key@),
                forall|j: int| 0 <= j < i ==> (#[trigger] self.entries@[j]).key@ != key@,
            decreases self.entries@.len() - i,
        {
            if self.entries[i].key.same(key) {
                proof {
                    lemma_remove_write(self.entries@, i as int);
                }
                let _ = self.entries.remove(i);
            } else {
                i = i + 1;
            }
        }
        proof {
            lemma_replay_keys(self.entries@);
            assert(!replay(self.entries@).contains_key(key@));
            assert(replay(self.entries@).remove(key@) =~= replay(self.entries@));
        }
    }

    /// Writes `value` under `key`, superseding what was there.
    pub fn set(&mut self, key: K, value: V)
        ensures
            final(self)@ == old(self)@.insert(key@, value),
            final(self).entries@ == old(self).entries@.push((Entry { key, value })),
    {
        let ghost before = self.entries@;
        self.entries.push(Entry { key, value });
        proof {
            assert(self.entries@.drop_last() =~= before);
        }
    }
}

} // verus!
