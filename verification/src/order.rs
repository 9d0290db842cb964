use vstd::prelude::*;
use crate::table::{lemma_replay_keys, replay, Entry, Key, Table};

verus! {

/// Whether `a` comes before `b` in the order of texts: the first character
/// in which they differ decides, by its code point, and a proper prefix
/// comes before what it is a prefix of.
pub open spec fn text_less(a: Seq<char>, b: Seq<char>) -> bool
    decreases a.len(),
{
    if b.len() == 0 {
        false
    } else if a.len() == 0 {
        true
    } else if a[0] != b[0] {
        (a[0] as int) < (b[0] as int)
    } else {
        text_less(a.drop_first(), b.drop_first())
    }
}

/// Compares two strings with `<` of the standard library. Trusted: strings
/// are ordered lexicographically by their bytes, which orders them by the
/// code points of their characters.
#[verifier::external_body]
fn precedes(a: &String, b: &String) -> (r: bool)
    ensures
        r == text_less(a@, b@),
{
    a < b
}

/// No text comes before itself.
pub proof fn lemma_text_irreflexive(a: Seq<char>)
    ensures
        !text_less(a, a),
    decreases a.len(),
{
    if a.len() > 0 {
        lemma_text_irreflexive(a.drop_first());
    }
}

/// Of two different texts one comes before the other.
pub proof fn lemma_text_total(a: Seq<char>, b: Seq<char>)
    ensures
        a == b || text_less(a, b) || text_less(b, a),
    decreases a.len(),
{
    if a.len() == 0 || b.len() == 0 {
        if a.len() == 0 && b.len() == 0 {
            assert(a =~= b);
        }
    } else if a[0] == b[0] {
        lemma_text_total(a.drop_first(), b.drop_first());
        if a.drop_first() == b.drop_first() {
            assert(a.len() == b.len()) by {
                assert(a.drop_first().len() == b.drop_first().len());
            }
            assert forall|i: int| 0 <= i < a.len() implies a[i] == b[i] by {
                if i > 0 {
                    assert(a[i] == a.drop_first()[i - 1]);
                    assert(b[i] == b.drop_first()[i - 1]);
                }
            }
            assert(a =~= b);
        }
    } else {
        assert((a[0] as int) != (b[0] as int));
    }
}

/// What comes before a text comes before all that the text comes before.
pub proof fn lemma_text_transitive(a: Seq<char>, b: Seq<char>, c: Seq<char>)
    requires
        text_less(a, b),
        text_less(b, c),
    ensures
        text_less(a, c),
    decreases a.len(),
{
    if a.len() > 0 && a[0] == b[0] && b[0] == c[0] {
        lemma_text_transitive(a.drop_first(), b.drop_first(), c.drop_first());
    }
}

/// Whether the write at position `o` of a journal is the last one to its key.
pub open spec fn last_write<V>(s: Seq<Entry<String, V>>, o: int) -> bool {
    0 <= o < s.len() && forall|j: int| o < j < s.len() ==> (#[trigger] s[j]).key@ != s[o].key@
}

/// The key of the write that stands at place `q` of a list of positions.
pub open spec fn key_at<V>(s: Seq<Entry<String, V>>, order: Seq<usize>, q: int) -> Seq<char> {
    s[order[q] as int].key@
}

/// Whether a list of positions names a write to `key`.
pub open spec fn lists_key<V>(s: Seq<Entry<String, V>>, order: Seq<usize>, key: Seq<char>) -> bool {
    exists|q: int| 0 <= q < order.len() && #[trigger] key_at(s, order, q) == key
}

/// Whether a list of positions names last writes only, in ascending order of their keys.
pub open spec fn ascending_writes<V>(s: Seq<Entry<String, V>>, order: Seq<usize>) -> bool {
    &&& forall|q: int| 0 <= q < order.len() ==> last_write(s, #[trigger] order[q] as int)
    &&& forall|p: int, q: int|
        0 <= p < q < order.len() ==> text_less(
            #[trigger] key_at(s, order, p),
            #[trigger] key_at(s, order, q),
        )
}

/// The last write to a key is what the table holds under it.
pub proof fn lemma_last_write<V>(s: Seq<Entry<String, V>>, o: int)
    requires
        last_write(s, o),
    ensures
        replay(s).contains_key(s[o].key@),
        replay(s)[s[o].key@] == s[o].value,
    decreases s.len(),
{
    if o < s.len() - 1 {
        let t = s.drop_last();
        assert forall|j: int| o < j < t.len() implies (#[trigger] t[j]).key@ != t[o].key@ by {
            assert(t[j] == s[j]);
        }
        lemma_last_write(t, o);
        assert(s[s.len() - 1].key@ != s[o].key@);
    }
}

impl<V> Table<String, V> {
    /// The positions of the entries that the table holds, one for each key,
    /// in ascending order of the keys.
    pub fn ascending(&self) -> (order: Vec<usize>)
        ensures
            ascending_writes(self.entries@, order@),
            forall|key: Seq<char>| #[trigger]
                self@.contains_key(key) ==> lists_key(self.entries@, order@, key),
            forall|q: int|
                0 <= q < order@.len() ==> self@.contains_key(
                    #[trigger] key_at(self.entries@, order@, q),
                ) && self@[key_at(self.entries@, order@, q)] == self.entries@[order@[q] as int].value,
    {
        let n = self.entries.len();
        let mut order: Vec<usize> = Vec::new();
        let mut i: usize = n;
        while i > 0
            invariant
                i <= n,
                n == self.entries@.len(),
                forall|q: int| 0 <= q < order@.len() ==> i <= #[trigger] order@[q] < n,
                ascending_writes(self.entries@, order@),
                forall|j: int|
                    i <= j < n ==> lists_key(
                        self.entries@,
                        order@,
                        (#[trigger] self.entries@[j]).key@,
                    ),
            decreases i,
        {
            i = i - 1;
            let key = &self.entries[i].key;
            let mut p: usize = 0;
            let mut stop = false;
            while p < order.len() && !stop
                invariant
                    p <= order@.len(),
                    n == self.entries@.len(),
                    key@ == self.entries@[i as int].key@,
                    forall|q: int| 0 <= q < order@.len() ==> #[trigger] order@[q] < n,
                    forall|q: int|
                        0 <= q < p ==> text_less(#[trigger] key_at(self.entries@, order@, q), key@),
                    stop ==> p < order@.len() && !text_less(
                        key_at(self.entries@, order@, p as int),
                        key@,
                    ),
                decreases order@.len() - p + (if stop { 0int } else { 1int }),
            {
                if precedes(&self.entries[order[p]].key, key) {
                    p = p + 1;
                } else {
                    stop = true;
                }
            }
            let seen = p < order.len() && self.entries[order[p]].key.same(key);
            let ghost s = self.entries@;
            let ghost before = order@;
            if seen {
                proof {
                    assert(key_at(s, before, p as int) == key@);
                }
            } else {
                order.insert(p, i);
                proof {
                    let after = order@;
                    assert forall|q: int| p <= q < before.len() implies text_less(
                        key@,
                        #[trigger] key_at(s, before, q),
                    ) by {
                        lemma_text_total(key_at(s, before, p as int), key@);
                        if q > p {
                            lemma_text_transitive(
                                key@,
                                key_at(s, before, p as int),
                                key_at(s, before, q),
                            );
                        }
                    }
                    assert forall|q: int| 0 <= q < before.len() implies #[trigger] key_at(
                        s,
                        before,
                        q,
                    ) != key@ by {
                        lemma_text_irreflexive(key@);
                    }
                    assert forall|q: int| 0 <= q < after.len() implies key_at(s, after, q) == (if q
                        < p {
                        key_at(s, before, q)
                    } else if q == p {
                        key@
                    } else {
                        key_at(s, before, q - 1)
                    }) by {}
                    assert forall|j: int| i < j < n implies (#[trigger] s[j]).key@ != s[i as int].key@ by {
                        let q = choose|q: int|
                            0 <= q < before.len() && #[trigger] key_at(s, before, q) == s[j].key@;
                        assert(key_at(s, before, q) != key@);
                    }
                    assert(last_write(s, i as int));
                    assert forall|q: int| 0 <= q < after.len() implies last_write(
                        s,
                        #[trigger] after[q] as int,
                    ) by {
                        if q < p {
                            assert(after[q] == before[q]);
                        } else if q > p {
                            assert(after[q] == before[q - 1]);
                        }
                    }
                    assert forall|a: int, b: int| 0 <= a < b < after.len() implies text_less(
                        #[trigger] key_at(s, after, a),
                        #[trigger] key_at(s, after, b),
                    ) by {
                        if b < p {
                            assert(text_less(key_at(s, before, a), key_at(s, before, b)));
                        } else if b == p {
                            assert(text_less(key_at(s, before, a), key@));
                        } else if a < p {
                            assert(text_less(key_at(s, before, a), key_at(s, before, b - 1)));
                        } else if a == p {
                            assert(text_less(key@, key_at(s, before, b - 1)));
                        } else {
                            assert(text_less(key_at(s, before, a - 1), key_at(s, before, b - 1)));
                        }
                    }
                    assert forall|j: int| i <= j < n implies lists_key(
                        s,
                        after,
                        (#[trigger] s[j]).key@,
                    ) by {
                        if j == i {
                            assert(key_at(s, after, p as int) == s[j].key@);
                        } else {
                            let q = choose|q: int|
                                0 <= q < before.len() && #[trigger] key_at(s, before, q)
                                    == s[j].key@;
                            if q < p {
                                assert(key_at(s, after, q) == s[j].key@);
                            } else {
                                assert(key_at(s, after, q + 1) == s[j].key@);
                            }
                        }
                    }
                    assert forall|q: int| 0 <= q < after.len() implies i <= #[trigger] after[q]
                        < n by {
                        if q < p {
                            assert(after[q] == before[q]);
                        } else if q > p {
                            assert(after[q] == before[q - 1]);
                        }
                    }
                }
            }
        }
        proof {
            let s = self.entries@;
            lemma_replay_keys(s);
            assert forall|key: Seq<char>| #[trigger] self@.contains_key(key) implies lists_key(
                s,
                order@,
                key,
            ) by {
                let j = choose|j: int| 0 <= j < s.len() && (#[trigger] s[j]).key@ == key;
                assert(lists_key(s, order@, s[j].key@));
            }
            assert forall|q: int| 0 <= q < order@.len() implies self@.contains_key(
                #[trigger] key_at(s, order@, q),
            ) && self@[key_at(s, order@, q)] == s[order@[q] as int].value by {
                lemma_last_write(s, order@[q] as int);
            }
        }
        order
    }
}

} // verus!
