use vstd::prelude::*;

verus! {

/// A table of values addressed by string keys, each key present at most once.
/// Writing an existing key replaces its value in place.
pub struct KeyedTable<V> {
    pub entries: Vec<(String, V)>,
}

/// No key occurs twice in `s`.
pub open spec fn keys_unique<V>(s: Seq<(String, V)>) -> bool {
    forall|i: int, j: int|
        0 <= i < s.len() && 0 <= j < s.len() && i != j ==> #[trigger] s[i].0@ != #[trigger] s[j].0@
}

/// Some entry of `s` has key `k`.
pub open spec fn has_key<V>(s: Seq<(String, V)>, k: Seq<char>) -> bool {
    exists|i: int| 0 <= i < s.len() && #[trigger] s[i].0@ == k
}

/// What the entries of `s` map each key to.
pub open spec fn table_map<V>(s: Seq<(String, V)>) -> Map<Seq<char>, V> {
    Map::new(
        |k: Seq<char>| has_key(s, k),
        |k: Seq<char>| s[choose|i: int| 0 <= i < s.len() && #[trigger] s[i].0@ == k].1,
    )
}

pub proof fn lemma_table_map_at<V>(s: Seq<(String, V)>, i: int)
    requires
        keys_unique(s),
        0 <= i < s.len(),
    ensures
        table_map(s).contains_key(s[i].0@),
        table_map(s)[s[i].0@] == s[i].1,
{
    let k = s[i].0@;
    assert(has_key(s, k));
    let j = choose|j: int| 0 <= j < s.len() && #[trigger] s[j].0@ == k;
    assert(s[j].0@ == s[i].0@);
}

impl<V> View for KeyedTable<V> {
    type V = Map<Seq<char>, V>;

    open spec fn view(&self) -> Map<Seq<char>, V> {
        table_map(self.entries@)
    }
}

impl<V> KeyedTable<V> {
    pub open spec fn wf(&self) -> bool {
        keys_unique(self.entries@)
    }

    pub fn new() -> (r: Self)
        ensures
            r.wf(),
            r@ == Map::<Seq<char>, V>::empty(),
    {
        let r = KeyedTable { entries: Vec::new() };
        assert(r@ =~= Map::<Seq<char>, V>::empty());
        r
    }

    pub fn len(&self) -> (n: usize)
        requires
            self.wf(),
        ensures
            n == self@.dom().len(),
    {
        proof {
            self.lemma_dom_len();
        }
        self.entries.len()
    }

    proof fn lemma_dom_len(&self)
        requires
            self.wf(),
        ensures
            self@.dom().len() == self.entries@.len(),
        decreases self.entries@.len(),
    {
        let s = self.entries@;
        let keys = s.map_values(|e: (String, V)| e.0@);
        assert(keys.no_duplicates()) by {
            assert forall|i: int, j: int| 0 <= i < keys.len() && 0 <= j < keys.len() && i != j
                implies keys[i] != keys[j] by {
                assert(s[i].0@ != s[j].0@);
            }
        }
        assert(self@.dom() =~= keys.to_set()) by {
            assert forall|k: Seq<char>| self@.dom().contains(k) implies keys.to_set().contains(k) by {
                let i = choose|i: int| 0 <= i < s.len() && #[trigger] s[i].0@ == k;
                assert(keys[i] == k);
            }
            assert forall|k: Seq<char>| keys.to_set().contains(k) implies self@.dom().contains(k) by {
                let i = choose|i: int| 0 <= i < keys.len() && keys[i] == k;
                assert(s[i].0@ == k);
            }
        }
        keys.unique_seq_to_set();
    }

    /// The position of key `k`, if it is present.
    pub fn position(&self, k: &String) -> (r: Option<usize>)
        requires
            self.wf(),
        ensures
            match r {
                Some(i) => i < self.entries@.len() && self.entries@[i as int].0@ == k@,
                None => !self@.contains_key(k@),
            },
    {
        let mut i: usize = 0;
        while i < self.entries.len()
            invariant
                i <= self.entries@.len(),
                forall|j: int| 0 <= j < i ==> #[trigger] self.entries@[j].0@ != k@,
            decreases self.entries@.len() - i,
        {
            if self.entries[i].0 == *k {
                return Some(i);
            }
            i = i + 1;
        }
        None
    }

    /// The value stored under `k`.
    pub fn get(&self, k: &String) -> (r: Option<&V>)
        requires
            self.wf(),
        ensures
            match r {
                Some(v) => self@.contains_key(k@) && *v == self@[k@],
                None => !self@.contains_key(k@),
            },
    {
        match self.position(k) {
            Some(i) => {
                proof {
                    lemma_table_map_at(self.entries@, i as int);
                }
                Some(&self.entries[i].1)
            },
            None => None,
        }
    }

    /// Stores `v` under `k`, replacing what `k` held.
    pub fn set(&mut self, k: String, v: V)
        requires
            old(self).wf(),
        ensures
            final(self).wf(),
            final(self)@ == old(self)@.insert(k@, v),
    {
        let ghost kv = k@;
        let ghost before = self.entries@;
        match self.position(&k) {
            Some(i) => {
                self.entries.set(i, (k, v));
                proof {
                    let after = self.entries@;
                    assert(after == before.update(i as int, after[i as int]));
                    assert(keys_unique(after)) by {
                        assert forall|a: int, b: int|
                            0 <= a < after.len() && 0 <= b < after.len() && a != b
                            implies #[trigger] after[a].0@ != #[trigger] after[b].0@ by {
                            assert(before[a].0@ != before[b].0@);
                        }
                    }
                    self.lemma_view_after_write(before, i as int);
                }
            },
            None => {
                self.entries.push((k, v));
                proof {
                    let after = self.entries@;
                    assert(keys_unique(after)) by {
                        assert forall|a: int, b: int|
                            0 <= a < after.len() && 0 <= b < after.len() && a != b
                            implies #[trigger] after[a].0@ != #[trigger] after[b].0@ by {
                            if a < before.len() && b < before.len() {
                                assert(before[a].0@ != before[b].0@);
                            } else if a < before.len() {
                                assert(before[a].0@ != kv) by {
                                    if before[a].0@ == kv {
                                        assert(has_key(before, kv));
                                    }
                                }
                            } else {
                                assert(before[b].0@ != kv) by {
                                    if before[b].0@ == kv {
                                        assert(has_key(before, kv));
                                    }
                                }
                            }
                        }
                    }
                    self.lemma_view_after_write(before, before.len() as int);
                }
            },
        }
    }

    /// After entry `i` of `before` was written (or appended, when `i` is its length),
    /// the view is the old one with that entry's key set.
    proof fn lemma_view_after_write(&self, before: Seq<(String, V)>, i: int)
        requires
            keys_unique(before),
            keys_unique(self.entries@),
            0 <= i <= before.len(),
            i < before.len() ==> before[i].0@ == self.entries@[i].0@,
            i == before.len() ==> !has_key(before, self.entries@[i].0@),
            self.entries@.len() == if i < before.len() { before.len() } else { before.len() + 1 },
            forall|j: int| 0 <= j < before.len() && j != i ==> self.entries@[j] == before[j],
        ensures
            self@ == table_map(before).insert(self.entries@[i].0@, self.entries@[i].1),
    {
        let after = self.entries@;
        let k = after[i].0@;
        let m = table_map(before).insert(k, after[i].1);
        assert forall|q: Seq<char>| #[trigger] self@.contains_key(q) <==> m.contains_key(q) by {
            if self@.contains_key(q) {
                let j = choose|j: int| 0 <= j < after.len() && #[trigger] after[j].0@ == q;
                if j != i {
                    assert(before[j].0@ == q);
                    assert(has_key(before, q));
                }
            }
            if m.contains_key(q) && q != k {
                let j = choose|j: int| 0 <= j < before.len() && #[trigger] before[j].0@ == q;
                assert(j != i);
                assert(after[j].0@ == q);
                assert(has_key(after, q));
            }
            if q == k {
                assert(has_key(after, q));
            }
        }
        assert forall|q: Seq<char>| #[trigger] self@.contains_key(q) implies self@[q] == m[q] by {
            let j = choose|j: int| 0 <= j < after.len() && #[trigger] after[j].0@ == q;
            lemma_table_map_at(after, j);
            if j != i {
                assert(before[j] == after[j]);
                lemma_table_map_at(before, j);
            }
        }
        assert(self@ =~= m);
    }
}

} // verus!
