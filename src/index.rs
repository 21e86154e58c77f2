use vstd::prelude::*;

use crate::table::KeyedTable;
use crate::text::ids_of;

verus! {

/// The mathematical state of the interval index: each member's start score and end score.
pub struct IndexModel {
    pub starts: Map<Seq<char>, i64>,
    pub ends: Map<Seq<char>, i64>,
}

/// The index after `id` was recorded with scores `start` and `end`.
pub open spec fn recorded(m: IndexModel, id: Seq<char>, start: i64, end: i64) -> IndexModel {
    IndexModel { starts: m.starts.insert(id, start), ends: m.ends.insert(id, end) }
}

/// `id` starts at or after `from` and ends at or before `to` (the containment policy).
pub open spec fn contained_in(m: IndexModel, id: Seq<char>, from: i64, to: i64) -> bool {
    &&& m.starts.contains_key(id)
    &&& m.starts[id] >= from
    &&& m.ends.contains_key(id)
    &&& m.ends[id] <= to
}

/// Recording the same member with the same scores twice leaves the index as one recording does.
pub proof fn lemma_record_idempotent(m: IndexModel, id: Seq<char>, start: i64, end: i64)
    ensures
        recorded(recorded(m, id, start, end), id, start, end) == recorded(m, id, start, end),
{
    assert(recorded(recorded(m, id, start, end), id, start, end).starts =~= recorded(
        m,
        id,
        start,
        end,
    ).starts);
    assert(recorded(recorded(m, id, start, end), id, start, end).ends =~= recorded(
        m,
        id,
        start,
        end,
    ).ends);
}

/// Whether `v` holds an identifier equal to `x`.
pub fn contains_id(v: &Vec<String>, x: &String) -> (r: bool)
    ensures
        r == ids_of(v@).contains(x@),
{
    let mut i: usize = 0;
    while i < v.len()
        invariant
            i <= v@.len(),
            forall|j: int| 0 <= j < i ==> #[trigger] v@[j]@ != x@,
        decreases v@.len() - i,
    {
        if v[i] == *x {
            assert(ids_of(v@)[i as int] == x@);
            return true;
        }
        i = i + 1;
    }
    proof {
        if ids_of(v@).contains(x@) {
            let j = choose|j: int| 0 <= j < ids_of(v@).len() && ids_of(v@)[j] == x@;
            assert(v@[j]@ == x@);
        }
    }
    false
}

/// The identifiers present in both `a` and `b`, each once, in the order of `a`.
/// The two lists are the results of the two independent score-range scans.
pub fn intersect_ids(a: &Vec<String>, b: &Vec<String>) -> (r: Vec<String>)
    ensures
        ids_of(r@).no_duplicates(),
        forall|k: Seq<char>|
            #[trigger] ids_of(r@).contains(k) <==> ids_of(a@).contains(k) && ids_of(b@).contains(
                k,
            ),
{
    let mut r: Vec<String> = Vec::new();
    let mut i: usize = 0;
    while i < a.len()
        invariant
            i <= a@.len(),
            ids_of(r@).no_duplicates(),
            forall|k: Seq<char>|
                #[trigger] ids_of(r@).contains(k) <==> (exists|j: int| 0 <= j < i && #[trigger] a@[j]@ == k)
                    && ids_of(b@).contains(k),
        decreases a@.len() - i,
    {
        let x = &a[i];
        let ghost before = r@;
        if contains_id(b, x) && !contains_id(&r, x) {
            r.push(x.clone());
            assert(ids_of(r@) == ids_of(before).push(x@));
        }
        assert forall|k: Seq<char>|
            #[trigger] ids_of(r@).contains(k) <==> (exists|j: int| 0 <= j < i + 1 && #[trigger] a@[j]@ == k)
                && ids_of(b@).contains(k) by {
            if ids_of(r@).contains(k) && k != x@ {
                let j = choose|j: int| 0 <= j < ids_of(r@).len() && ids_of(r@)[j] == k;
                if j < before.len() {
                    assert(ids_of(before)[j] == k);
                    assert(ids_of(before).contains(k));
                    let l = choose|l: int| 0 <= l < i && #[trigger] a@[l]@ == k;
                    assert(0 <= l < i + 1 && a@[l]@ == k);
                } else {
                    assert(ids_of(r@)[j] == x@);
                }
            }
            if ids_of(r@).contains(k) && k == x@ {
                assert(a@[i as int]@ == k);
                if !ids_of(before).contains(k) {
                    assert(ids_of(b@).contains(k));
                } else {
                    assert(ids_of(b@).contains(k));
                }
            }
            if k != x@ && (exists|j: int| 0 <= j < i + 1 && #[trigger] a@[j]@ == k) {
                let j = choose|j: int| 0 <= j < i + 1 && #[trigger] a@[j]@ == k;
                assert(j < i);
                if ids_of(b@).contains(k) {
                    assert(ids_of(before).contains(k));
                    let l = choose|l: int| 0 <= l < ids_of(before).len() && ids_of(before)[l] == k;
                    assert(ids_of(r@)[l] == k);
                }
            }
            if k == x@ {
                assert(a@[i as int]@ == k);
                if ids_of(b@).contains(k) && ids_of(before).contains(k) {
                    let l = choose|l: int| 0 <= l < ids_of(before).len() && ids_of(before)[l] == k;
                    assert(ids_of(r@)[l] == k);
                }
                if ids_of(b@).contains(k) && !ids_of(before).contains(k) {
                    assert(ids_of(r@)[before.len() as int] == k);
                }
            }
        }
        i = i + 1;
    }
    assert forall|k: Seq<char>| (exists|j: int| 0 <= j < a@.len() && #[trigger] a@[j]@ == k) <==> ids_of(a@).contains(k) by {
        if ids_of(a@).contains(k) {
            let j = choose|j: int| 0 <= j < ids_of(a@).len() && ids_of(a@)[j] == k;
            assert(a@[j]@ == k);
        }
        if exists|j: int| 0 <= j < a@.len() && #[trigger] a@[j]@ == k {
            let j = choose|j: int| 0 <= j < a@.len() && #[trigger] a@[j]@ == k;
            assert(ids_of(a@)[j] == k);
        }
    }
    r
}

/// The members of `set` whose score lies in `[min, max]`, each once.
pub fn members_in_range(set: &KeyedTable<i64>, min: i64, max: i64) -> (r: Vec<String>)
    requires
        set.wf(),
    ensures
        ids_of(r@).no_duplicates(),
        forall|k: Seq<char>|
            #[trigger] ids_of(r@).contains(k) <==> set@.contains_key(k) && min <= set@[k] <= max,
{
    let mut r: Vec<String> = Vec::new();
    let mut i: usize = 0;
    while i < set.entries.len()
        invariant
            set.wf(),
            i <= set.entries@.len(),
            ids_of(r@).no_duplicates(),
            forall|k: Seq<char>|
                #[trigger] ids_of(r@).contains(k) <==> exists|l: int|
                    0 <= l < i && #[trigger] set.entries@[l].0@ == k && min <= set.entries@[l].1
                        <= max,
        decreases set.entries@.len() - i,
    {
        let score = set.entries[i].1;
        let ghost before = r@;
        let ghost key = set.entries@[i as int].0@;
        if min <= score && score <= max {
            r.push(set.entries[i].0.clone());
            proof {
                assert(ids_of(r@) == ids_of(before).push(key));
                if ids_of(before).contains(key) {
                    let l = choose|l: int|
                        0 <= l < i && #[trigger] set.entries@[l].0@ == key && min
                            <= set.entries@[l].1 <= max;
                    assert(set.entries@[l].0@ != set.entries@[i as int].0@);
                }
            }
        }
        proof {
            assert forall|k: Seq<char>|
                #[trigger] ids_of(r@).contains(k) <==> exists|l: int|
                    0 <= l < i + 1 && #[trigger] set.entries@[l].0@ == k && min
                        <= set.entries@[l].1 <= max by {
                if ids_of(r@).contains(k) {
                    let j = choose|j: int| 0 <= j < ids_of(r@).len() && ids_of(r@)[j] == k;
                    if j < before.len() {
                        assert(ids_of(before)[j] == k);
                        assert(ids_of(before).contains(k));
                        let l = choose|l: int|
                            0 <= l < i && #[trigger] set.entries@[l].0@ == k && min
                                <= set.entries@[l].1 <= max;
                        assert(0 <= l < i + 1 && set.entries@[l].0@ == k);
                    } else {
                        assert(set.entries@[i as int].0@ == k);
                        assert(min <= set.entries@[i as int].1 <= max);
                    }
                }
                if exists|l: int|
                    0 <= l < i + 1 && #[trigger] set.entries@[l].0@ == k && min
                        <= set.entries@[l].1 <= max {
                    let l = choose|l: int|
                        0 <= l < i + 1 && #[trigger] set.entries@[l].0@ == k && min
                            <= set.entries@[l].1 <= max;
                    if l < i {
                        assert(ids_of(before).contains(k));
                        let j = choose|j: int| 0 <= j < ids_of(before).len() && ids_of(before)[j] == k;
                        assert(ids_of(r@)[j] == k);
                    } else {
                        assert(ids_of(r@)[before.len() as int] == k);
                    }
                }
            }
        }
        i = i + 1;
    }
    proof {
        assert forall|k: Seq<char>|
            #[trigger] ids_of(r@).contains(k) <==> set@.contains_key(k) && min <= set@[k]
                <= max by {
            if ids_of(r@).contains(k) {
                let l = choose|l: int|
                    0 <= l < i && #[trigger] set.entries@[l].0@ == k && min <= set.entries@[l].1
                        <= max;
                crate::table::lemma_table_map_at(set.entries@, l);
            }
            if set@.contains_key(k) && min <= set@[k] <= max {
                let l = choose|l: int|
                    0 <= l < set.entries@.len() && #[trigger] set.entries@[l].0@ == k;
                crate::table::lemma_table_map_at(set.entries@, l);
            }
        }
    }
    r
}

/// Two sorted sets: each member's start score and its end score, in epoch seconds.
pub struct IntervalIndex {
    pub by_start: KeyedTable<i64>,
    pub by_end: KeyedTable<i64>,
}

impl View for IntervalIndex {
    type V = IndexModel;

    open spec fn view(&self) -> IndexModel {
        IndexModel { starts: self.by_start@, ends: self.by_end@ }
    }
}

impl IntervalIndex {
    pub open spec fn wf(&self) -> bool {
        self.by_start.wf() && self.by_end.wf()
    }

    pub fn new() -> (r: Self)
        ensures
            r.wf(),
            r@.starts == Map::<Seq<char>, i64>::empty(),
            r@.ends == Map::<Seq<char>, i64>::empty(),
    {
        IntervalIndex { by_start: KeyedTable::new(), by_end: KeyedTable::new() }
    }

    /// Adds `composite_id` to both sets, with score `start_epoch` and `end_epoch`.
    /// A member that is already present gets the new scores.
    pub fn record(&mut self, composite_id: &String, start_epoch: i64, end_epoch: i64)
        requires
            old(self).wf(),
        ensures
            final(self).wf(),
            final(self)@ == recorded(old(self)@, composite_id@, start_epoch, end_epoch),
    {
        self.by_start.set(composite_id.clone(), start_epoch);
        self.by_end.set(composite_id.clone(), end_epoch);
    }

    /// The members whose start is at or after `from_epoch` and whose end is at or before
    /// `to_epoch`, each once: the intersection of two score-range scans.
    pub fn query_overlap(&self, from_epoch: i64, to_epoch: i64) -> (r: Vec<String>)
        requires
            self.wf(),
        ensures
            ids_of(r@).no_duplicates(),
            forall|k: Seq<char>|
                #[trigger] ids_of(r@).contains(k) <==> contained_in(self@, k, from_epoch, to_epoch),
    {
        let starting = members_in_range(&self.by_start, from_epoch, i64::MAX);
        let ending = members_in_range(&self.by_end, i64::MIN, to_epoch);
        intersect_ids(&starting, &ending)
    }
}

} // verus!
