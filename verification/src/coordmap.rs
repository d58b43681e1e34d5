//! A small verified map keyed by grid coordinates, backing the sparse grid
//! and the dirty-cell set.

use vstd::prelude::*;

verus! {

/// Mathematical contents of a sequence of coordinate-keyed entries, later
/// entries overwriting earlier ones with the same key.
pub open spec fn coord_entries_map<V>(s: Seq<((i32, i32), V)>) -> Map<(int, int), V>
    decreases s.len(),
{
    if s.len() == 0 {
        Map::empty()
    } else {
        coord_entries_map(s.drop_last()).insert(
            (s.last().0.0 as int, s.last().0.1 as int),
            s.last().1,
        )
    }
}

/// No two entries share a coordinate.
pub open spec fn coord_entries_unique<V>(s: Seq<((i32, i32), V)>) -> bool {
    forall|i: int, j: int| 0 <= i < j < s.len() ==> #[trigger] s[i].0 != #[trigger] s[j].0
}

proof fn lemma_coord_map_domain<V>(s: Seq<((i32, i32), V)>)
    ensures
        coord_entries_map(s).dom().finite(),
        forall|k: (int, int)|
            coord_entries_map(s).contains_key(k) <==> exists|i: int|
                0 <= i < s.len() && (#[trigger] s[i].0.0 as int, s[i].0.1 as int) == k,
    decreases s.len(),
{
    if s.len() == 0 {
    } else {
        lemma_coord_map_domain(s.drop_last());
        assert forall|k: (int, int)| coord_entries_map(s).contains_key(k) implies exists|i: int|
            0 <= i < s.len() && (#[trigger] s[i].0.0 as int, s[i].0.1 as int) == k by {
            let last = (s.last().0.0 as int, s.last().0.1 as int);
            if k == last {
                assert((s[s.len() - 1].0.0 as int, s[s.len() - 1].0.1 as int) == k);
            } else {
                let i = choose|i: int|
                    0 <= i < s.drop_last().len() && (
                    #[trigger] s.drop_last()[i].0.0 as int,
                    s.drop_last()[i].0.1 as int,
                    ) == k;
                assert((s[i].0.0 as int, s[i].0.1 as int) == k);
            }
        }
        assert forall|i: int| 0 <= i < s.len() implies coord_entries_map(s).contains_key(
            ((#[trigger] s[i].0.0) as int, s[i].0.1 as int),
        ) by {
            if i < s.len() - 1 {
                assert(s.drop_last()[i] == s[i]);
            }
        }
    }
}

proof fn lemma_coord_map_len<V>(s: Seq<((i32, i32), V)>)
    requires
        coord_entries_unique(s),
    ensures
        coord_entries_map(s).dom().len() == s.len(),
    decreases s.len(),
{
    lemma_coord_map_domain(s);
    if s.len() == 0 {
        assert(coord_entries_map(s).dom() =~= Set::empty());
    } else {
        let prefix = s.drop_last();
        assert(coord_entries_unique(prefix)) by {
            assert(forall|i: int| 0 <= i < prefix.len() ==> prefix[i] == s[i]);
        }
        lemma_coord_map_len(prefix);
        lemma_coord_map_domain(prefix);
        let last = (s.last().0.0 as int, s.last().0.1 as int);
        assert(!coord_entries_map(prefix).contains_key(last)) by {
            if coord_entries_map(prefix).contains_key(last) {
                let i = choose|i: int|
                    0 <= i < prefix.len() && (
                    #[trigger] prefix[i].0.0 as int,
                    prefix[i].0.1 as int,
                    ) == last;
                assert(s[i] == prefix[i]);
                assert(s[i].0 != s[s.len() - 1].0);
            }
        }
        assert(coord_entries_map(s).dom() =~= coord_entries_map(prefix).dom().insert(last));
    }
}

proof fn lemma_coord_map_at<V>(s: Seq<((i32, i32), V)>, i: int)
    requires
        coord_entries_unique(s),
        0 <= i < s.len(),
    ensures
        coord_entries_map(s).contains_key((s[i].0.0 as int, s[i].0.1 as int)),
        coord_entries_map(s)[(s[i].0.0 as int, s[i].0.1 as int)] == s[i].1,
    decreases s.len(),
{
    if i == s.len() - 1 {
    } else {
        let prefix = s.drop_last();
        assert(coord_entries_unique(prefix)) by {
            assert(forall|j: int| 0 <= j < prefix.len() ==> prefix[j] == s[j]);
        }
        lemma_coord_map_at(prefix, i);
        assert(prefix[i] == s[i]);
        assert(s[i].0 != s[s.len() - 1].0);
    }
}

proof fn lemma_coord_map_update<V>(s: Seq<((i32, i32), V)>, i: int, v: V)
    requires
        coord_entries_unique(s),
        0 <= i < s.len(),
    ensures
        coord_entries_unique(s.update(i, (s[i].0, v))),
        coord_entries_map(s.update(i, (s[i].0, v))) == coord_entries_map(s).insert(
            (s[i].0.0 as int, s[i].0.1 as int),
            v,
        ),
    decreases s.len(),
{
    let s2 = s.update(i, (s[i].0, v));
    assert(coord_entries_unique(s2)) by {
        assert(forall|j: int| 0 <= j < s.len() ==> (#[trigger] s2[j].0 == s[j].0));
    }
    if i == s.len() - 1 {
        assert(s2.drop_last() =~= s.drop_last());
    } else {
        let prefix = s.drop_last();
        assert(coord_entries_unique(prefix)) by {
            assert(forall|j: int| 0 <= j < prefix.len() ==> prefix[j] == s[j]);
        }
        lemma_coord_map_update(prefix, i, v);
        assert(s2.drop_last() =~= prefix.update(i, (prefix[i].0, v)));
        assert(s2.last() == s.last());
        let ki = (s[i].0.0 as int, s[i].0.1 as int);
        let kl = (s.last().0.0 as int, s.last().0.1 as int);
        assert(ki != kl) by {
            assert(s[i].0 != s[s.len() - 1].0);
        }
        assert(coord_entries_map(s2) =~= coord_entries_map(s).insert(ki, v));
    }
}

proof fn lemma_coord_map_remove<V>(s: Seq<((i32, i32), V)>, i: int)
    requires
        coord_entries_unique(s),
        0 <= i < s.len(),
    ensures
        coord_entries_unique(s.remove(i)),
        coord_entries_map(s.remove(i)) == coord_entries_map(s).remove(
            (s[i].0.0 as int, s[i].0.1 as int),
        ),
    decreases s.len(),
{
    lemma_coord_map_domain(s.drop_last());
    let ki = (s[i].0.0 as int, s[i].0.1 as int);
    assert(coord_entries_unique(s.remove(i))) by {
        assert(forall|j: int| 0 <= j < s.len() - 1 ==> #[trigger] s.remove(i)[j] == (if j < i {
            s[j]
        } else {
            s[j + 1]
        }));
    }
    if i == s.len() - 1 {
        assert(s.remove(i) =~= s.drop_last());
        assert(!coord_entries_map(s.drop_last()).contains_key(ki)) by {
            if coord_entries_map(s.drop_last()).contains_key(ki) {
                let j = choose|j: int|
                    0 <= j < s.drop_last().len() && (
                    #[trigger] s.drop_last()[j].0.0 as int,
                    s.drop_last()[j].0.1 as int,
                    ) == ki;
                assert(s[j] == s.drop_last()[j]);
                assert(s[j].0 != s[s.len() - 1].0);
                assert((s[j].0.0 as int, s[j].0.1 as int) == (
                    s[s.len() - 1].0.0 as int,
                    s[s.len() - 1].0.1 as int,
                ));
            }
        }
        assert(coord_entries_map(s.remove(i)) =~= coord_entries_map(s).remove(ki));
    } else {
        let prefix = s.drop_last();
        assert(coord_entries_unique(prefix)) by {
            assert(forall|j: int| 0 <= j < prefix.len() ==> prefix[j] == s[j]);
        }
        lemma_coord_map_remove(prefix, i);
        assert(s.remove(i).drop_last() =~= prefix.remove(i));
        assert(s.remove(i).last() == s.last());
        let kl = (s.last().0.0 as int, s.last().0.1 as int);
        assert(ki != kl) by {
            assert(s[i].0 != s[s.len() - 1].0);
        }
        assert(coord_entries_map(s.remove(i)) =~= coord_entries_map(s).remove(ki));
    }
}

/// A finite map from signed grid coordinates to values, stored sparsely.
pub struct CoordMap<V> {
    entries: Vec<((i32, i32), V)>,
}

impl<V: Copy> CoordMap<V> {
    /// Abstract contents: a finite map from coordinates to values.
    pub closed spec fn view(&self) -> Map<(int, int), V> {
        coord_entries_map(self.entries@)
    }

    /// Internal shape invariant, established by `new` and kept by every
    /// method.
    pub closed spec fn wf(&self) -> bool {
        coord_entries_unique(self.entries@)
    }

    /// The entries, in insertion order, as the iteration methods report
    /// them.
    pub closed spec fn entry_seq(&self) -> Seq<((i32, i32), V)> {
        self.entries@
    }

    pub proof fn lemma_finite(&self)
        ensures
            self@.dom().finite(),
    {
        lemma_coord_map_domain(self.entries@);
    }

    /// Each stored entry is in the map; the map holds nothing else.
    pub proof fn lemma_entry_seq(&self)
        requires
            self.wf(),
        ensures
            self.entry_seq().len() == self@.dom().len(),
            forall|i: int|
                0 <= i < self.entry_seq().len() ==> self@.contains_key(
                    ((#[trigger] self.entry_seq()[i]).0.0 as int, self.entry_seq()[i].0.1 as int),
                ) && self@[(self.entry_seq()[i].0.0 as int, self.entry_seq()[i].0.1 as int)]
                    == self.entry_seq()[i].1,
            forall|k: (int, int)| #[trigger]
                self@.contains_key(k) ==> exists|i: int|
                    0 <= i < self.entry_seq().len() && ((#[trigger] self.entry_seq()[i]).0.0 as int,
                    self.entry_seq()[i].0.1 as int) == k,
    {
        lemma_coord_map_len(self.entries@);
        lemma_coord_map_domain(self.entries@);
        assert forall|i: int| 0 <= i < self.entry_seq().len() implies self@.contains_key(
            ((#[trigger] self.entry_seq()[i]).0.0 as int, self.entry_seq()[i].0.1 as int),
        ) && self@[(self.entry_seq()[i].0.0 as int, self.entry_seq()[i].0.1 as int)]
            == self.entry_seq()[i].1 by {
            lemma_coord_map_at(self.entries@, i);
        }
        assert forall|k: (int, int)| #[trigger] self@.contains_key(k) implies exists|i: int|
            0 <= i < self.entry_seq().len() && ((#[trigger] self.entry_seq()[i]).0.0 as int,
            self.entry_seq()[i].0.1 as int) == k by {
            let i = choose|i: int|
                0 <= i < self.entries@.len() && (
                #[trigger] self.entries@[i].0.0 as int,
                self.entries@[i].0.1 as int,
                ) == k;
            assert(0 <= i < self.entry_seq().len() && (self.entry_seq()[i].0.0 as int,
            self.entry_seq()[i].0.1 as int) == k);
        }
    }

    pub fn new() -> (r: Self)
        ensures
            r@ == Map::<(int, int), V>::empty(),
            r.wf(),
            r.entry_seq() == Seq::<((i32, i32), V)>::empty(),
    {
        CoordMap { entries: Vec::new() }
    }

    pub fn clear(&mut self)
        ensures
            final(self)@ == Map::<(int, int), V>::empty(),
            final(self).wf(),
            final(self).entry_seq() == Seq::<((i32, i32), V)>::empty(),
    {
        self.entries.clear();
    }

    /// Number of coordinates that hold a value.
    pub fn len(&self) -> (r: usize)
        requires
            self.wf(),
        ensures
            r == self@.dom().len(),
            r == self.entry_seq().len(),
    {
        proof {
            lemma_coord_map_len(self.entries@);
        }
        self.entries.len()
    }

    /// The entry at position `i` of the iteration order.
    pub fn entry_at(&self, i: usize) -> (r: ((i32, i32), V))
        requires
            self.wf(),
            i < self.entry_seq().len(),
        ensures
            r == self.entry_seq()[i as int],
            self@.contains_key((r.0.0 as int, r.0.1 as int)),
            self@[(r.0.0 as int, r.0.1 as int)] == r.1,
    {
        proof {
            lemma_coord_map_at(self.entries@, i as int);
        }
        self.entries[i]
    }

    /// Adds or replaces the value at `(x, y)`.
    pub fn insert(&mut self, x: i32, y: i32, v: V)
        requires
            old(self).wf(),
        ensures
            final(self)@ == old(self)@.insert((x as int, y as int), v),
            final(self).wf(),
    {
        proof {
            lemma_coord_map_domain(self.entries@);
        }
        let n = self.entries.len();
        let mut i: usize = 0;
        while i < n
            invariant
                self.entries@ == old(self).entries@,
                old(self).wf(),
                n == self.entries@.len(),
                i <= n,
                forall|j: int| 0 <= j < i ==> #[trigger] self.entries@[j].0 != (x, y),
            decreases n - i,
        {
            let e = self.entries[i];
            if e.0.0 == x && e.0.1 == y {
                self.entries[i] = ((x, y), v);
                proof {
                    lemma_coord_map_update(old(self).entries@, i as int, v);
                }
                return ;
            }
            i += 1;
        }
        self.entries.push(((x, y), v));
        proof {
            assert(self.entries@.drop_last() =~= old(self).entries@);
        }
    }

    /// Removes the value at `(x, y)`, if any.
    pub fn remove(&mut self, x: i32, y: i32)
        requires
            old(self).wf(),
        ensures
            final(self)@ == old(self)@.remove((x as int, y as int)),
            final(self).wf(),
    {
        proof {
            lemma_coord_map_domain(self.entries@);
        }
        let n = self.entries.len();
        let mut i: usize = 0;
        while i < n
            invariant
                self.entries@ == old(self).entries@,
                old(self).wf(),
                n == self.entries@.len(),
                i <= n,
                forall|j: int| 0 <= j < i ==> #[trigger] self.entries@[j].0 != (x, y),
            decreases n - i,
        {
            let e = self.entries[i];
            if e.0.0 == x && e.0.1 == y {
                self.entries.remove(i);
                proof {
                    lemma_coord_map_remove(old(self).entries@, i as int);
                }
                return ;
            }
            i += 1;
        }
        proof {
            assert(!old(self)@.contains_key((x as int, y as int)));
            assert(self@ =~= old(self)@.remove((x as int, y as int)));
        }
    }

    /// The value at `(x, y)`, if any.
    pub fn get(&self, x: i32, y: i32) -> (r: Option<V>)
        requires
            self.wf(),
        ensures
            match r {
                Some(v) => self@.contains_key((x as int, y as int)) && v == self@[(
                    x as int,
                    y as int,
                )],
                None => !self@.contains_key((x as int, y as int)),
            },
    {
        proof {
            lemma_coord_map_domain(self.entries@);
        }
        let n = self.entries.len();
        let mut i: usize = 0;
        while i < n
            invariant
                self.wf(),
                n == self.entries@.len(),
                i <= n,
                forall|j: int| 0 <= j < i ==> #[trigger] self.entries@[j].0 != (x, y),
            decreases n - i,
        {
            let e = self.entries[i];
            if e.0.0 == x && e.0.1 == y {
                proof {
                    lemma_coord_map_at(self.entries@, i as int);
                }
                return Some(e.1);
            }
            i += 1;
        }
        None
    }

    /// True when `(x, y)` holds a value.
    pub fn contains(&self, x: i32, y: i32) -> (r: bool)
        requires
            self.wf(),
        ensures
            r == self@.contains_key((x as int, y as int)),
    {
        self.get(x, y).is_some()
    }
}

} // verus!
