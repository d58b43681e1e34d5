//! The canonical transition table produced by the rule compiler: a finite
//! mapping from `(mode, symbol)` pairs to transitions.

use vstd::prelude::*;
use crate::direction::TurnDirection;

verus! {

/// Effect of firing a rule: symbol to write, turn to make, mode to enter.
#[derive(Clone, Copy, Debug, PartialEq, Eq, Structural)]
pub struct StateTransition {
    /// Symbol index written to the cell the agent leaves.
    pub new_cell_state: usize,
    /// Rotational effect on the agent's facing.
    pub turn_direction: TurnDirection,
    /// Internal mode the agent enters.
    pub new_internal_state: usize,
}

/// Mathematical contents of a sequence of keyed entries, later entries
/// overwriting earlier ones with the same key.
pub open spec fn entries_map(s: Seq<(usize, usize, StateTransition)>) -> Map<
    (int, int),
    StateTransition,
>
    decreases s.len(),
{
    if s.len() == 0 {
        Map::empty()
    } else {
        entries_map(s.drop_last()).insert(
            (s.last().0 as int, s.last().1 as int),
            s.last().2,
        )
    }
}

/// No two entries share a `(mode, symbol)` key.
pub open spec fn entries_unique(s: Seq<(usize, usize, StateTransition)>) -> bool {
    forall|i: int, j: int|
        0 <= i < j < s.len() ==> !(#[trigger] s[i].0 == #[trigger] s[j].0 && s[i].1 == s[j].1)
}

proof fn lemma_entries_map_domain(s: Seq<(usize, usize, StateTransition)>)
    ensures
        entries_map(s).dom().finite(),
        forall|k: (int, int)|
            entries_map(s).contains_key(k) <==> exists|i: int|
                0 <= i < s.len() && (#[trigger] s[i].0 as int, s[i].1 as int) == k,
    decreases s.len(),
{
    if s.len() == 0 {
    } else {
        lemma_entries_map_domain(s.drop_last());
        assert forall|k: (int, int)| entries_map(s).contains_key(k) implies exists|i: int|
            0 <= i < s.len() && (#[trigger] s[i].0 as int, s[i].1 as int) == k by {
            let last = (s.last().0 as int, s.last().1 as int);
            if k == last {
                assert((s[s.len() - 1].0 as int, s[s.len() - 1].1 as int) == k);
            } else {
                let i = choose|i: int|
                    0 <= i < s.drop_last().len() && (
                    #[trigger] s.drop_last()[i].0 as int,
                    s.drop_last()[i].1 as int,
                    ) == k;
                assert((s[i].0 as int, s[i].1 as int) == k);
            }
        }
        assert forall|i: int| 0 <= i < s.len() implies entries_map(s).contains_key(
            ((#[trigger] s[i].0) as int, s[i].1 as int),
        ) by {
            if i < s.len() - 1 {
                assert(s.drop_last()[i] == s[i]);
            }
        }
    }
}

proof fn lemma_entries_map_len(s: Seq<(usize, usize, StateTransition)>)
    requires
        entries_unique(s),
    ensures
        entries_map(s).dom().len() == s.len(),
    decreases s.len(),
{
    lemma_entries_map_domain(s);
    if s.len() == 0 {
        assert(entries_map(s).dom() =~= Set::empty());
    } else {
        let prefix = s.drop_last();
        assert(entries_unique(prefix)) by {
            assert(forall|i: int| 0 <= i < prefix.len() ==> prefix[i] == s[i]);
        }
        lemma_entries_map_len(prefix);
        lemma_entries_map_domain(prefix);
        let last = (s.last().0 as int, s.last().1 as int);
        assert(!entries_map(prefix).contains_key(last)) by {
            if entries_map(prefix).contains_key(last) {
                let i = choose|i: int|
                    0 <= i < prefix.len() && (
                    #[trigger] prefix[i].0 as int,
                    prefix[i].1 as int,
                    ) == last;
                assert(s[i] == prefix[i]);
                assert(s[i].0 == s[s.len() - 1].0 && s[i].1 == s[s.len() - 1].1);
            }
        }
        assert(entries_map(s).dom() =~= entries_map(prefix).dom().insert(last));
    }
}

proof fn lemma_entries_map_at(s: Seq<(usize, usize, StateTransition)>, i: int)
    requires
        entries_unique(s),
        0 <= i < s.len(),
    ensures
        entries_map(s).contains_key((s[i].0 as int, s[i].1 as int)),
        entries_map(s)[(s[i].0 as int, s[i].1 as int)] == s[i].2,
    decreases s.len(),
{
    if i == s.len() - 1 {
    } else {
        let prefix = s.drop_last();
        assert(entries_unique(prefix)) by {
            assert(forall|j: int| 0 <= j < prefix.len() ==> prefix[j] == s[j]);
        }
        lemma_entries_map_at(prefix, i);
        assert(prefix[i] == s[i]);
        assert(!(s[i].0 == s[s.len() - 1].0 && s[i].1 == s[s.len() - 1].1));
    }
}

/// The compiled transition table, queried once per agent per tick.
pub struct RuleTable {
    entries: Vec<(usize, usize, StateTransition)>,
}

impl RuleTable {
    /// Abstract contents: a finite map from `(mode, symbol)` to transitions.
    pub closed spec fn view(&self) -> Map<(int, int), StateTransition> {
        entries_map(self.entries@)
    }

    /// Internal shape invariant, established by `new` and kept by every method.
    pub closed spec fn wf(&self) -> bool {
        entries_unique(self.entries@)
    }

    /// The table's contents are always a finite map.
    pub proof fn lemma_finite(&self)
        ensures
            self@.dom().finite(),
    {
        lemma_entries_map_domain(self.entries@);
    }

    pub fn new() -> (r: RuleTable)
        ensures
            r@ == Map::<(int, int), StateTransition>::empty(),
            r.wf(),
    {
        RuleTable { entries: Vec::new() }
    }

    pub fn clear(&mut self)
        ensures
            final(self)@ == Map::<(int, int), StateTransition>::empty(),
            final(self).wf(),
    {
        self.entries.clear();
    }

    /// Number of `(mode, symbol)` pairs that have a transition.
    pub fn len(&self) -> (r: usize)
        requires
            self.wf(),
        ensures
            r == self@.dom().len(),
    {
        proof {
            lemma_entries_map_len(self.entries@);
        }
        self.entries.len()
    }

    pub fn is_empty(&self) -> (r: bool)
        requires
            self.wf(),
        ensures
            r == (self@ == Map::<(int, int), StateTransition>::empty()),
    {
        proof {
            lemma_entries_map_len(self.entries@);
            lemma_entries_map_domain(self.entries@);
            if self.entries@.len() == 0 {
                assert(self@ =~= Map::<(int, int), StateTransition>::empty());
            } else {
                let e = self.entries@[0];
                assert(self@.contains_key((e.0 as int, e.1 as int)));
            }
        }
        self.entries.len() == 0
    }

    /// Adds or replaces the transition for `(mode, symbol)`.
    pub fn insert(&mut self, mode: usize, symbol: usize, t: StateTransition)
        requires
            old(self).wf(),
        ensures
            final(self)@ == old(self)@.insert((mode as int, symbol as int), t),
            final(self).wf(),
    {
        proof {
            lemma_entries_map_domain(self.entries@);
        }
        let n = self.entries.len();
        let mut i: usize = 0;
        while i < n
            invariant
                self.entries@ == old(self).entries@,
                old(self).wf(),
                n == self.entries@.len(),
                i <= n,
                forall|j: int| 0 <= j < i ==> !(#[trigger] self.entries@[j].0 == mode
                    && self.entries@[j].1 == symbol),
            decreases n - i,
        {
            let e = self.entries[i];
            if e.0 == mode && e.1 == symbol {
                self.entries[i] = (mode, symbol, t);
                proof {
                    lemma_update_preserves(old(self).entries@, i as int, t);
                }
                return ;
            }
            i += 1;
        }
        self.entries.push((mode, symbol, t));
        proof {
            assert(self.entries@.drop_last() =~= old(self).entries@);
        }
    }

    /// Looks up the transition for `(mode, symbol)`, if any.
    pub fn get(&self, mode: usize, symbol: usize) -> (r: Option<&StateTransition>)
        requires
            self.wf(),
        ensures
            match r {
                Some(t) => self@.contains_key((mode as int, symbol as int)) && *t == self@[(
                    mode as int,
                    symbol as int,
                )],
                None => !self@.contains_key((mode as int, symbol as int)),
            },
    {
        proof {
            lemma_entries_map_domain(self.entries@);
        }
        let n = self.entries.len();
        let mut i: usize = 0;
        while i < n
            invariant
                self.wf(),
                n == self.entries@.len(),
                i <= n,
                forall|j: int| 0 <= j < i ==> !(#[trigger] self.entries@[j].0 == mode
                    && self.entries@[j].1 == symbol),
            decreases n - i,
        {
            if self.entries[i].0 == mode && self.entries[i].1 == symbol {
                proof {
                    lemma_entries_map_at(self.entries@, i as int);
                }
                return Some(&self.entries[i].2);
            }
            i += 1;
        }
        None
    }

    /// True when `(mode, symbol)` has a transition.
    pub fn contains(&self, mode: usize, symbol: usize) -> (r: bool)
        requires
            self.wf(),
        ensures
            r == self@.contains_key((mode as int, symbol as int)),
    {
        self.get(mode, symbol).is_some()
    }
}

proof fn lemma_update_preserves(
    s: Seq<(usize, usize, StateTransition)>,
    i: int,
    t: StateTransition,
)
    requires
        entries_unique(s),
        0 <= i < s.len(),
    ensures
        entries_unique(s.update(i, (s[i].0, s[i].1, t))),
        entries_map(s.update(i, (s[i].0, s[i].1, t))) == entries_map(s).insert(
            (s[i].0 as int, s[i].1 as int),
            t,
        ),
    decreases s.len(),
{
    let s2 = s.update(i, (s[i].0, s[i].1, t));
    assert(entries_unique(s2)) by {
        assert(forall|j: int| 0 <= j < s.len() ==> (#[trigger] s2[j].0 == s[j].0 && s2[j].1
            == s[j].1));
    }
    if i == s.len() - 1 {
        assert(s2.drop_last() =~= s.drop_last());
    } else {
        let prefix = s.drop_last();
        assert(entries_unique(prefix)) by {
            assert(forall|j: int| 0 <= j < prefix.len() ==> prefix[j] == s[j]);
        }
        lemma_update_preserves(prefix, i, t);
        assert(s2.drop_last() =~= prefix.update(i, (prefix[i].0, prefix[i].1, t)));
        assert(s2.last() == s.last());
        let ki = (s[i].0 as int, s[i].1 as int);
        let kl = (s.last().0 as int, s.last().1 as int);
        assert(ki != kl) by {
            assert(!(s[i].0 == s[s.len() - 1].0 && s[i].1 == s[s.len() - 1].1));
        }
        assert(entries_map(s2) =~= entries_map(s).insert(ki, t));
    }
}

} // verus!
