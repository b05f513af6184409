//! The state of a running machine: a mapping from aspect identifiers to
//! tagged values, stored as an association list in which later entries
//! shadow earlier ones (last write wins).

use vstd::prelude::*;

verus! {

use crate::types::StateValue;

/// A mapping from `u64` identifiers to values, abstracted as a `Map`.
/// Entries are kept in insertion order; a later entry for the same key
/// shadows an earlier one.
pub struct IdMap<V> {
    entries: Vec<(u64, V)>,
}

/// The map denoted by an entry list: each entry overwrites the binding of
/// its key, so the last occurrence of a key wins.
spec fn map_of<V>(entries: Seq<(u64, V)>) -> Map<u64, V>
    decreases entries.len(),
{
    if entries.len() == 0 {
        Map::empty()
    } else {
        map_of(entries.drop_last()).insert(entries.last().0, entries.last().1)
    }
}

impl<V> View for IdMap<V> {
    type V = Map<u64, V>;

    closed spec fn view(&self) -> Map<u64, V> {
        map_of(self.entries@)
    }
}

/// A key is bound in the denoted map exactly when some entry carries it.
proof fn lemma_map_of_contains<V>(s: Seq<(u64, V)>, k: u64)
    ensures
        map_of(s).contains_key(k) <==> (exists|i: int| 0 <= i < s.len() && (#[trigger] s[i]).0 == k),
    decreases s.len(),
{
    if s.len() > 0 {
        lemma_map_of_contains(s.drop_last(), k);
        if map_of(s).contains_key(k) {
            if k == s.last().0 {
                assert((s[s.len() - 1]).0 == k);
            } else {
                assert(map_of(s.drop_last()).contains_key(k));
                let i = choose|i: int|
                    0 <= i < s.drop_last().len() && (#[trigger] s.drop_last()[i]).0 == k;
                assert(s.drop_last()[i] == s[i]);
                assert((s[i]).0 == k);
            }
        }
        if exists|i: int| 0 <= i < s.len() && (#[trigger] s[i]).0 == k {
            let i = choose|i: int| 0 <= i < s.len() && (#[trigger] s[i]).0 == k;
            if i < s.len() - 1 {
                assert((s.drop_last()[i]).0 == k);
                assert(map_of(s.drop_last()).contains_key(k));
            }
            assert(map_of(s).contains_key(k));
        }
    }
}

/// The entry whose key has no later occurrence gives the key's value in the
/// denoted map.
proof fn lemma_map_of_last_occurrence<V>(s: Seq<(u64, V)>, i: int)
    requires
        0 <= i < s.len(),
        forall|j: int| i < j < s.len() ==> (#[trigger] s[j]).0 != s[i].0,
    ensures
        map_of(s).contains_key(s[i].0),
        map_of(s)[s[i].0] == s[i].1,
    decreases s.len(),
{
    if i == s.len() - 1 {
    } else {
        assert forall|j: int| i < j < s.drop_last().len() implies (#[trigger] s.drop_last()[j]).0
            != s.drop_last()[i].0 by {
            assert(s.drop_last()[j] == s[j]);
        }
        lemma_map_of_last_occurrence(s.drop_last(), i);
        assert((s[s.len() - 1]).0 != s[i].0);
    }
}

/// Concatenating entry lists denotes the right-preferring union of their maps.
proof fn lemma_map_of_concat<V>(a: Seq<(u64, V)>, b: Seq<(u64, V)>)
    ensures
        map_of(a + b) == map_of(a).union_prefer_right(map_of(b)),
    decreases b.len(),
{
    if b.len() == 0 {
        assert(a + b =~= a);
        assert(map_of(a).union_prefer_right(map_of(b)) =~= map_of(a));
    } else {
        lemma_map_of_concat(a, b.drop_last());
        assert((a + b).drop_last() =~= a + b.drop_last());
        assert((a + b).last() == b.last());
        assert(map_of(a).union_prefer_right(map_of(b.drop_last())).insert(b.last().0, b.last().1)
            =~= map_of(a).union_prefer_right(map_of(b)));
    }
}

impl<V: Copy> IdMap<V> {
    /// An empty mapping.
    pub fn new() -> (r: Self)
        ensures
            r@ == Map::<u64, V>::empty(),
    {
        IdMap { entries: Vec::new() }
    }

    /// The value bound to `key`, if any.
    pub fn get(&self, key: u64) -> (r: Option<V>)
        ensures
            r == if self@.contains_key(key) {
                Some(self@[key])
            } else {
                None::<V>
            },
    {
        let mut i: usize = self.entries.len();
        while i > 0
            invariant
                i <= self.entries@.len(),
                forall|j: int| i <= j < self.entries@.len() ==> (#[trigger] self.entries@[j]).0 != key,
            decreases i,
        {
            i = i - 1;
            let e = self.entries[i];
            if e.0 == key {
                proof {
                    lemma_map_of_last_occurrence(self.entries@, i as int);
                }
                return Some(e.1);
            }
        }
        proof {
            lemma_map_of_contains(self.entries@, key);
        }
        None
    }

    /// Binds `key` to `value`, replacing any earlier binding.
    pub fn insert(&mut self, key: u64, value: V)
        ensures
            final(self)@ == old(self)@.insert(key, value),
    {
        self.entries.push((key, value));
        proof {
            assert(self.entries@.drop_last() =~= old(self).entries@);
        }
    }

    /// The mapping of `self` overlaid by `other`: on a key bound in both,
    /// `other`'s binding wins.
    pub fn overlay(&self, other: &Self) -> (r: Self)
        ensures
            r@ == self@.union_prefer_right(other@),
    {
        let mut entries: Vec<(u64, V)> = Vec::new();
        let mut i: usize = 0;
        while i < self.entries.len()
            invariant
                i <= self.entries@.len(),
                entries@ == self.entries@.take(i as int),
            decreases self.entries@.len() - i,
        {
            entries.push(self.entries[i]);
            proof {
                assert(entries@ =~= self.entries@.take(i + 1 as int));
            }
            i = i + 1;
        }
        proof {
            assert(entries@ =~= self.entries@);
        }
        let mut j: usize = 0;
        while j < other.entries.len()
            invariant
                j <= other.entries@.len(),
                entries@ == self.entries@ + other.entries@.take(j as int),
            decreases other.entries@.len() - j,
        {
            entries.push(other.entries[j]);
            proof {
                assert(entries@ =~= self.entries@ + other.entries@.take(j + 1 as int));
            }
            j = j + 1;
        }
        proof {
            assert(entries@ =~= self.entries@ + other.entries@);
            lemma_map_of_concat(self.entries@, other.entries@);
        }
        IdMap { entries }
    }
}

impl<V: Copy> Clone for IdMap<V> {
    /// A copy denoting the same mapping.
    fn clone(&self) -> (r: Self)
        ensures
            r@ == self@,
    {
        let mut entries: Vec<(u64, V)> = Vec::new();
        let mut i: usize = 0;
        while i < self.entries.len()
            invariant
                i <= self.entries@.len(),
                entries@ == self.entries@.take(i as int),
            decreases self.entries@.len() - i,
        {
            entries.push(self.entries[i]);
            proof {
                assert(entries@ =~= self.entries@.take(i + 1 as int));
            }
            i = i + 1;
        }
        proof {
            assert(entries@ =~= self.entries@);
        }
        IdMap { entries }
    }
}

/// The state of a running machine: each aspect identifier is bound to the
/// tagged value that dimension currently holds.
pub type State = IdMap<StateValue>;

/// Whether two states bind the same aspects to the same values.
pub fn states_equal(a: &State, b: &State) -> (r: bool)
    ensures
        r == (a@ == b@),
{
    let mut i: usize = 0;
    while i < a.entries.len()
        invariant
            i <= a.entries@.len(),
            forall|j: int|
                0 <= j < i ==> {
                    let k = (#[trigger] a.entries@[j]).0;
                    b@.contains_key(k) && a@.contains_key(k) && a@[k] == b@[k]
                },
        decreases a.entries@.len() - i,
    {
        let k = a.entries[i].0;
        let va = a.get(k);
        let vb = b.get(k);
        proof {
            lemma_map_of_contains(a.entries@, k);
            assert(a@.contains_key(k));
        }
        let same = match (va, vb) {
            (Some(x), Some(y)) => x == y,
            _ => false,
        };
        if !same {
            return false;
        }
        i = i + 1;
    }
    let mut j: usize = 0;
    while j < b.entries.len()
        invariant
            j <= b.entries@.len(),
            forall|l: int|
                0 <= l < a.entries@.len() ==> {
                    let k = (#[trigger] a.entries@[l]).0;
                    b@.contains_key(k) && a@.contains_key(k) && a@[k] == b@[k]
                },
            forall|l: int|
                0 <= l < j ==> {
                    let k = (#[trigger] b.entries@[l]).0;
                    b@.contains_key(k) && a@.contains_key(k) && a@[k] == b@[k]
                },
        decreases b.entries@.len() - j,
    {
        let k = b.entries[j].0;
        let va = a.get(k);
        let vb = b.get(k);
        proof {
            lemma_map_of_contains(b.entries@, k);
            assert(b@.contains_key(k));
        }
        let same = match (va, vb) {
            (Some(x), Some(y)) => x == y,
            _ => false,
        };
        if !same {
            return false;
        }
        j = j + 1;
    }
    proof {
        assert forall|k: u64| #[trigger] a@.contains_key(k) implies b@.contains_key(k) && a@[k]
            == b@[k] by {
            lemma_map_of_contains(a.entries@, k);
            let l = choose|l: int| 0 <= l < a.entries@.len() && (#[trigger] a.entries@[l]).0 == k;
            assert((a.entries@[l]).0 == k);
        }
        assert forall|k: u64| #[trigger] b@.contains_key(k) implies a@.contains_key(k) by {
            lemma_map_of_contains(b.entries@, k);
            let l = choose|l: int| 0 <= l < b.entries@.len() && (#[trigger] b.entries@[l]).0 == k;
            assert((b.entries@[l]).0 == k);
        }
        assert(a@ =~= b@);
    }
    true
}

} // verus!
