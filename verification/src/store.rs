//! Small keyed collections used by the client state: a map and a set whose
//! keys are strings (snowflake ids and composite keys), kept in insertion order.
use vstd::prelude::*;

verus! {

/// A map from string keys to values, in insertion order, with distinct keys.
#[derive(Debug)]
pub struct StrMap<V> {
    entries: Vec<(String, V)>,
}

pub open spec fn keys_distinct<V>(s: Seq<(String, V)>) -> bool {
    forall|i: int, j: int|
        0 <= i < s.len() && 0 <= j < s.len() && i != j ==> #[trigger] s[i].0@ != #[trigger] s[j].0@
}

pub open spec fn has_key_at<V>(s: Seq<(String, V)>, k: Seq<char>, i: int) -> bool {
    0 <= i < s.len() && s[i].0@ == k
}

/// The map that an entry sequence with distinct keys stands for.
pub open spec fn map_of<V>(s: Seq<(String, V)>) -> Map<Seq<char>, V> {
    Map::new(
        |k: Seq<char>| exists|i: int| has_key_at(s, k, i),
        |k: Seq<char>| s[choose|i: int| has_key_at(s, k, i)].1,
    )
}

/// Position of the first entry at or after `from` with key `k` (the length when there is none).
pub open spec fn key_pos_from<V>(s: Seq<(String, V)>, k: Seq<char>, from: int) -> int
    decreases s.len() - from,
{
    if from < 0 || from >= s.len() {
        s.len() as int
    } else if s[from].0@ == k {
        from
    } else {
        key_pos_from(s, k, from + 1)
    }
}

/// Position of the entry with key `k` (the length when there is none).
pub open spec fn key_pos<V>(s: Seq<(String, V)>, k: Seq<char>) -> int {
    key_pos_from(s, k, 0)
}

/// With distinct keys, an entry's position is the position of its key.
pub proof fn lemma_key_pos<V>(s: Seq<(String, V)>, i: int)
    requires
        keys_distinct(s),
        0 <= i < s.len(),
    ensures
        key_pos(s, s[i].0@) == i,
{
    lemma_key_pos_from(s, i, 0);
}

proof fn lemma_key_pos_from<V>(s: Seq<(String, V)>, i: int, from: int)
    requires
        keys_distinct(s),
        0 <= from <= i < s.len(),
    ensures
        key_pos_from(s, s[i].0@, from) == i,
    decreases i - from,
{
    if from < i {
        assert(s[from].0@ != s[i].0@);
        lemma_key_pos_from(s, i, from + 1);
    }
}

/// A key of the map has a position, holding that key.
pub proof fn lemma_key_pos_in<V>(s: Seq<(String, V)>, k: Seq<char>)
    requires
        keys_distinct(s),
        map_of(s).dom().contains(k),
    ensures
        0 <= key_pos(s, k) < s.len(),
        s[key_pos(s, k)].0@ == k,
{
    let i = choose|i: int| has_key_at(s, k, i);
    lemma_key_pos(s, i);
}

/// A key not in the map has no position.
pub proof fn lemma_key_pos_absent<V>(s: Seq<(String, V)>, k: Seq<char>)
    requires
        !map_of(s).dom().contains(k),
    ensures
        key_pos(s, k) == s.len(),
{
    lemma_key_pos_absent_from(s, k, 0);
}

proof fn lemma_key_pos_absent_from<V>(s: Seq<(String, V)>, k: Seq<char>, from: int)
    requires
        !map_of(s).dom().contains(k),
        0 <= from <= s.len(),
    ensures
        key_pos_from(s, k, from) == s.len(),
    decreases s.len() - from,
{
    if from < s.len() {
        if s[from].0@ == k {
            assert(has_key_at(s, k, from));
        }
        lemma_key_pos_absent_from(s, k, from + 1);
    }
}

/// Positions depend only on the keys.
pub proof fn lemma_key_pos_keys<V>(a: Seq<(String, V)>, b: Seq<(String, V)>, k: Seq<char>, from: int)
    requires
        a.len() == b.len(),
        forall|j: int| 0 <= j < a.len() ==> #[trigger] a[j].0@ == b[j].0@,
    ensures
        key_pos_from(a, k, from) == key_pos_from(b, k, from),
    decreases a.len() - from,
{
    if 0 <= from < a.len() {
        assert(a[from].0@ == b[from].0@);
        lemma_key_pos_keys(a, b, k, from + 1);
    }
}

pub proof fn lemma_map_of_at<V>(s: Seq<(String, V)>, i: int)
    requires
        keys_distinct(s),
        0 <= i < s.len(),
    ensures
        map_of(s).dom().contains(s[i].0@),
        map_of(s)[s[i].0@] == s[i].1,
{
    let k = s[i].0@;
    assert(has_key_at(s, k, i));
    let j = choose|j: int| has_key_at(s, k, j);
    assert(has_key_at(s, k, j));
    assert(j == i);
}

pub proof fn lemma_map_of_absent<V>(s: Seq<(String, V)>, k: Seq<char>)
    requires
        forall|i: int| 0 <= i < s.len() ==> #[trigger] s[i].0@ != k,
    ensures
        !map_of(s).dom().contains(k),
{
    if map_of(s).dom().contains(k) {
        let i = choose|i: int| has_key_at(s, k, i);
        assert(s[i].0@ != k);
    }
}

pub proof fn lemma_map_of_push<V>(s: Seq<(String, V)>, e: (String, V))
    requires
        keys_distinct(s),
        forall|i: int| 0 <= i < s.len() ==> #[trigger] s[i].0@ != e.0@,
    ensures
        keys_distinct(s.push(e)),
        map_of(s.push(e)) =~= map_of(s).insert(e.0@, e.1),
{
    let t = s.push(e);
    assert forall|i: int, j: int|
        0 <= i < t.len() && 0 <= j < t.len() && i != j implies #[trigger] t[i].0@
        != #[trigger] t[j].0@ by {
        if i < s.len() && j < s.len() {
            assert(t[i] == s[i] && t[j] == s[j]);
        }
    }
    assert forall|k: Seq<char>| #[trigger]
        map_of(t).dom().contains(k) == map_of(s).insert(e.0@, e.1).dom().contains(k) by {
        if map_of(t).dom().contains(k) {
            let i = choose|i: int| has_key_at(t, k, i);
            if i < s.len() {
                assert(has_key_at(s, k, i));
            }
        }
        if map_of(s).dom().contains(k) {
            let i = choose|i: int| has_key_at(s, k, i);
            assert(has_key_at(t, k, i));
        }
        if k == e.0@ {
            assert(has_key_at(t, k, s.len() as int));
        }
    }
    assert forall|k: Seq<char>| #[trigger] map_of(t).dom().contains(k) implies map_of(t)[k]
        == map_of(s).insert(e.0@, e.1)[k] by {
        let i = choose|i: int| has_key_at(t, k, i);
        lemma_map_of_at(t, i);
        if i < s.len() {
            assert(t[i] == s[i]);
            lemma_map_of_at(s, i);
        }
    }
}

pub proof fn lemma_map_of_update<V>(s: Seq<(String, V)>, i: int, e: (String, V))
    requires
        keys_distinct(s),
        0 <= i < s.len(),
        s[i].0@ == e.0@,
    ensures
        keys_distinct(s.update(i, e)),
        map_of(s.update(i, e)) =~= map_of(s).insert(e.0@, e.1),
{
    let t = s.update(i, e);
    assert forall|a: int, b: int|
        0 <= a < t.len() && 0 <= b < t.len() && a != b implies #[trigger] t[a].0@
        != #[trigger] t[b].0@ by {
        assert(t[a].0@ == s[a].0@ && t[b].0@ == s[b].0@);
    }
    assert forall|k: Seq<char>| #[trigger]
        map_of(t).dom().contains(k) == map_of(s).insert(e.0@, e.1).dom().contains(k) by {
        if map_of(t).dom().contains(k) {
            let j = choose|j: int| has_key_at(t, k, j);
            assert(has_key_at(s, k, j));
        }
        if map_of(s).dom().contains(k) {
            let j = choose|j: int| has_key_at(s, k, j);
            assert(has_key_at(t, k, j));
        }
        if k == e.0@ {
            assert(has_key_at(t, k, i));
        }
    }
    assert forall|k: Seq<char>| #[trigger] map_of(t).dom().contains(k) implies map_of(t)[k]
        == map_of(s).insert(e.0@, e.1)[k] by {
        let j = choose|j: int| has_key_at(t, k, j);
        lemma_map_of_at(t, j);
        if j != i {
            lemma_map_of_at(s, j);
        }
    }
}

pub proof fn lemma_map_of_remove<V>(s: Seq<(String, V)>, i: int)
    requires
        keys_distinct(s),
        0 <= i < s.len(),
    ensures
        keys_distinct(s.remove(i)),
        map_of(s.remove(i)) =~= map_of(s).remove(s[i].0@),
{
    let t = s.remove(i);
    let k0 = s[i].0@;
    assert forall|a: int, b: int|
        0 <= a < t.len() && 0 <= b < t.len() && a != b implies #[trigger] t[a].0@
        != #[trigger] t[b].0@ by {
        let a2 = if a < i {
            a
        } else {
            a + 1
        };
        let b2 = if b < i {
            b
        } else {
            b + 1
        };
        assert(t[a] == s[a2] && t[b] == s[b2]);
    }
    assert forall|k: Seq<char>| #[trigger]
        map_of(t).dom().contains(k) == map_of(s).remove(k0).dom().contains(k) by {
        if map_of(t).dom().contains(k) {
            let j = choose|j: int| has_key_at(t, k, j);
            let j2 = if j < i {
                j
            } else {
                j + 1
            };
            assert(t[j] == s[j2]);
            assert(has_key_at(s, k, j2));
        }
        if map_of(s).dom().contains(k) && k != k0 {
            let j = choose|j: int| has_key_at(s, k, j);
            assert(j != i);
            if j < i {
                assert(t[j] == s[j]);
                assert(has_key_at(t, k, j));
            } else {
                assert(t[j - 1] == s[j]);
                assert(has_key_at(t, k, j - 1));
            }
        }
    }
    assert forall|k: Seq<char>| #[trigger] map_of(t).dom().contains(k) implies map_of(t)[k]
        == map_of(s).remove(k0)[k] by {
        let j = choose|j: int| has_key_at(t, k, j);
        lemma_map_of_at(t, j);
        let j2 = if j < i {
            j
        } else {
            j + 1
        };
        assert(t[j] == s[j2]);
        lemma_map_of_at(s, j2);
    }
}

impl<V> StrMap<V> {
    #[verifier::type_invariant]
    spec fn inv(&self) -> bool {
        keys_distinct(self.entries@)
    }

    /// The entries, in insertion order.
    pub closed spec fn pairs(&self) -> Seq<(String, V)> {
        self.entries@
    }


    /// An empty map.
    pub fn new() -> (r: Self)
        ensures
            r.pairs().len() == 0,
            r@ == Map::<Seq<char>, V>::empty(),
    {
        let r = StrMap { entries: Vec::new() };
        assert(map_of(r.entries@) =~= Map::<Seq<char>, V>::empty());
        r
    }

    /// Number of entries.
    pub fn len(&self) -> (r: usize)
        ensures
            r == self.pairs().len(),
    {
        self.entries.len()
    }

    /// The key of the `i`-th entry.
    pub fn key_at(&self, i: usize) -> (r: &String)
        requires
            i < self.pairs().len(),
        ensures
            *r == self.pairs()[i as int].0,
    {
        &self.entries[i].0
    }

    /// The value of the `i`-th entry.
    pub fn value_at(&self, i: usize) -> (r: &V)
        requires
            i < self.pairs().len(),
        ensures
            *r == self.pairs()[i as int].1,
    {
        &self.entries[i].1
    }

    /// Whether the map has no entries.
    pub fn is_empty(&self) -> (r: bool)
        ensures
            r == (self@ == Map::<Seq<char>, V>::empty()),
            r == (self.pairs().len() == 0),
    {
        proof {
            use_type_invariant(self);
            if self.entries@.len() > 0 {
                lemma_map_of_at(self.entries@, 0);
                assert(map_of(self.entries@).dom().contains(self.entries@[0].0@));
            } else {
                assert(map_of(self.entries@) =~= Map::<Seq<char>, V>::empty());
            }
        }
        self.entries.len() == 0
    }

    /// Position of the entry with key `k`.
    pub fn index_of(&self, k: &str) -> (r: Option<usize>)
        ensures
            r matches Some(i) ==> i < self.pairs().len() && self.pairs()[i as int].0@ == k@,
            r is None ==> forall|i: int|
                0 <= i < self.pairs().len() ==> #[trigger] self.pairs()[i].0@ != k@,
            r is None <==> !self@.dom().contains(k@),
    {
        proof {
            use_type_invariant(self);
        }
        let mut i: usize = 0;
        while i < self.entries.len()
            invariant
                i <= self.entries@.len(),
                keys_distinct(self.entries@),
                forall|j: int| 0 <= j < i ==> #[trigger] self.entries@[j].0@ != k@,
            decreases self.entries@.len() - i,
        {
            if crate::text::str_eq(self.entries[i].0.as_str(), k) {
                proof {
                    lemma_map_of_at(self.entries@, i as int);
                }
                return Some(i);
            }
            i = i + 1;
        }
        proof {
            lemma_map_of_absent(self.entries@, k@);
        }
        None
    }

    /// Whether `k` has an entry.
    pub fn contains_key(&self, k: &str) -> (r: bool)
        ensures
            r == self@.dom().contains(k@),
    {
        self.index_of(k).is_some()
    }

    /// The value stored under `k`.
    pub fn get(&self, k: &str) -> (r: Option<&V>)
        ensures
            r matches Some(v) ==> self@.dom().contains(k@) && *v == self@[k@],
            r is None ==> !self@.dom().contains(k@),
    {
        proof {
            use_type_invariant(self);
        }
        match self.index_of(k) {
            Some(i) => {
                proof {
                    lemma_map_of_at(self.entries@, i as int);
                }
                Some(&self.entries[i].1)
            },
            None => None,
        }
    }

    /// Stores `v` under `k`, replacing any previous value in place.
    pub fn insert(&mut self, k: String, v: V)
        ensures
            final(self)@ == old(self)@.insert(k@, v),
            old(self)@.dom().contains(k@) ==> final(self).pairs() == old(self).pairs().update(
                key_pos(old(self).pairs(), k@),
                (k, v),
            ),
            !old(self)@.dom().contains(k@) ==> final(self).pairs() == old(self).pairs().push(
                (k, v),
            ),
    {
        proof {
            use_type_invariant(&*self);
        }
        match self.index_of(k.as_str()) {
            Some(i) => {
                proof {
                    lemma_map_of_update(self.entries@, i as int, (k, v));
                    lemma_key_pos(self.entries@, i as int);
                }
                let mut tmp: Vec<(String, V)> = Vec::new();
                std::mem::swap(&mut tmp, &mut self.entries);
                tmp.set(i, (k, v));
                self.entries = tmp;
            },
            None => {
                proof {
                    assert forall|j: int| 0 <= j < self.entries@.len() implies #[trigger] self.entries@[j].0@ != k@ by {
                        assert(self.pairs()[j] == self.entries@[j]);
                    }
                    lemma_map_of_push(self.entries@, (k, v));
                }
                let mut tmp: Vec<(String, V)> = Vec::new();
                std::mem::swap(&mut tmp, &mut self.entries);
                tmp.push((k, v));
                self.entries = tmp;
            },
        }
    }

    /// Removes the entry for `k`, returning its value.
    pub fn remove(&mut self, k: &str) -> (r: Option<V>)
        ensures
            final(self)@ == old(self)@.remove(k@),
            r matches Some(v) ==> old(self)@.dom().contains(k@) && v == old(self)@[k@],
            r is None ==> !old(self)@.dom().contains(k@),
            old(self)@.dom().contains(k@) ==> final(self).pairs() == old(self).pairs().remove(
                key_pos(old(self).pairs(), k@),
            ),
            !old(self)@.dom().contains(k@) ==> final(self).pairs() == old(self).pairs(),
    {
        proof {
            use_type_invariant(&*self);
        }
        match self.index_of(k) {
            Some(i) => {
                proof {
                    lemma_key_pos(self.entries@, i as int);
                    lemma_map_of_remove(self.entries@, i as int);
                    lemma_map_of_at(self.entries@, i as int);
                }
                let mut tmp: Vec<(String, V)> = Vec::new();
                std::mem::swap(&mut tmp, &mut self.entries);
                let (_, v) = tmp.remove(i);
                self.entries = tmp;
                Some(v)
            },
            None => {
                assert(old(self)@.remove(k@) =~= old(self)@);
                None
            },
        }
    }

    /// Removes every entry.
    pub fn clear(&mut self)
        ensures
            final(self)@ == Map::<Seq<char>, V>::empty(),
            final(self).pairs().len() == 0,
    {
        self.entries = Vec::new();
        assert(map_of(self.entries@) =~= Map::<Seq<char>, V>::empty());
    }

    /// Replaces the value stored at position `i`.
    pub fn set_value_at(&mut self, i: usize, v: V)
        requires
            i < old(self).pairs().len(),
        ensures
            final(self).pairs() == old(self).pairs().update(
                i as int,
                (old(self).pairs()[i as int].0, v),
            ),
            final(self)@ == old(self)@.insert(old(self).pairs()[i as int].0@, v),
    {
        proof {
            use_type_invariant(&*self);
        }
        let k = self.entries[i].0.clone();
        proof {
            lemma_map_of_update(self.entries@, i as int, (k, v));
        }
        let mut tmp: Vec<(String, V)> = Vec::new();
        std::mem::swap(&mut tmp, &mut self.entries);
        tmp.set(i, (k, v));
        self.entries = tmp;
    }

    /// Puts `v` at position `i` and hands back the value that was there.
    pub fn replace_value_at(&mut self, i: usize, v: V) -> (r: V)
        requires
            i < old(self).pairs().len(),
        ensures
            r == old(self).pairs()[i as int].1,
            final(self).pairs() == old(self).pairs().update(
                i as int,
                (old(self).pairs()[i as int].0, v),
            ),
            final(self)@ == old(self)@.insert(old(self).pairs()[i as int].0@, v),
    {
        proof {
            use_type_invariant(&*self);
        }
        let mut tmp: Vec<(String, V)> = Vec::new();
        std::mem::swap(&mut tmp, &mut self.entries);
        let ghost before = tmp@;
        let (k, old_v) = tmp.remove(i);
        proof {
            lemma_map_of_update(before, i as int, (k, v));
        }
        tmp.insert(i, (k, v));
        assert(tmp@ =~= before.update(i as int, (k, v)));
        self.entries = tmp;
        old_v
    }
}

impl<V> View for StrMap<V> {
    type V = Map<Seq<char>, V>;

    closed spec fn view(&self) -> Map<Seq<char>, V> {
        map_of(self.entries@)
    }
}

impl<V> StrMap<V> {
    /// Brings into scope that the view is the map of the entries, whose keys are distinct.
    pub fn reveal_pairs(&self)
        ensures
            self@ == map_of(self.pairs()),
            keys_distinct(self.pairs()),
    {
        proof {
            use_type_invariant(self);
        }
    }
}

impl<V: Clone> Clone for StrMap<V> {
    fn clone(&self) -> (r: Self)
        ensures
            r.pairs().len() == self.pairs().len(),
            forall|i: int|
                0 <= i < self.pairs().len() ==> #[trigger] r.pairs()[i].0 == self.pairs()[i].0
                    && cloned(self.pairs()[i].1, r.pairs()[i].1),
            (forall|i: int|
                0 <= i < self.pairs().len() ==> #[trigger] r.pairs()[i].1 == self.pairs()[i].1)
                ==> r@ == self@,
    {
        proof {
            use_type_invariant(self);
        }
        let mut out: Vec<(String, V)> = Vec::new();
        let mut i: usize = 0;
        while i < self.entries.len()
            invariant
                i <= self.entries@.len(),
                keys_distinct(self.entries@),
                out@.len() == i,
                forall|j: int|
                    0 <= j < i ==> #[trigger] out@[j].0 == self.entries@[j].0 && cloned(
                        self.entries@[j].1,
                        out@[j].1,
                    ),
            decreases self.entries@.len() - i,
        {
            let k = self.entries[i].0.clone();
            let v = self.entries[i].1.clone();
            out.push((k, v));
            i = i + 1;
        }
        assert(keys_distinct(out@)) by {
            assert forall|a: int, b: int|
                0 <= a < out@.len() && 0 <= b < out@.len() && a != b implies #[trigger] out@[a].0@
                != #[trigger] out@[b].0@ by {
                assert(out@[a].0 == self.entries@[a].0);
                assert(out@[b].0 == self.entries@[b].0);
            }
        }
        let r = StrMap { entries: out };
        proof {
            if forall|i: int|
                0 <= i < self.pairs().len() ==> #[trigger] r.pairs()[i].1 == self.pairs()[i].1 {
                assert(r.entries@ =~= self.entries@) by {
                    assert forall|i: int| 0 <= i < self.entries@.len() implies #[trigger] r.entries@[i] == self.entries@[i] by {
                        assert(r.pairs()[i].1 == self.pairs()[i].1);
                    }
                }
            }
        }
        r
    }
}

impl<V> Default for StrMap<V> {
    fn default() -> (r: Self)
        ensures
            r@ == Map::<Seq<char>, V>::empty(),
    {
        StrMap::new()
    }
}

/// A set of strings, in insertion order.
#[derive(Debug, Default)]
pub struct StrSet {
    items: StrMap<()>,
}

impl View for StrSet {
    type V = Set<Seq<char>>;

    closed spec fn view(&self) -> Set<Seq<char>> {
        self.items@.dom()
    }
}

impl StrSet {
    /// An empty set.
    pub fn new() -> (r: Self)
        ensures
            r@ == Set::<Seq<char>>::empty(),
    {
        let r = StrSet { items: StrMap::new() };
        assert(r@ =~= Set::<Seq<char>>::empty());
        r
    }

    /// Whether `k` is in the set.
    pub fn contains(&self, k: &str) -> (r: bool)
        ensures
            r == self@.contains(k@),
    {
        self.items.contains_key(k)
    }

    /// Adds `k`; true when it was not there before.
    pub fn insert(&mut self, k: String) -> (r: bool)
        ensures
            final(self)@ == old(self)@.insert(k@),
            r == !old(self)@.contains(k@),
    {
        let was = self.items.contains_key(k.as_str());
        self.items.insert(k, ());
        assert(self@ =~= old(self)@.insert(k@));
        !was
    }

    /// Removes `k`; true when it was there.
    pub fn remove(&mut self, k: &str) -> (r: bool)
        ensures
            final(self)@ == old(self)@.remove(k@),
            r == old(self)@.contains(k@),
    {
        let r = self.items.remove(k);
        assert(self@ =~= old(self)@.remove(k@));
        r.is_some()
    }

    /// Removes every element.
    pub fn clear(&mut self)
        ensures
            final(self)@ == Set::<Seq<char>>::empty(),
    {
        self.items.clear();
        assert(self@ =~= Set::<Seq<char>>::empty());
    }
}

} // verus!
