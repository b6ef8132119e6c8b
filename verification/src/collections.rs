//! String-keyed collections for the server's registries.
//!
//! `StringSet` is a set of strings and `StringMap<V>` a map from strings
//! to values; both keep their contents in a `Vec`, one entry per distinct
//! string, and are viewed as a mathematical `Set` / `Map` over the
//! characters of the strings.
//!
//! They stand where `HashSet<String>` and `HashMap<String, V>` would: the
//! specifications of std's hash collections hold only for key types known
//! to obey the hashing key model, which `String` is not, so nothing could
//! be proved of a lookup by `String` key in them.

use vstd::prelude::*;

verus! {

/// No two strings of `s` hold the same characters.
pub open spec fn distinct_strings(s: Seq<String>) -> bool {
    forall|i: int, j: int| 0 <= i < s.len() && 0 <= j < s.len() && i != j ==> s[i]@ != s[j]@
}

/// The characters of the strings of `s`, as a set.
pub open spec fn string_set(s: Seq<String>) -> Set<Seq<char>> {
    Set::new(|x: Seq<char>| exists|i: int| 0 <= i < s.len() && s[i]@ == x)
}

/// Finds the position of `x` among `items`.
fn position_of(items: &Vec<String>, x: &String) -> (r: Option<usize>)
    ensures
        match r {
            Some(i) => i < items@.len() && items@[i as int]@ == x@,
            None => !string_set(items@).contains(x@),
        },
{
    let n = items.len();
    let mut i: usize = 0;
    while i < n
        invariant
            n == items@.len(),
            i <= n,
            forall|j: int| 0 <= j < i ==> items@[j]@ != x@,
        decreases n - i,
    {
        if items[i] == *x {
            return Some(i);
        }
        i = i + 1;
    }
    None
}

/// A set of strings.
pub struct StringSet {
    items: Vec<String>,
}

impl View for StringSet {
    type V = Set<Seq<char>>;

    closed spec fn view(&self) -> Set<Seq<char>> {
        string_set(self.items@)
    }
}

impl StringSet {
    /// Each string is held once.
    pub closed spec fn wf(&self) -> bool {
        distinct_strings(self.items@)
    }

    /// The empty set.
    pub fn new() -> (s: StringSet)
        ensures
            s.wf(),
            s@ == Set::<Seq<char>>::empty(),
    {
        let s = StringSet { items: Vec::new() };
        assert(s@ =~= Set::<Seq<char>>::empty());
        s
    }

    /// Whether the set holds `x`.
    pub fn contains(&self, x: &String) -> (r: bool)
        ensures
            r == self@.contains(x@),
    {
        position_of(&self.items, x).is_some()
    }

    /// Adds `x`; tells whether it was new.
    pub fn insert(&mut self, x: String) -> (r: bool)
        requires
            old(self).wf(),
        ensures
            final(self).wf(),
            final(self)@ == old(self)@.insert(x@),
            r == !old(self)@.contains(x@),
    {
        match position_of(&self.items, &x) {
            Some(_) => {
                assert(self@ =~= old(self)@.insert(x@));
                false
            },
            None => {
                let ghost old_items = self.items@;
                self.items.push(x);
                assert(self.items@ == old_items.push(x));
                assert forall|y: Seq<char>| #[trigger] self@.contains(y) == old(self)@.insert(x@).contains(y) by {
                    if old(self)@.insert(x@).contains(y) && y != x@ {
                        let j = choose|j: int| 0 <= j < old_items.len() && old_items[j]@ == y;
                        assert(self.items@[j] == old_items[j]);
                    }
                    if self@.contains(y) && y != x@ {
                        let j = choose|j: int| 0 <= j < self.items@.len() && self.items@[j]@ == y;
                        assert(j < old_items.len());
                        assert(old_items[j]@ == y);
                    }
                    if y == x@ {
                        assert(self.items@[old_items.len() as int]@ == y);
                    }
                }
                assert(self@ =~= old(self)@.insert(x@));
                true
            },
        }
    }

    /// Removes `x`; tells whether it was there.
    pub fn remove(&mut self, x: &String) -> (r: bool)
        requires
            old(self).wf(),
        ensures
            final(self).wf(),
            final(self)@ == old(self)@.remove(x@),
            r == old(self)@.contains(x@),
    {
        match position_of(&self.items, x) {
            Some(i) => {
                let ghost old_items = self.items@;
                self.items.remove(i);
                let ghost new_items = self.items@;
                assert(new_items == old_items.remove(i as int));
                assert forall|y: Seq<char>| #[trigger] self@.contains(y) == old(self)@.remove(x@).contains(y) by {
                    if old(self)@.remove(x@).contains(y) {
                        let j = choose|j: int| 0 <= j < old_items.len() && old_items[j]@ == y;
                        assert(j != i);
                        if j < i {
                            assert(new_items[j] == old_items[j]);
                        } else {
                            assert(new_items[j - 1] == old_items[j]);
                        }
                    }
                    if self@.contains(y) {
                        let j = choose|j: int| 0 <= j < new_items.len() && new_items[j]@ == y;
                        if j < i {
                            assert(new_items[j] == old_items[j]);
                            assert(y != x@);
                        } else {
                            assert(new_items[j] == old_items[j + 1]);
                            assert(y != x@);
                        }
                    }
                }
                assert(self@ =~= old(self)@.remove(x@));
                assert(old(self)@.contains(x@)) by {
                    assert(old_items[i as int]@ == x@);
                }
                true
            },
            None => {
                assert(self@ =~= old(self)@.remove(x@));
                false
            },
        }
    }

    /// The strings of the set, each once.
    pub fn as_vec(&self) -> (r: &Vec<String>)
        requires
            self.wf(),
        ensures
            distinct_strings(r@),
            string_set(r@) == self@,
    {
        &self.items
    }
}

/// The keys of `entries` are pairwise different.
pub open spec fn distinct_keys<V>(entries: Seq<(String, V)>) -> bool {
    forall|i: int, j: int|
        0 <= i < entries.len() && 0 <= j < entries.len() && i != j ==> entries[i].0@ != entries[j].0@
}

/// Some entry has the key `k`.
pub open spec fn has_key<V>(entries: Seq<(String, V)>, k: Seq<char>) -> bool {
    exists|i: int| 0 <= i < entries.len() && entries[i].0@ == k
}

/// The map that `entries` stand for.
pub open spec fn entries_map<V>(entries: Seq<(String, V)>) -> Map<Seq<char>, V> {
    Map::new(
        |k: Seq<char>| has_key(entries, k),
        |k: Seq<char>| entries[choose|i: int| 0 <= i < entries.len() && entries[i].0@ == k].1,
    )
}

/// With distinct keys, the entry at `i` is what the map holds for its key.
pub proof fn lemma_entries_map_at<V>(entries: Seq<(String, V)>, i: int)
    requires
        distinct_keys(entries),
        0 <= i < entries.len(),
    ensures
        entries_map(entries).contains_key(entries[i].0@),
        entries_map(entries)[entries[i].0@] == entries[i].1,
{
    let k = entries[i].0@;
    assert(has_key(entries, k));
    let j = choose|j: int| 0 <= j < entries.len() && entries[j].0@ == k;
    assert(j == i);
}

/// Finds the position of key `k` among `entries`.
fn key_position<V>(entries: &Vec<(String, V)>, k: &String) -> (r: Option<usize>)
    ensures
        match r {
            Some(i) => i < entries@.len() && entries@[i as int].0@ == k@,
            None => !has_key(entries@, k@),
        },
{
    let n = entries.len();
    let mut i: usize = 0;
    while i < n
        invariant
            n == entries@.len(),
            i <= n,
            forall|j: int| 0 <= j < i ==> entries@[j].0@ != k@,
        decreases n - i,
    {
        if entries[i].0 == *k {
            return Some(i);
        }
        i = i + 1;
    }
    None
}

/// A map from strings to values.
pub struct StringMap<V> {
    entries: Vec<(String, V)>,
}

impl<V> View for StringMap<V> {
    type V = Map<Seq<char>, V>;

    closed spec fn view(&self) -> Map<Seq<char>, V> {
        entries_map(self.entries@)
    }
}

impl<V> StringMap<V> {
    /// Each key is held once.
    pub closed spec fn wf(&self) -> bool {
        distinct_keys(self.entries@)
    }

    /// The empty map.
    pub fn new() -> (m: StringMap<V>)
        ensures
            m.wf(),
            m@ == Map::<Seq<char>, V>::empty(),
    {
        let m = StringMap { entries: Vec::new() };
        assert(m@ =~= Map::<Seq<char>, V>::empty());
        m
    }

    /// Whether the map has the key `k`.
    pub fn contains_key(&self, k: &String) -> (r: bool)
        requires
            self.wf(),
        ensures
            r == self@.contains_key(k@),
    {
        match key_position(&self.entries, k) {
            Some(i) => {
                proof {
                    lemma_entries_map_at(self.entries@, i as int);
                }
                true
            },
            None => false,
        }
    }

    /// The value held for `k`.
    pub fn get(&self, k: &String) -> (r: Option<&V>)
        requires
            self.wf(),
        ensures
            match r {
                Some(v) => self@.contains_key(k@) && self@[k@] == *v,
                None => !self@.contains_key(k@),
            },
    {
        match key_position(&self.entries, k) {
            Some(i) => {
                proof {
                    lemma_entries_map_at(self.entries@, i as int);
                }
                Some(&self.entries[i].1)
            },
            None => None,
        }
    }

    /// Sets the value of `k` to `v`; hands back the value it replaces.
    pub fn insert(&mut self, k: String, v: V) -> (r: Option<V>)
        requires
            old(self).wf(),
        ensures
            final(self).wf(),
            final(self)@ == old(self)@.insert(k@, v),
            match r {
                Some(w) => old(self)@.contains_key(k@) && old(self)@[k@] == w,
                None => !old(self)@.contains_key(k@),
            },
    {
        let ghost old_entries = self.entries@;
        match key_position(&self.entries, &k) {
            Some(i) => {
                proof {
                    lemma_entries_map_at(old_entries, i as int);
                }
                let (_, w) = self.entries.remove(i);
                self.entries.insert(i, (k, v));
                let ghost new_entries = self.entries@;
                assert(new_entries =~= old_entries.update(i as int, new_entries[i as int]));
                assert forall|key: Seq<char>| #[trigger] self@.contains_key(key) == old(self)@.insert(k@, v).contains_key(key) by {
                    if has_key(old_entries, key) {
                        let j = choose|j: int| 0 <= j < old_entries.len() && old_entries[j].0@ == key;
                        if j != i {
                            assert(new_entries[j] == old_entries[j]);
                        }
                    }
                    if has_key(new_entries, key) {
                        let j = choose|j: int| 0 <= j < new_entries.len() && new_entries[j].0@ == key;
                        if j != i {
                            assert(new_entries[j] == old_entries[j]);
                        }
                    }
                }
                assert forall|key: Seq<char>| #[trigger] self@.contains_key(key) implies self@[key] == old(self)@.insert(k@, v)[key] by {
                    let j = choose|j: int| 0 <= j < new_entries.len() && new_entries[j].0@ == key;
                    lemma_entries_map_at(new_entries, j);
                    if j != i {
                        assert(new_entries[j] == old_entries[j]);
                        lemma_entries_map_at(old_entries, j);
                    }
                }
                assert(self@ =~= old(self)@.insert(k@, v));
                Some(w)
            },
            None => {
                self.entries.push((k, v));
                let ghost new_entries = self.entries@;
                let ghost n = old_entries.len() as int;
                assert(new_entries =~= old_entries.push(new_entries[n]));
                assert forall|key: Seq<char>| #[trigger] self@.contains_key(key) == old(self)@.insert(k@, v).contains_key(key) by {
                    if has_key(old_entries, key) {
                        let j = choose|j: int| 0 <= j < old_entries.len() && old_entries[j].0@ == key;
                        assert(new_entries[j] == old_entries[j]);
                    }
                    if key == k@ {
                        assert(new_entries[n].0@ == key);
                    }
                    if has_key(new_entries, key) {
                        let j = choose|j: int| 0 <= j < new_entries.len() && new_entries[j].0@ == key;
                        if j != n {
                            assert(new_entries[j] == old_entries[j]);
                        }
                    }
                }
                assert forall|key: Seq<char>| #[trigger] self@.contains_key(key) implies self@[key] == old(self)@.insert(k@, v)[key] by {
                    let j = choose|j: int| 0 <= j < new_entries.len() && new_entries[j].0@ == key;
                    lemma_entries_map_at(new_entries, j);
                    if j != n {
                        assert(new_entries[j] == old_entries[j]);
                        lemma_entries_map_at(old_entries, j);
                    }
                }
                assert(self@ =~= old(self)@.insert(k@, v));
                None
            },
        }
    }

    /// Removes the key `k`; hands back the value it held.
    pub fn remove(&mut self, k: &String) -> (r: Option<V>)
        requires
            old(self).wf(),
        ensures
            final(self).wf(),
            final(self)@ == old(self)@.remove(k@),
            match r {
                Some(w) => old(self)@.contains_key(k@) && old(self)@[k@] == w,
                None => !old(self)@.contains_key(k@),
            },
    {
        let ghost old_entries = self.entries@;
        match key_position(&self.entries, k) {
            Some(i) => {
                proof {
                    lemma_entries_map_at(old_entries, i as int);
                }
                let (_, w) = self.entries.remove(i);
                let ghost new_entries = self.entries@;
                assert(new_entries == old_entries.remove(i as int));
                assert forall|a: int, b: int|
                    0 <= a < new_entries.len() && 0 <= b < new_entries.len() && a != b
                    implies new_entries[a].0@ != new_entries[b].0@ by {
                    let a0 = if a < i { a } else { a + 1 };
                    let b0 = if b < i { b } else { b + 1 };
                    assert(new_entries[a] == old_entries[a0]);
                    assert(new_entries[b] == old_entries[b0]);
                }
                assert forall|key: Seq<char>| #[trigger] self@.contains_key(key) == old(self)@.remove(k@).contains_key(key) by {
                    if has_key(old_entries, key) && key != k@ {
                        let j = choose|j: int| 0 <= j < old_entries.len() && old_entries[j].0@ == key;
                        if j < i {
                            assert(new_entries[j] == old_entries[j]);
                        } else {
                            assert(new_entries[j - 1] == old_entries[j]);
                        }
                    }
                    if has_key(new_entries, key) {
                        let j = choose|j: int| 0 <= j < new_entries.len() && new_entries[j].0@ == key;
                        let j0 = if j < i { j } else { j + 1 };
                        assert(new_entries[j] == old_entries[j0]);
                    }
                }
                assert forall|key: Seq<char>| #[trigger] self@.contains_key(key) implies self@[key] == old(self)@.remove(k@)[key] by {
                    let j = choose|j: int| 0 <= j < new_entries.len() && new_entries[j].0@ == key;
                    let j0 = if j < i { j } else { j + 1 };
                    assert(new_entries[j] == old_entries[j0]);
                    lemma_entries_map_at(new_entries, j);
                    lemma_entries_map_at(old_entries, j0);
                }
                assert(self@ =~= old(self)@.remove(k@));
                Some(w)
            },
            None => {
                assert(self@ =~= old(self)@.remove(k@));
                None
            },
        }
    }
}

impl StringMap<StringSet> {
    /// Every set held is well formed.
    pub open spec fn sets_wf(&self) -> bool {
        forall|k: Seq<char>| #[trigger] self@.contains_key(k) ==> self@[k].wf()
    }

    /// The map with each set taken by its view.
    pub open spec fn set_view(&self) -> Map<Seq<char>, Set<Seq<char>>> {
        self@.map_values(|s: StringSet| s@)
    }

    /// The set held for `k`, empty where `k` has none.
    pub open spec fn set_at(&self, k: Seq<char>) -> Set<Seq<char>> {
        if self.set_view().contains_key(k) {
            self.set_view()[k]
        } else {
            Set::empty()
        }
    }

    /// Adds `x` to the set of `k`, making `k` hold a new set if it had none.
    pub fn add_to_set(&mut self, k: String, x: String)
        requires
            old(self).wf(),
            old(self).sets_wf(),
        ensures
            final(self).wf(),
            final(self).sets_wf(),
            final(self).set_view() == old(self).set_view().insert(k@, old(self).set_at(k@).insert(x@)),
    {
        let mut set = match self.remove(&k) {
            Some(set) => set,
            None => StringSet::new(),
        };
        set.insert(x);
        self.insert(k, set);
        assert(self.set_view() =~= old(self).set_view().insert(k@, old(self).set_at(k@).insert(x@)));
    }

    /// Removes `x` from the set of `k`; tells whether `k` had a set.
    pub fn remove_from_set(&mut self, k: &String, x: &String) -> (r: bool)
        requires
            old(self).wf(),
            old(self).sets_wf(),
        ensures
            final(self).wf(),
            final(self).sets_wf(),
            r == old(self)@.contains_key(k@),
            r ==> final(self).set_view() == old(self).set_view().insert(k@, old(self).set_at(k@).remove(x@)),
            !r ==> final(self).set_view() == old(self).set_view(),
    {
        match self.remove(k) {
            Some(set) => {
                let mut set = set;
                set.remove(x);
                self.insert(k.clone(), set);
                assert(self.set_view() =~= old(self).set_view().insert(k@, old(self).set_at(k@).remove(x@)));
                true
            },
            None => {
                assert(self.set_view() =~= old(self).set_view());
                false
            },
        }
    }

    /// Removes `x` from every set the map holds.
    pub fn remove_from_every_set(&mut self, x: &String)
        requires
            old(self).wf(),
            old(self).sets_wf(),
        ensures
            final(self).wf(),
            final(self).sets_wf(),
            final(self).set_view() == old(self).set_view().map_values(|s: Set<Seq<char>>| s.remove(x@)),
    {
        let ghost old_entries = self.entries@;
        let n = self.entries.len();
        assert forall|j: int| 0 <= j < n implies #[trigger] old_entries[j].1.wf() by {
            lemma_entries_map_at(old_entries, j);
            assert(old(self)@.contains_key(old_entries[j].0@));
        }
        let mut i: usize = 0;
        while i < n
            invariant
                n == self.entries@.len(),
                n == old_entries.len(),
                i <= n,
                distinct_keys(old_entries),
                forall|j: int| 0 <= j < n ==> #[trigger] old_entries[j].1.wf(),
                forall|j: int| 0 <= j < n ==> (#[trigger] self.entries@[j]).0 == old_entries[j].0,
                forall|j: int| 0 <= j < i ==> (#[trigger] self.entries@[j]).1.wf()
                    && self.entries@[j].1@ == old_entries[j].1@.remove(x@),
                forall|j: int| i <= j < n ==> #[trigger] self.entries@[j] == old_entries[j],
            decreases n - i,
        {
            self.entries[i].1.remove(x);
            i = i + 1;
        }
        let ghost new_entries = self.entries@;
        assert(distinct_keys(new_entries)) by {
            assert forall|a: int, b: int|
                0 <= a < new_entries.len() && 0 <= b < new_entries.len() && a != b
                implies new_entries[a].0@ != new_entries[b].0@ by {
                assert(new_entries[a].0 == old_entries[a].0);
                assert(new_entries[b].0 == old_entries[b].0);
            }
        }
        assert forall|key: Seq<char>| #[trigger] self@.contains_key(key) == old(self)@.contains_key(key) by {
            if has_key(old_entries, key) {
                let j = choose|j: int| 0 <= j < old_entries.len() && old_entries[j].0@ == key;
                assert(new_entries[j].0 == old_entries[j].0);
            }
            if has_key(new_entries, key) {
                let j = choose|j: int| 0 <= j < new_entries.len() && new_entries[j].0@ == key;
                assert(new_entries[j].0 == old_entries[j].0);
            }
        }
        assert forall|key: Seq<char>| #[trigger] self@.contains_key(key) implies self@[key].wf()
            && self@[key]@ == old(self)@[key]@.remove(x@) by {
            let j = choose|j: int| 0 <= j < new_entries.len() && new_entries[j].0@ == key;
            assert(new_entries[j].0 == old_entries[j].0);
            lemma_entries_map_at(new_entries, j);
            lemma_entries_map_at(old_entries, j);
        }
        assert(self.set_view() =~= old(self).set_view().map_values(|s: Set<Seq<char>>| s.remove(x@)));
    }
}

} // verus!
