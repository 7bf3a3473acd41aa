//! Values under text keys.
//!
//! A [`Keyed`] list holds each key at most once and is modelled by the map from
//! the text of a key to its value.

use vstd::prelude::*;

use crate::text::{list_contains, same};
use crate::views::views;

verus! {

/// Whether no two entries share a key.
pub open spec fn keys_distinct<T>(entries: Seq<(String, T)>) -> bool {
    forall|i: int, j: int|
        0 <= i < j < entries.len() ==> (#[trigger] entries[i]).0@ != (#[trigger] entries[j]).0@
}

/// Whether an entry has the key `key`.
pub open spec fn has_key<T>(entries: Seq<(String, T)>, key: Seq<char>) -> bool {
    exists|i: int| 0 <= i < entries.len() && (#[trigger] entries[i]).0@ == key
}

/// Where the entry with the key `key` stands.
pub open spec fn place_of<T>(entries: Seq<(String, T)>, key: Seq<char>) -> int {
    choose|i: int| 0 <= i < entries.len() && (#[trigger] entries[i]).0@ == key
}

/// The map that a list of entries is.
pub open spec fn entries_map<T>(entries: Seq<(String, T)>) -> Map<Seq<char>, T> {
    Map::new(|key: Seq<char>| has_key(entries, key), |key: Seq<char>| entries[place_of(entries, key)].1)
}

/// The values whose keys are in the list.
pub open spec fn kept_in<T>(m: Map<Seq<char>, T>, keys: Seq<Seq<char>>) -> Map<Seq<char>, T> {
    Map::new(|key: Seq<char>| m.contains_key(key) && keys.contains(key), |key: Seq<char>| m[key])
}

/// Values under text keys, each key at most once.
#[derive(Debug)]
pub struct Keyed<T> {
    entries: Vec<(String, T)>,
}

impl<T> View for Keyed<T> {
    type V = Map<Seq<char>, T>;

    closed spec fn view(&self) -> Map<Seq<char>, T> {
        entries_map(self.entries@)
    }
}

proof fn lemma_entry<T>(entries: Seq<(String, T)>, i: int)
    requires
        keys_distinct(entries),
        0 <= i < entries.len(),
    ensures
        entries_map(entries).contains_key(entries[i].0@),
        entries_map(entries)[entries[i].0@] == entries[i].1,
        place_of(entries, entries[i].0@) == i,
{
    let key = entries[i].0@;
    assert(has_key(entries, key));
    let p = place_of(entries, key);
    assert(0 <= p < entries.len() && entries[p].0@ == key);
}

proof fn lemma_push<T>(entries: Seq<(String, T)>, key: String, value: T)
    requires
        keys_distinct(entries),
        !has_key(entries, key@),
    ensures
        keys_distinct(entries.push((key, value))),
        entries_map(entries.push((key, value))) == entries_map(entries).insert(key@, value),
{
    let after = entries.push((key, value));
    assert(keys_distinct(after)) by {
        assert forall|i: int, j: int| 0 <= i < j < after.len() implies (#[trigger] after[i]).0@ != (
        #[trigger] after[j]).0@ by {
            if j == entries.len() {
                assert(after[i] == entries[i]);
            }
        }
    }
    let want = entries_map(entries).insert(key@, value);
    assert forall|k: Seq<char>| #[trigger] entries_map(after).contains_key(k) <==> want.contains_key(
        k,
    ) by {
        if has_key(after, k) {
            let i = place_of(after, k);
            if i < entries.len() {
                assert(entries[i].0@ == k);
            }
        }
        if has_key(entries, k) {
            let i = place_of(entries, k);
            assert(after[i].0@ == k);
        }
        assert(after[entries.len() as int].0@ == key@);
    }
    assert forall|k: Seq<char>| entries_map(after).contains_key(k) implies #[trigger] entries_map(
        after,
    )[k] == want[k] by {
        let i = place_of(after, k);
        lemma_entry(after, i);
        if i < entries.len() {
            lemma_entry(entries, i);
        }
    }
    assert(entries_map(after) =~= want);
}

proof fn lemma_update<T>(entries: Seq<(String, T)>, i: int, value: T)
    requires
        keys_distinct(entries),
        0 <= i < entries.len(),
    ensures
        keys_distinct(entries.update(i, (entries[i].0, value))),
        entries_map(entries.update(i, (entries[i].0, value))) == entries_map(entries).insert(
            entries[i].0@,
            value,
        ),
{
    let after = entries.update(i, (entries[i].0, value));
    let want = entries_map(entries).insert(entries[i].0@, value);
    lemma_entry(entries, i);
    assert forall|k: Seq<char>| #[trigger] entries_map(after).contains_key(k) <==> want.contains_key(
        k,
    ) by {
        if has_key(after, k) {
            let j = place_of(after, k);
            assert(entries[j].0@ == k);
        }
        if has_key(entries, k) {
            let j = place_of(entries, k);
            assert(after[j].0@ == k);
        }
    }
    assert forall|k: Seq<char>| entries_map(after).contains_key(k) implies #[trigger] entries_map(
        after,
    )[k] == want[k] by {
        let j = place_of(after, k);
        lemma_entry(after, j);
        lemma_entry(entries, j);
    }
    assert(entries_map(after) =~= want);
}

proof fn lemma_remove<T>(entries: Seq<(String, T)>, i: int)
    requires
        keys_distinct(entries),
        0 <= i < entries.len(),
    ensures
        keys_distinct(entries.remove(i)),
        entries_map(entries.remove(i)) == entries_map(entries).remove(entries[i].0@),
{
    let after = entries.remove(i);
    let key = entries[i].0@;
    let want = entries_map(entries).remove(key);
    assert(keys_distinct(after)) by {
        assert forall|a: int, b: int| 0 <= a < b < after.len() implies (#[trigger] after[a]).0@ != (
        #[trigger] after[b]).0@ by {
            let x = if a < i {
                a
            } else {
                a + 1
            };
            let y = if b < i {
                b
            } else {
                b + 1
            };
            assert(after[a] == entries[x] && after[b] == entries[y]);
        }
    }
    assert forall|k: Seq<char>| #[trigger] entries_map(after).contains_key(k) <==> want.contains_key(
        k,
    ) by {
        if has_key(after, k) {
            let j = place_of(after, k);
            let y = if j < i {
                j
            } else {
                j + 1
            };
            assert(after[j] == entries[y]);
            assert(entries[y].0@ == k);
            assert(entries[i].0@ != entries[y].0@);
        }
        if has_key(entries, k) && k != key {
            let j = place_of(entries, k);
            let y = if j < i {
                j
            } else {
                j - 1
            };
            assert(after[y] == entries[j]);
        }
    }
    assert forall|k: Seq<char>| entries_map(after).contains_key(k) implies #[trigger] entries_map(
        after,
    )[k] == want[k] by {
        let j = place_of(after, k);
        let y = if j < i {
            j
        } else {
            j + 1
        };
        assert(after[j] == entries[y]);
        lemma_entry(after, j);
        lemma_entry(entries, y);
    }
    assert(entries_map(after) =~= want);
}

impl<T> Keyed<T> {
    /// Each key stands for one value.
    pub closed spec fn wf(&self) -> bool {
        keys_distinct(self.entries@)
    }

    /// The keys in the order in which they are held.
    pub closed spec fn order(&self) -> Seq<Seq<char>> {
        Seq::new(self.entries@.len(), |i: int| self.entries@[i].0@)
    }

    /// Nothing.
    pub fn new() -> (r: Keyed<T>)
        ensures
            r.wf(),
            r@ == Map::<Seq<char>, T>::empty(),
            r.order() == Seq::<Seq<char>>::empty(),
    {
        let r = Keyed { entries: Vec::new() };
        proof {
            assert(r@ =~= Map::<Seq<char>, T>::empty());
            assert(r.order() =~= Seq::<Seq<char>>::empty());
        }
        r
    }

    /// How many keys there are. The keys in order are those of the map, each once.
    pub fn len(&self) -> (r: usize)
        requires
            self.wf(),
        ensures
            r == self.order().len(),
            self.order().no_duplicates(),
            forall|k: Seq<char>| #[trigger] self@.contains_key(k) <==> self.order().contains(k),
    {
        proof {
            assert forall|k: Seq<char>| #[trigger] self@.contains_key(k) <==> self.order().contains(
                k,
            ) by {
                if has_key(self.entries@, k) {
                    let i = place_of(self.entries@, k);
                    assert(self.order()[i] == k);
                }
                if self.order().contains(k) {
                    let i = choose|i: int| 0 <= i < self.order().len() && self.order()[i] == k;
                    assert(self.entries@[i].0@ == k);
                }
            }
        }
        self.entries.len()
    }

    /// Where a key stands.
    fn find(&self, key: &str) -> (r: Option<usize>)
        ensures
            match r {
                Some(i) => i < self.entries@.len() && self.entries@[i as int].0@ == key@,
                None => !has_key(self.entries@, key@),
            },
    {
        let mut i: usize = 0;
        while i < self.entries.len()
            invariant
                i <= self.entries@.len(),
                forall|k: int| 0 <= k < i ==> (#[trigger] self.entries@[k]).0@ != key@,
            decreases self.entries@.len() - i,
        {
            if same(self.entries[i].0.as_str(), key) {
                return Some(i);
            }
            i = i + 1;
        }
        None
    }

    /// Whether there is a value under `key`.
    pub fn contains_key(&self, key: &str) -> (r: bool)
        requires
            self.wf(),
        ensures
            r == self@.contains_key(key@),
    {
        match self.find(key) {
            Some(i) => {
                proof {
                            lemma_entry(self.entries@, i as int);
                }
                true
            },
            None => false,
        }
    }

    /// The value under `key`.
    pub fn get(&self, key: &str) -> (r: Option<&T>)
        requires
            self.wf(),
        ensures
            match r {
                Some(value) => self@.contains_key(key@) && self@[key@] == *value,
                None => !self@.contains_key(key@),
            },
    {
        match self.find(key) {
            Some(i) => {
                proof {
                            lemma_entry(self.entries@, i as int);
                }
                Some(&self.entries[i].1)
            },
            None => None,
        }
    }

    /// The key at a place in the order.
    pub fn key_at(&self, i: usize) -> (r: &String)
        requires
            self.wf(),
            i < self.order().len(),
        ensures
            r@ == self.order()[i as int],
            self@.contains_key(r@),
    {
        proof {
            lemma_entry(self.entries@, i as int);
        }
        &self.entries[i].0
    }

    /// The value at a place in the order.
    pub fn value_at(&self, i: usize) -> (r: &T)
        requires
            self.wf(),
            i < self.order().len(),
        ensures
            self@.contains_key(self.order()[i as int]),
            *r == self@[self.order()[i as int]],
    {
        proof {
            lemma_entry(self.entries@, i as int);
        }
        &self.entries[i].1
    }

    /// Takes the value under `key` out.
    pub fn remove(&mut self, key: &str) -> (r: Option<T>)
        requires
            old(self).wf(),
        ensures
            final(self).wf(),
            final(self)@ == old(self)@.remove(key@),
            match r {
                Some(value) => old(self)@.contains_key(key@) && old(self)@[key@] == value,
                None => !old(self)@.contains_key(key@),
            },
            final(self).order().len() <= old(self).order().len(),
            r is Some ==> final(self).order().len() < old(self).order().len(),
    {
        let ghost before = self.entries@;
        match self.find(key) {
            Some(i) => {
                proof {
                    lemma_entry(before, i as int);
                    lemma_remove(before, i as int);
                }
                let entry = self.entries.remove(i);
                Some(entry.1)
            },
            None => {
                proof {
                    assert(old(self)@.remove(key@) =~= old(self)@);
                }
                None
            },
        }
    }

    /// Puts a value under `key`, in the place of the one that was there.
    pub fn insert(&mut self, key: String, value: T)
        requires
            old(self).wf(),
        ensures
            final(self).wf(),
            final(self)@ == old(self)@.insert(key@, value),
            !old(self)@.contains_key(key@) ==> final(self).order() == old(self).order().push(key@),
    {
        let ghost before = self.entries@;
        let found = self.find(key.as_str());
        match found {
            Some(i) => {
                proof {
                    lemma_entry(before, i as int);
                    lemma_remove(before, i as int);
                    lemma_push(before.remove(i as int), key, value);
                    assert(entries_map(before).remove(key@).insert(key@, value) =~= entries_map(
                        before,
                    ).insert(key@, value));
                    assert(!entries_map(before.remove(i as int)).contains_key(key@));
                }
                let _ = self.entries.remove(i);
                self.entries.push((key, value));
            },
            None => {
                proof {
                    lemma_push(before, key, value);
                }
                self.entries.push((key, value));
                proof {
                    assert(self.order() =~= old(self).order().push(key@));
                }
            },
        }
    }

    /// The value under `key`, to change.
    pub fn get_mut(&mut self, key: &str) -> (r: Option<&mut T>)
        requires
            old(self).wf(),
        ensures
            final(self).wf(),
            match r {
                Some(value) => {
                    &&& old(self)@.contains_key(key@)
                    &&& *value == old(self)@[key@]
                    &&& final(self)@ == old(self)@.insert(key@, *final(value))
                    &&& final(self).order() == old(self).order()
                },
                None => !old(self)@.contains_key(key@) && *final(self) == *old(self),
            },
    {
        let ghost before = self.entries@;
        match self.find(key) {
            Some(i) => {
                proof {
                    lemma_entry(before, i as int);
                    assert forall|value: T| #[trigger] entries_map(
                        before.update(i as int, (before[i as int].0, value)),
                    ) == entries_map(before).insert(key@, value) && keys_distinct(
                        before.update(i as int, (before[i as int].0, value)),
                    ) by {
                        lemma_update(before, i as int, value);
                    }
                }
                let entry: &mut (String, T) = &mut self.entries[i];
                Some(&mut entry.1)
            },
            None => None,
        }
    }

    /// Keeps the values whose keys are in the list.
    pub fn retain_in(&mut self, keys: &Vec<String>)
        requires
            old(self).wf(),
        ensures
            final(self).wf(),
            final(self)@ == kept_in(old(self)@, views(keys@)),
    {
        let ghost all = self.entries@;
        let mut kept: Keyed<T> = Keyed::new();
        let n: usize = self.entries.len();
        let mut i: usize = 0;
        proof {
            assert(self.entries@ =~= all.skip(0));
            assert(kept@ =~= kept_in(entries_map(all.take(0)), views(keys@)));
        }
        while i < n
            invariant
                i <= n == all.len(),
                keys_distinct(all),
                self.entries@ == all.skip(i as int),
                kept.wf(),
                kept@ == kept_in(entries_map(all.take(i as int)), views(keys@)),
            decreases n - i,
        {
            let ghost front = all.take(i as int);
            let entry = self.entries.remove(0);
            proof {
                assert(entry == all[i as int]);
                assert(self.entries@ =~= all.skip(i + 1));
                assert(all.take(i + 1) =~= front.push(entry));
                assert(keys_distinct(front)) by {
                    assert forall|a: int, b: int| 0 <= a < b < front.len() implies (
                    #[trigger] front[a]).0@ != (#[trigger] front[b]).0@ by {
                        assert(front[a] == all[a] && front[b] == all[b]);
                    }
                }
                assert(!has_key(front, entry.0@)) by {
                    if has_key(front, entry.0@) {
                        let p = choose|p: int|
                            0 <= p < front.len() && (#[trigger] front[p]).0@ == entry.0@;
                        assert(all[p].0@ == all[i as int].0@);
                    }
                }
                lemma_push(front, entry.0, entry.1);
            }
            let ghost before = kept@;
            let ghost (key, value) = entry;
            let (name, held) = entry;
            if list_contains(keys, name.as_str()) {
                kept.insert(name, held);
            }
            proof {
                assert(kept@ =~= kept_in(
                    entries_map(front).insert(key@, value),
                    views(keys@),
                ));
            }
            i = i + 1;
        }
        proof {
            assert(all.take(i as int) =~= all);
        }
        *self = kept;
    }

    /// Takes everything out.
    pub fn clear(&mut self)
        ensures
            final(self).wf(),
            final(self)@ == Map::<Seq<char>, T>::empty(),
    {
        self.entries.clear();
        proof {
            assert(self@ =~= Map::<Seq<char>, T>::empty());
        }
    }
}

/// Texts under text keys.
#[derive(Clone, Debug, PartialEq)]
pub struct TextMap {
    /// The entries in the order in which they were put; a later one under the
    /// same key takes the place of an earlier one.
    pub entries: Vec<(String, String)>,
}

/// The texts of a list of entries, later ones in the place of earlier ones.
pub open spec fn text_map(entries: Seq<(String, String)>) -> Map<Seq<char>, Seq<char>>
    decreases entries.len(),
{
    if entries.len() == 0 {
        Map::empty()
    } else {
        text_map(entries.drop_last()).insert(entries.last().0@, entries.last().1@)
    }
}

impl View for TextMap {
    type V = Map<Seq<char>, Seq<char>>;

    open spec fn view(&self) -> Map<Seq<char>, Seq<char>> {
        text_map(self.entries@)
    }
}

impl TextMap {
    /// Nothing.
    pub fn new() -> (r: TextMap)
        ensures
            r@ == Map::<Seq<char>, Seq<char>>::empty(),
    {
        TextMap { entries: Vec::new() }
    }

    /// Puts a text under a key.
    pub fn insert(&mut self, key: String, value: String)
        ensures
            final(self)@ == old(self)@.insert(key@, value@),
    {
        let ghost before = self.entries@;
        self.entries.push((key, value));
        proof {
            assert(self.entries@.drop_last() =~= before);
        }
    }

    /// The text under a key.
    pub fn get(&self, key: &str) -> (r: Option<&str>)
        ensures
            match r {
                Some(value) => self@.contains_key(key@) && self@[key@] == value@,
                None => !self@.contains_key(key@),
            },
    {
        let mut i: usize = self.entries.len();
        proof {
            assert(self.entries@.take(i as int) =~= self.entries@);
        }
        while i > 0
            invariant
                i <= self.entries@.len(),
                self@.contains_key(key@) == text_map(self.entries@.take(i as int)).contains_key(
                    key@,
                ),
                self@.contains_key(key@) ==> self@[key@] == text_map(
                    self.entries@.take(i as int),
                )[key@],
            decreases i,
        {
            proof {
                assert(self.entries@.take(i as int).drop_last() =~= self.entries@.take(i - 1));
                assert(self.entries@.take(i as int).last() == self.entries@[i - 1]);
            }
            i = i - 1;
            if same(self.entries[i].0.as_str(), key) {
                return Some(self.entries[i].1.as_str());
            }
        }
        proof {
            assert(self.entries@.take(0) =~= Seq::empty());
        }
        None
    }
}

} // verus!
