//! A map keyed by text, kept as an association list in the order of insertion.

use crate::text::same;
use vstd::prelude::*;

verus! {

#[derive(Debug)]
pub struct NameMap<V> {
    entries: Vec<(String, V)>,
}

/// No key stands twice.
pub open spec fn keys_distinct<V>(s: Seq<(String, V)>) -> bool {
    forall|i: int, j: int|
        0 <= i < j < s.len() ==> (#[trigger] s[i]).0@ != (#[trigger] s[j]).0@
}

pub open spec fn holds_at<V>(s: Seq<(String, V)>, key: Seq<char>, i: int) -> bool {
    0 <= i < s.len() && s[i].0@ == key
}

/// The map that an association list stands for.
pub open spec fn as_map<V>(s: Seq<(String, V)>) -> Map<Seq<char>, V> {
    Map::new(
        |key: Seq<char>| exists|i: int| holds_at(s, key, i),
        |key: Seq<char>| s[choose|i: int| holds_at(s, key, i)].1,
    )
}

impl<V> View for NameMap<V> {
    type V = Map<Seq<char>, V>;

    closed spec fn view(&self) -> Map<Seq<char>, V> {
        as_map(self.entries@)
    }
}

pub proof fn lemma_entry_is_in_map<V>(s: Seq<(String, V)>, i: int)
    requires
        keys_distinct(s),
        0 <= i < s.len(),
    ensures
        as_map(s).contains_key(s[i].0@),
        as_map(s)[s[i].0@] == s[i].1,
{
    assert(holds_at(s, s[i].0@, i));
}

impl<V> NameMap<V> {
    #[verifier::type_invariant]
    spec fn distinct(self) -> bool {
        keys_distinct(self.entries@)
    }

    /// The entries in the order of their first insertion.
    pub closed spec fn listed(self) -> Seq<(String, V)> {
        self.entries@
    }

    pub fn new() -> (r: Self)
        ensures
            r@ == Map::<Seq<char>, V>::empty(),
            r.listed() == Seq::<(String, V)>::empty(),
    {
        let entries: Vec<(String, V)> = Vec::new();
        assert(as_map(entries@) =~= Map::<Seq<char>, V>::empty());
        NameMap { entries }
    }

    /// What the entries say of the map: each key once, with its value.
    pub fn entries(&self) -> (r: &Vec<(String, V)>)
        ensures
            r@ == self.listed(),
            keys_distinct(r@),
            as_map(r@) == self@,
    {
        proof {
            use_type_invariant(self);
        }
        &self.entries
    }

    /// The map whose entries these are.
    pub fn from_entries(entries: Vec<(String, V)>) -> (r: Self)
        requires
            keys_distinct(entries@),
        ensures
            r.listed() == entries@,
            r@ == as_map(entries@),
    {
        NameMap { entries }
    }

    /// Gives the entries up, leaving the map empty.
    pub fn take_entries(&mut self) -> (r: Vec<(String, V)>)
        ensures
            r@ == old(self).listed(),
            keys_distinct(r@),
            as_map(r@) == old(self)@,
            final(self)@ == Map::<Seq<char>, V>::empty(),
    {
        proof {
            use_type_invariant(&*self);
        }
        let mut entries: Vec<(String, V)> = Vec::new();
        assert(as_map(entries@) =~= Map::<Seq<char>, V>::empty());
        std::mem::swap(&mut entries, &mut self.entries);
        entries
    }

    pub fn len(&self) -> (r: usize)
        ensures
            r == self.listed().len(),
            r == self@.dom().len(),
            self@.dom().finite(),
            r == 0 <==> self@ == Map::<Seq<char>, V>::empty(),
    {
        proof {
            use_type_invariant(self);
            lemma_as_many_keys(self.entries@);
            if self.entries@.len() == 0 {
                assert(self@ =~= Map::<Seq<char>, V>::empty());
            } else {
                assert(holds_at(self.entries@, self.entries@[0].0@, 0));
                assert(self@.contains_key(self.entries@[0].0@));
            }
        }
        self.entries.len()
    }

    fn position(&self, key: &str) -> (r: Option<usize>)
        ensures
            match r {
                Some(i) => holds_at(self.entries@, key@, i as int),
                None => !self@.contains_key(key@),
            },
    {
        let mut i: usize = 0;
        while i < self.entries.len()
            invariant
                forall|j: int| 0 <= j < i ==> !holds_at(self.entries@, key@, j),
            decreases self.entries.len() - i,
        {
            if same(self.entries[i].0.as_str(), key) {
                return Some(i);
            }
            i += 1;
        }
        None
    }

    pub fn get(&self, key: &str) -> (r: Option<&V>)
        ensures
            r == (if self@.contains_key(key@) {
                Some(&self@[key@])
            } else {
                None
            }),
    {
        proof {
            use_type_invariant(self);
        }
        match self.position(key) {
            Some(i) => {
                assert(holds_at(self.entries@, key@, i as int));
                Some(&self.entries[i].1)
            },
            None => None,
        }
    }

    pub fn contains_key(&self, key: &str) -> (r: bool)
        ensures
            r == self@.contains_key(key@),
    {
        self.get(key).is_some()
    }

    /// Puts the value under the key, in place of the one that stood there.
    pub fn insert(&mut self, key: String, value: V)
        ensures
            final(self)@ == old(self)@.insert(key@, value),
    {
        proof {
            use_type_invariant(&*self);
        }
        let found = self.position(key.as_str());
        let ghost before = self.entries@;
        let mut entries: Vec<(String, V)> = Vec::new();
        std::mem::swap(&mut entries, &mut self.entries);
        match found {
            Some(i) => {
                proof {
                    lemma_updated(before, i as int, key, value);
                }
                entries.set(i, (key, value));
            },
            None => {
                entries.push((key, value));
                proof {
                    assert forall|i: int| 0 <= i < before.len() implies (#[trigger] before[i]).0@
                        != key@ by {
                        if before[i].0@ == key@ {
                            assert(holds_at(before, key@, i));
                        }
                    }
                    lemma_pushed(before, key, value);
                }
            },
        }
        self.entries = entries;
    }
}

/// The map that a row of insertions makes, a later one in place of an earlier.
pub open spec fn inserted<V>(entries: Seq<(String, V)>) -> Map<Seq<char>, V>
    decreases entries.len(),
{
    if entries.len() == 0 {
        Map::empty()
    } else {
        inserted(entries.drop_last()).insert(entries.last().0@, entries.last().1)
    }
}

impl<V> NameMap<V> {
    /// The map made of these insertions, in their order.
    pub fn from(entries: Vec<(String, V)>) -> (r: Self)
        ensures
            r@ == inserted(entries@),
    {
        let ghost all = entries@;
        let mut rest = entries;
        let mut reversed: Vec<(String, V)> = Vec::new();
        while rest.len() > 0
            invariant
                rest@ + reversed@.reverse() == all,
            decreases rest@.len(),
        {
            let ghost before = rest@;
            let ghost done = reversed@;
            if let Some(entry) = rest.pop() {
                reversed.push(entry);
                assert(rest@ + reversed@.reverse() =~= before + done.reverse());
            }
        }
        let mut out: NameMap<V> = NameMap::new();
        assert(reversed@.reverse() =~= all);
        while reversed.len() > 0
            invariant
                reversed@.len() <= all.len(),
                reversed@ == all.skip(all.len() - reversed@.len()).reverse(),
                out@ == inserted(all.take(all.len() - reversed@.len())),
            decreases reversed@.len(),
        {
            let ghost n = all.len() - reversed@.len();
            let ghost before = reversed@;
            if let Some((key, value)) = reversed.pop() {
                proof {
                    assert(before.last() == all[n]);
                    assert(all.take(n + 1).drop_last() =~= all.take(n));
                    assert(reversed@ =~= all.skip(n + 1).reverse());
                }
                out.insert(key, value);
            }
        }
        assert(all.take(all.len() as int) =~= all);
        out
    }

    /// Takes the value out from under the key.
    pub fn take(&mut self, key: &str) -> (r: Option<V>)
        ensures
            r == (if old(self)@.contains_key(key@) {
                Some(old(self)@[key@])
            } else {
                None
            }),
            final(self)@ == old(self)@.remove(key@),
    {
        proof {
            use_type_invariant(&*self);
        }
        let ghost before = self.entries@;
        match self.position(key) {
            Some(i) => {
                let mut entries = self.take_entries();
                let (_, value) = entries.remove(i);
                proof {
                    lemma_entry_is_in_map(before, i as int);
                    lemma_removed(before, i as int);
                }
                self.entries = entries;
                Some(value)
            },
            None => {
                assert(self@ =~= self@.remove(key@));
                None
            },
        }
    }
}

impl<V> Default for NameMap<V> {
    fn default() -> (r: Self)
        ensures
            r@ == Map::<Seq<char>, V>::empty(),
    {
        NameMap::new()
    }
}

impl<V: Clone> Clone for NameMap<V> {
    fn clone(&self) -> (r: Self)
        ensures
            r@.dom() == self@.dom(),
            forall|key: Seq<char>| #[trigger]
                self@.contains_key(key) ==> cloned::<V>(self@[key], r@[key]),
    {
        proof {
            use_type_invariant(self);
        }
        let mut entries: Vec<(String, V)> = Vec::new();
        let mut i: usize = 0;
        while i < self.entries.len()
            invariant
                i <= self.entries@.len(),
                entries@.len() == i,
                forall|j: int|
                    0 <= j < i ==> (#[trigger] entries@[j]).0 == self.entries@[j].0 && cloned::<V>(
                        self.entries@[j].1,
                        entries@[j].1,
                    ),
            decreases self.entries@.len() - i,
        {
            entries.push((self.entries[i].0.clone(), self.entries[i].1.clone()));
            i += 1;
        }
        assert(keys_distinct(entries@));
        let r = NameMap { entries };
        proof {
            let mine = self.entries@;
            let theirs = r.entries@;
            assert forall|key: Seq<char>| self@.contains_key(key) == r@.contains_key(key) by {
                if self@.contains_key(key) {
                    let j = choose|j: int| holds_at(mine, key, j);
                    assert(holds_at(theirs, key, j));
                }
                if r@.contains_key(key) {
                    let j = choose|j: int| holds_at(theirs, key, j);
                    assert(holds_at(mine, key, j));
                }
            }
            assert forall|key: Seq<char>| #[trigger] self@.contains_key(key) implies cloned::<V>(
                self@[key],
                r@[key],
            ) by {
                let j = choose|j: int| holds_at(mine, key, j);
                lemma_entry_is_in_map(mine, j);
                lemma_entry_is_in_map(theirs, j);
            }
            assert(r@.dom() =~= self@.dom());
        }
        r
    }
}

/// A map has as many keys as the association list that it stands for has
/// entries.
proof fn lemma_as_many_keys<V>(s: Seq<(String, V)>)
    requires
        keys_distinct(s),
    ensures
        as_map(s).dom().finite(),
        as_map(s).dom().len() == s.len(),
{
    let keys = s.map_values(|e: (String, V)| e.0@);
    assert(keys.no_duplicates()) by {
        assert forall|i: int, j: int| 0 <= i < keys.len() && 0 <= j < keys.len() && i
            != j implies keys[i] != keys[j] by {
            if i < j {
                assert(s[i].0@ != s[j].0@);
            } else {
                assert(s[j].0@ != s[i].0@);
            }
        }
    }
    keys.unique_seq_to_set();
    assert(as_map(s).dom() =~= keys.to_set()) by {
        assert forall|k: Seq<char>| as_map(s).contains_key(k) == keys.to_set().contains(k) by {
            if as_map(s).contains_key(k) {
                let w = choose|w: int| holds_at(s, k, w);
                assert(keys[w] == k);
            }
            if keys.contains(k) {
                let w = choose|w: int| 0 <= w < keys.len() && keys[w] == k;
                assert(holds_at(s, k, w));
            }
        }
    }
}

/// An association list changes at a key as the map it stands for does.
proof fn lemma_updated<V>(before: Seq<(String, V)>, i: int, key: String, value: V)
    requires
        keys_distinct(before),
        holds_at(before, key@, i),
    ensures
        keys_distinct(before.update(i, (key, value))),
        as_map(before.update(i, (key, value))) == as_map(before).insert(key@, value),
{
    let after = before.update(i, (key, value));
    assert(keys_distinct(after));
    assert forall|k: Seq<char>|
        as_map(after).contains_key(k) == as_map(before).insert(key@, value).contains_key(k) by {
        if as_map(after).contains_key(k) {
            let w = choose|w: int| holds_at(after, k, w);
            assert(holds_at(before, k, w));
        }
        if as_map(before).contains_key(k) {
            let w = choose|w: int| holds_at(before, k, w);
            assert(holds_at(after, k, w));
        }
        if k == key@ {
            assert(holds_at(after, k, i));
        }
    }
    assert forall|k: Seq<char>| #[trigger] as_map(after).contains_key(k) implies as_map(after)[k]
        == as_map(before).insert(key@, value)[k] by {
        let w = choose|w: int| holds_at(after, k, w);
        lemma_entry_is_in_map(after, w);
        lemma_entry_is_in_map(before, w);
    }
    assert(as_map(after) =~= as_map(before).insert(key@, value));
}

/// An association list loses a key as the map it stands for does.
proof fn lemma_removed<V>(before: Seq<(String, V)>, i: int)
    requires
        keys_distinct(before),
        0 <= i < before.len(),
    ensures
        keys_distinct(before.remove(i)),
        as_map(before.remove(i)) == as_map(before).remove(before[i].0@),
{
    let after = before.remove(i);
    let gone = before[i].0@;
    assert forall|k: Seq<char>|
        as_map(after).contains_key(k) == as_map(before).remove(gone).contains_key(k) by {
        if as_map(after).contains_key(k) {
            let w = choose|w: int| holds_at(after, k, w);
            assert(holds_at(before, k, if w < i { w } else { w + 1 }));
        }
        if as_map(before).remove(gone).contains_key(k) {
            let w = choose|w: int| holds_at(before, k, w);
            assert(holds_at(after, k, if w < i { w } else { w - 1 }));
        }
    }
    assert forall|k: Seq<char>| #[trigger] as_map(after).contains_key(k) implies as_map(after)[k]
        == as_map(before)[k] by {
        let w = choose|w: int| holds_at(after, k, w);
        lemma_entry_is_in_map(after, w);
        lemma_entry_is_in_map(before, if w < i { w } else { w + 1 });
    }
    assert(as_map(after) =~= as_map(before).remove(gone));
}

/// An association list grows by a new key as the map it stands for does.
pub proof fn lemma_pushed<V>(before: Seq<(String, V)>, key: String, value: V)
    requires
        keys_distinct(before),
        !as_map(before).contains_key(key@),
    ensures
        keys_distinct(before.push((key, value))),
        as_map(before.push((key, value))) == as_map(before).insert(key@, value),
{
    let after = before.push((key, value));
    assert forall|i: int| 0 <= i < before.len() implies (#[trigger] before[i]).0@ != key@ by {
        if before[i].0@ == key@ {
            assert(holds_at(before, key@, i));
        }
    }
    assert forall|k: Seq<char>|
        as_map(before).insert(key@, value).contains_key(k) == as_map(after).contains_key(k) by {
        if as_map(before).contains_key(k) {
            let w = choose|w: int| holds_at(before, k, w);
            assert(holds_at(after, k, w));
        }
        if k == key@ {
            assert(holds_at(after, k, before.len() as int));
        }
        if as_map(after).contains_key(k) {
            let w = choose|w: int| holds_at(after, k, w);
            if w < before.len() {
                assert(holds_at(before, k, w));
            }
        }
    }
    assert(as_map(after) =~= as_map(before).insert(key@, value));
}

} // verus!
