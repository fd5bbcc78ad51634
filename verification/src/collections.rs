//! Small collections keyed by strings and by package numbers.

use vstd::prelude::*;

use crate::text::{
    compare, lemma_lex_less_asymmetric, lemma_lex_less_transitive, lex_less, str_equal, Rank,
};

verus! {

/// The character sequences of a sequence of strings.
pub open spec fn views(items: Seq<String>) -> Seq<Seq<char>> {
    items.map_values(|s: String| s@)
}

/// A sequence with one more item holds the items it held and that item.
pub proof fn lemma_push_to_set<A>(s: Seq<A>, item: A)
    ensures
        s.push(item).to_set() == s.to_set().insert(item),
        forall|x: A| #[trigger] s.push(item).contains(x) <==> (s.contains(x) || x == item),
{
    let longer = s.push(item);
    assert forall|x: A| #[trigger] longer.contains(x) <==> (s.contains(x) || x == item) by {
        if longer.contains(x) {
            let q = choose|q: int| 0 <= q < longer.len() && longer[q] == x;
            if q < s.len() {
                assert(s[q] == x);
            }
        }
        if s.contains(x) {
            let q = choose|q: int| 0 <= q < s.len() && s[q] == x;
            assert(longer[q] == x);
        }
        if x == item {
            assert(longer[s.len() as int] == x);
        }
    }
    assert(longer.to_set() =~= s.to_set().insert(item));
}

/// The first `i + 1` items of a sequence are its first `i` items and the item
/// at place `i`.
pub proof fn lemma_take_one_more<A>(s: Seq<A>, i: int)
    requires
        0 <= i < s.len(),
    ensures
        s.take(i + 1) == s.take(i).push(s[i]),
        s.take(i + 1).to_set() == s.take(i).to_set().insert(s[i]),
        forall|x: A| #[trigger] s.take(i + 1).contains(x) <==> (s.take(i).contains(x) || x == s[i]),
{
    assert(s.take(i + 1) =~= s.take(i).push(s[i]));
    lemma_push_to_set(s.take(i), s[i]);
}

/// Every element comes before all later ones in lexicographic order.
pub open spec fn increasing(s: Seq<Seq<char>>) -> bool {
    forall|i: int, j: int| 0 <= i < j < s.len() ==> lex_less(#[trigger] s[i], #[trigger] s[j])
}

/// A set of strings, kept in increasing lexicographic order.
#[derive(Debug)]
pub struct StrSet {
    items: Vec<String>,
}

impl View for StrSet {
    type V = Set<Seq<char>>;

    /// The strings that the set holds.
    open spec fn view(&self) -> Set<Seq<char>> {
        self.ordered().to_set()
    }
}

impl StrSet {
    /// The strings of the set in the order in which they are kept.
    pub closed spec fn ordered(self) -> Seq<Seq<char>> {
        views(self.items@)
    }

    /// The strings are kept in increasing order.
    #[verifier::type_invariant]
    pub closed spec fn wf(self) -> bool {
        increasing(views(self.items@))
    }

    /// A well-formed set lists its strings in increasing order, each once.
    pub proof fn lemma_ordered(self)
        requires
            self.wf(),
        ensures
            increasing(self.ordered()),
            self.ordered().no_duplicates(),
            self@.finite(),
            self@.len() == self.ordered().len(),
    {
        let s = self.ordered();
        assert forall|i: int, j: int| 0 <= i < s.len() && 0 <= j < s.len() && i != j implies s[i]
            != s[j] by {
            if i < j {
                lemma_lex_less_asymmetric(s[i], s[j]);
            } else {
                lemma_lex_less_asymmetric(s[j], s[i]);
            }
        }
        s.unique_seq_to_set();
    }

    /// The empty set.
    pub fn new() -> (set: StrSet)
        ensures
            set@ == Set::<Seq<char>>::empty(),
            set.ordered() == Seq::<Seq<char>>::empty(),
    {
        let set = StrSet { items: Vec::new() };
        assert(set.ordered() =~= Seq::<Seq<char>>::empty());
        assert(set@ =~= Set::<Seq<char>>::empty());
        set
    }

    /// The number of strings in the set.
    pub fn len(&self) -> (n: usize)
        ensures
            n == self.ordered().len(),
    {
        self.items.len()
    }

    /// Whether the set holds no string.
    pub fn is_empty(&self) -> (empty: bool)
        ensures
            empty == (self.ordered().len() == 0),
            empty == (self@ == Set::<Seq<char>>::empty()),
    {
        let empty = self.items.len() == 0;
        proof {
            if empty {
                assert(self@ =~= Set::<Seq<char>>::empty());
            } else {
                assert(self.ordered()[0] == self.ordered()[0]);
                assert(self@.contains(self.ordered()[0]));
            }
        }
        empty
    }

    /// The string at place `i` of the order.
    pub fn get(&self, i: usize) -> (name: &String)
        requires
            i < self.ordered().len(),
        ensures
            name@ == self.ordered()[i as int],
    {
        &self.items[i]
    }

    /// Whether the set holds `name`.
    pub fn contains(&self, name: &str) -> (found: bool)
        ensures
            found == self@.contains(name@),
    {
        let mut i: usize = 0;
        while i < self.items.len()
            invariant
                i <= self.items.len(),
                forall|j: int| 0 <= j < i ==> (#[trigger] self.ordered()[j]) != name@,
            decreases self.items.len() - i,
        {
            if str_equal(self.items[i].as_str(), name) {
                assert(self.ordered()[i as int] == name@);
                return true;
            }
            i += 1;
        }
        false
    }

    /// Adds `name` to the set; says whether it was new.
    pub fn insert(&mut self, name: String) -> (added: bool)
        ensures
            final(self)@ == old(self)@.insert(name@),
            added == !old(self)@.contains(name@),
    {
        proof {
            use_type_invariant(&*self);
        }
        let mut items: Vec<String> = Vec::new();
        std::mem::swap(&mut items, &mut self.items);
        let ghost before = views(items@);
        assert(before == old(self).ordered());
        let mut i: usize = 0;
        let mut found: bool = false;
        while i < items.len()
            invariant_except_break
                !found,
                forall|j: int| 0 <= j < i ==> lex_less(#[trigger] before[j], name@),
            invariant
                i <= items.len(),
                views(items@) == before,
                increasing(before),
            ensures
                i <= items.len(),
                views(items@) == before,
                found ==> i < before.len() && before[i as int] == name@,
                !found ==> forall|j: int| 0 <= j < i ==> lex_less(#[trigger] before[j], name@),
                !found ==> forall|j: int| i <= j < before.len() ==> lex_less(name@, #[trigger] before[j]),
            decreases items.len() - i,
        {
            let rank = compare(items[i].as_str(), name.as_str());
            assert(before[i as int] == items@[i as int]@);
            match rank {
                Rank::Before => {},
                Rank::Same => {
                    found = true;
                    break;
                },
                Rank::After => {
                    assert forall|j: int| i <= j < before.len() implies lex_less(
                        name@,
                        #[trigger] before[j],
                    ) by {
                        if i < j {
                            lemma_lex_less_transitive(name@, before[i as int], before[j]);
                        }
                    }
                    break;
                },
            }
            i += 1;
        }
        if found {
            self.items = items;
            assert(old(self)@.contains(name@));
            assert(old(self)@.insert(name@) =~= old(self)@);
            false
        } else {
            proof {
                assert forall|j: int| 0 <= j < before.len() implies before[j] != name@ by {
                    if j < i {
                        lemma_lex_less_asymmetric(before[j], name@);
                    } else {
                        lemma_lex_less_asymmetric(name@, before[j]);
                    }
                }
            }
            let ghost key = name@;
            items.insert(i, name);
            let ghost after = views(items@);
            assert(after =~= before.insert(i as int, key));
            assert forall|a: int, b: int| 0 <= a < b < after.len() implies lex_less(
                #[trigger] after[a],
                #[trigger] after[b],
            ) by {
                if a < i && b > i {
                    assert(after[a] == before[a]);
                    assert(after[b] == before[b - 1]);
                } else if a == i {
                    assert(after[b] == before[b - 1]);
                } else if b == i {
                    assert(after[a] == before[a]);
                } else if b < i {
                    assert(after[a] == before[a] && after[b] == before[b]);
                } else {
                    assert(after[a] == before[a - 1] && after[b] == before[b - 1]);
                }
            }
            self.items = items;
            assert(final(self).ordered() == after);
            assert(final(self)@ =~= old(self)@.insert(key)) by {
                assert forall|x: Seq<char>| after.contains(x) <==> (before.contains(x) || x
                    == key) by {
                    if after.contains(x) {
                        let p = choose|p: int| 0 <= p < after.len() && after[p] == x;
                        if p < i {
                            assert(before[p] == x);
                        } else if p > i {
                            assert(before[p - 1] == x);
                        }
                    }
                    if before.contains(x) {
                        let p = choose|p: int| 0 <= p < before.len() && before[p] == x;
                        if p < i {
                            assert(after[p] == x);
                        } else {
                            assert(after[p + 1] == x);
                        }
                    }
                    if x == key {
                        assert(after[i as int] == x);
                    }
                }
            }
            true
        }
    }
}

impl Clone for StrSet {
    /// A set with the same strings.
    fn clone(&self) -> (copy: StrSet)
        ensures
            copy.ordered() == self.ordered(),
            copy@ == self@,
    {
        proof {
            use_type_invariant(self);
        }
        let mut items: Vec<String> = Vec::new();
        let mut i: usize = 0;
        while i < self.items.len()
            invariant
                i <= self.items.len(),
                views(items@) == views(self.items@).take(i as int),
            decreases self.items.len() - i,
        {
            let ghost earlier = views(items@);
            items.push(self.items[i].clone());
            assert(views(items@) =~= earlier.push(self.items[i as int]@));
            assert(views(self.items@).take(i + 1) =~= views(self.items@).take(i as int).push(
                self.items[i as int]@,
            ));
            i += 1;
        }
        assert(views(self.items@).take(self.items.len() as int) =~= views(self.items@));
        StrSet { items }
    }
}

/// The map that pairs each key with the value at the same place.
pub open spec fn assoc<K, V>(keys: Seq<K>, values: Seq<V>) -> Map<K, V> {
    Map::new(|k: K| keys.contains(k), |k: K| values[keys.index_of(k)])
}

/// In a list of distinct keys, the key at place `i` is paired with the value
/// at place `i`.
pub proof fn lemma_assoc_at<K, V>(keys: Seq<K>, values: Seq<V>, i: int)
    requires
        keys.no_duplicates(),
        0 <= i < keys.len(),
    ensures
        assoc(keys, values).contains_key(keys[i]),
        assoc(keys, values)[keys[i]] == values[i],
        keys.index_of(keys[i]) == i,
{
    assert(keys.contains(keys[i]));
}

/// Putting a new key and its value at place `i` adds that pair to the map.
pub proof fn lemma_assoc_insert<K, V>(keys: Seq<K>, values: Seq<V>, i: int, k: K, v: V)
    requires
        keys.no_duplicates(),
        keys.len() == values.len(),
        0 <= i <= keys.len(),
        !keys.contains(k),
    ensures
        keys.insert(i, k).no_duplicates(),
        assoc(keys.insert(i, k), values.insert(i, v)) == assoc(keys, values).insert(k, v),
{
    let keys2 = keys.insert(i, k);
    let values2 = values.insert(i, v);
    assert forall|a: int, b: int| 0 <= a < keys2.len() && 0 <= b < keys2.len() && a != b implies keys2[a] != keys2[b] by {
        let left = if a < i { a } else { a - 1 };
        let right = if b < i { b } else { b - 1 };
        if a != i {
            assert(keys2[a] == keys[left]);
        }
        if b != i {
            assert(keys2[b] == keys[right]);
        }
    }
    assert forall|x: K| keys2.contains(x) <==> (keys.contains(x) || x == k) by {
        if keys2.contains(x) {
            let p = choose|p: int| 0 <= p < keys2.len() && keys2[p] == x;
            if p < i {
                assert(keys[p] == x);
            } else if p > i {
                assert(keys[p - 1] == x);
            }
        }
        if keys.contains(x) {
            let p = choose|p: int| 0 <= p < keys.len() && keys[p] == x;
            if p < i {
                assert(keys2[p] == x);
            } else {
                assert(keys2[p + 1] == x);
            }
        }
        if x == k {
            assert(keys2[i] == x);
        }
    }
    assert forall|x: K| keys2.contains(x) implies #[trigger] assoc(keys2, values2)[x] == assoc(
        keys,
        values,
    ).insert(k, v)[x] by {
        let p = keys2.index_of(x);
        lemma_assoc_at(keys2, values2, p);
        if p < i {
            lemma_assoc_at(keys, values, p);
        } else if p > i {
            lemma_assoc_at(keys, values, p - 1);
        }
    }
    assert(assoc(keys2, values2) =~= assoc(keys, values).insert(k, v));
}

/// Replacing the value at place `i` replaces what the key at place `i` is
/// paired with.
pub proof fn lemma_assoc_update<K, V>(keys: Seq<K>, values: Seq<V>, i: int, v: V)
    requires
        keys.no_duplicates(),
        keys.len() == values.len(),
        0 <= i < keys.len(),
    ensures
        assoc(keys, values.update(i, v)) == assoc(keys, values).insert(keys[i], v),
{
    let values2 = values.update(i, v);
    assert(keys.contains(keys[i]));
    assert forall|x: K| keys.contains(x) implies #[trigger] assoc(keys, values2)[x] == assoc(
        keys,
        values,
    ).insert(keys[i], v)[x] by {
        let p = keys.index_of(x);
        lemma_assoc_at(keys, values2, p);
        lemma_assoc_at(keys, values, p);
    }
    assert(assoc(keys, values2) =~= assoc(keys, values).insert(keys[i], v));
}

/// Taking out place `i` takes the key at place `i` out of the map.
pub proof fn lemma_assoc_remove<K, V>(keys: Seq<K>, values: Seq<V>, i: int)
    requires
        keys.no_duplicates(),
        keys.len() == values.len(),
        0 <= i < keys.len(),
    ensures
        keys.remove(i).no_duplicates(),
        !keys.remove(i).contains(keys[i]),
        assoc(keys.remove(i), values.remove(i)) == assoc(keys, values).remove(keys[i]),
{
    let keys2 = keys.remove(i);
    let values2 = values.remove(i);
    assert forall|a: int, b: int| 0 <= a < keys2.len() && 0 <= b < keys2.len() && a != b implies keys2[a] != keys2[b] by {
        let left = if a < i { a } else { a + 1 };
        let right = if b < i { b } else { b + 1 };
        assert(keys2[a] == keys[left]);
        assert(keys2[b] == keys[right]);
    }
    assert forall|x: K| keys2.contains(x) <==> (keys.contains(x) && x != keys[i]) by {
        if keys2.contains(x) {
            let p = choose|p: int| 0 <= p < keys2.len() && keys2[p] == x;
            let back = if p < i { p } else { p + 1 };
            assert(keys[back] == x);
        }
        if keys.contains(x) && x != keys[i] {
            let p = choose|p: int| 0 <= p < keys.len() && keys[p] == x;
            if p < i {
                assert(keys2[p] == x);
            } else {
                assert(keys2[p - 1] == x);
            }
        }
    }
    assert forall|x: K| keys2.contains(x) implies #[trigger] assoc(keys2, values2)[x] == assoc(
        keys,
        values,
    ).remove(keys[i])[x] by {
        let p = keys2.index_of(x);
        lemma_assoc_at(keys2, values2, p);
        let back = if p < i { p } else { p + 1 };
        lemma_assoc_at(keys, values, back);
    }
    assert(assoc(keys2, values2) =~= assoc(keys, values).remove(keys[i]));
}

/// Every number comes before all later ones.
pub open spec fn ascending(s: Seq<u64>) -> bool {
    forall|i: int, j: int| 0 <= i < j < s.len() ==> (#[trigger] s[i]) < (#[trigger] s[j])
}

/// A map keyed by package numbers, kept in increasing order of the keys.
#[derive(Debug)]
pub struct IdMap<V> {
    entries: Vec<(u64, V)>,
}

impl<V> View for IdMap<V> {
    type V = Map<u64, V>;

    /// The pairs that the map holds.
    open spec fn view(&self) -> Map<u64, V> {
        assoc(self.keys(), self.values())
    }
}

impl<V> IdMap<V> {
    /// The keys in the order in which they are kept.
    pub closed spec fn keys(self) -> Seq<u64> {
        self.entries@.map_values(|e: (u64, V)| e.0)
    }

    /// The values, each at the place of its key.
    pub closed spec fn values(self) -> Seq<V> {
        self.entries@.map_values(|e: (u64, V)| e.1)
    }

    /// The keys are kept in increasing order.
    #[verifier::type_invariant]
    pub closed spec fn wf(self) -> bool {
        ascending(self.entries@.map_values(|e: (u64, V)| e.0))
    }

    /// A well-formed map lists its keys in increasing order, each once, with
    /// as many values.
    pub proof fn lemma_ordered(self)
        requires
            self.wf(),
        ensures
            ascending(self.keys()),
            self.keys().no_duplicates(),
            self.keys().len() == self.values().len(),
            self@.dom() == self.keys().to_set(),
            forall|i: int|
                0 <= i < self.keys().len() ==> self@.contains_key(#[trigger] self.keys()[i])
                    && self@[self.keys()[i]] == self.values()[i],
    {
        let keys = self.keys();
        assert(self@.dom() =~= keys.to_set());
        assert forall|i: int| 0 <= i < keys.len() implies self@.contains_key(#[trigger] keys[i])
            && self@[keys[i]] == self.values()[i] by {
            lemma_assoc_at(keys, self.values(), i);
        }
    }

    /// The empty map.
    pub fn new() -> (map: IdMap<V>)
        ensures
            map@ == Map::<u64, V>::empty(),
            map.keys() == Seq::<u64>::empty(),
    {
        let map = IdMap { entries: Vec::new() };
        assert(map.keys() =~= Seq::<u64>::empty());
        assert(map@ =~= Map::<u64, V>::empty());
        map
    }

    /// The number of keys.
    pub fn len(&self) -> (n: usize)
        ensures
            n == self.keys().len(),
            n == self.values().len(),
    {
        self.entries.len()
    }

    /// The key at place `i` of the order.
    pub fn key_at(&self, i: usize) -> (key: u64)
        requires
            i < self.keys().len(),
        ensures
            key == self.keys()[i as int],
    {
        self.entries[i].0
    }

    /// The value at place `i` of the order.
    pub fn value_at(&self, i: usize) -> (value: &V)
        requires
            i < self.keys().len(),
        ensures
            *value == self.values()[i as int],
    {
        &self.entries[i].1
    }

    /// The place of `key`, or the place where it would go.
    fn position(entries: &Vec<(u64, V)>, key: u64) -> (at: (usize, bool))
        requires
            ascending(entries@.map_values(|e: (u64, V)| e.0)),
        ensures
            at.0 <= entries.len(),
            at.1 ==> at.0 < entries.len() && entries[at.0 as int].0 == key,
            !at.1 ==> !entries@.map_values(|e: (u64, V)| e.0).contains(key),
            forall|j: int| 0 <= j < at.0 ==> (#[trigger] entries[j]).0 < key,
            forall|j: int| at.0 <= j < entries.len() ==> (#[trigger] entries[j]).0 >= key,
    {
        let ghost keys = entries@.map_values(|e: (u64, V)| e.0);
        let mut i: usize = 0;
        while i < entries.len()
            invariant
                i <= entries.len(),
                keys == entries@.map_values(|e: (u64, V)| e.0),
                ascending(keys),
                forall|j: int| 0 <= j < i ==> (#[trigger] entries[j]).0 < key,
            decreases entries.len() - i,
        {
            if entries[i].0 >= key {
                assert forall|j: int| i <= j < entries.len() implies (#[trigger] entries[j]).0
                    >= key by {
                    assert(keys[i as int] == entries[i as int].0);
                    assert(keys[j] == entries[j].0);
                }
                let found = entries[i].0 == key;
                proof {
                    if !found {
                        assert forall|j: int| 0 <= j < keys.len() implies keys[j] != key by {
                            assert(keys[j] == entries[j].0);
                            assert(keys[i as int] == entries[i as int].0);
                            if j > i {
                                assert(keys[i as int] < keys[j]);
                            }
                        }
                    }
                }
                return (i, found);
            }
            i += 1;
        }
        proof {
            assert forall|j: int| 0 <= j < keys.len() implies keys[j] != key by {
                assert(keys[j] == entries[j].0);
            }
        }
        (i, false)
    }

    /// Whether the map has `key`.
    pub fn contains_key(&self, key: u64) -> (found: bool)
        ensures
            found == self@.contains_key(key),
    {
        proof {
            use_type_invariant(self);
        }
        let at = Self::position(&self.entries, key);
        proof {
            if at.1 {
                assert(self.keys()[at.0 as int] == key);
            }
        }
        at.1
    }

    /// The value that `key` is paired with, if any.
    pub fn get(&self, key: u64) -> (value: Option<&V>)
        ensures
            value is Some == self@.contains_key(key),
            value matches Some(v) ==> *v == self@[key],
    {
        proof {
            use_type_invariant(self);
        }
        let at = Self::position(&self.entries, key);
        if at.1 {
            proof {
                assert(self.keys()[at.0 as int] == key);
                self.lemma_ordered();
            }
            Some(&self.entries[at.0].1)
        } else {
            None
        }
    }

    /// Pairs `key` with `value`; gives back what `key` was paired with before.
    pub fn insert(&mut self, key: u64, value: V) -> (previous: Option<V>)
        ensures
            final(self)@ == old(self)@.insert(key, value),
            previous is Some == old(self)@.contains_key(key),
            previous matches Some(v) ==> v == old(self)@[key],
    {
        proof {
            use_type_invariant(&*self);
            old(self).lemma_ordered();
        }
        let mut entries: Vec<(u64, V)> = Vec::new();
        std::mem::swap(&mut entries, &mut self.entries);
        let ghost keys = old(self).keys();
        let ghost values = old(self).values();
        assert(keys == entries@.map_values(|e: (u64, V)| e.0));
        assert(values == entries@.map_values(|e: (u64, V)| e.1));
        let at = Self::position(&entries, key);
        let i = at.0;
        if at.1 {
            let removed = entries.remove(i);
            entries.insert(i, (key, value));
            assert(entries@.map_values(|e: (u64, V)| e.0) =~= keys) by {
                assert(keys[i as int] == key);
            }
            assert(entries@.map_values(|e: (u64, V)| e.1) =~= values.update(i as int, value));
            proof {
                lemma_assoc_update(keys, values, i as int, value);
                lemma_assoc_at(keys, values, i as int);
                assert(keys[i as int] == key);
            }
            self.entries = entries;
            Some(removed.1)
        } else {
            entries.insert(i, (key, value));
            let ghost keys2 = entries@.map_values(|e: (u64, V)| e.0);
            assert(keys2 =~= keys.insert(i as int, key));
            assert(entries@.map_values(|e: (u64, V)| e.1) =~= values.insert(i as int, value));
            proof {
                lemma_assoc_insert(keys, values, i as int, key, value);
                assert forall|a: int, b: int| 0 <= a < b < keys2.len() implies (
                #[trigger] keys2[a]) < (#[trigger] keys2[b]) by {
                    let left = if a < i { a } else { a - 1 };
                    let right = if b < i { b } else { b - 1 };
                    if a != i {
                        assert(keys2[a] == keys[left]);
                        assert(keys[left] == old(self).entries[left].0);
                    }
                    if b != i {
                        assert(keys2[b] == keys[right]);
                        assert(keys[right] == old(self).entries[right].0);
                    }
                }
            }
            self.entries = entries;
            None
        }
    }

    /// Takes `key` out of the map; gives back what it was paired with.
    pub fn remove(&mut self, key: u64) -> (previous: Option<V>)
        ensures
            final(self)@ == old(self)@.remove(key),
            previous is Some == old(self)@.contains_key(key),
            previous matches Some(v) ==> v == old(self)@[key],
    {
        proof {
            use_type_invariant(&*self);
            old(self).lemma_ordered();
        }
        let mut entries: Vec<(u64, V)> = Vec::new();
        std::mem::swap(&mut entries, &mut self.entries);
        let ghost keys = old(self).keys();
        let ghost values = old(self).values();
        assert(keys == entries@.map_values(|e: (u64, V)| e.0));
        assert(values == entries@.map_values(|e: (u64, V)| e.1));
        let at = Self::position(&entries, key);
        let i = at.0;
        if at.1 {
            let removed = entries.remove(i);
            let ghost keys2 = entries@.map_values(|e: (u64, V)| e.0);
            assert(keys[i as int] == key);
            assert(keys2 =~= keys.remove(i as int));
            assert(entries@.map_values(|e: (u64, V)| e.1) =~= values.remove(i as int));
            proof {
                lemma_assoc_remove(keys, values, i as int);
                lemma_assoc_at(keys, values, i as int);
                assert forall|a: int, b: int| 0 <= a < b < keys2.len() implies (
                #[trigger] keys2[a]) < (#[trigger] keys2[b]) by {
                    let left = if a < i { a } else { a + 1 };
                    let right = if b < i { b } else { b + 1 };
                    assert(keys2[a] == keys[left]);
                    assert(keys2[b] == keys[right]);
                }
            }
            self.entries = entries;
            Some(removed.1)
        } else {
            self.entries = entries;
            assert(old(self)@.remove(key) =~= old(self)@);
            None
        }
    }
}

/// A map keyed by strings, kept in the order in which the keys came.
#[derive(Debug)]
pub struct StrMap<V> {
    entries: Vec<(String, V)>,
}

impl<V> View for StrMap<V> {
    type V = Map<Seq<char>, V>;

    /// The pairs that the map holds.
    open spec fn view(&self) -> Map<Seq<char>, V> {
        assoc(self.keys(), self.values())
    }
}

impl<V> StrMap<V> {
    /// The keys in the order in which they are kept.
    pub closed spec fn keys(self) -> Seq<Seq<char>> {
        self.entries@.map_values(|e: (String, V)| e.0@)
    }

    /// The values, each at the place of its key.
    pub closed spec fn values(self) -> Seq<V> {
        self.entries@.map_values(|e: (String, V)| e.1)
    }

    /// No key is kept twice.
    #[verifier::type_invariant]
    pub closed spec fn wf(self) -> bool {
        self.entries@.map_values(|e: (String, V)| e.0@).no_duplicates()
    }

    /// A well-formed map lists each key once, with as many values.
    pub proof fn lemma_ordered(self)
        requires
            self.wf(),
        ensures
            self.keys().no_duplicates(),
            self.keys().len() == self.values().len(),
            self@.dom() == self.keys().to_set(),
            forall|i: int|
                0 <= i < self.keys().len() ==> self@.contains_key(#[trigger] self.keys()[i])
                    && self@[self.keys()[i]] == self.values()[i],
    {
        let keys = self.keys();
        assert(self@.dom() =~= keys.to_set());
        assert forall|i: int| 0 <= i < keys.len() implies self@.contains_key(#[trigger] keys[i])
            && self@[keys[i]] == self.values()[i] by {
            lemma_assoc_at(keys, self.values(), i);
        }
    }

    /// The empty map.
    pub fn new() -> (map: StrMap<V>)
        ensures
            map@ == Map::<Seq<char>, V>::empty(),
            map.keys() == Seq::<Seq<char>>::empty(),
    {
        let map = StrMap { entries: Vec::new() };
        assert(map.keys() =~= Seq::<Seq<char>>::empty());
        assert(map@ =~= Map::<Seq<char>, V>::empty());
        map
    }

    /// The number of keys.
    pub fn len(&self) -> (n: usize)
        ensures
            n == self.keys().len(),
            n == self.values().len(),
    {
        self.entries.len()
    }

    /// The key at place `i`.
    pub fn key_at(&self, i: usize) -> (key: &String)
        requires
            i < self.keys().len(),
        ensures
            key@ == self.keys()[i as int],
    {
        &self.entries[i].0
    }

    /// The value at place `i`.
    pub fn value_at(&self, i: usize) -> (value: &V)
        requires
            i < self.keys().len(),
        ensures
            *value == self.values()[i as int],
    {
        &self.entries[i].1
    }

    /// The place of `key`, if it is kept.
    fn position(entries: &Vec<(String, V)>, key: &str) -> (at: Option<usize>)
        ensures
            at matches Some(i) ==> i < entries.len() && entries[i as int].0@ == key@,
            at is None ==> !entries@.map_values(|e: (String, V)| e.0@).contains(key@),
    {
        let ghost keys = entries@.map_values(|e: (String, V)| e.0@);
        let mut i: usize = 0;
        while i < entries.len()
            invariant
                i <= entries.len(),
                keys == entries@.map_values(|e: (String, V)| e.0@),
                forall|j: int| 0 <= j < i ==> (#[trigger] keys[j]) != key@,
            decreases entries.len() - i,
        {
            if str_equal(entries[i].0.as_str(), key) {
                return Some(i);
            }
            assert(keys[i as int] == entries[i as int].0@);
            i += 1;
        }
        None
    }

    /// Whether the map has `key`.
    pub fn contains_key(&self, key: &str) -> (found: bool)
        ensures
            found == self@.contains_key(key@),
    {
        let at = Self::position(&self.entries, key);
        proof {
            if let Some(i) = at {
                assert(self.keys()[i as int] == key@);
            }
        }
        at.is_some()
    }

    /// The value that `key` is paired with, if any.
    pub fn get(&self, key: &str) -> (value: Option<&V>)
        ensures
            value is Some == self@.contains_key(key@),
            value matches Some(v) ==> *v == self@[key@],
    {
        proof {
            use_type_invariant(self);
        }
        match Self::position(&self.entries, key) {
            Some(i) => {
                proof {
                    assert(self.keys()[i as int] == key@);
                    self.lemma_ordered();
                }
                Some(&self.entries[i].1)
            },
            None => None,
        }
    }

    /// Pairs `key` with `value`; gives back what `key` was paired with before.
    pub fn insert(&mut self, key: String, value: V) -> (previous: Option<V>)
        ensures
            final(self)@ == old(self)@.insert(key@, value),
            previous is Some == old(self)@.contains_key(key@),
            previous matches Some(v) ==> v == old(self)@[key@],
            previous is Some ==> final(self).keys() == old(self).keys() && final(self).values()
                == old(self).values().update(old(self).keys().index_of(key@), value),
            previous is None ==> final(self).keys() == old(self).keys().push(key@),
            previous is None ==> final(self).values() == old(self).values().push(value),
    {
        proof {
            use_type_invariant(&*self);
            old(self).lemma_ordered();
        }
        let mut entries: Vec<(String, V)> = Vec::new();
        std::mem::swap(&mut entries, &mut self.entries);
        let ghost keys = old(self).keys();
        let ghost values = old(self).values();
        let ghost k = key@;
        assert(keys == entries@.map_values(|e: (String, V)| e.0@));
        assert(values == entries@.map_values(|e: (String, V)| e.1));
        match Self::position(&entries, key.as_str()) {
            Some(i) => {
                let removed = entries.remove(i);
                entries.insert(i, (key, value));
                assert(keys[i as int] == k);
                assert(entries@.map_values(|e: (String, V)| e.0@) =~= keys);
                assert(entries@.map_values(|e: (String, V)| e.1) =~= values.update(
                    i as int,
                    value,
                ));
                proof {
                    lemma_assoc_update(keys, values, i as int, value);
                    lemma_assoc_at(keys, values, i as int);
                }
                self.entries = entries;
                Some(removed.1)
            },
            None => {
                let ghost n = entries.len() as int;
                entries.push((key, value));
                assert(entries@.map_values(|e: (String, V)| e.0@) =~= keys.insert(n, k));
                assert(entries@.map_values(|e: (String, V)| e.1) =~= values.insert(n, value));
                assert(keys.insert(n, k) =~= keys.push(k));
                assert(values.insert(n, value) =~= values.push(value));
                proof {
                    lemma_assoc_insert(keys, values, n, k, value);
                }
                self.entries = entries;
                None
            },
        }
    }

    /// Takes `key` out of the map; gives back what it was paired with.
    pub fn remove(&mut self, key: &str) -> (previous: Option<V>)
        ensures
            final(self)@ == old(self)@.remove(key@),
            previous is Some == old(self)@.contains_key(key@),
            previous matches Some(v) ==> v == old(self)@[key@],
            previous is Some ==> final(self).keys() == old(self).keys().remove(
                old(self).keys().index_of(key@),
            ) && final(self).values() == old(self).values().remove(
                old(self).keys().index_of(key@),
            ),
            previous is None ==> final(self).keys() == old(self).keys() && final(self).values()
                == old(self).values(),
    {
        proof {
            use_type_invariant(&*self);
            old(self).lemma_ordered();
        }
        let mut entries: Vec<(String, V)> = Vec::new();
        std::mem::swap(&mut entries, &mut self.entries);
        let ghost keys = old(self).keys();
        let ghost values = old(self).values();
        assert(keys == entries@.map_values(|e: (String, V)| e.0@));
        assert(values == entries@.map_values(|e: (String, V)| e.1));
        match Self::position(&entries, key) {
            Some(i) => {
                let removed = entries.remove(i);
                assert(keys[i as int] == key@);
                assert(entries@.map_values(|e: (String, V)| e.0@) =~= keys.remove(i as int));
                assert(entries@.map_values(|e: (String, V)| e.1) =~= values.remove(i as int));
                proof {
                    lemma_assoc_remove(keys, values, i as int);
                    lemma_assoc_at(keys, values, i as int);
                }
                self.entries = entries;
                Some(removed.1)
            },
            None => {
                self.entries = entries;
                assert(old(self)@.remove(key@) =~= old(self)@);
                None
            },
        }
    }
}

/// A set of pairs of a package number and a name.
#[derive(Debug)]
pub struct PairSet {
    entries: Vec<(u64, String)>,
}

impl View for PairSet {
    type V = Set<(u64, Seq<char>)>;

    /// The pairs that the set holds.
    open spec fn view(&self) -> Set<(u64, Seq<char>)> {
        self.pairs().to_set()
    }
}

impl PairSet {
    /// The pairs in the order in which they are kept.
    pub closed spec fn pairs(self) -> Seq<(u64, Seq<char>)> {
        self.entries@.map_values(|e: (u64, String)| (e.0, e.1@))
    }

    /// No pair is kept twice.
    #[verifier::type_invariant]
    pub closed spec fn wf(self) -> bool {
        self.entries@.map_values(|e: (u64, String)| (e.0, e.1@)).no_duplicates()
    }

    /// The empty set.
    pub fn new() -> (set: PairSet)
        ensures
            set@ == Set::<(u64, Seq<char>)>::empty(),
            set.pairs() == Seq::<(u64, Seq<char>)>::empty(),
    {
        let set = PairSet { entries: Vec::new() };
        assert(set.pairs() =~= Seq::<(u64, Seq<char>)>::empty());
        assert(set@ =~= Set::<(u64, Seq<char>)>::empty());
        set
    }

    /// The number of pairs.
    pub fn len(&self) -> (n: usize)
        ensures
            n == self.pairs().len(),
    {
        self.entries.len()
    }

    /// The package number of the pair at place `i`.
    pub fn id_at(&self, i: usize) -> (id: u64)
        requires
            i < self.pairs().len(),
        ensures
            id == self.pairs()[i as int].0,
    {
        self.entries[i].0
    }

    /// The name of the pair at place `i`.
    pub fn name_at(&self, i: usize) -> (name: &String)
        requires
            i < self.pairs().len(),
        ensures
            name@ == self.pairs()[i as int].1,
    {
        &self.entries[i].1
    }

    /// Whether the set holds the pair of `id` and `name`.
    pub fn contains(&self, id: u64, name: &str) -> (found: bool)
        ensures
            found == self@.contains((id, name@)),
    {
        let mut i: usize = 0;
        while i < self.entries.len()
            invariant
                i <= self.entries.len(),
                forall|j: int| 0 <= j < i ==> (#[trigger] self.pairs()[j]) != (id, name@),
            decreases self.entries.len() - i,
        {
            if self.entries[i].0 == id && str_equal(self.entries[i].1.as_str(), name) {
                assert(self.pairs()[i as int] == (id, name@));
                return true;
            }
            i += 1;
        }
        false
    }

    /// Adds the pair of `id` and `name`; says whether it was new.
    pub fn insert(&mut self, id: u64, name: String) -> (added: bool)
        ensures
            final(self)@ == old(self)@.insert((id, name@)),
            added == !old(self)@.contains((id, name@)),
            final(self).pairs() == (if added {
                old(self).pairs().push((id, name@))
            } else {
                old(self).pairs()
            }),
    {
        proof {
            use_type_invariant(&*self);
        }
        if self.contains(id, name.as_str()) {
            assert(old(self)@.insert((id, name@)) =~= old(self)@);
            return false;
        }
        let mut entries: Vec<(u64, String)> = Vec::new();
        std::mem::swap(&mut entries, &mut self.entries);
        let ghost before = old(self).pairs();
        let ghost pair = (id, name@);
        entries.push((id, name));
        let ghost after = entries@.map_values(|e: (u64, String)| (e.0, e.1@));
        assert(after =~= before.push(pair));
        assert(after.no_duplicates()) by {
            assert forall|a: int, b: int| 0 <= a < after.len() && 0 <= b < after.len() && a
                != b implies after[a] != after[b] by {
                if a < before.len() {
                    assert(after[a] == before[a]);
                    assert(before.contains(before[a]));
                }
                if b < before.len() {
                    assert(after[b] == before[b]);
                    assert(before.contains(before[b]));
                }
            }
        }
        self.entries = entries;
        assert(final(self)@ =~= old(self)@.insert(pair)) by {
            assert forall|x: (u64, Seq<char>)| after.contains(x) <==> (before.contains(x) || x
                == pair) by {
                if after.contains(x) {
                    let p = choose|p: int| 0 <= p < after.len() && after[p] == x;
                    if p < before.len() {
                        assert(before[p] == x);
                    }
                }
                if before.contains(x) {
                    let p = choose|p: int| 0 <= p < before.len() && before[p] == x;
                    assert(after[p] == x);
                }
                if x == pair {
                    assert(after[before.len() as int] == x);
                }
            }
        }
        true
    }
}

} // verus!
