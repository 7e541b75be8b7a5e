//! A small map keyed by (namespace, name) pairs of strings, viewed as a
//! `Map` from the pair's character sequences to the value's view.
use vstd::prelude::*;

use crate::text::str_eq;

verus! {

/// The key of an object: its namespace and its name.
pub type NameKey = (Seq<char>, Seq<char>);

pub struct NameEntry<V> {
    pub namespace: String,
    pub name: String,
    pub value: V,
}

/// Entries keyed by (namespace, name); no key occurs twice.
pub struct NameMap<V> {
    entries: Vec<NameEntry<V>>,
}

pub open spec fn entry_key<V>(e: NameEntry<V>) -> NameKey {
    (e.namespace@, e.name@)
}

pub open spec fn keys_distinct<V>(s: Seq<NameEntry<V>>) -> bool {
    forall|i: int, j: int|
        0 <= i < s.len() && 0 <= j < s.len() && i != j ==> entry_key(#[trigger] s[i])
            != entry_key(#[trigger] s[j])
}

pub open spec fn has_key<V>(s: Seq<NameEntry<V>>, k: NameKey) -> bool {
    exists|i: int| 0 <= i < s.len() && entry_key(#[trigger] s[i]) == k
}

pub open spec fn entries_view<V: View>(s: Seq<NameEntry<V>>) -> Map<NameKey, V::V> {
    Map::new(
        |k: NameKey| has_key(s, k),
        |k: NameKey| s[choose|i: int| 0 <= i < s.len() && entry_key(#[trigger] s[i]) == k].value@,
    )
}

/// With distinct keys, the entry found for a key is the one at its index.
proof fn lemma_entries_view_at<V: View>(s: Seq<NameEntry<V>>, i: int)
    requires
        keys_distinct(s),
        0 <= i < s.len(),
    ensures
        entries_view(s).contains_key(entry_key(s[i])),
        entries_view(s)[entry_key(s[i])] == s[i].value@,
{
    let k = entry_key(s[i]);
    assert(has_key(s, k));
    let j = choose|j: int| 0 <= j < s.len() && entry_key(#[trigger] s[j]) == k;
    assert(j == i);
}

impl<V: View> View for NameMap<V> {
    type V = Map<NameKey, V::V>;

    closed spec fn view(&self) -> Map<NameKey, V::V> {
        entries_view(self.entries@)
    }
}

impl<V> NameMap<V> {
    #[verifier::type_invariant]
    closed spec fn distinct(self) -> bool {
        keys_distinct(self.entries@)
    }
}

impl<V: View> NameMap<V> {
    pub fn new() -> (r: Self)
        ensures
            r@ == Map::<NameKey, V::V>::empty(),
    {
        let r = NameMap { entries: Vec::new() };
        assert(r@ =~= Map::<NameKey, V::V>::empty());
        r
    }

    fn find(&self, namespace: &str, name: &str) -> (r: Option<usize>)
        ensures
            r matches Some(i) ==> i < self.entries@.len() && entry_key(self.entries@[i as int]) == (
            namespace@,
            name@),
            r is None ==> !has_key(self.entries@, (namespace@, name@)),
    {
        let n = self.entries.len();
        let mut i: usize = 0;
        while i < n
            invariant
                n == self.entries@.len(),
                i <= n,
                forall|j: int|
                    0 <= j < i ==> entry_key(#[trigger] self.entries@[j]) != (namespace@, name@),
            decreases n - i,
        {
            let e = &self.entries[i];
            if str_eq(e.namespace.as_str(), namespace) && str_eq(e.name.as_str(), name) {
                return Some(i);
            }
            i += 1;
        }
        None
    }

    /// The value stored under (namespace, name).
    pub fn get(&self, namespace: &str, name: &str) -> (r: Option<&V>)
        ensures
            r matches Some(v) ==> self@.contains_key((namespace@, name@)) && v@ == self@[(
            namespace@,
            name@,
            )],
            r is None ==> !self@.contains_key((namespace@, name@)),
    {
        proof {
            use_type_invariant(self);
        }
        match self.find(namespace, name) {
            Some(i) => {
                proof {
                    lemma_entries_view_at(self.entries@, i as int);
                }
                Some(&self.entries[i].value)
            },
            None => None,
        }
    }

    /// Stores `value` under (namespace, name), replacing any earlier value.
    pub fn insert(&mut self, namespace: String, name: String, value: V)
        ensures
            final(self)@ == old(self)@.insert((namespace@, name@), value@),
    {
        proof {
            use_type_invariant(&*self);
        }
        let ghost k = (namespace@, name@);
        let ghost old_entries = self.entries@;
        let found = self.find(namespace.as_str(), name.as_str());
        let mut entries: Vec<NameEntry<V>> = Vec::new();
        std::mem::swap(&mut entries, &mut self.entries);
        assert(entries@ == old_entries);
        let entry = NameEntry { namespace, name, value };
        match found {
            Some(i) => {
                entries.set(i, entry);
            },
            None => {
                entries.push(entry);
            },
        }
        proof {
            let s = entries@;
            assert(keys_distinct(s)) by {
                assert forall|a: int, b: int|
                    0 <= a < s.len() && 0 <= b < s.len() && a != b implies entry_key(
                    #[trigger] s[a],
                ) != entry_key(#[trigger] s[b]) by {
                    if found is None {
                        if a == old_entries.len() {
                            assert(entry_key(s[b]) == entry_key(old_entries[b]));
                        } else if b == old_entries.len() {
                            assert(entry_key(s[a]) == entry_key(old_entries[a]));
                        }
                    }
                }
            }
            assert forall|key: NameKey| #[trigger]
                entries_view(s).contains_key(key) == old_view_insert_contains(
                    old_entries,
                    k,
                    key,
                ) by {
                if key == k {
                    let j = if found is Some {
                        found->0 as int
                    } else {
                        old_entries.len() as int
                    };
                    assert(entry_key(s[j]) == k);
                } else if has_key(old_entries, key) {
                    let j = choose|j: int|
                        0 <= j < old_entries.len() && entry_key(#[trigger] old_entries[j]) == key;
                    assert(entry_key(s[j]) == key);
                } else if has_key(s, key) {
                    let j = choose|j: int| 0 <= j < s.len() && entry_key(#[trigger] s[j]) == key;
                    if j < old_entries.len() && !(found == Some(j as usize)) {
                        assert(entry_key(old_entries[j]) == key);
                    }
                }
            }
            assert forall|key: NameKey| #[trigger]
                entries_view(s).contains_key(key) implies entries_view(s)[key] == (if key == k {
                value@
            } else {
                entries_view(old_entries)[key]
            }) by {
                let j = choose|j: int| 0 <= j < s.len() && entry_key(#[trigger] s[j]) == key;
                lemma_entries_view_at(s, j);
                if key != k {
                    assert(j < old_entries.len());
                    assert(entry_key(old_entries[j]) == key);
                    lemma_entries_view_at(old_entries, j);
                } else {
                    let jj = if found is Some {
                        found->0 as int
                    } else {
                        old_entries.len() as int
                    };
                    assert(entry_key(s[jj]) == k);
                }
            }
            assert(entries_view(s) =~= entries_view(old_entries).insert(k, value@));
        }
        self.entries = entries;
    }
}

impl<V: View> NameMap<V> {
    /// The keys, each once, in insertion order.
    pub fn keys(&self) -> (r: Vec<(String, String)>)
        ensures
            r@.map_values(|k: (String, String)| (k.0@, k.1@)).no_duplicates(),
            r@.map_values(|k: (String, String)| (k.0@, k.1@)).to_set() == self@.dom(),
    {
        proof {
            use_type_invariant(self);
        }
        let n = self.entries.len();
        let mut r: Vec<(String, String)> = Vec::new();
        let mut i: usize = 0;
        while i < n
            invariant
                n == self.entries@.len(),
                i <= n,
                keys_distinct(self.entries@),
                r@.len() == i,
                forall|j: int|
                    0 <= j < i ==> (#[trigger] r@[j]).0@ == self.entries@[j].namespace@ && r@[j].1@
                        == self.entries@[j].name@,
            decreases n - i,
        {
            let e = &self.entries[i];
            r.push((e.namespace.clone(), e.name.clone()));
            i += 1;
        }
        let ghost ks = r@.map_values(|k: (String, String)| (k.0@, k.1@));
        assert forall|a: int| 0 <= a < ks.len() implies #[trigger] ks[a] == entry_key(
            self.entries@[a],
        ) by {}
        assert(ks.no_duplicates()) by {
            assert forall|a: int, b: int|
                0 <= a < ks.len() && 0 <= b < ks.len() && a != b implies ks[a] != ks[b] by {
                assert(ks[a] == entry_key(self.entries@[a]));
                assert(ks[b] == entry_key(self.entries@[b]));
            }
        }
        assert forall|k: NameKey| ks.to_set().contains(k) <==> self@.dom().contains(k) by {
            if ks.to_set().contains(k) {
                assert(ks.contains(k));
                let a = choose|a: int| 0 <= a < ks.len() && ks[a] == k;
                assert(entry_key(self.entries@[a]) == k);
            }
            if self@.dom().contains(k) {
                let a = choose|a: int|
                    0 <= a < self.entries@.len() && entry_key(#[trigger] self.entries@[a]) == k;
                assert(ks[a] == k);
                assert(ks.contains(k));
            }
        }
        assert(ks.to_set() =~= self@.dom());
        r
    }

    /// Whether (namespace, name) has a value.
    pub fn contains(&self, namespace: &str, name: &str) -> (r: bool)
        ensures
            r == self@.contains_key((namespace@, name@)),
    {
        self.get(namespace, name).is_some()
    }
}

spec fn old_view_insert_contains<V>(old_entries: Seq<NameEntry<V>>, k: NameKey, key: NameKey) -> bool {
    key == k || has_key(old_entries, key)
}

} // verus!
