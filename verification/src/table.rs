//! An ordered map from addresses and signatures to values.
//!
//! Every key type of this crate packs, one for one, into four integers, and a table keeps its
//! entries in a `BTreeMap` under those integers.  Contracts speak of a table as of a `Map` from the
//! unpacked keys, and of the order in which a table is walked.

use std::collections::BTreeMap;
use std::marker::PhantomData;
use vstd::prelude::*;

verus! {

broadcast use {vstd::laws_cmp::group_laws_cmp, vstd::std_specs::btree::group_btree_axioms};

/// What a key looks like inside a table.
pub type RawKey = (u128, u128, u128, u128);

/// The order of packed keys: that of tuples.
pub open spec fn raw_less(a: RawKey, b: RawKey) -> bool {
    ||| a.0 < b.0
    ||| a.0 == b.0 && a.1 < b.1
    ||| a.0 == b.0 && a.1 == b.1 && a.2 < b.2
    ||| a.0 == b.0 && a.1 == b.1 && a.2 == b.2 && a.3 < b.3
}

/// A value that can be looked up in a table.
pub trait Key: Sized {
    /// The packed key.
    spec fn raw(self) -> RawKey;

    /// The key that packs into `raw`, where there is one.
    spec fn of_raw(raw: RawKey) -> Self;

    /// Packing loses nothing.
    proof fn lemma_raw_round_trip(self)
        ensures
            Self::of_raw(self.raw()) == self,
    ;

    fn to_raw(&self) -> (raw: RawKey)
        ensures
            raw == self.raw(),
    ;

    fn from_raw(raw: &RawKey) -> (key: Self)
        requires
            Self::of_raw(*raw).raw() == *raw,
        ensures
            key == Self::of_raw(*raw),
    ;
}

/// `s` holds its keys in increasing order.
pub open spec fn increasing<K: Key>(s: Seq<K>) -> bool {
    forall|i: int, j: int| 0 <= i < j < s.len() ==> #[trigger] raw_less(s[i].raw(), s[j].raw())
}

/// `s` lists the members of `keys` in increasing order, each of them once.
pub open spec fn lists<K: Key>(s: Seq<K>, keys: Set<K>) -> bool {
    &&& increasing(s)
    &&& forall|k: K| s.contains(k) <==> #[trigger] keys.contains(k)
}

/// The members of `keys` in increasing order.
pub open spec fn in_order<K: Key>(keys: Set<K>) -> Seq<K> {
    choose|s: Seq<K>| lists(s, keys)
}

/// Two lists of the same keys in increasing order are the same list.
pub proof fn lemma_lists_unique<K: Key>(s: Seq<K>, t: Seq<K>, keys: Set<K>)
    requires
        lists(s, keys),
        lists(t, keys),
    ensures
        s == t,
    decreases s.len(),
{
    if s.len() == 0 {
        if t.len() > 0 {
            assert(t.contains(t[0]));
            assert(keys.contains(t[0]));
        }
        assert(s =~= t);
    } else {
        assert(s.contains(s.last()) && keys.contains(s.last()));
        assert(t.contains(s.last()));
        let j = choose|j: int| 0 <= j < t.len() && t[j] == s.last();
        assert(t.contains(t.last()) && keys.contains(t.last()));
        assert(s.contains(t.last()));
        let i = choose|i: int| 0 <= i < s.len() && s[i] == t.last();
        if j != t.len() - 1 {
            assert(raw_less(t[j].raw(), t[t.len() - 1].raw()));
            if i < s.len() - 1 {
                assert(raw_less(s[i].raw(), s[s.len() - 1].raw()));
            }
            assert(false);
        }
        let rest = keys.remove(s.last());
        assert forall|k: K| s.drop_last().contains(k) <==> #[trigger] rest.contains(k) by {
            if s.drop_last().contains(k) {
                let n = choose|n: int| 0 <= n < s.drop_last().len() && s.drop_last()[n] == k;
                assert(s[n] == k);
                assert(s.contains(k));
                assert(keys.contains(k));
                assert(raw_less(s[n].raw(), s[s.len() - 1].raw()));
            }
            if rest.contains(k) {
                assert(keys.contains(k));
                let n = choose|n: int| 0 <= n < s.len() && s[n] == k;
                assert(s.drop_last()[n] == k);
            }
        }
        assert forall|k: K| t.drop_last().contains(k) <==> #[trigger] rest.contains(k) by {
            if t.drop_last().contains(k) {
                let n = choose|n: int| 0 <= n < t.drop_last().len() && t.drop_last()[n] == k;
                assert(t[n] == k);
                assert(t.contains(k));
                assert(keys.contains(k));
                assert(raw_less(t[n].raw(), t[t.len() - 1].raw()));
            }
            if rest.contains(k) {
                assert(keys.contains(k));
                let n = choose|n: int| 0 <= n < t.len() && t[n] == k;
                assert(t.drop_last()[n] == k);
            }
        }
        assert(increasing(s.drop_last())) by {
            assert forall|a: int, b: int| 0 <= a < b < s.drop_last().len() implies #[trigger] raw_less(
                s.drop_last()[a].raw(),
                s.drop_last()[b].raw(),
            ) by {
                assert(raw_less(s[a].raw(), s[b].raw()));
            }
        }
        assert(increasing(t.drop_last())) by {
            assert forall|a: int, b: int| 0 <= a < b < t.drop_last().len() implies #[trigger] raw_less(
                t.drop_last()[a].raw(),
                t.drop_last()[b].raw(),
            ) by {
                assert(raw_less(t[a].raw(), t[b].raw()));
            }
        }
        lemma_lists_unique(s.drop_last(), t.drop_last(), rest);
        assert(s =~= s.drop_last().push(s.last()));
        assert(t =~= t.drop_last().push(t.last()));
    }
}

/// A finite set that is not empty has a greatest member.
proof fn lemma_greatest<K: Key>(keys: Set<K>) -> (greatest: K)
    requires
        keys.finite(),
        keys.len() > 0,
    ensures
        keys.contains(greatest),
        forall|k: K| #[trigger]
            keys.contains(k) ==> k == greatest || raw_less(k.raw(), greatest.raw()),
    decreases keys.len(),
{
    let k = keys.choose();
    let rest = keys.remove(k);
    if rest.len() == 0 {
        assert forall|other: K| #[trigger] keys.contains(other) implies other == k by {
            if other != k {
                assert(rest.contains(other));
            }
        }
        k
    } else {
        let greatest = lemma_greatest(rest);
        k.lemma_raw_round_trip();
        greatest.lemma_raw_round_trip();
        assert forall|other: K| #[trigger] keys.contains(other) && other != k implies rest.contains(
            other,
        ) by {}
        if raw_less(greatest.raw(), k.raw()) {
            k
        } else {
            greatest
        }
    }
}

/// A finite set can be listed.
proof fn lemma_list_exists<K: Key>(keys: Set<K>) -> (s: Seq<K>)
    requires
        keys.finite(),
    ensures
        lists(s, keys),
    decreases keys.len(),
{
    if keys.len() == 0 {
        assert(keys =~= Set::empty());
        Seq::empty()
    } else {
        let greatest = lemma_greatest(keys);
        let rest = keys.remove(greatest);
        let s = lemma_list_exists(rest);
        let t = s.push(greatest);
        assert forall|k: K| t.contains(k) <==> #[trigger] keys.contains(k) by {
            if t.contains(k) && k != greatest {
                let i = choose|i: int| 0 <= i < t.len() && t[i] == k;
                assert(s[i] == k);
                assert(s.contains(k));
                assert(rest.contains(k));
            }
            if keys.contains(k) {
                if k == greatest {
                    assert(t[s.len() as int] == k);
                } else {
                    assert(rest.contains(k));
                    let i = choose|i: int| 0 <= i < s.len() && s[i] == k;
                    assert(t[i] == k);
                }
            }
        }
        assert forall|i: int, j: int| 0 <= i < j < t.len() implies #[trigger] raw_less(
            t[i].raw(),
            t[j].raw(),
        ) by {
            assert(s[i] == t[i] && s.contains(s[i]));
            assert(rest.contains(s[i]));
            if j < s.len() {
                assert(raw_less(s[i].raw(), s[j].raw()));
            }
        }
        t
    }
}

/// The members of a finite set in increasing order are a list of that set.
pub proof fn lemma_in_order<K: Key>(keys: Set<K>)
    requires
        keys.finite(),
    ensures
        lists(in_order(keys), keys),
{
    let s = lemma_list_exists(keys);
    assert(lists(s, keys));
}

/// A map from `K` to `V` that is walked in the order of its keys.
#[verifier::reject_recursive_types(K)]
#[verifier::reject_recursive_types(V)]
pub struct Table<K, V> {
    entries: BTreeMap<RawKey, V>,
    key: PhantomData<K>,
}

impl<K: Key, V> View for Table<K, V> {
    type V = Map<K, V>;

    closed spec fn view(&self) -> Map<K, V> {
        Map::new(|k: K| self.entries@.contains_key(k.raw()), |k: K| self.entries@[k.raw()])
    }
}

impl<K: Key, V> Table<K, V> {
    /// Every packed key is that of some key.
    pub closed spec fn wf(&self) -> bool {
        forall|raw: RawKey| #[trigger]
            self.entries@.contains_key(raw) ==> K::of_raw(raw).raw() == raw
    }

    /// A table holds finitely many entries.
    pub proof fn lemma_finite(&self)
        requires
            self.wf(),
        ensures
            self@.dom().finite(),
    {
        let image = self.entries@.dom().map(|raw: RawKey| K::of_raw(raw));
        assert(image.finite()) by {
            self.entries@.dom().lemma_map_finite(|raw: RawKey| K::of_raw(raw));
        }
        assert forall|k: K| self@.dom().contains(k) implies #[trigger] image.contains(k) by {
            k.lemma_raw_round_trip();
            assert(self.entries@.dom().contains(k.raw()));
        }
        vstd::set_lib::lemma_set_subset_finite(image, self@.dom());
    }

    /// An empty table.
    pub fn new() -> (table: Self)
        ensures
            table.wf(),
            table@ == Map::<K, V>::empty(),
    {
        let table = Table { entries: BTreeMap::new(), key: PhantomData };
        assert(table@ =~= Map::<K, V>::empty());
        table
    }

    /// Does the table hold nothing?
    pub fn is_empty(&self) -> (empty: bool)
        requires
            self.wf(),
        ensures
            empty == (self@.dom() == Set::<K>::empty()),
    {
        proof {
            if self.entries@ == Map::<RawKey, V>::empty() {
                assert(self@.dom() =~= Set::<K>::empty());
            } else {
                assert(exists|raw: RawKey| self.entries@.contains_key(raw)) by {
                    if forall|raw: RawKey| !self.entries@.contains_key(raw) {
                        assert(self.entries@ =~= Map::<RawKey, V>::empty());
                    }
                }
                let raw = choose|raw: RawKey| self.entries@.contains_key(raw);
                assert(self@.dom().contains(K::of_raw(raw)));
            }
        }
        self.entries.is_empty()
    }

    /// Is there an entry for `key`?
    pub fn contains_key(&self, key: &K) -> (found: bool)
        requires
            self.wf(),
        ensures
            found == self@.contains_key(*key),
    {
        self.entries.contains_key(&key.to_raw())
    }

    /// The value under `key`.
    pub fn get(&self, key: &K) -> (value: Option<&V>)
        requires
            self.wf(),
        ensures
            match value {
                Some(v) => self@.contains_key(*key) && *v == self@[*key],
                None => !self@.contains_key(*key),
            },
    {
        self.entries.get(&key.to_raw())
    }

    /// Puts `value` under `key`, in place of what was there.
    pub fn insert(&mut self, key: K, value: V)
        requires
            old(self).wf(),
        ensures
            final(self).wf(),
            final(self)@ == old(self)@.insert(key, value),
    {
        proof {
            key.lemma_raw_round_trip();
        }
        self.entries.insert(key.to_raw(), value);
        proof {
            assert forall|k: K| k.raw() == key.raw() implies k == key by {
                k.lemma_raw_round_trip();
            }
            assert(self@ =~= old(self)@.insert(key, value));
        }
    }

    /// Takes the entry for `key` out.
    pub fn remove(&mut self, key: &K) -> (value: Option<V>)
        requires
            old(self).wf(),
        ensures
            final(self).wf(),
            match value {
                Some(v) => {
                    &&& old(self)@.contains_key(*key)
                    &&& v == old(self)@[*key]
                    &&& final(self)@ == old(self)@.remove(*key)
                },
                None => !old(self)@.contains_key(*key) && final(self)@ == old(self)@,
            },
    {
        let value = self.entries.remove(&key.to_raw());
        proof {
            assert forall|k: K| k.raw() == key.raw() implies k == *key by {
                k.lemma_raw_round_trip();
                key.lemma_raw_round_trip();
            }
            if value is Some {
                assert(self@ =~= old(self)@.remove(*key));
            }
        }
        value
    }

    /// The keys in increasing order.
    pub fn keys(&self) -> (keys: Vec<K>)
        requires
            self.wf(),
        ensures
            lists(keys@, self@.dom()),
            keys@ == in_order(self@.dom()),
    {
        let mut keys: Vec<K> = Vec::new();
        let ghost all = vstd::std_specs::iter::IteratorSpec::remaining(
            &vstd::std_specs::btree::spec_keys_iter(&self.entries),
        );
        let ghost raws = all.unref();
        for raw in it: self.entries.keys()
            invariant
                self.wf(),
                it.seq().unref() == raws,
                keys@.len() == it.index(),
                forall|i: int| 0 <= i < keys@.len() ==> #[trigger] keys@[i] == K::of_raw(raws[i]),
                forall|i: int|
                    0 <= i < raws.len() ==> self.entries@.contains_key(#[trigger] raws[i]),
        {
            keys.push(K::from_raw(raw));
        }
        proof {
            assert(keys@.len() == raws.len());
            assert forall|k: K| keys@.contains(k) <==> #[trigger] self@.dom().contains(k) by {
                k.lemma_raw_round_trip();
                if keys@.contains(k) {
                    let i = choose|i: int| 0 <= i < keys@.len() && keys@[i] == k;
                    assert(self.entries@.contains_key(raws[i]));
                }
                if self@.dom().contains(k) {
                    assert(raws.to_set().contains(k.raw()));
                    let i = choose|i: int| 0 <= i < raws.len() && raws[i] == k.raw();
                    assert(keys@[i] == k);
                }
            }
            assert(vstd::std_specs::btree::increasing_seq(all));
            assert(vstd::laws_cmp::obeys_cmp::<&RawKey>());
            assert forall|i: int, j: int| 0 <= i < j < keys@.len() implies #[trigger] raw_less(
                keys@[i].raw(),
                keys@[j].raw(),
            ) by {
                assert(vstd::std_specs::cmp::OrdSpec::cmp_spec(&all[i], &all[j]) is Less);
                assert(self.entries@.contains_key(raws[i]) && self.entries@.contains_key(raws[j]));
            }
            assert(lists(keys@, self@.dom()));
            lemma_lists_unique(keys@, in_order(self@.dom()), self@.dom());
        }
        keys
    }
}

} // verus!
