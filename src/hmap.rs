//! A keyed store split into a fixed number of shards, each an ordinary hash
//! map; a key always lives in the shard its `shard` index names.

use std::collections::HashMap;
use std::hash::Hash;
use vstd::prelude::*;
use vstd::std_specs::hash::obeys_key_model;
use vstd::std_specs::iter::IteratorSpec;

verus! {

broadcast use vstd::std_specs::hash::group_hash_axioms;

/// Number of shards of every map; a power of two.
pub const NUM_SHARDS: usize = 64;

/// Multiplier of the shard hash (the one of the Fx hash).
pub const SHARD_MULTIPLIER: u64 = 0x517cc1b727220a95;

/// The shard index of a key word: a multiplicative hash, masked to the
/// number of shards.
pub open spec fn shard_of_word(x: u64) -> nat {
    (x.wrapping_mul(SHARD_MULTIPLIER) & 63u64) as nat
}

fn shard_word(x: u64) -> (r: usize)
    ensures
        r as nat == shard_of_word(x),
        r < NUM_SHARDS,
{
    let h: u64 = x.wrapping_mul(SHARD_MULTIPLIER);
    assert(h & 63u64 < 64u64) by (bit_vector);
    (h & 63u64) as usize
}

/// Keys that pick their own shard, deterministically.
pub trait Shardable {
    spec fn spec_shard(&self) -> nat;

    fn shard(&self) -> (r: usize)
        ensures
            r as nat == self.spec_shard(),
            r < NUM_SHARDS,
    ;
}

impl Shardable for u16 {
    open spec fn spec_shard(&self) -> nat {
        shard_of_word(*self as u64)
    }

    fn shard(&self) -> (r: usize) {
        shard_word(*self as u64)
    }
}

impl Shardable for u32 {
    open spec fn spec_shard(&self) -> nat {
        shard_of_word(*self as u64)
    }

    fn shard(&self) -> (r: usize) {
        shard_word(*self as u64)
    }
}

/// A map from keys to values, split into `NUM_SHARDS` hash maps.
pub struct ShardedRwLockMap<K: Shardable, V> {
    shards: Vec<HashMap<K, V>>,
}

impl<K: Shardable, V> View for ShardedRwLockMap<K, V> {
    type V = Map<K, V>;

    closed spec fn view(&self) -> Map<K, V> {
        Map::new(
            |k: K|
                k.spec_shard() < NUM_SHARDS && self.shards@[k.spec_shard() as int]@.contains_key(
                    k,
                ),
            |k: K| self.shards@[k.spec_shard() as int]@[k],
        )
    }
}

impl<K: Shardable, V> ShardedRwLockMap<K, V> {
    /// Every shard is present and holds only the keys that pick it.
    pub closed spec fn wf(&self) -> bool {
        &&& self.shards@.len() == NUM_SHARDS
        &&& obeys_key_model::<K>()
        &&& forall|i: int, k: K|
            0 <= i < NUM_SHARDS && #[trigger] self.shards@[i]@.contains_key(k) ==> k.spec_shard()
                == i
    }

}

impl<K: Shardable, V> ShardedRwLockMap<K, V> {
    /// The keys that live in the shards before the `i`-th.
    spec fn keys_below(&self, i: int) -> Set<K> {
        self@.dom().filter(|k: K| k.spec_shard() < i)
    }

    proof fn lemma_keys_below_step(&self, i: int)
        requires
            self.wf(),
            0 <= i < NUM_SHARDS,
            self.keys_below(i).finite(),
        ensures
            self.keys_below(i + 1) =~= self.keys_below(i) + self.shards@[i]@.dom(),
            self.keys_below(i).disjoint(self.shards@[i]@.dom()),
            self.keys_below(i + 1).finite(),
            self.keys_below(i + 1).len() == self.keys_below(i).len() + self.shards@[i]@.len(),
    {
        assert(self.keys_below(i + 1) =~= self.keys_below(i) + self.shards@[i]@.dom());
        vstd::set_lib::lemma_set_disjoint_lens(self.keys_below(i), self.shards@[i]@.dom());
    }

    proof fn lemma_keys_below_finite(&self, i: int)
        requires
            self.wf(),
            0 <= i <= NUM_SHARDS,
        ensures
            self.keys_below(i).finite(),
        decreases i,
    {
        if i == 0 {
            assert(self.keys_below(0) =~= Set::empty());
        } else {
            self.lemma_keys_below_finite(i - 1);
            self.lemma_keys_below_step(i - 1);
        }
    }

    /// The domain of the map is finite.
    proof fn lemma_finite(&self)
        requires
            self.wf(),
        ensures
            self@.dom().finite(),
    {
        self.lemma_keys_below_finite(NUM_SHARDS as int);
        assert(self.keys_below(NUM_SHARDS as int) =~= self@.dom());
    }
}

impl<K: Shardable + Eq + Hash + Copy, V: Copy> ShardedRwLockMap<K, V> {
    /// An empty map.
    pub fn new() -> (r: Self)
        requires
            obeys_key_model::<K>(),
        ensures
            r.wf(),
            r@ == Map::<K, V>::empty(),
    {
        let mut shards: Vec<HashMap<K, V>> = Vec::with_capacity(NUM_SHARDS);
        let mut i: usize = 0;
        while i < NUM_SHARDS
            invariant
                i <= NUM_SHARDS,
                shards@.len() == i,
                forall|j: int| 0 <= j < i ==> (#[trigger] shards@[j])@ == Map::<K, V>::empty(),
            decreases NUM_SHARDS - i,
        {
            shards.push(HashMap::new());
            i = i + 1;
        }
        let r = ShardedRwLockMap { shards };
        assert(r@ =~= Map::<K, V>::empty());
        r
    }

    /// The value under `key`, if there is one.
    pub fn get(&self, key: K) -> (r: Option<V>)
        requires
            self.wf(),
        ensures
            r == (if self@.contains_key(key) {
                Some(self@[key])
            } else {
                None
            }),
    {
        let i = key.shard();
        match self.shards[i].get(&key) {
            Some(v) => Some(*v),
            None => None,
        }
    }

    /// Whether `key` has a value.
    pub fn contains_key(&self, key: K) -> (r: bool)
        requires
            self.wf(),
        ensures
            r == self@.contains_key(key),
    {
        let i = key.shard();
        self.shards[i].contains_key(&key)
    }

    /// Puts `value` under `key`; returns the value it replaces.
    pub fn insert(&mut self, key: K, value: V) -> (r: Option<V>)
        requires
            old(self).wf(),
        ensures
            final(self).wf(),
            final(self)@ == old(self)@.insert(key, value),
            r == (if old(self)@.contains_key(key) {
                Some(old(self)@[key])
            } else {
                None
            }),
    {
        let i = key.shard();
        let r = self.shards[i].insert(key, value);
        assert(self@ =~= old(self)@.insert(key, value));
        r
    }

    /// The value under `key`, after putting `default` there if it had none.
    pub fn entry(&mut self, key: K, default: V) -> (r: V)
        requires
            old(self).wf(),
        ensures
            final(self).wf(),
            final(self)@ == (if old(self)@.contains_key(key) {
                old(self)@
            } else {
                old(self)@.insert(key, default)
            }),
            final(self)@.contains_key(key),
            r == final(self)@[key],
    {
        match self.get(key) {
            Some(v) => v,
            None => {
                self.insert(key, default);
                default
            },
        }
    }

    /// Takes out the value under `key`, if there is one.
    pub fn remove(&mut self, key: K) -> (r: Option<V>)
        requires
            old(self).wf(),
        ensures
            final(self).wf(),
            final(self)@ == old(self)@.remove(key),
            r == (if old(self)@.contains_key(key) {
                Some(old(self)@[key])
            } else {
                None
            }),
    {
        let i = key.shard();
        let r = self.shards[i].remove(&key);
        assert(self@ =~= old(self)@.remove(key));
        r
    }

    /// The number of keys, summed shard by shard.
    pub fn len(&self) -> (r: usize)
        requires
            self.wf(),
            self@.dom().len() <= usize::MAX,
        ensures
            self@.dom().finite(),
            r == self@.dom().len(),
    {
        proof {
            self.lemma_finite();
        }
        let mut total: usize = 0;
        let mut i: usize = 0;
        assert(self.keys_below(0) =~= Set::empty());
        while i < NUM_SHARDS
            invariant
                self.wf(),
                self@.dom().finite(),
                self@.dom().len() <= usize::MAX,
                i <= NUM_SHARDS,
                self.keys_below(i as int).finite(),
                total == self.keys_below(i as int).len(),
            decreases NUM_SHARDS - i,
        {
            proof {
                self.lemma_keys_below_step(i as int);
                vstd::set_lib::lemma_len_subset(self.keys_below(i + 1), self@.dom());
            }
            total = total + self.shards[i].len();
            i = i + 1;
        }
        assert(self.keys_below(NUM_SHARDS as int) =~= self@.dom());
        total
    }

    /// A snapshot of every pair, shard by shard; each key appears once.
    pub fn iter(&self) -> (r: Vec<(K, V)>)
        requires
            self.wf(),
        ensures
            forall|a: int|
                #![trigger r@[a]]
                0 <= a < r@.len() ==> self@.contains_key(r@[a].0) && self@[r@[a].0] == r@[a].1,
            forall|k: K|
                #![trigger self@.contains_key(k)]
                self@.contains_key(k) ==> exists|a: int| 0 <= a < r@.len() && r@[a].0 == k,
            forall|a: int, b: int|
                #![trigger r@[a], r@[b]]
                0 <= a < b < r@.len() ==> r@[a].0 != r@[b].0,
    {
        let mut out: Vec<(K, V)> = Vec::new();
        let mut i: usize = 0;
        while i < NUM_SHARDS
            invariant
                self.wf(),
                i <= NUM_SHARDS,
                forall|a: int|
                    #![trigger out@[a]]
                    0 <= a < out@.len() ==> self@.contains_key(out@[a].0) && self@[out@[a].0]
                        == out@[a].1 && out@[a].0.spec_shard() < i,
                forall|k: K|
                    #![trigger self.keys_below(i as int).contains(k)]
                    self.keys_below(i as int).contains(k) ==> exists|a: int|
                        0 <= a < out@.len() && out@[a].0 == k,
                forall|a: int, b: int|
                    #![trigger out@[a], out@[b]]
                    0 <= a < b < out@.len() ==> out@[a].0 != out@[b].0,
            decreases NUM_SHARDS - i,
        {
            let ghost before = out@;
            let shard = &self.shards[i];
            let ghost items = vstd::std_specs::hash::spec_hash_map_iter(shard).remaining();
            let ghost mut n: int = 0;
            for kv in it: shard.iter()
                invariant
                    self.wf(),
                    i < NUM_SHARDS,
                    shard == &self.shards@[i as int],
                    it.seq() == items,
                    n == it.index(),
                    out@.len() == before.len() + it.index(),
                    forall|a: int| 0 <= a < before.len() ==> out@[a] == before[a],
                    forall|a: int|
                        before.len() <= a < out@.len() ==> out@[a] == (
                            *it.seq()[a - before.len()].0,
                            *it.seq()[a - before.len()].1,
                        ),
            {
                out.push((*kv.0, *kv.1));
                proof {
                    n = n + 1;
                }
            }
            proof {
                vstd::std_specs::hash::axiom_spec_hash_map_iter(shard);
                assert(n == items.len());
                assert(shard@ == self.shards@[i as int]@);
                assert forall|a: int|
                    #![trigger out@[a]]
                    0 <= a < out@.len() implies self@.contains_key(out@[a].0) && self@[out@[a].0]
                        == out@[a].1 && out@[a].0.spec_shard() < i + 1 by {
                    if a >= before.len() {
                        let j = a - before.len();
                        assert(0 <= j < items.len());
                        assert(out@[a].0 == *items[j].0);
                        assert(shard@.contains_key(*items[j].0));
                        assert(self.shards@[i as int]@.contains_key(out@[a].0));
                        assert(out@[a].0.spec_shard() == i);
                        assert(self@.contains_key(out@[a].0));
                        assert(shard@[*items[j].0] == *items[j].1);
                        assert(self@[out@[a].0] == out@[a].1);
                    } else {
                        assert(out@[a] == before[a]);
                    }
                }
                assert(items.no_duplicates());
                assert forall|k: K|
                    #![trigger self.keys_below(i + 1).contains(k)]
                    self.keys_below(i + 1).contains(k) implies exists|a: int|
                        0 <= a < out@.len() && out@[a].0 == k by {
                    if k.spec_shard() < i {
                        assert(self.keys_below(i as int).contains(k));
                        let a = choose|a: int| 0 <= a < before.len() && before[a].0 == k;
                        assert(out@[a] == before[a]);
                    } else {
                        assert(shard@.contains_key(k));
                        assert(items.contains((&k, &shard@[k])));
                        let j = choose|j: int| 0 <= j < items.len() && items[j] == (&k, &shard@[k]);
                        assert(out@[before.len() + j].0 == k);
                    }
                }
                assert forall|a: int, b: int|
                    #![trigger out@[a], out@[b]]
                    0 <= a < b < out@.len() implies out@[a].0 != out@[b].0 by {
                    if b < before.len() {
                        assert(out@[a] == before[a] && out@[b] == before[b]);
                    } else if a < before.len() {
                        assert(out@[a] == before[a]);
                        let jb = b - before.len();
                        assert(shard@.contains_key(*items[jb].0));
                    } else {
                        let ja = a - before.len();
                        let jb = b - before.len();
                        if out@[a].0 == out@[b].0 {
                            assert(shard@[*items[ja].0] == *items[ja].1);
                            assert(shard@[*items[jb].0] == *items[jb].1);
                            assert(items[ja] == items[jb]);
                        }
                    }
                }
            }
            i = i + 1;
        }
        assert forall|k: K|
            #![trigger self@.contains_key(k)]
            self@.contains_key(k) implies exists|a: int| 0 <= a < out@.len() && out@[a].0 == k by {
            assert(self.keys_below(NUM_SHARDS as int).contains(k));
        }
        out
    }

    /// Whether no shard holds a key.
    pub fn is_empty(&self) -> (r: bool)
        requires
            self.wf(),
        ensures
            r == (self@.dom().len() == 0),
    {
        proof {
            self.lemma_finite();
        }
        let mut i: usize = 0;
        assert(self.keys_below(0) =~= Set::empty());
        while i < NUM_SHARDS
            invariant
                self.wf(),
                self@.dom().finite(),
                i <= NUM_SHARDS,
                self.keys_below(i as int).finite(),
                self.keys_below(i as int).len() == 0,
            decreases NUM_SHARDS - i,
        {
            proof {
                self.lemma_keys_below_step(i as int);
            }
            if !self.shards[i].is_empty() {
                proof {
                    vstd::set_lib::lemma_len_subset(self.keys_below(i + 1), self@.dom());
                }
                return false;
            }
            i = i + 1;
        }
        assert(self.keys_below(NUM_SHARDS as int) =~= self@.dom());
        true
    }
}

} // verus!
