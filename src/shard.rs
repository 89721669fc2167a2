use vstd::prelude::*;
use crate::store::Store;

verus! {

/// The modulus of the key hash.
pub const HASH_MODULUS: u64 = 1_000_000_007;

/// The multiplier of the key hash.
pub const HASH_BASE: u64 = 31;

/// A polynomial hash of the key's bytes, taken modulo `HASH_MODULUS`.
pub open spec fn key_hash(s: Seq<u8>) -> nat
    decreases s.len(),
{
    if s.len() == 0 {
        0
    } else {
        ((key_hash(s.drop_last()) * HASH_BASE + s.last()) % (HASH_MODULUS as int)) as nat
    }
}

/// The shard that `key` belongs to among `n` shards.
pub open spec fn shard_index(key: Seq<u8>, n: nat) -> nat {
    key_hash(key) % n
}

/// Computes `key_hash` of a key.
pub fn hash_key(key: &Vec<u8>) -> (r: u64)
    ensures
        r as nat == key_hash(key@),
{
    let mut h: u64 = 0;
    let mut i: usize = 0;
    while i < key.len()
        invariant
            0 <= i <= key@.len(),
            h as nat == key_hash(key@.subrange(0, i as int)),
            h < HASH_MODULUS,
        decreases key@.len() - i,
    {
        proof {
            assert(key@.subrange(0, i + 1).drop_last() =~= key@.subrange(0, i as int));
        }
        h = (h * HASH_BASE + key[i] as u64) % HASH_MODULUS;
        i = i + 1;
    }
    proof {
        assert(key@.subrange(0, key@.len() as int) =~= key@);
    }
    h
}

/// The index of the shard that holds `key` among `shard_count` shards.
pub fn shard_for(key: &Vec<u8>, shard_count: usize) -> (r: usize)
    requires
        shard_count > 0,
    ensures
        r as nat == shard_index(key@, shard_count as nat),
        r < shard_count,
{
    (hash_key(key) % (shard_count as u64)) as usize
}

/// Routing is a function of the key and the shard count alone: equal keys go
/// to the same shard, and that shard exists.
pub proof fn lemma_shard_for_deterministic(k1: Seq<u8>, k2: Seq<u8>, n: nat)
    requires
        n > 0,
        k1 == k2,
    ensures
        shard_index(k1, n) == shard_index(k2, n),
        shard_index(k1, n) < n,
{
}

/// A store split into a fixed number of partitions, each key kept in the
/// partition that `shard_index` names.
pub struct ShardedDb {
    shards: Vec<Store>,
}

impl View for ShardedDb {
    type V = Map<Seq<u8>, Seq<u8>>;

    closed spec fn view(&self) -> Map<Seq<u8>, Seq<u8>> {
        Map::new(
            |k: Seq<u8>| self.shard_map(k).contains_key(k),
            |k: Seq<u8>| self.shard_map(k)[k],
        )
    }
}

impl ShardedDb {
    /// The number of shards, fixed at construction.
    pub closed spec fn shard_count(&self) -> nat {
        self.shards@.len()
    }

    /// The contents of the shard that `k` routes to.
    pub closed spec fn shard_map(&self, k: Seq<u8>) -> Map<Seq<u8>, Seq<u8>> {
        self.shards@[shard_index(k, self.shard_count()) as int]@
    }

    /// There is at least one shard, each is well formed, and each holds only
    /// keys that route to it.
    pub closed spec fn wf(&self) -> bool {
        &&& self.shards@.len() > 0
        &&& forall|i: int| 0 <= i < self.shards@.len() ==> (#[trigger] self.shards@[i]).wf()
        &&& forall|i: int, k: Seq<u8>|
            0 <= i < self.shards@.len() && #[trigger] self.shards@[i]@.contains_key(k)
                ==> shard_index(k, self.shard_count()) == i
    }

    /// Gives the shards up, in order, for callers that guard each one apart.
    pub fn into_shards(self) -> (r: Vec<Store>)
        requires
            self.wf(),
        ensures
            r@.len() == self.shard_count(),
            forall|i: int| 0 <= i < r@.len() ==> (#[trigger] r@[i]).wf(),
            forall|i: int, k: Seq<u8>|
                0 <= i < r@.len() ==> (#[trigger] r@[i]@.contains_key(k) <==> (
                self@.contains_key(k) && shard_index(k, self.shard_count()) == i)),
            forall|i: int, k: Seq<u8>|
                0 <= i < r@.len() && #[trigger] r@[i]@.contains_key(k) ==> r@[i]@[k]
                    == self@[k],
    {
        self.shards
    }

    /// The value held under `key`, or `None` where none is.
    pub fn get(&self, key: &Vec<u8>) -> (r: Option<Vec<u8>>)
        requires
            self.wf(),
        ensures
            match r {
                Some(v) => self@.contains_key(key@) && v@ == self@[key@],
                None => !self@.contains_key(key@),
            },
    {
        let i = shard_for(key, self.shards.len());
        self.shards[i].get(key)
    }

    /// Stores `value` under `key` in the shard that the key routes to.
    pub fn set(&mut self, key: Vec<u8>, value: Vec<u8>)
        requires
            old(self).wf(),
        ensures
            final(self).wf(),
            final(self).shard_count() == old(self).shard_count(),
            final(self)@ == old(self)@.insert(key@, value@),
    {
        let i = shard_for(&key, self.shards.len());
        let ghost k0 = key@;
        let ghost v0 = value@;
        let mut shard = self.shards.remove(i);
        shard.set(key, value);
        self.shards.insert(i, shard);
        proof {
            assert(self.shards@ == old(self).shards@.update(i as int, shard));
            assert forall|j: int, k: Seq<u8>|
                0 <= j < self.shards@.len() && #[trigger] self.shards@[j]@.contains_key(
                    k,
                ) implies shard_index(k, self.shard_count()) == j by {
                if j != i {
                    assert(old(self).shards@[j]@.contains_key(k));
                }
            }
            assert(self@ =~= old(self)@.insert(k0, v0));
        }
    }
}

/// A sharded store of `num_shards` empty shards.
pub fn new_sharded_db(num_shards: usize) -> (r: ShardedDb)
    requires
        num_shards > 0,
    ensures
        r.wf(),
        r.shard_count() == num_shards,
        r@ == Map::<Seq<u8>, Seq<u8>>::empty(),
{
    let mut shards: Vec<Store> = Vec::with_capacity(num_shards);
    let mut n: usize = 0;
    while n < num_shards
        invariant
            0 <= n <= num_shards,
            shards@.len() == n,
            forall|i: int| 0 <= i < n ==> (#[trigger] shards@[i]).wf() && shards@[i]@ == Map::<
                Seq<u8>,
                Seq<u8>,
            >::empty(),
        decreases num_shards - n,
    {
        shards.push(Store::new());
        n = n + 1;
    }
    let r = ShardedDb { shards };
    assert(r@ =~= Map::<Seq<u8>, Seq<u8>>::empty());
    r
}

} // verus!
