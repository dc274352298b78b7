use vstd::prelude::*;
use vstd::seq_lib::*;
use crate::ops::Operation;

verus! {

/// A bucket is an ordered chain of (key, value) pairs.
pub type Bucket = Seq<(usize, usize)>;

/// The predicate a pair must satisfy to survive a delete of `key`.
pub open spec fn keeps(key: usize) -> spec_fn((usize, usize)) -> bool {
    |kv: (usize, usize)| kv.0 != key
}

/// The predicate that a pair carries `key`.
pub open spec fn has_key(key: usize) -> spec_fn((usize, usize)) -> bool {
    |kv: (usize, usize)| kv.0 == key
}

/// The bucket a key lands in: the hash of the key modulo the bucket count.
/// Keys are machine words already spread over their whole range, so the
/// identity hash is used.
pub open spec fn spec_bucket_index(key: usize, nbuckets: nat) -> int
    recommends
        nbuckets > 0,
{
    key as int % nbuckets as int
}

/// The value of the first pair in the bucket whose key matches, if any.
/// This is the canonical value a `read` returns in the bag variant.
pub open spec fn bucket_lookup(bucket: Bucket, key: usize) -> Option<usize>
    decreases bucket.len(),
{
    if bucket.len() == 0 {
        None
    } else if bucket[0].0 == key {
        Some(bucket[0].1)
    } else {
        bucket_lookup(bucket.drop_first(), key)
    }
}

/// The bucket with every pair of the given key removed.
pub open spec fn bucket_without(bucket: Bucket, key: usize) -> Bucket {
    bucket.filter(keeps(key))
}

/// How many pairs in the bucket carry the given key.
pub open spec fn bucket_key_count(bucket: Bucket, key: usize) -> nat {
    bucket.filter(has_key(key)).len()
}

/// The value a `read(key)` returns on this table, if any.
pub open spec fn table_lookup(t: Seq<Bucket>, key: usize) -> Option<usize>
    recommends
        t.len() > 0,
{
    bucket_lookup(t[spec_bucket_index(key, t.len())], key)
}

/// The table after `insert(key, value)`: the pair is appended to its bucket.
pub open spec fn table_insert(t: Seq<Bucket>, key: usize, value: usize) -> Seq<Bucket>
    recommends
        t.len() > 0,
{
    let i = spec_bucket_index(key, t.len());
    t.update(i, t[i].push((key, value)))
}

/// The table after `delete(key)`: every pair with the key leaves its bucket.
pub open spec fn table_delete(t: Seq<Bucket>, key: usize) -> Seq<Bucket>
    recommends
        t.len() > 0,
{
    let i = spec_bucket_index(key, t.len());
    t.update(i, bucket_without(t[i], key))
}

/// How many pairs in the whole table carry the given key.
pub open spec fn table_key_count(t: Seq<Bucket>, key: usize) -> nat
    recommends
        t.len() > 0,
{
    bucket_key_count(t[spec_bucket_index(key, t.len())], key)
}

/// The table contents after a worker performs one operation against them:
/// only `Insert` and `Delete` mutate the table.
pub open spec fn table_after_dispatch(t: Seq<Bucket>, op: Operation) -> Seq<Bucket> {
    match op {
        Operation::Insert(k, v) => table_insert(t, k, v),
        Operation::Delete(k) => table_delete(t, k),
        _ => t,
    }
}

/// A fixed-size chained hash table over machine-word keys and values,
/// in the bag variant: duplicate keys are allowed, `insert` always appends,
/// `delete` removes every match, and `read` returns the first match.
///
/// The bucket count is chosen at construction and never changes.
pub struct HashTable {
    buckets: Vec<Vec<(usize, usize)>>,
}

impl View for HashTable {
    type V = Seq<Bucket>;

    closed spec fn view(&self) -> Seq<Bucket> {
        self.buckets@.map_values(|b: Vec<(usize, usize)>| b@)
    }
}

impl HashTable {
    /// A table is well formed when it has at least one bucket.
    pub open spec fn wf(&self) -> bool {
        self@.len() > 0
    }

    /// Create a table with `size` empty buckets.
    pub fn new(size: usize) -> (t: Self)
        requires
            size >= 1,
        ensures
            t.wf(),
            t@.len() == size,
            forall|i: int| 0 <= i < size ==> t@[i] == Seq::<(usize, usize)>::empty(),
    {
        let mut buckets: Vec<Vec<(usize, usize)>> = Vec::new();
        let mut n: usize = 0;
        while n < size
            invariant
                n <= size,
                buckets@.len() == n,
                forall|i: int| 0 <= i < n ==> buckets@[i]@ == Seq::<(usize, usize)>::empty(),
            decreases size - n,
        {
            buckets.push(Vec::new());
            n = n + 1;
        }
        let t = HashTable { buckets };
        assert forall|i: int| 0 <= i < size implies t@[i] == Seq::<(usize, usize)>::empty() by {
            assert(t@[i] == t.buckets@[i]@);
        }
        t
    }

    /// The index of the bucket the key belongs to.
    fn bucket_index(&self, key: usize) -> (i: usize)
        requires
            self.wf(),
        ensures
            i == spec_bucket_index(key, self@.len() as nat),
            i < self@.len(),
    {
        key % self.buckets.len()
    }

    /// Append the (key, value) pair to its bucket; duplicates are allowed.
    pub fn insert(&mut self, key: usize, value: usize)
        requires
            old(self).wf(),
        ensures
            final(self).wf(),
            final(self)@ == table_insert(old(self)@, key, value),
    {
        let i = self.bucket_index(key);
        let bucket = &mut self.buckets[i];
        bucket.push((key, value));
        assert(final(self)@ =~= table_insert(old(self)@, key, value));
    }

    /// Remove every pair whose key matches.
    pub fn delete(&mut self, key: usize)
        requires
            old(self).wf(),
        ensures
            final(self).wf(),
            final(self)@ == table_delete(old(self)@, key),
    {
        let i = self.bucket_index(key);
        let ghost idx: int = i as int;
        let bucket = &mut self.buckets[i];
        let ghost orig: Bucket = bucket@;
        let mut kept: Vec<(usize, usize)> = Vec::new();
        let mut j: usize = 0;
        while j < bucket.len()
            invariant
                j <= bucket@.len(),
                bucket@ == orig,
                kept@ == orig.subrange(0, j as int).filter(keeps(key)),
            decreases bucket@.len() - j,
        {
            let kv = bucket[j];
            proof {
                assert(orig.subrange(0, j + 1) =~= orig.subrange(0, j as int).push(orig[j as int]));
                lemma_filter_push(orig.subrange(0, j as int), keeps(key), orig[j as int]);
            }
            if kv.0 != key {
                kept.push(kv);
            }
            j = j + 1;
        }
        proof {
            assert(orig.subrange(0, orig.len() as int) =~= orig);
            assert(kept@ == bucket_without(orig, key));
        }
        *bucket = kept;
        proof {
            assert(orig == old(self)@[idx]);
            assert(final(self)@ =~= table_delete(old(self)@, key));
        }
    }

    /// Return the value of the first pair with this key, or `None` when the
    /// key is absent.
    pub fn read(&self, key: usize) -> (r: Option<usize>)
        requires
            self.wf(),
        ensures
            r == table_lookup(self@, key),
    {
        let i = self.bucket_index(key);
        let bucket = &self.buckets[i];
        let ghost b: Bucket = bucket@;
        proof {
            assert(b == self@[i as int]);
        }
        let mut j: usize = 0;
        while j < bucket.len()
            invariant
                self.wf(),
                j <= b.len(),
                bucket@ == b,
                b == self@[spec_bucket_index(key, self@.len() as nat)],
                forall|m: int| 0 <= m < j ==> b[m].0 != key,
            decreases b.len() - j,
        {
            let kv = bucket[j];
            if kv.0 == key {
                proof {
                    lemma_bucket_lookup_first_match(b, key, j as int);
                }
                return Some(kv.1);
            }
            j = j + 1;
        }
        proof {
            lemma_bucket_lookup_absent(b, key);
        }
        None
    }

    /// The number of buckets, fixed at construction.
    pub fn bucket_count(&self) -> (n: usize)
        ensures
            n == self@.len(),
    {
        self.buckets.len()
    }

    /// A copy of the bucket at the index, or `None` when the index is out of
    /// range. The caller formats and emits the contents.
    pub fn bucket_entries(&self, index: usize) -> (r: Option<Vec<(usize, usize)>>)
        ensures
            match r {
                Some(v) => index < self@.len() && v@ == self@[index as int],
                None => index >= self@.len(),
            },
    {
        if index >= self.buckets.len() {
            return None;
        }
        let bucket = &self.buckets[index];
        proof {
            assert(bucket@ == self@[index as int]);
        }
        let mut out: Vec<(usize, usize)> = Vec::new();
        let mut j: usize = 0;
        while j < bucket.len()
            invariant
                j <= bucket@.len(),
                bucket@ == self@[index as int],
                index < self@.len(),
                out@ == self@[index as int].subrange(0, j as int),
            decreases bucket@.len() - j,
        {
            out.push(bucket[j]);
            assert(out@ =~= self@[index as int].subrange(0, j + 1));
            j = j + 1;
        }
        assert(out@ =~= self@[index as int]);
        Some(out)
    }
}

/// Filtering a bucket extended by one pair keeps the pair exactly when it
/// satisfies the predicate.
proof fn lemma_filter_push(b: Bucket, pred: spec_fn((usize, usize)) -> bool, p: (usize, usize))
    ensures
        b.push(p).filter(pred) == if pred(p) {
            b.filter(pred).push(p)
        } else {
            b.filter(pred)
        },
{
    reveal(Seq::filter);
    assert(b.push(p).drop_last() =~= b);
    assert(b.push(p).last() == p);
}

/// A key that matches no pair of the bucket looks up to `None`.
proof fn lemma_bucket_lookup_absent(b: Bucket, key: usize)
    requires
        forall|m: int| 0 <= m < b.len() ==> b[m].0 != key,
    ensures
        bucket_lookup(b, key) == None::<usize>,
    decreases b.len(),
{
    if b.len() > 0 {
        lemma_bucket_lookup_absent(b.drop_first(), key);
    }
}

/// When the pair at `i` is the first match, the lookup returns its value.
proof fn lemma_bucket_lookup_first_match(b: Bucket, key: usize, i: int)
    requires
        0 <= i < b.len(),
        b[i].0 == key,
        forall|m: int| 0 <= m < i ==> b[m].0 != key,
    ensures
        bucket_lookup(b, key) == Some(b[i].1),
    decreases i,
{
    if i > 0 {
        lemma_bucket_lookup_first_match(b.drop_first(), key, i - 1);
    }
}

/// Appending a pair leaves the lookup of the bucket unchanged when the key
/// was already present, and makes the new pair visible when it was not.
proof fn lemma_bucket_lookup_push(b: Bucket, key: usize, p: (usize, usize))
    ensures
        bucket_lookup(b.push(p), key) == match bucket_lookup(b, key) {
            Some(v) => Some(v),
            None => if p.0 == key {
                Some(p.1)
            } else {
                None
            },
        },
    decreases b.len(),
{
    let s = b.push(p);
    if b.len() == 0 {
        assert(s.len() == 1);
        assert(s[0] == p);
        assert(s.drop_first() =~= Seq::<(usize, usize)>::empty());
        assert(bucket_lookup(s.drop_first(), key) == None::<usize>);
    } else {
        assert(s[0] == b[0]);
        assert(s.drop_first() =~= b.drop_first().push(p));
        lemma_bucket_lookup_push(b.drop_first(), key, p);
    }
}

/// Every pair with the key is gone after `bucket_without`.
proof fn lemma_bucket_without_absent(b: Bucket, key: usize)
    ensures
        bucket_lookup(bucket_without(b, key), key) == None::<usize>,
{
    let pred = keeps(key);
    let filtered = b.filter(pred);
    assert forall|m: int| 0 <= m < filtered.len() implies filtered[m].0 != key by {
        b.lemma_filter_pred(pred, m);
    }
    lemma_bucket_lookup_absent(filtered, key);
}

/// Insert-then-read: after a key absent from the table is inserted with a
/// value, a read of that key returns exactly that value.
pub proof fn lemma_insert_then_read(t: Seq<Bucket>, key: usize, value: usize)
    requires
        t.len() > 0,
        table_lookup(t, key) is None,
    ensures
        table_lookup(table_insert(t, key, value), key) == Some(value),
{
    let i = spec_bucket_index(key, t.len());
    lemma_bucket_lookup_push(t[i], key, (key, value));
}

/// Delete-then-read: after a delete of a key, a read of that key fails,
/// whatever was inserted before — in particular right after an insert of
/// that very key.
pub proof fn lemma_delete_then_read(t: Seq<Bucket>, key: usize)
    requires
        t.len() > 0,
    ensures
        table_lookup(table_delete(t, key), key) == None::<usize>,
{
    let i = spec_bucket_index(key, t.len());
    lemma_bucket_without_absent(t[i], key);
}

/// Duplicate tolerance of the bag variant: inserting a fresh key twice makes
/// a read return the first value (the canonical choice), and one delete
/// removes both pairs, so the next read fails.
pub proof fn lemma_duplicate_tolerance(t: Seq<Bucket>, key: usize, a: usize, b: usize)
    requires
        t.len() > 0,
        table_lookup(t, key) is None,
    ensures
        table_lookup(table_insert(table_insert(t, key, a), key, b), key) == Some(a),
        table_lookup(table_delete(table_insert(table_insert(t, key, a), key, b), key), key)
            == None::<usize>,
{
    let t1 = table_insert(t, key, a);
    let t2 = table_insert(t1, key, b);
    lemma_insert_then_read(t, key, a);
    let i = spec_bucket_index(key, t.len());
    lemma_bucket_lookup_push(t1[i], key, (key, b));
    lemma_delete_then_read(t2, key);
}

/// Distinct keys do not disturb each other: an insert of one key changes
/// neither the lookup nor the pair count of any other key, and adds exactly
/// one pair for its own key. With every thread inserting distinct keys, the
/// final table holds exactly one pair per inserted key.
pub proof fn lemma_insert_preserves_distinct(t: Seq<Bucket>, key: usize, value: usize, other: usize)
    requires
        t.len() > 0,
        other != key,
    ensures
        table_lookup(table_insert(t, key, value), other) == table_lookup(t, other),
        table_key_count(table_insert(t, key, value), other) == table_key_count(t, other),
        table_key_count(table_insert(t, key, value), key) == table_key_count(t, key) + 1,
{
    let n = t.len();
    let i = spec_bucket_index(key, n);
    let j = spec_bucket_index(other, n);
    let t1 = table_insert(t, key, value);
    lemma_filter_push(t[i], has_key(key), (key, value));
    if i == j {
        lemma_bucket_lookup_push(t[j], other, (key, value));
        lemma_filter_push(t[j], has_key(other), (key, value));
    } else {
        assert(t1[j] == t[j]);
    }
}

/// A delete of one key leaves the lookup of every other key unchanged.
pub proof fn lemma_delete_preserves_distinct(t: Seq<Bucket>, key: usize, other: usize)
    requires
        t.len() > 0,
        other != key,
    ensures
        table_lookup(table_delete(t, key), other) == table_lookup(t, other),
{
    let n = t.len();
    let i = spec_bucket_index(key, n);
    let j = spec_bucket_index(other, n);
    if i == j {
        lemma_bucket_without_preserves_lookup(t[j], key, other);
    } else {
        assert(table_delete(t, key)[j] == t[j]);
    }
}

/// Removing every pair of one key does not change what another key looks up
/// to within the same bucket.
proof fn lemma_bucket_without_preserves_lookup(b: Bucket, key: usize, other: usize)
    requires
        other != key,
    ensures
        bucket_lookup(bucket_without(b, key), other) == bucket_lookup(b, other),
    decreases b.len(),
{
    if b.len() > 0 {
        let pred = keeps(key);
        lemma_bucket_without_preserves_lookup(b.drop_last(), key, other);
        lemma_filter_push(b.drop_last(), pred, b.last());
        assert(b.drop_last().push(b.last()) =~= b);
        lemma_bucket_lookup_push(b.drop_last(), other, b.last());
        if pred(b.last()) {
            lemma_bucket_lookup_push(bucket_without(b.drop_last(), key), other, b.last());
        }
    }
}

} // verus!
