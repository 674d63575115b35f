//! A map from text to numbers.

use std::collections::HashMap;

use vstd::prelude::*;

use crate::text::{chars_of, same_chars};

verus! {

broadcast use vstd::std_specs::hash::group_hash_axioms;

/// The hash of a text, by which its bucket is found.
pub open spec fn text_hash(s: Seq<char>) -> u64
    decreases s.len(),
{
    if s.len() == 0 {
        14695981039346656037u64
    } else {
        ((text_hash(s.drop_last()) as int * 1099511628211 + s.last() as u32) % 0x1_0000_0000_0000_0000)
            as u64
    }
}

fn hash_chars(s: &[char]) -> (r: u64)
    ensures
        r == text_hash(s@),
{
    let mut h: u64 = 14695981039346656037;
    let mut i: usize = 0;
    while i < s.len()
        invariant
            i <= s@.len(),
            h == text_hash(s@.take(i as int)),
        decreases s@.len() - i,
    {
        proof {
            let t = s@.take(i + 1);
            assert(t.drop_last() =~= s@.take(i as int));
            assert(t.last() == s@[i as int]);
        }
        let wide: u128 = h as u128 * 1099511628211 + s[i] as u32 as u128;
        h = (wide % 0x1_0000_0000_0000_0000) as u64;
        i = i + 1;
    }
    assert(s@.take(s@.len() as int) =~= s@);
    h
}

/// The map that the first `n` pairs of keys and values make.
pub open spec fn pairs_map(keys: Seq<Seq<char>>, values: Seq<u64>, n: nat) -> Map<Seq<char>, u64>
    decreases n,
{
    if n == 0 {
        Map::empty()
    } else {
        pairs_map(keys, values, (n - 1) as nat).insert(keys[n - 1], values[n - 1])
    }
}

/// A map from text to 64-bit numbers, with hashed lookup.
#[derive(Debug, Clone)]
pub struct StringMap {
    keys: Vec<String>,
    values: Vec<u64>,
    buckets: HashMap<u64, Vec<usize>>,
}

impl View for StringMap {
    type V = Map<Seq<char>, u64>;

    closed spec fn view(&self) -> Map<Seq<char>, u64> {
        pairs_map(self.key_seq(), self.values@, self.keys@.len())
    }
}

proof fn lemma_pairs_absent(keys: Seq<Seq<char>>, values: Seq<u64>, n: nat, k: Seq<char>)
    requires
        n <= keys.len(),
        n <= values.len(),
    ensures
        pairs_map(keys, values, n).contains_key(k) <==> exists|i: int| 0 <= i < n && keys[i] == k,
    decreases n,
{
    if n > 0 {
        lemma_pairs_absent(keys, values, (n - 1) as nat, k);
        if keys[n - 1] == k {
            assert(0 <= n - 1 < n && keys[n - 1] == k);
        }
    }
}

proof fn lemma_pairs_present(keys: Seq<Seq<char>>, values: Seq<u64>, n: nat, i: int)
    requires
        n <= keys.len(),
        n <= values.len(),
        0 <= i < n,
        forall|a: int, b: int| 0 <= a < b < n ==> keys[a] != keys[b],
    ensures
        pairs_map(keys, values, n).contains_key(keys[i]),
        pairs_map(keys, values, n)[keys[i]] == values[i],
    decreases n,
{
    if i < n - 1 {
        lemma_pairs_present(keys, values, (n - 1) as nat, i);
        assert(keys[i] != keys[n - 1]);
    }
}

proof fn lemma_pairs_prefix(
    keys: Seq<Seq<char>>,
    values: Seq<u64>,
    keys2: Seq<Seq<char>>,
    values2: Seq<u64>,
    n: nat,
)
    requires
        n <= keys.len(),
        n <= values.len(),
        n <= keys2.len(),
        n <= values2.len(),
        forall|i: int| 0 <= i < n ==> keys[i] == keys2[i],
        forall|i: int| 0 <= i < n ==> values[i] == values2[i],
    ensures
        pairs_map(keys, values, n) == pairs_map(keys2, values2, n),
    decreases n,
{
    if n > 0 {
        lemma_pairs_prefix(keys, values, keys2, values2, (n - 1) as nat);
    }
}

proof fn lemma_pairs_update(keys: Seq<Seq<char>>, values: Seq<u64>, n: nat, i: int, v: u64)
    requires
        n <= keys.len(),
        n <= values.len(),
        0 <= i < n,
        forall|a: int, b: int| 0 <= a < b < n ==> keys[a] != keys[b],
    ensures
        pairs_map(keys, values.update(i, v), n) == pairs_map(keys, values, n).insert(keys[i], v),
    decreases n,
{
    let m = pairs_map(keys, values, (n - 1) as nat);
    if i < n - 1 {
        lemma_pairs_update(keys, values, (n - 1) as nat, i, v);
        assert(keys[i] != keys[n - 1]);
        assert(m.insert(keys[i], v).insert(keys[n - 1], values[n - 1]) =~= m.insert(
            keys[n - 1],
            values[n - 1],
        ).insert(keys[i], v));
    } else {
        lemma_pairs_prefix(keys, values, keys, values.update(i, v), (n - 1) as nat);
        assert(m.insert(keys[i], v) =~= m.insert(keys[i], values[i]).insert(keys[i], v));
    }
}

proof fn lemma_pairs_len(keys: Seq<Seq<char>>, values: Seq<u64>, n: nat)
    requires
        n <= keys.len(),
        n <= values.len(),
        forall|a: int, b: int| 0 <= a < b < n ==> keys[a] != keys[b],
    ensures
        pairs_map(keys, values, n).dom().finite(),
        pairs_map(keys, values, n).len() == n,
    decreases n,
{
    if n > 0 {
        lemma_pairs_len(keys, values, (n - 1) as nat);
        lemma_pairs_absent(keys, values, (n - 1) as nat, keys[n - 1]);
        let m = pairs_map(keys, values, (n - 1) as nat);
        assert(m.insert(keys[n - 1], values[n - 1]).dom() =~= m.dom().insert(keys[n - 1]));
    } else {
        assert(pairs_map(keys, values, 0).dom() =~= Set::empty());
    }
}

impl StringMap {
    spec fn key_seq(&self) -> Seq<Seq<char>> {
        self.keys@.map_values(|s: String| s@)
    }

    /// Keys occur once, and each is found in the bucket of its hash.
    pub closed spec fn wf(&self) -> bool {
        &&& self.keys@.len() == self.values@.len()
        &&& forall|a: int, b: int|
            0 <= a < b < self.keys@.len() ==> self.keys@[a]@ != self.keys@[b]@
        &&& forall|h: u64, p: int|
            self.buckets@.contains_key(h) && 0 <= p < self.buckets@[h]@.len()
                ==> #[trigger] self.buckets@[h]@[p] < self.keys@.len()
        &&& forall|i: int|
            0 <= i < self.keys@.len() ==> self.buckets@.contains_key(
                text_hash(#[trigger] self.keys@[i]@),
            ) && self.buckets@[text_hash(self.keys@[i]@)]@.contains(i as usize)
    }

    /// The empty map.
    pub fn new() -> (r: StringMap)
        ensures
            r.wf(),
            r@ == Map::<Seq<char>, u64>::empty(),
    {
        StringMap { keys: Vec::new(), values: Vec::new(), buckets: HashMap::new() }
    }

    /// Where a key stands, if it is there.
    fn find(&self, key: &[char]) -> (r: Option<usize>)
        requires
            self.wf(),
        ensures
            match r {
                Some(i) => i < self.keys@.len() && self.keys@[i as int]@ == key@,
                None => forall|i: int| 0 <= i < self.keys@.len() ==> self.keys@[i]@ != key@,
            },
    {
        let h: u64 = hash_chars(key);
        match self.buckets.get(&h) {
            None => {
                assert forall|i: int| 0 <= i < self.keys@.len() implies self.keys@[i]@ != key@ by {
                    if self.keys@[i]@ == key@ {
                        assert(self.buckets@.contains_key(text_hash(self.keys@[i]@)));
                    }
                }
                None
            },
            Some(b) => {
                let mut p: usize = 0;
                while p < b.len()
                    invariant
                        self.wf(),
                        p <= b@.len(),
                        self.buckets@.contains_key(h),
                        *b == self.buckets@[h],
                        forall|q: int| 0 <= q < p ==> self.keys@[#[trigger] b@[q] as int]@ != key@,
                    decreases b@.len() - p,
                {
                    let i: usize = b[p];
                    assert(self.buckets@[h]@[p as int] < self.keys@.len());
                    let cs = chars_of(self.keys[i].as_str());
                    if same_chars(&cs, key) {
                        return Some(i);
                    }
                    p = p + 1;
                }
                assert(self.keys@.len() == self.keys.len());
                assert forall|i: int| 0 <= i < self.keys@.len() implies self.keys@[i]@ != key@ by {
                    if self.keys@[i]@ == key@ {
                        assert(b@.contains(i as usize));
                        let q = choose|q: int| 0 <= q < b@.len() && b@[q] == i as usize;
                        assert(self.keys@[b@[q] as int]@ != key@);
                    }
                }
                None
            },
        }
    }

    /// The value of a key.
    pub fn get(&self, key: &[char]) -> (r: Option<u64>)
        requires
            self.wf(),
        ensures
            r == (if self@.contains_key(key@) {
                Some(self@[key@])
            } else {
                None
            }),
    {
        let ghost ks = self.key_seq();
        proof {
            lemma_pairs_absent(ks, self.values@, self.keys@.len(), key@);
        }
        match self.find(key) {
            Some(i) => {
                proof {
                    assert(ks[i as int] == key@);
                    lemma_pairs_present(ks, self.values@, self.keys@.len(), i as int);
                }
                Some(self.values[i])
            },
            None => {
                assert forall|j: int| 0 <= j < self.keys@.len() implies ks[j] != key@ by {
                    assert(ks[j] == self.keys@[j]@);
                }
                None
            },
        }
    }

    /// Whether a key is there.
    pub fn contains(&self, key: &str) -> (r: bool)
        requires
            self.wf(),
        ensures
            r == self@.contains_key(key@),
    {
        let cs = chars_of(key);
        match self.get(&cs) {
            Some(_) => true,
            None => false,
        }
    }

    /// The number of keys.
    pub fn len(&self) -> (r: usize)
        requires
            self.wf(),
        ensures
            r == self@.len(),
            self@.dom().finite(),
    {
        proof {
            lemma_pairs_len(self.key_seq(), self.values@, self.keys@.len());
        }
        self.keys.len()
    }

    /// Gives a key a value, in place of the one it had.
    pub fn insert(&mut self, key: &str, value: u64)
        requires
            old(self).wf(),
        ensures
            final(self).wf(),
            final(self)@ == old(self)@.insert(key@, value),
    {
        let cs = chars_of(key);
        let ghost ks = self.key_seq();
        let ghost n = self.keys@.len();
        match self.find(&cs) {
            Some(i) => {
                proof {
                    assert(ks[i as int] == key@);
                    lemma_pairs_update(ks, self.values@, n, i as int, value);
                }
                self.values.set(i, value);
                assert(self.key_seq() =~= ks);
            },
            None => {
                let h: u64 = hash_chars(&cs);
                let i: usize = self.keys.len();
                let ghost before = *self;
                let mut bucket: Vec<usize> = match self.buckets.remove(&h) {
                    Some(b) => b,
                    None => Vec::new(),
                };
                let ghost b0 = bucket@;
                bucket.push(i);
                self.buckets.insert(h, bucket);
                self.keys.push(key.to_owned());
                self.values.push(value);
                proof {
                    lemma_pairs_prefix(ks, before.values@, self.key_seq(), self.values@, n);
                    assert(bucket@[b0.len() as int] == i);
                    assert forall|a: int, b: int|
                        0 <= a < b < self.keys@.len() implies self.keys@[a]@ != self.keys@[b]@ by {
                        assert(self.keys@[a]@ == before.keys@[a]@);
                        if b < n {
                            assert(self.keys@[b]@ == before.keys@[b]@);
                        }
                    }
                    assert forall|g: u64, p: int|
                        self.buckets@.contains_key(g) && 0 <= p
                            < self.buckets@[g]@.len() implies #[trigger] self.buckets@[g]@[p]
                        < self.keys@.len() by {
                        if g == h {
                            if p < b0.len() {
                                assert(before.buckets@.contains_key(h));
                                assert(before.buckets@[h]@[p] < n);
                            }
                        } else {
                            assert(before.buckets@[g]@[p] < n);
                        }
                    }
                    assert forall|j: int| 0 <= j < self.keys@.len() implies self.buckets@.contains_key(
                        text_hash(#[trigger] self.keys@[j]@),
                    ) && self.buckets@[text_hash(self.keys@[j]@)]@.contains(j as usize) by {
                        if j < n {
                            assert(self.keys@[j]@ == before.keys@[j]@);
                            let g = text_hash(before.keys@[j]@);
                            assert(before.buckets@[g]@.contains(j as usize));
                            if g == h {
                                let q = choose|q: int|
                                    0 <= q < b0.len() && b0[q] == j as usize;
                                assert(bucket@[q] == j as usize);
                            }
                        }
                    }
                }
            },
        }
    }
}

} // verus!
