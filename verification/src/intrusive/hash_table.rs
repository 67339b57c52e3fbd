//! A hash table of intrusive lists: each bucket is a doubly-linked list
//! threaded through the links of its values, and a value lands in the bucket
//! that the SipHash of its key picks.
//!
//! As with the lists, the links of all the values are kept in one table
//! indexed by the value's number, and so are their keys.
use core::marker::PhantomData;

use vstd::prelude::*;
use vstd::arithmetic::power2::pow2;
use vstd::bytes::spec_u64_to_le_bytes;

use super::list::{is_chain, next_of, unlink_at, AtomicLink, HList};

verus! {

/// What SipHash-2-4 keyed with the 16 bytes `key` gives for the message `bytes`.
pub uninterp spec fn sip_hash(key: Seq<u8>, bytes: Seq<u8>) -> u64;

/// Hashes `bytes` with SipHash-2-4 keyed with `key`: `siphasher::sip::SipHasher::new_with_key`
/// builds the hasher, and `SipHasher::hash` feeds it the message and finishes it. The
/// result is a function of the key and the message alone.
#[verifier::external_body]
fn sip_hash_bytes(key: &[u8; 16], bytes: &[u8]) -> (r: u64)
    ensures
        r == sip_hash(key@, bytes@),
{
    siphasher::sip::SipHasher::new_with_key(key).hash(bytes)
}

/// The key of the hasher of the default hash state.
pub open spec fn default_key() -> Seq<u8> {
    seq![
        0x61u8, 0x0du8, 0xc7u8, 0xceu8, 0x1eu8, 0xc3u8, 0x64u8, 0x93u8,
        0x23u8, 0x16u8, 0xeau8, 0xbcu8, 0x05u8, 0x87u8, 0x3fu8, 0x9eu8,
    ]
}

/// The hash of `key` under the default hash state: SipHash-2-4 of its
/// little-endian bytes, keyed with the default key.
pub open spec fn default_hash(key: u64) -> u64 {
    sip_hash(default_key(), spec_u64_to_le_bytes(key))
}

/// The hash state of a table: SipHash-2-4 with a fixed key.
#[derive(Clone, Copy, Debug)]
pub struct DefaultState;

impl DefaultState {
    /// The hash of `key`.
    pub fn hash_one(&self, key: u64) -> (r: u64)
        ensures
            r == default_hash(key),
    {
        let k: [u8; 16] = [
            0x61, 0x0d, 0xc7, 0xce, 0x1e, 0xc3, 0x64, 0x93, 0x23, 0x16, 0xea, 0xbc, 0x05, 0x87,
            0x3f, 0x9e,
        ];
        assert(k@ =~= default_key());
        let bytes = vstd::bytes::u64_to_le_bytes(key);
        sip_hash_bytes(&k, bytes.as_slice())
    }
}

/// The number of buckets of a table, as a power of two.
pub trait BucketSize {
    /// The base-two logarithm of the number of buckets.
    spec fn spec_order() -> nat;

    fn order() -> (r: u8)
        ensures
            r as nat == Self::spec_order(),
    ;
}

/// Two to the power `N` buckets.
pub struct Order<const N: u8>;

impl<const N: u8> BucketSize for Order<N> {
    open spec fn spec_order() -> nat {
        N as nat
    }

    fn order() -> (r: u8) {
        N
    }
}

pub type O0 = Order<0>;
pub type O1 = Order<1>;
pub type O2 = Order<2>;
pub type O3 = Order<3>;
pub type O4 = Order<4>;
pub type O5 = Order<5>;
pub type O6 = Order<6>;
pub type O7 = Order<7>;
pub type O8 = Order<8>;
pub type O9 = Order<9>;
pub type O10 = Order<10>;
pub type O11 = Order<11>;
pub type O12 = Order<12>;
pub type O13 = Order<13>;
pub type O14 = Order<14>;
pub type O15 = Order<15>;
pub type O16 = Order<16>;

/// The error of inserting a value whose link some list already holds.
#[derive(Clone, Copy, Debug, PartialEq, Eq)]
pub struct LinkAlreadyAcquiredError;

/// The bucket, among `n`, of the key `key`.
pub open spec fn key_bucket(key: u64, n: nat) -> int {
    (default_hash(key) as usize) as int % (n as int)
}

/// Some bucket of `lists` holds `v`.
pub open spec fn in_table(lists: Seq<Seq<usize>>, v: usize) -> bool {
    exists|b: int| 0 <= b < lists.len() && #[trigger] lists[b].contains(v)
}

/// The first value of `nodes`, from position `k` on, whose key in `keys` is `key`.
pub open spec fn first_with_key(nodes: Seq<usize>, keys: Seq<u64>, key: u64, k: int) -> Option<usize>
    decreases nodes.len() - k,
{
    if k < 0 || k >= nodes.len() {
        None
    } else if keys[nodes[k] as int] == key {
        Some(nodes[k])
    } else {
        first_with_key(nodes, keys, key, k + 1)
    }
}

/// The first bucket of `lists`, from bucket `i` on, that holds a value.
pub open spec fn first_nonempty(lists: Seq<Seq<usize>>, i: int) -> Option<int>
    decreases lists.len() - i,
{
    if i < 0 || i >= lists.len() {
        None
    } else if lists[i].len() > 0 {
        Some(i)
    } else {
        first_nonempty(lists, i + 1)
    }
}

/// `cur` and `bucket` are a position in the buckets `lists`: no value, or a
/// value and the bucket that holds it.
pub open spec fn is_position(lists: Seq<Seq<usize>>, cur: Option<usize>, bucket: int) -> bool {
    &&& 0 <= bucket < lists.len()
    &&& cur matches Some(v) ==> lists[bucket].contains(v)
}

/// The position of the first value of the table, or no value at bucket zero.
pub open spec fn front_position(lists: Seq<Seq<usize>>) -> (Option<usize>, int) {
    match first_nonempty(lists, 0) {
        Some(j) => (Some(lists[j][0]), j),
        None => (None, 0),
    }
}

/// The position after `cur` in bucket `bucket`: the next value of the bucket,
/// or else the first value of a later bucket, or else no value at the same bucket.
pub open spec fn next_position(lists: Seq<Seq<usize>>, cur: Option<usize>, bucket: int) -> (Option<usize>, int) {
    let k = match cur {
        Some(v) => lists[bucket].index_of(v),
        None => lists[bucket].len() as int,
    };
    if k + 1 < lists[bucket].len() {
        (Some(lists[bucket][k + 1]), bucket)
    } else {
        match first_nonempty(lists, bucket + 1) {
            Some(j) => (Some(lists[j][0]), j),
            None => (None, bucket),
        }
    }
}

/// No value is in two of the buckets `lists`.
pub open spec fn buckets_disjoint(lists: Seq<Seq<usize>>) -> bool {
    forall|b1: int, b2: int, i: int, j: int|
        0 <= b1 < lists.len() && 0 <= b2 < lists.len() && 0 <= i < lists[b1].len() && 0 <= j
            < lists[b2].len() && #[trigger] lists[b1][i] == #[trigger] lists[b2][j] ==> b1 == b2
}

/// A position in a table: a value and its bucket, or no value.
#[derive(Clone, Copy)]
pub struct RawCursor {
    cur: Option<usize>,
    bucket: usize,
}

impl RawCursor {
    /// The value at the position.
    pub closed spec fn spec_cur(&self) -> Option<usize> {
        self.cur
    }

    /// The bucket of the position.
    pub closed spec fn spec_bucket(&self) -> int {
        self.bucket as int
    }
}

/// A hash table whose buckets are lists of values.
pub struct HashTable<B: BucketSize> {
    buckets: Vec<Option<usize>>,
    lists: Ghost<Seq<Seq<usize>>>,
    state: DefaultState,
    size: PhantomData<B>,
}

impl<B: BucketSize> HashTable<B> {
    /// The values of each bucket, from its head on.
    pub closed spec fn view(&self) -> Seq<Seq<usize>> {
        self.lists@
    }

    /// The buckets are chains through `links` from their heads, and no value
    /// is in two buckets.
    #[verifier::opaque]
    pub closed spec fn wf_links(&self, links: Seq<AtomicLink>) -> bool {
        let n = self.lists@.len();
        &&& n == self.buckets@.len()
        &&& n == pow2(B::spec_order())
        &&& forall|b: int| 0 <= b < n ==> #[trigger] is_chain(links, self.lists@[b], self.buckets@[b])
        &&& buckets_disjoint(self.lists@)
    }

    /// Each bucket holds only values whose key, in `keys`, it is the bucket of.
    #[verifier::opaque]
    pub closed spec fn wf_keys(&self, keys: Seq<u64>) -> bool {
        let n = self.lists@.len();
        forall|b: int, i: int|
            0 <= b < n && 0 <= i < self.lists@[b].len() ==> #[trigger] self.lists@[b][i] < keys.len()
                && key_bucket(keys[self.lists@[b][i] as int], n) == b
    }

    /// The table is consistent with the links and keys of its values.
    pub open spec fn wf(&self, links: Seq<AtomicLink>, keys: Seq<u64>) -> bool {
        self.wf_links(links) && self.wf_keys(keys)
    }

    /// The facts that the well-formedness of the table gives.
    pub proof fn lemma_wf(&self, links: Seq<AtomicLink>, keys: Seq<u64>)
        requires
            self.wf(links, keys),
        ensures
            self.view().len() == pow2(B::spec_order()),
            forall|b: int| 0 <= b < self.view().len() ==> #[trigger] self.view()[b].no_duplicates(),
            forall|b: int, i: int|
                0 <= b < self.view().len() && 0 <= i < self.view()[b].len() ==> {
                    &&& #[trigger] self.view()[b][i] < links.len()
                    &&& self.view()[b][i] < keys.len()
                    &&& links[self.view()[b][i] as int].spec_linked()
                    &&& key_bucket(keys[self.view()[b][i] as int], self.view().len()) == b
                },
    {
        reveal(HashTable::wf_links);
        reveal(HashTable::wf_keys);
        assert forall|b: int| 0 <= b < self.view().len() implies #[trigger] self.view()[b].no_duplicates() by {
            assert(is_chain(links, self.lists@[b], self.buckets@[b]));
        }
        assert forall|b: int, i: int|
            0 <= b < self.view().len() && 0 <= i < self.view()[b].len() implies {
                &&& #[trigger] self.view()[b][i] < links.len()
                &&& self.view()[b][i] < keys.len()
                &&& links[self.view()[b][i] as int].spec_linked()
                &&& key_bucket(keys[self.view()[b][i] as int], self.view().len()) == b
            } by {
            assert(is_chain(links, self.lists@[b], self.buckets@[b]));
        }
    }

    /// An empty table that hashes with `state`.
    pub fn with_state(state: DefaultState) -> (r: Self)
        requires
            B::spec_order() <= 16,
        ensures
            r.view().len() == pow2(B::spec_order()),
            forall|b: int| 0 <= b < r.view().len() ==> #[trigger] r.view()[b] == Seq::<usize>::empty(),
            forall|links: Seq<AtomicLink>, keys: Seq<u64>| r.wf(links, keys),
    {
        let order = B::order();
        proof {
            vstd::arithmetic::power2::lemma_pow2_strictly_increases(order as nat, 17);
            vstd::arithmetic::power2::lemma2_to64();
            vstd::bits::lemma_u64_shl_is_mul(1, order as u64);
        }
        let n: u64 = 1u64 << order;
        let mut buckets: Vec<Option<usize>> = Vec::new();
        let mut i: u64 = 0;
        while i < n
            invariant
                0 <= i <= n,
                n == pow2(B::spec_order()),
                n <= 0x1_0000,
                buckets@.len() == i,
                forall|b: int| 0 <= b < i ==> #[trigger] buckets@[b] is None,
            decreases n - i,
        {
            buckets.push(None);
            i = i + 1;
        }
        let ghost lists = Seq::new(n as nat, |b: int| Seq::<usize>::empty());
        let r = HashTable { buckets, lists: Ghost(lists), state, size: PhantomData };
        proof {
            assert forall|links: Seq<AtomicLink>, keys: Seq<u64>| r.wf(links, keys) by {
                reveal(HashTable::wf_links);
                reveal(HashTable::wf_keys);
                assert forall|b: int| 0 <= b < r.lists@.len() implies #[trigger] is_chain(
                    links,
                    r.lists@[b],
                    r.buckets@[b],
                ) by {
                    assert(r.lists@[b] == Seq::<usize>::empty());
                }
            }
        }
        r
    }

    /// An empty table that hashes with the default state.
    pub fn new() -> (r: Self)
        requires
            B::spec_order() <= 16,
        ensures
            r.view().len() == pow2(B::spec_order()),
            forall|b: int| 0 <= b < r.view().len() ==> #[trigger] r.view()[b] == Seq::<usize>::empty(),
            forall|links: Seq<AtomicLink>, keys: Seq<u64>| r.wf(links, keys),
    {
        Self::with_state(DefaultState)
    }

    /// The bucket of `key`.
    fn bucket_for(&self, key: u64) -> (r: usize)
        requires
            self.buckets@.len() > 0,
        ensures
            r == key_bucket(key, self.buckets@.len()),
            r < self.buckets@.len(),
    {
        let h = self.state.hash_one(key);
        (h as usize) % self.buckets.len()
    }

    /// Puts value `v` at the head of the bucket of its key, unless its link is
    /// already taken.
    pub fn try_insert(&mut self, links: &mut Vec<AtomicLink>, keys: &Vec<u64>, v: usize) -> (r: Result<
        (),
        LinkAlreadyAcquiredError,
    >)
        requires
            old(self).wf(old(links)@, keys@),
            v < old(links)@.len(),
            v < keys@.len(),
        ensures
            final(self).wf(final(links)@, keys@),
            final(links)@.len() == old(links)@.len(),
            old(links)@[v as int].spec_linked() ==> r == Err::<(), LinkAlreadyAcquiredError>(
                LinkAlreadyAcquiredError,
            ) && final(self).view() == old(self).view() && final(links)@ == old(links)@,
            !old(links)@[v as int].spec_linked() ==> r == Ok::<(), LinkAlreadyAcquiredError>(()) && {
                let b = key_bucket(keys@[v as int], old(self).view().len());
                final(self).view() == old(self).view().update(b, seq![v] + old(self).view()[b])
            } && final(links)@[v as int].spec_linked(),
            forall|j: int|
                0 <= j < final(links)@.len() && j != v && !in_table(old(self).view(), j as usize)
                    ==> #[trigger] final(links)@[j] == old(links)@[j],
    {
        proof {
            reveal(HashTable::wf_links);
            reveal(HashTable::wf_keys);
            vstd::arithmetic::power2::lemma_pow2_pos(B::spec_order());
        }
        let ghost old_lists = self.lists@;
        let ghost old_links = links@;
        let ghost old_buckets = self.buckets@;
        let ghost n = old_lists.len();
        let b = self.bucket_for(keys[v]);
        let mut l = HList::from_parts(self.buckets[b], Ghost(self.lists@[b as int]));
        proof {
            assert(is_chain(links@, old_lists[b as int], self.buckets@[b as int]));
            l.lemma_wf_chain(links@);
        }
        let r = l.try_push_front(links, v);
        proof {
            l.lemma_wf_chain(links@);
        }
        self.buckets.set(b, l.head());
        self.lists = Ghost(self.lists@.update(b as int, l.view()));
        proof {
            let new_links = links@;
            assert forall|c: int, i: int| 0 <= c < n && c != b && 0 <= i < old_lists[c].len() implies
                new_links[#[trigger] old_lists[c][i] as int] == old_links[old_lists[c][i] as int] by {
                let j = old_lists[c][i];
                assert(old_lists[c][i] < keys@.len() && key_bucket(keys@[j as int], n) == c);
                assert(is_chain(old_links, old_lists[c], old_buckets[c]));
                if old_lists[b as int].contains(j) {
                    let k = choose|k: int| 0 <= k < old_lists[b as int].len() && old_lists[b as int][k] == j;
                    assert(old_lists[b as int][k] < keys@.len());
                }
                if j == v {
                    assert(old_links[old_lists[c][i] as int].spec_linked());
                }
                if !in_table(old_lists, j) {
                    assert(old_lists[c].contains(j));
                }
            }
            assert forall|c: int| 0 <= c < n implies #[trigger] is_chain(new_links, self.lists@[c], self.buckets@[c]) by {
                if c != b {
                    assert(is_chain(old_links, old_lists[c], old_buckets[c]));
                    assert forall|i: int| 0 <= i < old_lists[c].len() implies new_links[#[trigger] old_lists[c][i] as int]
                        == old_links[old_lists[c][i] as int] by {
                    }
                }
            }
            assert forall|c: int, i: int|
                0 <= c < n && 0 <= i < self.lists@[c].len() implies #[trigger] self.lists@[c][i] < keys@.len()
                    && key_bucket(keys@[self.lists@[c][i] as int], n) == c by {
                if c == b && !old_links[v as int].spec_linked() {
                    if i > 0 {
                        assert(self.lists@[c][i] == old_lists[c][i - 1]);
                    }
                }
            }
            assert forall|j: int|
                0 <= j < new_links.len() && j != v && !in_table(old_lists, j as usize) implies #[trigger] new_links[j]
                == old_links[j] by {
                if old_lists[b as int].contains(j as usize) {
                    assert(in_table(old_lists, j as usize));
                }
            }
        }
        match r {
            Ok(()) => Ok(()),
            Err(_) => Err(LinkAlreadyAcquiredError),
        }
    }

    /// Puts value `v`, whose link no list holds, at the head of the bucket of its key.
    pub fn insert(&mut self, links: &mut Vec<AtomicLink>, keys: &Vec<u64>, v: usize)
        requires
            old(self).wf(old(links)@, keys@),
            v < old(links)@.len(),
            v < keys@.len(),
            !old(links)@[v as int].spec_linked(),
        ensures
            final(self).wf(final(links)@, keys@),
            final(links)@.len() == old(links)@.len(),
            ({
                let b = key_bucket(keys@[v as int], old(self).view().len());
                final(self).view() == old(self).view().update(b, seq![v] + old(self).view()[b])
            }),
            final(links)@[v as int].spec_linked(),
            forall|j: int|
                0 <= j < final(links)@.len() && j != v && !in_table(old(self).view(), j as usize)
                    ==> #[trigger] final(links)@[j] == old(links)@[j],
    {
        let _ = self.try_insert(links, keys, v);
    }

    /// Takes the first value of the bucket of `key` whose key is `key` off
    /// the table, freeing its link, and gives it back.
    pub fn remove(&mut self, links: &mut Vec<AtomicLink>, keys: &Vec<u64>, key: u64) -> (r: Option<usize>)
        requires
            old(self).wf(old(links)@, keys@),
        ensures
            final(self).wf(final(links)@, keys@),
            final(links)@.len() == old(links)@.len(),
            ({
                let b = key_bucket(key, old(self).view().len());
                &&& r == first_with_key(old(self).view()[b], keys@, key, 0)
                &&& r is None ==> final(self).view() == old(self).view() && final(links)@ == old(links)@
                &&& r matches Some(v) ==> final(self).view() == old(self).view().update(
                    b,
                    old(self).view()[b].remove(old(self).view()[b].index_of(v)),
                ) && !final(links)@[v as int].spec_linked()
            }),
    {
        let pos = self.find_raw(links, keys, key);
        proof {
            reveal(HashTable::wf_links);
            vstd::arithmetic::power2::lemma_pow2_pos(B::spec_order());
        }
        self.unlink(links, pos)
    }

    /// The position of the first value, in the bucket of `key`, whose key is
    /// `key`; no value at bucket zero when there is none.
    fn find_raw(&self, links: &Vec<AtomicLink>, keys: &Vec<u64>, key: u64) -> (r: RawCursor)
        requires
            self.wf(links@, keys@),
        ensures
            ({
                let b = key_bucket(key, self.view().len());
                match first_with_key(self.view()[b], keys@, key, 0) {
                    Some(v) => r.cur == Some(v) && r.bucket == b,
                    None => r.cur is None && r.bucket == 0,
                }
            }),
            r.cur matches Some(v) ==> r.bucket < self.view().len() && self.view()[r.bucket as int].contains(v),
    {
        proof {
            reveal(HashTable::wf_links);
            reveal(HashTable::wf_keys);
            vstd::arithmetic::power2::lemma_pow2_pos(B::spec_order());
        }
        let b = self.bucket_for(key);
        let ghost nodes = self.lists@[b as int];
        let ghost n = self.lists@.len();
        proof {
            assert(is_chain(links@, nodes, self.buckets@[b as int]));
            assert forall|i: int| 0 <= i < nodes.len() implies #[trigger] nodes[i] < keys@.len() by {
                assert(self.lists@[b as int][i] < keys@.len());
            }
        }
        let mut cur_opt = self.buckets[b];
        let ghost mut k: int = 0;
        loop
            invariant
                b < n,
                n == self.lists@.len(),
                b as int == key_bucket(key, n),
                nodes == self.lists@[b as int],
                0 <= k <= nodes.len(),
                cur_opt == (if k < nodes.len() { Some(nodes[k]) } else { None::<usize> }),
                first_with_key(nodes, keys@, key, k) == first_with_key(nodes, keys@, key, 0),
                forall|i: int| 0 <= i < nodes.len() ==> #[trigger] nodes[i] < keys@.len(),
                forall|i: int| 0 <= i < nodes.len() ==> #[trigger] nodes[i] < links@.len()
                    && links@[nodes[i] as int].spec_next() == next_of(nodes, i),
            decreases nodes.len() - k,
        {
            match cur_opt {
                None => {
                    return RawCursor { cur: None, bucket: 0 };
                },
                Some(cur) => {
                    if keys[cur] == key {
                        proof {
                            assert(nodes[k] == cur);
                            assert(self.view()[b as int].contains(cur));
                        }
                        return RawCursor { cur: Some(cur), bucket: b };
                    }
                    proof {
                        assert(nodes[k] == cur);
                    }
                    cur_opt = links[cur].next();
                    proof {
                        k = k + 1;
                    }
                },
            }
        }
    }

    /// A cursor on the first value of the bucket of `key` whose key is `key`,
    /// or on no value.
    pub fn find<'a>(&'a self, links: &Vec<AtomicLink>, keys: &Vec<u64>, key: u64) -> (r: Cursor<'a, B>)
        requires
            self.wf(links@, keys@),
        ensures
            r.spec_table() == *self,
            ({
                let b = key_bucket(key, self.view().len());
                match first_with_key(self.view()[b], keys@, key, 0) {
                    Some(v) => r.spec_cur() == Some(v) && r.spec_bucket() == b,
                    None => r.spec_cur() is None && r.spec_bucket() == 0,
                }
            }),
    {
        let cursor = self.find_raw(links, keys, key);
        Cursor { cursor, table: self }
    }

    /// The position of the first value of the table.
    fn front_raw(&self, links: &Vec<AtomicLink>) -> (r: RawCursor)
        requires
            self.wf_links(links@),
        ensures
            (r.cur, r.bucket as int) == front_position(self.view()),
    {
        proof {
            reveal(HashTable::wf_links);
        }
        let n = self.buckets.len();
        let mut i: usize = 0;
        while i < n
            invariant
                0 <= i <= n,
                n == self.lists@.len(),
                n == self.buckets@.len(),
                forall|b: int| 0 <= b < n ==> #[trigger] is_chain(links@, self.lists@[b], self.buckets@[b]),
                first_nonempty(self.lists@, i as int) == first_nonempty(self.lists@, 0),
            decreases n - i,
        {
            proof {
                assert(is_chain(links@, self.lists@[i as int], self.buckets@[i as int]));
            }
            if let Some(head) = self.buckets[i] {
                return RawCursor { cur: Some(head), bucket: i };
            }
            i = i + 1;
        }
        RawCursor { cur: None, bucket: 0 }
    }

    /// A cursor on the first value of the table, or on no value.
    pub fn front<'a>(&'a self, links: &Vec<AtomicLink>) -> (r: Cursor<'a, B>)
        requires
            self.wf_links(links@),
        ensures
            r.spec_table() == *self,
            (r.spec_cur(), r.spec_bucket()) == front_position(self.view()),
    {
        let cursor = self.front_raw(links);
        proof {
            reveal(HashTable::wf_links);
            lemma_first_nonempty_range(self.view(), 0);
            vstd::arithmetic::power2::lemma_pow2_pos(B::spec_order());
        }
        Cursor { cursor, table: self }
    }

    /// A cursor on no value, at bucket zero.
    pub fn cursor<'a>(&'a self) -> (r: Cursor<'a, B>)
        ensures
            r.spec_table() == *self,
            r.spec_cur() is None,
            r.spec_bucket() == 0,
    {
        Cursor { cursor: RawCursor { cur: None, bucket: 0 }, table: self }
    }

    /// Iterates over the values of the table, bucket by bucket.
    pub fn iter<'a>(&'a self, links: &Vec<AtomicLink>) -> (r: Iter<'a, B>)
        requires
            self.wf_links(links@),
        ensures
            r.spec_table() == *self,
            (r.spec_cur(), r.spec_bucket()) == front_position(self.view()),
    {
        let c = self.front(links);
        proof {
            use_type_invariant(&c);
        }
        Iter { cursor: c.cursor, table: self }
    }

    /// The position after `c`.
    fn next_raw(&self, links: &Vec<AtomicLink>, c: RawCursor) -> (r: RawCursor)
        requires
            self.wf_links(links@),
            is_position(self.view(), c.cur, c.bucket as int),
        ensures
            (r.cur, r.bucket as int) == next_position(self.view(), c.cur, c.bucket as int),
            is_position(self.view(), r.cur, r.bucket as int),
    {
        proof {
            reveal(HashTable::wf_links);
        }
        let ghost lists = self.lists@;
        let ghost nodes = lists[c.bucket as int];
        proof {
            assert(is_chain(links@, nodes, self.buckets@[c.bucket as int]));
        }
        if let Some(cur) = c.cur {
            proof {
                let k = nodes.index_of(cur);
                assert(0 <= k < nodes.len() && nodes[k] == cur);
                assert(links@[nodes[k] as int].spec_next() == next_of(nodes, k));
            }
            if let Some(next) = links[cur].next() {
                proof {
                    let k = nodes.index_of(cur);
                    assert(nodes[k + 1] == next);
                    assert(nodes.contains(next));
                }
                return RawCursor { cur: Some(next), bucket: c.bucket };
            }
        }
        let n = self.buckets.len();
        let mut i: usize = c.bucket + 1;
        let ghost k = match c.cur {
            Some(v) => nodes.index_of(v),
            None => nodes.len() as int,
        };
        proof {
            lemma_first_nonempty_range(lists, c.bucket + 1);
            assert(k + 1 >= nodes.len());
        }
        while i < n
            invariant
                k + 1 >= nodes.len(),
                nodes == lists[c.bucket as int],
                k == (match c.cur {
                    Some(v) => nodes.index_of(v),
                    None => nodes.len() as int,
                }),
                c.bucket + 1 <= i,
                i <= n || i == c.bucket + 1,
                n == lists.len(),
                n == self.buckets@.len(),
                lists == self.lists@,
                forall|b: int| 0 <= b < n ==> #[trigger] is_chain(links@, lists[b], self.buckets@[b]),
                first_nonempty(lists, i as int) == first_nonempty(lists, c.bucket + 1),
            decreases n - i,
        {
            proof {
                assert(is_chain(links@, lists[i as int], self.buckets@[i as int]));
            }
            if let Some(head) = self.buckets[i] {
                proof {
                    assert(lists[i as int][0] == head);
                    assert(lists[i as int].contains(head));
                }
                return RawCursor { cur: Some(head), bucket: i };
            }
            i = i + 1;
        }
        proof {
            assert(first_nonempty(lists, i as int) is None);
        }
        RawCursor { cur: None, bucket: c.bucket }
    }

    /// Takes every value off the table, freeing their links.
    pub fn clear(&mut self, links: &mut Vec<AtomicLink>)
        requires
            old(self).wf_links(old(links)@),
        ensures
            final(self).view().len() == old(self).view().len(),
            forall|b: int| 0 <= b < final(self).view().len() ==> #[trigger] final(self).view()[b] == Seq::<usize>::empty(),
            forall|keys: Seq<u64>| final(self).wf(final(links)@, keys),
            final(links)@.len() == old(links)@.len(),
            forall|b: int, k: int|
                0 <= b < old(self).view().len() && 0 <= k < old(self).view()[b].len() ==> final(links)@[#[trigger] old(self).view()[b][k] as int].spec_free(),
            forall|j: int|
                0 <= j < final(links)@.len() && !in_table(old(self).view(), j as usize) ==> #[trigger] final(links)@[j] == old(links)@[j],
    {
        proof {
            reveal(HashTable::wf_links);
        }
        let ghost old_lists = self.lists@;
        let ghost old_links = links@;
        let n = self.buckets.len();
        proof {
            assert forall|c: int, k: int| 0 <= c < n && 0 <= k < old_lists[c].len() implies #[trigger] old_lists[c][k] < old_links.len() by {
                assert(is_chain(old_links, old_lists[c], self.buckets@[c]));
            }
        }
        let mut b: usize = 0;
        while b < n
            invariant
                0 <= b <= n,
                n == self.buckets@.len(),
                n == self.lists@.len(),
                n == old_lists.len(),
                n == pow2(B::spec_order()),
                links@.len() == old_links.len(),
                buckets_disjoint(old_lists),
                forall|c: int, k: int| 0 <= c < n && 0 <= k < old_lists[c].len() ==> #[trigger] old_lists[c][k] < old_links.len(),
                forall|c: int| 0 <= c < b ==> #[trigger] self.lists@[c] == Seq::<usize>::empty(),
                forall|c: int| 0 <= c < b ==> #[trigger] self.buckets@[c] is None,
                forall|c: int| b <= c < n ==> #[trigger] self.lists@[c] == old_lists[c],
                forall|c: int| b <= c < n ==> #[trigger] is_chain(links@, self.lists@[c], self.buckets@[c]),
                forall|c: int, k: int| 0 <= c < b && 0 <= k < old_lists[c].len() ==> links@[#[trigger] old_lists[c][k] as int].spec_free(),
                forall|j: int|
                    0 <= j < links@.len() && !(exists|c: int| 0 <= c < b && #[trigger] old_lists[c].contains(j as usize)) ==> #[trigger] links@[j] == old_links[j],
            decreases n - b,
        {
            let ghost before = links@;
            let ghost bk = self.buckets@;
            let ghost ls = self.lists@;
            let ghost nodes = old_lists[b as int];
            let mut l = HList::from_parts(self.buckets[b], Ghost(self.lists@[b as int]));
            proof {
                assert(is_chain(links@, self.lists@[b as int], self.buckets@[b as int]));
                l.lemma_wf_chain(links@);
                assert(ls[b as int] == old_lists[b as int]);
                assert(l.view() == nodes);
            }
            l.clear(links);
            proof {
                assert forall|k: int| 0 <= k < nodes.len() implies links@[#[trigger] nodes[k] as int].spec_free() by {
                }
            }
            self.buckets.set(b, None);
            self.lists = Ghost(self.lists@.update(b as int, Seq::<usize>::empty()));
            proof {
                let after = links@;
                assert(l.view() == Seq::<usize>::empty());
                assert forall|c: int| b < c < n implies #[trigger] is_chain(after, self.lists@[c], self.buckets@[c]) by {
                    assert(is_chain(before, ls[c], bk[c]));
                    assert(ls[c] == old_lists[c]);
                    assert(bk[c] == self.buckets@[c]);
                    assert forall|k: int| 0 <= k < old_lists[c].len() implies after[#[trigger] old_lists[c][k] as int]
                        == before[old_lists[c][k] as int] by {
                        let v = old_lists[c][k];
                        if nodes.contains(v) {
                            let i = choose|i: int| 0 <= i < nodes.len() && nodes[i] == v;
                            assert(old_lists[b as int][i] == old_lists[c][k]);
                        }
                    }
                }
                assert forall|c: int, k: int| 0 <= c < b + 1 && 0 <= k < old_lists[c].len() implies after[#[trigger] old_lists[c][k] as int].spec_free() by {
                    if c == b {
                        assert(nodes[k] == old_lists[c][k]);
                        assert(after[nodes[k] as int].spec_free());
                    } else {
                        let v = old_lists[c][k];
                        if nodes.contains(v) {
                            let i = choose|i: int| 0 <= i < nodes.len() && nodes[i] == v;
                            assert(old_lists[b as int][i] == old_lists[c][k]);
                        }
                        assert(!nodes.contains((v as int) as usize));
                        assert(after[v as int] == before[v as int]);
                        assert(before[old_lists[c][k] as int].spec_free());
                    }
                }
                assert forall|j: int|
                    0 <= j < after.len() && !(exists|c: int| 0 <= c < b + 1 && #[trigger] old_lists[c].contains(j as usize)) implies #[trigger] after[j] == old_links[j] by {
                    assert(!nodes.contains(j as usize));
                }
                assert forall|c: int| 0 <= c < b + 1 implies #[trigger] self.lists@[c] == Seq::<usize>::empty() by {
                    if c < b {
                        assert(ls[c] == Seq::<usize>::empty());
                    }
                }
                assert forall|c: int| 0 <= c < b + 1 implies #[trigger] self.buckets@[c] is None by {
                    if c < b {
                        assert(bk[c] is None);
                    }
                }
            }
            b = b + 1;
        }
        proof {
            assert forall|keys: Seq<u64>| self.wf(links@, keys) by {
                reveal(HashTable::wf_links);
                reveal(HashTable::wf_keys);
                assert forall|c: int| 0 <= c < n implies #[trigger] is_chain(links@, self.lists@[c], self.buckets@[c]) by {
                    assert(self.lists@[c] == Seq::<usize>::empty());
                }
            }
            assert forall|j: int|
                0 <= j < links@.len() && !in_table(old_lists, j as usize) implies #[trigger] links@[j] == old_links[j] by {
                if exists|c: int| 0 <= c < n && #[trigger] old_lists[c].contains(j as usize) {
                    let c = choose|c: int| 0 <= c < n && #[trigger] old_lists[c].contains(j as usize);
                    assert(in_table(old_lists, j as usize));
                }
            }
        }
    }

    /// Takes the value at `pos` off its bucket, freeing its link, and gives it
    /// back; does nothing at a position with no value.
    pub fn unlink(&mut self, links: &mut Vec<AtomicLink>, pos: RawCursor) -> (r: Option<usize>)
        requires
            old(self).wf_links(old(links)@),
            is_position(old(self).view(), pos.spec_cur(), pos.spec_bucket()),
        ensures
            r == pos.spec_cur(),
            final(self).wf_links(final(links)@),
            final(links)@.len() == old(links)@.len(),
            forall|keys: Seq<u64>| old(self).wf_keys(keys) ==> final(self).wf_keys(keys),
            r is None ==> final(self).view() == old(self).view() && final(links)@ == old(links)@,
            r matches Some(v) ==> {
                let b = pos.spec_bucket();
                let k = old(self).view()[b].index_of(v);
                &&& final(self).view() == old(self).view().update(b, old(self).view()[b].remove(k))
                &&& !final(links)@[v as int].spec_linked()
                &&& final(links)@[v as int].spec_next() is None
                &&& final(links)@[v as int].spec_prev() is None
                &&& forall|j: int|
                    0 <= j < final(links)@.len() && j != v && !old(self).view()[b].contains(j as usize)
                        ==> #[trigger] final(links)@[j] == old(links)@[j]
            },
    {
        let cur = match pos.cur {
            None => return None,
            Some(cur) => cur,
        };
        proof {
            reveal(HashTable::wf_links);
        }
        let b = pos.bucket;
        let ghost old_lists = self.lists@;
        let ghost old_buckets = self.buckets@;
        let ghost old_links = links@;
        let ghost nodes = old_lists[b as int];
        let ghost k = nodes.index_of(cur);
        let ghost nn = nodes.remove(k);
        proof {
            assert(is_chain(old_links, nodes, old_buckets[b as int]));
            assert(0 <= k < nodes.len() && nodes[k] == cur);
        }
        let head = unlink_at(links, self.buckets[b], Ghost(nodes), cur);
        self.buckets.set(b, head);
        self.lists = Ghost(old_lists.update(b as int, nn));
        proof {
            let new_links = links@;
            assert forall|c: int| 0 <= c < self.lists@.len() implies #[trigger] is_chain(
                new_links,
                self.lists@[c],
                self.buckets@[c],
            ) by {
                if c != b {
                    assert(is_chain(old_links, old_lists[c], old_buckets[c]));
                    assert forall|i: int| 0 <= i < old_lists[c].len() implies new_links[#[trigger] old_lists[c][i] as int]
                        == old_links[old_lists[c][i] as int] by {
                        let v = old_lists[c][i];
                        if nodes.contains(v) {
                            let x = choose|x: int| 0 <= x < nodes.len() && nodes[x] == v;
                            assert(old_lists[b as int][x] == old_lists[c][i]);
                        }
                    }
                }
            }
            assert(buckets_disjoint(self.lists@)) by {
                assert forall|b1: int, b2: int, i: int, j: int|
                    0 <= b1 < self.lists@.len() && 0 <= b2 < self.lists@.len() && 0 <= i < self.lists@[b1].len()
                        && 0 <= j < self.lists@[b2].len() && #[trigger] self.lists@[b1][i] == #[trigger] self.lists@[b2][j]
                    implies b1 == b2 by {
                    let i0 = if b1 == b && i >= k { i + 1 } else { i };
                    let j0 = if b2 == b && j >= k { j + 1 } else { j };
                    assert(self.lists@[b1][i] == old_lists[b1][i0]);
                    assert(self.lists@[b2][j] == old_lists[b2][j0]);
                }
            }
            assert forall|keys: Seq<u64>| old(self).wf_keys(keys) implies self.wf_keys(keys) by {
                reveal(HashTable::wf_keys);
                assert forall|c: int, i: int|
                    0 <= c < self.lists@.len() && 0 <= i < self.lists@[c].len() implies #[trigger] self.lists@[c][i]
                        < keys.len() && key_bucket(keys[self.lists@[c][i] as int], self.lists@.len()) == c by {
                    let i0 = if c == b && i >= k { i + 1 } else { i };
                    assert(self.lists@[c][i] == old_lists[c][i0]);
                }
            }
        }
        Some(cur)
    }

    /// Forgets every value of the table without freeing their links.
    pub fn fast_clear(&mut self)
        ensures
            final(self).view().len() == old(self).view().len(),
            forall|b: int| 0 <= b < final(self).view().len() ==> #[trigger] final(self).view()[b] == Seq::<usize>::empty(),
            forall|links: Seq<AtomicLink>, keys: Seq<u64>| old(self).wf_links(links) ==> final(self).wf(links, keys),
    {
        let n = self.buckets.len();
        let ghost old_lists = self.lists@;
        let mut i: usize = 0;
        while i < n
            invariant
                0 <= i <= n,
                n == self.buckets@.len(),
                forall|b: int| 0 <= b < i ==> #[trigger] self.buckets@[b] is None,
            decreases n - i,
        {
            self.buckets.set(i, None);
            i = i + 1;
        }
        self.lists = Ghost(Seq::new(old_lists.len(), |b: int| Seq::<usize>::empty()));
        proof {
            assert forall|links: Seq<AtomicLink>, keys: Seq<u64>| old(self).wf_links(links) implies self.wf(links, keys) by {
                reveal(HashTable::wf_links);
                reveal(HashTable::wf_keys);
                assert forall|b: int| 0 <= b < self.lists@.len() implies #[trigger] is_chain(
                    links,
                    self.lists@[b],
                    self.buckets@[b],
                ) by {
                    assert(self.lists@[b] == Seq::<usize>::empty());
                }
            }
        }
    }
}

/// A value just inserted is the first value that a search by its key finds,
/// and so what a removal by its key takes off.
pub proof fn lemma_insert_then_find(before: Seq<Seq<usize>>, keys: Seq<u64>, v: usize)
    requires
        before.len() > 0,
        v < keys.len(),
    ensures
        ({
            let b = key_bucket(keys[v as int], before.len());
            let after = before.update(b, seq![v] + before[b]);
            &&& 0 <= b < before.len()
            &&& first_with_key(after[key_bucket(keys[v as int], after.len())], keys, keys[v as int], 0) == Some(v)
        }),
{
    let b = key_bucket(keys[v as int], before.len());
    let after = before.update(b, seq![v] + before[b]);
    assert(after[b][0] == v);
}

/// A value taken off its bucket is in no bucket of the table any more.
pub proof fn lemma_unlinked_absent(lists: Seq<Seq<usize>>, b: int, v: usize)
    requires
        0 <= b < lists.len(),
        buckets_disjoint(lists),
        lists[b].no_duplicates(),
        lists[b].contains(v),
    ensures
        !in_table(lists.update(b, lists[b].remove(lists[b].index_of(v))), v),
{
    let k = lists[b].index_of(v);
    let after = lists.update(b, lists[b].remove(k));
    if in_table(after, v) {
        let c = choose|c: int| 0 <= c < after.len() && #[trigger] after[c].contains(v);
        let i = choose|i: int| 0 <= i < after[c].len() && after[c][i] == v;
        if c == b {
            let i0 = if i < k { i } else { i + 1 };
            assert(lists[b][i0] == v && lists[b][k] == v && i0 != k);
        } else {
            assert(lists[c][i] == lists[b][k]);
        }
    }
}

/// The bucket that `first_nonempty` finds is a bucket from `i` on that holds a value.
proof fn lemma_first_nonempty_range(lists: Seq<Seq<usize>>, i: int)
    requires
        0 <= i,
    ensures
        first_nonempty(lists, i) matches Some(j) ==> i <= j < lists.len() && lists[j].len() > 0,
    decreases lists.len() - i,
{
    if i < lists.len() && lists[i].len() == 0 {
        lemma_first_nonempty_range(lists, i + 1);
    }
}

/// A cursor on a value of a table, or on no value.
pub struct Cursor<'a, B: BucketSize> {
    cursor: RawCursor,
    table: &'a HashTable<B>,
}

impl<'a, B: BucketSize> Cursor<'a, B> {
    #[verifier::type_invariant]
    closed spec fn inv(self) -> bool {
        &&& self.cursor.bucket == 0 || self.cursor.bucket < self.table.lists@.len()
        &&& self.cursor.cur matches Some(v) ==> self.cursor.bucket < self.table.lists@.len()
            && self.table.lists@[self.cursor.bucket as int].contains(v)
    }

    /// The table that the cursor walks.
    pub closed spec fn spec_table(&self) -> HashTable<B> {
        *self.table
    }

    /// The value under the cursor.
    pub closed spec fn spec_cur(&self) -> Option<usize> {
        self.cursor.cur
    }

    /// The bucket of the cursor.
    pub closed spec fn spec_bucket(&self) -> int {
        self.cursor.bucket as int
    }

    /// The value under the cursor.
    pub fn get(&self) -> (r: Option<usize>)
        ensures
            r == self.spec_cur(),
    {
        self.cursor.cur
    }

    /// Whether the cursor is on a value.
    pub fn is_valid(&self) -> (r: bool)
        ensures
            r == self.spec_cur() is Some,
    {
        self.cursor.cur.is_some()
    }

    /// The position of the cursor, to unlink its value from the table.
    pub fn position(&self) -> (r: RawCursor)
        ensures
            r.spec_cur() == self.spec_cur(),
            r.spec_bucket() == self.spec_bucket(),
            self.spec_table().view().len() > 0 ==> is_position(self.spec_table().view(), r.spec_cur(), r.spec_bucket()),
    {
        proof {
            use_type_invariant(self);
        }
        self.cursor
    }

    /// Moves the cursor to the next value of its bucket, or else to the first
    /// value of a later bucket, or else off the values.
    pub fn move_next(&mut self, links: &Vec<AtomicLink>)
        requires
            old(self).spec_table().wf_links(links@),
        ensures
            final(self).spec_table() == old(self).spec_table(),
            (final(self).spec_cur(), final(self).spec_bucket()) == next_position(
                old(self).spec_table().view(),
                old(self).spec_cur(),
                old(self).spec_bucket(),
            ),
    {
        proof {
            use_type_invariant(&*self);
            reveal(HashTable::wf_links);
            vstd::arithmetic::power2::lemma_pow2_pos(B::spec_order());
        }
        self.cursor = self.table.next_raw(links, self.cursor);
    }
}

/// Iterates over the values of a table, bucket by bucket.
pub struct Iter<'a, B: BucketSize> {
    cursor: RawCursor,
    table: &'a HashTable<B>,
}

impl<'a, B: BucketSize> Iter<'a, B> {
    #[verifier::type_invariant]
    closed spec fn inv(self) -> bool {
        &&& self.cursor.bucket == 0 || self.cursor.bucket < self.table.lists@.len()
        &&& self.cursor.cur matches Some(v) ==> self.cursor.bucket < self.table.lists@.len()
            && self.table.lists@[self.cursor.bucket as int].contains(v)
    }

    /// Gives the value under the iterator and moves it to the next value.
    pub fn next(&mut self, links: &Vec<AtomicLink>) -> (r: Option<usize>)
        requires
            old(self).spec_table().wf_links(links@),
        ensures
            r == old(self).spec_cur(),
            final(self).spec_table() == old(self).spec_table(),
            r is None ==> final(self).spec_cur() is None,
            r is Some ==> (final(self).spec_cur(), final(self).spec_bucket()) == next_position(
                old(self).spec_table().view(),
                old(self).spec_cur(),
                old(self).spec_bucket(),
            ),
    {
        proof {
            use_type_invariant(&*self);
            reveal(HashTable::wf_links);
            vstd::arithmetic::power2::lemma_pow2_pos(B::spec_order());
        }
        let cur = self.cursor.cur;
        if cur.is_some() {
            self.cursor = self.table.next_raw(links, self.cursor);
        }
        cur
    }

    /// The table that the iterator walks.
    pub closed spec fn spec_table(&self) -> HashTable<B> {
        *self.table
    }

    /// The value that the iterator gives next.
    pub closed spec fn spec_cur(&self) -> Option<usize> {
        self.cursor.cur
    }

    /// The bucket of the iterator.
    pub closed spec fn spec_bucket(&self) -> int {
        self.cursor.bucket as int
    }
}

} // verus!
