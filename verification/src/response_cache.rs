//! The cache of printed answers.

use bytes::Bytes;
use lru::LruCache;
use std::collections::hash_map::DefaultHasher;
use std::hash::Hasher;
use vstd::prelude::*;
use vstd::std_specs::hash::DefaultHasherAdditionalSpecFns;
use vstd::utf8::encode_utf8;

verus! {

/// A value that can be hashed: the runs of bytes that it feeds to a hasher.
pub trait Hashed {
    spec fn runs(&self) -> Seq<Seq<u8>>;

    fn feed(&self, hasher: &mut DefaultHasher)
        ensures
            final(hasher)@ == old(hasher)@ + self.runs(),
    ;
}

impl Hashed for str {
    /// The bytes of the text, and a byte that no text holds, to mark its end.
    open spec fn runs(&self) -> Seq<Seq<u8>> {
        seq![encode_utf8(self@), seq![0xffu8]]
    }

    fn feed(&self, hasher: &mut DefaultHasher) {
        let end: [u8; 1] = [0xff];
        hasher.write(self.as_bytes());
        hasher.write(end.as_slice());
        assert(end@ =~= seq![0xffu8]);
        assert(hasher@ =~= old(hasher)@ + self.runs());
    }
}

impl Hashed for (u64, u64) {
    open spec fn runs(&self) -> Seq<Seq<u8>> {
        seq![
            vstd::bytes::spec_u64_to_le_bytes(self.0),
            vstd::bytes::spec_u64_to_le_bytes(self.1),
        ]
    }

    fn feed(&self, hasher: &mut DefaultHasher) {
        hasher.write(vstd::bytes::u64_to_le_bytes(self.0).as_slice());
        hasher.write(vstd::bytes::u64_to_le_bytes(self.1).as_slice());
        assert(hasher@ =~= old(hasher)@ + self.runs());
    }
}

impl<T: Hashed + ?Sized> Hashed for &T {
    /// What the reference refers to.
    open spec fn runs(&self) -> Seq<Seq<u8>> {
        (**self).runs()
    }

    fn feed(&self, hasher: &mut DefaultHasher) {
        (**self).feed(hasher)
    }
}

/// The hash of a value.
pub open spec fn hash_of<T: Hashed>(params: T) -> u64 {
    DefaultHasher::spec_finish(params.runs())
}

/// Hashes a value.
pub fn hash<T: Hashed>(params: T) -> (r: u64)
    ensures
        r == hash_of(params),
{
    let mut hasher = DefaultHasher::new();
    params.feed(&mut hasher);
    proof {
        assert(hasher@ =~= params.runs());
    }
    hasher.finish()
}

/// `lru::LruCache`, a bounded map that forgets what was used least recently.
#[verifier::external_type_specification]
#[verifier::external_body]
#[verifier::reject_recursive_types(K)]
#[verifier::reject_recursive_types(V)]
#[verifier::reject_recursive_types(S)]
pub struct ExLruCache<K, V, S>(LruCache<K, V, S>);

/// `lru::DefaultHasher`, what a cache hashes its keys with.
#[verifier::external_type_specification]
#[verifier::external_body]
pub struct ExLruHasher(lru::DefaultHasher);

/// `bytes::Bytes`, a shared run of bytes.
#[verifier::external_type_specification]
#[verifier::external_body]
pub struct ExBytes(Bytes);

/// The keys and bodies in a cache, the most recently used first.
pub uninterp spec fn lru_entries(cache: LruCache<u64, Bytes>) -> Seq<(u64, Seq<u8>)>;

/// How many bodies a cache holds at most.
pub uninterp spec fn lru_limit(cache: LruCache<u64, Bytes>) -> nat;

/// Whether there is an entry under this key.
pub open spec fn has_key(entries: Seq<(u64, Seq<u8>)>, key: u64) -> bool {
    exists|i: int| 0 <= i < entries.len() && (#[trigger] entries[i]).0 == key
}

/// The entries under other keys, in their order.
pub open spec fn without_key(entries: Seq<(u64, Seq<u8>)>, key: u64) -> Seq<(u64, Seq<u8>)> {
    entries.filter(|e: (u64, Seq<u8>)| e.0 != key)
}

/// The entries once one of them was used: it comes first, and the others keep their order.
pub open spec fn entry_used(
    entries: Seq<(u64, Seq<u8>)>,
    key: u64,
    body: Seq<u8>,
) -> Seq<(u64, Seq<u8>)> {
    seq![(key, body)] + without_key(entries, key)
}

/// The entries once a body was put under a key: one that was there is replaced, and otherwise
/// a full cache first forgets its last entry. A cache without room stays empty.
pub open spec fn entry_put(
    entries: Seq<(u64, Seq<u8>)>,
    limit: nat,
    key: u64,
    body: Seq<u8>,
) -> Seq<(u64, Seq<u8>)> {
    if has_key(entries, key) {
        entry_used(entries, key, body)
    } else if limit == 0 {
        entries
    } else if entries.len() == limit {
        seq![(key, body)] + entries.drop_last()
    } else {
        seq![(key, body)] + entries
    }
}

/// The most recently used entries, as many as the limit allows.
pub open spec fn first_entries(entries: Seq<(u64, Seq<u8>)>, limit: nat) -> Seq<(u64, Seq<u8>)> {
    if entries.len() <= limit {
        entries
    } else {
        entries.take(limit as int)
    }
}

/// No key occurs twice, and there are no more entries than the limit allows.
pub open spec fn entries_wf(entries: Seq<(u64, Seq<u8>)>, limit: nat) -> bool {
    &&& entries.len() <= limit
    &&& forall|i: int, j: int|
        0 <= i < j < entries.len() ==> (#[trigger] entries[i]).0 != (#[trigger] entries[j]).0
}

/// `LruCache::unbounded`: an empty cache whose limit is the largest number that there is. It
/// reserves no room.
#[verifier::external_body]
fn lru_unbounded() -> (r: LruCache<u64, Bytes>)
    ensures
        lru_entries(r) == Seq::<(u64, Seq<u8>)>::empty(),
        lru_limit(r) == usize::MAX,
{
    LruCache::unbounded()
}

/// `LruCache::resize`: gives a cache another limit. What it then holds too much is forgotten,
/// the least recently used first. It reserves no room.
#[verifier::external_body]
fn lru_resize(cache: &mut LruCache<u64, Bytes>, limit: usize)
    ensures
        lru_limit(*final(cache)) == limit,
        lru_entries(*final(cache)) == first_entries(lru_entries(*old(cache)), limit as nat),
{
    cache.resize(limit);
}

/// `LruCache::get`: the body under a key, which becomes the most recently used.
#[verifier::external_body]
fn lru_get(cache: &mut LruCache<u64, Bytes>, key: u64) -> (r: Option<Vec<u8>>)
    ensures
        lru_limit(*final(cache)) == lru_limit(*old(cache)),
        match r {
            Some(body) => {
                &&& lru_entries(*old(cache)).contains((key, body@))
                &&& lru_entries(*final(cache)) == entry_used(
                    lru_entries(*old(cache)),
                    key,
                    body@,
                )
            },
            None => {
                &&& !has_key(lru_entries(*old(cache)), key)
                &&& lru_entries(*final(cache)) == lru_entries(*old(cache))
            },
        },
{
    cache.get(&key).map(|body| body.to_vec())
}

/// `LruCache::put`: puts a body under a key, as the most recently used.
#[verifier::external_body]
fn lru_put(cache: &mut LruCache<u64, Bytes>, key: u64, body: &[u8])
    ensures
        lru_limit(*final(cache)) == lru_limit(*old(cache)),
        lru_entries(*final(cache)) == entry_put(
            lru_entries(*old(cache)),
            lru_limit(*old(cache)),
            key,
            body@,
        ),
{
    cache.put(key, Bytes::copy_from_slice(body));
}

/// A cache of printed answers, each under the hash of what it answers.
pub struct ResponseCache {
    lru: LruCache<u64, Bytes>,
}

impl ResponseCache {
    /// The keys and bodies, the most recently used first.
    pub closed spec fn entries(self) -> Seq<(u64, Seq<u8>)> {
        lru_entries(self.lru)
    }

    /// How many bodies are kept at most.
    pub closed spec fn limit(self) -> nat {
        lru_limit(self.lru)
    }

    /// No key occurs twice, and there are no more entries than the limit allows.
    pub open spec fn wf(self) -> bool {
        entries_wf(self.entries(), self.limit())
    }

    /// An empty cache that keeps at most `limit` bodies.
    pub fn new(limit: usize) -> (r: ResponseCache)
        ensures
            r.wf(),
            r.entries() == Seq::<(u64, Seq<u8>)>::empty(),
            r.limit() == limit,
    {
        let mut lru = lru_unbounded();
        lru_resize(&mut lru, limit);
        ResponseCache { lru }
    }

    /// The body under a key, which becomes the most recently used.
    pub fn get(&mut self, key: u64) -> (r: Option<Vec<u8>>)
        requires
            old(self).wf(),
        ensures
            final(self).wf(),
            final(self).limit() == old(self).limit(),
            r is Some <==> has_key(old(self).entries(), key),
            match r {
                Some(body) => {
                    &&& old(self).entries().contains((key, body@))
                    &&& final(self).entries() == entry_used(old(self).entries(), key, body@)
                },
                None => final(self).entries() == old(self).entries(),
            },
    {
        let r = lru_get(&mut self.lru, key);
        proof {
            if r is Some {
                let entries = old(self).entries();
                let i = choose|i: int| 0 <= i < entries.len() && entries[i] == (key, r->0@);
                assert(entries[i].0 == key);
                lemma_entry_used_wf(entries, old(self).limit(), key, r->0@);
            }
        }
        r
    }

    /// Puts a body under a key, as the most recently used.
    pub fn put(&mut self, key: u64, body: &[u8])
        requires
            old(self).wf(),
        ensures
            final(self).wf(),
            final(self).limit() == old(self).limit(),
            final(self).entries() == entry_put(
                old(self).entries(),
                old(self).limit(),
                key,
                body@,
            ),
    {
        lru_put(&mut self.lru, key, body);
        proof {
            lemma_entry_put_wf(old(self).entries(), old(self).limit(), key, body@);
        }
    }
}

/// The entries under other keys are those that there were, and no key occurs twice.
pub proof fn lemma_without_key(entries: Seq<(u64, Seq<u8>)>, key: u64)
    requires
        forall|i: int, j: int|
            0 <= i < j < entries.len() ==> (#[trigger] entries[i]).0 != (#[trigger] entries[j]).0,
    ensures
        forall|i: int|
            0 <= i < without_key(entries, key).len() ==> {
                &&& (#[trigger] without_key(entries, key)[i]).0 != key
                &&& entries.contains(without_key(entries, key)[i])
            },
        forall|e: (u64, Seq<u8>)|
            entries.contains(e) && e.0 != key ==> #[trigger] without_key(entries, key).contains(e),
        forall|i: int, j: int|
            0 <= i < j < without_key(entries, key).len() ==> (#[trigger] without_key(
                entries,
                key,
            )[i]).0 != (#[trigger] without_key(entries, key)[j]).0,
        without_key(entries, key).len() <= entries.len(),
        has_key(entries, key) ==> without_key(entries, key).len() < entries.len(),
        !has_key(entries, key) ==> without_key(entries, key) == entries,
    decreases entries.len(),
{
    reveal(Seq::filter);
    if entries.len() > 0 {
        let front = entries.drop_last();
        let last = entries.last();
        lemma_without_key(front, key);
        let kept = without_key(front, key);
        assert(without_key(entries, key) == if last.0 != key {
            kept.push(last)
        } else {
            kept
        });
        assert(entries == front.push(last));
        assert(entries[entries.len() - 1] == last);
        assert forall|i: int| 0 <= i < kept.len() implies (#[trigger] kept[i]).0 != last.0
            && entries.contains(kept[i]) by {
            assert(front.contains(kept[i]));
            let k = choose|k: int| 0 <= k < front.len() && front[k] == kept[i];
            assert(entries[k] == kept[i]);
        }
        assert forall|e: (u64, Seq<u8>)| entries.contains(e) && e.0 != key implies (
        #[trigger] without_key(entries, key).contains(e)) by {
            let k = choose|k: int| 0 <= k < entries.len() && entries[k] == e;
            if k < front.len() {
                assert(front[k] == e);
                assert(front.contains(e));
                assert(kept.contains(e));
                let m = choose|m: int| 0 <= m < kept.len() && kept[m] == e;
                assert(without_key(entries, key)[m] == e);
            } else {
                assert(without_key(entries, key)[kept.len() as int] == e);
            }
        }
        if has_key(entries, key) && last.0 != key {
            let k = choose|k: int| 0 <= k < entries.len() && (#[trigger] entries[k]).0 == key;
            assert(front[k].0 == key);
        }
        if !has_key(entries, key) {
            assert forall|k: int| 0 <= k < front.len() implies (#[trigger] front[k]).0 != key by {
                assert(entries[k].0 != key);
            }
        }
    }
}

/// Using an entry keeps a cache in order.
pub proof fn lemma_entry_used_wf(
    entries: Seq<(u64, Seq<u8>)>,
    limit: nat,
    key: u64,
    body: Seq<u8>,
)
    requires
        entries_wf(entries, limit),
        has_key(entries, key),
    ensures
        entries_wf(entry_used(entries, key, body), limit),
{
    lemma_without_key(entries, key);
}

/// Putting a body keeps a cache in order.
pub proof fn lemma_entry_put_wf(
    entries: Seq<(u64, Seq<u8>)>,
    limit: nat,
    key: u64,
    body: Seq<u8>,
)
    requires
        entries_wf(entries, limit),
    ensures
        entries_wf(entry_put(entries, limit, key, body), limit),
{
    lemma_without_key(entries, key);
}

} // verus!
