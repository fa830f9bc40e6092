//! The response cache in front of a language model: keys derived from the
//! request, and a bounded least-recently-used store of responses.
use vstd::prelude::*;
use lru::LruCache;
use sha2::{Digest, Sha256};
use std::num::NonZeroUsize;
use vstd::string::StringSliceAdditionalSpecFns;

verus! {

broadcast use vstd::string::group_string_axioms;

#[verifier::external_type_specification]
#[verifier::external_body]
#[verifier::reject_recursive_types(K)]
#[verifier::reject_recursive_types(V)]
#[verifier::reject_recursive_types(S)]
pub struct ExLruCache<K, V, S>(LruCache<K, V, S>);

#[verifier::external_type_specification]
#[verifier::external_body]
pub struct ExLruHasher(lru::DefaultHasher);

/// The entries of a cache as (key, value), most recently used first.
pub uninterp spec fn lru_entries(c: LruCache<String, String>) -> Seq<(Seq<char>, Seq<char>)>;

/// The number of entries a cache holds at most.
pub uninterp spec fn lru_capacity(c: LruCache<String, String>) -> nat;

/// The position of the entry for `k`, if there is one.
pub open spec fn key_index(entries: Seq<(Seq<char>, Seq<char>)>, k: Seq<char>) -> Option<int> {
    if exists|i: int| 0 <= i < entries.len() && (#[trigger] entries[i]).0 == k {
        Some(choose|i: int| 0 <= i < entries.len() && (#[trigger] entries[i]).0 == k)
    } else {
        None
    }
}

/// Whether no two entries share a key.
pub open spec fn distinct_keys(entries: Seq<(Seq<char>, Seq<char>)>) -> bool {
    forall|i: int, j: int| 0 <= i < j < entries.len() ==> (#[trigger] entries[i]).0 != (#[trigger] entries[j]).0
}

/// The entries after looking up `k`: a found entry moves to the front.
pub open spec fn after_get(entries: Seq<(Seq<char>, Seq<char>)>, k: Seq<char>) -> Seq<(Seq<char>, Seq<char>)> {
    match key_index(entries, k) {
        Some(i) => seq![entries[i]] + entries.remove(i),
        None => entries,
    }
}

/// The entries after putting `(k, v)` into a cache of capacity `cap`: the
/// entry goes to the front, replacing the entry for `k` if there is one, and
/// otherwise pushing out the least recently used entry when the cache is full.
pub open spec fn after_put(entries: Seq<(Seq<char>, Seq<char>)>, cap: nat, k: Seq<char>, v: Seq<char>) -> Seq<
    (Seq<char>, Seq<char>),
> {
    match key_index(entries, k) {
        Some(i) => seq![(k, v)] + entries.remove(i),
        None => if entries.len() >= cap {
            seq![(k, v)] + entries.drop_last()
        } else {
            seq![(k, v)] + entries
        },
    }
}

/// Calls `LruCache::new` with `cap` as a `NonZeroUsize`: an empty cache
/// holding at most `cap` entries.
#[verifier::external_body]
fn lru_new(cap: usize) -> (c: LruCache<String, String>)
    requires
        cap > 0,
    ensures
        lru_entries(c) == Seq::<(Seq<char>, Seq<char>)>::empty(),
        lru_capacity(c) == cap,
{
    LruCache::new(NonZeroUsize::new(cap).unwrap())
}

/// Calls `LruCache::get` and clones the value found: a found entry moves
/// to the front of the recency order.
#[verifier::external_body]
fn lru_get(c: &mut LruCache<String, String>, k: &str) -> (r: Option<String>)
    ensures
        lru_capacity(*final(c)) == lru_capacity(*old(c)),
        lru_entries(*final(c)) == after_get(lru_entries(*old(c)), k@),
        match key_index(lru_entries(*old(c)), k@) {
            Some(i) => r matches Some(v) && v@ == lru_entries(*old(c))[i].1,
            None => r is None,
        },
{
    c.get(k).cloned()
}

/// Calls `LruCache::put`: the entry goes to the front; the old value of the
/// key, if it had one, is returned; otherwise a full cache drops its least
/// recently used entry.
#[verifier::external_body]
fn lru_put(c: &mut LruCache<String, String>, k: String, v: String) -> (r: Option<String>)
    ensures
        lru_capacity(*final(c)) == lru_capacity(*old(c)),
        lru_entries(*final(c)) == after_put(lru_entries(*old(c)), lru_capacity(*old(c)), k@, v@),
        match key_index(lru_entries(*old(c)), k@) {
            Some(i) => r matches Some(o) && o@ == lru_entries(*old(c))[i].1,
            None => r is None,
        },
{
    c.put(k, v)
}

/// A bounded store of model responses by request key, dropping the least
/// recently used response when full.
pub struct ResponseCache {
    entries: LruCache<String, String>,
}

/// Cache capacity used when none is given.
pub const DEFAULT_CAPACITY: usize = 100;

impl ResponseCache {
    /// The entries, most recently used first.
    pub closed spec fn entries(&self) -> Seq<(Seq<char>, Seq<char>)> {
        lru_entries(self.entries)
    }

    /// The number of responses kept at most.
    pub closed spec fn capacity(&self) -> nat {
        lru_capacity(self.entries)
    }

    /// Whether the cache is consistent: distinct keys, within its capacity.
    pub open spec fn wf(&self) -> bool {
        &&& distinct_keys(self.entries())
        &&& self.entries().len() <= self.capacity()
        &&& self.capacity() > 0
    }

    /// An empty cache holding at most `capacity` responses (100 when
    /// `capacity` is 0).
    pub fn new(capacity: usize) -> (c: ResponseCache)
        ensures
            c.wf(),
            c.entries() == Seq::<(Seq<char>, Seq<char>)>::empty(),
            c.capacity() == if capacity == 0 {
                DEFAULT_CAPACITY as nat
            } else {
                capacity as nat
            },
    {
        let cap = if capacity == 0 {
            DEFAULT_CAPACITY
        } else {
            capacity
        };
        ResponseCache { entries: lru_new(cap) }
    }

    /// The cached response for `key`, if there is one; it becomes the most
    /// recently used.
    pub fn lookup(&mut self, key: &str) -> (r: Option<String>)
        requires
            old(self).wf(),
        ensures
            final(self).wf(),
            final(self).capacity() == old(self).capacity(),
            final(self).entries() == after_get(old(self).entries(), key@),
            match key_index(old(self).entries(), key@) {
                Some(i) => r matches Some(v) && v@ == old(self).entries()[i].1,
                None => r is None,
            },
    {
        let r = lru_get(&mut self.entries, key);
        proof {
            lemma_get_keeps_distinct(lru_entries(old(self).entries), key@);
        }
        r
    }

    /// Keep `response` as the cached response for `key`.
    pub fn store(&mut self, key: String, response: String)
        requires
            old(self).wf(),
        ensures
            final(self).wf(),
            final(self).capacity() == old(self).capacity(),
            final(self).entries() == after_put(old(self).entries(), old(self).capacity(), key@, response@),
    {
        let ghost k = key@;
        let ghost v = response@;
        let _ = lru_put(&mut self.entries, key, response);
        proof {
            lemma_put_keeps_invariant(lru_entries(old(self).entries), lru_capacity(old(self).entries), k, v);
        }
    }
}

proof fn lemma_key_index(entries: Seq<(Seq<char>, Seq<char>)>, k: Seq<char>)
    ensures
        match key_index(entries, k) {
            Some(i) => 0 <= i < entries.len() && entries[i].0 == k,
            None => forall|j: int| 0 <= j < entries.len() ==> (#[trigger] entries[j]).0 != k,
        },
{
}

proof fn lemma_get_keeps_distinct(entries: Seq<(Seq<char>, Seq<char>)>, k: Seq<char>)
    requires
        distinct_keys(entries),
    ensures
        distinct_keys(after_get(entries, k)),
        after_get(entries, k).len() == entries.len(),
{
    lemma_key_index(entries, k);
    match key_index(entries, k) {
        Some(i) => {
            let r = entries.remove(i);
            let n = seq![entries[i]] + r;
            assert forall|a: int, b: int| 0 <= a < b < n.len() implies (#[trigger] n[a]).0 != (#[trigger] n[b]).0 by {
                let ob = if b - 1 < i { b - 1 } else { b };
                assert(n[b] == entries[ob]);
                if a == 0 {
                    assert(ob != i);
                } else {
                    let oa = if a - 1 < i { a - 1 } else { a };
                    assert(n[a] == entries[oa]);
                    assert(oa < ob);
                }
            }
        },
        None => {},
    }
}

proof fn lemma_put_keeps_invariant(entries: Seq<(Seq<char>, Seq<char>)>, cap: nat, k: Seq<char>, v: Seq<char>)
    requires
        distinct_keys(entries),
        entries.len() <= cap,
        cap > 0,
    ensures
        distinct_keys(after_put(entries, cap, k, v)),
        after_put(entries, cap, k, v).len() <= cap,
{
    lemma_key_index(entries, k);
    let n = after_put(entries, cap, k, v);
    match key_index(entries, k) {
        Some(i) => {
            assert forall|a: int, b: int| 0 <= a < b < n.len() implies (#[trigger] n[a]).0 != (#[trigger] n[b]).0 by {
                let ob = if b - 1 < i { b - 1 } else { b };
                assert(n[b] == entries[ob]);
                if a == 0 {
                    assert(ob != i);
                } else {
                    let oa = if a - 1 < i { a - 1 } else { a };
                    assert(n[a] == entries[oa]);
                    assert(oa < ob);
                }
            }
        },
        None => {
            let rest = if entries.len() >= cap {
                entries.drop_last()
            } else {
                entries
            };
            assert(n == seq![(k, v)] + rest);
            assert forall|a: int, b: int| 0 <= a < b < n.len() implies (#[trigger] n[a]).0 != (#[trigger] n[b]).0 by {
                assert(n[b] == entries[b - 1]);
                if a > 0 {
                    assert(n[a] == entries[a - 1]);
                }
            }
        },
    }
}

/// A cached response is what was last stored under its key: storing a
/// response and then looking up its key gives that response back.
pub proof fn lookup_after_store(entries: Seq<(Seq<char>, Seq<char>)>, cap: nat, k: Seq<char>, v: Seq<char>)
    requires
        distinct_keys(entries),
        entries.len() <= cap,
        cap > 0,
    ensures
        key_index(after_put(entries, cap, k, v), k) == Some(0int),
        after_put(entries, cap, k, v)[0] == (k, v),
{
    lemma_put_keeps_invariant(entries, cap, k, v);
    let n = after_put(entries, cap, k, v);
    assert(n[0] == (k, v));
    lemma_key_index(n, k);
    let i = key_index(n, k)->0;
    if i != 0 {
        assert(n[0].0 == n[i].0);
    }
}

/// The cache never holds more responses than its capacity, and a response
/// stored last is never the one pushed out.
pub proof fn store_respects_capacity(entries: Seq<(Seq<char>, Seq<char>)>, cap: nat, k: Seq<char>, v: Seq<char>)
    requires
        distinct_keys(entries),
        entries.len() <= cap,
        cap > 0,
    ensures
        after_put(entries, cap, k, v).len() <= cap,
        after_put(entries, cap, k, v).len() >= 1,
        distinct_keys(after_put(entries, cap, k, v)),
{
    lemma_put_keeps_invariant(entries, cap, k, v);
}

/// The digit of a nibble in lowercase hexadecimal.
pub open spec fn hex_digit(n: int) -> char {
    seq!['0', '1', '2', '3', '4', '5', '6', '7', '8', '9', 'a', 'b', 'c', 'd', 'e', 'f'][n]
}

/// `bytes` in lowercase hexadecimal, two digits a byte, high nibble first.
pub open spec fn hex_lower_of(bytes: Seq<u8>) -> Seq<char>
    decreases bytes.len(),
{
    if bytes.len() == 0 {
        Seq::empty()
    } else {
        hex_lower_of(bytes.drop_last()) + seq![
            hex_digit(bytes.last() as int / 16),
            hex_digit(bytes.last() as int % 16),
        ]
    }
}

/// Hexadecimal text has two characters a byte, each a digit or a lowercase
/// letter from `a` to `f`, the high nibble first; so the key of a 32-byte
/// digest has 64 such characters.
pub proof fn hex_text_is_two_lowercase_digits_a_byte(bytes: Seq<u8>)
    ensures
        hex_lower_of(bytes).len() == 2 * bytes.len(),
        forall|i: int| 0 <= i < hex_lower_of(bytes).len() ==> {
            let c = #[trigger] hex_lower_of(bytes)[i];
            ('0' <= c <= '9') || ('a' <= c <= 'f')
        },
        forall|j: int|
            0 <= j < bytes.len() ==> hex_lower_of(bytes)[2 * j] == hex_digit(#[trigger] bytes[j] as int / 16)
                && hex_lower_of(bytes)[2 * j + 1] == hex_digit(bytes[j] as int % 16),
    decreases bytes.len(),
{
    if bytes.len() > 0 {
        let init = bytes.drop_last();
        hex_text_is_two_lowercase_digits_a_byte(init);
        let h = hex_lower_of(bytes);
        let hi = bytes.last() as int / 16;
        let lo = bytes.last() as int % 16;
        assert(0 <= hi < 16 && 0 <= lo < 16);
        assert forall|n: int| 0 <= n < 16 implies {
            let c = #[trigger] hex_digit(n);
            ('0' <= c <= '9') || ('a' <= c <= 'f')
        } by {
            assert(n == 0 || n == 1 || n == 2 || n == 3 || n == 4 || n == 5 || n == 6 || n == 7 || n == 8
                || n == 9 || n == 10 || n == 11 || n == 12 || n == 13 || n == 14 || n == 15);
        }
        assert forall|i: int| 0 <= i < h.len() implies {
            let c = #[trigger] h[i];
            ('0' <= c <= '9') || ('a' <= c <= 'f')
        } by {
            if i < hex_lower_of(init).len() {
                assert(h[i] == hex_lower_of(init)[i]);
            } else if i == hex_lower_of(init).len() {
                assert(h[i] == hex_digit(hi));
            } else {
                assert(h[i] == hex_digit(lo));
            }
        }
        assert forall|j: int| 0 <= j < bytes.len() implies h[2 * j] == hex_digit(#[trigger] bytes[j] as int / 16)
            && h[2 * j + 1] == hex_digit(bytes[j] as int % 16) by {
            if j < init.len() {
                assert(init[j] == bytes[j]);
                assert(h[2 * j] == hex_lower_of(init)[2 * j]);
                assert(h[2 * j + 1] == hex_lower_of(init)[2 * j + 1]);
            } else {
                assert(bytes[j] == bytes.last());
                assert(2 * j == hex_lower_of(init).len());
                assert(h[2 * j] == hex_digit(hi));
                assert(h[2 * j + 1] == hex_digit(lo));
            }
        }
    }
}

/// Calls `data_encoding::HEXLOWER.encode`: lowercase hexadecimal, two digits
/// a byte, high nibble first.
#[verifier::external_body]
fn hex_lower(data: &[u8]) -> (s: String)
    ensures
        s@ == hex_lower_of(data@),
{
    data_encoding::HEXLOWER.encode(data)
}

/// The SHA-256 digest of `data`.
pub uninterp spec fn sha256(data: Seq<u8>) -> Seq<u8>;

/// Calls `sha2::Sha256` (`new`, `update` with `first`, `update` with
/// `second`, `finalize`). The hash reads its input as one stream, so the
/// digest is that of the two parts one after the other; it has 32 bytes.
#[verifier::external_body]
fn sha256_of(first: &[u8], second: &[u8]) -> (d: Vec<u8>)
    ensures
        d@ == sha256(first@ + second@),
        d@.len() == 32,
{
    let mut hasher = Sha256::new();
    hasher.update(first);
    hasher.update(second);
    hasher.finalize().to_vec()
}

/// The cache key of a request: the SHA-256 digest of the messages' JSON
/// followed by the model's name, in lowercase hexadecimal.
pub open spec fn cache_key_of(messages_json: Seq<u8>, model_name: &str) -> Seq<char> {
    hex_lower_of(sha256(messages_json + model_name.spec_bytes()))
}

/// The cache key of a request to `model_name` whose messages serialize to
/// `messages_json`; including the model keeps models' answers apart.
pub fn cache_key(messages_json: &[u8], model_name: &str) -> (k: String)
    ensures
        k@ == cache_key_of(messages_json@, model_name),
{
    let digest = sha256_of(messages_json, model_name.as_bytes());
    hex_lower(digest.as_slice())
}

} // verus!
