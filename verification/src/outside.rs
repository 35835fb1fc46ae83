//! Trusted boundary: declarations of outside types and thin wrappers around
//! the outside functions that the verified code calls. Every contract here is
//! believed, not proved; each states only what the called function documents.

use vstd::prelude::*;
use dashmap::DashMap;
use sha2::Digest;
use lru::LruCache;

verus! {

// ---------------------------------------------------------------------------
// Clocks and randomness
// ---------------------------------------------------------------------------

/// Calls `std::time::SystemTime::now` and reads it as nanoseconds since the
/// UNIX epoch (0 for a clock set before the epoch). The result depends on the
/// wall clock, so nothing is promised about it.
#[verifier::external_body]
pub fn now_nanos() -> (t: u64) {
    std::time::SystemTime::now().duration_since(std::time::UNIX_EPOCH).map(|d| d.as_nanos() as u64).unwrap_or(0)
}

/// `std::time::Instant`, a reading of the monotonic clock; opaque.
#[verifier::external_type_specification]
#[verifier::external_body]
pub struct ExInstant(std::time::Instant);

/// Calls `std::time::Instant::now`. Nothing is promised of the reading.
#[verifier::external_body]
pub fn instant_now() -> (t: std::time::Instant) {
    std::time::Instant::now()
}

/// Calls `std::time::Instant::elapsed` and reads it as whole nanoseconds
/// (saturating at `u64::MAX`). Depends on the clock, so nothing is promised.
#[verifier::external_body]
pub fn nanos_elapsed(since: &std::time::Instant) -> (n: u64) {
    u64::try_from(since.elapsed().as_nanos()).unwrap_or(u64::MAX)
}

/// Calls `rand::random::<u64>()`, a uniformly distributed 64-bit value from
/// the thread-local generator. Nothing is promised of the value.
#[verifier::external_body]
pub fn random_u64() -> (r: u64) {
    rand::random::<u64>()
}

// ---------------------------------------------------------------------------
// Text
// ---------------------------------------------------------------------------

/// What `str::to_lowercase` returns for a string: its Unicode lowercase mapping.
pub uninterp spec fn lowercase(s: Seq<char>) -> Seq<char>;

/// Every character is ASCII.
pub open spec fn is_ascii_text(s: Seq<char>) -> bool {
    forall|i: int| 0 <= i < s.len() ==> (#[trigger] s[i] as u32) < 128
}

/// A character with `A`..`Z` mapped to `a`..`z`.
pub open spec fn ascii_lower_char(c: char) -> char {
    if 'A' <= c && c <= 'Z' { ((c as u32) + 32) as char } else { c }
}

/// A string with `A`..`Z` mapped to `a`..`z`, character by character.
pub open spec fn ascii_lower(s: Seq<char>) -> Seq<char> {
    s.map_values(|c: char| ascii_lower_char(c))
}

/// Calls `str::to_lowercase`; the result is the lowercase mapping of the input,
/// which for ASCII text maps `A`..`Z` to `a`..`z` and keeps every other character.
#[verifier::external_body]
pub fn to_lowercase(s: &str) -> (res: String)
    ensures
        res@ == lowercase(s@),
        is_ascii_text(s@) ==> res@ == ascii_lower(s@),
{
    s.to_lowercase()
}

/// Whether every character of `s` is an ASCII hexadecimal digit or `-`.
pub open spec fn is_uuid_text(s: Seq<char>) -> bool {
    &&& s.len() == 36
    &&& forall|i: int| 0 <= i < 36 ==> (('0' <= #[trigger] s[i] <= '9') || ('a' <= s[i] <= 'f') || s[i] == '-')
}

/// Calls `uuid::Uuid::new_v4()` and renders it with `to_string`, which for a
/// `Uuid` is the 36-character lowercase hyphenated form. The value is random.
#[verifier::external_body]
pub fn new_uuid_v4_string() -> (s: String)
    ensures
        is_uuid_text(s@),
{
    uuid::Uuid::new_v4().to_string()
}

// ---------------------------------------------------------------------------
// Hashing and hex
// ---------------------------------------------------------------------------

/// What `sha2::Sha256::digest` returns for a byte sequence.
pub uninterp spec fn sha256(data: Seq<u8>) -> Seq<u8>;

/// Calls `sha2::Sha256::digest`: the SHA-256 digest of `data`, 32 bytes long.
#[verifier::external_body]
pub fn sha256_digest(data: &[u8]) -> (d: Vec<u8>)
    ensures
        d@ == sha256(data@),
        d@.len() == 32,
{
    sha2::Sha256::digest(data).to_vec()
}

/// Lowercase hexadecimal character of a nibble `n < 16`.
pub open spec fn hex_char(n: u8) -> char {
    if n < 10 { (48 + n) as char } else { (87 + n) as char }
}

/// Two lowercase hex characters per byte, high nibble first.
pub open spec fn hex_lower(data: Seq<u8>) -> Seq<char>
    decreases data.len(),
{
    if data.len() == 0 {
        Seq::empty()
    } else {
        hex_lower(data.drop_last()) + seq![hex_char(data.last() / 16), hex_char(data.last() % 16)]
    }
}

/// Calls `hex::encode`, which writes each byte as two lowercase hex digits.
#[verifier::external_body]
pub fn hex_encode(data: &[u8]) -> (s: String)
    ensures
        s@ == hex_lower(data@),
{
    hex::encode(data)
}

// ---------------------------------------------------------------------------
// DashMap
// ---------------------------------------------------------------------------

/// `dashmap::DashMap`, a concurrent hash map; opaque. Its contents are named
/// per instantiation in `crate::tables`.
#[verifier::external_type_specification]
#[verifier::external_body]
#[verifier::reject_recursive_types(K)]
#[verifier::reject_recursive_types(V)]
#[verifier::reject_recursive_types(S)]
pub struct ExDashMap<K, V, S>(DashMap<K, V, S>);

/// `s` lists each entry of `m` exactly once (keys taken by their characters),
/// in some order.
pub open spec fn is_entry_snapshot<V>(m: Map<Seq<char>, V>, s: Seq<(String, V)>) -> bool {
    &&& forall|i: int| 0 <= i < s.len() ==> m.contains_key(#[trigger] s[i].0@) && m[s[i].0@] == s[i].1
    &&& forall|i: int, j: int| 0 <= i < j < s.len() ==> #[trigger] s[i].0@ != #[trigger] s[j].0@
    &&& forall|k: Seq<char>| #[trigger] m.contains_key(k) ==> exists|i: int| 0 <= i < s.len() && #[trigger] s[i].0@ == k
}

// ---------------------------------------------------------------------------
// LRU cache
// ---------------------------------------------------------------------------

/// `lru::LruCache`, a bounded map that evicts its least recently used entry; opaque.
#[verifier::external_type_specification]
#[verifier::external_body]
#[verifier::reject_recursive_types(K)]
#[verifier::reject_recursive_types(V)]
#[verifier::reject_recursive_types(S)]
pub struct ExLruCache<K, V, S>(LruCache<K, V, S>);

/// Entries of an `LruCache<String, Vec<u8>>`, most recently used first, each as
/// (key characters, value bytes).
pub uninterp spec fn lru_entries(c: LruCache<String, Vec<u8>>) -> Seq<(Seq<char>, Seq<u8>)>;

/// The capacity an `LruCache<String, Vec<u8>>` was created with.
pub uninterp spec fn lru_capacity(c: LruCache<String, Vec<u8>>) -> nat;

/// Position of the entry with key `k`; -1 if there is none.
pub open spec fn key_pos(es: Seq<(Seq<char>, Seq<u8>)>, k: Seq<char>) -> int
    decreases es.len(),
{
    if es.len() == 0 {
        -1
    } else if es.last().0 == k {
        let p = key_pos(es.drop_last(), k);
        if p >= 0 { p } else { es.len() - 1 }
    } else {
        key_pos(es.drop_last(), k)
    }
}

/// Keys are distinct and the entries fit the capacity.
pub open spec fn lru_ok(es: Seq<(Seq<char>, Seq<u8>)>, cap: nat) -> bool {
    &&& es.len() <= cap
    &&& cap > 0
    &&& forall|i: int, j: int| 0 <= i < j < es.len() ==> #[trigger] es[i].0 != #[trigger] es[j].0
}

/// Entries after a lookup of `k`: a found entry moves to the front.
pub open spec fn after_get(es: Seq<(Seq<char>, Seq<u8>)>, k: Seq<char>) -> Seq<(Seq<char>, Seq<u8>)> {
    let i = key_pos(es, k);
    if i < 0 { es } else { seq![es[i]] + es.remove(i) }
}

/// Entries after storing `v` under `k`: the entry goes to the front, replacing an
/// entry of the same key, or else evicting the least recently used entry when full.
pub open spec fn after_put(es: Seq<(Seq<char>, Seq<u8>)>, cap: nat, k: Seq<char>, v: Seq<u8>) -> Seq<(Seq<char>, Seq<u8>)> {
    let i = key_pos(es, k);
    seq![(k, v)] + if i >= 0 {
        es.remove(i)
    } else if es.len() == cap {
        es.drop_last()
    } else {
        es
    }
}

/// Entries after removing key `k`.
pub open spec fn after_pop(es: Seq<(Seq<char>, Seq<u8>)>, k: Seq<char>) -> Seq<(Seq<char>, Seq<u8>)> {
    let i = key_pos(es, k);
    if i < 0 { es } else { es.remove(i) }
}

/// Calls `LruCache::new` with capacity `cap` (made non-zero by the caller).
#[verifier::external_body]
pub fn lru_new(cap: usize) -> (c: LruCache<String, Vec<u8>>)
    requires
        cap > 0,
    ensures
        lru_entries(c) == Seq::<(Seq<char>, Seq<u8>)>::empty(),
        lru_capacity(c) == cap,
{
    LruCache::new(std::num::NonZeroUsize::new(cap).unwrap())
}

/// Calls `LruCache::get` and clones the value found: a hit moves the entry to the front.
#[verifier::external_body]
pub fn lru_get(c: &mut LruCache<String, Vec<u8>>, key: &str) -> (r: Option<Vec<u8>>)
    ensures
        r is Some <==> key_pos(lru_entries(*old(c)), key@) >= 0,
        r matches Some(v) ==> v@ == lru_entries(*old(c))[key_pos(lru_entries(*old(c)), key@)].1,
        lru_entries(*final(c)) == after_get(lru_entries(*old(c)), key@),
        lru_capacity(*final(c)) == lru_capacity(*old(c)),
{
    c.get(key).map(|v| v.clone())
}

/// Calls `LruCache::put`: the entry goes to the front, replacing the old value of the
/// key or, when the cache is full, evicting the least recently used entry.
#[verifier::external_body]
pub fn lru_put(c: &mut LruCache<String, Vec<u8>>, key: String, value: Vec<u8>)
    ensures
        lru_entries(*final(c)) == after_put(lru_entries(*old(c)), lru_capacity(*old(c)), key@, value@),
        lru_capacity(*final(c)) == lru_capacity(*old(c)),
{
    c.put(key, value);
}

/// Calls `LruCache::pop`: removes the key's entry and hands back its value.
#[verifier::external_body]
pub fn lru_pop(c: &mut LruCache<String, Vec<u8>>, key: &str) -> (r: Option<Vec<u8>>)
    ensures
        r is Some <==> key_pos(lru_entries(*old(c)), key@) >= 0,
        r matches Some(v) ==> v@ == lru_entries(*old(c))[key_pos(lru_entries(*old(c)), key@)].1,
        lru_entries(*final(c)) == after_pop(lru_entries(*old(c)), key@),
        lru_capacity(*final(c)) == lru_capacity(*old(c)),
{
    c.pop(key)
}

/// Walks `LruCache::iter` collecting the keys, most recently used first.
#[verifier::external_body]
pub fn lru_keys(c: &LruCache<String, Vec<u8>>) -> (ks: Vec<String>)
    ensures
        ks@.map_values(|s: String| s@) == lru_entries(*c).map_values(|e: (Seq<char>, Seq<u8>)| e.0),
{
    c.iter().map(|(k, _)| k.clone()).collect()
}

/// A snapshot with each value taken by its view.
pub open spec fn entry_views<V: View>(s: Seq<(String, V)>) -> Seq<(String, V::V)> {
    s.map_values(|e: (String, V)| (e.0, e.1@))
}

/// A snapshot with each value taken by its deep view.
pub open spec fn entry_deep_views<V: DeepView>(s: Seq<(String, V)>) -> Seq<(String, V::V)> {
    s.map_values(|e: (String, V)| (e.0, e.1.deep_view()))
}

} // verus!
