//! Text-to-speech support: WAV duration, cache keys, the LRU+TTL audio cache,
//! and the retry policy for calls to the GPT-SoVITS service.
//!
//! * Synthesized audio is cached under the first 16 hex characters of
//!   `SHA-256("{text}:{expression_id}")`.
//! * The cache stores up to 50 entries with a 30-minute TTL; on overflow the
//!   least-recently-used entry is evicted, and expired entries are purged.
//! * Failed calls are retried with exponential backoff: each failed attempt
//!   is followed by a wait of 1 s, 2 s, then 4 s, for at most three attempts.
//! * A WAV file's duration is read from its 44-byte header.

use vstd::prelude::*;
use crate::text::{chars_of, is_blank_text, joined, push_char, same_text};
use base64::Engine as _;
use sha2::Digest as _;

verus! {

/// GPT-SoVITS v4 outputs 32 kHz WAV audio.
pub const SAMPLE_RATE: u32 = 32_000;

/// Maximum number of HTTP attempts.
pub const MAX_RETRIES: usize = 3;

/// Exponential backoff base in seconds: the delay after attempt `a` is `1 << a`.
pub const BACKOFF_BASE_SECS: u64 = 1;

/// Default cache capacity (number of entries).
pub const CACHE_MAX_SIZE: usize = 50;

/// Default cache TTL in milliseconds: 30 minutes.
pub const CACHE_TTL_MS: u64 = 1_800_000;

// ---------------------------------------------------------------------------
// WAV duration
// ---------------------------------------------------------------------------

/// An audio duration in seconds, held exactly as `numerator / denominator`.
///
/// A denominator of zero stands for the value that floating-point division
/// gives there (infinite, or not a number when the numerator is zero too).
#[derive(Clone, Copy, Debug, PartialEq, Eq)]
pub struct WavDuration {
    pub numerator: u64,
    pub denominator: u64,
}

/// A little-endian `u16` at `b[i..i + 2]`.
pub open spec fn le_u16(b: Seq<u8>, i: int) -> int {
    b[i] as int + 256 * (b[i + 1] as int)
}

/// A little-endian `u32` at `b[i..i + 4]`.
pub open spec fn le_u32(b: Seq<u8>, i: int) -> int {
    b[i] as int + 256 * (b[i + 1] as int) + 65536 * (b[i + 2] as int) + 16777216 * (b[i + 3] as int)
}

/// The duration of a WAV buffer, from its header:
/// `subchunk2_size / (sample_rate * channels * bits_per_sample / 8)`, read from
/// bytes 40-43, 22-23 and 34-35.  When the buffer is shorter than the 44-byte
/// header, or that byte rate is zero, 16-bit mono is assumed:
/// `(len - 44, saturating) / (sample_rate * 2)`.
pub open spec fn wav_duration(b: Seq<u8>, sample_rate: u32) -> (int, int) {
    let fallback = (if b.len() >= 44 { b.len() - 44 } else { 0 }, 2 * sample_rate);
    if b.len() < 44 {
        fallback
    } else {
        let depth = sample_rate * le_u16(b, 22) * le_u16(b, 34);
        if depth == 0 {
            fallback
        } else {
            (8 * le_u32(b, 40), depth)
        }
    }
}

/// Parse the duration of a WAV file from its 44-byte header.
pub fn parse_wav_duration(buffer: &[u8], sample_rate: u32) -> (d: WavDuration)
    ensures
        (d.numerator as int, d.denominator as int) == wav_duration(buffer@, sample_rate),
{
    let n = buffer.len();
    let sr = sample_rate as u64;
    if n < 44 {
        return WavDuration { numerator: 0, denominator: sr * 2 };
    }
    let num_channels = buffer[22] as u64 + 256 * (buffer[23] as u64);
    let bits_per_sample = buffer[34] as u64 + 256 * (buffer[35] as u64);
    let subchunk2_size = buffer[40] as u64 + 256 * (buffer[41] as u64) + 65536 * (buffer[42] as u64)
        + 16777216 * (buffer[43] as u64);
    assert(sr * num_channels <= 0xffff_ffff * 0xffff) by (nonlinear_arith)
        requires
            sr <= 0xffff_ffff,
            num_channels <= 0xffff,
    ;
    let rate = sr * num_channels;
    assert(rate * bits_per_sample <= 0xffff_ffff * 0xffff * 0xffff) by (nonlinear_arith)
        requires
            rate <= 0xffff_ffff * 0xffff,
            bits_per_sample <= 0xffff,
    ;
    let depth = rate * bits_per_sample;
    if depth == 0 {
        WavDuration { numerator: (n - 44) as u64, denominator: sr * 2 }
    } else {
        WavDuration { numerator: 8 * subchunk2_size, denominator: depth }
    }
}

// ---------------------------------------------------------------------------
// Cache keys
// ---------------------------------------------------------------------------

/// The SHA-256 digest of a byte string.
pub uninterp spec fn sha256(data: Seq<u8>) -> Seq<u8>;

/// `sha2::Sha256::digest`: the digest is named by [`sha256`]; it is 32 bytes
/// long (the hasher's output size is `U32`).
#[verifier::external_body]
fn sha256_digest(data: &[u8]) -> (digest: Vec<u8>)
    ensures
        digest@ == sha256(data@),
        digest@.len() == 32,
{
    sha2::Sha256::digest(data).to_vec()
}

/// The lowercase hexadecimal digit for `n < 16`.
pub open spec fn hex_digit(n: int) -> char {
    if n < 10 {
        ('0' as int + n) as char
    } else {
        ('a' as int + n - 10) as char
    }
}

/// The first 8 bytes of `d` in lowercase hexadecimal, two digits per byte.
pub open spec fn hex_prefix(d: Seq<u8>) -> Seq<char> {
    Seq::new(
        16,
        |j: int|
            if j % 2 == 0 {
                hex_digit(d[j / 2] as int / 16)
            } else {
                hex_digit(d[j / 2] as int % 16)
            },
    )
}

/// The bytes that are hashed for a cache key: the UTF-8 form of
/// `"{text}:{expression_id}"`.
pub open spec fn cache_key_input(text: Seq<char>, expression_id: Seq<char>) -> Seq<u8> {
    vstd::utf8::encode_utf8(text + seq![':'] + expression_id)
}

/// The cache key of a text and an expression.
pub open spec fn cache_key(text: Seq<char>, expression_id: Seq<char>) -> Seq<char> {
    hex_prefix(sha256(cache_key_input(text, expression_id)))
}

fn hex_char(n: u8) -> (c: char)
    requires
        n < 16,
    ensures
        c == hex_digit(n as int),
{
    if n < 10 {
        (48 + n) as char
    } else {
        (87 + n) as char
    }
}

/// Compute a cache key as the first 16 hex characters of the SHA-256 digest
/// of `"{text}:{expression_id}"`.
pub fn make_cache_key(text: &str, expression_id: &str) -> (key: String)
    ensures
        key@ == cache_key(text@, expression_id@),
{
    let with_colon = joined(text, ":");
    let input = joined(with_colon.as_str(), expression_id);
    proof {
        reveal_strlit(":");
        assert(input@ =~= text@ + seq![':'] + expression_id@);
    }
    let digest = sha256_digest(input.as_str().as_bytes());
    let mut key = String::new();
    let mut i: usize = 0;
    while i < 8
        invariant
            i <= 8,
            digest@ == sha256(cache_key_input(text@, expression_id@)),
            digest@.len() == 32,
            key@ == hex_prefix(digest@).take(2 * i as int),
        decreases 8 - i,
    {
        let b = digest[i];
        push_char(&mut key, hex_char(b / 16));
        push_char(&mut key, hex_char(b % 16));
        assert(key@ =~= hex_prefix(digest@).take(2 * (i + 1) as int));
        i += 1;
    }
    assert(key@ =~= hex_prefix(digest@));
    key
}

/// A cache key is 16 lowercase hexadecimal digits.
pub proof fn law_cache_key_shape(text: Seq<char>, expression_id: Seq<char>)
    requires
        sha256(cache_key_input(text, expression_id)).len() >= 8,
    ensures
        cache_key(text, expression_id).len() == 16,
        forall|j: int|
            0 <= j < 16 ==> {
                let c = #[trigger] cache_key(text, expression_id)[j];
                ('0' <= c && c <= '9') || ('a' <= c && c <= 'f')
            },
{
}

// ---------------------------------------------------------------------------
// Synthesis results
// ---------------------------------------------------------------------------

/// The standard (RFC 4648, padded) base64 encoding of a byte string.
pub uninterp spec fn base64_standard(data: Seq<u8>) -> Seq<char>;

/// `base64::engine::general_purpose::STANDARD.encode`: the text is named by
/// [`base64_standard`]; with padding it is `4 * ceil(len / 3)` characters
/// long.  The call panics when that length overflows `usize`, which
/// `requires` rules out.
#[verifier::external_body]
fn encode_base64(data: &[u8]) -> (encoded: String)
    requires
        4 * ((data@.len() + 2) / 3) <= usize::MAX,
    ensures
        encoded@ == base64_standard(data@),
        encoded@.len() == 4 * ((data@.len() + 2) / 3),
{
    base64::engine::general_purpose::STANDARD.encode(data)
}

/// Result of a successful TTS synthesis.
pub struct TTSResult {
    /// Base64-encoded WAV audio data.
    pub audio_data: String,
    /// Sample rate in Hz (GPT-SoVITS v4 outputs 32 000 Hz).
    pub sample_rate: u32,
    /// Audio duration in seconds.
    pub duration: WavDuration,
    /// Motion ID for Live2D animation sync.
    pub motion_id: String,
    /// Expression ID for Live2D facial expression sync.
    pub expression_id: String,
    /// Clean text that was actually synthesized.
    pub text: String,
}

/// A synthesis request is skipped when its text is blank.
pub fn should_synthesize(text: &str) -> (go: bool)
    ensures
        go == !is_blank_text(text@),
{
    !crate::text::is_blank(text)
}


// ---------------------------------------------------------------------------
// Cache (LRU + TTL)
// ---------------------------------------------------------------------------

/// What the cache holds for one key.
pub struct CacheSlot {
    /// Base64 audio payload.
    pub audio_data: String,
    /// Sample rate in Hz.
    pub sample_rate: u32,
    /// Duration.
    pub duration: WavDuration,
    /// Creation time (ms) — used for TTL expiry.
    pub created_at: u64,
    /// Last access time (ms) — used for LRU eviction.
    pub last_accessed: u64,
}

/// One slot in the TTS cache.
struct CacheEntry {
    key: String,
    audio_data: String,
    sample_rate: u32,
    duration: WavDuration,
    created_at: u64,
    last_accessed: u64,
}

/// In-memory LRU+TTL cache for TTS audio.  Times are in milliseconds.
///
/// * **LRU** — when the cache holds `max_size` live entries and a new key is
///   stored, the least-recently-used entry (oldest `last_accessed`) is evicted.
/// * **TTL** — entries older than `ttl` are discarded on `get` and purged on
///   every `put`.
pub struct TTSCache {
    entries: Vec<CacheEntry>,
    max_size: usize,
    ttl: u64,
}

spec fn slot_of_entry(e: CacheEntry) -> CacheSlot {
    CacheSlot {
        audio_data: e.audio_data,
        sample_rate: e.sample_rate,
        duration: e.duration,
        created_at: e.created_at,
        last_accessed: e.last_accessed,
    }
}

spec fn keys_of(s: Seq<CacheEntry>) -> Seq<Seq<char>> {
    s.map_values(|e: CacheEntry| e.key@)
}

spec fn distinct_keys(s: Seq<CacheEntry>) -> bool {
    forall|i: int, j: int|
        0 <= i < s.len() && 0 <= j < s.len() && i != j ==> #[trigger] s[i].key@ != #[trigger] s[j].key@
}

spec fn has_key(s: Seq<CacheEntry>, k: Seq<char>) -> bool {
    exists|i: int| 0 <= i < s.len() && #[trigger] s[i].key@ == k
}

spec fn index_of_key(s: Seq<CacheEntry>, k: Seq<char>) -> int {
    choose|i: int| 0 <= i < s.len() && #[trigger] s[i].key@ == k
}

spec fn entries_map(s: Seq<CacheEntry>) -> Map<Seq<char>, CacheSlot> {
    Map::new(|k: Seq<char>| has_key(s, k), |k: Seq<char>| slot_of_entry(s[index_of_key(s, k)]))
}

/// The most number of entries a cache of capacity `max_size` holds: the entry
/// just stored is always kept, even at capacity zero.
pub open spec fn capacity_bound(max_size: usize) -> nat {
    if max_size == 0 {
        1
    } else {
        max_size as nat
    }
}

/// Time elapsed since `since`, as `Instant::duration_since` gives it (zero
/// when `since` is later).
pub open spec fn elapsed(now: u64, since: u64) -> int {
    if now >= since {
        now - since
    } else {
        0
    }
}

/// An entry has expired when it is older than the TTL.
pub open spec fn is_expired(slot: CacheSlot, now: u64, ttl: u64) -> bool {
    elapsed(now, slot.created_at) > ttl
}

/// The entries of `m` that have not expired at `now`.
pub open spec fn live_entries(m: Map<Seq<char>, CacheSlot>, now: u64, ttl: u64) -> Map<
    Seq<char>,
    CacheSlot,
> {
    Map::new(|k: Seq<char>| m.contains_key(k) && !is_expired(m[k], now, ttl), |k: Seq<char>| m[k])
}

/// `victim` is a least-recently-used entry of `m`.
pub open spec fn is_lru(m: Map<Seq<char>, CacheSlot>, victim: Seq<char>) -> bool {
    &&& m.contains_key(victim)
    &&& forall|k: Seq<char>| #[trigger]
        m.contains_key(k) ==> m[victim].last_accessed <= m[k].last_accessed
}

/// The slot that `put` stores.
pub open spec fn fresh_slot(audio_data: String, sample_rate: u32, duration: WavDuration, now: u64) -> CacheSlot {
    CacheSlot { audio_data, sample_rate, duration, created_at: now, last_accessed: now }
}

/// How `get(key, now)` changes the cache contents `old` into `new` and what it returns.
pub open spec fn get_outcome(
    old: Map<Seq<char>, CacheSlot>,
    ttl: u64,
    key: Seq<char>,
    now: u64,
    new: Map<Seq<char>, CacheSlot>,
    r: Option<(String, u32, WavDuration)>,
) -> bool {
    if !old.contains_key(key) {
        r is None && new == old
    } else if is_expired(old[key], now, ttl) {
        r is None && new == old.remove(key)
    } else {
        &&& r == Some((old[key].audio_data, old[key].sample_rate, old[key].duration))
        &&& new == old.insert(key, CacheSlot { last_accessed: now, ..old[key] })
    }
}

/// How `put(key, .., now)` changes the cache contents `old` into `new`:
/// expired entries are purged; if the live entries fill the cache and `key` is
/// new, a least-recently-used entry is evicted; then `slot` is stored under `key`.
pub open spec fn put_outcome(
    old: Map<Seq<char>, CacheSlot>,
    max_size: usize,
    ttl: u64,
    key: Seq<char>,
    slot: CacheSlot,
    now: u64,
    new: Map<Seq<char>, CacheSlot>,
) -> bool {
    let live = live_entries(old, now, ttl);
    if live.len() >= max_size && !live.contains_key(key) && live.len() > 0 {
        exists|victim: Seq<char>| is_lru(live, victim) && new == live.remove(victim).insert(key, slot)
    } else {
        new == live.insert(key, slot)
    }
}

impl View for TTSCache {
    type V = Map<Seq<char>, CacheSlot>;

    closed spec fn view(&self) -> Map<Seq<char>, CacheSlot> {
        entries_map(self.entries@)
    }
}

proof fn lemma_entry_in_map(s: Seq<CacheEntry>, i: int)
    requires
        distinct_keys(s),
        0 <= i < s.len(),
    ensures
        entries_map(s).contains_key(s[i].key@),
        entries_map(s)[s[i].key@] == slot_of_entry(s[i]),
{
    assert(has_key(s, s[i].key@));
    let j = index_of_key(s, s[i].key@);
    assert(s[j].key@ == s[i].key@);
}

proof fn lemma_map_finite(s: Seq<CacheEntry>)
    requires
        distinct_keys(s),
    ensures
        entries_map(s).dom().finite(),
        entries_map(s).dom().len() == s.len(),
{
    let ks = keys_of(s);
    assert forall|k: Seq<char>| entries_map(s).dom().contains(k) == ks.to_set().contains(k) by {
        if has_key(s, k) {
            let i = choose|i: int| 0 <= i < s.len() && #[trigger] s[i].key@ == k;
            assert(ks[i] == k);
        }
        if ks.contains(k) {
            let i = choose|i: int| 0 <= i < ks.len() && ks[i] == k;
            assert(s[i].key@ == k);
        }
    }
    assert(entries_map(s).dom() =~= ks.to_set());
    assert(ks.no_duplicates()) by {
        assert forall|i: int, j: int| 0 <= i < ks.len() && 0 <= j < ks.len() && i != j implies ks[i]
            != ks[j] by {
            assert(s[i].key@ != s[j].key@);
        }
    }
    ks.unique_seq_to_set();
    vstd::seq_lib::seq_to_set_is_finite(ks);
}

proof fn lemma_map_push(s: Seq<CacheEntry>, e: CacheEntry)
    requires
        distinct_keys(s),
        !entries_map(s).contains_key(e.key@),
    ensures
        distinct_keys(s.push(e)),
        entries_map(s.push(e)) == entries_map(s).insert(e.key@, slot_of_entry(e)),
{
    let t = s.push(e);
    assert forall|i: int| 0 <= i < s.len() implies s[i].key@ != e.key@ by {
        lemma_entry_in_map(s, i);
    }
    assert(distinct_keys(t)) by {
        assert forall|i: int, j: int| 0 <= i < t.len() && 0 <= j < t.len() && i != j implies #[trigger] t[i].key@
            != #[trigger] t[j].key@ by {
            if i < s.len() && j < s.len() {
                assert(s[i].key@ != s[j].key@);
            }
        }
    }
    let m = entries_map(s).insert(e.key@, slot_of_entry(e));
    assert forall|k: Seq<char>| #[trigger] entries_map(t).contains_key(k) == m.contains_key(k) by {
        if has_key(t, k) {
            let i = choose|i: int| 0 <= i < t.len() && #[trigger] t[i].key@ == k;
            if i < s.len() {
                lemma_entry_in_map(s, i);
            }
        }
        if entries_map(s).contains_key(k) {
            let i = choose|i: int| 0 <= i < s.len() && #[trigger] s[i].key@ == k;
            assert(t[i].key@ == k);
        }
        if k == e.key@ {
            assert(t[s.len() as int].key@ == k);
        }
    }
    assert forall|k: Seq<char>| #[trigger] entries_map(t).contains_key(k) implies entries_map(t)[k] == m[k] by {
        let i = choose|i: int| 0 <= i < t.len() && #[trigger] t[i].key@ == k;
        lemma_entry_in_map(t, i);
        if i < s.len() {
            lemma_entry_in_map(s, i);
        }
    }
    assert(entries_map(t) =~= m);
}

proof fn lemma_map_remove(s: Seq<CacheEntry>, i: int)
    requires
        distinct_keys(s),
        0 <= i < s.len(),
    ensures
        distinct_keys(s.remove(i)),
        entries_map(s.remove(i)) == entries_map(s).remove(s[i].key@),
{
    let t = s.remove(i);
    let m = entries_map(s).remove(s[i].key@);
    assert forall|a: int| 0 <= a < t.len() implies #[trigger] t[a] == s[if a < i { a } else { a + 1 }] by {}
    assert(distinct_keys(t)) by {
        assert forall|a: int, b: int| 0 <= a < t.len() && 0 <= b < t.len() && a != b implies #[trigger] t[a].key@
            != #[trigger] t[b].key@ by {
            let a2 = if a < i { a } else { a + 1 };
            let b2 = if b < i { b } else { b + 1 };
            assert(t[a] == s[a2]);
            assert(t[b] == s[b2]);
            assert(s[a2].key@ != s[b2].key@);
        }
    }
    assert forall|k: Seq<char>| #[trigger] entries_map(t).contains_key(k) == m.contains_key(k) by {
        if has_key(t, k) {
            let a = choose|a: int| 0 <= a < t.len() && #[trigger] t[a].key@ == k;
            let a2 = if a < i { a } else { a + 1 };
            assert(t[a] == s[a2]);
            lemma_entry_in_map(s, a2);
            assert(s[a2].key@ != s[i].key@);
        }
        if m.contains_key(k) {
            let a = choose|a: int| 0 <= a < s.len() && #[trigger] s[a].key@ == k;
            assert(a != i);
            let a2 = if a < i { a } else { a - 1 };
            assert(t[a2] == s[a]);
        }
    }
    assert forall|k: Seq<char>| #[trigger] entries_map(t).contains_key(k) implies entries_map(t)[k] == m[k] by {
        let a = choose|a: int| 0 <= a < t.len() && #[trigger] t[a].key@ == k;
        lemma_entry_in_map(t, a);
        let a2 = if a < i { a } else { a + 1 };
        assert(t[a] == s[a2]);
        lemma_entry_in_map(s, a2);
    }
    assert(entries_map(t) =~= m);
}

proof fn lemma_map_update(s: Seq<CacheEntry>, i: int, e: CacheEntry)
    requires
        distinct_keys(s),
        0 <= i < s.len(),
        e.key@ == s[i].key@,
    ensures
        distinct_keys(s.update(i, e)),
        entries_map(s.update(i, e)) == entries_map(s).insert(e.key@, slot_of_entry(e)),
{
    let t = s.update(i, e);
    let m = entries_map(s).insert(e.key@, slot_of_entry(e));
    assert(distinct_keys(t)) by {
        assert forall|a: int, b: int| 0 <= a < t.len() && 0 <= b < t.len() && a != b implies #[trigger] t[a].key@
            != #[trigger] t[b].key@ by {
            assert(s[a].key@ != s[b].key@);
        }
    }
    assert forall|k: Seq<char>| #[trigger] entries_map(t).contains_key(k) == m.contains_key(k) by {
        if has_key(t, k) {
            let a = choose|a: int| 0 <= a < t.len() && #[trigger] t[a].key@ == k;
            if a != i {
                lemma_entry_in_map(s, a);
            }
        }
        if entries_map(s).contains_key(k) {
            let a = choose|a: int| 0 <= a < s.len() && #[trigger] s[a].key@ == k;
            assert(t[a].key@ == k);
        }
        if k == e.key@ {
            assert(t[i].key@ == k);
        }
    }
    assert forall|k: Seq<char>| #[trigger] entries_map(t).contains_key(k) implies entries_map(t)[k] == m[k] by {
        let a = choose|a: int| 0 <= a < t.len() && #[trigger] t[a].key@ == k;
        lemma_entry_in_map(t, a);
        if a != i {
            lemma_entry_in_map(s, a);
        }
    }
    assert(entries_map(t) =~= m);
}

fn copy_entry(e: &CacheEntry) -> (c: CacheEntry)
    ensures
        c == *e,
{
    CacheEntry {
        key: e.key.clone(),
        audio_data: e.audio_data.clone(),
        sample_rate: e.sample_rate,
        duration: e.duration,
        created_at: e.created_at,
        last_accessed: e.last_accessed,
    }
}

fn expired_exec(created_at: u64, now: u64, ttl: u64) -> (r: bool)
    ensures
        r == (elapsed(now, created_at) > ttl),
{
    let age = if now >= created_at { now - created_at } else { 0 };
    age > ttl
}

fn find_key(entries: &Vec<CacheEntry>, key: &str) -> (r: Option<usize>)
    ensures
        match r {
            Some(i) => i < entries@.len() && entries@[i as int].key@ == key@,
            None => !has_key(entries@, key@),
        },
{
    let mut i: usize = 0;
    while i < entries.len()
        invariant
            i <= entries@.len(),
            forall|j: int| 0 <= j < i ==> #[trigger] entries@[j].key@ != key@,
        decreases entries.len() - i,
    {
        if same_text(entries[i].key.as_str(), key) {
            return Some(i);
        }
        i += 1;
    }
    None
}

impl TTSCache {
    /// The cache's well-formedness: keys are distinct, and it holds no more
    /// entries than its capacity allows.
    pub closed spec fn wf(&self) -> bool {
        &&& distinct_keys(self.entries@)
        &&& self.entries@.len() <= capacity_bound(self.max_size)
    }

    /// The capacity the cache was made with.
    pub closed spec fn max_entries(&self) -> usize {
        self.max_size
    }

    /// The time to live (ms) the cache was made with.
    pub closed spec fn time_to_live(&self) -> u64 {
        self.ttl
    }

    /// Create a new cache with the given capacity and TTL (ms).
    pub fn new(max_size: usize, ttl: u64) -> (c: Self)
        ensures
            c.wf(),
            c@ == Map::<Seq<char>, CacheSlot>::empty(),
            c.max_entries() == max_size,
            c.time_to_live() == ttl,
    {
        let c = TTSCache { entries: Vec::new(), max_size, ttl };
        assert(c@ =~= Map::<Seq<char>, CacheSlot>::empty());
        c
    }

    /// The number of entries held.
    pub fn len(&self) -> (n: usize)
        requires
            self.wf(),
        ensures
            self@.dom().finite(),
            n == self@.len(),
    {
        proof {
            lemma_map_finite(self.entries@);
        }
        self.entries.len()
    }

    /// Look up `key` at time `now`.  Returns `Some((audio_data, sample_rate,
    /// duration))` on a hit; `None` on a miss, or when the entry has expired,
    /// which removes it.  On a hit the entry's last access time becomes `now`.
    pub fn get(&mut self, key: &str, now: u64) -> (r: Option<(String, u32, WavDuration)>)
        requires
            old(self).wf(),
        ensures
            final(self).wf(),
            final(self).max_entries() == old(self).max_entries(),
            final(self).time_to_live() == old(self).time_to_live(),
            get_outcome(old(self)@, old(self).time_to_live(), key@, now, final(self)@, r),
            final(self)@.dom().finite(),
            final(self)@.len() <= capacity_bound(final(self).max_entries()),
    {
        proof {
            lemma_map_finite(self.entries@);
        }
        match find_key(&self.entries, key) {
            None => {
                proof {
                    assert(!self@.contains_key(key@));
                }
                None
            },
            Some(i) => {
                proof {
                    lemma_entry_in_map(self.entries@, i as int);
                }
                let ghost s = self.entries@;
                if expired_exec(self.entries[i].created_at, now, self.ttl) {
                    self.entries.remove(i);
                    proof {
                        lemma_map_remove(s, i as int);
                        lemma_map_finite(self.entries@);
                    }
                    None
                } else {
                    let mut e = self.entries.remove(i);
                    e.last_accessed = now;
                    let result = (e.audio_data.clone(), e.sample_rate, e.duration);
                    self.entries.insert(i, e);
                    proof {
                        assert(self.entries@ =~= s.update(i as int, e));
                        lemma_map_update(s, i as int, e);
                        lemma_map_finite(self.entries@);
                        assert(slot_of_entry(e) =~= CacheSlot { last_accessed: now, ..slot_of_entry(s[i as int]) });
                    }
                    Some(result)
                }
            },
        }
    }

    /// Insert (or update) an entry at time `now`.  Expired entries are purged
    /// first; if the cache is then full and `key` is new, the
    /// least-recently-used entry is evicted.
    pub fn put(&mut self, key: String, audio_data: String, sample_rate: u32, duration: WavDuration, now: u64)
        requires
            old(self).wf(),
        ensures
            final(self).wf(),
            final(self).max_entries() == old(self).max_entries(),
            final(self).time_to_live() == old(self).time_to_live(),
            put_outcome(
                old(self)@,
                old(self).max_entries(),
                old(self).time_to_live(),
                key@,
                fresh_slot(audio_data, sample_rate, duration, now),
                now,
                final(self)@,
            ),
            final(self)@.dom().finite(),
            final(self)@.len() <= capacity_bound(final(self).max_entries()),
    {
        let ghost s = self.entries@;
        let ghost m = self@;
        let ghost live = live_entries(m, now, self.ttl);
        // Purge expired entries, keeping the order of the others.
        let mut kept: Vec<CacheEntry> = Vec::new();
        let mut i: usize = 0;
        while i < self.entries.len()
            invariant
                s == self.entries@,
                m == entries_map(s),
                live == live_entries(m, now, self.ttl),
                distinct_keys(s),
                i <= s.len(),
                distinct_keys(kept@),
                kept@.len() <= i,
                entries_map(kept@) == Map::new(
                    |k: Seq<char>| live.contains_key(k) && exists|j: int| 0 <= j < i && #[trigger] s[j].key@ == k,
                    |k: Seq<char>| live[k],
                ),
            decreases s.len() - i,
        {
            let ghost before = entries_map(kept@);
            proof {
                lemma_entry_in_map(s, i as int);
            }
            if !expired_exec(self.entries[i].created_at, now, self.ttl) {
                let e = copy_entry(&self.entries[i]);
                proof {
                    assert forall|j: int| 0 <= j < i implies #[trigger] s[j].key@ != e.key@ by {
                        assert(s[j].key@ != s[i as int].key@);
                    }
                    lemma_map_push(kept@, e);
                }
                kept.push(e);
            }
            proof {
                let target = Map::new(
                    |k: Seq<char>| live.contains_key(k) && exists|j: int| 0 <= j < i + 1 && #[trigger] s[j].key@ == k,
                    |k: Seq<char>| live[k],
                );
                assert forall|k: Seq<char>| #[trigger] entries_map(kept@).contains_key(k) == target.contains_key(k) by {
                    if k == s[i as int].key@ {
                    } else {
                        if exists|j: int| 0 <= j < i + 1 && #[trigger] s[j].key@ == k {
                            let j = choose|j: int| 0 <= j < i + 1 && #[trigger] s[j].key@ == k;
                            assert(j < i);
                        }
                    }
                }
                assert(entries_map(kept@) =~= target);
            }
            i += 1;
        }
        proof {
            assert forall|k: Seq<char>| #[trigger] entries_map(kept@).contains_key(k) == live.contains_key(k) by {
                if live.contains_key(k) {
                    let j = choose|j: int| 0 <= j < s.len() && #[trigger] s[j].key@ == k;
                    assert(0 <= j < i && s[j].key@ == k);
                }
            }
            assert(entries_map(kept@) =~= live);
            lemma_map_finite(kept@);
            lemma_map_finite(s);
            assert(kept@.len() <= capacity_bound(self.max_size));
        }
        // Evict the least-recently-used entry when full and the key is new.
        let existing = find_key(&kept, key.as_str());
        let ghost mut evicted = false;
        let ghost mut victim = key@;
        if kept.len() >= self.max_size && existing.is_none() && kept.len() > 0 {
            let mut lru: usize = 0;
            let mut j: usize = 1;
            while j < kept.len()
                invariant
                    0 < kept@.len(),
                    lru < kept@.len(),
                    1 <= j <= kept@.len(),
                    forall|x: int| 0 <= x < j ==> kept@[lru as int].last_accessed <= #[trigger] kept@[x].last_accessed,
                decreases kept.len() - j,
            {
                if kept[j].last_accessed < kept[lru].last_accessed {
                    lru = j;
                }
                j += 1;
            }
            proof {
                let ks = kept@;
                victim = ks[lru as int].key@;
                lemma_entry_in_map(ks, lru as int);
                assert forall|k: Seq<char>| #[trigger] live.contains_key(k) implies live[victim].last_accessed
                    <= live[k].last_accessed by {
                    let x = choose|x: int| 0 <= x < ks.len() && #[trigger] ks[x].key@ == k;
                    lemma_entry_in_map(ks, x);
                }
                lemma_map_remove(ks, lru as int);
                evicted = true;
            }
            kept.remove(lru);
        }
        let ghost pre = entries_map(kept@);
        let ghost pre_len = kept@.len();
        let entry = CacheEntry {
            key,
            audio_data,
            sample_rate,
            duration,
            created_at: now,
            last_accessed: now,
        };
        let ghost e = entry;
        match existing {
            Some(x) => {
                proof {
                    lemma_map_update(kept@, x as int, e);
                }
                kept.set(x, entry);
            },
            None => {
                proof {
                    assert(!pre.contains_key(e.key@));
                    lemma_map_push(kept@, e);
                }
                kept.push(entry);
            },
        }
        proof {
            assert(slot_of_entry(e) == fresh_slot(e.audio_data, e.sample_rate, e.duration, now));
            lemma_map_finite(kept@);
            if evicted {
                assert(is_lru(live, victim));
                assert(entries_map(kept@) == live.remove(victim).insert(e.key@, slot_of_entry(e)));
            }
        }
        self.entries = kept;
    }
}


/// A value stored by `put` is what a later `get` of the same key returns, as
/// long as no more than the TTL has passed.
pub proof fn law_read_after_write(
    before: Map<Seq<char>, CacheSlot>,
    max_size: usize,
    ttl: u64,
    key: Seq<char>,
    audio_data: String,
    sample_rate: u32,
    duration: WavDuration,
    stored_at: u64,
    middle: Map<Seq<char>, CacheSlot>,
    read_at: u64,
    after: Map<Seq<char>, CacheSlot>,
    r: Option<(String, u32, WavDuration)>,
)
    requires
        put_outcome(before, max_size, ttl, key, fresh_slot(audio_data, sample_rate, duration, stored_at), stored_at, middle),
        get_outcome(middle, ttl, key, read_at, after, r),
        elapsed(read_at, stored_at) <= ttl,
    ensures
        r == Some((audio_data, sample_rate, duration)),
{
    let live = live_entries(before, stored_at, ttl);
    if live.len() >= max_size && !live.contains_key(key) && live.len() > 0 {
        let victim = choose|victim: Seq<char>|
            is_lru(live, victim) && middle == live.remove(victim).insert(key, fresh_slot(audio_data, sample_rate, duration, stored_at));
    }
    assert(middle.contains_key(key));
}

/// An entry older than the TTL is never returned, and reading it removes it.
pub proof fn law_expired_entries_are_dropped(
    before: Map<Seq<char>, CacheSlot>,
    ttl: u64,
    key: Seq<char>,
    now: u64,
    after: Map<Seq<char>, CacheSlot>,
    r: Option<(String, u32, WavDuration)>,
)
    requires
        get_outcome(before, ttl, key, now, after, r),
        before.contains_key(key),
        is_expired(before[key], now, ttl),
    ensures
        r is None,
        !after.contains_key(key),
{
}

/// After a `put`, every entry other than the stored one was already in the
/// cache and had not expired; when the key was already live, no other live
/// entry is lost or changed.
pub proof fn law_put_keeps_live_entries(
    before: Map<Seq<char>, CacheSlot>,
    max_size: usize,
    ttl: u64,
    key: Seq<char>,
    slot: CacheSlot,
    now: u64,
    after: Map<Seq<char>, CacheSlot>,
)
    requires
        put_outcome(before, max_size, ttl, key, slot, now, after),
    ensures
        after.contains_key(key) && after[key] == slot,
        forall|k: Seq<char>| k != key && #[trigger] after.contains_key(k) ==> before.contains_key(k)
            && !is_expired(before[k], now, ttl) && after[k] == before[k],
        live_entries(before, now, ttl).contains_key(key) ==> forall|k: Seq<char>|
            k != key && #[trigger] live_entries(before, now, ttl).contains_key(k) ==> after.contains_key(k)
                && after[k] == before[k],
{
    let live = live_entries(before, now, ttl);
    if live.len() >= max_size && !live.contains_key(key) && live.len() > 0 {
        let victim = choose|victim: Seq<char>|
            is_lru(live, victim) && after == live.remove(victim).insert(key, slot);
    }
}

/// While fewer than `max_size` live entries are held, or when the key is
/// already live, `put` evicts nothing: the result is the live entries with
/// `slot` stored under `key`.  Otherwise exactly one live entry gives way.
pub proof fn law_put_evicts_only_when_full(
    before: Map<Seq<char>, CacheSlot>,
    max_size: usize,
    ttl: u64,
    key: Seq<char>,
    slot: CacheSlot,
    now: u64,
    after: Map<Seq<char>, CacheSlot>,
)
    requires
        put_outcome(before, max_size, ttl, key, slot, now, after),
    ensures
        live_entries(before, now, ttl).len() < max_size || live_entries(before, now, ttl).contains_key(key)
            ==> after == live_entries(before, now, ttl).insert(key, slot),
        live_entries(before, now, ttl).len() < max_size ==> forall|k: Seq<char>|
            #[trigger] live_entries(before, now, ttl).contains_key(k) ==> after.contains_key(k),
        live_entries(before, now, ttl).len() >= max_size && !live_entries(before, now, ttl).contains_key(key)
            && live_entries(before, now, ttl).len() > 0 ==> exists|gone: Seq<char>|
            live_entries(before, now, ttl).contains_key(gone) && after == live_entries(before, now, ttl).remove(
                gone,
            ).insert(key, slot),
{
    let live = live_entries(before, now, ttl);
    if live.len() >= max_size && !live.contains_key(key) && live.len() > 0 {
        let victim = choose|victim: Seq<char>|
            is_lru(live, victim) && after == live.remove(victim).insert(key, slot);
        assert(live.contains_key(victim));
    }
}

/// When `put` evicts an entry, it is a least-recently-used live one.
pub proof fn law_eviction_is_lru(
    before: Map<Seq<char>, CacheSlot>,
    max_size: usize,
    ttl: u64,
    key: Seq<char>,
    slot: CacheSlot,
    now: u64,
    after: Map<Seq<char>, CacheSlot>,
    gone: Seq<char>,
)
    requires
        put_outcome(before, max_size, ttl, key, slot, now, after),
        live_entries(before, now, ttl).contains_key(gone),
        !after.contains_key(gone),
    ensures
        is_lru(live_entries(before, now, ttl), gone),
{
    let live = live_entries(before, now, ttl);
    if live.len() >= max_size && !live.contains_key(key) && live.len() > 0 {
        let victim = choose|victim: Seq<char>|
            is_lru(live, victim) && after == live.remove(victim).insert(key, slot);
        if gone != victim {
            assert(after.contains_key(gone));
        }
    } else {
        assert(after.contains_key(gone));
    }
}

// ---------------------------------------------------------------------------
// Synthesis steps
// ---------------------------------------------------------------------------

/// `s` with every trailing `/` removed (`str::trim_end_matches('/')`).
pub open spec fn trim_trailing_slashes(s: Seq<char>) -> Seq<char>
    decreases s.len(),
{
    if s.len() > 0 && s.last() == '/' {
        trim_trailing_slashes(s.drop_last())
    } else {
        s
    }
}

/// The URL of the GPT-SoVITS `/tts` endpoint under `api_url`.
pub fn tts_endpoint(api_url: &str) -> (url: String)
    ensures
        url@ == trim_trailing_slashes(api_url@) + "/tts"@,
{
    let cs = chars_of(api_url);
    let mut end = cs.len();
    assert(cs@.take(end as int) =~= cs@);
    while end > 0 && cs[end - 1] == '/'
        invariant
            end <= cs@.len(),
            cs@ == api_url@,
            trim_trailing_slashes(cs@.take(end as int)) == trim_trailing_slashes(api_url@),
        decreases end,
    {
        assert(cs@.take(end as int).drop_last() =~= cs@.take(end - 1));
        end -= 1;
    }
    assert(cs@.take(end as int) =~= cs@.take(end as int));
    let base = crate::text::string_from_range(&cs, 0, end);
    assert(base@ =~= cs@.take(end as int));
    joined(base.as_str(), "/tts")
}

/// The delay, in seconds, after failed attempt `attempt`: `1 << attempt`.
pub open spec fn backoff_secs(attempt: nat) -> nat
    decreases attempt,
{
    if attempt == 0 {
        BACKOFF_BASE_SECS as nat
    } else {
        2 * backoff_secs((attempt - 1) as nat)
    }
}

/// What one HTTP attempt to the TTS service produced.
pub enum AttemptOutcome {
    /// A success status and this response body (raw WAV bytes).
    Body(Vec<u8>),
    /// A non-success status, an unreadable body, or a failed request.
    Failed(String),
}

/// What to do after an attempt.
#[derive(PartialEq, Eq, Debug)]
pub enum RetryDecision {
    /// The body is usable audio.
    Accept,
    /// Sleep this many seconds, then try again.
    RetryAfter(u64),
    /// That was the last attempt: sleep this many seconds, then fail.
    GiveUpAfter(u64),
}

/// The decision after attempt number `attempt` (counting from 0): non-empty
/// audio is accepted; otherwise the backoff of `1 << attempt` seconds is
/// waited, then the next attempt is made while attempts remain, else
/// synthesis fails.
pub open spec fn retry_decision(attempt: nat, outcome: AttemptOutcome) -> RetryDecision {
    if outcome matches AttemptOutcome::Body(b) && b@.len() > 0 {
        RetryDecision::Accept
    } else if attempt + 1 < MAX_RETRIES {
        RetryDecision::RetryAfter(backoff_secs(attempt) as u64)
    } else {
        RetryDecision::GiveUpAfter(backoff_secs(attempt) as u64)
    }
}

/// Any non-empty body is accepted at every attempt, whatever its size; an
/// empty body or a failure is never accepted, and is followed by the wait of
/// `1 << attempt` seconds.
pub proof fn law_nonempty_body_is_accepted(attempt: nat, b: Vec<u8>, reason: String)
    ensures
        b@.len() > 0 ==> retry_decision(attempt, AttemptOutcome::Body(b)) == RetryDecision::Accept,
        b@.len() == 0 ==> retry_decision(attempt, AttemptOutcome::Body(b)) != RetryDecision::Accept,
        retry_decision(attempt, AttemptOutcome::Failed(reason)) != RetryDecision::Accept,
        attempt < 3 ==> (retry_decision(attempt, AttemptOutcome::Failed(reason)) matches RetryDecision::RetryAfter(
            s,
        ) && s == vstd::arithmetic::power2::pow2(attempt)) || (retry_decision(
            attempt,
            AttemptOutcome::Failed(reason),
        ) matches RetryDecision::GiveUpAfter(s) && s == vstd::arithmetic::power2::pow2(attempt) && attempt == 2),
{
    assert(backoff_secs(0) == 1);
    assert(backoff_secs(1) == 2);
    assert(backoff_secs(2) == 4);
    vstd::arithmetic::power2::lemma2_to64();
}

/// Decide what follows attempt number `attempt` (counting from 0).
pub fn after_attempt(attempt: usize, outcome: &AttemptOutcome) -> (d: RetryDecision)
    requires
        attempt < MAX_RETRIES,
    ensures
        d == retry_decision(attempt as nat, *outcome),
{
    let usable = match outcome {
        AttemptOutcome::Body(b) => b.len() > 0,
        AttemptOutcome::Failed(_) => false,
    };
    if usable {
        return RetryDecision::Accept;
    }
    let mut delay: u64 = BACKOFF_BASE_SECS;
    let mut k: usize = 0;
    while k < attempt
        invariant
            k <= attempt < MAX_RETRIES,
            delay == backoff_secs(k as nat),
            delay <= 4,
            k == 0 ==> delay == 1,
            k == 1 ==> delay == 2,
        decreases attempt - k,
    {
        delay = delay * 2;
        k += 1;
    }
    if attempt + 1 < MAX_RETRIES {
        RetryDecision::RetryAfter(delay)
    } else {
        RetryDecision::GiveUpAfter(delay)
    }
}

/// Failed attempts are followed by waits of 1 s, 2 s and 4 s; after the
/// third failure and its wait, synthesis fails, so the service is called at
/// most three times.
pub proof fn law_retry_schedule(outcome: AttemptOutcome)
    requires
        !(outcome matches AttemptOutcome::Body(b) && b@.len() > 0),
    ensures
        retry_decision(0, outcome) == RetryDecision::RetryAfter(1),
        retry_decision(1, outcome) == RetryDecision::RetryAfter(2),
        retry_decision(2, outcome) == RetryDecision::GiveUpAfter(4),
{
    assert(backoff_secs(1) == 2);
    assert(backoff_secs(2) == 4);
}

/// A cache hit for `key` at `now`, as a synthesis result.
pub fn lookup_cached(
    cache: &mut TTSCache,
    key: &str,
    now: u64,
    text: &str,
    expression_id: &str,
    motion_id: &str,
) -> (r: Option<TTSResult>)
    requires
        old(cache).wf(),
    ensures
        final(cache).wf(),
        final(cache).max_entries() == old(cache).max_entries(),
        final(cache).time_to_live() == old(cache).time_to_live(),
        exists|hit: Option<(String, u32, WavDuration)>|
            get_outcome(old(cache)@, old(cache).time_to_live(), key@, now, final(cache)@, hit) && match r {
                Some(res) => hit == Some((res.audio_data, res.sample_rate, res.duration))
                    && res.text@ == text@ && res.expression_id@ == expression_id@
                    && res.motion_id@ == motion_id@,
                None => hit is None,
            },
{
    let hit = cache.get(key, now);
    match hit {
        Some((audio_data, sample_rate, duration)) => Some(TTSResult {
            audio_data,
            sample_rate,
            duration,
            motion_id: motion_id.to_owned(),
            expression_id: expression_id.to_owned(),
            text: text.to_owned(),
        }),
        None => None,
    }
}

/// Turn the WAV bytes returned by the service into a synthesis result and
/// store it in the cache under `key` at time `now`.
pub fn store_synthesis(
    cache: &mut TTSCache,
    key: String,
    wav: &[u8],
    now: u64,
    text: &str,
    expression_id: &str,
    motion_id: &str,
) -> (res: TTSResult)
    requires
        old(cache).wf(),
        wav@.len() <= isize::MAX,
    ensures
        final(cache).wf(),
        final(cache).max_entries() == old(cache).max_entries(),
        final(cache).time_to_live() == old(cache).time_to_live(),
        res.audio_data@ == base64_standard(wav@),
        res.sample_rate == SAMPLE_RATE,
        (res.duration.numerator as int, res.duration.denominator as int) == wav_duration(wav@, SAMPLE_RATE),
        res.text@ == text@,
        res.expression_id@ == expression_id@,
        res.motion_id@ == motion_id@,
        put_outcome(
            old(cache)@,
            old(cache).max_entries(),
            old(cache).time_to_live(),
            key@,
            fresh_slot(res.audio_data, res.sample_rate, res.duration, now),
            now,
            final(cache)@,
        ),
{
    let duration = parse_wav_duration(wav, SAMPLE_RATE);
    let audio_data = encode_base64(wav);
    cache.put(key, audio_data.clone(), SAMPLE_RATE, duration, now);
    TTSResult {
        audio_data,
        sample_rate: SAMPLE_RATE,
        duration,
        motion_id: motion_id.to_owned(),
        expression_id: expression_id.to_owned(),
        text: text.to_owned(),
    }
}

// ---------------------------------------------------------------------------
// The synthesis of one text
// ---------------------------------------------------------------------------

/// Where a synthesis stands.
#[derive(PartialEq, Eq, Debug, Clone, Copy)]
pub enum SynthesisPhase {
    /// The request of this attempt (counting from 0) is under way.
    Requesting(usize),
    /// Waiting before this attempt.
    BackingOff(usize),
    /// Waiting after the last attempt, before failing.
    Abandoning,
    /// The synthesis is over.
    Done,
}

/// What the caller should do next.
pub enum SynthesisAction {
    /// Post the request to the service; this is attempt number `n` (from 0).
    Request(usize),
    /// Sleep this many seconds, then report.
    Wait(u64),
    /// The synthesis is over, with this result (`None` on failure).
    Finish(Option<TTSResult>),
}

/// The synthesis of one text: blank text is skipped, a cache hit is
/// delivered without a request, and otherwise the service is asked up to
/// `MAX_RETRIES` times with backoff; a success is cached.
pub struct Synthesis {
    phase: SynthesisPhase,
    key: String,
    text: String,
    expression_id: String,
    motion_id: String,
}

impl Synthesis {
    /// The phase.
    pub closed spec fn phase(&self) -> SynthesisPhase {
        self.phase
    }

    /// The cache key.
    pub closed spec fn key(&self) -> Seq<char> {
        self.key@
    }

    /// The text being synthesized.
    pub closed spec fn text(&self) -> Seq<char> {
        self.text@
    }

    /// The expression ID (part of the cache key).
    pub closed spec fn expression_id(&self) -> Seq<char> {
        self.expression_id@
    }

    /// The motion ID (copied into the result).
    pub closed spec fn motion_id(&self) -> Seq<char> {
        self.motion_id@
    }

    /// Attempt numbers stay below `MAX_RETRIES`, and the key is the text's.
    pub closed spec fn wf(&self) -> bool {
        &&& self.key@ == cache_key(self.text@, self.expression_id@)
        &&& match self.phase {
            SynthesisPhase::Requesting(n) => n < MAX_RETRIES,
            SynthesisPhase::BackingOff(n) => 0 < n < MAX_RETRIES,
            _ => true,
        }
    }

    /// Begin: blank text finishes with no result and no request; a cache hit
    /// finishes with the cached audio and no request; otherwise attempt 0 is
    /// requested.
    pub fn start(
        cache: &mut TTSCache,
        text: &str,
        expression_id: &str,
        motion_id: &str,
        now: u64,
    ) -> (r: (Synthesis, SynthesisAction))
        requires
            old(cache).wf(),
        ensures
            final(cache).wf(),
            final(cache).max_entries() == old(cache).max_entries(),
            final(cache).time_to_live() == old(cache).time_to_live(),
            r.0.wf(),
            r.0.text() == text@,
            r.0.expression_id() == expression_id@,
            r.0.motion_id() == motion_id@,
            is_blank_text(text@) ==> {
                &&& final(cache)@ == old(cache)@
                &&& r.0.phase() == SynthesisPhase::Done
                &&& r.1 matches SynthesisAction::Finish(None)
            },
            !is_blank_text(text@) ==> exists|hit: Option<(String, u32, WavDuration)>|
                {
                    &&& get_outcome(
                        old(cache)@,
                        old(cache).time_to_live(),
                        cache_key(text@, expression_id@),
                        now,
                        final(cache)@,
                        hit,
                    )
                    &&& match hit {
                        Some(h) => r.0.phase() == SynthesisPhase::Done && (r.1 matches SynthesisAction::Finish(
                            Some(res),
                        ) && h == (res.audio_data, res.sample_rate, res.duration) && res.text@ == text@
                            && res.expression_id@ == expression_id@ && res.motion_id@ == motion_id@),
                        None => r.0.phase() == SynthesisPhase::Requesting(0) && (r.1 matches SynthesisAction::Request(
                            0,
                        )),
                    }
                },
    {
        let key = make_cache_key(text, expression_id);
        if !should_synthesize(text) {
            let s = Synthesis {
                phase: SynthesisPhase::Done,
                key,
                text: text.to_owned(),
                expression_id: expression_id.to_owned(),
                motion_id: motion_id.to_owned(),
            };
            return (s, SynthesisAction::Finish(None));
        }
        let hit = lookup_cached(cache, key.as_str(), now, text, expression_id, motion_id);
        let phase = if hit.is_some() {
            SynthesisPhase::Done
        } else {
            SynthesisPhase::Requesting(0)
        };
        let s = Synthesis {
            phase,
            key,
            text: text.to_owned(),
            expression_id: expression_id.to_owned(),
            motion_id: motion_id.to_owned(),
        };
        match hit {
            Some(res) => (s, SynthesisAction::Finish(Some(res))),
            None => (s, SynthesisAction::Request(0)),
        }
    }

    /// The request of the current attempt produced `outcome`.  Usable audio
    /// is cached and delivered; otherwise the backoff of the attempt is waited.
    pub fn on_response(&mut self, cache: &mut TTSCache, outcome: AttemptOutcome, now: u64) -> (a: SynthesisAction)
        requires
            old(self).wf(),
            old(cache).wf(),
            old(self).phase() is Requesting,
            outcome matches AttemptOutcome::Body(b) ==> b@.len() <= isize::MAX,
        ensures
            final(self).wf(),
            final(cache).wf(),
            final(cache).max_entries() == old(cache).max_entries(),
            final(cache).time_to_live() == old(cache).time_to_live(),
            final(self).key() == old(self).key(),
            final(self).text() == old(self).text(),
            final(self).expression_id() == old(self).expression_id(),
            final(self).motion_id() == old(self).motion_id(),
            ({
                let n = old(self).phase()->Requesting_0;
                match retry_decision(n as nat, outcome) {
                    RetryDecision::Accept => {
                        &&& outcome matches AttemptOutcome::Body(wav)
                        &&& final(self).phase() == SynthesisPhase::Done
                        &&& a matches SynthesisAction::Finish(Some(res))
                        &&& res.audio_data@ == base64_standard(wav@)
                        &&& res.sample_rate == SAMPLE_RATE
                        &&& (res.duration.numerator as int, res.duration.denominator as int)
                            == wav_duration(wav@, SAMPLE_RATE)
                        &&& res.text@ == old(self).text()
                        &&& res.expression_id@ == old(self).expression_id()
                        &&& res.motion_id@ == old(self).motion_id()
                        &&& put_outcome(
                            old(cache)@,
                            old(cache).max_entries(),
                            old(cache).time_to_live(),
                            old(self).key(),
                            fresh_slot(res.audio_data, res.sample_rate, res.duration, now),
                            now,
                            final(cache)@,
                        )
                    },
                    RetryDecision::RetryAfter(secs) => {
                        &&& final(cache)@ == old(cache)@
                        &&& final(self).phase() == SynthesisPhase::BackingOff((n + 1) as usize)
                        &&& a == SynthesisAction::Wait(secs)
                    },
                    RetryDecision::GiveUpAfter(secs) => {
                        &&& final(cache)@ == old(cache)@
                        &&& final(self).phase() == SynthesisPhase::Abandoning
                        &&& a == SynthesisAction::Wait(secs)
                    },
                }
            }),
    {
        let n = match self.phase {
            SynthesisPhase::Requesting(n) => n,
            _ => 0,
        };
        match after_attempt(n, &outcome) {
            RetryDecision::Accept => {
                match outcome {
                    AttemptOutcome::Body(wav) => {
                        let res = store_synthesis(
                            cache,
                            self.key.clone(),
                            wav.as_slice(),
                            now,
                            self.text.as_str(),
                            self.expression_id.as_str(),
                            self.motion_id.as_str(),
                        );
                        self.phase = SynthesisPhase::Done;
                        SynthesisAction::Finish(Some(res))
                    },
                    AttemptOutcome::Failed(_) => {
                        self.phase = SynthesisPhase::Done;
                        SynthesisAction::Finish(None)
                    },
                }
            },
            RetryDecision::RetryAfter(secs) => {
                self.phase = SynthesisPhase::BackingOff(n + 1);
                SynthesisAction::Wait(secs)
            },
            RetryDecision::GiveUpAfter(secs) => {
                self.phase = SynthesisPhase::Abandoning;
                SynthesisAction::Wait(secs)
            },
        }
    }

    /// A wait is over: the next attempt is requested, or, after the last
    /// attempt, the synthesis fails.
    pub fn on_waited(&mut self) -> (a: SynthesisAction)
        requires
            old(self).wf(),
            old(self).phase() is BackingOff || old(self).phase() is Abandoning,
        ensures
            final(self).wf(),
            final(self).key() == old(self).key(),
            final(self).text() == old(self).text(),
            final(self).expression_id() == old(self).expression_id(),
            final(self).motion_id() == old(self).motion_id(),
            a matches SynthesisAction::Request(n) ==> 0 < n < MAX_RETRIES,
            match old(self).phase() {
                SynthesisPhase::BackingOff(n) => final(self).phase() == SynthesisPhase::Requesting(n)
                    && a == SynthesisAction::Request(n),
                _ => final(self).phase() == SynthesisPhase::Done && (a matches SynthesisAction::Finish(None)),
            },
    {
        match self.phase {
            SynthesisPhase::BackingOff(n) => {
                self.phase = SynthesisPhase::Requesting(n);
                SynthesisAction::Request(n)
            },
            _ => {
                self.phase = SynthesisPhase::Done;
                SynthesisAction::Finish(None)
            },
        }
    }
}

} // verus!
