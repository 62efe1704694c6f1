//! A cache of values that are valid for a limited time.
use crate::time::{Duration, NANOS_PER_SEC};
use std::marker::PhantomData;
use std::sync::Arc;
use std::time::Instant;
use vstd::hash_map::StringHashMap;
use vstd::prelude::*;

verus! {

/// The point in time type of the standard library, carried as an opaque value.
#[verifier::external_type_specification]
#[verifier::external_body]
pub struct ExInstant(std::time::Instant);

/// `std::time::Instant::now`: the present moment of a monotonic clock. Nothing is claimed of it,
/// as it depends on when it is called.
pub assume_specification[ std::time::Instant::now ]() -> std::time::Instant;

/// `std::time::Instant::elapsed`: the time that has passed since `origin`, as seconds and
/// nanoseconds, the nanoseconds being less than a second. Nothing else is claimed of it, as it
/// depends on when it is called.
#[verifier::external_body]
fn elapsed(origin: &Instant) -> (span: Duration)
    ensures
        span.nanos < NANOS_PER_SEC,
{
    let span = origin.elapsed();
    Duration { secs: span.as_secs(), nanos: span.subsec_nanos() }
}

/// A key of the cache. Keys are told apart by their text.
pub trait CacheKey: Sized {
    /// The text of the key.
    spec fn text(&self) -> Seq<char>;

    /// The text of the key.
    fn as_text(&self) -> (text: &str)
        ensures
            text@ == self.text(),
    ;
}

impl CacheKey for String {
    open spec fn text(&self) -> Seq<char> {
        self@
    }

    fn as_text(&self) -> (text: &str) {
        self.as_str()
    }
}

impl CacheKey for &'static str {
    open spec fn text(&self) -> Seq<char> {
        (*self)@
    }

    fn as_text(&self) -> (text: &str) {
        *self
    }
}

impl CacheKey for Arc<String> {
    open spec fn text(&self) -> Seq<char> {
        (**self)@
    }

    fn as_text(&self) -> (text: &str) {
        (**self).as_str()
    }
}

impl CacheKey for Arc<&'static str> {
    open spec fn text(&self) -> Seq<char> {
        (**self)@
    }

    fn as_text(&self) -> (text: &str) {
        **self
    }
}

/// A simple cache which stores values that are valid for a limited amount of time.
///
/// Its view maps the text of each key to its value and to the moment from which the value is no
/// longer valid, in nanoseconds since the cache was created.
#[verifier::reject_recursive_types(K)]
#[verifier::reject_recursive_types(V)]
pub struct TimedCache<K, V> {
    origin: Instant,
    cache: StringHashMap<(V, u128)>,
    keys: PhantomData<K>,
}

impl<K, V> View for TimedCache<K, V> {
    type V = Map<Seq<char>, (V, u128)>;

    closed spec fn view(&self) -> Map<Seq<char>, (V, u128)> {
        self.cache@
    }
}

/// Whether `span` is a reading of the clock, counted from `start`.
pub closed spec fn read_from(start: Instant, span: Duration) -> bool {
    call_ensures(elapsed, (&start,), span)
}

/// The moment from which a value that is stored at `now` for the time `ttl` is no longer valid.
pub open spec fn deadline(now: Duration, ttl: Duration) -> u128 {
    (now.total_nanos() + ttl.total_nanos()) as u128
}

/// The value of `key` that is valid at `now`.
pub open spec fn lookup<V>(
    entries: Map<Seq<char>, (V, u128)>,
    key: Seq<char>,
    now: Duration,
) -> Option<V> {
    if entries.contains_key(key) && entries[key].1 > now.total_nanos() {
        Some(entries[key].0)
    } else {
        None
    }
}

/// The entries once `value` has been stored under `key` at `now` for the time `ttl`.
pub open spec fn stored<V>(
    entries: Map<Seq<char>, (V, u128)>,
    key: Seq<char>,
    value: V,
    ttl: Duration,
    now: Duration,
) -> Map<Seq<char>, (V, u128)> {
    entries.insert(key, (value, deadline(now, ttl)))
}

impl<K: CacheKey, V> TimedCache<K, V> {
    /// Creates an empty cache.
    pub fn new() -> (cache: TimedCache<K, V>)
        ensures
            cache@ == Map::<Seq<char>, (V, u128)>::empty(),
    {
        TimedCache { origin: Instant::now(), cache: StringHashMap::new(), keys: PhantomData }
    }

    /// The moment at which the cache was created, from which its time is counted.
    pub closed spec fn start(self) -> Instant {
        self.origin
    }

    /// Whether `now` is a reading of the clock, counted from the start of this cache.
    pub open spec fn reads(self, now: Duration) -> bool {
        read_from(self.start(), now)
    }

    /// The time since the cache was created.
    pub(crate) fn now(&self) -> (now: Duration)
        ensures
            now.nanos < NANOS_PER_SEC,
            self.reads(now),
    {
        elapsed(&self.origin)
    }

    /// Gets the value of a key, unless it is not in the cache or is no longer valid at `now`, the
    /// time since the cache was created.
    pub fn get_at(&self, key: &K, now: Duration) -> (value: Option<&V>)
        ensures
            value == (match lookup(self@, key.text(), now) {
                Some(v) => Some(&v),
                None => None,
            }),
    {
        if let Some(entry) = self.cache.get(key.as_text()) {
            if entry.1 > now.as_nanos() {
                return Some(&entry.0);
            }
        }
        None
    }

    /// Gets the value of a key, unless it is not in the cache or is no longer valid.
    pub fn get(&self, key: &K) -> (value: Option<&V>)
        ensures
            exists|now: Duration|
                self.reads(now) && value == (match #[trigger] lookup(self@, key.text(), now) {
                    Some(v) => Some(&v),
                    None => None,
                }),
    {
        let now = self.now();
        self.get_at(key, now)
    }

    /// Sets the value of a key at `now`, the time since the cache was created. The value is valid
    /// for the time `ttl`. A value that the key already has is overwritten, so its time in the
    /// cache starts anew. A time that is too long for any `Instant` of the system is kept as well.
    pub fn set_at(&mut self, key: K, value: V, ttl: Duration, now: Duration)
        ensures
            final(self)@ == stored(old(self)@, key.text(), value, ttl, now),
            final(self).start() == old(self).start(),
    {
        let until: u128 = now.as_nanos() + ttl.as_nanos();
        self.cache.insert(key.as_text().to_owned(), (value, until));
    }

    /// Sets the value of a key. The value is valid for the time `ttl` from now on. A value that the
    /// key already has is overwritten, so its time in the cache starts anew. A time that is too long
    /// for any `Instant` of the system is kept as well.
    pub fn set(&mut self, key: K, value: V, ttl: Duration)
        ensures
            exists|now: Duration|
                old(self).reads(now) && final(self)@ == #[trigger] stored(
                    old(self)@,
                    key.text(),
                    value,
                    ttl,
                    now,
                ),
            final(self).start() == old(self).start(),
    {
        let now = self.now();
        self.set_at(key, value, ttl, now)
    }
}

/// A value that was stored is found until its time has passed, and not from then on.
pub proof fn law_found_until_deadline<V>(
    entries: Map<Seq<char>, (V, u128)>,
    key: Seq<char>,
    value: V,
    ttl: Duration,
    set_at: Duration,
    get_at: Duration,
)
    ensures
        lookup(stored(entries, key, value, ttl, set_at), key, get_at) == (if get_at.total_nanos()
            < set_at.total_nanos() + ttl.total_nanos() {
            Some(value)
        } else {
            None
        }),
{
}

/// Storing a value under one key leaves what is found under every other key.
pub proof fn law_other_keys_unaffected<V>(
    entries: Map<Seq<char>, (V, u128)>,
    key: Seq<char>,
    value: V,
    ttl: Duration,
    set_at: Duration,
    other: Seq<char>,
    get_at: Duration,
)
    requires
        other != key,
    ensures
        lookup(stored(entries, key, value, ttl, set_at), other, get_at) == lookup(
            entries,
            other,
            get_at,
        ),
{
}

/// Storing a value again replaces the value and its deadline: nothing is left of what the key had
/// before.
pub proof fn law_overwriting_refreshes<V>(
    entries: Map<Seq<char>, (V, u128)>,
    key: Seq<char>,
    first: V,
    first_ttl: Duration,
    first_at: Duration,
    second: V,
    second_ttl: Duration,
    second_at: Duration,
)
    ensures
        stored(
            stored(entries, key, first, first_ttl, first_at),
            key,
            second,
            second_ttl,
            second_at,
        ) == stored(entries, key, second, second_ttl, second_at),
{
    assert(stored(
        stored(entries, key, first, first_ttl, first_at),
        key,
        second,
        second_ttl,
        second_at,
    ) =~= stored(entries, key, second, second_ttl, second_at));
}

/// A value that is no longer found does not come back by waiting.
pub proof fn law_expiry_is_final<V>(
    entries: Map<Seq<char>, (V, u128)>,
    key: Seq<char>,
    earlier: Duration,
    later: Duration,
)
    requires
        earlier.total_nanos() <= later.total_nanos(),
        lookup(entries, key, earlier) is None,
    ensures
        lookup(entries, key, later) is None,
{
}

/// Nothing is found in an empty cache.
pub proof fn law_empty_finds_nothing<V>(key: Seq<char>, now: Duration)
    ensures
        lookup(Map::<Seq<char>, (V, u128)>::empty(), key, now) is None,
{
}

/// What was set is found, under the same text and no other, until its time has passed, and not from
/// then on. Whatever else is in the cache is found as before.
pub proof fn law_get_finds_what_was_set<K: CacheKey, V>(
    cache: &mut TimedCache<K, V>,
    key: K,
    value: V,
    ttl: Duration,
    now: Duration,
    asked: &K,
    later: Duration,
    before: Option<&V>,
    found: Option<&V>,
)
    requires
        call_ensures(TimedCache::<K, V>::set_at, (cache, key, value, ttl, now), ()),
        call_ensures(TimedCache::<K, V>::get_at, (&*old(cache), asked, later), before),
    ensures
        call_ensures(TimedCache::<K, V>::get_at, (&*final(cache), asked, later), found) ==> found
            == (if asked.text() != key.text() {
            before
        } else if later.secs * 1_000_000_000 + later.nanos < (now.secs + ttl.secs) * 1_000_000_000
            + now.nanos + ttl.nanos {
            Some(&value)
        } else {
            None
        }),
        final(cache).start() == old(cache).start(),
{
}

/// Nothing is found in a new cache.
pub proof fn law_new_cache_finds_nothing<K: CacheKey, V>(
    cache: TimedCache<K, V>,
    asked: &K,
    now: Duration,
    found: Option<&V>,
)
    requires
        call_ensures(TimedCache::<K, V>::new, (), cache),
        call_ensures(TimedCache::<K, V>::get_at, (&cache, asked, now), found),
    ensures
        found is None,
{
}

/// A value is found at every moment at which it is valid: what is found at a reading of the clock is
/// what is found at that moment.
pub proof fn law_get_reads_the_clock<K: CacheKey, V>(
    cache: &TimedCache<K, V>,
    asked: &K,
    found: Option<&V>,
)
    requires
        call_ensures(TimedCache::<K, V>::get, (cache, asked), found),
    ensures
        exists|now: Duration| #[trigger]
            cache.reads(now) && (if cache@.contains_key(asked.text()) && cache@[asked.text()].1
                > now.secs * 1_000_000_000 + now.nanos {
                found == Some(&cache@[asked.text()].0)
            } else {
                found is None
            }),
{
    let now = choose|now: Duration|
        cache.reads(now) && found == (match #[trigger] lookup(cache@, asked.text(), now) {
            Some(v) => Some(&v),
            None => None,
        });
    assert(cache.reads(now));
}

/// Setting a value sets it from a reading of the clock on, for its time, and leaves every other key.
pub proof fn law_set_reads_the_clock<K: CacheKey, V>(
    cache: &mut TimedCache<K, V>,
    key: K,
    value: V,
    ttl: Duration,
)
    requires
        call_ensures(TimedCache::<K, V>::set, (cache, key, value, ttl), ()),
    ensures
        exists|now: Duration| #[trigger]
            old(cache).reads(now) && final(cache)@[key.text()].1 == (now.secs + ttl.secs)
                * 1_000_000_000 + now.nanos + ttl.nanos,
        final(cache)@.contains_key(key.text()),
        final(cache)@[key.text()].0 == value,
        forall|other: Seq<char>|
            other != key.text() ==> {
                &&& #[trigger] final(cache)@.contains_key(other) <==> old(cache)@.contains_key(other)
                &&& final(cache)@[other] == old(cache)@[other]
            },
        final(cache).start() == old(cache).start(),
{
    let now = choose|now: Duration|
        old(cache).reads(now) && final(cache)@ == #[trigger] stored(
            old(cache)@,
            key.text(),
            value,
            ttl,
            now,
        );
    assert(old(cache).reads(now));
}

/// The text of a key is the text that it holds.
pub proof fn law_keys_are_their_text(
    string: String,
    slice: &'static str,
    shared: Arc<String>,
    shared_slice: Arc<&'static str>,
)
    ensures
        string.text() == string@,
        CacheKey::text(&slice) == slice@,
        shared.text() == shared@,
        shared_slice.text() == (*shared_slice)@,
{
}

/// A reading of the clock is the time that has passed since the cache was created, and nothing else
/// is.
proof fn law_readings_are_of_the_clock<K: CacheKey, V>(cache: TimedCache<K, V>, now: Duration)
    ensures
        cache.reads(now) <==> call_ensures(elapsed, (&cache.start(),), now),
        cache.reads(now) ==> now.nanos < 1_000_000_000,
{
}

} // verus!
