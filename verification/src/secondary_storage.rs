//! Secondary storage: a key-value store whose entries may expire, with an
//! atomic counter. Expiry times are milliseconds since the Unix epoch; time
//! to live is given in seconds.

use crate::clock::{EARLIEST_TIME_MS, LATEST_TIME_MS};
use crate::exact_clone::ExactClone;
use crate::keyed::{as_map, find_key, lemma_lookup_as_map, remove_key, sorted_keys, upsert, Keyed};
use crate::text::{decimal, decimal_string, digit_char, owned, to_chars};
use vstd::prelude::*;

verus! {

/// The errors of secondary storage.
#[derive(Clone, Copy, PartialEq, Eq, Debug, Structural)]
pub enum StorageError {
    /// A time to live beyond what a timestamp holds.
    TtlTooLarge,
}

impl StorageError {
    /// The message of the error.
    pub fn message(&self) -> (m: String)
        ensures
            m@ == "secondary-storage TTL is too large"@,
    {
        owned("secondary-storage TTL is too large")
    }
}

/// A stored value and when it expires, if ever.
pub struct StorageEntry {
    pub value: String,
    pub expires_at: Option<i64>,
}

impl DeepView for StorageEntry {
    type V = (Seq<char>, Option<i64>);

    open spec fn deep_view(&self) -> (Seq<char>, Option<i64>) {
        (self.value@, self.expires_at)
    }
}

impl ExactClone for StorageEntry {
    fn exact_clone(&self) -> (r: StorageEntry) {
        StorageEntry { value: self.value.exact_clone(), expires_at: self.expires_at }
    }
}

/// Whether an entry has expired at `now`.
pub open spec fn expired(e: (Seq<char>, Option<i64>), now: i64) -> bool {
    e.1 matches Some(t) && t <= now
}

/// Whether a time to live can be added to `now`: absent, too large to be a
/// timestamp (refused), or landing within the times that `chrono`
/// represents.
pub open spec fn ttl_fits(ttl: Option<u64>, now: i64) -> bool {
    match ttl {
        None => true,
        Some(s) => s > i64::MAX || (s <= i64::MAX / 1000 && EARLIEST_TIME_MS <= now + s * 1000
            <= LATEST_TIME_MS),
    }
}

/// When an entry given `ttl` at `now` expires.
pub open spec fn expiry_spec(ttl: Option<u64>, now: i64) -> Result<Option<i64>, StorageError> {
    match ttl {
        None => Ok(None),
        Some(s) => if s > i64::MAX {
            Err(StorageError::TtlTooLarge)
        } else {
            Ok(Some((now + s * 1000) as i64))
        },
    }
}

fn expiry(ttl: Option<u64>, now: i64) -> (r: Result<Option<i64>, StorageError>)
    requires
        ttl_fits(ttl, now),
        EARLIEST_TIME_MS <= now <= LATEST_TIME_MS,
    ensures
        r == expiry_spec(ttl, now),
{
    match ttl {
        None => Ok(None),
        Some(s) => if s > 9223372036854775807u64 {
            Err(StorageError::TtlTooLarge)
        } else {
            let seconds = s as i64;
            Ok(Some(now + seconds * 1000))
        },
    }
}

/// The value of a text of decimal digits.
pub open spec fn digits_value(s: Seq<char>) -> nat
    decreases s.len(),
{
    if s.len() == 0 {
        0
    } else {
        digits_value(s.drop_last()) * 10 + (s.last() as nat - 48) as nat
    }
}

/// Whether a text holds only decimal digits.
pub open spec fn all_digits(s: Seq<char>) -> bool {
    forall|i: int| 0 <= i < s.len() ==> '0' <= #[trigger] s[i] && s[i] <= '9'
}

/// What `str::parse::<u64>` reads: an optional `+` and at least one decimal
/// digit, of a value that fits.
pub open spec fn parse_u64_spec(s: Seq<char>) -> Option<u64> {
    let body = if s.len() > 0 && s[0] == '+' {
        s.drop_first()
    } else {
        s
    };
    if body.len() == 0 || !all_digits(body) || digits_value(body) > u64::MAX {
        None
    } else {
        Some(digits_value(body) as u64)
    }
}

proof fn lemma_digits_value_prefix(s: Seq<char>, i: int)
    requires
        0 <= i < s.len(),
        all_digits(s),
    ensures
        digits_value(s.take(i + 1)) == digits_value(s.take(i)) * 10 + (s[i] as nat - 48),
{
    assert(s.take(i + 1).drop_last() =~= s.take(i));
}

proof fn lemma_digits_value_grows(s: Seq<char>, i: int)
    requires
        0 <= i <= s.len(),
        all_digits(s),
    ensures
        digits_value(s.take(i)) <= digits_value(s),
    decreases s.len() - i,
{
    if i < s.len() {
        lemma_digits_value_prefix(s, i);
        lemma_digits_value_grows(s, i + 1);
    } else {
        assert(s.take(i) =~= s);
    }
}

/// Reads a text as `str::parse::<u64>` does.
pub fn parse_u64(s: &str) -> (r: Option<u64>)
    ensures
        r == parse_u64_spec(s@),
{
    let chars = to_chars(s);
    let start: usize = if chars.len() > 0 && chars[0] == '+' {
        1
    } else {
        0
    };
    let ghost body = if s@.len() > 0 && s@[0] == '+' {
        s@.drop_first()
    } else {
        s@
    };
    assert(body =~= s@.skip(start as int));
    if start >= chars.len() {
        return None;
    }
    let mut value: u64 = 0;
    let mut i: usize = start;
    while i < chars.len()
        invariant
            chars@ == s@,
            start <= i <= chars@.len(),
            body == s@.skip(start as int),
            body == (if s@.len() > 0 && s@[0] == '+' {
                s@.drop_first()
            } else {
                s@
            }),
            body.len() > 0,
            forall|k: int| start <= k < i ==> '0' <= #[trigger] chars@[k] && chars@[k] <= '9',
            value == digits_value(body.take(i - start)),
        decreases chars@.len() - i,
    {
        let c = chars[i];
        if !('0' <= c && c <= '9') {
            proof {
                assert(body[i - start] == c);
                assert(!all_digits(body));
            }
            return None;
        }
        let d = (c as u32 - 48) as u64;
        assert(body.take(i - start + 1).drop_last() =~= body.take(i - start));
        assert(body.take(i - start + 1).last() == c);
        match value.checked_mul(10) {
            Some(m) => match m.checked_add(d) {
                Some(n) => {
                    value = n;
                },
                None => {
                    return parse_tail_overflow(&chars, start, i, value, Ghost(body));
                },
            },
            None => {
                return parse_tail_overflow(&chars, start, i, value, Ghost(body));
            },
        }
        i = i + 1;
    }
    assert(body.take(i - start) =~= body);
    Some(value)
}

/// Finishes a parse whose value no longer fits at position `i`: the result
/// is `None` whether or not the rest holds only digits.
fn parse_tail_overflow(chars: &Vec<char>, start: usize, i: usize, value: u64, Ghost(body): Ghost<Seq<char>>) -> (r:
    Option<u64>)
    requires
        start <= i < chars@.len(),
        body == chars@.skip(start as int),
        value == digits_value(body.take(i - start)),
        forall|k: int| start <= k < i ==> '0' <= #[trigger] chars@[k] && chars@[k] <= '9',
        '0' <= chars@[i as int] <= '9',
        value * 10 + (chars@[i as int] as nat - 48) > u64::MAX,
    ensures
        r is None,
        r == (if body.len() == 0 || !all_digits(body) || digits_value(body) > u64::MAX {
            None::<u64>
        } else {
            Some(digits_value(body) as u64)
        }),
{
    proof {
        if all_digits(body) {
            assert(body.take(i - start + 1).drop_last() =~= body.take(i - start));
            assert(body[i - start] == chars@[i as int]);
            lemma_digits_value_prefix(body, i - start);
            lemma_digits_value_grows(body, i - start + 1);
        }
    }
    None
}

/// Reading the decimal rendering of a number gives the number back.
pub proof fn lemma_parse_decimal(n: u64)
    ensures
        parse_u64_spec(decimal(n as nat)) == Some(n),
{
    lemma_decimal_digits(n as nat);
    let d = decimal(n as nat);
    assert(d[0] != '+') by {
        lemma_decimal_first_digit(n as nat);
    }
}

proof fn lemma_decimal_first_digit(n: nat)
    ensures
        decimal(n).len() > 0,
        '0' <= decimal(n)[0] <= '9',
    decreases n,
{
    if n >= 10 {
        lemma_decimal_first_digit(n / 10);
        assert(decimal(n)[0] == decimal(n / 10)[0]);
    } else {
        assert(digit_char(n) == ((n + 48) as u32) as char);
    }
}

proof fn lemma_decimal_digits(n: nat)
    ensures
        decimal(n).len() > 0,
        all_digits(decimal(n)),
        digits_value(decimal(n)) == n,
    decreases n,
{
    if n < 10 {
        let d = decimal(n);
        assert(d.drop_last() =~= Seq::<char>::empty());
        assert(d.last() == digit_char(n));
        assert((digit_char(n) as nat) == n + 48);
        assert(digits_value(d) == digits_value(d.drop_last()) * 10 + (d.last() as nat - 48) as nat);
        assert(digits_value(Seq::<char>::empty()) == 0);
    } else {
        lemma_decimal_digits(n / 10);
        let d = decimal(n);
        assert(d.drop_last() =~= decimal(n / 10));
        assert(d.last() == digit_char(n % 10));
        assert(digits_value(d) == digits_value(decimal(n / 10)) * 10 + (n % 10));
        assert(n == (n / 10) * 10 + n % 10);
        assert(digits_value(d) == (n / 10) * 10 + n % 10);
        assert forall|i: int| 0 <= i < d.len() implies '0' <= #[trigger] d[i] && d[i] <= '9' by {
            if i < d.len() - 1 {
                assert(d[i] == decimal(n / 10)[i]);
            }
        }
    }
}


/// The entry under `key` that is live at `now`: an expired entry reads as
/// absent.
pub open spec fn live(m: Map<Seq<char>, (Seq<char>, Option<i64>)>, key: Seq<char>, now: i64) -> Option<
    (Seq<char>, Option<i64>),
> {
    if m.dom().contains(key) && !expired(m[key], now) {
        Some(m[key])
    } else {
        None
    }
}

/// The store with the entry under `key` dropped where it expired by `now`.
pub open spec fn purged(m: Map<Seq<char>, (Seq<char>, Option<i64>)>, key: Seq<char>, now: i64) -> Map<
    Seq<char>,
    (Seq<char>, Option<i64>),
> {
    if m.dom().contains(key) && expired(m[key], now) {
        m.remove(key)
    } else {
        m
    }
}

/// The value a counter reaches: one more than the stored number (staying
/// at the largest number), or one where nothing readable is stored.
pub open spec fn next_count(stored: Option<(Seq<char>, Option<i64>)>) -> u64 {
    match stored {
        Some(e) => match parse_u64_spec(e.0) {
            Some(v) => if v == u64::MAX {
                u64::MAX
            } else {
                (v + 1) as u64
            },
            None => 1,
        },
        None => 1,
    }
}

/// The store and the count after one increment under `key` at `now`: the
/// count follows the live stored one, and keeps its expiry; a new count
/// expires as `ttl` says.
pub open spec fn counted(m: Map<Seq<char>, (Seq<char>, Option<i64>)>, key: Seq<char>, ttl: Option<u64>, now: i64) -> (
    Map<Seq<char>, (Seq<char>, Option<i64>)>,
    u64,
) {
    let p = purged(m, key, now);
    let stored = if p.dom().contains(key) {
        Some(p[key])
    } else {
        None
    };
    let fresh = expiry_spec(ttl, now)->Ok_0;
    let count = next_count(stored);
    (
        p.insert(
            key,
            (
                decimal(count as nat),
                match stored {
                    Some(e) => match e.1 {
                        Some(t) => Some(t),
                        None => fresh,
                    },
                    None => fresh,
                },
            ),
        ),
        count,
    )
}

/// The store and the last count after `k` increments under `key` at `now`.
pub open spec fn counted_times(
    m: Map<Seq<char>, (Seq<char>, Option<i64>)>,
    key: Seq<char>,
    ttl: Option<u64>,
    now: i64,
    k: nat,
) -> (Map<Seq<char>, (Seq<char>, Option<i64>)>, u64)
    decreases k,
{
    if k == 0 {
        (m, 0)
    } else {
        counted(counted_times(m, key, ttl, now, (k - 1) as nat).0, key, ttl, now)
    }
}

/// An in-memory secondary storage.
pub struct MemorySecondaryStorage {
    pub entries: Vec<Keyed<StorageEntry>>,
}

impl View for MemorySecondaryStorage {
    type V = Map<Seq<char>, (Seq<char>, Option<i64>)>;

    open spec fn view(&self) -> Map<Seq<char>, (Seq<char>, Option<i64>)> {
        as_map(self.entries.deep_view())
    }
}

impl MemorySecondaryStorage {
    /// The entries are kept in key order.
    pub open spec fn wf(&self) -> bool {
        sorted_keys(self.entries.deep_view())
    }

    /// An empty storage.
    pub fn new() -> (r: MemorySecondaryStorage)
        ensures
            r.wf(),
            r@ == Map::<Seq<char>, (Seq<char>, Option<i64>)>::empty(),
    {
        let r = MemorySecondaryStorage { entries: Vec::new() };
        assert(r@ =~= Map::<Seq<char>, (Seq<char>, Option<i64>)>::empty());
        r
    }

    /// Drops the entry under `key` where it has expired by `now`.
    fn purge(&mut self, key: &str, now: i64)
        requires
            old(self).wf(),
        ensures
            final(self).wf(),
            final(self)@ == purged(old(self)@, key@, now),
    {
        match find_key(&self.entries, key) {
            Some(i) => {
                let due = match self.entries[i].value.expires_at {
                    Some(t) => t <= now,
                    None => false,
                };
                proof {
                    lemma_lookup_as_map(self.entries.deep_view(), key@);
                }
                if due {
                    remove_key(&mut self.entries, key);
                }
            },
            None => {
                proof {
                    lemma_lookup_as_map(self.entries.deep_view(), key@);
                }
            },
        }
    }

    /// The value under `key` at time `now`; an expired entry is dropped and
    /// reads as absent.
    pub fn get(&mut self, key: &str, now: i64) -> (r: Option<String>)
        requires
            old(self).wf(),
        ensures
            final(self).wf(),
            r.deep_view() == match live(old(self)@, key@, now) {
                Some(e) => Some(e.0),
                None => None,
            },
            final(self)@ == purged(old(self)@, key@, now),
    {
        self.purge(key, now);
        match find_key(&self.entries, key) {
            Some(i) => {
                proof {
                    lemma_lookup_as_map(self.entries.deep_view(), key@);
                }
                Some(self.entries[i].value.value.exact_clone())
            },
            None => {
                proof {
                    lemma_lookup_as_map(self.entries.deep_view(), key@);
                }
                None
            },
        }
    }

    /// Removes the entry under `key` and returns its value where it is live
    /// at `now`.
    pub fn get_and_delete(&mut self, key: &str, now: i64) -> (r: Option<String>)
        requires
            old(self).wf(),
        ensures
            final(self).wf(),
            r.deep_view() == match live(old(self)@, key@, now) {
                Some(e) => Some(e.0),
                None => None,
            },
            final(self)@ == old(self)@.remove(key@),
    {
        proof {
            lemma_lookup_as_map(self.entries.deep_view(), key@);
        }
        let due = match find_key(&self.entries, key) {
            Some(i) => match self.entries[i].value.expires_at {
                Some(t) => t <= now,
                None => false,
            },
            None => false,
        };
        let removed = remove_key(&mut self.entries, key);
        if due {
            None
        } else {
            match removed {
                Some(e) => Some(e.value),
                None => None,
            }
        }
    }

    /// Stores `value` under `key`, expiring `ttl` seconds after `now` where
    /// a time to live is given.
    pub fn set(&mut self, key: &str, value: String, ttl: Option<u64>, now: i64) -> (r: Result<(), StorageError>)
        requires
            old(self).wf(),
            ttl_fits(ttl, now),
            EARLIEST_TIME_MS <= now <= LATEST_TIME_MS,
        ensures
            final(self).wf(),
            match expiry_spec(ttl, now) {
                Err(e) => r == Err::<(), StorageError>(e) && final(self)@ == old(self)@,
                Ok(x) => r is Ok && final(self)@ == old(self)@.insert(key@, (value@, x)),
            },
    {
        let expires_at = match expiry(ttl, now) {
            Ok(x) => x,
            Err(e) => return Err(e),
        };
        upsert(&mut self.entries, owned(key), StorageEntry { value, expires_at });
        Ok(())
    }

    /// Removes the entry under `key`.
    pub fn delete(&mut self, key: &str)
        requires
            old(self).wf(),
        ensures
            final(self).wf(),
            final(self)@ == old(self)@.remove(key@),
    {
        remove_key(&mut self.entries, key);
    }

    /// Counts one more under `key` at time `now` and returns the count; an
    /// expired count starts over, and a new count expires `ttl` seconds
    /// after `now` where a time to live is given.
    pub fn increment(&mut self, key: &str, ttl: Option<u64>, now: i64) -> (r: Result<u64, StorageError>)
        requires
            old(self).wf(),
            ttl_fits(ttl, now),
            EARLIEST_TIME_MS <= now <= LATEST_TIME_MS,
        ensures
            final(self).wf(),
            match expiry_spec(ttl, now) {
                Err(e) => r == Err::<u64, StorageError>(e) && final(self)@ == purged(old(self)@, key@, now),
                Ok(_) => r == Ok::<u64, StorageError>(counted(old(self)@, key@, ttl, now).1) && final(self)@
                    == counted(old(self)@, key@, ttl, now).0,
            },
    {
        self.purge(key, now);
        proof {
            lemma_lookup_as_map(self.entries.deep_view(), key@);
        }
        let (current, kept) = match find_key(&self.entries, key) {
            Some(i) => {
                let parsed = parse_u64(self.entries[i].value.value.as_str());
                let count = match parsed {
                    Some(v) => v.saturating_add(1),
                    None => 1,
                };
                (count, self.entries[i].value.expires_at)
            },
            None => (1, None),
        };
        let fresh = match expiry(ttl, now) {
            Ok(x) => x,
            Err(e) => return Err(e),
        };
        let expires_at = match kept {
            Some(t) => Some(t),
            None => fresh,
        };
        upsert(&mut self.entries, owned(key), StorageEntry { value: decimal_string(current), expires_at });
        Ok(current)
    }
}

/// A value stored without a time to live, or read before it expires, is
/// read back as stored.
pub proof fn law_read_your_write(
    m: Map<Seq<char>, (Seq<char>, Option<i64>)>,
    key: Seq<char>,
    value: Seq<char>,
    ttl: Option<u64>,
    set_at: i64,
    read_at: i64,
)
    requires
        expiry_spec(ttl, set_at) is Ok,
        match expiry_spec(ttl, set_at) {
            Ok(Some(t)) => read_at < t,
            _ => true,
        },
    ensures
        live(m.insert(key, (value, expiry_spec(ttl, set_at)->Ok_0)), key, read_at) matches Some(e) && e.0
            == value,
{
}

/// Counting twice before the count expires gives consecutive counts: the
/// stored count reads back as the number returned.
pub proof fn law_counter_reads_back(count: u64, expires_at: Option<i64>, now: i64)
    requires
        match expires_at {
            Some(t) => now < t,
            None => true,
        },
    ensures
        next_count(Some((decimal(count as nat), expires_at))) == if count == u64::MAX {
            u64::MAX
        } else {
            (count + 1) as u64
        },
{
    lemma_parse_decimal(count);
}

/// A deleted key reads as absent.
pub proof fn law_deleted_reads_absent(m: Map<Seq<char>, (Seq<char>, Option<i64>)>, key: Seq<char>, now: i64)
    ensures
        live(m.remove(key), key, now) is None,
{
}


/// Counting `k` times in a row under a key that holds no live count, with a
/// time to live that does not run out at once, gives the counts 1 to `k`:
/// the `k`-th increment returns `k`, and the store holds `k`, expiring when
/// the first count was set to.
pub proof fn law_sequential_counts(
    m: Map<Seq<char>, (Seq<char>, Option<i64>)>,
    key: Seq<char>,
    ttl: Option<u64>,
    now: i64,
    k: nat,
)
    requires
        live(m, key, now) is None,
        ttl_fits(ttl, now),
        expiry_spec(ttl, now) is Ok,
        ttl != Some(0u64),
        1 <= k < u64::MAX,
    ensures
        counted_times(m, key, ttl, now, k).1 == k,
        live(counted_times(m, key, ttl, now, k).0, key, now) == Some((decimal(k), expiry_spec(ttl, now)->Ok_0)),
    decreases k,
{
    let fresh = expiry_spec(ttl, now)->Ok_0;
    assert(fresh matches Some(t) ==> now < t);
    if k == 1 {
        assert(counted_times(m, key, ttl, now, 0).0 == m);
        assert(!purged(m, key, now).dom().contains(key));
    } else {
        law_sequential_counts(m, key, ttl, now, (k - 1) as nat);
        let prev = counted_times(m, key, ttl, now, (k - 1) as nat).0;
        assert(purged(prev, key, now) == prev);
        lemma_parse_decimal((k - 1) as u64);
    }
}


/// A value stored with a time to live is gone from the moment it expires
/// on: `get` and `get_and_delete` (which read through `live`) find nothing,
/// and counting under the key starts over at 1.
pub proof fn law_expired_reads_absent(
    m: Map<Seq<char>, (Seq<char>, Option<i64>)>,
    key: Seq<char>,
    value: Seq<char>,
    ttl: Option<u64>,
    set_at: i64,
    read_at: i64,
    count_ttl: Option<u64>,
)
    requires
        expiry_spec(ttl, set_at) matches Ok(Some(t)) && t <= read_at,
    ensures
        live(m.insert(key, (value, expiry_spec(ttl, set_at)->Ok_0)), key, read_at) is None,
        counted(m.insert(key, (value, expiry_spec(ttl, set_at)->Ok_0)), key, count_ttl, read_at).1 == 1,
{
    let stored = m.insert(key, (value, expiry_spec(ttl, set_at)->Ok_0));
    assert(!purged(stored, key, read_at).dom().contains(key));
}

/// The store and the last count after one increment under `key` at each
/// of the `times`, in turn.
pub open spec fn counted_at_times(
    m: Map<Seq<char>, (Seq<char>, Option<i64>)>,
    key: Seq<char>,
    ttl: Option<u64>,
    times: Seq<i64>,
) -> (Map<Seq<char>, (Seq<char>, Option<i64>)>, u64)
    decreases times.len(),
{
    if times.len() == 0 {
        (m, 0)
    } else {
        counted(counted_at_times(m, key, ttl, times.drop_last()).0, key, ttl, times.last())
    }
}

/// Increments under a key that holds no live count, one after another at
/// any times before the first count expires, give the counts 1 to `k` in
/// turn: none is lost, and the count keeps the expiry the first one set.
pub proof fn law_counts_over_time(
    m: Map<Seq<char>, (Seq<char>, Option<i64>)>,
    key: Seq<char>,
    ttl: Option<u64>,
    times: Seq<i64>,
)
    requires
        1 <= times.len() < u64::MAX,
        live(m, key, times[0]) is None,
        ttl != Some(0u64),
        forall|j: int| 0 <= j < times.len() ==> ttl_fits(ttl, #[trigger] times[j]) && expiry_spec(ttl, times[j]) is Ok,
        forall|j: int|
            0 <= j < times.len() ==> (expiry_spec(ttl, times[0])->Ok_0 matches Some(e) ==> #[trigger] times[j] < e),
    ensures
        counted_at_times(m, key, ttl, times).1 == times.len(),
        live(counted_at_times(m, key, ttl, times).0, key, times.last()) == Some(
            (decimal(times.len()), expiry_spec(ttl, times[0])->Ok_0),
        ),
    decreases times.len(),
{
    let first = expiry_spec(ttl, times[0])->Ok_0;
    assert(first matches Some(t) ==> times[0] < t);
    if times.len() == 1 {
        assert(times.drop_last().len() == 0);
        assert(counted_at_times(m, key, ttl, times.drop_last()).0 == m);
        assert(!purged(m, key, times[0]).dom().contains(key));
    } else {
        let prefix = times.drop_last();
        assert forall|j: int| 0 <= j < prefix.len() implies ttl_fits(ttl, #[trigger] prefix[j]) && expiry_spec(
            ttl,
            prefix[j],
        ) is Ok by {
            assert(prefix[j] == times[j]);
        }
        assert forall|j: int| 0 <= j < prefix.len() implies (expiry_spec(ttl, prefix[0])->Ok_0 matches Some(e)
            ==> #[trigger] prefix[j] < e) by {
            assert(prefix[j] == times[j]);
        }
        law_counts_over_time(m, key, ttl, prefix);
        let prev = counted_at_times(m, key, ttl, prefix).0;
        let now = times.last();
        assert(now == times[times.len() - 1]);
        assert(first matches Some(e) ==> now < e);
        assert(purged(prev, key, now) == prev);
        lemma_parse_decimal((times.len() - 1) as u64);
    }
}

} // verus!
