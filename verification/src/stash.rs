//! The metrics of each application, as last received, with the time and the
//! source of the last reception.

use vstd::prelude::*;
use crate::text::{MetricValue, lemma_string_reads_as_itself, str_from_utf8, utf8_text};
use crate::table::rows_view;
use crate::timestamp::{TimeError, Timestamp, utc_date_time_text};

verus! {

/// Whether no two entries share a key.
pub open spec fn keys_distinct<V>(e: Seq<(Seq<char>, V)>) -> bool {
    forall|i: int, j: int|
        0 <= i < e.len() && 0 <= j < e.len() && i != j ==> #[trigger] e[i].0 != #[trigger] e[j].0
}

/// Whether some entry has the key `k`.
pub open spec fn has_key<V>(e: Seq<(Seq<char>, V)>, k: Seq<char>) -> bool {
    exists|i: int| 0 <= i < e.len() && #[trigger] e[i].0 == k
}

/// The position of the entry with key `k` (meaningful where `has_key`).
pub open spec fn key_index<V>(e: Seq<(Seq<char>, V)>, k: Seq<char>) -> int {
    choose|i: int| 0 <= i < e.len() && #[trigger] e[i].0 == k
}

/// The value stored under `k`, if any.
pub open spec fn lookup<V>(e: Seq<(Seq<char>, V)>, k: Seq<char>) -> Option<V> {
    if has_key(e, k) {
        Some(e[key_index(e, k)].1)
    } else {
        None
    }
}

/// The entries after storing `v` under `k`: an entry with that key is
/// replaced in place, otherwise a new entry is added at the end.
pub open spec fn upsert<V>(e: Seq<(Seq<char>, V)>, k: Seq<char>, v: V) -> Seq<(Seq<char>, V)> {
    if has_key(e, k) {
        e.update(key_index(e, k), (k, v))
    } else {
        e.push((k, v))
    }
}

/// What a stash holds for one application: its metrics, when they were
/// received, and the source that received them.
pub struct ReceivedView<V> {
    pub value: V,
    pub time: Timestamp,
    pub source: V,
}

/// The text that a value contributes to a scrape: its UTF-8 text, or nothing
/// where it is not valid UTF-8.
pub open spec fn value_text<T: MetricValue>(v: T::V) -> Seq<char> {
    match utf8_text(T::encoded(v)) {
        Some(s) => s,
        None => Seq::<char>::empty(),
    }
}

/// The scrape text of the entries: the text of each value, in entry order.
pub open spec fn metrics_text<T: MetricValue>(e: Seq<(Seq<char>, ReceivedView<T::V>)>) -> Seq<char>
    decreases e.len(),
{
    if e.len() == 0 {
        Seq::<char>::empty()
    } else {
        metrics_text::<T>(e.drop_last()) + value_text::<T>(e.last().1.value)
    }
}

/// How a source reads: its UTF-8 text, or `cannot decode source`.
pub open spec fn source_text<T: MetricValue>(v: T::V) -> Seq<char> {
    match utf8_text(T::encoded(v)) {
        Some(s) => s,
        None => "cannot decode source"@,
    }
}

/// The time that a push stamps: the one it was given, else the current time
/// where that could be read.
pub open spec fn push_stamp(timestamp: Option<Timestamp>, now: Result<Timestamp, TimeError>) -> Option<Timestamp> {
    match timestamp {
        Some(t) => Some(t),
        None => match now {
            Ok(t) => Some(t),
            Err(_) => None,
        },
    }
}

/// Whether metrics stamped at `ts` are younger than `ttl` seconds at `now`.
pub open spec fn still_fresh(ts: Option<Timestamp>, now: Timestamp, ttl: int) -> bool {
    match ts {
        Some(t) => now.secs() - t.secs() < ttl,
        None => false,
    }
}

/// The rows of the application table for the entries: each application's
/// name, the time its metrics were received, and the source that received
/// them.
pub open spec fn app_rows<T: MetricValue>(e: Seq<(Seq<char>, ReceivedView<T::V>)>) -> Seq<Seq<Seq<char>>> {
    e.map_values(
        |p: (Seq<char>, ReceivedView<T::V>)|
            seq![p.0, utc_date_time_text(p.1.time.secs()), source_text::<T>(p.1.source)],
    )
}

/// The metrics of each entry, by application name.
pub open spec fn entry_values<V>(e: Seq<(Seq<char>, ReceivedView<V>)>) -> Seq<(Seq<char>, V)> {
    e.map_values(|p: (Seq<char>, ReceivedView<V>)| (p.0, p.1.value))
}

/// The view of a stored entry.
pub open spec fn entry_view<T: MetricValue>(e: (String, T, Timestamp, T)) -> (Seq<char>, ReceivedView<T::V>) {
    (e.0@, ReceivedView { value: e.1@, time: e.2, source: e.3@ })
}

/// The view of stored entries.
pub open spec fn entries_view<T: MetricValue>(v: Seq<(String, T, Timestamp, T)>) -> Seq<(Seq<char>, ReceivedView<T::V>)> {
    v.map_values(|e: (String, T, Timestamp, T)| entry_view::<T>(e))
}

/// Stored metrics keyed by application name, each with the time and source
/// of its reception, plus the time of the last push (which decides when the
/// stash expires) and the source of the last push.
///
/// The entries are kept in the order the applications first sent metrics,
/// with each application name at most once.
#[derive(Debug)]
pub struct Stash<T: MetricValue> {
    entries: Vec<(String, T, Timestamp, T)>,
    offset_ts: Option<Timestamp>,
    source: T,
}

impl<T: MetricValue> Stash<T> {
    /// The entries, by application name, in the order they were first pushed.
    pub closed spec fn entries(&self) -> Seq<(Seq<char>, ReceivedView<T::V>)> {
        entries_view::<T>(self.entries@)
    }

    /// The time of the last push.
    pub closed spec fn ts(&self) -> Option<Timestamp> {
        self.offset_ts
    }

    /// The source of the last push.
    pub closed spec fn source(&self) -> T::V {
        self.source@
    }

    /// Each application has one entry, and entries exist only once
    /// something was pushed (so a time is known).
    #[verifier::type_invariant]
    spec fn inv(self) -> bool {
        &&& keys_distinct(self.entries())
        &&& self.entries().len() > 0 ==> self.ts() is Some
    }

    /// An empty stash. `name` and `help` describe it and are not stored.
    pub fn new(name: &str, help: &str) -> (r: Self)
        ensures
            r.entries() == Seq::<(Seq<char>, ReceivedView<T::V>)>::empty(),
            r.ts() is None,
            T::encoded(r.source()) == Seq::<u8>::empty(),
    {
        let entries: Vec<(String, T, Timestamp, T)> = Vec::new();
        assert(entries_view::<T>(entries@) =~= Seq::<(Seq<char>, ReceivedView<T::V>)>::empty());
        Stash { entries, offset_ts: None, source: T::empty() }
    }

    /// A copy of the metrics of each application.
    pub fn get_inner_vals(&self) -> (r: Vec<(String, T)>)
        ensures
            r@.map_values(|e: (String, T)| (e.0@, e.1@)) == entry_values(self.entries()),
    {
        let mut r: Vec<(String, T)> = Vec::new();
        let n = self.entries.len();
        let ghost vals = entry_values(self.entries());
        for i in 0..n
            invariant
                n == self.entries@.len(),
                vals == entry_values(self.entries()),
                r@.map_values(|e: (String, T)| (e.0@, e.1@)) =~= vals.take(i as int),
        {
            let k = self.entries[i].0.clone();
            let v = self.entries[i].1.duplicate();
            r.push((k, v));
            assert(vals.take(i as int + 1) =~= vals.take(i as int).push(vals[i as int]));
        }
        assert(vals.take(n as int) =~= vals);
        r
    }

    /// Appends a row per application to `rows`: its name, the time its
    /// metrics were received and the source that received them.
    pub fn append_app_rows(&self, rows: &mut Vec<Vec<String>>)
        ensures
            rows_view(final(rows)@) == rows_view(old(rows)@) + app_rows::<T>(self.entries()),
    {
        let n = self.entries.len();
        let ghost start = rows_view(rows@);
        let ghost model = app_rows::<T>(self.entries());
        for i in 0..n
            invariant
                n == self.entries@.len(),
                model == app_rows::<T>(self.entries()),
                rows_view(rows@) =~= start + model.take(i as int),
        {
            let mut row: Vec<String> = Vec::new();
            row.push(self.entries[i].0.clone());
            row.push(self.entries[i].2.to_text());
            row.push(text_or_undecodable(&self.entries[i].3));
            proof {
                assert(row@.map_values(|c: String| c@) =~= model[i as int]);
            }
            let ghost before = rows@;
            rows.push(row);
            proof {
                assert(rows_view(rows@) =~= rows_view(before).push(model[i as int]));
                assert(model.take(i as int + 1) =~= model.take(i as int).push(model[i as int]));
            }
        }
        proof {
            assert(model.take(n as int) =~= model);
        }
    }

    /// The time of the last push.
    pub fn get_ts(&self) -> (r: Option<Timestamp>)
        ensures
            r == self.ts(),
    {
        self.offset_ts
    }

    /// The source of the last push, as text.
    pub fn get_source(&self) -> (r: String)
        ensures
            r@ == source_text::<T>(self.source()),
    {
        text_or_undecodable(&self.source)
    }

    /// The text of all stored values, in entry order; a value that is not
    /// valid UTF-8 is left out.
    pub fn get_metrics(&self) -> (r: String)
        ensures
            r@ == metrics_text::<T>(self.entries()),
    {
        let mut metrics = String::new();
        let n = self.entries.len();
        for i in 0..n
            invariant
                n == self.entries@.len(),
                metrics@ == metrics_text::<T>(self.entries().take(i as int)),
        {
            let ghost e = self.entries();
            assert(e.take(i as int + 1).drop_last() =~= e.take(i as int));
            match str_from_utf8(self.entries[i].1.bytes()) {
                Some(s) => {
                    metrics.append(s);
                },
                None => {},
            }
            assert(metrics@ =~= metrics_text::<T>(e.take(i as int + 1)));
        }
        assert(self.entries().take(n as int) =~= self.entries());
        metrics
    }

    /// The value stored for the application `key`.
    pub fn get(&self, key: &str) -> (r: Option<T>)
        ensures
            lookup(self.entries(), key@) is Some <==> r is Some,
            r matches Some(v) ==> lookup(self.entries(), key@)->0.value == v@,
    {
        proof { use_type_invariant(self); }
        let wanted = key.to_owned();
        let n = self.entries.len();
        for i in 0..n
            invariant
                n == self.entries@.len(),
                keys_distinct(self.entries()),
                wanted@ == key@,
                forall|j: int| 0 <= j < i ==> self.entries()[j].0 != key@,
        {
            if self.entries[i].0 == wanted {
                let v = self.entries[i].1.duplicate();
                proof {
                    let e = self.entries();
                    assert(e[i as int].0 == key@);
                    assert(has_key(e, key@));
                    let c = key_index(e, key@);
                    assert(c == i);
                    assert(e[i as int].1.value == v@);
                }
                return Some(v);
            }
            assert(self.entries()[i as int].0 != key@);
        }
        proof {
            let e = self.entries();
            if has_key(e, key@) {
                let c = key_index(e, key@);
                assert(e[c].0 == key@);
            }
        }
        None
    }

    /// Drops every entry unless the last push is younger than
    /// `stale_metric_ttl` seconds at `now`; with no push yet, drops them all.
    pub fn discard_expired(&mut self, now: Timestamp, stale_metric_ttl: i64)
        ensures
            keys_distinct(final(self).entries()),
            final(self).entries() == (if still_fresh(old(self).ts(), now, stale_metric_ttl as int) {
                old(self).entries()
            } else {
                Seq::<(Seq<char>, ReceivedView<T::V>)>::empty()
            }),
            final(self).ts() == old(self).ts(),
            final(self).source() == old(self).source(),
    {
        let fresh = match self.offset_ts {
            Some(ts) => now.whole_seconds_since(&ts) < stale_metric_ttl,
            None => false,
        };
        proof { use_type_invariant(&*self); }
        if !fresh {
            let empty: Vec<(String, T, Timestamp, T)> = Vec::new();
            assert(entries_view::<T>(empty@) =~= Seq::<(Seq<char>, ReceivedView<T::V>)>::empty());
            self.entries = empty;
        }
    }

    /// Stores `val` as the metrics of the application `key`, with the time of
    /// this push and `source`, replacing what it sent before; the time and
    /// source of the last push are updated too. The time
    /// is `timestamp`, or else the current time `now`; where neither is known
    /// the push is dropped.
    pub fn push(&mut self, key: &str, val: T, source: T, timestamp: Option<Timestamp>, now: Result<Timestamp, TimeError>)
        ensures
            keys_distinct(final(self).entries()),
            (match push_stamp(timestamp, now) {
                Some(t) => {
                    &&& final(self).entries() == upsert(old(self).entries(), key@, (ReceivedView { value: val@, time: t, source: source@ }))
                    &&& final(self).ts() == Some(t)
                    &&& final(self).source() == source@
                },
                None => *final(self) == *old(self),
            }),
    {
        proof { use_type_invariant(&*self); }
        let ts = match timestamp {
            Some(ts) => ts,
            None => match now {
                Ok(now) => now,
                Err(_) => {
                    return;
                },
            },
        };
        let entry_source = source.duplicate();
        let mut entries: Vec<(String, T, Timestamp, T)> = Vec::new();
        std::mem::swap(&mut entries, &mut self.entries);
        upsert_entry::<T>(&mut entries, key.to_owned(), val, ts, entry_source);
        self.offset_ts = Some(ts);
        self.entries = entries;
        self.source = source;
    }

}

/// Stores an entry under `key`: in place of the entry with that key, or at
/// the end.
fn upsert_entry<T: MetricValue>(entries: &mut Vec<(String, T, Timestamp, T)>, key: String, val: T, time: Timestamp, source: T)
    requires
        keys_distinct(entries_view::<T>(old(entries)@)),
    ensures
        entries_view::<T>(final(entries)@) == upsert(entries_view::<T>(old(entries)@), key@, (ReceivedView { value: val@, time, source: source@ })),
        keys_distinct(entries_view::<T>(final(entries)@)),
{
    let ghost e0 = entries_view::<T>(entries@);
    let n = entries.len();
    for i in 0..n
        invariant
            n == entries@.len(),
            entries_view::<T>(entries@) == e0,
            keys_distinct(e0),
            e0 == entries_view::<T>(old(entries)@),
            forall|j: int| 0 <= j < i ==> e0[j].0 != key@,
    {
        if entries[i].0 == key {
            proof {
                assert(e0[i as int].0 == key@);
                assert(has_key(e0, key@));
                let c = key_index(e0, key@);
                assert(c == i);
            }
            let ghost rv = ReceivedView { value: val@, time, source: source@ };
            entries.set(i, (key, val, time, source));
            proof {
                assert(entries_view::<T>(entries@) =~= e0.update(i as int, (key@, rv)));
                lemma_upsert_keys_distinct(e0, key@, rv);
            }
            return;
        }
        assert(e0[i as int].0 != key@);
    }
    proof {
        if has_key(e0, key@) {
            let c = key_index(e0, key@);
            assert(e0[c].0 == key@);
        }
    }
    let ghost rv = ReceivedView { value: val@, time, source: source@ };
    entries.push((key, val, time, source));
    proof {
        assert(entries_view::<T>(entries@) =~= e0.push((key@, rv)));
        lemma_upsert_keys_distinct(e0, key@, rv);
    }
}

/// A value's bytes as text, or `cannot decode source`.
fn text_or_undecodable<T: MetricValue>(v: &T) -> (r: String)
    ensures
        r@ == source_text::<T>(v@),
{
    match str_from_utf8(v.bytes()) {
        Some(s) => s.to_owned(),
        None => "cannot decode source".to_owned(),
    }
}

/// Storing under a key keeps the keys distinct.
pub proof fn lemma_upsert_keys_distinct<V>(e: Seq<(Seq<char>, V)>, k: Seq<char>, v: V)
    requires
        keys_distinct(e),
    ensures
        keys_distinct(upsert(e, k, v)),
{
    let u = upsert(e, k, v);
    if has_key(e, k) {
        let c = key_index(e, k);
        assert forall|i: int, j: int|
            0 <= i < u.len() && 0 <= j < u.len() && i != j implies #[trigger] u[i].0 != #[trigger] u[j].0 by {
            if i == c {
                assert(u[j].0 == e[j].0);
                assert(e[c].0 != e[j].0);
            } else if j == c {
                assert(u[i].0 == e[i].0);
                assert(e[c].0 != e[i].0);
            } else {
                assert(u[i].0 == e[i].0);
                assert(u[j].0 == e[j].0);
            }
        }
    } else {
        assert forall|i: int, j: int|
            0 <= i < u.len() && 0 <= j < u.len() && i != j implies #[trigger] u[i].0 != #[trigger] u[j].0 by {
            if i == e.len() {
                assert(u[j] == e[j]);
                assert(!(0 <= j < e.len() && e[j].0 == k));
            } else if j == e.len() {
                assert(u[i] == e[i]);
                assert(!(0 <= i < e.len() && e[i].0 == k));
            } else {
                assert(u[i] == e[i]);
                assert(u[j] == e[j]);
            }
        }
    }
}

/// With distinct keys, `lookup` finds each entry under its own key.
pub proof fn lemma_lookup_at<V>(e: Seq<(Seq<char>, V)>, i: int)
    requires
        keys_distinct(e),
        0 <= i < e.len(),
    ensures
        lookup(e, e[i].0) == Some(e[i].1),
{
    assert(has_key(e, e[i].0));
    let c = key_index(e, e[i].0);
    assert(e[c].0 == e[i].0);
}

/// What a push stores is what a later read finds: after storing `v` under
/// `k`, `k` holds `v` and every other key holds what it held before.
pub proof fn lemma_push_then_get<V>(e: Seq<(Seq<char>, V)>, k: Seq<char>, v: V, other: Seq<char>)
    requires
        keys_distinct(e),
    ensures
        lookup(upsert(e, k, v), k) == Some(v),
        other != k ==> lookup(upsert(e, k, v), other) == lookup(e, other),
        keys_distinct(upsert(e, k, v)),
{
    let u = upsert(e, k, v);
    lemma_upsert_keys_distinct(e, k, v);
    let i = if has_key(e, k) { key_index(e, k) } else { e.len() as int };
    assert(u[i].0 == k && u[i].1 == v);
    lemma_lookup_at(u, i);
    if other != k {
        if has_key(e, other) {
            let j = key_index(e, other);
            assert(e[j].0 == other);
            assert(u[j] == e[j]);
            lemma_lookup_at(u, j);
            lemma_lookup_at(e, j);
        } else {
            if has_key(u, other) {
                let j = key_index(u, other);
                assert(u[j].0 == other);
                assert(j != i);
                assert(e[j].0 == other);
            }
        }
    }
}

/// A new push of an application's metrics replaces the previous one
/// entirely: storing `v1` and then `v2` under `k` is the same as storing
/// `v2` alone.
pub proof fn lemma_push_overwrites<V>(e: Seq<(Seq<char>, V)>, k: Seq<char>, v1: V, v2: V)
    requires
        keys_distinct(e),
    ensures
        upsert(upsert(e, k, v1), k, v2) == upsert(e, k, v2),
{
    let u = upsert(e, k, v1);
    lemma_upsert_keys_distinct(e, k, v1);
    let i = if has_key(e, k) { key_index(e, k) } else { e.len() as int };
    assert(u[i].0 == k);
    assert(has_key(u, k));
    let c = key_index(u, k);
    assert(u[c].0 == k);
    assert(c == i);
    assert(upsert(u, k, v2) =~= upsert(e, k, v2));
}

/// The text of string values, one after the other.
pub open spec fn concat_values(e: Seq<(Seq<char>, ReceivedView<Seq<char>>)>) -> Seq<char>
    decreases e.len(),
{
    if e.len() == 0 {
        Seq::<char>::empty()
    } else {
        concat_values(e.drop_last()) + e.last().1.value
    }
}

/// Metrics received as text are all exposed: the scrape text of a stash of
/// strings is every stored value, in entry order.
pub proof fn lemma_string_metrics_exposed(e: Seq<(Seq<char>, ReceivedView<Seq<char>>)>)
    ensures
        metrics_text::<String>(e) == concat_values(e),
    decreases e.len(),
{
    if e.len() > 0 {
        lemma_string_metrics_exposed(e.drop_last());
        lemma_string_reads_as_itself(e.last().1.value);
    }
}

/// The source of a stash of strings reads as itself.
pub proof fn lemma_string_source_reads_as_itself(s: Seq<char>)
    ensures
        source_text::<String>(s) == s,
{
    lemma_string_reads_as_itself(s);
}

/// Metrics from two different applications are both kept, even where their
/// texts are the same: after storing `v1` under `k1` and then `v2` under
/// `k2`, each key holds its own value.
pub proof fn lemma_two_apps_both_kept<V>(e: Seq<(Seq<char>, V)>, k1: Seq<char>, v1: V, k2: Seq<char>, v2: V)
    requires
        keys_distinct(e),
        k1 != k2,
    ensures
        lookup(upsert(upsert(e, k1, v1), k2, v2), k1) == Some(v1),
        lookup(upsert(upsert(e, k1, v1), k2, v2), k2) == Some(v2),
{
    lemma_push_then_get(e, k1, v1, k2);
    lemma_push_then_get(upsert(e, k1, v1), k2, v2, k1);
}

/// Metrics stay until they are `ttl` seconds old: a discard at any time less
/// than `ttl` seconds after the last push keeps them.
pub proof fn lemma_fresh_until_ttl(pushed: Timestamp, now: Timestamp, ttl: int)
    requires
        now.secs() - pushed.secs() < ttl,
    ensures
        still_fresh(Some(pushed), now, ttl),
{
}

/// The application table shows each application with its own reception:
/// after `k1` is pushed with reception `r1` and another application `k2` with
/// `r2`, the row of `k1` still shows the time and source of `r1`.
pub proof fn lemma_app_row_shows_own_reception<T: MetricValue>(
    e: Seq<(Seq<char>, ReceivedView<T::V>)>,
    k1: Seq<char>,
    r1: ReceivedView<T::V>,
    k2: Seq<char>,
    r2: ReceivedView<T::V>,
)
    requires
        keys_distinct(e),
        k1 != k2,
    ensures
        ({
            let u = upsert(upsert(e, k1, r1), k2, r2);
            let i = key_index(u, k1);
            &&& 0 <= i < u.len()
            &&& app_rows::<T>(u)[i] == seq![k1, utc_date_time_text(r1.time.secs()), source_text::<T>(r1.source)]
        }),
{
    lemma_two_apps_both_kept(e, k1, r1, k2, r2);
    let u = upsert(upsert(e, k1, r1), k2, r2);
    assert(has_key(u, k1));
    let i = key_index(u, k1);
    assert(u[i].0 == k1);
}

/// A stash is fresh exactly while its last push is younger than the ttl:
/// metrics at least `ttl` seconds old are dropped, younger ones kept, and a
/// stash with no push is never fresh.
pub proof fn lemma_fresh_iff_younger_than_ttl(ts: Option<Timestamp>, now: Timestamp, ttl: int)
    ensures
        ts is None ==> !still_fresh(ts, now, ttl),
        ts matches Some(t) ==> (still_fresh(ts, now, ttl) <==> now.secs() - t.secs() < ttl),
        ts matches Some(t) && now.secs() - t.secs() >= ttl ==> !still_fresh(ts, now, ttl),
{
}

/// A push is stamped with the time it was given, else with the current
/// time, and is dropped only where neither is known.
pub proof fn lemma_push_stamp_prefers_given_time(given: Timestamp, now: Result<Timestamp, TimeError>, clock: Timestamp, e: TimeError)
    ensures
        push_stamp(Some(given), now) == Some(given),
        push_stamp(None, Ok::<Timestamp, TimeError>(clock)) == Some(clock),
        push_stamp(None, Err::<Timestamp, TimeError>(e)) is None,
{
}

} // verus!
