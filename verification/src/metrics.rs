//! All metrics that the proxy exposes: those polled from other exporters and
//! those received in Cap'n Proto or JSON.

use vstd::prelude::*;
use crate::json::{decode_json_metric, json_metric_spec};
use crate::stash::{ReceivedView, Stash, app_rows, metrics_text, push_stamp, source_text, still_fresh, upsert};
use crate::table::{render_table, rows_view, table_text};
use crate::text::MetricValue;
use crate::timestamp::{TimeError, Timestamp, utc_date_time_text};
use vstd::utf8::{decode_utf8, encode_utf8, encode_utf8_decode_utf8};

verus! {

/// `std::time::SystemTime`, held as it is.
#[verifier::external_type_specification]
#[verifier::external_body]
pub struct ExSystemTime(std::time::SystemTime);

/// Metrics with the time they were received and their source.
#[derive(Debug)]
pub struct MetricWithMeta(String, std::time::SystemTime, String);

/// The scavenger's period in seconds (`stale_check_interval` as a `u64`), or
/// `None` where it is negative and the scavenger does not run.
pub fn scavenge_interval(stale_check_interval: i64) -> (r: Option<u64>)
    ensures
        stale_check_interval >= 0 ==> r == Some(stale_check_interval as u64),
        stale_check_interval < 0 ==> r is None,
{
    if stale_check_interval >= 0 {
        Some(stale_check_interval as u64)
    } else {
        None
    }
}

/// The three stashes of the proxy.
#[derive(Debug)]
pub struct GlobalMetrics {
    pub polled_data: Stash<Vec<u8>>,
    pub capnp_data: Stash<String>,
    pub json_data: Stash<String>,
}

/// The header row of the application table.
pub open spec fn app_header() -> Seq<Seq<char>> {
    seq!["App Name"@, "Last Update Time (UTC)"@, "Source"@]
}

impl GlobalMetrics {
    /// The rows of the application table: the header, then the applications
    /// that sent Cap'n Proto, JSON, and those that were polled.
    pub open spec fn app_table_rows(&self) -> Seq<Seq<Seq<char>>> {
        seq![app_header()] + app_rows::<String>(self.capnp_data.entries()) + app_rows::<String>(
            self.json_data.entries(),
        ) + app_rows::<Vec<u8>>(self.polled_data.entries())
    }

    /// Three empty stashes.
    pub fn new() -> (r: Self)
        ensures
            r.polled_data.entries().len() == 0,
            r.capnp_data.entries().len() == 0,
            r.json_data.entries().len() == 0,
            r.polled_data.ts() is None,
            r.capnp_data.ts() is None,
            r.json_data.ts() is None,
            r.polled_data.source() == Seq::<u8>::empty(),
            r.capnp_data.source() == Seq::<char>::empty(),
            r.json_data.source() == Seq::<char>::empty(),
    {
        let r = GlobalMetrics {
            polled_data: Stash::new("polled_data", "data scraped from external polls"),
            capnp_data: Stash::new("capnp_data", "data received as capnp"),
            json_data: Stash::new("json_data", "data received as json"),
        };
        proof {
            lemma_encodes_to_nothing(r.capnp_data.source());
            lemma_encodes_to_nothing(r.json_data.source());
        }
        r
    }

    /// The scrape text: the polled metrics, then the Cap'n Proto ones, then
    /// the JSON ones.
    pub fn get_metrics(&self) -> (r: String)
        ensures
            r@ == metrics_text::<Vec<u8>>(self.polled_data.entries()) + metrics_text::<String>(
                self.capnp_data.entries(),
            ) + metrics_text::<String>(self.json_data.entries()),
    {
        let mut metrics = String::new();
        let polled = self.polled_data.get_metrics();
        metrics.append(polled.as_str());
        let capnp = self.capnp_data.get_metrics();
        metrics.append(capnp.as_str());
        let json = self.json_data.get_metrics();
        metrics.append(json.as_str());
        metrics
    }

    /// One round of the scavenger: with the current time, drops each stash's
    /// metrics that are at least `stale_metric_ttl` seconds old; without it,
    /// changes nothing.
    pub fn scavenge_step(&mut self, now: Result<Timestamp, TimeError>, stale_metric_ttl: i64)
        ensures
            (match now {
                Ok(now) => {
                    &&& final(self).polled_data.entries() == (if still_fresh(old(self).polled_data.ts(), now, stale_metric_ttl as int) {
                        old(self).polled_data.entries()
                    } else {
                        Seq::empty()
                    })
                    &&& final(self).capnp_data.entries() == (if still_fresh(old(self).capnp_data.ts(), now, stale_metric_ttl as int) {
                        old(self).capnp_data.entries()
                    } else {
                        Seq::empty()
                    })
                    &&& final(self).json_data.entries() == (if still_fresh(old(self).json_data.ts(), now, stale_metric_ttl as int) {
                        old(self).json_data.entries()
                    } else {
                        Seq::empty()
                    })
                },
                Err(_) => {
                    &&& final(self).polled_data.entries() == old(self).polled_data.entries()
                    &&& final(self).capnp_data.entries() == old(self).capnp_data.entries()
                    &&& final(self).json_data.entries() == old(self).json_data.entries()
                },
            }),
            final(self).polled_data.ts() == old(self).polled_data.ts(),
            final(self).capnp_data.ts() == old(self).capnp_data.ts(),
            final(self).json_data.ts() == old(self).json_data.ts(),
            final(self).polled_data.source() == old(self).polled_data.source(),
            final(self).capnp_data.source() == old(self).capnp_data.source(),
            final(self).json_data.source() == old(self).json_data.source(),
    {
        match now {
            Ok(now) => {
                self.polled_data.discard_expired(now, stale_metric_ttl);
                self.capnp_data.discard_expired(now, stale_metric_ttl);
                self.json_data.discard_expired(now, stale_metric_ttl);
            },
            Err(_) => {},
        }
    }

    /// Stores the metrics that an application sent in a Cap'n Proto message:
    /// `app_data` under `app_name`, from the receiver `source`, stamped with
    /// the current time `now` (dropped where it could not be read).
    pub fn push_capnp(&mut self, app_name: &str, app_data: &str, source: &str, now: Result<Timestamp, TimeError>)
        ensures
            (match push_stamp(None, now) {
                Some(t) => {
                    &&& final(self).capnp_data.entries() == upsert(old(self).capnp_data.entries(), app_name@, (ReceivedView { value: app_data@, time: t, source: source@ }))
                    &&& final(self).capnp_data.ts() == Some(t)
                    &&& final(self).capnp_data.source() == source@
                },
                None => final(self).capnp_data == old(self).capnp_data,
            }),
            final(self).polled_data == old(self).polled_data,
            final(self).json_data == old(self).json_data,
    {
        self.capnp_data.push(app_name, app_data.to_owned(), source.to_owned(), None, now);
    }

    /// Stores the metrics that a JSON payload `data` carries (see
    /// `json_metric_spec`), from the receiver `source`, stamped with the
    /// current time `now`; returns the application name and metrics text
    /// read, or `None` where the payload carries none.
    pub fn push_json(&mut self, data: &[u8], source: String, now: Result<Timestamp, TimeError>) -> (r: Option<(String, String)>)
        ensures
            final(self).polled_data == old(self).polled_data,
            final(self).capnp_data == old(self).capnp_data,
            (match r {
                Some((k, v)) => {
                    &&& json_metric_spec(data@, Some((k@, v@)))
                    &&& match push_stamp(None, now) {
                        Some(t) => {
                            &&& final(self).json_data.entries() == upsert(old(self).json_data.entries(), k@, (ReceivedView { value: v@, time: t, source: source@ }))
                            &&& final(self).json_data.ts() == Some(t)
                            &&& final(self).json_data.source() == source@
                        },
                        None => final(self).json_data == old(self).json_data,
                    }
                },
                None => {
                    &&& json_metric_spec(data@, None)
                    &&& final(self).json_data == old(self).json_data
                },
            }),
    {
        match decode_json_metric(data) {
            Some((k, v)) => {
                let stored = v.clone();
                self.json_data.push(k.as_str(), stored, source, None, now);
                Some((k, v))
            },
            None => None,
        }
    }

    /// Stores the body of a page polled from another exporter under `key`
    /// (see `poll_response_key`), with a newline added at its end, stamped
    /// with the current time `now`; the key's bytes are the source.
    pub fn push_polled(&mut self, key: &str, body: Vec<u8>, now: Result<Timestamp, TimeError>)
        ensures
            (match push_stamp(None, now) {
                Some(t) => {
                    &&& final(self).polled_data.entries() == upsert(old(self).polled_data.entries(), key@, (ReceivedView { value: body@.push(10u8), time: t, source: encode_utf8(key@) }))
                    &&& final(self).polled_data.ts() == Some(t)
                    &&& final(self).polled_data.source() == encode_utf8(key@)
                },
                None => final(self).polled_data == old(self).polled_data,
            }),
            final(self).capnp_data == old(self).capnp_data,
            final(self).json_data == old(self).json_data,
    {
        let mut body = body;
        body.push(10u8);
        let source = key.as_bytes_vec();
        self.polled_data.push(key, body, source, None, now);
    }

    /// A table of the applications that metrics are stored for, under a line
    /// with the current time `now`.
    pub fn get_app_names(&self, now: Timestamp) -> (r: String)
        ensures
            r@ == table_text(
                seq![
                    seq!["Current time: "@ + utc_date_time_text(now.secs())],
                    seq![table_text(self.app_table_rows())],
                ],
            ),
    {
        let mut header: Vec<String> = Vec::new();
        header.push("App Name".to_owned());
        header.push("Last Update Time (UTC)".to_owned());
        header.push("Source".to_owned());
        let mut rows: Vec<Vec<String>> = Vec::new();
        rows.push(header);
        proof {
            assert(rows@[0]@.map_values(|c: String| c@) =~= app_header());
            assert(rows_view(rows@) =~= seq![app_header()]);
        }
        self.capnp_data.append_app_rows(&mut rows);
        self.json_data.append_app_rows(&mut rows);
        self.polled_data.append_app_rows(&mut rows);
        let table = render_table(&rows);

        let mut current = "Current time: ".to_owned();
        let now_text = now.to_text();
        current.append(now_text.as_str());
        let mut first: Vec<String> = Vec::new();
        first.push(current);
        let mut second: Vec<String> = Vec::new();
        second.push(table);
        let mut outer: Vec<Vec<String>> = Vec::new();
        outer.push(first);
        outer.push(second);
        proof {
            assert(outer@[0]@.map_values(|c: String| c@) =~= seq!["Current time: "@ + utc_date_time_text(now.secs())]);
            assert(outer@[1]@.map_values(|c: String| c@) =~= seq![table_text(self.app_table_rows())]);
            assert(rows_view(outer@) =~= seq![
                seq!["Current time: "@ + utc_date_time_text(now.secs())],
                seq![table_text(self.app_table_rows())],
            ]);
        }
        render_table(&outer)
    }
}

/// Text that encodes to no bytes is empty.
proof fn lemma_encodes_to_nothing(s: Seq<char>)
    requires
        encode_utf8(s) == Seq::<u8>::empty(),
    ensures
        s == Seq::<char>::empty(),
{
    encode_utf8_decode_utf8(s);
    assert(decode_utf8(Seq::<u8>::empty()) =~= Seq::<char>::empty());
}

/// The `/apps` table lists every stored application: after the header, one
/// row per Cap'n Proto, JSON and polled application, each with its name, the
/// time its metrics were received and the source that received them.
pub proof fn lemma_app_table_lists_every_app(g: GlobalMetrics)
    ensures
        ({
            let rows = g.app_table_rows();
            let c = g.capnp_data.entries();
            let j = g.json_data.entries();
            let p = g.polled_data.entries();
            &&& rows.len() == 1 + c.len() + j.len() + p.len()
            &&& rows[0] == seq!["App Name"@, "Last Update Time (UTC)"@, "Source"@]
            &&& forall|i: int|
                #![trigger c[i]]
                0 <= i < c.len() ==> rows[1 + i] == seq![
                    c[i].0,
                    utc_date_time_text(c[i].1.time.secs()),
                    source_text::<String>(c[i].1.source),
                ]
            &&& forall|i: int|
                #![trigger j[i]]
                0 <= i < j.len() ==> rows[1 + c.len() + i] == seq![
                    j[i].0,
                    utc_date_time_text(j[i].1.time.secs()),
                    source_text::<String>(j[i].1.source),
                ]
            &&& forall|i: int|
                #![trigger p[i]]
                0 <= i < p.len() ==> rows[1 + c.len() + j.len() + i] == seq![
                    p[i].0,
                    utc_date_time_text(p[i].1.time.secs()),
                    source_text::<Vec<u8>>(p[i].1.source),
                ]
        }),
{
    let rows = g.app_table_rows();
    let c = g.capnp_data.entries();
    let j = g.json_data.entries();
    let p = g.polled_data.entries();
    assert forall|i: int| #![trigger c[i]] 0 <= i < c.len() implies rows[1 + i] == seq![
        c[i].0,
        utc_date_time_text(c[i].1.time.secs()),
        source_text::<String>(c[i].1.source),
    ] by {
        assert(rows[1 + i] == app_rows::<String>(c)[i]);
    }
    assert forall|i: int| #![trigger j[i]] 0 <= i < j.len() implies rows[1 + c.len() + i] == seq![
        j[i].0,
        utc_date_time_text(j[i].1.time.secs()),
        source_text::<String>(j[i].1.source),
    ] by {
        assert(rows[1 + c.len() + i] == app_rows::<String>(j)[i]);
    }
    assert forall|i: int| #![trigger p[i]] 0 <= i < p.len() implies rows[1 + c.len() + j.len() + i] == seq![
        p[i].0,
        utc_date_time_text(p[i].1.time.secs()),
        source_text::<Vec<u8>>(p[i].1.source),
    ] by {
        assert(rows[1 + c.len() + j.len() + i] == app_rows::<Vec<u8>>(p)[i]);
    }
}

} // verus!
