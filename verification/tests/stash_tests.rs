use exporter_proxy::metrics::{scavenge_interval, GlobalMetrics};
use exporter_proxy::stash::Stash;
use exporter_proxy::timestamp::{TimeError, Timestamp};

fn at(secs: i64) -> Timestamp {
    Timestamp::from_unix_timestamp(secs).unwrap()
}

#[test]
fn push_then_get_returns_the_pushed_value() {
    let mut s: Stash<String> = Stash::new("capnp_data", "data received as capnp");
    s.push("app1", "m 1\n".to_string(), "/tmp/sock".to_string(), None, Ok(at(100)));
    assert_eq!(s.get("app1"), Some("m 1\n".to_string()));
    assert_eq!(s.get("app2"), None);
    assert_eq!(s.get_ts().unwrap().unix_timestamp(), 100);
    assert_eq!(s.get_source(), "/tmp/sock");
}

#[test]
fn a_new_push_overwrites_the_old_metrics() {
    let mut s: Stash<String> = Stash::new("json_data", "data received as json");
    s.push("app", "a 1\nb 3\n".to_string(), "src".to_string(), None, Ok(at(1)));
    s.push("other", "c 1\n".to_string(), "src".to_string(), None, Ok(at(2)));
    s.push("app", "a 2\n".to_string(), "src2".to_string(), None, Ok(at(3)));
    assert_eq!(s.get("app"), Some("a 2\n".to_string()));
    assert_eq!(s.get("other"), Some("c 1\n".to_string()));
    assert_eq!(s.get_inner_vals().len(), 2);
    assert_eq!(s.get_metrics(), "a 2\nc 1\n");
    assert_eq!(s.get_source(), "src2");
    assert_eq!(s.get_ts().unwrap().unix_timestamp(), 3);
}

#[test]
fn push_uses_the_given_timestamp_before_the_clock() {
    let mut s: Stash<String> = Stash::new("n", "h");
    s.push("app", "x\n".to_string(), "src".to_string(), Some(at(7)), Ok(at(100)));
    assert_eq!(s.get_ts().unwrap().unix_timestamp(), 7);
}

#[test]
fn push_without_a_time_is_dropped() {
    let mut s: Stash<String> = Stash::new("n", "h");
    s.push("app", "x\n".to_string(), "src".to_string(), None, Err(TimeError::BeforeUnixEpoch));
    assert_eq!(s.get("app"), None);
    assert!(s.get_ts().is_none());
    assert_eq!(s.get_metrics(), "");
}

#[test]
fn fresh_metrics_survive_discard() {
    let mut s: Stash<String> = Stash::new("n", "h");
    s.push("app", "x\n".to_string(), "src".to_string(), None, Ok(at(1000)));
    s.discard_expired(at(1059), 60);
    assert_eq!(s.get("app"), Some("x\n".to_string()));
}

#[test]
fn stale_metrics_are_discarded() {
    let mut s: Stash<String> = Stash::new("n", "h");
    s.push("app", "x\n".to_string(), "src".to_string(), None, Ok(at(1000)));
    s.push("app2", "y\n".to_string(), "src".to_string(), None, Ok(at(1000)));
    s.discard_expired(at(1060), 60);
    assert_eq!(s.get("app"), None);
    assert_eq!(s.get("app2"), None);
    assert_eq!(s.get_metrics(), "");
    assert_eq!(s.get_ts().unwrap().unix_timestamp(), 1000);
}

#[test]
fn discard_without_any_push_keeps_the_stash_empty() {
    let mut s: Stash<Vec<u8>> = Stash::new("n", "h");
    s.discard_expired(at(0), 1_000_000);
    assert!(s.get_inner_vals().is_empty());
}

#[test]
fn metrics_that_are_not_utf8_are_left_out() {
    let mut s: Stash<Vec<u8>> = Stash::new("polled_data", "data scraped from external polls");
    s.push("a", vec![0xff, 0xfe], b"src".to_vec(), None, Ok(at(5)));
    s.push("b", b"ok 1\n".to_vec(), vec![0xc3], None, Ok(at(5)));
    assert_eq!(s.get_metrics(), "ok 1\n");
    assert_eq!(s.get("a"), Some(vec![0xff, 0xfe]));
    assert_eq!(s.get_source(), "cannot decode source");
}

#[test]
fn new_stash_source_is_empty() {
    let s: Stash<String> = Stash::new("n", "h");
    assert_eq!(s.get_source(), "");
    assert!(s.get_ts().is_none());
}

#[test]
fn global_metrics_are_polled_then_capnp_then_json() {
    let mut g = GlobalMetrics::new();
    g.push_capnp("capp", "c 1\n", "/run/sock", Ok(at(10)));
    let pushed = g.push_json(br#"{"japp": "j 1\n"}"#, "127.0.0.1:6554".to_string(), Ok(at(10)));
    assert_eq!(pushed, Some(("japp".to_string(), "j 1\n".to_string())));
    g.push_polled("external_poll: 127.0.0.1:1025", b"p 1".to_vec(), Ok(at(10)));
    assert_eq!(g.get_metrics(), "p 1\nc 1\nj 1\n");
    assert_eq!(g.polled_data.get_source(), "external_poll: 127.0.0.1:1025");
    assert_eq!(
        g.polled_data.get("external_poll: 127.0.0.1:1025"),
        Some(b"p 1\n".to_vec())
    );
}

#[test]
fn scavenge_step_drops_only_stale_stashes() {
    let mut g = GlobalMetrics::new();
    g.push_capnp("old", "o 1\n", "s", Ok(at(0)));
    g.push_capnp("old2", "o 2\n", "s", Ok(at(0)));
    let _ = g.push_json(br#"{"new": "n 1\n"}"#, "s".to_string(), Ok(at(100)));
    g.scavenge_step(Ok(at(100)), 50);
    assert_eq!(g.capnp_data.get("old"), None);
    assert_eq!(g.json_data.get("new"), Some("n 1\n".to_string()));
    assert_eq!(g.get_metrics(), "n 1\n");
}

#[test]
fn scavenge_step_without_a_time_changes_nothing() {
    let mut g = GlobalMetrics::new();
    g.push_capnp("old", "o 1\n", "s", Ok(at(0)));
    g.scavenge_step(Err(TimeError::OutOfRange), 1);
    assert_eq!(g.get_metrics(), "o 1\n");
}

#[test]
fn scavenge_interval_rejects_negative_periods() {
    assert_eq!(scavenge_interval(30), Some(30));
    assert_eq!(scavenge_interval(0), Some(0));
    assert_eq!(scavenge_interval(-1), None);
}

#[test]
fn utf8_bodies_are_decoded() {
    let mut s: Stash<Vec<u8>> = Stash::new("n", "h");
    s.push("a", "héllo ✓\n".as_bytes().to_vec(), "sôurce".as_bytes().to_vec(), None, Ok(at(5)));
    assert_eq!(s.get_metrics(), "héllo ✓\n");
    assert_eq!(s.get_source(), "sôurce");
}

#[test]
fn two_apps_with_the_same_metric_are_both_exposed() {
    let mut s: Stash<String> = Stash::new("n", "h");
    s.push("app1", "http_requests_total 1\n".to_string(), "src".to_string(), None, Ok(at(5)));
    s.push("app2", "http_requests_total 1\n".to_string(), "src".to_string(), None, Ok(at(6)));
    assert_eq!(s.get_metrics(), "http_requests_total 1\nhttp_requests_total 1\n");
    assert_eq!(s.get("app1"), Some("http_requests_total 1\n".to_string()));
    assert_eq!(s.get("app2"), Some("http_requests_total 1\n".to_string()));
}
