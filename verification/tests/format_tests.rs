use exporter_proxy::args::{receiver_enabled, Args, Format};
use exporter_proxy::json::{decode_json_metric, join_lines, json_metric_from_entries};
use exporter_proxy::metrics::GlobalMetrics;
use exporter_proxy::poll::poll_response_key;
use exporter_proxy::timestamp::{
    get_epoch_now_as_offset_dt, TimeError, Timestamp, MAX_UNIX_TIMESTAMP, MIN_UNIX_TIMESTAMP,
};

#[test]
fn timestamps_in_range_are_accepted() {
    assert_eq!(Timestamp::from_unix_timestamp(0).unwrap().unix_timestamp(), 0);
    assert_eq!(
        Timestamp::from_unix_timestamp(MIN_UNIX_TIMESTAMP).unwrap().unix_timestamp(),
        -377_705_116_800
    );
    assert_eq!(
        Timestamp::from_unix_timestamp(MAX_UNIX_TIMESTAMP).unwrap().unix_timestamp(),
        253_402_300_799
    );
}

#[test]
fn timestamps_out_of_range_are_rejected() {
    assert_eq!(
        Timestamp::from_unix_timestamp(MAX_UNIX_TIMESTAMP + 1).unwrap_err(),
        TimeError::OutOfRange
    );
    assert_eq!(
        Timestamp::from_unix_timestamp(MIN_UNIX_TIMESTAMP - 1).unwrap_err(),
        TimeError::OutOfRange
    );
}

#[test]
fn clock_readings_become_timestamps() {
    assert_eq!(
        get_epoch_now_as_offset_dt(Some(1_653_263_512)).unwrap().unix_timestamp(),
        1_653_263_512
    );
    assert_eq!(get_epoch_now_as_offset_dt(None).unwrap_err(), TimeError::BeforeUnixEpoch);
    assert_eq!(
        get_epoch_now_as_offset_dt(Some(u64::MAX)).unwrap_err(),
        TimeError::SecondsOverflow
    );
    assert_eq!(
        get_epoch_now_as_offset_dt(Some(300_000_000_000)).unwrap_err(),
        TimeError::OutOfRange
    );
}

#[test]
fn seconds_between_timestamps() {
    let a = Timestamp::from_unix_timestamp(1_000).unwrap();
    let b = Timestamp::from_unix_timestamp(1_060).unwrap();
    assert_eq!(b.whole_seconds_since(&a), 60);
    assert_eq!(a.whole_seconds_since(&b), -60);
}

#[test]
fn timestamp_text_is_the_time_display() {
    assert_eq!(
        Timestamp::from_unix_timestamp(0).unwrap().to_text(),
        "1970-01-01 0:00:00.0 +00:00:00"
    );
    assert_eq!(
        Timestamp::from_unix_timestamp(1_653_263_512).unwrap().to_text(),
        "2022-05-22 23:51:52.0 +00:00:00"
    );
}

#[test]
fn json_string_object_gives_its_entry() {
    assert_eq!(
        decode_json_metric(br#"{"app": "m{a=\"b\"} 1\n"}"#),
        Some(("app".to_string(), "m{a=\"b\"} 1\n".to_string()))
    );
}

#[test]
fn json_array_object_is_joined_by_newlines() {
    assert_eq!(
        decode_json_metric(br#"{"app": ["m 1", "n 2"]}"#),
        Some(("app".to_string(), "m 1\nn 2\n".to_string()))
    );
    assert_eq!(
        decode_json_metric(br#"{"app": []}"#),
        Some(("app".to_string(), "\n".to_string()))
    );
}

#[test]
fn json_without_metrics_carries_nothing() {
    assert_eq!(decode_json_metric(b"{}"), None);
    assert_eq!(decode_json_metric(b"not json"), None);
    assert_eq!(decode_json_metric(br#"{"app": 3}"#), None);
    assert_eq!(decode_json_metric(br#"["a"]"#), None);
}

#[test]
fn json_with_several_apps_gives_one_of_them() {
    let r = decode_json_metric(br#"{"a": "x\n", "b": "y\n"}"#).unwrap();
    assert!(r == ("a".to_string(), "x\n".to_string()) || r == ("b".to_string(), "y\n".to_string()));
}

#[test]
fn joining_lines() {
    assert_eq!(join_lines(&vec![]), "\n");
    assert_eq!(join_lines(&vec!["a".to_string()]), "a\n");
    assert_eq!(join_lines(&vec!["a".to_string(), "".to_string(), "c".to_string()]), "a\n\nc\n");
}

#[test]
fn poll_keys() {
    assert_eq!(
        poll_response_key(200, Some("127.0.0.1:1025")),
        Some("external_poll: 127.0.0.1:1025".to_string())
    );
    assert_eq!(poll_response_key(404, Some("127.0.0.1:1025")), None);
    assert_eq!(poll_response_key(200, None), None);
}

#[test]
fn args_defaults() {
    let a = Args::new("0.1.0", "someone", "/opt/proxy");
    assert_eq!(a.version, "0.1.0");
    assert_eq!(a.author, "someone");
    assert_eq!(a.default_config_file, "/opt/proxy/config.toml");
    assert!(a.about.starts_with("A lightweight asynchronous exporter proxy"));
    assert_ne!(Format::CapnP, Format::Json);
}

#[test]
fn app_names_table_lists_each_app() {
    let mut g = GlobalMetrics::new();
    let t = Timestamp::from_unix_timestamp(0).unwrap();
    g.push_capnp("app1", "m 1\n", "/run/s.sock", Ok(t));
    let text = g.get_app_names(t);
    let inner = prettytable::Table::from(&vec![
        vec!["App Name".to_string(), "Last Update Time (UTC)".to_string(), "Source".to_string()],
        vec![
            "app1".to_string(),
            "1970-01-01 0:00:00.0 +00:00:00".to_string(),
            "/run/s.sock".to_string(),
        ],
    ])
    .to_string();
    let expected = prettytable::Table::from(&vec![
        vec!["Current time: 1970-01-01 0:00:00.0 +00:00:00".to_string()],
        vec![inner],
    ])
    .to_string();
    assert_eq!(text, expected);
    assert!(text.contains("| app1 "));
}

#[test]
fn app_names_table_layout() {
    let g = GlobalMetrics::new();
    let t = Timestamp::from_unix_timestamp(0).unwrap();
    let inner = "+----------+------------------------+--------+\n\
                 | App Name | Last Update Time (UTC) | Source |\n\
                 +----------+------------------------+--------+\n";
    let mut expected = String::new();
    let width = 46;
    expected.push_str(&format!("+{}+\n", "-".repeat(width + 2)));
    expected.push_str(&format!("| {:<w$} |\n", "Current time: 1970-01-01 0:00:00.0 +00:00:00", w = width));
    expected.push_str(&format!("+{}+\n", "-".repeat(width + 2)));
    for line in inner.lines() {
        expected.push_str(&format!("| {:<w$} |\n", line, w = width));
    }
    expected.push_str(&format!("+{}+\n", "-".repeat(width + 2)));
    assert_eq!(g.get_app_names(t), expected);
}

#[test]
fn saturating_timestamps() {
    assert_eq!(Timestamp::saturating_from_unix_timestamp(42).unix_timestamp(), 42);
    assert_eq!(Timestamp::saturating_from_unix_timestamp(i64::MAX).unix_timestamp(), MAX_UNIX_TIMESTAMP);
    assert_eq!(Timestamp::saturating_from_unix_timestamp(i64::MIN).unix_timestamp(), MIN_UNIX_TIMESTAMP);
}

#[test]
fn app_names_show_each_apps_own_time_and_source() {
    let mut g = GlobalMetrics::new();
    let t_a = Timestamp::from_unix_timestamp(0).unwrap();
    let t_b = Timestamp::from_unix_timestamp(60).unwrap();
    g.push_capnp("a", "m 1\n", "src_a", Ok(t_a));
    g.push_capnp("b", "n 1\n", "src_b", Ok(t_b));
    let inner = prettytable::Table::from(&vec![
        vec!["App Name".to_string(), "Last Update Time (UTC)".to_string(), "Source".to_string()],
        vec!["a".to_string(), "1970-01-01 0:00:00.0 +00:00:00".to_string(), "src_a".to_string()],
        vec!["b".to_string(), "1970-01-01 0:01:00.0 +00:00:00".to_string(), "src_b".to_string()],
    ])
    .to_string();
    let expected = prettytable::Table::from(&vec![
        vec!["Current time: 1970-01-01 0:01:00.0 +00:00:00".to_string()],
        vec![inner],
    ])
    .to_string();
    assert_eq!(g.get_app_names(t_b), expected);
    assert_eq!(g.capnp_data.get_source(), "src_b");
}

#[test]
fn chosen_format_decides_the_receivers() {
    assert!(receiver_enabled(None, Format::CapnP));
    assert!(receiver_enabled(None, Format::Json));
    assert!(receiver_enabled(Some(Format::Json), Format::Json));
    assert!(!receiver_enabled(Some(Format::Json), Format::CapnP));
    assert!(!receiver_enabled(Some(Format::CapnP), Format::Json));
}

#[test]
fn metric_from_parsed_entries() {
    let s = |a: &str, b: &str| (a.to_string(), b.to_string());
    assert_eq!(
        json_metric_from_entries(Some(vec![s("a", "x\n"), s("b", "y\n")]), None),
        Some(s("a", "x\n"))
    );
    assert_eq!(json_metric_from_entries(Some(vec![]), Some(vec![("b".to_string(), vec![])])), None);
    assert_eq!(
        json_metric_from_entries(None, Some(vec![("b".to_string(), vec!["l1".to_string(), "l2".to_string()])])),
        Some(s("b", "l1\nl2\n"))
    );
    assert_eq!(json_metric_from_entries(None, Some(vec![])), None);
    assert_eq!(json_metric_from_entries(None, None), None);
}
