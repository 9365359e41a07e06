use server_status_rs::config::{config_candidates, first_existing, Config, DEFAULT_PORT};
use server_status_rs::publisher::{
    cycle_steps, disk_key, failure_line, topic, Outcome, Publisher, Step, PUBLISH_QOS,
    SAMPLE_WINDOW_SECS,
};
use server_status_rs::sample::{
    format_last_boot, format_memory_use, BYTES_PER_MIB, LAST_SECOND_OF_9999,
};
use server_status_rs::text::{decimal_string, format_ratio};

fn config() -> Config {
    Config {
        username: "user".to_string(),
        password: "SECRET-REDACTED".to_string(),
        broker: "broker.local".to_string(),
        port: None,
        disk_use_percent: None,
        disk_paths: None,
        processor_use: None,
        processor_temperature: None,
        memory_use: None,
        last_boot: None,
        hostname: None,
    }
}

fn keys(steps: &[Step]) -> Vec<Option<String>> {
    steps.iter().map(|s| s.key()).collect()
}

#[test]
fn processor_use_rounds_to_one_decimal() {
    assert_eq!(format_ratio(4237, 100), "42.4");
}

#[test]
fn disk_use_keeps_trailing_zero() {
    assert_eq!(format_ratio(870, 10), "87.0");
    assert_eq!(format_ratio(87, 1), "87.0");
}

#[test]
fn memory_use_in_mebibytes() {
    assert_eq!(format_memory_use(2147483648), "2048.0");
    assert_eq!(format_memory_use(0), "0.0");
    assert_eq!(format_memory_use(BYTES_PER_MIB / 2 * 3), "1.5");
    assert_eq!(format_memory_use(u64::MAX), "17592186044416.0");
}

#[test]
fn formatting_twice_gives_the_same_text() {
    assert_eq!(format_ratio(4237, 100), format_ratio(4237, 100));
    assert_eq!(format_ratio(4237, 100), format_ratio(42370, 1000));
    assert_eq!(format_ratio(-4237, 100), format_ratio(-8474, 200));
}

#[test]
fn ties_round_to_even_tenth() {
    assert_eq!(format_ratio(25, 200), "0.1");
    assert_eq!(format_ratio(35, 200), "0.2");
    assert_eq!(format_ratio(-25, 200), "-0.1");
    assert_eq!(format_ratio(26, 200), "0.1");
    assert_eq!(format_ratio(24, 200), "0.1");
}

#[test]
fn negative_values_keep_their_sign() {
    assert_eq!(format_ratio(-4237, 100), "-42.4");
    assert_eq!(format_ratio(-1, 100), "0.0");
    assert_eq!(format_ratio(i64::MIN, 1), "-9223372036854775808.0");
}

#[test]
fn decimal_text_of_integers() {
    assert_eq!(decimal_string(0), "0");
    assert_eq!(decimal_string(1883), "1883");
    assert_eq!(decimal_string(u128::MAX), u128::MAX.to_string());
}

#[test]
fn topic_is_namespaced_by_host() {
    assert_eq!(topic("host1", "memory_use"), "server_status/host1/memory_use");
}

#[test]
fn disk_keys_count_from_zero() {
    assert_eq!(disk_key(0), "disk_use_percent_disk0");
    assert_eq!(disk_key(12), "disk_use_percent_disk12");
}

#[test]
fn failure_line_names_key_and_value() {
    assert_eq!(
        failure_line("memory_use", "server_status/host1/memory_use", "2048.0"),
        "Failed to send message, memory_use: server_status/host1/memory_use: 2048.0"
    );
}

#[test]
fn broker_url_uses_default_port() {
    let mut c = config();
    assert_eq!(DEFAULT_PORT, 1883);
    assert_eq!(c.broker_url(), "tcp://broker.local:1883");
    c.port = Some(8883);
    assert_eq!(c.broker_url(), "tcp://broker.local:8883");
}

#[test]
fn config_file_is_first_that_exists() {
    let c = config_candidates();
    assert_eq!(c, vec!["/etc/server_status/config.yaml".to_string(), "config.yaml".to_string()]);
    assert_eq!(first_existing(&vec![true, true]), Some(0));
    assert_eq!(first_existing(&vec![false, true]), Some(1));
    assert_eq!(first_existing(&vec![false, false]), None);
    assert_eq!(first_existing(&vec![]), None);
}

#[test]
fn switches_default_to_off() {
    assert!(!Config::enabled(None));
    assert!(!Config::enabled(Some(false)));
    assert!(Config::enabled(Some(true)));
}

#[test]
fn all_off_cycle_only_pauses() {
    let mut c = config();
    c.disk_paths = Some(vec!["/data".to_string()]);
    c.hostname = Some(true);
    let steps = cycle_steps(&c);
    assert_eq!(steps.len(), 1);
    assert!(matches!(steps[0], Step::Pause { secs: 15 }));
    assert_eq!(SAMPLE_WINDOW_SECS, 15);
    let mut p = Publisher::new(&c, "host1");
    for _ in 0..3 {
        assert!(matches!(p.current(), Step::Pause { secs: 15 }));
        assert_eq!(p.current_topic(), None);
        assert_eq!(p.record(Outcome::Slept), None);
    }
}

#[test]
fn one_disk_step_per_path_in_order() {
    let mut c = config();
    c.disk_use_percent = Some(true);
    c.disk_paths = Some(vec!["/".to_string(), "/home".to_string(), "/var".to_string()]);
    let steps = cycle_steps(&c);
    assert_eq!(steps.len(), 4);
    let ks = keys(&steps);
    assert_eq!(ks[1].as_deref(), Some("disk_use_percent_disk0"));
    assert_eq!(ks[2].as_deref(), Some("disk_use_percent_disk1"));
    assert_eq!(ks[3].as_deref(), Some("disk_use_percent_disk2"));
    match &steps[2] {
        Step::DiskUse { index, path } => {
            assert_eq!(*index, 1);
            assert_eq!(path, "/home");
        }
        other => panic!("unexpected step {:?}", other),
    }
}

#[test]
fn empty_or_absent_disk_list_means_root() {
    let mut c = config();
    c.disk_use_percent = Some(true);
    for paths in [None, Some(vec![])] {
        c.disk_paths = paths;
        let steps = cycle_steps(&c);
        assert_eq!(steps.len(), 2);
        match &steps[1] {
            Step::DiskUse { index, path } => {
                assert_eq!(*index, 0);
                assert_eq!(path, "/");
            }
            other => panic!("unexpected step {:?}", other),
        }
    }
}

#[test]
fn full_cycle_order() {
    let mut c = config();
    c.processor_use = Some(true);
    c.disk_use_percent = Some(true);
    c.processor_temperature = Some(true);
    c.memory_use = Some(true);
    c.last_boot = Some(true);
    let steps = cycle_steps(&c);
    assert!(matches!(steps[0], Step::ProcessorUse { window_secs: 15 }));
    let ks: Vec<String> = keys(&steps).into_iter().map(|k| k.unwrap()).collect();
    assert_eq!(
        ks,
        vec![
            "processor_use",
            "disk_use_percent_disk0",
            "processor_temperature",
            "memory_use",
            "last_boot"
        ]
    );
    assert_eq!(PUBLISH_QOS, 2);
}

#[test]
fn failed_publish_does_not_stop_the_cycle() {
    let mut c = config();
    c.processor_temperature = Some(true);
    c.memory_use = Some(true);
    let mut p = Publisher::new(&c, "host1");
    assert_eq!(p.record(Outcome::Slept), None);
    assert_eq!(
        p.current_topic().as_deref(),
        Some("server_status/host1/processor_temperature")
    );
    let line = p.record(Outcome::PublishFailed { payload: "51.0".to_string() });
    assert_eq!(
        line.as_deref(),
        Some(
            "Failed to send message, processor_temperature: \
             server_status/host1/processor_temperature: 51.0"
        )
    );
    assert_eq!(p.current_topic().as_deref(), Some("server_status/host1/memory_use"));
    let line = p.record(Outcome::PublishFailed { payload: "2048.0".to_string() });
    assert_eq!(
        line.as_deref(),
        Some(
            "Failed to send message, memory_use: server_status/host1/memory_use: 2048.0"
        )
    );
    assert!(matches!(p.current(), Step::Pause { secs: 15 }));
    assert_eq!(p.record(Outcome::Slept), None);
    assert_eq!(
        p.current_topic().as_deref(),
        Some("server_status/host1/processor_temperature")
    );
    assert_eq!(p.record(Outcome::Published), None);
    assert!(matches!(p.current(), Step::MemoryUse));
}

#[test]
fn memory_only_publishes_one_topic_per_cycle() {
    let mut c = config();
    c.memory_use = Some(true);
    let mut p = Publisher::new(&c, "host1");
    let mut topics = Vec::new();
    for _ in 0..4 {
        if let Some(t) = p.current_topic() {
            topics.push(t);
            p.record(Outcome::Published);
        } else {
            p.record(Outcome::Slept);
        }
    }
    assert_eq!(
        topics,
        vec!["server_status/host1/memory_use", "server_status/host1/memory_use"]
    );
    let payload = format_memory_use(2147483648);
    assert!(payload.parse::<f64>().is_ok());
}

#[test]
fn boot_time_in_rfc3339() {
    assert_eq!(format_last_boot(0).as_deref(), Some("1970-01-01T00:00:00+00:00"));
    assert_eq!(
        format_last_boot(1431648000).as_deref(),
        Some("2015-05-15T00:00:00+00:00")
    );
    assert_eq!(
        format_last_boot(1700000000).as_deref(),
        Some("2023-11-14T22:13:20+00:00")
    );
    assert_eq!(
        format_last_boot(LAST_SECOND_OF_9999).as_deref(),
        Some("9999-12-31T23:59:59+00:00")
    );
    assert_eq!(format_last_boot(u64::MAX), None);
}

#[test]
fn exact_binary_ratios_round_like_the_float() {
    // 42.35 as an f32 is 11101798 / 262144, a little below the tie.
    assert_eq!(format_ratio(11101798, 262144), "42.3");
    // 0.25 is an exact tie and goes to the even tenth.
    assert_eq!(format_ratio(1, 4), "0.2");
    assert_eq!(format_ratio(3, 4), "0.8");
}
