//! Reports on the machine: memory, workers, settings, disk use and errors.

use pg_trickle::api::release_096::{
    active_profile, auto_workers, disk_health_rows, disk_usage, error_catalog, memory_mb,
    settings, visible_memory_bytes, Setting,
};

fn some(s: &str) -> Option<String> {
    Some(s.to_string())
}

#[test]
fn rows_of_settings_need_all_their_cells() {
    let s = settings(&vec![
        (some("a"), some("1"), some("default")),
        (None, some("2"), some("default")),
        (some("b"), None, some("default")),
        (some("c"), some("3"), None),
        (some("d"), some("4"), some("file")),
    ]);
    let names: Vec<&str> = s.iter().map(|p| p.0.as_str()).collect();
    assert_eq!(names, vec!["a", "d"]);
    assert_eq!(s[1].1.value, "4");
    assert_eq!(s[1].1.source, "file");
}

#[test]
fn the_first_limit_of_a_control_group_counts() {
    let meminfo = some("MemFree: 1 kB\nMemTotal:       16 kB\n");
    assert_eq!(
        visible_memory_bytes(&vec![some(" 4096\n"), some("8192")], &meminfo),
        Some(4096)
    );
    assert_eq!(visible_memory_bytes(&vec![some("max\n"), some("8192")], &meminfo), Some(8192));
    assert_eq!(visible_memory_bytes(&vec![some("0"), some("-1")], &meminfo), Some(16384));
    assert_eq!(visible_memory_bytes(&vec![None, some("max")], &meminfo), Some(16384));
    assert_eq!(visible_memory_bytes(&vec![], &None), None);
}

#[test]
fn memory_reports_that_say_nothing() {
    assert_eq!(visible_memory_bytes(&vec![], &some("MemTotal:")), None);
    assert_eq!(visible_memory_bytes(&vec![], &some("MemTotal: many kB")), None);
    assert_eq!(visible_memory_bytes(&vec![], &some(" MemTotal: 16 kB")), None);
    assert_eq!(
        visible_memory_bytes(&vec![], &some("MemTotal:\u{2003}18446744073709551615")),
        Some(u64::MAX)
    );
}

#[test]
fn whole_mebibytes() {
    assert_eq!(memory_mb(Some(1_048_575)), Some(0));
    assert_eq!(memory_mb(Some(3 * 1_048_576 + 1)), Some(3));
    assert_eq!(memory_mb(None), None);
}

#[test]
fn workers_stay_within_bounds() {
    assert_eq!(auto_workers(Some(2), 8), 2);
    assert_eq!(auto_workers(Some(0), 8), 1);
    assert_eq!(auto_workers(Some(64), 40), 32);
    assert_eq!(auto_workers(None, 6), 6);
    assert_eq!(auto_workers(None, -4), 1);
}

fn setting(name: &str, value: &str, source: &str) -> (String, Setting) {
    (
        name.to_string(),
        Setting { value: value.to_string(), source: source.to_string() },
    )
}

#[test]
fn profile_of_a_configured_server() {
    let current = vec![
        setting("max_connections", "100", "default"),
        setting("max_worker_processes", "8", "configuration file"),
        setting("pg_trickle.max_concurrent_refreshes", "6", "default"),
        setting("pg_trickle.memory_budget_mb", "512", "database"),
        setting("shared_buffers", "16384", "configuration file"),
    ];
    let rows = active_profile(&current, Some(10_240 * 1_048_576), Some(4));
    let shown: Vec<(&str, Option<&str>, &str, &str, bool, bool)> = rows
        .iter()
        .map(|r| {
            (
                r.constraint_name.as_str(),
                r.detected_value.as_deref(),
                r.source.as_str(),
                r.selected_value.as_str(),
                r.overridden,
                r.available,
            )
        })
        .collect();
    assert_eq!(
        shown,
        vec![
            ("host_memory", Some("10240 MiB"), "cgroup/procfs", "1024 MiB budget", true, true),
            ("max_worker_processes", Some("8"), "pg_settings", "4", true, true),
            ("cpu_parallelism", Some("4"), "host", "4", false, true),
            ("max_connections", Some("100"), "pg_settings", "100", false, true),
            ("shared_buffers", Some("16384"), "pg_settings", "16384", true, true),
            ("pg_trickle_memory_budget_mb", Some("512"), "database", "1024", true, true),
            ("pg_trickle_max_concurrent_refreshes", Some("6"), "default", "4", false, true),
        ]
    );
    assert_eq!(
        rows[6].detail,
        "Throttled admission limit for per-database refresh concurrency."
    );
}

#[test]
fn profile_of_an_unknown_server() {
    let rows = active_profile(&Vec::new(), None, None);
    let shown: Vec<(Option<&str>, &str, &str, bool, bool)> = rows
        .iter()
        .map(|r| {
            (
                r.detected_value.as_deref(),
                r.source.as_str(),
                r.selected_value.as_str(),
                r.overridden,
                r.available,
            )
        })
        .collect();
    assert_eq!(
        shown,
        vec![
            (None, "cgroup/procfs", "256 MiB budget", false, false),
            (None, "pg_settings", "1", false, false),
            (None, "host", "1", false, false),
            (None, "pg_settings", "unknown", false, false),
            (None, "pg_settings", "unknown", false, false),
            (Some("256"), "default", "256", false, true),
            (Some("4"), "default", "1", false, true),
        ]
    );
}

#[test]
fn little_memory_gives_the_least_budget() {
    let rows = active_profile(&Vec::new(), Some(100 * 1_048_576), Some(1));
    assert_eq!(rows[0].selected_value, "16 MiB budget");
}

#[test]
fn disk_pressure() {
    let rows = vec![
        (some("a.ok"), Some(700), Some(99)),
        (some("a.warn"), Some(700), Some(100)),
        (some("a.over"), Some(700), Some(300)),
        (None, Some(1), Some(1)),
        (some("a.absent"), None, Some(-5)),
        (some("a.huge"), Some(i64::MAX), Some(1)),
    ];
    let usage = disk_usage(&rows, 1000);
    let shown: Vec<(&str, i64, i64, i64, i64, &str)> = usage
        .iter()
        .map(|r| {
            (
                r.stream_table.as_str(),
                r.relation_bytes,
                r.change_buffer_bytes,
                r.projected_bytes,
                r.headroom_bytes,
                r.pressure_state.as_str(),
            )
        })
        .collect();
    assert_eq!(
        shown,
        vec![
            ("a.ok", 700, 99, 799, 201, "OK"),
            ("a.warn", 700, 100, 800, 200, "WARN"),
            ("a.over", 700, 300, 1000, 0, "OVER_HEADROOM"),
            ("a.absent", 0, 0, 0, 1000, "OK"),
            ("a.huge", i64::MAX, 1, i64::MAX, 0, "OVER_HEADROOM"),
        ]
    );
    assert_eq!(disk_usage(&vec![(some("t"), Some(5), None)], 0)[0].pressure_state, "DISABLED");
}

#[test]
fn over_headroom_leaves_nothing() {
    for projected in [1000, 1001, i64::MAX] {
        let u = disk_usage(&vec![(some("t"), Some(projected), None)], 1000);
        assert_eq!(u[0].pressure_state, "OVER_HEADROOM");
        assert_eq!(u[0].headroom_bytes, 0);
    }
}

#[test]
fn disk_forecast() {
    let one = |rows: Vec<(String, String, String)>| {
        assert_eq!(rows.len(), 1);
        assert_eq!(rows[0].0, "disk_forecast");
        (rows[0].1.clone(), rows[0].2.clone())
    };
    assert_eq!(
        one(disk_health_rows(0, Some(5))),
        (
            "OK".to_string(),
            "Disk forecast is disabled by pg_trickle.disk_headroom_mb = 0.".to_string()
        )
    );
    assert_eq!(
        one(disk_health_rows(10, Some(10))),
        (
            "WARN".to_string(),
            "maximum projected stream-table footprint=10 bytes; configured headroom=10 bytes; enforcement=FORECAST_AND_REACT".to_string()
        )
    );
    assert_eq!(one(disk_health_rows(10, Some(9))).0, "OK");
    assert_eq!(
        one(disk_health_rows(10, None)).1,
        "maximum projected stream-table footprint=0 bytes; configured headroom=10 bytes; enforcement=FORECAST_AND_REACT"
    );
}

#[test]
fn errors_have_states() {
    let shown: Vec<(String, String)> =
        error_catalog().into_iter().map(|r| (r.error_id, r.sqlstate)).collect();
    let expected = [
        ("LOCK_TIMEOUT", "55P03"),
        ("STATEMENT_TIMEOUT", "57014"),
        ("DEADLOCK", "40P01"),
        ("SERIALIZATION", "40001"),
        ("OUT_OF_MEMORY", "53200"),
        ("PERMANENT", "XX000"),
    ];
    assert_eq!(shown.len(), expected.len());
    for (s, e) in shown.iter().zip(expected.iter()) {
        assert_eq!((s.0.as_str(), s.1.as_str()), *e);
    }
    assert_eq!(
        error_catalog()[3].hint,
        "Retry the operation; committed changes are retained."
    );
}
