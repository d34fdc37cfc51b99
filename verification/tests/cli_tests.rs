use colored::Colorize;
use libcrun_shim::cli::{
    command_or_shell, default_run_name, emergency_targets, find_image, format_bytes,
    format_event_type, format_status, format_timestamp_at, on_interrupt, orphan_probe, orphan_probe_text, state_file_from_text,
    memory_bytes_lower, parse_memory, recover_step, should_clean, try_parse_memory, visible_containers,
    InterruptAction, OrphanProbe, PersistedContainer, RecoverStep,
};
use libcrun_shim::image::{image_info_from_config, ImageConfigFields, ImageReference};
use libcrun_shim::{ContainerEventType, ContainerInfo, ContainerStatus};

fn float_format(bytes: u64) -> String {
    const KB: u64 = 1024;
    const MB: u64 = KB * 1024;
    const GB: u64 = MB * 1024;
    if bytes >= GB {
        format!("{:.2}GB", bytes as f64 / GB as f64)
    } else if bytes >= MB {
        format!("{:.2}MB", bytes as f64 / MB as f64)
    } else if bytes >= KB {
        format!("{:.2}KB", bytes as f64 / KB as f64)
    } else {
        format!("{}B", bytes)
    }
}

#[test]
fn byte_sizes_exact_values() {
    assert_eq!(format_bytes(0), "0B");
    assert_eq!(format_bytes(512), "512B");
    assert_eq!(format_bytes(1023), "1023B");
    assert_eq!(format_bytes(1024), "1.00KB");
    assert_eq!(format_bytes(1536), "1.50KB");
    assert_eq!(format_bytes(2 * 1024 * 1024), "2.00MB");
    assert_eq!(format_bytes(1342177280), "1.25GB");
}

#[test]
fn byte_sizes_match_float_formatting() {
    let mut samples: Vec<u64> = Vec::new();
    for b in 0..5000u64 {
        samples.push(b);
    }
    for k in 0..4000u64 {
        samples.push(1024 * 1024 - 2000 + k);
        samples.push(1024 * 1024 * 1024 - 2000 + k);
        samples.push(k * 1048577 + 7);
        samples.push(k.wrapping_mul(0x9E37_79B9_7F4A_7C15));
    }
    for shift in 0..64u32 {
        let p = 1u64 << shift;
        samples.push(p);
        samples.push(p - 1);
        samples.push(p + 1);
        samples.push(p.wrapping_add(p / 2));
    }
    samples.push(u64::MAX);
    samples.push(u64::MAX - 1);
    samples.push(1152);
    samples.push(1152 * 1024);
    samples.push(1152 * 1024 * 1024);
    for b in samples {
        assert_eq!(format_bytes(b), float_format(b), "bytes {}", b);
    }
}

#[test]
fn ages() {
    assert_eq!(format_timestamp_at(0, 100), "N/A");
    assert_eq!(format_timestamp_at(100, 130), "30 seconds ago");
    assert_eq!(format_timestamp_at(1000, 1120), "2 minutes ago");
    assert_eq!(format_timestamp_at(1000, 1000 + 7200), "2 hours ago");
    assert_eq!(format_timestamp_at(1000, 1000 + 3 * 86400), "3 days ago");
    assert_eq!(format_timestamp_at(1000, 1000 + 2 * 2592000), "2 months ago");
    assert_eq!(format_timestamp_at(1000, 1000 + 2 * 31536000 + 5), "2 years ago");
    assert_eq!(format_timestamp_at(500, 100), "0 seconds ago");
}

#[test]
fn memory_sizes() {
    assert_eq!(parse_memory("512m"), 512 * 1024 * 1024);
    assert_eq!(parse_memory("1G"), 1024 * 1024 * 1024);
    assert_eq!(parse_memory("2gb"), 2 * 1024 * 1024 * 1024);
    assert_eq!(parse_memory("10KB"), 10 * 1024);
    assert_eq!(parse_memory("5mm"), 5 * 1024 * 1024);
    assert_eq!(parse_memory("1024"), 1024);
    assert_eq!(parse_memory("abc"), 0);
    assert_eq!(parse_memory(""), 0);
    assert_eq!(try_parse_memory("1k"), Some(1024));
    assert_eq!(try_parse_memory("18446744073709551615g"), None);
}

#[test]
fn colours() {
    assert_eq!(format_status(ContainerStatus::Running), "Running".green().to_string());
    assert_eq!(format_status(ContainerStatus::Created), "Created".yellow().to_string());
    assert_eq!(format_status(ContainerStatus::Stopped), "Stopped".dimmed().to_string());
    assert_eq!(format_event_type(ContainerEventType::Oom), "oom".red().bold().to_string());
    assert_eq!(format_event_type(ContainerEventType::ExecDie), "exec_die".blue().to_string());
    assert_eq!(format_event_type(ContainerEventType::Delete), "delete".dimmed().to_string());
    assert!(format_event_type(ContainerEventType::HealthFail).contains("health_fail"));
}

#[test]
fn interrupts_and_cleanup_choices() {
    assert_eq!(on_interrupt(0), InterruptAction::BeginShutdown);
    assert_eq!(on_interrupt(1), InterruptAction::ExitNow(130));
    assert!(should_clean(true, false, ContainerStatus::Running, true));
    assert!(!should_clean(true, false, ContainerStatus::Stopped, false));
    assert!(should_clean(false, true, ContainerStatus::Stopped, false));
    assert!(!should_clean(false, true, ContainerStatus::Running, true));
    assert!(should_clean(false, false, ContainerStatus::Running, true));
    assert!(!should_clean(false, false, ContainerStatus::Created, false));
}

fn info(id: &str, status: ContainerStatus) -> ContainerInfo {
    ContainerInfo { id: id.to_string(), status, pid: None }
}

#[test]
fn listing_filters() {
    let list = vec![info("a", ContainerStatus::Running), info("b", ContainerStatus::Stopped), info("c", ContainerStatus::Running)];
    let ids: Vec<String> = visible_containers(list, false).into_iter().map(|c| c.id).collect();
    assert_eq!(ids, vec!["a".to_string(), "c".to_string()]);
    let all = visible_containers(vec![info("x", ContainerStatus::Created)], true);
    assert_eq!(all.len(), 1);
}

fn entry(id: Option<&str>, status: Option<&str>, pid: Option<i64>) -> PersistedContainer {
    PersistedContainer { id: id.map(|s| s.to_string()), status: status.map(|s| s.to_string()), pid }
}

#[test]
fn state_file_decisions() {
    let entries = vec![
        entry(Some("a"), Some("Running"), Some(0)),
        entry(Some("a"), Some("running"), Some(42)),
        entry(Some("b"), Some("Stopped"), Some(7)),
        entry(None, Some("Running"), Some(9)),
        entry(Some("c"), Some("Running"), Some(11)),
    ];
    assert_eq!(orphan_probe(&entries, "a"), OrphanProbe::CheckProcess(42));
    assert_eq!(orphan_probe(&entries, "b"), OrphanProbe::NotOrphaned);
    assert_eq!(orphan_probe(&entries, "zz"), OrphanProbe::NotOrphaned);
    assert_eq!(
        emergency_targets(&entries),
        vec![("a".to_string(), None), ("a".to_string(), Some(42)), ("c".to_string(), Some(11))]
    );
    assert_eq!(recover_step(&entries[3], false), RecoverStep::Skip);
    assert_eq!(recover_step(&entries[1], true), RecoverStep::AlreadyTracked);
    assert_eq!(recover_step(&entries[1], false), RecoverStep::CheckProcess(42));
    assert_eq!(recover_step(&entries[0], false), RecoverStep::Stale);
}

#[test]
fn images_by_name() {
    let fields = ImageConfigFields { architecture: None, os: None, created: None, labels: None };
    let images = vec![
        image_info_from_config(ImageReference::parse("alpine:3.18").unwrap(), "aaa111".to_string(), 1, &fields),
        image_info_from_config(ImageReference::parse("ghcr.io/u/nginx").unwrap(), "bbb222".to_string(), 1, &fields),
    ];
    assert_eq!(find_image(&images, "bbb222"), Some(1));
    assert_eq!(find_image(&images, "nginx"), Some(1));
    assert_eq!(find_image(&images, "3.18"), Some(0));
    assert_eq!(find_image(&images, "latest"), Some(1));
    assert_eq!(find_image(&images, "redis"), None);
}

#[test]
fn run_defaults() {
    assert_eq!(command_or_shell(vec![]), vec!["/bin/sh".to_string()]);
    assert_eq!(command_or_shell(vec!["ls".to_string()]), vec!["ls".to_string()]);
    assert_eq!(default_run_name(1700000000), "run-1700000000");
}

#[test]
fn lowercase_memory_sizes() {
    assert_eq!(memory_bytes_lower("512m"), Some(512 * 1024 * 1024));
    assert_eq!(memory_bytes_lower("10kb"), Some(10 * 1024));
    assert_eq!(memory_bytes_lower("3ggb"), Some(3 * 1024 * 1024 * 1024));
    assert_eq!(memory_bytes_lower("1G"), Some(0));
    assert_eq!(memory_bytes_lower("x"), Some(0));
    assert_eq!(memory_bytes_lower("18446744073709551615k"), None);
}

#[test]
fn state_file_text() {
    let text = r#"[{"id":"a","status":"running","pid":42},{"id":"b","status":"Stopped","pid":7},{"id":5}]"#;
    let entries = state_file_from_text(text).unwrap();
    assert_eq!(entries.len(), 3);
    assert_eq!(entries[0].id.as_deref(), Some("a"));
    assert_eq!(entries[0].pid, Some(42));
    assert_eq!(entries[2].id, None);
    assert_eq!(orphan_probe_text(text, "a"), OrphanProbe::CheckProcess(42));
    assert_eq!(orphan_probe_text(text, "b"), OrphanProbe::NotOrphaned);
    assert_eq!(orphan_probe_text("not json", "a"), OrphanProbe::NotOrphaned);
    match state_file_from_text("{\"id\":1}") {
        Err(e) => assert!(e.starts_with("Failed to parse state file: ")),
        Ok(_) => panic!("expected a parse error"),
    }
}
