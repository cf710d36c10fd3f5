use procmon::display::{make_bar, matches_query, shorten_gpu_name, truncate_str, truncate_to_width, truncate_worker_name};
use procmon::smart::{ata_health_and_attributes, nvme_attribute_id, nvme_attributes, AtaRow, SmartHealth};
use procmon::throttle::{detect_throttle_from_raw, EcoQoSState, ThrottleReason};
use procmon::tree::{KillSafety, TreeFilter};

#[test]
fn matches_query_case_insensitive() {
    assert!(matches_query("C:\\Windows\\System32\\kernel32.dll", "KERNEL32"));
    assert!(matches_query("PATH", "path"));
    assert!(matches_query("/usr/lib/libc.so.6", "libc"));
    assert!(!matches_query("PATH", "tmp"));
    assert!(matches_query("anything", ""));
}

#[test]
fn truncate_worker_name_short_unchanged() {
    assert_eq!(truncate_worker_name("port"), "port");
    assert_eq!(truncate_worker_name("docker"), "docker");
}

#[test]
fn truncate_worker_name_exactly_10_unchanged() {
    assert_eq!(truncate_worker_name("0123456789"), "0123456789");
}

#[test]
fn truncate_worker_name_long_truncates_with_ellipsis() {
    assert_eq!(truncate_worker_name("dns_log_worker"), "dns_log_w…");
    assert_eq!(truncate_worker_name("docker_logs"), "docker_lo…");
    assert_eq!(truncate_worker_name("dns_log_worker").chars().count(), 10);
}

#[test]
fn health_badge_renders_distinct_glyph() {
    assert_eq!(SmartHealth::Good.badge(), "✓");
    assert_eq!(SmartHealth::Warning.badge(), "⚠");
    assert_eq!(SmartHealth::Failing.badge(), "✗");
    assert_eq!(SmartHealth::Unknown.badge(), "-");
}

fn row(id: u64, when_failed: &str) -> AtaRow {
    AtaRow { id, name: format!("a{id}"), value: 100, threshold: 10, raw_value: 0, when_failed: when_failed.to_string() }
}

#[test]
fn ata_rows_set_health() {
    let (h, attrs) = ata_health_and_attributes(Some(true), &[row(5, "-"), row(9, "-")]);
    assert_eq!(h, SmartHealth::Good);
    assert_eq!(attrs.len(), 2);
    let (h, _) = ata_health_and_attributes(Some(true), &[row(5, "-"), row(197, "past")]);
    assert_eq!(h, SmartHealth::Warning);
    let (h, attrs) = ata_health_and_attributes(Some(true), &[row(5, "past"), row(197, "now")]);
    assert_eq!(h, SmartHealth::Failing);
    assert!(attrs[1].failing);
    let (h, _) = ata_health_and_attributes(Some(false), &[]);
    assert_eq!(h, SmartHealth::Failing);
    let (h, _) = ata_health_and_attributes(None, &[row(5, "now")]);
    assert_eq!(h, SmartHealth::Unknown);
    let (_, attrs) = ata_health_and_attributes(Some(true), &[row(300, "now"), row(1, "-")]);
    assert_eq!(attrs.len(), 1);
    assert_eq!(attrs[0].id, 1);
}

#[test]
fn nvme_fields_map_to_ids() {
    assert_eq!(nvme_attribute_id("temperature"), 194);
    assert_eq!(nvme_attribute_id("media_errors"), 187);
    assert_eq!(nvme_attribute_id("critical_warning"), 0);
    let attrs = nvme_attributes(&[("temperature".to_string(), 41), ("unknown".to_string(), 3), ("available_spare".to_string(), 100)]);
    assert_eq!(attrs.len(), 2);
    assert_eq!(attrs[0].id, 194);
    assert_eq!(attrs[0].raw_value, 41);
    assert_eq!(attrs[1].id, 5);
}

#[test]
fn detect_throttle_from_raw_summarises_cores() {
    assert!(detect_throttle_from_raw(&[]).is_none());
    let s = detect_throttle_from_raw(&[(3000, 1000, 2000), (3200, 1500, 2500)]).unwrap();
    assert_eq!(s.max_mhz, 3200);
    assert_eq!(s.current_mhz, 1250);
    assert_eq!(s.mhz_limit, 2000);
    assert!(s.is_throttled);
    let t = detect_throttle_from_raw(&[(3000, 1000, 3000)]).unwrap();
    assert!(!t.is_throttled);
    let u = detect_throttle_from_raw(&[(3000, 1000, 0)]).unwrap();
    assert!(!u.is_throttled);
}

#[test]
fn ecoqos_badge_and_label() {
    assert_eq!(EcoQoSState::Eco.badge(), " \u{1F343}");
    assert_eq!(EcoQoSState::Normal.badge(), "");
    assert_eq!(EcoQoSState::Unknown.label(), "Unknown");
    assert_eq!(EcoQoSState::default(), EcoQoSState::Normal);
    assert_ne!(ThrottleReason::Thermal, ThrottleReason::NotThrottled);
}

#[test]
fn tree_kinds() {
    assert_eq!(TreeFilter::default(), TreeFilter::All);
    assert_ne!(KillSafety::Safe, KillSafety::Caution);
}

#[test]
fn truncate_str_respects_wide_chars() {
    assert_eq!(truncate_str("汉字测试路径", 10), "汉字测试…");
    assert_eq!(truncate_str("汉字测试路径", 12), "汉字测试路径");
    assert_eq!(truncate_str("abc汉字", 7), "abc汉字");
    assert_eq!(truncate_str("abc汉字", 6), "abc汉…");
    assert_eq!(truncate_str("short", 24), "short");
    assert_eq!(truncate_str("abcdefghijklmnopqrstuvwxyz", 5), "abcd…");
}

#[test]
fn truncate_str_zero_width_is_empty() {
    assert_eq!(truncate_str("abc", 0), "");
    assert_eq!(truncate_str("", 3), "");
}

#[test]
fn truncate_to_width_stops_at_first_overflow() {
    // Widths 1, 3, 1: with four columns the budget for characters is three,
    // so only the first fits although the third alone would too.
    assert_eq!(truncate_to_width("abc", 4, 5, &[1, 3, 1]), "a…");
    assert_eq!(truncate_to_width("abc", 5, 5, &[1, 3, 1]), "abc");
    assert_eq!(truncate_to_width("abc", 1, 5, &[1, 3, 1]), "…");
    // Zero-width characters are always taken while the budget allows.
    assert_eq!(truncate_to_width("a\u{7}b", 2, 3, &[1, 0, 2]), "a\u{7}…");
}

#[test]
fn gpu_names_are_shortened_per_vendor() {
    assert_eq!(shorten_gpu_name("NVIDIA GeForce RTX 3060 Laptop GPU"), "GeForce RTX 3060");
    assert_eq!(shorten_gpu_name("NVIDIA GeForce GTX 1650 with Max-Q Design"), "GeForce GTX 1650");
    assert_eq!(shorten_gpu_name("NVIDIA GeForce RTX 4090"), "GeForce RTX 4090");
    assert_eq!(shorten_gpu_name("Intel(R) UHD Graphics 620"), "UHD");
    assert_eq!(shorten_gpu_name("Intel(R) Arc(TM) A770"), "Arc A770");
    assert_eq!(shorten_gpu_name("AMD Radeon RX 6800"), "Radeon RX 6800");
    assert_eq!(shorten_gpu_name("Apple M1 Pro GPU Core"), "Apple M1 Pro");
    assert_eq!(shorten_gpu_name("Mali-G78"), "Mali-G78");
    assert_eq!(shorten_gpu_name("  Adreno 660 "), "Adreno 660");
}

#[test]
fn usage_bar_has_ten_cells() {
    assert_eq!(make_bar(45), "████▓░░░░░");
    assert_eq!(make_bar(100), "██████████");
    assert_eq!(make_bar(0), "░░░░░░░░░░");
    assert_eq!(make_bar(30), "███░░░░░░░");
    assert_eq!(make_bar(7), "▓░░░░░░░░░");
}
