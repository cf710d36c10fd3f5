use procmon::display::{score_badge, score_level, ScoreLevel};
use procmon::display::{format_duration, format_duration_short, format_timestamp, format_uptime, pad_display, translate_health, wrap_line, wrap_text};

#[test]
fn lines_wrap_at_the_width() {
    assert_eq!(wrap_line("abcdef", 4), vec!["abcd", "ef"]);
    assert_eq!(wrap_line("abcd", 2), vec!["ab", "cd"]);
    assert_eq!(wrap_line("", 3), vec![""]);
    assert_eq!(wrap_line("abc", 0), vec!["abc"]);
}

#[test]
fn texts_wrap_with_a_dash_for_nothing() {
    assert_eq!(wrap_text("", 5), vec!["-"]);
    assert_eq!(wrap_text("abc", 0), vec!["abc"]);
    assert_eq!(wrap_text("汉字测试", 3), vec!["汉字测", "试"]);
}

#[test]
fn cells_are_padded_or_cut_to_the_width() {
    assert_eq!(pad_display("abc", 5), "abc  ");
    assert_eq!(pad_display("abcdef", 3), "abc");
    assert_eq!(pad_display("汉字a", 4), "汉字");
    assert_eq!(pad_display("a汉字", 4), "a汉 ");
    assert_eq!(pad_display("", 2), "  ");
}

#[test]
fn uptime_uses_the_largest_unit() {
    assert_eq!(format_uptime(None), "-");
    assert_eq!(format_uptime(Some(59)), "59秒");
    assert_eq!(format_uptime(Some(60)), "1分");
    assert_eq!(format_uptime(Some(3599)), "59分");
    assert_eq!(format_uptime(Some(3600)), "1时");
    assert_eq!(format_uptime(Some(86399)), "23时");
    assert_eq!(format_uptime(Some(3 * 86400)), "3天");
}

#[test]
fn durations_and_times_have_two_digit_fields() {
    assert_eq!(format_duration(0), "00:00");
    assert_eq!(format_duration(61), "01:01");
    assert_eq!(format_duration(6000), "100:00");
    assert_eq!(format_timestamp(0), "08:00:00");
    assert_eq!(format_timestamp(16 * 3600 + 61), "00:01:01");
}

#[test]
fn health_states_have_labels() {
    assert_eq!(translate_health("healthy"), "健康");
    assert_eq!(translate_health("unhealthy"), "不健康");
    assert_eq!(translate_health("starting"), "启动中");
    assert_eq!(translate_health("none"), "-");
}

#[test]
fn score_badges_follow_the_levels() {
    assert_eq!(score_badge(95), "");
    assert_eq!(score_badge(90), "");
    assert_eq!(score_badge(89), "89");
    assert_eq!(score_badge(60), "60");
    assert_eq!(score_badge(59), "!59");
    assert_eq!(score_badge(30), "!30");
    assert_eq!(score_badge(29), "!!29");
    assert_eq!(score_badge(0), "!!0");
    assert_eq!(score_level(75), ScoreLevel::Notice);
    assert_eq!(score_level(10), ScoreLevel::Danger);
}

#[test]
fn short_durations_pick_one_unit() {
    assert_eq!(format_duration_short(0), "0s");
    assert_eq!(format_duration_short(59), "59s");
    assert_eq!(format_duration_short(60), "1m");
    assert_eq!(format_duration_short(3599), "59m");
    assert_eq!(format_duration_short(7200), "2h");
}
