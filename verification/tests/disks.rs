use procmon::order::{lex_le_exec, sort_strings};
use procmon::smart::{disk_devices_from_block_names, disk_ids_from_lines, predicted_health_from_lines, SmartHealth};

fn strings(v: &[&str]) -> Vec<String> {
    v.iter().map(|s| s.to_string()).collect()
}

#[test]
fn block_devices_keep_only_disks_sorted() {
    let names = strings(&["sdb", "loop0", "nvme0n1", "ram1", "dm-0", "sr0", "sda"]);
    assert_eq!(
        disk_devices_from_block_names(&names),
        strings(&["/dev/nvme0n1", "/dev/sda", "/dev/sdb"])
    );
    assert!(disk_devices_from_block_names(&[]).is_empty());
}

#[test]
fn disk_ids_are_trimmed_and_sorted() {
    let out = "\\\\.\\PHYSICALDRIVE1  \r\n\r\n  \\\\.\\PHYSICALDRIVE0\r\n";
    assert_eq!(disk_ids_from_lines(out), strings(&["\\\\.\\PHYSICALDRIVE0", "\\\\.\\PHYSICALDRIVE1"]));
    assert!(disk_ids_from_lines("").is_empty());
}

#[test]
fn failure_prediction_prefers_failing() {
    assert_eq!(predicted_health_from_lines("False\r\nTrue\r\n"), Some(SmartHealth::Failing));
    assert_eq!(predicted_health_from_lines("False\nFalse\n"), Some(SmartHealth::Good));
    assert_eq!(predicted_health_from_lines("\n  \n"), None);
    assert_eq!(predicted_health_from_lines("true"), None);
}

#[test]
fn strings_sort_like_str_ord() {
    let input = strings(&["b", "a", "ab", "", "B", "é", "a"]);
    let mut expected = input.clone();
    expected.sort();
    assert_eq!(sort_strings(input), expected);
    assert!(lex_le_exec("ab", "b"));
    assert!(lex_le_exec("a", "ab"));
    assert!(!lex_le_exec("ab", "a"));
    assert!(lex_le_exec("", ""));
    assert!(lex_le_exec("Z", "a"));
    assert!(!lex_le_exec("é", "z"));
}
