use procmon::security::hash_cache::{content_hash, hex_string, HashReputation, MAX_ENTRIES};
use procmon::security::signature::SignatureStatus;

#[test]
fn content_hash_is_sha256_hex() {
    assert_eq!(content_hash(b""), "e3b0c44298fc1c149afbf4c8996fb92427ae41e4649b934ca495991b7852b855");
    assert_eq!(content_hash(b"abc"), "ba7816bf8f01cfea414140de5dae2223b00361a396177a9cb410ff61f20015ad");
}

#[test]
fn hex_string_is_lower_case_two_digits_per_byte() {
    assert_eq!(hex_string(&[0x00, 0x0f, 0xa0, 0xff]), "000fa0ff");
}

#[test]
fn hash_file_caps_at_max_bytes() {
    let cap = 64 * 1024 * 1024;
    let mut a = vec![0x5Au8; cap];
    let h1 = content_hash(&a);
    a.extend_from_slice(&[0xFF; 1024]);
    let h2 = content_hash(&a);
    assert_eq!(h1, h2, "bytes beyond MAX_HASH_BYTES must not affect digest");
    assert_eq!(h1.len(), 64);
}

#[test]
fn recorded_verdict_is_read_back() {
    let mut rep = HashReputation::new();
    let h = content_hash(b"one");
    rep.record("D:\\a.exe", SignatureStatus::Signed, Some(&h), 10);
    assert_eq!(rep.get_cached_sig("D:\\a.exe", Some(&h)), Some(SignatureStatus::Signed));
    assert_eq!(rep.get_cached_sig("D:\\b.exe", Some(&h)), None);
    assert!(rep.flush());
    assert!(!rep.flush());
}

#[test]
fn changed_content_invalidates_path() {
    let mut rep = HashReputation::new();
    let h1 = content_hash(b"v1");
    let h2 = content_hash(b"v2");
    rep.record("D:\\a.exe", SignatureStatus::Unsigned, Some(&h1), 10);
    assert!(rep.check_hash("D:\\a.exe").is_some());
    assert_eq!(rep.get_cached_sig("D:\\a.exe", Some(&h2)), None);
    assert_eq!(rep.get_cached_sig("D:\\a.exe", Some(&h1)), None, "the path was dropped from the index");
    assert!(rep.check_hash("D:\\a.exe").is_none());
}

#[test]
fn unreadable_file_is_not_recorded() {
    let mut rep = HashReputation::new();
    rep.record("D:\\a.exe", SignatureStatus::Signed, None, 10);
    assert!(!rep.flush());
    assert!(rep.entries().is_empty());
}

#[test]
fn check_hash_reports_known_unsigned_only() {
    let mut rep = HashReputation::new();
    let h = content_hash(b"x");
    rep.record("D:\\u.exe", SignatureStatus::Unsigned, Some(&h), 1);
    let f = rep.check_hash("D:\\u.exe").expect("known unsigned");
    assert_eq!(f.name, "hash_known_unsigned");
    assert_eq!(f.weight, 15);
    let g = content_hash(b"y");
    rep.record("D:\\s.exe", SignatureStatus::Signed, Some(&g), 1);
    assert!(rep.check_hash("D:\\s.exe").is_none());
    rep.record("C:\\Windows\\System32\\u.exe", SignatureStatus::Unsigned, Some(&h), 1);
    assert!(rep.check_hash("C:\\Windows\\System32\\u.exe").is_none());
}

#[test]
fn same_content_collects_paths_case_insensitively() {
    let mut rep = HashReputation::new();
    let h = content_hash(b"same");
    rep.record("D:\\A.exe", SignatureStatus::Signed, Some(&h), 5);
    rep.record("d:\\a.EXE", SignatureStatus::Signed, Some(&h), 6);
    rep.record("D:\\b.exe", SignatureStatus::Unsigned, Some(&h), 7);
    let e = &rep.entries()[0];
    assert_eq!(rep.entries().len(), 1);
    assert_eq!(e.paths, vec!["D:\\A.exe".to_string(), "D:\\b.exe".to_string()]);
    assert_eq!(e.first_seen_epoch, 5);
    assert_eq!(e.sig_status, Some(SignatureStatus::Unsigned));
}

#[test]
fn oldest_entry_is_evicted_past_the_limit() {
    let mut rep = HashReputation::new();
    for i in 0..MAX_ENTRIES {
        let h = format!("{i:064}");
        rep.record(&format!("D:\\f{i}.exe"), SignatureStatus::Signed, Some(&h), 100 + i as u64);
    }
    assert_eq!(rep.entries().len(), MAX_ENTRIES);
    let h = "n".repeat(64);
    rep.record("D:\\new.exe", SignatureStatus::Signed, Some(&h), 99_999);
    assert_eq!(rep.entries().len(), MAX_ENTRIES);
    assert_eq!(rep.get_cached_sig("D:\\f0.exe", Some(&format!("{:064}", 0))), None);
    assert_eq!(rep.get_cached_sig("D:\\new.exe", Some(&h)), Some(SignatureStatus::Signed));
    assert_eq!(rep.get_cached_sig("D:\\f1.exe", Some(&format!("{:064}", 1))), Some(SignatureStatus::Signed));
}

#[test]
fn from_entries_rebuilds_index() {
    let mut rep = HashReputation::new();
    let h = content_hash(b"z");
    rep.record("D:\\z.exe", SignatureStatus::Unsigned, Some(&h), 3);
    let saved = rep.entries().clone();
    let mut loaded = HashReputation::from_entries(&saved);
    assert_eq!(loaded.get_cached_sig("D:\\z.exe", Some(&h)), Some(SignatureStatus::Unsigned));
    assert!(!loaded.flush());
}

#[test]
fn whitelist_is_system_directories() {
    assert!(HashReputation::is_whitelisted("C:\\WINDOWS\\System32\\cmd.exe"));
    assert!(HashReputation::is_whitelisted("c:\\windows\\syswow64\\x.dll"));
    assert!(HashReputation::is_whitelisted("C:\\Windows\\WinSxS\\y.dll"));
    assert!(!HashReputation::is_whitelisted("C:\\Windows\\Temp\\z.exe"));
}
