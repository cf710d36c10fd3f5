use procmon::security::dll_check::{dll_risk_factors, is_suspicious_dll_path, truncate_path};

fn strings(v: &[&str]) -> Vec<String> {
    v.iter().map(|s| s.to_string()).collect()
}

#[test]
fn short_paths_stay_and_long_ones_keep_their_tail() {
    assert_eq!(truncate_path("C:\\short.dll", 60), "C:\\short.dll");
    let long = format!("C:\\{}\\x.dll", "a".repeat(61));
    assert_eq!(long.len(), 70);
    assert_eq!(truncate_path(&long, 60), format!("...{}", &long[7..]));
    // Byte 4 falls inside the second character: the cut moves back to byte 3.
    assert_eq!(truncate_path("汉汉汉汉", 5), "...汉汉汉");
    assert_eq!(truncate_path("abcdef", 4), "...abcdef");
}

#[test]
fn system_and_program_modules_are_not_suspicious() {
    assert!(!is_suspicious_dll_path("C:\\Windows\\System32\\kernel32.dll"));
    assert!(!is_suspicious_dll_path("C:\\Users\\bob\\Program Files\\x.dll"));
    assert!(is_suspicious_dll_path("C:\\Users\\bob\\AppData\\Local\\Temp\\x.dll"));
    assert!(is_suspicious_dll_path("D:\\Downloads\\hook.dll"));
    assert!(!is_suspicious_dll_path("C:\\Program Files\\App\\app.dll"));
}

#[test]
fn at_most_three_findings_from_the_first_fifty_modules() {
    let mut paths = strings(&[
        "C:\\Windows\\System32\\ntdll.dll",
        "C:\\Users\\bob\\a.dll",
        "C:\\Program Files\\App\\b.dll",
        "C:\\temp\\c.dll",
    ]);
    let f = dll_risk_factors(&paths);
    assert_eq!(f.len(), 2);
    assert_eq!(f[0].name, "suspicious_dll");
    assert_eq!(f[0].weight, 10);
    assert_eq!(f[0].description, "加载可疑 DLL: C:\\Users\\bob\\a.dll");
    assert_eq!(f[1].description, "加载可疑 DLL: C:\\temp\\c.dll");

    paths.push("C:\\Users\\bob\\d.dll".to_string());
    paths.push("C:\\Users\\bob\\e.dll".to_string());
    assert_eq!(dll_risk_factors(&paths).len(), 3);

    let mut late: Vec<String> = (0..50).map(|i| format!("C:\\Program Files\\m{i}.dll")).collect();
    late.push("C:\\Users\\bob\\late.dll".to_string());
    assert!(dll_risk_factors(&late).is_empty());
}
