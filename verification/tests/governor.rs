use deck_optimizer::governor::{
    get_available_governors, governor_path, names_core, report_writes, set_cpu_governor, Applied,
    CpuEntry, GovernorWrite,
};
use deck_optimizer::modes::ApplyError;

fn entry(name: &str, has_governor_file: bool) -> CpuEntry {
    CpuEntry { name: name.to_string(), has_governor_file }
}

#[test]
fn catalog_lists_governors_in_file_order() {
    let content = "conservative ondemand userspace powersave performance schedutil \n";
    assert_eq!(
        get_available_governors(Some(content)),
        vec!["conservative", "ondemand", "userspace", "powersave", "performance", "schedutil"]
    );
}

#[test]
fn catalog_is_empty_without_the_kernel_interface() {
    assert_eq!(get_available_governors(None), Vec::<String>::new());
    assert_eq!(get_available_governors(Some("")), Vec::<String>::new());
    assert_eq!(get_available_governors(Some("\n")), Vec::<String>::new());
}

#[test]
fn core_names_are_cpu_and_a_number() {
    assert!(names_core("cpu0"));
    assert!(names_core("cpu7"));
    assert!(names_core("cpu127"));
    assert!(!names_core("cpu"));
    assert!(!names_core("cpufreq"));
    assert!(!names_core("cpuidle"));
    assert!(!names_core("cpu1a"));
    assert!(!names_core("xcpu1"));
    assert!(!names_core("CPU1"));
    assert!(!names_core(""));
    assert!(!names_core("cpu 1"));
}

#[test]
fn governor_path_lies_under_the_topology_root() {
    assert_eq!(governor_path("cpu3"), "/sys/devices/system/cpu/cpu3/cpufreq/scaling_governor");
}

#[test]
fn writes_go_to_every_core_with_a_governor_file() {
    let entries = vec![
        entry("cpu0", true),
        entry("cpufreq", true),
        entry("cpu1", false),
        entry("online", false),
        entry("cpu2", true),
    ];
    let writes = set_cpu_governor("schedutil", &entries);
    assert_eq!(
        writes,
        vec![
            GovernorWrite {
                path: "/sys/devices/system/cpu/cpu0/cpufreq/scaling_governor".to_string(),
                governor: "schedutil".to_string(),
            },
            GovernorWrite {
                path: "/sys/devices/system/cpu/cpu2/cpufreq/scaling_governor".to_string(),
                governor: "schedutil".to_string(),
            },
        ]
    );
    assert_eq!(set_cpu_governor("schedutil", &[]), Vec::<GovernorWrite>::new());
}

#[test]
fn all_cores_accepting_is_full_success() {
    let report = report_writes("ondemand".to_string(), &[true, true, true, true]);
    assert_eq!(
        report,
        Ok(Applied { governor: "ondemand".to_string(), accepted: 4, refused: 0 })
    );
    assert!(!report.unwrap().is_partial());
}

#[test]
fn some_cores_refusing_is_partial_success() {
    let report = report_writes("ondemand".to_string(), &[true, false, true, false, false]);
    assert_eq!(
        report,
        Ok(Applied { governor: "ondemand".to_string(), accepted: 2, refused: 3 })
    );
    assert!(report.unwrap().is_partial());
    let single = report_writes("ondemand".to_string(), &[false, true]).unwrap();
    assert!(single.is_partial());
    assert_eq!((single.accepted, single.refused), (1, 1));
}

#[test]
fn no_core_accepting_is_total_failure() {
    assert_eq!(
        report_writes("ondemand".to_string(), &[false, false]),
        Err(ApplyError::NoCoreAccepted)
    );
    assert_eq!(report_writes("ondemand".to_string(), &[]), Err(ApplyError::NoCoreAccepted));
}

#[test]
fn the_three_outcomes_are_told_apart() {
    let full = report_writes("g".to_string(), &[true, true]);
    let partial = report_writes("g".to_string(), &[true, false]);
    let failed = report_writes("g".to_string(), &[false, false]);
    assert_ne!(full, partial);
    assert_ne!(partial, failed);
    assert_ne!(full, failed);
}

#[test]
fn catalog_names_hold_no_white_space() {
    for name in get_available_governors(Some("\tondemand  performance\r\nschedutil\u{a0}x ")) {
        assert!(!name.is_empty());
        assert!(!name.chars().any(|c| c.is_whitespace()));
    }
    assert_eq!(
        get_available_governors(Some("\tondemand  performance\r\nschedutil\u{a0}x ")),
        vec!["ondemand", "performance", "schedutil", "x"]
    );
}
