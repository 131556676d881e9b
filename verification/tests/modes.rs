use deck_optimizer::modes::{
    apply_mode, find_first_match, is_available, reset_to_default, ApplyError, Mode,
};

fn catalog(names: &[&str]) -> Vec<String> {
    names.iter().map(|n| n.to_string()).collect()
}

#[test]
fn balanced_takes_first_preference_present() {
    let available = catalog(&["ondemand", "performance"]);
    assert_eq!(apply_mode(&Mode::Balanced, &available), Ok("ondemand".to_string()));
}

#[test]
fn battery_saver_fails_without_its_governors() {
    let available = catalog(&["performance"]);
    assert_eq!(
        apply_mode(&Mode::BatterySaver, &available),
        Err(ApplyError::NoCompatibleGovernor)
    );
}

#[test]
fn mode_names_ignore_case() {
    assert_eq!(Mode::from_str("BATTERY"), Some(Mode::BatterySaver));
    assert_eq!(Mode::from_str("Saver"), Some(Mode::BatterySaver));
    assert_eq!(Mode::from_str("balanced"), Some(Mode::Balanced));
    assert_eq!(Mode::from_str("PerFormance"), Some(Mode::Performance));
    assert_eq!(Mode::from_str("Conservative"), Some(Mode::Custom("conservative".to_string())));
}

#[test]
fn first_match_follows_preference_order() {
    let available = catalog(&["performance", "schedutil", "powersave"]);
    assert_eq!(
        find_first_match(&available, &["powersave", "schedutil"]),
        Some("powersave".to_string())
    );
    assert_eq!(find_first_match(&available, &["ondemand"]), None);
}

#[test]
fn reset_prefers_ondemand() {
    let available = catalog(&["performance", "powersave", "ondemand"]);
    assert_eq!(reset_to_default(&available), Ok("ondemand".to_string()));
    assert_eq!(reset_to_default(&[]), Err(ApplyError::NoCompatibleGovernor));
}

const GOVERNORS: [&str; 6] =
    ["conservative", "ondemand", "userspace", "powersave", "performance", "schedutil"];

fn every_catalog() -> Vec<Vec<String>> {
    let mut all = Vec::new();
    for mask in 0u32..64 {
        let mut names = Vec::new();
        for (bit, name) in GOVERNORS.iter().enumerate() {
            if mask & (1 << bit) != 0 {
                names.push(name.to_string());
            }
        }
        all.push(names);
    }
    all
}

fn expected(available: &[String], preferred: &[&str]) -> Result<String, ApplyError> {
    for p in preferred {
        if available.iter().any(|a| a == p) {
            return Ok(p.to_string());
        }
    }
    Err(ApplyError::NoCompatibleGovernor)
}

#[test]
fn named_modes_select_only_from_their_preferences_and_the_catalog() {
    let modes: [(Mode, &[&str]); 3] = [
        (Mode::BatterySaver, &["powersave", "schedutil"]),
        (Mode::Balanced, &["ondemand", "schedutil"]),
        (Mode::Performance, &["performance"]),
    ];
    for available in every_catalog() {
        for (mode, preferred) in &modes {
            let result = apply_mode(mode, &available);
            assert_eq!(result, expected(&available, preferred));
            if let Ok(governor) = result {
                assert!(preferred.contains(&governor.as_str()));
                assert!(available.contains(&governor));
            }
        }
        assert_eq!(
            reset_to_default(&available),
            expected(&available, &["ondemand", "schedutil", "powersave", "performance"])
        );
    }
}

#[test]
fn custom_mode_wants_its_governor_in_the_catalog() {
    let available = catalog(&["ondemand", "userspace"]);
    assert_eq!(
        apply_mode(&Mode::Custom("userspace".to_string()), &available),
        Ok("userspace".to_string())
    );
    assert_eq!(
        apply_mode(&Mode::Custom("Userspace".to_string()), &available),
        Err(ApplyError::NoCompatibleGovernor)
    );
    assert_eq!(
        apply_mode(&Mode::Custom("performance".to_string()), &available),
        Err(ApplyError::NoCompatibleGovernor)
    );
    assert_eq!(
        apply_mode(&Mode::Custom(String::new()), &available),
        Err(ApplyError::NoCompatibleGovernor)
    );
}

#[test]
fn empty_catalog_fails_every_mode() {
    let modes = [
        Mode::BatterySaver,
        Mode::Balanced,
        Mode::Performance,
        Mode::Custom("performance".to_string()),
        Mode::Custom(String::new()),
    ];
    for mode in &modes {
        assert_eq!(apply_mode(mode, &[]), Err(ApplyError::NoCompatibleGovernor));
    }
    assert_eq!(reset_to_default(&[]), Err(ApplyError::NoCompatibleGovernor));
}

#[test]
fn lowercased_names_give_their_modes() {
    assert_eq!(Mode::from_lowercase("battery".to_string()), Mode::BatterySaver);
    assert_eq!(Mode::from_lowercase("saver".to_string()), Mode::BatterySaver);
    assert_eq!(Mode::from_lowercase("balanced".to_string()), Mode::Balanced);
    assert_eq!(Mode::from_lowercase("performance".to_string()), Mode::Performance);
    assert_eq!(Mode::from_lowercase("Balanced".to_string()), Mode::Custom("Balanced".to_string()));
    assert_eq!(Mode::from_lowercase(String::new()), Mode::Custom(String::new()));
    assert_eq!(Mode::from_lowercase("gaming".to_string()), Mode::Custom("gaming".to_string()));
}

#[test]
fn mode_names_are_lowercased_by_unicode_rules() {
    assert_eq!(Mode::from_str("ÄB"), Some(Mode::Custom("äb".to_string())));
    assert_eq!(Mode::from_str(""), Some(Mode::Custom(String::new())));
    assert_eq!(Mode::from_str(" balanced"), Some(Mode::Custom(" balanced".to_string())));
}

#[test]
fn availability_is_exact_membership() {
    let available = catalog(&["ondemand", "performance"]);
    assert!(is_available(&available, "ondemand"));
    assert!(is_available(&available, "performance"));
    assert!(!is_available(&available, "perform"));
    assert!(!is_available(&available, "Ondemand"));
    assert!(!is_available(&[], "ondemand"));
}
