use hostenv::{find_config, select_config, system_config_path, HostFamily};

#[test]
fn system_fallback_location_by_family() {
    assert_eq!(system_config_path(HostFamily::Linux), "/etc/spotifyd.conf");
    assert_eq!(system_config_path(HostFamily::MacOs), "/etc/spotifyd.conf");
    assert_eq!(system_config_path(HostFamily::Bsd), "/usr/local/etc/spotifyd.conf");
}

#[test]
fn user_candidate_is_preferred_over_fallback() {
    let user = Some(String::from("/home/u/.config/spotifyd/spotifyd.conf"));
    assert_eq!(select_config(&user, true, HostFamily::Linux), user);
    assert_eq!(select_config(&user, false, HostFamily::Linux), user);
}

#[test]
fn fallback_stands_only_as_a_regular_file() {
    assert_eq!(
        select_config(&None, true, HostFamily::Linux),
        Some(String::from("/etc/spotifyd.conf"))
    );
    assert_eq!(
        select_config(&None, true, HostFamily::Bsd),
        Some(String::from("/usr/local/etc/spotifyd.conf"))
    );
}

#[test]
fn nothing_found_is_a_normal_outcome() {
    assert_eq!(select_config(&None, false, HostFamily::Linux), None);
    assert_eq!(select_config(&None, false, HostFamily::MacOs), None);
    assert_eq!(select_config(&None, false, HostFamily::Bsd), None);
}

#[test]
fn an_existing_fallback_guarantees_an_answer() {
    let r = find_config(true, HostFamily::Linux);
    assert!(r.is_some());
}
