use hostenv::{select_shell, shell_from_directory_service, shell_from_user_database,
    CommandOutcome, HostFamily};

fn sample_database() -> Vec<String> {
    vec![
        String::from("root:x:0:0:root:/root:/bin/bash"),
        String::from("daemon:x:1:1:daemon:/usr/sbin:/usr/sbin/nologin"),
        String::from("alice:x:1000:1000:Alice:/home/alice:/bin/zsh"),
    ]
}

#[test]
fn env_preference_wins_verbatim() {
    let env = Some(String::from("not even a path"));
    let r = select_shell(HostFamily::Linux, &env, &None, &None, &None);
    assert_eq!(r, Some(String::from("not even a path")));
    let r = select_shell(HostFamily::MacOs, &env, &None, &None, &None);
    assert_eq!(r, Some(String::from("not even a path")));
}

#[test]
fn user_database_supplies_shell_when_env_unset() {
    let user = Some(String::from("alice"));
    let db = Some(sample_database());
    let r = select_shell(HostFamily::Linux, &None, &user, &db, &None);
    assert_eq!(r, Some(String::from("/bin/zsh")));
    let r = select_shell(HostFamily::Bsd, &None, &user, &db, &None);
    assert_eq!(r, Some(String::from("/bin/zsh")));
}

#[test]
fn user_database_first_match_wins() {
    let db = Some(vec![
        String::from("alice:x:1000:1000:Alice:/home/alice:/bin/zsh"),
        String::from("alice:x:1001:1001:Alias:/home/alias:/bin/sh"),
    ]);
    let r = shell_from_user_database(&Some(String::from("alice")), &db);
    assert_eq!(r, Some(String::from("/bin/zsh")));
}

#[test]
fn user_database_short_record_stops_the_scan() {
    let db = Some(vec![
        String::from("alice:x:1000"),
        String::from("alice:x:1000:1000:Alice:/home/alice:/bin/zsh"),
    ]);
    let r = shell_from_user_database(&Some(String::from("alice")), &db);
    assert_eq!(r, None);
}

#[test]
fn user_database_empty_shell_field_is_returned() {
    let db = Some(vec![String::from("alice:x:1000:1000:Alice:/home/alice:")]);
    let r = shell_from_user_database(&Some(String::from("alice")), &db);
    assert_eq!(r, Some(String::new()));
}

#[test]
fn user_database_needs_username_and_database() {
    assert_eq!(shell_from_user_database(&None, &Some(sample_database())), None);
    assert_eq!(shell_from_user_database(&Some(String::from("alice")), &None), None);
    let r = shell_from_user_database(&Some(String::from("nobody")), &Some(sample_database()));
    assert_eq!(r, None);
}

#[test]
fn directory_service_parses_the_shell_attribute() {
    let out = Some(CommandOutcome {
        success: true,
        stdout: String::from("UserShell: /bin/zsh\n"),
    });
    let r = shell_from_directory_service(&Some(String::from("alice")), &out);
    assert_eq!(r, Some(String::from("/bin/zsh")));
}

#[test]
fn directory_service_rejects_other_output() {
    let user = Some(String::from("alice"));
    let failed = Some(CommandOutcome {
        success: false,
        stdout: String::from("UserShell: /bin/zsh\n"),
    });
    assert_eq!(shell_from_directory_service(&user, &failed), None);
    let wrong_prefix = Some(CommandOutcome {
        success: true,
        stdout: String::from("Shell: /bin/zsh\n"),
    });
    assert_eq!(shell_from_directory_service(&user, &wrong_prefix), None);
    let no_token = Some(CommandOutcome {
        success: true,
        stdout: String::from("UserShell: "),
    });
    assert_eq!(shell_from_directory_service(&user, &no_token), None);
    assert_eq!(shell_from_directory_service(&None, &failed), None);
    assert_eq!(shell_from_directory_service(&user, &None), None);
}

#[test]
fn families_do_not_fall_through_to_each_other() {
    // On macOS the user database is never consulted, and elsewhere the
    // directory service is never consulted, even when the other source would
    // have answered.
    let user = Some(String::from("alice"));
    let db = Some(sample_database());
    let out = Some(CommandOutcome {
        success: true,
        stdout: String::from("UserShell: /bin/zsh\n"),
    });
    assert_eq!(select_shell(HostFamily::MacOs, &None, &user, &db, &None), None);
    assert_eq!(select_shell(HostFamily::Linux, &None, &user, &None, &out), None);
}
