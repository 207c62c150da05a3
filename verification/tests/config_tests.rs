use dragabyte::config::{
    AppSettings, AppSettingsUpdate, apply_settings_update, default_bind, get_arg_value, has_flag,
    resolve_headless, resolve_tcp, resolve_updater_enabled, startup_candidate, truthy,
    validate_tcp_binding,
};

fn args(v: &[&str]) -> Vec<String> {
    v.iter().map(|s| s.to_string()).collect()
}

#[test]
fn flags_and_values_are_found() {
    let a = args(&["prog", "--tcp", "--tcp-bind=0.0.0.0:5000"]);
    assert!(has_flag(&a, "--tcp"));
    assert!(!has_flag(&a, "--headless"));
    assert_eq!(get_arg_value(&a, "--tcp-bind"), Some("0.0.0.0:5000".to_string()));
    assert_eq!(get_arg_value(&a, "--tcp-token"), None);
    assert_eq!(get_arg_value(&args(&["--x="]), "--x"), Some(String::new()));
}

#[test]
fn truthy_values_are_one_true_yes() {
    assert!(truthy(&Some("1".to_string())));
    assert!(truthy(&Some("TRUE".to_string())));
    assert!(truthy(&Some("Yes".to_string())));
    assert!(!truthy(&Some("0".to_string())));
    assert!(!truthy(&Some("no".to_string())));
    assert!(!truthy(&None));
}

#[test]
fn startup_candidate_skips_flags() {
    assert_eq!(startup_candidate(&args(&["prog"])), None);
    assert_eq!(startup_candidate(&args(&["prog", "--headless"])), None);
    assert_eq!(startup_candidate(&args(&["prog", "/some/dir"])), Some("/some/dir".to_string()));
}

#[test]
fn settings_update_is_field_by_field() {
    let mut s = AppSettings::empty();
    s.local_token = Some("old".to_string());
    s.headless = Some(false);
    apply_settings_update(
        &mut s,
        AppSettingsUpdate {
            local_token: Some("new".to_string()),
            tcp_bind: None,
            headless: None,
            auto_update: Some(false),
        },
    );
    assert_eq!(s.local_token.as_deref(), Some("new"));
    assert_eq!(s.tcp_bind, None);
    assert_eq!(s.headless, Some(false));
    assert_eq!(s.auto_update, Some(false));
}

#[test]
fn tcp_resolution_follows_precedence() {
    let mut settings = AppSettings::empty();
    settings.tcp_bind = Some("set:1".to_string());
    settings.local_token = Some("settings-token".to_string());

    // CLI value wins over environment and settings.
    let r = resolve_tcp(
        &args(&["p", "--tcp-bind=cli:2", "--tcp-token=cli-token"]),
        Some("env:3".to_string()),
        Some("env-token".to_string()),
        &settings,
    );
    assert!(r.enabled);
    assert_eq!(r.bind_raw, "cli:2");
    assert_eq!(r.token.as_deref(), Some("cli-token"));

    // Environment wins over settings.
    let r = resolve_tcp(&args(&["p"]), Some("env:3".to_string()), None, &settings);
    assert_eq!(r.bind_raw, "env:3");
    assert_eq!(r.token.as_deref(), Some("settings-token"));

    // Settings alone enable serving.
    let r = resolve_tcp(&args(&["p"]), None, None, &settings);
    assert!(r.enabled);
    assert_eq!(r.bind_raw, "set:1");

    // Nothing configured: disabled, default bind.
    let r = resolve_tcp(&args(&["p"]), None, None, &AppSettings::empty());
    assert!(!r.enabled);
    assert_eq!(r.bind_raw, default_bind());
    assert_eq!(r.bind_raw, "127.0.0.1:4799");

    // The bare flag enables serving on the default address.
    let r = resolve_tcp(&args(&["p", "--tcp"]), None, None, &AppSettings::empty());
    assert!(r.enabled);
    assert_eq!(r.bind_raw, "127.0.0.1:4799");
}

#[test]
fn non_loopback_requires_a_token() {
    assert!(validate_tcp_binding(true, &None));
    assert!(validate_tcp_binding(false, &Some("t".to_string())));
    assert!(!validate_tcp_binding(false, &None));
}

#[test]
fn headless_and_updater_resolution() {
    let mut settings = AppSettings::empty();
    assert!(!resolve_headless(&args(&["p"]), &None, &settings));
    assert!(resolve_headless(&args(&["p", "--headless"]), &None, &settings));
    assert!(resolve_headless(&args(&["p"]), &Some("1".to_string()), &settings));
    settings.headless = Some(true);
    assert!(resolve_headless(&args(&["p"]), &None, &settings));

    let settings = AppSettings::empty();
    assert!(resolve_updater_enabled(&args(&["p"]), &None, &settings));
    assert!(!resolve_updater_enabled(&args(&["p", "--disable-updater"]), &None, &settings));
    assert!(!resolve_updater_enabled(&args(&["p"]), &Some("true".to_string()), &settings));
    let mut settings = AppSettings::empty();
    settings.auto_update = Some(false);
    assert!(!resolve_updater_enabled(&args(&["p"]), &None, &settings));
}
