use cc_switch_auth::auth_browser::{
    auth_code_from_url, autofill_credentials, autofill_script, new_window_label, user_agent_for,
    AuthBrowserConfig, AuthWindows, NavigationObservation, NavigationStep, NavigationWatch,
    TargetOs, AUTH_BROWSER_LABEL_PREFIX, url_is_valid,
};

fn s(v: &str) -> String {
    v.to_string()
}

#[test]
fn github_configs() {
    let c = AuthBrowserConfig::github_oauth("https://github.com/login/device");
    assert_eq!(c.url, "https://github.com/login/device");
    assert_eq!(c.title, "GitHub 登录");
    assert_eq!(c.provider, "github");
    assert_eq!(c.success_url_pattern.as_deref(), Some("github.com/login/device/success"));
    assert!(c.enable_autofill);
    assert!(c.prefill_username.is_none() && c.prefill_password.is_none());
    let c = AuthBrowserConfig::github_copilot("https://v").with_credentials(Some(s("me")), None);
    assert_eq!(c.title, "GitHub Copilot 授权");
    assert_eq!(c.provider, "github_copilot");
    assert_eq!(c.prefill_username.as_deref(), Some("me"));
    assert!(c.prefill_password.is_none());
}

#[test]
fn autofill_only_with_something_to_fill() {
    let c = AuthBrowserConfig::github_oauth("u");
    assert!(autofill_credentials(&c).is_none());
    let c = c.with_credentials(None, Some(s("pw")));
    assert_eq!(autofill_credentials(&c), Some((s(""), s("pw"))));
    let mut off = AuthBrowserConfig::github_oauth("u").with_credentials(Some(s("me")), Some(s("pw")));
    off.enable_autofill = false;
    assert!(autofill_credentials(&off).is_none());
}

#[test]
fn autofill_script_inserts_values() {
    let script = autofill_script("alice", "p@ss");
    assert_eq!(script.matches("'alice'").count(), 2);
    assert_eq!(script.matches("'p@ss'").count(), 2);
    assert!(script.contains("usernameInput.value = 'alice';"));
    assert!(script.contains("passwordInput.value = 'p@ss';"));
    assert!(script.contains("input#login_field"));
    assert!(script.trim_start().starts_with("(function() {"));
}

#[test]
fn user_agents_per_platform() {
    assert!(user_agent_for(TargetOs::Windows).contains("Windows NT 10.0"));
    assert!(user_agent_for(TargetOs::Linux).contains("X11; Linux x86_64"));
    assert!(user_agent_for(TargetOs::MacOs).contains("Macintosh"));
}

#[test]
fn labels_are_prefixed_and_fresh() {
    let a = new_window_label();
    let b = new_window_label();
    assert!(a.starts_with(AUTH_BROWSER_LABEL_PREFIX));
    assert_eq!(a.len(), AUTH_BROWSER_LABEL_PREFIX.len() + 36);
    assert_ne!(a, b);
}

#[test]
fn window_record() {
    let mut w = AuthWindows::new();
    assert!(w.labels().is_empty());
    w.insert(s("l1"), AuthBrowserConfig::github_oauth("a"));
    w.insert(s("l2"), AuthBrowserConfig::github_copilot("b"));
    w.insert(s("l3"), AuthBrowserConfig::github_oauth("c"));
    assert_eq!(w.get("l2").unwrap().url, "b");
    let mut gh = w.labels_for_provider("github");
    gh.sort();
    assert_eq!(gh, vec![s("l1"), s("l3")]);
    assert_eq!(w.labels_for_provider("github_copilot"), vec![s("l2")]);
    assert!(w.labels_for_provider("none").is_empty());
    w.insert(s("l1"), AuthBrowserConfig::github_copilot("d"));
    assert_eq!(w.get("l1").unwrap().url, "d");
    assert_eq!(w.labels().len(), 3);
    let removed = w.remove("l1").unwrap();
    assert_eq!(removed.url, "d");
    assert!(w.get("l1").is_none());
    assert!(w.remove("l1").is_none());
    let mut all = w.labels();
    all.sort();
    assert_eq!(all, vec![s("l2"), s("l3")]);
}

#[test]
fn auth_code_extraction() {
    assert_eq!(auth_code_from_url("https://github.com/login/device/success?code=abc&x=1"), Some(s("abc")));
    assert_eq!(auth_code_from_url("https://x.test/?state=1&code=a%20b&code=second"), Some(s("a b")));
    assert_eq!(auth_code_from_url("https://x.test/?state=1"), None);
    assert_eq!(auth_code_from_url("not a url"), None);
}

#[test]
fn watch_gives_up_after_600_checks() {
    let mut w = NavigationWatch::new(s("done"));
    for _ in 0..600 {
        assert!(w.tick());
    }
    assert!(!w.tick());
    assert!(!w.tick());
}

#[test]
fn watch_reports_changes_and_completion() {
    let mut w = NavigationWatch::new(s("github.com/login/device/success"));
    assert!(matches!(w.observe(NavigationObservation::UrlUnavailable), NavigationStep::Unchanged));
    match w.observe(NavigationObservation::Url(s("https://github.com/login/device"))) {
        NavigationStep::UrlChanged { url } => assert_eq!(url, "https://github.com/login/device"),
        other => panic!("unexpected {other:?}"),
    }
    assert!(matches!(
        w.observe(NavigationObservation::Url(s("https://github.com/login/device"))),
        NavigationStep::Unchanged
    ));
    match w.observe(NavigationObservation::Url(s("https://github.com/login/device/success?code=xyz"))) {
        NavigationStep::Completed { url, code } => {
            assert_eq!(url, "https://github.com/login/device/success?code=xyz");
            assert_eq!(code.as_deref(), Some("xyz"));
        }
        other => panic!("unexpected {other:?}"),
    }
    assert!(matches!(w.observe(NavigationObservation::WindowGone), NavigationStep::WindowClosed));
}

#[test]
fn only_parsable_urls_are_valid() {
    assert!(url_is_valid("https://github.com/login/device"));
    assert!(!url_is_valid("not a url"));
    assert!(!url_is_valid(""));
}
