use hyprsnipe_checker::config::{
    build_headers, client_config, default_user_agent_text, plan_headers, ConfigError,
    CONNECT_TIMEOUT_SECS, TIMEOUT_SECS,
};
use reqwest::header::{COOKIE, USER_AGENT};

fn some(text: &str) -> Option<String> {
    Some(text.to_string())
}

#[test]
fn the_default_user_agent_names_the_checker() {
    assert_eq!(default_user_agent_text(), "hyprsnipe-checker/0.1");
}

#[test]
fn a_cookie_is_trimmed_and_a_user_agent_is_not() {
    let plan = plan_headers(some("  sid=1; x=2 \n"), some(" agent "));
    assert_eq!(plan.cookie, some("sid=1; x=2"));
    assert_eq!(plan.user_agent, " agent ");
}

#[test]
fn a_blank_cookie_is_not_sent() {
    assert_eq!(plan_headers(some(" \t "), None).cookie, None);
    assert_eq!(plan_headers(some(""), None).cookie, None);
    assert_eq!(plan_headers(None, None).cookie, None);
    assert_eq!(plan_headers(None, None).user_agent, "hyprsnipe-checker/0.1");
}

#[test]
fn an_empty_user_agent_is_sent_as_given() {
    assert_eq!(plan_headers(None, some("")).user_agent, "");
    let headers = build_headers(None, some("")).unwrap();
    assert_eq!(headers.get(USER_AGENT).unwrap().as_bytes(), b"");
}

#[test]
fn headers_hold_the_cookie_and_the_user_agent() {
    let headers = build_headers(some(" sid=1 "), some("probe/2")).unwrap();
    assert_eq!(headers.len(), 2);
    assert_eq!(headers.get(COOKIE).unwrap().as_bytes(), b"sid=1");
    assert_eq!(headers.get(USER_AGENT).unwrap().as_bytes(), b"probe/2");
}

#[test]
fn headers_without_a_cookie_hold_the_user_agent_alone() {
    let headers = build_headers(some("   "), None).unwrap();
    assert_eq!(headers.len(), 1);
    assert!(headers.get(COOKIE).is_none());
    assert_eq!(headers.get(USER_AGENT).unwrap().as_bytes(), b"hyprsnipe-checker/0.1");
}

#[test]
fn header_values_may_hold_tabs_and_bytes_above_ascii() {
    let headers = build_headers(some("a\tb"), some("caf\u{e9}")).unwrap();
    assert_eq!(headers.get(COOKIE).unwrap().as_bytes(), b"a\tb");
    assert_eq!(headers.get(USER_AGENT).unwrap().as_bytes(), "caf\u{e9}".as_bytes());
}

#[test]
fn a_cookie_with_a_control_character_is_refused() {
    assert_eq!(build_headers(some("a\u{1}b"), None).unwrap_err(), ConfigError::InvalidCookie);
    assert_eq!(build_headers(some("a\nb"), some("ok")).unwrap_err(), ConfigError::InvalidCookie);
    assert_eq!(build_headers(some("a\u{7f}"), None).unwrap_err(), ConfigError::InvalidCookie);
}

#[test]
fn a_user_agent_with_a_control_character_is_refused() {
    assert_eq!(build_headers(None, some("a\nb")).unwrap_err(), ConfigError::InvalidUserAgent);
    assert_eq!(
        build_headers(some("sid=1"), some("\u{0}")).unwrap_err(),
        ConfigError::InvalidUserAgent
    );
}

#[test]
fn a_bad_cookie_is_reported_before_a_bad_user_agent() {
    assert_eq!(build_headers(some("a\rb"), some("c\rd")).unwrap_err(), ConfigError::InvalidCookie);
}

#[test]
fn a_configuration_needs_a_base_url() {
    let error = client_config(None, some("sid=1"), None).err();
    assert_eq!(error, Some(ConfigError::MissingBaseUrl));
    let error = client_config(None, some("a\nb"), some("\n")).err();
    assert_eq!(error, Some(ConfigError::MissingBaseUrl));
}

#[test]
fn a_configuration_holds_the_base_url_the_headers_and_the_timeouts() {
    let config = match client_config(some("http://h/c/"), some("sid=1"), None) {
        Ok(config) => config,
        Err(error) => panic!("no configuration: {error:?}"),
    };
    assert_eq!(config.base_url, "http://h/c/");
    assert_eq!(config.headers.get(COOKIE).unwrap().as_bytes(), b"sid=1");
    assert_eq!(config.headers.get(USER_AGENT).unwrap().as_bytes(), b"hyprsnipe-checker/0.1");
    assert_eq!(config.timeout_secs, 15);
    assert_eq!(config.connect_timeout_secs, 10);
    assert_eq!(TIMEOUT_SECS, 15);
    assert_eq!(CONNECT_TIMEOUT_SECS, 10);
}

#[test]
fn a_configuration_with_a_bad_header_is_refused() {
    let error = client_config(some("http://h/"), some("a\nb"), None).err();
    assert_eq!(error, Some(ConfigError::InvalidCookie));
    let error = client_config(some("http://h/"), None, some("a\nb")).err();
    assert_eq!(error, Some(ConfigError::InvalidUserAgent));
}
