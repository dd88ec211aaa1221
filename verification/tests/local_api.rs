use loa_logs::local_api_http::{parse_character_names, plan_cors, CorsPlan};
use loa_logs::local_api::{
    check_auth, constant_time_eq, is_origin_allowed, plan_reconcile, LocalApiSettings, ReconcilePlan, RunningConfig,
};

fn settings(enabled: bool, port: u16, token: &str, origins: &[&str]) -> LocalApiSettings {
    LocalApiSettings {
        enabled,
        port,
        token: token.to_string(),
        allowed_origins: origins.iter().map(|o| o.to_string()).collect(),
    }
}

fn running(port: u16, token: &str, origins: &[&str]) -> RunningConfig {
    RunningConfig { port, token: token.to_string(), allowed_origins: origins.iter().map(|o| o.to_string()).collect() }
}

#[test]
fn constant_time_eq_compares_whole_byte_strings() {
    assert!(constant_time_eq(b"secret", b"secret"));
    assert!(!constant_time_eq(b"secret", b"secreT"));
    assert!(!constant_time_eq(b"secret", b"secrets"));
    assert!(constant_time_eq(b"", b""));
}

#[test]
fn check_auth_accepts_only_the_bearer_token() {
    assert!(check_auth(Some("Bearer abc123"), "abc123"));
    assert!(!check_auth(Some("Bearer abc124"), "abc123"));
    assert!(!check_auth(Some("abc123"), "abc123"));
    assert!(!check_auth(Some("bearer abc123"), "abc123"));
    assert!(!check_auth(None, "abc123"));
}

#[test]
fn check_auth_refuses_everything_without_a_token() {
    assert!(!check_auth(Some("Bearer "), ""));
    assert!(!check_auth(None, ""));
    assert!(!check_auth(Some(""), ""));
}

#[test]
fn origins_are_allowed_only_when_listed() {
    let allowed = vec!["http://localhost:3000".to_string(), "https://example.org".to_string()];
    assert!(is_origin_allowed(&allowed, "https://example.org"));
    assert!(!is_origin_allowed(&allowed, "https://example.org/"));
    assert!(!is_origin_allowed(&[], "http://localhost:3000"));
}

#[test]
fn reconcile_keeps_a_server_with_the_same_configuration() {
    let cfg = settings(true, 8080, "tok", &["a"]);
    let run = running(8080, "tok", &["a"]);
    assert!(matches!(plan_reconcile(&cfg, Some(&run)), ReconcilePlan::Keep));
}

#[test]
fn reconcile_restarts_on_a_changed_configuration() {
    let cfg = settings(true, 8080, "tok", &["a"]);
    assert!(matches!(plan_reconcile(&cfg, Some(&running(8081, "tok", &["a"]))), ReconcilePlan::Restart));
    assert!(matches!(plan_reconcile(&cfg, Some(&running(8080, "other", &["a"]))), ReconcilePlan::Restart));
    assert!(matches!(plan_reconcile(&cfg, Some(&running(8080, "tok", &["a", "b"]))), ReconcilePlan::Restart));
    assert!(matches!(plan_reconcile(&cfg, None), ReconcilePlan::Restart));
}

#[test]
fn reconcile_stops_with_an_error_when_no_token_is_configured() {
    let cfg = settings(true, 8080, "", &[]);
    match plan_reconcile(&cfg, Some(&running(8080, "", &[]))) {
        ReconcilePlan::Stop { error } => assert_eq!(error.as_deref(), Some("no token configured")),
        _ => panic!("expected a stop"),
    }
}

#[test]
fn reconcile_stops_quietly_when_disabled_or_without_port() {
    for cfg in [settings(false, 8080, "tok", &[]), settings(true, 0, "tok", &[])] {
        match plan_reconcile(&cfg, Some(&running(8080, "tok", &[]))) {
            ReconcilePlan::Stop { error } => assert!(error.is_none()),
            _ => panic!("expected a stop"),
        }
    }
}

#[test]
fn character_names_are_split_trimmed_and_filtered() {
    assert_eq!(parse_character_names(Some(" Alice , ,Bob,")), vec!["Alice".to_string(), "Bob".to_string()]);
    assert_eq!(parse_character_names(Some("Zed")), vec!["Zed".to_string()]);
    assert_eq!(parse_character_names(Some("\tA b\n,")), vec!["A b".to_string()]);
    assert!(parse_character_names(Some("")).is_empty());
    assert!(parse_character_names(Some(" , ")).is_empty());
    assert!(parse_character_names(None).is_empty());
}

#[test]
fn preflights_are_answered_only_for_allowed_origins() {
    let allowed = vec!["https://neria.dev".to_string()];
    match plan_cors(true, Some("https://neria.dev"), &allowed, Some("TRUE")) {
        CorsPlan::Preflight { origin, allow_private_network } => {
            assert_eq!(origin, "https://neria.dev");
            assert!(allow_private_network);
        }
        _ => panic!("expected a preflight answer"),
    }
    match plan_cors(true, Some("https://neria.dev"), &allowed, None) {
        CorsPlan::Preflight { allow_private_network, .. } => assert!(!allow_private_network),
        _ => panic!("expected a preflight answer"),
    }
    assert!(matches!(plan_cors(true, Some("https://evil.example"), &allowed, Some("true")), CorsPlan::Forbidden));
    assert!(matches!(plan_cors(true, None, &allowed, None), CorsPlan::Forbidden));
}

#[test]
fn other_requests_reflect_only_allowed_origins() {
    let allowed = vec!["https://neria.dev".to_string()];
    match plan_cors(false, Some("https://neria.dev"), &allowed, None) {
        CorsPlan::Forward { reflect_origin } => assert_eq!(reflect_origin.as_deref(), Some("https://neria.dev")),
        _ => panic!("expected a forward"),
    }
    match plan_cors(false, Some("https://other.example"), &allowed, None) {
        CorsPlan::Forward { reflect_origin } => assert!(reflect_origin.is_none()),
        _ => panic!("expected a forward"),
    }
}

#[test]
fn unicode_white_space_is_trimmed_from_names() {
    assert_eq!(parse_character_names(Some("\u{3000}Zed\u{2009},\u{85}")), vec!["Zed".to_string()]);
    assert_eq!(parse_character_names(Some("A\u{200B}")), vec!["A\u{200B}".to_string()]);
}
