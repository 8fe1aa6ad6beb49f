use kult_browser_backend_rust::player::{new_player_fields, trimmed_wallets};
use kult_browser_backend_rust::server::{
    cors_policy, fallback, health_check, CorsPolicy, RATE_LIMIT_BURST, RATE_LIMIT_REFILL_SECONDS,
    RATE_LIMIT_SWEEP_SECONDS,
};

fn strings(v: &[&str]) -> Vec<String> {
    v.iter().map(|s| s.to_string()).collect()
}

#[test]
fn health_is_ok_with_a_timestamp() {
    let h = health_check();
    assert!(h.ok);
    assert!(h.ts.contains('T'));
}

#[test]
fn unmatched_route_is_not_found() {
    let (status, body) = fallback();
    assert_eq!(status, 404);
    assert!(!body.ok);
    assert_eq!(body.message, "Route not found");
}

#[test]
fn single_wildcard_allows_any_origin() {
    assert!(matches!(cors_policy(&strings(&["*"])), CorsPolicy::AnyOrigin));
}

#[test]
fn listed_origins_are_kept() {
    match cors_policy(&strings(&["https://a.example", "https://b.example"])) {
        CorsPolicy::Origins(o) => assert_eq!(o, strings(&["https://a.example", "https://b.example"])),
        CorsPolicy::AnyOrigin => panic!("expected listed origins"),
    }
    match cors_policy(&strings(&["*", "https://a.example"])) {
        CorsPolicy::Origins(o) => assert_eq!(o.len(), 2),
        CorsPolicy::AnyOrigin => panic!("a wildcard among others is listed as is"),
    }
    match cors_policy(&strings(&[])) {
        CorsPolicy::Origins(o) => assert!(o.is_empty()),
        CorsPolicy::AnyOrigin => panic!("expected no origin"),
    }
    match cors_policy(&strings(&[" *"])) {
        CorsPolicy::Origins(o) => assert_eq!(o, strings(&[" *"])),
        CorsPolicy::AnyOrigin => panic!("only the exact wildcard allows any origin"),
    }
}

#[test]
fn rate_limit_settings() {
    assert_eq!(RATE_LIMIT_REFILL_SECONDS, 2);
    assert_eq!(RATE_LIMIT_BURST, 60);
    assert_eq!(RATE_LIMIT_SWEEP_SECONDS, 60);
}

#[test]
fn new_player_fields_are_trimmed() {
    assert_eq!(
        new_player_fields("  0xAbC ", "\tNeo  "),
        ("0xAbC".to_string(), "Neo".to_string())
    );
}

#[test]
fn wallets_are_trimmed_in_order() {
    assert_eq!(
        trimmed_wallets(&strings(&[" a ", "b", "\nc\t", "  "])),
        strings(&["a", "b", "c", ""])
    );
    assert!(trimmed_wallets(&[]).is_empty());
}

#[test]
fn openapi_security_scheme_is_jwt_bearer() {
    let s = kult_browser_backend_rust::openapi::SecurityAddon.security_scheme();
    assert_eq!(s.name, "bearer_auth");
    assert_eq!(s.scheme, "bearer");
    assert_eq!(s.bearer_format, "JWT");
}
