use kult_browser_backend_rust::config::{AuthConfig, TelegramConfig};
use kult_browser_backend_rust::error::AppError;
use kult_browser_backend_rust::game::{
    escape_regex, find_all_cap, find_all_should_stop, page_skip, search_pattern,
};
use kult_browser_backend_rust::json::{parse_json, JsonValue};
use kult_browser_backend_rust::numeric::{parse_i64, parse_u64};
use kult_browser_backend_rust::text::{lossy_string, str_equal, trim_str};

fn s(v: &str) -> Option<String> {
    Some(v.to_string())
}

#[test]
fn parse_i64_follows_from_str() {
    assert_eq!(parse_i64(b"42"), Some(42));
    assert_eq!(parse_i64(b"+42"), Some(42));
    assert_eq!(parse_i64(b"-42"), Some(-42));
    assert_eq!(parse_i64(b"-9223372036854775808"), Some(i64::MIN));
    assert_eq!(parse_i64(b"9223372036854775807"), Some(i64::MAX));
    assert_eq!(parse_i64(b"9223372036854775808"), None);
    assert_eq!(parse_i64(b""), None);
    assert_eq!(parse_i64(b"-"), None);
    assert_eq!(parse_i64(b"+"), None);
    assert_eq!(parse_i64(b" 1"), None);
    assert_eq!(parse_i64(b"1a"), None);
    assert_eq!(parse_i64(b"00012"), Some(12));
}

#[test]
fn parse_u64_follows_from_str() {
    assert_eq!(parse_u64(b"18446744073709551615"), Some(u64::MAX));
    assert_eq!(parse_u64(b"18446744073709551616"), None);
    assert_eq!(parse_u64(b"+7"), Some(7));
    assert_eq!(parse_u64(b"-1"), None);
    assert_eq!(parse_u64(b"-0"), None);
}

#[test]
fn trim_removes_unicode_whitespace() {
    assert_eq!(trim_str("  hi there\u{3000}\n"), "hi there");
    assert_eq!(trim_str("\u{a0}\u{2003}"), "");
    assert_eq!(trim_str("x"), "x");
    assert_eq!(trim_str("\u{200b}x"), "\u{200b}x");
}

#[test]
fn str_equal_compares_text() {
    assert!(str_equal("ton", "ton"));
    assert!(!str_equal("ton", "TON"));
    assert!(!str_equal("ton", "tonn"));
}

#[test]
fn lossy_string_replaces_invalid_bytes() {
    assert_eq!(lossy_string(&[0x66, 0xff]), "f\u{FFFD}");
    assert_eq!(lossy_string("é".as_bytes()), "é");
}

#[test]
fn telegram_config_trims_and_defaults() {
    let c = TelegramConfig::from_values(s("  tok  "), None, None, s("   "), s(" adm"));
    assert_eq!(c.bot_token, s("tok"));
    assert_eq!(c.mini_app_url, "https://kult-telegram-mrvv3.ondigitalocean.app/");
    assert_eq!(
        c.webhook_url,
        s("https://kult-browser-rust-l2lwg.ondigitalocean.app/api/telegram/webhook")
    );
    assert_eq!(c.webhook_secret_token, None);
    assert_eq!(c.admin_secret, s("adm"));
    assert!(c.enabled());
    let off = TelegramConfig::from_values(s(" "), s("https://x"), s("https://w"), None, None);
    assert!(!off.enabled());
    assert_eq!(off.mini_app_url, "https://x");
    assert_eq!(off.webhook_url, s("https://w"));
}

#[test]
fn auth_config_parses_and_defaults() {
    let c = AuthConfig::from_values(None, s("30"), None, None, s("137"), s(" app "), s("  "), None);
    assert_eq!(c.jwt_secret, "dev-secret-change-me");
    assert_eq!(c.jwt_expiration_days, 30);
    assert_eq!(c.siwe_domain, "app.kultgames.io");
    assert_eq!(c.siwe_uri, "https://app.kultgames.io");
    assert_eq!(c.siwe_chain_id, 137);
    assert_eq!(c.privy_app_id, s(" app "));
    assert_eq!(c.privy_verification_key_jwk, None);
    assert_eq!(c.privy_verification_key_pem, None);
    let d = AuthConfig::from_values(s("k"), s(" 30"), s("d"), s("u"), s("-1"), None, None, s("pem"));
    assert_eq!(d.jwt_secret, "k");
    assert_eq!(d.jwt_expiration_days, 7);
    assert_eq!(d.siwe_chain_id, 1);
    assert_eq!(d.privy_verification_key_pem, s("pem"));
}

#[test]
fn escape_regex_escapes_specials() {
    assert_eq!(escape_regex("a.b*c"), "a\\.b\\*c");
    assert_eq!(escape_regex("\\^$.|?*+()[]{}"), "\\\\\\^\\$\\.\\|\\?\\*\\+\\(\\)\\[\\]\\{\\}");
    assert_eq!(escape_regex("é-x"), "é-x");
}

#[test]
fn search_pattern_trims_and_escapes() {
    assert_eq!(search_pattern(Some("  x+y ")), s("(?i)x\\+y"));
    assert_eq!(search_pattern(Some("   ")), None);
    assert_eq!(search_pattern(None), None);
}

#[test]
fn find_all_limits() {
    assert_eq!(find_all_cap(None), 100);
    assert_eq!(find_all_cap(Some(5)), 5);
    assert_eq!(find_all_cap(Some(-1)), 0);
    assert_eq!(find_all_cap(Some(0)), 0);
    assert!(find_all_should_stop(0, 0));
    assert!(find_all_should_stop(5, 5));
    assert!(!find_all_should_stop(4, 5));
    assert_eq!(page_skip(20), 20);
    assert_eq!(page_skip(-1), u64::MAX);
}

#[test]
fn parse_json_builds_the_model() {
    match parse_json(r#"{"b":[1,"x",null,true],"a":2.5}"#) {
        Ok(JsonValue::Object(entries)) => {
            assert_eq!(entries.len(), 2);
            assert_eq!(entries[0].0, "a");
            assert!(matches!(&entries[0].1, JsonValue::Number(n) if n == "2.5"));
            match &entries[1].1 {
                JsonValue::Array(items) => {
                    assert_eq!(items.len(), 4);
                    assert!(matches!(&items[1], JsonValue::Str(x) if x == "x"));
                    assert!(matches!(&items[2], JsonValue::Null));
                    assert!(matches!(&items[3], JsonValue::Bool(true)));
                }
                _ => panic!("expected an array"),
            }
        }
        _ => panic!("expected an object"),
    }
    assert!(parse_json("{").is_err());
}

#[test]
fn app_error_carries_message() {
    let e = AppError::BadRequest("m".to_string());
    assert!(matches!(e, AppError::BadRequest(ref m) if m == "m"));
}
