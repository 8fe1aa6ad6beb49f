use hmac::{Hmac, Mac};
use kult_browser_backend_rust::crypto::hmac_sha256;
use kult_browser_backend_rust::init_data::{
    init_data_is_decodable, is_percent_decodable, parse_init_data, percent_decode,
    verify_telegram_init_data, verify_telegram_init_data_at,
};
use sha2::Sha256;

fn mac(key: &[u8], msg: &[u8]) -> Vec<u8> {
    let mut m = <Hmac<Sha256> as Mac>::new_from_slice(key).unwrap();
    m.update(msg);
    m.finalize().into_bytes().to_vec()
}

fn hex(b: &[u8]) -> String {
    b.iter().map(|x| format!("{:02x}", x)).collect()
}

/// The hash Telegram computes for pairs given as a data-check-string.
fn telegram_hash(data_check: &str, token: &str) -> String {
    let secret = mac(b"WebAppData", token.as_bytes());
    hex(&mac(&secret, data_check.as_bytes()))
}

const TOKEN: &str = "123456:ABC-DEF";
const USER: &str = r#"{"id":42,"first_name":"Ann","username":"ann"}"#;
const USER_ENCODED: &str = "%7B%22id%22%3A42%2C%22first_name%22%3A%22Ann%22%2C%22username%22%3A%22ann%22%7D";

fn signed_init_data(auth_date: i64) -> String {
    let check = format!("auth_date={}\nquery_id=AAA\nuser={}", auth_date, USER);
    let hash = telegram_hash(&check, TOKEN);
    format!("user={}&query_id=AAA&auth_date={}&hash={}", USER_ENCODED, auth_date, hash)
}

#[test]
fn hmac_matches_rfc4231_case_2() {
    let tag = hmac_sha256(b"Jefe", b"what do ya want for nothing?");
    assert_eq!(
        hex(&tag),
        "5bdcc146bf60754e6a042426089575c75a003f089d2739839dec58b964ec3843"
    );
}

#[test]
fn percent_decode_escapes_and_plus() {
    assert_eq!(percent_decode(b"a%20b+c"), "a b c");
    assert_eq!(percent_decode(b"%7B%22x%22%7D"), "{\"x\"}");
    assert_eq!(percent_decode(b"%zz"), "%zz");
    assert_eq!(percent_decode(b"100%"), "100%");
    assert_eq!(percent_decode(b"%4"), "%4");
    assert_eq!(percent_decode(b"%41%4a%4A"), "AJJ");
}

#[test]
fn percent_followed_by_a_sign_is_not_an_escape() {
    assert_eq!(percent_decode(b"%+1"), "% 1");
    assert_eq!(percent_decode(b"%-1x"), "%-1x");
}

#[test]
fn percent_decode_invalid_utf8_is_replaced() {
    assert_eq!(percent_decode(b"a%FFb"), "a\u{FFFD}b");
}

#[test]
fn percent_decode_keeps_non_ascii() {
    let s = "%\u{e9}";
    assert!(is_percent_decodable(s.as_bytes()));
    assert_eq!(percent_decode(s.as_bytes()), "%\u{e9}");
}

#[test]
fn slicing_inside_a_character_is_not_decodable() {
    // slicing "a" plus half of "é" here would panic
    assert!(!is_percent_decodable("%a\u{e9}".as_bytes()));
    assert!(!init_data_is_decodable("k=%a\u{e9}"));
    assert!(init_data_is_decodable("k=%41&x=%\u{e9}"));
}

#[test]
fn parse_init_data_keeps_empty_pieces() {
    let pairs = parse_init_data("a=1&b=2=3&&c");
    assert_eq!(
        pairs,
        vec![
            ("a".to_string(), "1".to_string()),
            ("b".to_string(), "2=3".to_string()),
            ("".to_string(), "".to_string()),
            ("c".to_string(), "".to_string()),
        ]
    );
    assert_eq!(parse_init_data(""), vec![("".to_string(), "".to_string())]);
}

#[test]
fn signed_data_is_accepted() {
    let now = 1_700_000_000;
    let data = signed_init_data(now - 60);
    assert_eq!(verify_telegram_init_data_at(&data, TOKEN, now), Ok(USER.to_string()));
}

#[test]
fn signed_data_at_the_current_time_is_accepted() {
    let now = chrono::Utc::now().timestamp();
    let data = signed_init_data(now);
    assert_eq!(verify_telegram_init_data(&data, TOKEN), Ok(USER.to_string()));
}

#[test]
fn wrong_token_is_rejected() {
    let now = 1_700_000_000;
    let data = signed_init_data(now);
    assert_eq!(
        verify_telegram_init_data_at(&data, "other-token", now),
        Err("Telegram initData HMAC verification failed — invalid or tampered data".to_string())
    );
}

#[test]
fn tampered_field_is_rejected() {
    let now = 1_700_000_000;
    let data = signed_init_data(now).replace("query_id=AAA", "query_id=AAB");
    assert_eq!(
        verify_telegram_init_data_at(&data, TOKEN, now),
        Err("Telegram initData HMAC verification failed — invalid or tampered data".to_string())
    );
}

#[test]
fn missing_hash_is_rejected() {
    assert_eq!(
        verify_telegram_init_data_at("user=%7B%7D&auth_date=1", TOKEN, 10),
        Err("Missing hash field in Telegram initData".to_string())
    );
}

#[test]
fn stale_data_is_rejected() {
    let auth = 1_700_000_000;
    let data = signed_init_data(auth);
    assert_eq!(
        verify_telegram_init_data_at(&data, TOKEN, auth + 86_401),
        Err("Telegram initData is expired (older than 24 hours)".to_string())
    );
    // exactly one day old is still accepted
    assert_eq!(
        verify_telegram_init_data_at(&data, TOKEN, auth + 86_400),
        Ok(USER.to_string())
    );
}

#[test]
fn extreme_auth_date_is_stale_without_overflow() {
    let check = format!("auth_date={}\nuser={}", i64::MIN, USER);
    let hash = telegram_hash(&check, TOKEN);
    let data = format!("auth_date={}&user={}&hash={}", i64::MIN, USER_ENCODED, hash);
    assert_eq!(
        verify_telegram_init_data_at(&data, TOKEN, i64::MAX),
        Err("Telegram initData is expired (older than 24 hours)".to_string())
    );
}

#[test]
fn unparsable_auth_date_is_not_checked() {
    let check = format!("auth_date=soon\nuser={}", USER);
    let hash = telegram_hash(&check, TOKEN);
    let data = format!("user={}&auth_date=soon&hash={}", USER_ENCODED, hash);
    assert_eq!(verify_telegram_init_data_at(&data, TOKEN, i64::MAX), Ok(USER.to_string()));
}

#[test]
fn missing_user_is_rejected() {
    let check = "auth_date=100\nquery_id=Q";
    let hash = telegram_hash(check, TOKEN);
    let data = format!("query_id=Q&auth_date=100&hash={}", hash);
    assert_eq!(
        verify_telegram_init_data_at(&data, TOKEN, 100),
        Err("Missing user field in Telegram initData".to_string())
    );
}

#[test]
fn duplicate_keys_keep_their_order_when_sorted() {
    let check = "a=2\na=1\nb=0\nuser={}";
    let hash = telegram_hash(check, TOKEN);
    let data = format!("user=%7B%7D&b=0&a=2&a=1&hash={}", hash);
    assert_eq!(verify_telegram_init_data_at(&data, TOKEN, 0), Ok("{}".to_string()));
}

#[test]
fn first_hash_field_is_used_and_others_are_dropped() {
    let check = "user={}";
    let hash = telegram_hash(check, TOKEN);
    let data = format!("user=%7B%7D&hash={}&hash=ignored", hash);
    assert_eq!(verify_telegram_init_data_at(&data, TOKEN, 0), Ok("{}".to_string()));
}

#[test]
fn reordered_pairs_get_the_same_verdict() {
    let now = 1_700_000_000;
    let data = signed_init_data(now - 60);
    let mut parts: Vec<&str> = data.split('&').collect();
    parts.reverse();
    let reordered = parts.join("&");
    assert_eq!(
        verify_telegram_init_data_at(&reordered, TOKEN, now),
        verify_telegram_init_data_at(&data, TOKEN, now)
    );
    parts.rotate_left(1);
    let rotated = parts.join("&");
    assert_eq!(verify_telegram_init_data_at(&rotated, TOKEN, now), Ok(USER.to_string()));
}

#[test]
fn decoded_text_is_never_longer_than_the_input() {
    for s in ["%FF%FE%FD", "a+b%2", "%E2%82%AC", "%C3", "plain"] {
        assert!(percent_decode(s.as_bytes()).chars().count() <= s.len());
    }
}
