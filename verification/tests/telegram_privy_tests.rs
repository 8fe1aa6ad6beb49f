use kult_browser_backend_rust::config::{AuthConfig, TelegramConfig};
use kult_browser_backend_rust::error::AppError;
use kult_browser_backend_rust::privy::{
    check_privy_audience, check_privy_ton_wallet, decoding_key_for_token, privy_app_id,
};
use kult_browser_backend_rust::telegram_bot::{
    mini_app_button_chat, mini_app_button_message, mini_app_menu_button, required_webhook_url,
    telegram_method_url, telegram_reply_succeeded, telegram_status, verify_admin_secret,
    verify_webhook_secret, webhook_registration, webhook_removal, TelegramChat, TelegramMessage,
    TelegramUpdate,
};

fn update(text: Option<&str>) -> TelegramUpdate {
    TelegramUpdate {
        message: Some(TelegramMessage {
            chat: TelegramChat { id: 99 },
            text: text.map(|t| t.to_string()),
        }),
    }
}

fn auth(jwk: Option<&str>, pem: Option<&str>) -> AuthConfig {
    AuthConfig::from_values(
        None,
        None,
        None,
        None,
        None,
        Some("app-1".to_string()),
        jwk.map(|x| x.to_string()),
        pem.map(|x| x.to_string()),
    )
}

#[test]
fn start_and_app_commands_get_the_button() {
    assert_eq!(mini_app_button_chat(&update(Some("/start"))), Some(99));
    assert_eq!(mini_app_button_chat(&update(Some("/start ref"))), Some(99));
    assert_eq!(mini_app_button_chat(&update(Some("/apple"))), Some(99));
    assert_eq!(mini_app_button_chat(&update(Some(" /start"))), None);
    assert_eq!(mini_app_button_chat(&update(Some("hello"))), None);
    assert_eq!(mini_app_button_chat(&update(None)), None);
    assert_eq!(mini_app_button_chat(&TelegramUpdate { message: None }), None);
}

#[test]
fn status_reflects_config() {
    let c = TelegramConfig::from_values(None, None, None, None, None);
    let st = telegram_status(&c);
    assert!(!st.enabled);
    assert!(st.webhook_configured);
    assert_eq!(st.mini_app_url, c.mini_app_url);
}

#[test]
fn secrets_are_checked_when_configured() {
    assert!(verify_webhook_secret(None, None).is_ok());
    assert!(verify_webhook_secret(None, Some("x")).is_ok());
    assert!(verify_webhook_secret(Some("s3"), Some("s3")).is_ok());
    match verify_webhook_secret(Some("s3"), Some("s4")) {
        Err(AppError::Unauthorized(m)) => assert_eq!(m, "Invalid Telegram webhook secret"),
        _ => panic!("expected unauthorized"),
    }
    match verify_admin_secret(Some("a"), None) {
        Err(AppError::Unauthorized(m)) => assert_eq!(m, "Invalid Telegram admin secret"),
        _ => panic!("expected unauthorized"),
    }
}

#[test]
fn method_url_and_replies() {
    assert_eq!(
        telegram_method_url(Some("1:T"), "sendMessage").unwrap(),
        "https://api.telegram.org/bot1:T/sendMessage"
    );
    match telegram_method_url(None, "x") {
        Err(AppError::BadRequest(m)) => assert_eq!(m, "TELEGRAM_BOT_TOKEN is not configured"),
        _ => panic!("expected a bad request"),
    }
    assert!(telegram_reply_succeeded(200, Some(true)));
    assert!(!telegram_reply_succeeded(200, Some(false)));
    assert!(!telegram_reply_succeeded(200, None));
    assert!(!telegram_reply_succeeded(404, Some(true)));
    assert!(telegram_reply_succeeded(299, Some(true)));
    assert_eq!(required_webhook_url(Some("https://w")).unwrap(), "https://w");
    match required_webhook_url(None) {
        Err(AppError::BadRequest(m)) => assert_eq!(m, "TELEGRAM_WEBHOOK_URL is required"),
        _ => panic!("expected a bad request"),
    }
}

const WALLET_ACCOUNTS: &str = r#"[{"type":"email","address":"a@b.c"},{"type":"wallet","chainType":"ton","address":"EQabc"}]"#;

#[test]
fn linked_ton_wallet_is_found() {
    assert_eq!(check_privy_ton_wallet("privy.io", Some(WALLET_ACCOUNTS), "  EQabc "), Ok(()));
    let snake = r#"[{"type":"wallet","chain_type":"ton","address":"EQx"}]"#;
    assert_eq!(check_privy_ton_wallet("privy.io", Some(snake), "EQx"), Ok(()));
}

#[test]
fn privy_claims_are_refused() {
    assert_eq!(
        check_privy_ton_wallet("evil.io", Some(WALLET_ACCOUNTS), "EQabc"),
        Err("Privy identity token has an invalid issuer".to_string())
    );
    assert_eq!(
        check_privy_ton_wallet("privy.io", None, "EQabc"),
        Err("Privy identity token is missing linked_accounts".to_string())
    );
    assert!(check_privy_ton_wallet("privy.io", Some("[oops"), "EQabc")
        .unwrap_err()
        .starts_with("Invalid linked_accounts claim: "));
    assert_eq!(
        check_privy_ton_wallet("privy.io", Some(r#"{"type":"wallet"}"#), "EQabc"),
        Err("Privy linked_accounts claim is not an array".to_string())
    );
    assert_eq!(
        check_privy_ton_wallet("privy.io", Some(WALLET_ACCOUNTS), "EQabd"),
        Err("TON wallet is not linked to the verified Privy user".to_string())
    );
    let eth = r#"[{"type":"wallet","chainType":"ethereum","address":"EQabc"}]"#;
    assert!(check_privy_ton_wallet("privy.io", Some(eth), "EQabc").is_err());
}

#[test]
fn audience_and_app_id() {
    assert_eq!(check_privy_audience("app-1", "app-1"), Ok(()));
    assert_eq!(
        check_privy_audience("app-2", "app-1"),
        Err("Privy identity token has an invalid audience".to_string())
    );
    assert_eq!(privy_app_id(&auth(None, None)), Ok("app-1".to_string()));
    let none = AuthConfig::from_values(None, None, None, None, None, None, None, None);
    assert_eq!(privy_app_id(&none), Err("PRIVY_APP_ID is not configured".to_string()));
}

const EC_JWK: &str = r#"{"kty":"EC","crv":"P-256","kid":"k1","x":"MKBCTNIcKUSDii11ySs3526iDZ8AiTo7Tu6KPAqv7D4","y":"4Etl6SRW2YiLUrN5vfvVHuhp7x8PxltmWWlbbM4IFyM"}"#;

#[test]
fn decoding_key_selection() {
    match decoding_key_for_token(&auth(None, None), "t") {
        Err(m) => assert_eq!(m, "Set PRIVY_VERIFICATION_KEY_JWK or PRIVY_VERIFICATION_KEY_PEM"),
        Ok(_) => panic!("expected an error"),
    }
    match decoding_key_for_token(&auth(Some("{not json"), Some("ignored")), "t") {
        Err(m) => assert!(m.starts_with("Invalid PRIVY_VERIFICATION_KEY_JWK JSON: ")),
        Ok(_) => panic!("expected an error"),
    }
    match decoding_key_for_token(&auth(None, Some("not a pem")), "t") {
        Err(m) => assert!(m.starts_with("Invalid PRIVY_VERIFICATION_KEY_PEM: ")),
        Ok(_) => panic!("expected an error"),
    }
    assert!(decoding_key_for_token(&auth(Some(EC_JWK), None), "t").is_ok());
    match decoding_key_for_token(&auth(Some(r#"{"kty":"EC"}"#), None), "t") {
        Err(m) => assert!(m.starts_with("Invalid JWK: ")),
        Ok(_) => panic!("expected an error"),
    }
}

#[test]
fn decoding_key_from_set_uses_kid() {
    let set = format!(r#"{{"keys":[{}]}}"#, EC_JWK);
    match decoding_key_for_token(&auth(Some(&set), None), "no-dots") {
        Err(m) => assert!(m.starts_with("Invalid Privy identity token header: ")),
        Ok(_) => panic!("expected an error"),
    }
    // header {"alg":"ES256","typ":"JWT"} without kid
    let no_kid = "eyJhbGciOiJFUzI1NiIsInR5cCI6IkpXVCJ9.e30.sig";
    match decoding_key_for_token(&auth(Some(&set), None), no_kid) {
        Err(m) => assert_eq!(m, "Privy identity token is missing kid"),
        Ok(_) => panic!("expected an error"),
    }
    // header {"alg":"ES256","kid":"k1"}
    let with_k1 = "eyJhbGciOiJFUzI1NiIsImtpZCI6ImsxIn0.e30.sig";
    assert!(decoding_key_for_token(&auth(Some(&set), None), with_k1).is_ok());
    // header {"alg":"ES256","kid":"k2"}
    let with_k2 = "eyJhbGciOiJFUzI1NiIsImtpZCI6ImsyIn0.e30.sig";
    match decoding_key_for_token(&auth(Some(&set), None), with_k2) {
        Err(m) => assert_eq!(m, "No Privy JWK found for kid k2"),
        Ok(_) => panic!("expected an error"),
    }
}

#[test]
fn bot_requests_carry_the_mini_app() {
    let m = mini_app_button_message(-100123, "https://mini.app/");
    assert_eq!(m.chat_id, -100123);
    assert_eq!(m.text, "Open Kult Games inside Telegram.");
    assert_eq!(m.button_text, "Open Kult Games");
    assert_eq!(m.web_app_url, "https://mini.app/");
    let b = mini_app_menu_button("https://mini.app/");
    assert_eq!(b.button_type, "web_app");
    assert_eq!(b.text, "Open Kult Games");
    assert_eq!(b.web_app_url, "https://mini.app/");
    assert!(webhook_removal().drop_pending_updates);
}

#[test]
fn webhook_registration_follows_config() {
    let c = TelegramConfig::from_values(None, None, Some("https://hook".to_string()), Some(" s3 ".to_string()), None);
    let w = webhook_registration(&c).unwrap();
    assert_eq!(w.url, "https://hook");
    assert_eq!(w.allowed_updates, vec!["message".to_string()]);
    assert_eq!(w.secret_token.as_deref(), Some("s3"));
    let c = TelegramConfig::from_values(None, None, None, Some("  ".to_string()), None);
    let w = webhook_registration(&c).unwrap();
    assert_eq!(w.url, "https://kult-browser-rust-l2lwg.ondigitalocean.app/api/telegram/webhook");
    assert_eq!(w.secret_token, None);
    let mut c = c;
    c.webhook_url = None;
    match webhook_registration(&c) {
        Err(AppError::BadRequest(m)) => assert_eq!(m, "TELEGRAM_WEBHOOK_URL is required"),
        _ => panic!("expected a bad request"),
    }
}

const BAD_EC_JWK: &str = r#"{"kty":"EC","crv":"P-256","kid":"k1","x":"!!!","y":"!!!"}"#;

#[test]
fn jwk_that_gives_no_key_is_refused() {
    match decoding_key_for_token(&auth(Some(BAD_EC_JWK), None), "t") {
        Err(m) => assert!(m.starts_with("Invalid Privy JWK: "), "{}", m),
        Ok(_) => panic!("expected an error"),
    }
    // header {"alg":"ES256","kid":"k1"}
    let with_k1 = "eyJhbGciOiJFUzI1NiIsImtpZCI6ImsxIn0.e30.sig";
    let first_bad = format!(r#"{{"keys":[{},{}]}}"#, BAD_EC_JWK, EC_JWK);
    match decoding_key_for_token(&auth(Some(&first_bad), None), with_k1) {
        Err(m) => assert!(m.starts_with("Invalid Privy JWK: "), "{}", m),
        Ok(_) => panic!("the first key with the kid is used"),
    }
    let first_good = format!(r#"{{"keys":[{},{}]}}"#, EC_JWK, BAD_EC_JWK);
    assert!(decoding_key_for_token(&auth(Some(&first_good), None), with_k1).is_ok());
    match decoding_key_for_token(&auth(Some(r#"{"keys":[{"kid":"k1"}]}"#), None), with_k1) {
        Err(m) => assert!(m.starts_with("Invalid JWK set: "), "{}", m),
        Ok(_) => panic!("expected an error"),
    }
}
