use kult_browser_backend_rust::error::AppError;
use kult_browser_backend_rust::init_data::TelegramUser;
use kult_browser_backend_rust::json::JsonValue;
use kult_browser_backend_rust::login_flow::{
    LoginAction, LoginEvent, LoginFlow, LoginMethod, LoginStage, StoredPlayer,
};

fn stored(is_new: bool) -> StoredPlayer {
    StoredPlayer {
        id_hex: Some("65f0c0ffee".to_string()),
        wallet_address: "0xAbC".to_string(),
        name: "Neo".to_string(),
        is_new,
    }
}

fn siwe(referral: Option<&str>, enabled: bool) -> LoginFlow {
    match LoginFlow::start_siwe(
        " 0xAbC ",
        Some("Neo".to_string()),
        referral.map(|c| c.to_string()),
        enabled,
        Some(JsonValue::Object(vec![("src".to_string(), JsonValue::Str("web".to_string()))])),
    ) {
        Ok((f, LoginAction::CheckSignature { wallet })) => {
            assert_eq!(wallet, "0xAbC");
            f
        }
        _ => panic!("expected a signature check"),
    }
}

fn siwe_at_player(referral: Option<&str>, enabled: bool) -> LoginFlow {
    let f = siwe(referral, enabled);
    let (f, a) = f.step(LoginEvent::SignatureChecked(true));
    assert!(matches!(a, LoginAction::ExtractNonce));
    let (f, a) = f.step(LoginEvent::NonceExtracted(Some("n0nce".to_string())));
    match a {
        LoginAction::ConsumeNonce { wallet, nonce } => {
            assert_eq!(wallet, "0xAbC");
            assert_eq!(nonce, "n0nce");
        }
        _ => panic!("expected the nonce to be consumed"),
    }
    let (f, a) = f.step(LoginEvent::NonceConsumed(Ok(true)));
    match a {
        LoginAction::FindOrCreate { wallet, name, metadata } => {
            assert_eq!(wallet, "0xAbC");
            assert_eq!(name, "Neo");
            match metadata {
                Some(JsonValue::Object(entries)) => assert_eq!(entries[0].0, "src"),
                _ => panic!("expected the request metadata"),
            }
        }
        _ => panic!("expected find-or-create"),
    }
    assert!(f.stage == LoginStage::AwaitPlayer);
    f
}

fn finish_error(a: LoginAction) -> AppError {
    match a {
        LoginAction::Finish(Err(e)) => e,
        _ => panic!("expected the login to fail"),
    }
}

#[test]
fn siwe_login_of_new_player_with_referral_runs_every_step() {
    let f = siwe_at_player(Some("REF42"), true);
    let (f, a) = f.step(LoginEvent::PlayerStored(Ok(stored(true))));
    match a {
        LoginAction::ProcessReferral { player_id, code } => {
            assert_eq!(player_id, "65f0c0ffee");
            assert_eq!(code, "REF42");
        }
        _ => panic!("expected the referral to be processed"),
    }
    let (f, a) = f.step(LoginEvent::ReferralProcessed);
    match a {
        LoginAction::CreateAgent { wallet } => assert_eq!(wallet, "0xAbC"),
        _ => panic!("expected the agent to be created"),
    }
    let (f, a) = f.step(LoginEvent::AgentCreated);
    assert!(matches!(a, LoginAction::SignToken));
    let (f, a) = f.step(LoginEvent::TokenSigned(Ok("jwt".to_string())));
    assert!(f.stage == LoginStage::Finished);
    match a {
        LoginAction::Finish(Ok(resp)) => {
            assert_eq!(resp.token, "jwt");
            assert_eq!(resp.player.id, "65f0c0ffee");
            assert_eq!(resp.player.wallet_address, "0xAbC");
            assert_eq!(resp.player.name, "Neo");
        }
        _ => panic!("expected a response"),
    }
}

#[test]
fn referral_is_skipped_when_disabled_or_absent() {
    let (_, a) = siwe_at_player(Some("REF42"), false).step(LoginEvent::PlayerStored(Ok(stored(true))));
    assert!(matches!(a, LoginAction::CreateAgent { .. }));
    let (_, a) = siwe_at_player(None, true).step(LoginEvent::PlayerStored(Ok(stored(true))));
    assert!(matches!(a, LoginAction::CreateAgent { .. }));
}

#[test]
fn returning_player_goes_straight_to_the_token() {
    let (f, a) = siwe_at_player(Some("REF42"), true).step(LoginEvent::PlayerStored(Ok(stored(false))));
    assert!(matches!(a, LoginAction::SignToken));
    assert!(f.stage == LoginStage::AwaitToken);
}

#[test]
fn referral_without_object_id_uses_the_wallet() {
    let p = StoredPlayer { id_hex: None, ..stored(true) };
    let (f, a) = siwe_at_player(Some("R"), true).step(LoginEvent::PlayerStored(Ok(p)));
    match a {
        LoginAction::ProcessReferral { player_id, .. } => assert_eq!(player_id, "0xAbC"),
        _ => panic!("expected the referral to be processed"),
    }
    let (f, _) = f.step(LoginEvent::ReferralProcessed);
    let (f, _) = f.step(LoginEvent::AgentCreated);
    match f.step(LoginEvent::TokenSigned(Ok("t".to_string()))).1 {
        LoginAction::Finish(Ok(resp)) => assert_eq!(resp.player.id, ""),
        _ => panic!("expected a response"),
    }
}

#[test]
fn siwe_failures_carry_their_messages() {
    match finish_error(siwe(None, true).step(LoginEvent::SignatureChecked(false)).1) {
        AppError::Unauthorized(m) => assert_eq!(m, "Invalid signature — wallet ownership not proven"),
        _ => panic!("expected unauthorized"),
    }
    let (f, _) = siwe(None, true).step(LoginEvent::SignatureChecked(true));
    let (f, a) = f.step(LoginEvent::NonceExtracted(None));
    assert!(f.stage == LoginStage::Finished);
    match finish_error(a) {
        AppError::BadRequest(m) => assert_eq!(m, "Invalid SIWE message: missing Nonce field"),
        _ => panic!("expected a bad request"),
    }
    let (f, _) = siwe(None, true).step(LoginEvent::SignatureChecked(true));
    let (f, _) = f.step(LoginEvent::NonceExtracted(Some("n".to_string())));
    match finish_error(f.step(LoginEvent::NonceConsumed(Ok(false))).1) {
        AppError::Unauthorized(m) => {
            assert_eq!(m, "Nonce invalid or expired — request a new nonce and sign again")
        }
        _ => panic!("expected unauthorized"),
    }
    let (f, _) = siwe(None, true).step(LoginEvent::SignatureChecked(true));
    let (f, _) = f.step(LoginEvent::NonceExtracted(Some("n".to_string())));
    match finish_error(f.step(LoginEvent::NonceConsumed(Err("db down".to_string()))).1) {
        AppError::Internal(m) => assert_eq!(m, "db down"),
        _ => panic!("expected internal"),
    }
}

#[test]
fn store_and_token_errors_are_internal() {
    match finish_error(siwe_at_player(None, true).step(LoginEvent::PlayerStored(Err("dup".to_string()))).1) {
        AppError::Internal(m) => assert_eq!(m, "dup"),
        _ => panic!("expected internal"),
    }
    let (f, _) = siwe_at_player(None, true).step(LoginEvent::PlayerStored(Ok(stored(false))));
    match finish_error(f.step(LoginEvent::TokenSigned(Err("key".to_string()))).1) {
        AppError::Internal(m) => assert_eq!(m, "key"),
        _ => panic!("expected internal"),
    }
}

#[test]
fn empty_wallet_is_refused_at_start() {
    match LoginFlow::start_siwe("  ", None, None, true, None) {
        Err(AppError::BadRequest(m)) => assert_eq!(m, "walletAddress is required"),
        _ => panic!("expected a bad request"),
    }
    match LoginFlow::start_privy("", None, None, true, None) {
        Err(AppError::BadRequest(m)) => assert_eq!(m, "walletAddress is required"),
        _ => panic!("expected a bad request"),
    }
}

#[test]
fn privy_login_skips_the_agent() {
    let (f, a) = match LoginFlow::start_privy("EQwallet", None, Some("R".to_string()), true, None) {
        Ok(x) => x,
        Err(_) => panic!("expected a start"),
    };
    assert!(f.method == LoginMethod::Privy);
    match a {
        LoginAction::CheckPrivyIdentity { wallet } => assert_eq!(wallet, "EQwallet"),
        _ => panic!("expected an identity check"),
    }
    let (f, a) = f.step(LoginEvent::IdentityChecked(Ok(())));
    match a {
        LoginAction::FindOrCreate { wallet, name, metadata } => {
            assert!(metadata.is_none());
            assert_eq!(wallet, "EQwallet");
            assert!(name.starts_with("kult-player_"));
        }
        _ => panic!("expected find-or-create"),
    }
    let (f, a) = f.step(LoginEvent::PlayerStored(Ok(stored(true))));
    assert!(matches!(a, LoginAction::ProcessReferral { .. }));
    let (_, a) = f.step(LoginEvent::ReferralProcessed);
    assert!(matches!(a, LoginAction::SignToken));
    let (_, a) = match LoginFlow::start_privy("EQwallet", None, None, true, None) {
        Ok((f, _)) => f.step(LoginEvent::IdentityChecked(Ok(()))),
        Err(_) => panic!("expected a start"),
    };
    assert!(matches!(a, LoginAction::FindOrCreate { .. }));
}

#[test]
fn privy_identity_failure_is_unauthorized() {
    let f = match LoginFlow::start_privy("EQwallet", None, None, true, None) {
        Ok((f, _)) => f,
        Err(_) => panic!("expected a start"),
    };
    match finish_error(f.step(LoginEvent::IdentityChecked(Err("Wallet not linked".to_string()))).1) {
        AppError::Unauthorized(m) => assert_eq!(m, "Wallet not linked"),
        _ => panic!("expected unauthorized"),
    }
}

#[test]
fn telegram_login_creates_agent_but_ignores_referrals() {
    let user = TelegramUser {
        id: 4242,
        first_name: Some("Ada".to_string()),
        last_name: Some("L".to_string()),
        username: None,
    };
    let (f, a) = LoginFlow::start_telegram(&user, None);
    assert!(f.method == LoginMethod::TelegramMiniApp);
    match a {
        LoginAction::FindOrCreate { wallet, name, metadata } => {
            assert!(metadata.is_none());
            assert_eq!(wallet, "tg:4242");
            assert_eq!(name, "Ada L");
        }
        _ => panic!("expected find-or-create"),
    }
    let (f, a) = f.step(LoginEvent::PlayerStored(Ok(stored(true))));
    match a {
        LoginAction::CreateAgent { wallet } => assert_eq!(wallet, "tg:4242"),
        _ => panic!("expected the agent to be created"),
    }
    let (_, a) = f.step(LoginEvent::AgentCreated);
    assert!(matches!(a, LoginAction::SignToken));
}

#[test]
fn siwe_never_stores_without_signature_and_nonce() {
    let (f, a) = siwe(None, true).step(LoginEvent::SignatureChecked(false));
    assert!(f.stage == LoginStage::Finished);
    assert!(matches!(a, LoginAction::Finish(Err(_))));
    let (f, _) = siwe(None, true).step(LoginEvent::SignatureChecked(true));
    let (f, _) = f.step(LoginEvent::NonceExtracted(Some("n".to_string())));
    let (f, a) = f.step(LoginEvent::NonceConsumed(Ok(false)));
    assert!(f.stage == LoginStage::Finished);
    assert!(!matches!(a, LoginAction::FindOrCreate { .. }));
    let f = siwe_at_player(None, true);
    assert!(f.method == LoginMethod::Siwe);
}

#[test]
fn steps_keep_the_request_of_the_login() {
    let f = siwe(Some("REF42"), true);
    let (f, _) = f.step(LoginEvent::SignatureChecked(true));
    assert_eq!(f.requested_name.as_deref(), Some("Neo"));
    assert_eq!(f.referral_code.as_deref(), Some("REF42"));
    assert!(f.referrals_enabled);
    let (f, _) = f.step(LoginEvent::NonceExtracted(Some("n".to_string())));
    let (f, _) = f.step(LoginEvent::NonceConsumed(Ok(true)));
    assert_eq!(f.referral_code.as_deref(), Some("REF42"));
    assert!(f.metadata.is_none());
    let (f, _) = f.step(LoginEvent::PlayerStored(Ok(stored(true))));
    assert_eq!(f.requested_name.as_deref(), Some("Neo"));
    assert_eq!(f.referral_code.as_deref(), Some("REF42"));
}

#[test]
fn metadata_other_than_an_object_is_not_stored() {
    let (f, _) = match LoginFlow::start_privy("EQw", None, None, true, Some(JsonValue::Array(vec![]))) {
        Ok(x) => x,
        Err(_) => panic!("expected a start"),
    };
    match f.step(LoginEvent::IdentityChecked(Ok(()))).1 {
        LoginAction::FindOrCreate { metadata, .. } => assert!(metadata.is_none()),
        _ => panic!("expected find-or-create"),
    }
    let obj = JsonValue::Object(vec![("a".to_string(), JsonValue::Bool(true))]);
    let (f, _) = match LoginFlow::start_privy("EQw", None, None, true, Some(obj)) {
        Ok(x) => x,
        Err(_) => panic!("expected a start"),
    };
    match f.step(LoginEvent::IdentityChecked(Ok(()))).1 {
        LoginAction::FindOrCreate { metadata: Some(JsonValue::Object(e)), .. } => assert_eq!(e.len(), 1),
        _ => panic!("expected the metadata document"),
    }
}
