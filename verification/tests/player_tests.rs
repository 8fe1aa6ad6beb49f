use kult_browser_backend_rust::error::AppError;
use kult_browser_backend_rust::init_data::TelegramUser;
use kult_browser_backend_rust::player::{
    check_nonce_wallet, client_ip, default_name_at, login_display_name, normalize_wallet, player_id_text,
    profile_kult_points, profile_rank_and_level, profile_stats, purchase_quantity, purchase_tx_hash,
    purchased_asset_keys, repository_name, telegram_display_name, telegram_login_user_json,
    telegram_wallet, validate_new_name, wallet_registered, was_created_now,
};

fn user(first: Option<&str>, last: Option<&str>, username: Option<&str>) -> TelegramUser {
    TelegramUser {
        id: 77,
        first_name: first.map(|x| x.to_string()),
        last_name: last.map(|x| x.to_string()),
        username: username.map(|x| x.to_string()),
    }
}

fn reference_suffix(millis: i64) -> String {
    format!("{:x}", millis).chars().rev().take(8).collect()
}

#[test]
fn wallet_is_trimmed_and_required() {
    assert_eq!(normalize_wallet("  0xAbC \n").unwrap(), "0xAbC");
    match normalize_wallet("   ") {
        Err(AppError::BadRequest(m)) => assert_eq!(m, "walletAddress is required"),
        _ => panic!("expected a bad request"),
    }
}

#[test]
fn nonce_wallet_must_not_be_empty() {
    assert!(check_nonce_wallet(" ").is_ok());
    match check_nonce_wallet("") {
        Err(AppError::BadRequest(m)) => assert_eq!(m, "walletAddress query param is required"),
        _ => panic!("expected a bad request"),
    }
}

#[test]
fn default_name_uses_reversed_hex_suffix() {
    assert_eq!(default_name_at(0), "kult-player_0");
    assert_eq!(default_name_at(0x18f3a2b4c5d), "kult-player_d5c4b2a3");
    assert_eq!(default_name_at(-1), "kult-player_ffffffff");
    for m in [1i64, 15, 16, 255, 1_715_000_000_123, i64::MAX, i64::MIN] {
        assert_eq!(default_name_at(m), format!("kult-player_{}", reference_suffix(m)));
    }
}

#[test]
fn login_name_prefers_request() {
    assert_eq!(login_display_name(Some("Neo".to_string())), "Neo");
    let generated = login_display_name(None);
    assert!(generated.starts_with("kult-player_"));
    assert!(generated.len() <= "kult-player_".len() + 8);
}

#[test]
fn telegram_wallet_is_tg_prefixed_decimal() {
    assert_eq!(telegram_wallet(123), "tg:123");
    assert_eq!(telegram_wallet(-5), "tg:-5");
    assert_eq!(telegram_wallet(0), "tg:0");
    assert_eq!(telegram_wallet(i64::MIN), format!("tg:{}", i64::MIN));
}

#[test]
fn telegram_display_name_fallbacks() {
    let u = user(Some("Ann"), Some("Lee"), Some("ann_l"));
    assert_eq!(telegram_display_name(Some("Req".to_string()), &u), "Req");
    assert_eq!(telegram_display_name(None, &u), "ann_l");
    assert_eq!(telegram_display_name(None, &user(Some("Ann"), Some("Lee"), None)), "Ann Lee");
    assert_eq!(telegram_display_name(None, &user(Some("Ann"), None, None)), "Ann");
    assert_eq!(telegram_display_name(None, &user(None, Some("Lee"), None)), "Lee");
    assert_eq!(telegram_display_name(None, &user(None, None, None)), "tg-player-77");
}

#[test]
fn telegram_login_needs_bot_token() {
    match telegram_login_user_json(None, "hash=x") {
        Err(AppError::Internal(m)) => {
            assert_eq!(m, "TELEGRAM_BOT_TOKEN is not configured on the server")
        }
        _ => panic!("expected an internal error"),
    }
    match telegram_login_user_json(Some("tok"), "user=%7B%7D") {
        Err(AppError::Unauthorized(m)) => assert_eq!(m, "Missing hash field in Telegram initData"),
        _ => panic!("expected unauthorized"),
    }
}

#[test]
fn new_names_are_validated() {
    assert_eq!(validate_new_name("  Bob ").unwrap(), "Bob");
    match validate_new_name(" \t ") {
        Err(AppError::BadRequest(m)) => assert_eq!(m, "Name cannot be empty"),
        _ => panic!("expected a bad request"),
    }
    let long = "x".repeat(101);
    match validate_new_name(&long) {
        Err(AppError::BadRequest(m)) => assert_eq!(m, "Name cannot exceed 100 characters"),
        _ => panic!("expected a bad request"),
    }
    assert!(validate_new_name(&"x".repeat(100)).is_ok());
    // the limit counts bytes: 51 two-byte characters exceed it
    assert!(validate_new_name(&"é".repeat(51)).is_err());
    assert!(validate_new_name(&"é".repeat(50)).is_ok());
}

#[test]
fn repository_name_rules() {
    assert_eq!(repository_name(" Zed ").unwrap(), "Zed");
    assert_eq!(repository_name("  ").unwrap_err(), "Name cannot be empty");
}

#[test]
fn profile_values() {
    assert_eq!(profile_kult_points(Some(5)), 5);
    assert_eq!(profile_kult_points(Some(-3)), -3);
    assert_eq!(profile_kult_points(None), 0);
    assert_eq!(profile_rank_and_level(Some((3, 12))), (Some(3), 12));
    assert_eq!(profile_rank_and_level(None), (None, 1));
    assert_eq!(player_id_text(Some("abc".to_string())), "abc");
    assert_eq!(player_id_text(None), "");
}

#[test]
fn creation_and_existence() {
    assert!(was_created_now(Some(10), 10));
    assert!(!was_created_now(Some(9), 10));
    assert!(!was_created_now(None, 10));
    assert!(wallet_registered(1));
    assert!(!wallet_registered(0));
}

#[test]
fn purchase_rules() {
    let (owned, purchases) = purchased_asset_keys("  pool ").unwrap();
    assert_eq!(owned, "metadata.gameAssets.pool.ownedItemIds");
    assert_eq!(purchases, "metadata.gameAssets.pool.purchases");
    assert_eq!(purchased_asset_keys(" ").unwrap_err(), "game_identification cannot be empty");
    assert_eq!(purchase_quantity(3), 3);
    assert_eq!(purchase_quantity(i32::MAX as u32), i32::MAX);
    assert_eq!(purchase_quantity(u32::MAX), 1);
    assert_eq!(purchase_tx_hash(Some(" 0xab ")), Some(" 0xab "));
    assert_eq!(purchase_tx_hash(Some("  ")), None);
    assert_eq!(purchase_tx_hash(None), None);
}

#[test]
fn profile_stats_of_a_ranked_player() {
    let p = profile_stats(" 0xAbC ", "Neo".to_string(), None, Some((3, 7)), 5);
    assert_eq!(p.wallet_address, "0xAbC");
    assert_eq!(p.username, "Neo");
    assert_eq!(p.rank, Some(3));
    assert_eq!(p.level, 7);
    assert_eq!(p.kult_points, 0);
    assert_eq!(p.kult_points_rank, None);
    assert_eq!(p.total_games_played, 5);
    assert_eq!(p.completed_quests, 0);
}

#[test]
fn profile_stats_of_an_unranked_player() {
    let p = profile_stats("w", "n".to_string(), Some(-2), None, 0);
    assert_eq!(p.rank, None);
    assert_eq!(p.level, 1);
    assert_eq!(p.kult_points, -2);
    assert_eq!(p.total_games_played, 0);
}

#[test]
fn client_ip_defaults_to_unspecified_address() {
    assert_eq!(client_ip(Some("203.0.113.7, 10.0.0.1")), "203.0.113.7, 10.0.0.1");
    assert_eq!(client_ip(None), "0.0.0.0");
}
