use kult_browser_backend_rust::error::AppError;
use kult_browser_backend_rust::json::JsonValue;
use kult_browser_backend_rust::profile_flow::{
    ProfileAction, ProfileEvent, ProfileFlow, ProfilePlayer, ProfileStage,
};

fn player(metadata: Option<JsonValue>) -> ProfilePlayer {
    ProfilePlayer { name: "Neo".to_string(), kult_points: Some(12), metadata }
}

fn at_entry() -> ProfileFlow {
    let (f, a) = ProfileFlow::start(" 0xAbC ");
    match a {
        ProfileAction::FindPlayer { wallet } => assert_eq!(wallet, "0xAbC"),
        _ => panic!("expected the player to be read first"),
    }
    let assets = JsonValue::Object(vec![("g1".to_string(), JsonValue::Array(vec![]))]);
    let meta = JsonValue::Object(vec![("gameAssets".to_string(), assets)]);
    let (f, a) = f.step(ProfileEvent::PlayerFound(Ok(Some(player(Some(meta))))));
    match a {
        ProfileAction::GetLeaderboardEntry { wallet } => assert_eq!(wallet, "0xAbC"),
        _ => panic!("expected the leaderboard entry to be read"),
    }
    f
}

#[test]
fn profile_reads_player_entry_then_scores() {
    let (f, a) = at_entry().step(ProfileEvent::EntryFound(Ok(Some((4, 9)))));
    assert!(f.stage == ProfileStage::AwaitScores);
    assert!(matches!(a, ProfileAction::FetchGameScores { .. }));
    let (f, a) = f.step(ProfileEvent::ScoresFetched(Some(3)));
    assert!(f.stage == ProfileStage::Finished);
    match a {
        ProfileAction::Finish(Ok(s)) => {
            assert_eq!(s.stats.wallet_address, "0xAbC");
            assert_eq!(s.stats.username, "Neo");
            assert_eq!(s.stats.rank, Some(4));
            assert_eq!(s.stats.level, 9);
            assert_eq!(s.stats.kult_points, 12);
            assert_eq!(s.stats.total_games_played, 3);
            match s.purchased_assets {
                Some(JsonValue::Object(e)) => assert_eq!(e[0].0, "g1"),
                _ => panic!("expected the game assets"),
            }
        }
        _ => panic!("expected a profile"),
    }
}

#[test]
fn unranked_player_with_failed_scores_has_defaults() {
    let (f, _) = at_entry().step(ProfileEvent::EntryFound(Ok(None)));
    match f.step(ProfileEvent::ScoresFetched(None)).1 {
        ProfileAction::Finish(Ok(s)) => {
            assert_eq!(s.stats.rank, None);
            assert_eq!(s.stats.level, 1);
            assert_eq!(s.stats.total_games_played, 0);
        }
        _ => panic!("expected a profile"),
    }
}

#[test]
fn profile_errors() {
    let (f, _) = ProfileFlow::start("w");
    match f.step(ProfileEvent::PlayerFound(Ok(None))).1 {
        ProfileAction::Finish(Err(AppError::NotFound(m))) => assert_eq!(m, "Player not found"),
        _ => panic!("expected not found"),
    }
    let (f, _) = ProfileFlow::start("w");
    match f.step(ProfileEvent::PlayerFound(Err("db".to_string()))).1 {
        ProfileAction::Finish(Err(AppError::Internal(m))) => assert_eq!(m, "db"),
        _ => panic!("expected internal"),
    }
    match at_entry().step(ProfileEvent::EntryFound(Err("lb".to_string()))).1 {
        ProfileAction::Finish(Err(AppError::Internal(m))) => assert_eq!(m, "lb"),
        _ => panic!("expected internal"),
    }
    let (f, _) = ProfileFlow::start("w");
    let (f, _) = f.step(ProfileEvent::PlayerFound(Ok(Some(player(None)))));
    let (f, _) = f.step(ProfileEvent::EntryFound(Ok(None)));
    match f.step(ProfileEvent::ScoresFetched(Some(0))).1 {
        ProfileAction::Finish(Ok(s)) => assert!(s.purchased_assets.is_none()),
        _ => panic!("expected a profile"),
    }
}
