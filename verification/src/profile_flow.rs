//! The player profile request as a state machine: the player is read
//! first, then its global leaderboard entry, then its game scores. The
//! caller performs each read and reports its outcome.

use vstd::prelude::*;
use vstd::string::*;

use crate::error::{is_internal, AppError};
use crate::json::{json_get, take_member, JsonValue};
use crate::player::{is_profile_stats, player_not_found_message, profile_stats, ProfileStats};
use crate::text::{trim, trim_str};

verus! {

/// The parts of a stored player that its profile shows.
pub struct ProfilePlayer {
    pub name: String,
    pub kult_points: Option<i64>,
    /// The player's metadata document, as JSON.
    pub metadata: Option<JsonValue>,
}

/// What the request waits for.
#[derive(PartialEq, Eq, Structural, Clone, Copy)]
pub enum ProfileStage {
    AwaitPlayer,
    AwaitEntry,
    AwaitScores,
    Finished,
}

/// The state of a profile request.
pub struct ProfileFlow {
    pub stage: ProfileStage,
    /// The trimmed wallet address.
    pub wallet: String,
    pub player: Option<ProfilePlayer>,
    /// The player's global leaderboard `(rank, level)`, once read.
    pub entry: Option<(u32, u32)>,
}

/// A profile without its score fields.
pub struct ProfileSummary {
    pub stats: ProfileStats,
    /// The `gameAssets` member of the player's metadata.
    pub purchased_assets: Option<JsonValue>,
}

/// The next read to perform.
pub enum ProfileAction {
    FindPlayer { wallet: String },
    GetLeaderboardEntry { wallet: String },
    FetchGameScores { wallet: String },
    Finish(Result<ProfileSummary, AppError>),
}

/// The outcome of the last read. A failed score fetch is reported as `None`.
pub enum ProfileEvent {
    PlayerFound(Result<Option<ProfilePlayer>, String>),
    EntryFound(Result<Option<(u32, u32)>, String>),
    ScoresFetched(Option<usize>),
}

/// The event that answers the read of a stage.
pub open spec fn profile_event_fits(stage: ProfileStage, event: ProfileEvent) -> bool {
    match stage {
        ProfileStage::AwaitPlayer => event is PlayerFound,
        ProfileStage::AwaitEntry => event is EntryFound,
        ProfileStage::AwaitScores => event is ScoresFetched,
        ProfileStage::Finished => false,
    }
}

/// The request holds the player exactly while it reads the entry and the
/// scores.
pub open spec fn profile_invariant(f: ProfileFlow) -> bool {
    (f.stage is AwaitEntry || f.stage is AwaitScores) <==> f.player is Some
}

/// The purchased assets of a profile: the `gameAssets` member of the
/// metadata.
pub open spec fn purchased_assets_of(metadata: Option<JsonValue>) -> Option<JsonValue> {
    match metadata {
        Some(m) => json_get(m, "gameAssets"@),
        None => None,
    }
}

fn finish(f: ProfileFlow, r: Result<ProfileSummary, AppError>) -> (out: (ProfileFlow, ProfileAction))
    ensures
        out.0.stage == ProfileStage::Finished,
        out.0.player is None,
        out.0.wallet@ == f.wallet@,
        out.1 == ProfileAction::Finish(r),
{
    (ProfileFlow { stage: ProfileStage::Finished, player: None, ..f }, ProfileAction::Finish(r))
}

impl ProfileFlow {
    /// Starts a profile request: the player of the trimmed wallet is read.
    pub fn start(wallet_address: &str) -> (r: (ProfileFlow, ProfileAction))
        ensures
            r.0.stage == ProfileStage::AwaitPlayer,
            r.0.wallet@ == trim(wallet_address@),
            profile_invariant(r.0),
            r.1 matches ProfileAction::FindPlayer { wallet } && wallet@ == trim(wallet_address@),
    {
        let wallet = String::from_str(trim_str(wallet_address));
        let action = ProfileAction::FindPlayer { wallet: wallet.clone() };
        (ProfileFlow { stage: ProfileStage::AwaitPlayer, wallet, player: None, entry: None }, action)
    }

    /// Takes the outcome of the last read and returns the next action.
    pub fn step(self, event: ProfileEvent) -> (r: (ProfileFlow, ProfileAction))
        requires
            profile_event_fits(self.stage, event),
            profile_invariant(self),
        ensures
            profile_invariant(r.0),
            r.0.wallet@ == self.wallet@,
            match event {
                ProfileEvent::PlayerFound(found) => match found {
                    Err(msg) => r.1 matches ProfileAction::Finish(Err(e)) && is_internal(e, msg@),
                    Ok(None) => r.1 matches ProfileAction::Finish(Err(e)) && e matches AppError::NotFound(
                        m,
                    ) && m@ == player_not_found_message(),
                    Ok(Some(p)) => r.0.stage == ProfileStage::AwaitEntry && r.0.player == Some(p) && (
                    r.1 matches ProfileAction::GetLeaderboardEntry { wallet } && wallet@ == self.wallet@),
                },
                ProfileEvent::EntryFound(found) => match found {
                    Err(msg) => r.1 matches ProfileAction::Finish(Err(e)) && is_internal(e, msg@),
                    Ok(entry) => r.0.stage == ProfileStage::AwaitScores && r.0.player == self.player
                        && r.0.entry == entry && (r.1 matches ProfileAction::FetchGameScores { wallet }
                        && wallet@ == self.wallet@),
                },
                ProfileEvent::ScoresFetched(count) => r.0.stage == ProfileStage::Finished && (
                r.1 matches ProfileAction::Finish(Ok(s)) && is_profile_stats(
                    self.wallet@,
                    self.player.unwrap().name@,
                    self.player.unwrap().kult_points,
                    self.entry,
                    match count {
                        Some(n) => n,
                        None => 0,
                    },
                    s.stats,
                ) && s.purchased_assets == purchased_assets_of(self.player.unwrap().metadata)),
            },
    {
        match event {
            ProfileEvent::PlayerFound(found) => match found {
                Err(msg) => finish(self, Err(AppError::Internal(msg))),
                Ok(None) => finish(self, Err(AppError::NotFound(String::from_str("Player not found")))),
                Ok(Some(p)) => {
                    let wallet = self.wallet.clone();
                    (
                        ProfileFlow { stage: ProfileStage::AwaitEntry, player: Some(p), ..self },
                        ProfileAction::GetLeaderboardEntry { wallet },
                    )
                },
            },
            ProfileEvent::EntryFound(found) => match found {
                Err(msg) => finish(self, Err(AppError::Internal(msg))),
                Ok(entry) => {
                    let wallet = self.wallet.clone();
                    (
                        ProfileFlow { stage: ProfileStage::AwaitScores, entry, ..self },
                        ProfileAction::FetchGameScores { wallet },
                    )
                },
            },
            ProfileEvent::ScoresFetched(count) => {
                let scored = match count {
                    Some(n) => n,
                    None => 0,
                };
                let ProfileFlow { stage: _, wallet, player, entry } = self;
                let p = match player {
                    Some(p) => p,
                    None => {
                        proof {
                            assert(false);
                        }
                        return finish(
                            ProfileFlow { stage: ProfileStage::Finished, wallet, player: None, entry },
                            Err(AppError::Internal(String::new())),
                        );
                    },
                };
                let ProfilePlayer { name, kult_points, metadata } = p;
                let stats = profile_stats(wallet.as_str(), name, kult_points, entry, scored);
                let purchased_assets = match metadata {
                    Some(m) => take_member(m, "gameAssets"),
                    None => None,
                };
                (
                    ProfileFlow { stage: ProfileStage::Finished, wallet, player: None, entry },
                    ProfileAction::Finish(Ok(ProfileSummary { stats, purchased_assets })),
                )
            },
        }
    }
}

} // verus!
