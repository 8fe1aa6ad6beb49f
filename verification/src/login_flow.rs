//! The player login flows as state machines.
//!
//! A login alternates outside work (checking a signature, consuming a nonce,
//! storing the player, signing a token) with decisions. [`LoginFlow::step`]
//! takes the outcome of the last action and returns the next action; the
//! caller performs it and reports back, until the flow finishes with a
//! response or an error.

use vstd::prelude::*;
use vstd::string::*;

use crate::config::opt_view;
use crate::error::{is_bad_request, is_internal, is_unauthorized, AppError};
use crate::init_data::TelegramUser;
use crate::json::JsonValue;
use crate::player::{
    default_player_name, login_display_name, normalize_wallet, telegram_display_name, telegram_name,
    telegram_wallet, telegram_wallet_text, wallet_required_message, LoginResponse, PlayerInfo,
};
use crate::text::trim;

verus! {

/// How the player proves who they are.
#[derive(PartialEq, Eq, Structural, Clone, Copy)]
pub enum LoginMethod {
    /// Sign-In with Ethereum: a signed message carrying a one-time nonce.
    Siwe,
    /// A Privy identity token with a linked TON wallet.
    Privy,
    /// Telegram Mini App init data.
    TelegramMiniApp,
}

/// What the flow waits for.
#[derive(PartialEq, Eq, Structural, Clone, Copy)]
pub enum LoginStage {
    AwaitSignature,
    AwaitNonce,
    AwaitNonceUse,
    AwaitIdentity,
    AwaitPlayer,
    AwaitReferral,
    AwaitAgent,
    AwaitToken,
    Finished,
}

/// The player record returned by the find-or-create upsert.
pub struct StoredPlayer {
    /// Hex object id, when the record has one.
    pub id_hex: Option<String>,
    pub wallet_address: String,
    pub name: String,
    /// Whether the upsert created the record.
    pub is_new: bool,
}

/// The next thing to do.
pub enum LoginAction {
    /// Check that the SIWE signature recovers to the wallet.
    CheckSignature { wallet: String },
    /// Read the nonce out of the signed SIWE message.
    ExtractNonce,
    /// Consume the nonce issued to the wallet.
    ConsumeNonce { wallet: String, nonce: String },
    /// Check the Privy identity token for the wallet.
    CheckPrivyIdentity { wallet: String },
    /// Find the player of the wallet, creating it with the name and the
    /// metadata document if absent.
    FindOrCreate { wallet: String, name: String, metadata: Option<JsonValue> },
    /// Hand the referral code of a new player to the anti-fraud service.
    ProcessReferral { player_id: String, code: String },
    /// Generate the AI agent identity of a new player.
    CreateAgent { wallet: String },
    /// Sign the session token of the player.
    SignToken,
    /// The login is over.
    Finish(Result<LoginResponse, AppError>),
}

/// The outcome of the last action.
pub enum LoginEvent {
    SignatureChecked(bool),
    NonceExtracted(Option<String>),
    NonceConsumed(Result<bool, String>),
    IdentityChecked(Result<(), String>),
    PlayerStored(Result<StoredPlayer, String>),
    ReferralProcessed,
    AgentCreated,
    TokenSigned(Result<String, String>),
}

/// The state of a login.
pub struct LoginFlow {
    pub method: LoginMethod,
    pub stage: LoginStage,
    pub wallet: String,
    pub requested_name: Option<String>,
    pub referral_code: Option<String>,
    pub referrals_enabled: bool,
    /// The request's metadata, until it is handed to the player store.
    pub metadata: Option<JsonValue>,
    pub player: Option<StoredPlayer>,
}

/// The event that answers the action of a stage.
pub open spec fn event_fits(stage: LoginStage, event: LoginEvent) -> bool {
    match stage {
        LoginStage::AwaitSignature => event is SignatureChecked,
        LoginStage::AwaitNonce => event is NonceExtracted,
        LoginStage::AwaitNonceUse => event is NonceConsumed,
        LoginStage::AwaitIdentity => event is IdentityChecked,
        LoginStage::AwaitPlayer => event is PlayerStored,
        LoginStage::AwaitReferral => event is ReferralProcessed,
        LoginStage::AwaitAgent => event is AgentCreated,
        LoginStage::AwaitToken => event is TokenSigned,
        LoginStage::Finished => false,
    }
}

/// The flow keeps the player record exactly while it waits for actions that
/// follow storing it.
pub open spec fn flow_invariant(f: LoginFlow) -> bool {
    (f.stage is AwaitReferral || f.stage is AwaitAgent || f.stage is AwaitToken) <==> f.player is Some
}

/// The action finishes the login with the given error.
pub open spec fn fails_with(a: LoginAction, check: spec_fn(AppError) -> bool) -> bool {
    a matches LoginAction::Finish(Err(e)) && check(e)
}

/// The name given to the find-or-create step: the requested one, or one
/// generated from some registration time.
pub open spec fn store_name_ok(requested: Option<String>, name: Seq<char>) -> bool {
    match requested {
        Some(n) => name == n@,
        None => exists|millis: i64| name == #[trigger] default_player_name(millis),
    }
}

/// What is done after storing a new or returning player.
pub open spec fn after_store(f: LoginFlow, p: StoredPlayer, next: LoginFlow, a: LoginAction) -> bool {
    if p.is_new && f.referral_code is Some && f.referrals_enabled && f.method != LoginMethod::TelegramMiniApp {
        &&& next.stage == LoginStage::AwaitReferral
        &&& a matches LoginAction::ProcessReferral { player_id, code } && player_id@ == (match opt_view(p.id_hex) {
            Some(h) => h,
            None => f.wallet@,
        }) && Some(code@) == opt_view(f.referral_code)
    } else if p.is_new && f.method != LoginMethod::Privy {
        &&& next.stage == LoginStage::AwaitAgent
        &&& a matches LoginAction::CreateAgent { wallet } && wallet@ == f.wallet@
    } else {
        &&& next.stage == LoginStage::AwaitToken
        &&& a is SignToken
    }
}

/// The response of a successful login.
pub open spec fn response_of(p: StoredPlayer, token: Seq<char>, r: LoginResponse) -> bool {
    &&& r.token@ == token
    &&& r.player.id@ == (match opt_view(p.id_hex) {
        Some(h) => h,
        None => Seq::empty(),
    })
    &&& r.player.wallet_address@ == p.wallet_address@
    &&& r.player.name@ == p.name@
}

pub open spec fn invalid_signature_message() -> Seq<char> {
    "Invalid signature — wallet ownership not proven"@
}

pub open spec fn missing_nonce_message() -> Seq<char> {
    "Invalid SIWE message: missing Nonce field"@
}

pub open spec fn stale_nonce_message() -> Seq<char> {
    "Nonce invalid or expired — request a new nonce and sign again"@
}

/// The metadata written for a new player: the request's metadata when it is
/// a JSON object (a document), else none.
pub open spec fn stored_metadata(m: Option<JsonValue>) -> Option<JsonValue> {
    match m {
        Some(JsonValue::Object(entries)) => Some(JsonValue::Object(entries)),
        _ => None,
    }
}

/// A step that does not finish keeps the requested name, the referral code
/// and the referral switch of the login.
pub open spec fn keeps_request(f: LoginFlow, next: LoginFlow) -> bool {
    &&& next.requested_name == f.requested_name
    &&& next.referral_code == f.referral_code
    &&& next.referrals_enabled == f.referrals_enabled
}

/// What one step does: the flow keeps its method and wallet, finishes
/// exactly when the action is `Finish`, and answers the event as follows.
pub open spec fn step_outcome(f: LoginFlow, event: LoginEvent, next: LoginFlow, a: LoginAction) -> bool {
    &&& next.method == f.method
    &&& next.wallet@ == f.wallet@
    &&& (next.stage == LoginStage::Finished <==> a is Finish)
    &&& (!(a is Finish) ==> keeps_request(f, next))
    &&& match event {
        LoginEvent::SignatureChecked(ok) => if ok {
            next.stage == LoginStage::AwaitNonce && a is ExtractNonce
        } else {
            fails_with(a, |e: AppError| is_unauthorized(e, invalid_signature_message()))
        },
        LoginEvent::NonceExtracted(n) => match n {
            None => fails_with(a, |e: AppError| is_bad_request(e, missing_nonce_message())),
            Some(nonce) => next.stage == LoginStage::AwaitNonceUse && (a matches LoginAction::ConsumeNonce {
                wallet,
                nonce: used,
            } && wallet@ == f.wallet@ && used@ == nonce@),
        },
        LoginEvent::NonceConsumed(c) => match c {
            Err(msg) => fails_with(a, |e: AppError| is_internal(e, msg@)),
            Ok(false) => fails_with(a, |e: AppError| is_unauthorized(e, stale_nonce_message())),
            Ok(true) => next.stage == LoginStage::AwaitPlayer && (a matches LoginAction::FindOrCreate {
                wallet,
                name,
                metadata,
            } && wallet@ == f.wallet@ && store_name_ok(f.requested_name, name@) && metadata
                == stored_metadata(f.metadata)),
        },
        LoginEvent::IdentityChecked(c) => match c {
            Err(reason) => fails_with(a, |e: AppError| is_unauthorized(e, reason@)),
            Ok(()) => next.stage == LoginStage::AwaitPlayer && (a matches LoginAction::FindOrCreate {
                wallet,
                name,
                metadata,
            } && wallet@ == f.wallet@ && store_name_ok(f.requested_name, name@) && metadata
                == stored_metadata(f.metadata)),
        },
        LoginEvent::PlayerStored(s) => match s {
            Err(msg) => fails_with(a, |e: AppError| is_internal(e, msg@)),
            Ok(p) => after_store(f, p, next, a) && next.player == Some(p),
        },
        LoginEvent::ReferralProcessed => next.player == f.player && if f.method == LoginMethod::Siwe {
            next.stage == LoginStage::AwaitAgent && (a matches LoginAction::CreateAgent { wallet }
                && wallet@ == f.wallet@)
        } else {
            next.stage == LoginStage::AwaitToken && a is SignToken
        },
        LoginEvent::AgentCreated => next.player == f.player && next.stage == LoginStage::AwaitToken
            && a is SignToken,
        LoginEvent::TokenSigned(t) => match t {
            Err(msg) => fails_with(a, |e: AppError| is_internal(e, msg@)),
            Ok(token) => a matches LoginAction::Finish(Ok(resp)) && response_of(
                f.player.unwrap(),
                token@,
                resp,
            ),
        },
    }
}

fn finish_error(f: LoginFlow, e: AppError) -> (r: (LoginFlow, LoginAction))
    ensures
        r.0.stage == LoginStage::Finished,
        r.0.player is None,
        r.0.method == f.method,
        r.0.wallet@ == f.wallet@,
        r.1 == LoginAction::Finish(Err(e)),
{
    (LoginFlow { stage: LoginStage::Finished, player: None, ..f }, LoginAction::Finish(Err(e)))
}

fn copy_string(s: &String) -> (r: String)
    ensures
        r@ == s@,
{
    s.clone()
}

impl LoginFlow {
    /// Starts a SIWE login: the trimmed wallet must be non-empty, then its
    /// signature is checked.
    pub fn start_siwe(
        wallet_address: &str,
        requested_name: Option<String>,
        referral_code: Option<String>,
        referrals_enabled: bool,
        metadata: Option<JsonValue>,
    ) -> (r: Result<(LoginFlow, LoginAction), AppError>)
        ensures
            match r {
                Ok((f, a)) => {
                    &&& f.method == LoginMethod::Siwe
                    &&& f.stage == LoginStage::AwaitSignature
                    &&& f.wallet@ == trim(wallet_address@) && f.wallet@.len() > 0
                    &&& opt_view(f.requested_name) == opt_view(requested_name)
                    &&& opt_view(f.referral_code) == opt_view(referral_code)
                    &&& f.referrals_enabled == referrals_enabled
                    &&& f.metadata == metadata
                    &&& flow_invariant(f)
                    &&& a matches LoginAction::CheckSignature { wallet } && wallet@ == f.wallet@
                },
                Err(e) => trim(wallet_address@).len() == 0 && is_bad_request(e, wallet_required_message()),
            },
    {
        let wallet = normalize_wallet(wallet_address)?;
        let action = LoginAction::CheckSignature { wallet: copy_string(&wallet) };
        Ok((
            LoginFlow {
                method: LoginMethod::Siwe,
                stage: LoginStage::AwaitSignature,
                wallet,
                requested_name,
                referral_code,
                referrals_enabled,
                metadata,
                player: None,
            },
            action,
        ))
    }

    /// Starts a Privy login: the trimmed wallet must be non-empty, then the
    /// identity token is checked for it.
    pub fn start_privy(
        wallet_address: &str,
        requested_name: Option<String>,
        referral_code: Option<String>,
        referrals_enabled: bool,
        metadata: Option<JsonValue>,
    ) -> (r: Result<(LoginFlow, LoginAction), AppError>)
        ensures
            match r {
                Ok((f, a)) => {
                    &&& f.method == LoginMethod::Privy
                    &&& f.stage == LoginStage::AwaitIdentity
                    &&& f.wallet@ == trim(wallet_address@) && f.wallet@.len() > 0
                    &&& opt_view(f.requested_name) == opt_view(requested_name)
                    &&& opt_view(f.referral_code) == opt_view(referral_code)
                    &&& f.referrals_enabled == referrals_enabled
                    &&& f.metadata == metadata
                    &&& flow_invariant(f)
                    &&& a matches LoginAction::CheckPrivyIdentity { wallet } && wallet@ == f.wallet@
                },
                Err(e) => trim(wallet_address@).len() == 0 && is_bad_request(e, wallet_required_message()),
            },
    {
        let wallet = normalize_wallet(wallet_address)?;
        let action = LoginAction::CheckPrivyIdentity { wallet: copy_string(&wallet) };
        Ok((
            LoginFlow {
                method: LoginMethod::Privy,
                stage: LoginStage::AwaitIdentity,
                wallet,
                requested_name,
                referral_code,
                referrals_enabled,
                metadata,
                player: None,
            },
            action,
        ))
    }

    /// Starts the player part of a Telegram Mini App login for a verified
    /// Telegram user: the wallet is `tg:{id}`, the name follows the Telegram
    /// naming rule, and the player is found or created.
    pub fn start_telegram(user: &TelegramUser, requested_name: Option<String>) -> (r: (
        LoginFlow,
        LoginAction,
    ))
        ensures
            r.0.method == LoginMethod::TelegramMiniApp,
            r.0.stage == LoginStage::AwaitPlayer,
            r.0.wallet@ == telegram_wallet_text(user.id),
            r.0.referral_code is None,
            flow_invariant(r.0),
            r.1 matches LoginAction::FindOrCreate { wallet, name, metadata } && metadata is None
                && wallet@ == telegram_wallet_text(user.id) && name@ == telegram_name(
                opt_view(requested_name),
                user.id,
                opt_view(user.first_name),
                opt_view(user.last_name),
                opt_view(user.username),
            ),
    {
        let wallet = telegram_wallet(user.id);
        let name = telegram_display_name(requested_name, user);
        let action = LoginAction::FindOrCreate { wallet: copy_string(&wallet), name, metadata: None };
        (
            LoginFlow {
                method: LoginMethod::TelegramMiniApp,
                stage: LoginStage::AwaitPlayer,
                wallet,
                requested_name: None,
                referral_code: None,
                referrals_enabled: false,
                metadata: None,
                player: None,
            },
            action,
        )
    }

    /// Takes the outcome of the last action and returns the next action.
    pub fn step(self, event: LoginEvent) -> (r: (LoginFlow, LoginAction))
        requires
            event_fits(self.stage, event),
            flow_invariant(self),
        ensures
            flow_invariant(r.0),
            step_outcome(self, event, r.0, r.1),
    {
        match event {
            LoginEvent::SignatureChecked(ok) => {
                if ok {
                    (LoginFlow { stage: LoginStage::AwaitNonce, ..self }, LoginAction::ExtractNonce)
                } else {
                    finish_error(
                        self,
                        AppError::Unauthorized(
                            String::from_str("Invalid signature — wallet ownership not proven"),
                        ),
                    )
                }
            },
            LoginEvent::NonceExtracted(n) => match n {
                None => finish_error(
                    self,
                    AppError::BadRequest(String::from_str("Invalid SIWE message: missing Nonce field")),
                ),
                Some(nonce) => {
                    let wallet = copy_string(&self.wallet);
                    (
                        LoginFlow { stage: LoginStage::AwaitNonceUse, ..self },
                        LoginAction::ConsumeNonce { wallet, nonce },
                    )
                },
            },
            LoginEvent::NonceConsumed(c) => match c {
                Err(msg) => finish_error(self, AppError::Internal(msg)),
                Ok(valid) => {
                    if valid {
                        self.find_or_create()
                    } else {
                        finish_error(
                            self,
                            AppError::Unauthorized(
                                String::from_str(
                                    "Nonce invalid or expired — request a new nonce and sign again",
                                ),
                            ),
                        )
                    }
                },
            },
            LoginEvent::IdentityChecked(c) => match c {
                Err(reason) => finish_error(self, AppError::Unauthorized(reason)),
                Ok(()) => self.find_or_create(),
            },
            LoginEvent::PlayerStored(s) => match s {
                Err(msg) => finish_error(self, AppError::Internal(msg)),
                Ok(p) => self.after_player_stored(p),
            },
            LoginEvent::ReferralProcessed => {
                if self.method == LoginMethod::Siwe {
                    let wallet = copy_string(&self.wallet);
                    (
                        LoginFlow { stage: LoginStage::AwaitAgent, ..self },
                        LoginAction::CreateAgent { wallet },
                    )
                } else {
                    (LoginFlow { stage: LoginStage::AwaitToken, ..self }, LoginAction::SignToken)
                }
            },
            LoginEvent::AgentCreated => {
                (LoginFlow { stage: LoginStage::AwaitToken, ..self }, LoginAction::SignToken)
            },
            LoginEvent::TokenSigned(t) => match t {
                Err(msg) => finish_error(self, AppError::Internal(msg)),
                Ok(token) => self.respond(token),
            },
        }
    }

    fn find_or_create(self) -> (r: (LoginFlow, LoginAction))
        requires
            self.player is None,
        ensures
            r.0.stage == LoginStage::AwaitPlayer,
            r.0.player is None,
            r.0.method == self.method,
            r.0.wallet@ == self.wallet@,
            keeps_request(self, r.0),
            r.1 matches LoginAction::FindOrCreate { wallet, name, metadata } && wallet@ == self.wallet@
                && store_name_ok(self.requested_name, name@) && metadata == stored_metadata(
                self.metadata,
            ),
    {
        let requested = match &self.requested_name {
            Some(n) => Some(copy_string(n)),
            None => None,
        };
        let name = login_display_name(requested);
        let wallet = copy_string(&self.wallet);
        let metadata = match self.metadata {
            Some(JsonValue::Object(entries)) => Some(JsonValue::Object(entries)),
            _ => None,
        };
        (
            LoginFlow { stage: LoginStage::AwaitPlayer, metadata: None, ..self },
            LoginAction::FindOrCreate { wallet, name, metadata },
        )
    }

    fn after_player_stored(self, p: StoredPlayer) -> (r: (LoginFlow, LoginAction))
        requires
            self.player is None,
        ensures
            after_store(self, p, r.0, r.1),
            r.0.player == Some(p),
            r.0.method == self.method,
            r.0.wallet@ == self.wallet@,
            keeps_request(self, r.0),
    {
        let referral = if p.is_new && self.referrals_enabled && self.method != LoginMethod::TelegramMiniApp {
            match &self.referral_code {
                Some(code) => Some(copy_string(code)),
                None => None,
            }
        } else {
            None
        };
        match referral {
            Some(code) => {
                let player_id = match &p.id_hex {
                    Some(h) => copy_string(h),
                    None => copy_string(&self.wallet),
                };
                (
                    LoginFlow { stage: LoginStage::AwaitReferral, player: Some(p), ..self },
                    LoginAction::ProcessReferral { player_id, code },
                )
            },
            None => {
                if p.is_new && self.method != LoginMethod::Privy {
                    let wallet = copy_string(&self.wallet);
                    (
                        LoginFlow { stage: LoginStage::AwaitAgent, player: Some(p), ..self },
                        LoginAction::CreateAgent { wallet },
                    )
                } else {
                    (
                        LoginFlow { stage: LoginStage::AwaitToken, player: Some(p), ..self },
                        LoginAction::SignToken,
                    )
                }
            },
        }
    }

    fn respond(self, token: String) -> (r: (LoginFlow, LoginAction))
        requires
            self.player is Some,
        ensures
            r.0.stage == LoginStage::Finished,
            r.0.player is None,
            r.0.method == self.method,
            r.0.wallet@ == self.wallet@,
            r.1 matches LoginAction::Finish(Ok(resp)) && response_of(self.player.unwrap(), token@, resp),
    {
        let p = match &self.player {
            Some(p) => p,
            None => {
                proof {
                    assert(false);
                }
                return finish_error(self, AppError::Internal(String::new()));
            },
        };
        let id = match &p.id_hex {
            Some(h) => copy_string(h),
            None => String::new(),
        };
        let info = PlayerInfo {
            id,
            wallet_address: copy_string(&p.wallet_address),
            name: copy_string(&p.name),
        };
        let resp = LoginResponse { token, player: info };
        (LoginFlow { stage: LoginStage::Finished, player: None, ..self }, LoginAction::Finish(Ok(resp)))
    }
}

} // verus!
