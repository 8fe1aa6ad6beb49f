//! Configuration derived from environment values: the Telegram bot settings
//! and the authentication settings.
//!
//! Reading the environment happens outside; these functions take the value
//! of each variable (`None` when it is unset or not Unicode) and apply the
//! defaults and filters.

use vstd::prelude::*;
use vstd::string::*;

use crate::numeric::{parse_i64, parse_i64_spec, parse_u64, parse_u64_spec};
use crate::text::{trim, trim_str};

verus! {

/// The text of an optional `String`.
pub open spec fn opt_view(o: Option<String>) -> Option<Seq<char>> {
    match o {
        Some(s) => Some(s@),
        None => None,
    }
}

/// The trimmed value, unless it is empty after trimming.
pub open spec fn trimmed_nonempty(v: Option<Seq<char>>) -> Option<Seq<char>> {
    match v {
        Some(s) => if trim(s).len() == 0 {
            None
        } else {
            Some(trim(s))
        },
        None => None,
    }
}

/// The value as it stands, unless it is empty after trimming.
pub open spec fn nonblank(v: Option<Seq<char>>) -> Option<Seq<char>> {
    match v {
        Some(s) => if trim(s).len() == 0 {
            None
        } else {
            Some(s)
        },
        None => None,
    }
}

/// The value, or the default when unset.
pub open spec fn or_default(v: Option<Seq<char>>, default: Seq<char>) -> Seq<char> {
    match v {
        Some(s) => s,
        None => default,
    }
}

/// A trimmed, non-empty environment value (the Telegram settings' reading).
pub fn trimmed_optional(value: Option<String>) -> (r: Option<String>)
    ensures
        opt_view(r) == trimmed_nonempty(opt_view(value)),
{
    match value {
        Some(v) => {
            let t = trim_str(v.as_str());
            if t.unicode_len() == 0 {
                None
            } else {
                Some(String::from_str(t))
            }
        },
        None => None,
    }
}

/// An environment value that is not blank, kept untrimmed (the
/// authentication settings' reading).
pub fn nonblank_optional(value: Option<String>) -> (r: Option<String>)
    ensures
        opt_view(r) == nonblank(opt_view(value)),
{
    match value {
        Some(v) => {
            let blank = trim_str(v.as_str()).unicode_len() == 0;
            if blank {
                None
            } else {
                Some(v)
            }
        },
        None => None,
    }
}

fn value_or(value: Option<String>, default: &str) -> (r: String)
    ensures
        r@ == or_default(opt_view(value), default@),
{
    match value {
        Some(v) => v,
        None => String::from_str(default),
    }
}

pub const DEFAULT_TELEGRAM_MINI_APP_URL: &'static str = "https://kult-telegram-mrvv3.ondigitalocean.app/";

pub const DEFAULT_TELEGRAM_WEBHOOK_URL: &'static str =
    "https://kult-browser-rust-l2lwg.ondigitalocean.app/api/telegram/webhook";

/// Telegram bot settings.
#[derive(Debug, Clone)]
pub struct TelegramConfig {
    pub bot_token: Option<String>,
    pub mini_app_url: String,
    pub webhook_url: Option<String>,
    pub webhook_secret_token: Option<String>,
    pub admin_secret: Option<String>,
}

impl TelegramConfig {
    /// Derives the settings from the values of `TELEGRAM_BOT_TOKEN`,
    /// `TELEGRAM_MINI_APP_URL`, `TELEGRAM_WEBHOOK_URL`,
    /// `TELEGRAM_WEBHOOK_SECRET_TOKEN` and `TELEGRAM_ADMIN_SECRET`.
    pub fn from_values(
        bot_token: Option<String>,
        mini_app_url: Option<String>,
        webhook_url: Option<String>,
        webhook_secret_token: Option<String>,
        admin_secret: Option<String>,
    ) -> (c: TelegramConfig)
        ensures
            opt_view(c.bot_token) == trimmed_nonempty(opt_view(bot_token)),
            c.mini_app_url@ == or_default(opt_view(mini_app_url), DEFAULT_TELEGRAM_MINI_APP_URL@),
            opt_view(c.webhook_url) == Some(
                or_default(opt_view(webhook_url), DEFAULT_TELEGRAM_WEBHOOK_URL@),
            ),
            opt_view(c.webhook_secret_token) == trimmed_nonempty(opt_view(webhook_secret_token)),
            opt_view(c.admin_secret) == trimmed_nonempty(opt_view(admin_secret)),
    {
        TelegramConfig {
            bot_token: trimmed_optional(bot_token),
            mini_app_url: value_or(mini_app_url, DEFAULT_TELEGRAM_MINI_APP_URL),
            webhook_url: Some(value_or(webhook_url, DEFAULT_TELEGRAM_WEBHOOK_URL)),
            webhook_secret_token: trimmed_optional(webhook_secret_token),
            admin_secret: trimmed_optional(admin_secret),
        }
    }

    /// The bot is enabled when a bot token is configured.
    pub fn enabled(&self) -> (b: bool)
        ensures
            b == self.bot_token is Some,
    {
        self.bot_token.is_some()
    }
}

pub const DEFAULT_JWT_SECRET: &'static str = "dev-secret-change-me";

pub const DEFAULT_SIWE_DOMAIN: &'static str = "app.kultgames.io";

pub const DEFAULT_SIWE_URI: &'static str = "https://app.kultgames.io";

/// Authentication settings for JWT tokens, SIWE and Privy.
#[derive(Debug, Clone)]
pub struct AuthConfig {
    /// JWT signing secret (required in production)
    pub jwt_secret: String,
    /// Token expiration in days (default: 7)
    pub jwt_expiration_days: i64,
    /// Domain shown in SIWE message (default: app.kultgames.io)
    pub siwe_domain: String,
    /// URI shown in SIWE message (default: https://app.kultgames.io)
    pub siwe_uri: String,
    /// EVM chain ID for SIWE (default: 1 = Ethereum mainnet)
    pub siwe_chain_id: u64,
    /// Privy app ID used as JWT audience for identity-token based login.
    pub privy_app_id: Option<String>,
    /// Privy identity token verification key in JWK JSON format.
    pub privy_verification_key_jwk: Option<String>,
    /// Privy identity token verification key in PEM format.
    pub privy_verification_key_pem: Option<String>,
}

/// The parsed value of a setting, or the default when unset or unparsable.
pub open spec fn parsed_i64_or(v: Option<Seq<char>>, default: i64) -> i64 {
    match v {
        Some(s) => match parse_i64_spec(vstd::utf8::encode_utf8(s)) {
            Some(x) => x,
            None => default,
        },
        None => default,
    }
}

/// The parsed value of a setting, or the default when unset or unparsable.
pub open spec fn parsed_u64_or(v: Option<Seq<char>>, default: u64) -> u64 {
    match v {
        Some(s) => match parse_u64_spec(vstd::utf8::encode_utf8(s)) {
            Some(x) => x,
            None => default,
        },
        None => default,
    }
}

impl AuthConfig {
    /// Derives the settings from the values of `JWT_SECRET`,
    /// `JWT_EXPIRATION_DAYS`, `SIWE_DOMAIN`, `SIWE_URI`, `SIWE_CHAIN_ID`,
    /// `PRIVY_APP_ID`, `PRIVY_VERIFICATION_KEY_JWK` and
    /// `PRIVY_VERIFICATION_KEY_PEM`.
    pub fn from_values(
        jwt_secret: Option<String>,
        jwt_expiration_days: Option<String>,
        siwe_domain: Option<String>,
        siwe_uri: Option<String>,
        siwe_chain_id: Option<String>,
        privy_app_id: Option<String>,
        privy_verification_key_jwk: Option<String>,
        privy_verification_key_pem: Option<String>,
    ) -> (c: AuthConfig)
        ensures
            c.jwt_secret@ == or_default(opt_view(jwt_secret), DEFAULT_JWT_SECRET@),
            c.jwt_expiration_days == parsed_i64_or(opt_view(jwt_expiration_days), 7),
            c.siwe_domain@ == or_default(opt_view(siwe_domain), DEFAULT_SIWE_DOMAIN@),
            c.siwe_uri@ == or_default(opt_view(siwe_uri), DEFAULT_SIWE_URI@),
            c.siwe_chain_id == parsed_u64_or(opt_view(siwe_chain_id), 1),
            opt_view(c.privy_app_id) == nonblank(opt_view(privy_app_id)),
            opt_view(c.privy_verification_key_jwk) == nonblank(opt_view(privy_verification_key_jwk)),
            opt_view(c.privy_verification_key_pem) == nonblank(opt_view(privy_verification_key_pem)),
    {
        let days = match jwt_expiration_days {
            Some(v) => match parse_i64(v.as_str().as_bytes()) {
                Some(x) => x,
                None => 7,
            },
            None => 7,
        };
        let chain = match siwe_chain_id {
            Some(v) => match parse_u64(v.as_str().as_bytes()) {
                Some(x) => x,
                None => 1,
            },
            None => 1,
        };
        AuthConfig {
            jwt_secret: value_or(jwt_secret, DEFAULT_JWT_SECRET),
            jwt_expiration_days: days,
            siwe_domain: value_or(siwe_domain, DEFAULT_SIWE_DOMAIN),
            siwe_uri: value_or(siwe_uri, DEFAULT_SIWE_URI),
            siwe_chain_id: chain,
            privy_app_id: nonblank_optional(privy_app_id),
            privy_verification_key_jwk: nonblank_optional(privy_verification_key_jwk),
            privy_verification_key_pem: nonblank_optional(privy_verification_key_pem),
        }
    }
}

/// The configuration sections of the service that this library covers.
#[derive(Debug, Clone)]
pub struct Config {
    pub auth: AuthConfig,
    pub telegram: TelegramConfig,
}

} // verus!
