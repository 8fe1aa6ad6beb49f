//! Decisions of the Telegram bot: which updates get the Mini App button,
//! webhook and admin secret checks, Bot API calls and their replies.

use vstd::prelude::*;
use vstd::string::*;

use crate::config::{opt_view, TelegramConfig};
use crate::error::{is_bad_request, is_unauthorized, AppError};
use crate::text::{bytes_start_with, starts_with_bytes, str_equal};

verus! {

/// The chat an update came from.
pub struct TelegramChat {
    pub id: i64,
}

/// A message sent to the bot.
pub struct TelegramMessage {
    pub chat: TelegramChat,
    pub text: Option<String>,
}

/// An update delivered to the bot's webhook.
pub struct TelegramUpdate {
    pub message: Option<TelegramMessage>,
}

/// The bot status reported by `GET /api/telegram/status`.
pub struct TelegramStatus {
    pub enabled: bool,
    pub mini_app_url: String,
    pub webhook_configured: bool,
}

/// `/start`
pub open spec fn start_command() -> Seq<u8> {
    seq![47u8, 115, 116, 97, 114, 116]
}

/// `/app`
pub open spec fn app_command() -> Seq<u8> {
    seq![47u8, 97, 112, 112]
}

/// The chat to which an update makes the bot send the Mini App button: a
/// message whose text starts with `/start` or `/app`.
pub open spec fn button_chat(update: TelegramUpdate) -> Option<i64> {
    match update.message {
        None => None,
        Some(m) => {
            let text = match m.text {
                Some(t) => vstd::utf8::encode_utf8(t@),
                None => Seq::empty(),
            };
            if bytes_start_with(text, start_command()) || bytes_start_with(text, app_command()) {
                Some(m.chat.id)
            } else {
                None
            }
        },
    }
}

/// A message gets the Mini App button exactly when its text begins with the
/// bytes of `/start` or of `/app` (the bare commands included), and the
/// button goes to the message's chat; an update without a message, or a
/// message without such text, gets nothing.
pub proof fn law_start_and_app_get_the_button(update: TelegramUpdate)
    ensures
        button_chat(update) == match update.message {
            None => None,
            Some(m) => match m.text {
                Some(t) => if bytes_start_with(vstd::utf8::encode_utf8(t@), seq![47u8, 115, 116, 97, 114, 116])
                    || bytes_start_with(vstd::utf8::encode_utf8(t@), seq![47u8, 97, 112, 112]) {
                    Some(m.chat.id)
                } else {
                    None
                },
                None => None,
            },
        },
{
    assert(start_command() =~= seq![47u8, 115, 116, 97, 114, 116]);
    assert(app_command() =~= seq![47u8, 97, 112, 112]);
    match update.message {
        Some(m) => {
            if m.text is None {
                assert(!bytes_start_with(Seq::<u8>::empty(), start_command()));
                assert(!bytes_start_with(Seq::<u8>::empty(), app_command()));
            }
        },
        None => {},
    }
}

/// Handling an update: the chat to send the Mini App button to, if any.
pub fn mini_app_button_chat(update: &TelegramUpdate) -> (r: Option<i64>)
    ensures
        r == button_chat(*update),
{
    match &update.message {
        None => None,
        Some(m) => {
            let start: Vec<u8> = vec![47u8, 115, 116, 97, 114, 116];
            let app: Vec<u8> = vec![47u8, 97, 112, 112];
            proof {
                assert(start@ =~= start_command());
                assert(app@ =~= app_command());
            }
            let hit = match &m.text {
                Some(t) => starts_with_bytes(t.as_str(), start.as_slice()) || starts_with_bytes(
                    t.as_str(),
                    app.as_slice(),
                ),
                None => {
                    proof {
                        assert(!bytes_start_with(Seq::<u8>::empty(), start_command()));
                        assert(!bytes_start_with(Seq::<u8>::empty(), app_command()));
                    }
                    false
                },
            };
            if hit {
                Some(m.chat.id)
            } else {
                None
            }
        },
    }
}

/// The status of the bot under a configuration.
pub fn telegram_status(config: &TelegramConfig) -> (s: TelegramStatus)
    ensures
        s.enabled == config.bot_token is Some,
        s.mini_app_url@ == config.mini_app_url@,
        s.webhook_configured == config.webhook_url is Some,
{
    TelegramStatus {
        enabled: config.enabled(),
        mini_app_url: config.mini_app_url.clone(),
        webhook_configured: config.webhook_url.is_some(),
    }
}

/// A request passes a secret check when no secret is configured, or when
/// the header holds exactly the configured secret.
pub open spec fn secret_accepted(expected: Option<&str>, actual: Option<&str>) -> bool {
    match expected {
        None => true,
        Some(e) => actual matches Some(a) && a@ == e@,
    }
}

fn check_secret(expected: Option<&str>, actual: Option<&str>, failure: &str) -> (r: Result<
    (),
    AppError,
>)
    ensures
        r is Ok <==> secret_accepted(expected, actual),
        r matches Err(e) ==> is_unauthorized(e, failure@),
{
    match expected {
        None => Ok(()),
        Some(e) => {
            let same = match actual {
                Some(a) => str_equal(a, e),
                None => false,
            };
            if same {
                Ok(())
            } else {
                Err(AppError::Unauthorized(String::from_str(failure)))
            }
        },
    }
}

/// Checks the `x-telegram-bot-api-secret-token` header of a webhook call.
pub fn verify_webhook_secret(expected: Option<&str>, actual: Option<&str>) -> (r: Result<
    (),
    AppError,
>)
    ensures
        r is Ok <==> secret_accepted(expected, actual),
        r matches Err(e) ==> is_unauthorized(e, "Invalid Telegram webhook secret"@),
{
    check_secret(expected, actual, "Invalid Telegram webhook secret")
}

/// Checks the `x-telegram-admin-secret` header of an admin call.
pub fn verify_admin_secret(expected: Option<&str>, actual: Option<&str>) -> (r: Result<
    (),
    AppError,
>)
    ensures
        r is Ok <==> secret_accepted(expected, actual),
        r matches Err(e) ==> is_unauthorized(e, "Invalid Telegram admin secret"@),
{
    check_secret(expected, actual, "Invalid Telegram admin secret")
}

/// The Bot API endpoint of a method: `https://api.telegram.org/bot{token}/{method}`.
pub fn telegram_method_url(bot_token: Option<&str>, method: &str) -> (r: Result<String, AppError>)
    ensures
        match bot_token {
            None => r matches Err(e) && is_bad_request(e, "TELEGRAM_BOT_TOKEN is not configured"@),
            Some(t) => r matches Ok(url) && url@ == "https://api.telegram.org/bot"@ + t@ + "/"@
                + method@,
        },
{
    match bot_token {
        None => Err(AppError::BadRequest(String::from_str("TELEGRAM_BOT_TOKEN is not configured"))),
        Some(t) => {
            let mut url = String::from_str("https://api.telegram.org/bot");
            url.append(t);
            url.append("/");
            url.append(method);
            Ok(url)
        },
    }
}

/// A Bot API reply counts as a success when its HTTP status is 2xx and its
/// body's `ok` field is `true`.
pub fn telegram_reply_succeeded(status: u16, ok_field: Option<bool>) -> (b: bool)
    ensures
        b == (200 <= status <= 299 && ok_field == Some(true)),
{
    200 <= status && status <= 299 && match ok_field {
        Some(ok) => ok,
        None => false,
    }
}

/// The webhook URL that registering the webhook requires.
pub fn required_webhook_url(webhook_url: Option<&str>) -> (r: Result<&str, AppError>)
    ensures
        match webhook_url {
            Some(u) => r == Ok::<&str, AppError>(u),
            None => r matches Err(e) && is_bad_request(e, "TELEGRAM_WEBHOOK_URL is required"@),
        },
{
    match webhook_url {
        Some(u) => Ok(u),
        None => Err(AppError::BadRequest(String::from_str("TELEGRAM_WEBHOOK_URL is required"))),
    }
}

/// The text of the message that carries the Mini App button.
pub const MINI_APP_MESSAGE_TEXT: &'static str = "Open Kult Games inside Telegram.";

/// The label of the Mini App button and of the chat menu button.
pub const MINI_APP_BUTTON_TEXT: &'static str = "Open Kult Games";

/// A `sendMessage` request: a text with one inline button that opens the
/// Mini App.
pub struct MiniAppButtonMessage {
    pub chat_id: i64,
    pub text: String,
    pub button_text: String,
    pub web_app_url: String,
}

/// The message that offers the Mini App to a chat.
pub fn mini_app_button_message(chat_id: i64, mini_app_url: &str) -> (m: MiniAppButtonMessage)
    ensures
        m.chat_id == chat_id,
        m.text@ == MINI_APP_MESSAGE_TEXT@,
        m.button_text@ == MINI_APP_BUTTON_TEXT@,
        m.web_app_url@ == mini_app_url@,
{
    MiniAppButtonMessage {
        chat_id,
        text: String::from_str(MINI_APP_MESSAGE_TEXT),
        button_text: String::from_str(MINI_APP_BUTTON_TEXT),
        web_app_url: String::from_str(mini_app_url),
    }
}

/// A `setChatMenuButton` request: a `web_app` menu button opening the Mini
/// App.
pub struct MenuButton {
    pub button_type: String,
    pub text: String,
    pub web_app_url: String,
}

/// The chat menu button that opens the Mini App.
pub fn mini_app_menu_button(mini_app_url: &str) -> (b: MenuButton)
    ensures
        b.button_type@ == "web_app"@,
        b.text@ == MINI_APP_BUTTON_TEXT@,
        b.web_app_url@ == mini_app_url@,
{
    MenuButton {
        button_type: String::from_str("web_app"),
        text: String::from_str(MINI_APP_BUTTON_TEXT),
        web_app_url: String::from_str(mini_app_url),
    }
}

/// A `setWebhook` request.
pub struct WebhookRegistration {
    pub url: String,
    pub allowed_updates: Vec<String>,
    /// Sent only when a webhook secret is configured.
    pub secret_token: Option<String>,
}

/// The webhook registration of a configuration: its webhook URL, updates
/// of kind `message` only, and its webhook secret when there is one. A
/// configuration without a webhook URL cannot register one.
pub fn webhook_registration(config: &TelegramConfig) -> (r: Result<WebhookRegistration, AppError>)
    ensures
        match config.webhook_url {
            None => r matches Err(e) && is_bad_request(e, "TELEGRAM_WEBHOOK_URL is required"@),
            Some(u) => r matches Ok(w) && w.url@ == u@ && w.allowed_updates@.len() == 1
                && w.allowed_updates@[0]@ == "message"@ && opt_view(w.secret_token) == opt_view(
                config.webhook_secret_token,
            ),
        },
{
    let url = required_webhook_url(as_str_option(&config.webhook_url))?;
    let mut allowed_updates: Vec<String> = Vec::new();
    allowed_updates.push(String::from_str("message"));
    let secret_token = match &config.webhook_secret_token {
        Some(t) => Some(t.clone()),
        None => None,
    };
    Ok(WebhookRegistration { url: String::from_str(url), allowed_updates, secret_token })
}

fn as_str_option(o: &Option<String>) -> (r: Option<&str>)
    ensures
        match o {
            Some(s) => r matches Some(t) && t@ == s@,
            None => r is None,
        },
{
    match o {
        Some(s) => Some(s.as_str()),
        None => None,
    }
}

/// A `deleteWebhook` request.
pub struct WebhookRemoval {
    pub drop_pending_updates: bool,
}

/// Removing the webhook also drops the updates still pending.
pub fn webhook_removal() -> (r: WebhookRemoval)
    ensures
        r.drop_pending_updates,
{
    WebhookRemoval { drop_pending_updates: true }
}

} // verus!
