//! Verified core of the Kult Games browser backend: Telegram Mini App
//! `initData` authentication, configuration derivation, player and
//! Telegram bot decision logic.

pub mod clock;
pub mod config;
pub mod crypto;
pub mod document;
pub mod error;
pub mod game;
pub mod init_data;
pub mod init_data_laws;
pub mod json;
pub mod login_flow;
pub mod login_laws;
pub mod numeric;
pub mod openapi;
pub mod player;
pub mod privy;
pub mod profile_flow;
pub mod server;
pub mod telegram_bot;
pub mod text;
