//! Player login, profile and naming rules, and the player API payloads.

use vstd::prelude::*;
use vstd::string::*;

use crate::clock::now_unix_millis;
use crate::config::opt_view;
use crate::error::{is_bad_request, is_internal, is_unauthorized, AppError};
use crate::init_data::{
    init_data_decodable, init_data_verdict, verify_telegram_init_data, TelegramUser,
};
use crate::numeric::{hex_digits, i64_decimal, push_hex_digits, push_i64_decimal};
use crate::text::{all_ascii, ascii_chars, ascii_string, trim, trim_str};

verus! {

broadcast use vstd::seq::group_seq_axioms;

/// `GET /api/player/nonce` query.
pub struct NonceQuery {
    pub wallet_address: String,
}

/// `GET /api/player/nonce` response body.
pub struct NonceResponse {
    pub nonce: String,
}

/// Minimal player info returned on login.
pub struct PlayerInfo {
    pub id: String,
    pub wallet_address: String,
    pub name: String,
}

/// `POST /api/player/login` response body.
pub struct LoginResponse {
    pub token: String,
    pub player: PlayerInfo,
}

/// `PATCH /api/player/name` request body.
pub struct UpdateNameRequest {
    pub name: String,
}

/// `PATCH /api/player/name` response body.
pub struct UpdateNameResponse {
    pub name: String,
}

pub open spec fn wallet_required_message() -> Seq<char> {
    "walletAddress is required"@
}

/// The wallet address of a login request: trimmed, and required to be non-empty.
pub fn normalize_wallet(wallet_address: &str) -> (r: Result<String, AppError>)
    ensures
        match r {
            Ok(w) => w@ == trim(wallet_address@) && w@.len() > 0,
            Err(e) => trim(wallet_address@).len() == 0 && is_bad_request(e, wallet_required_message()),
        },
{
    let wallet = trim_str(wallet_address);
    if wallet.unicode_len() == 0 {
        Err(AppError::BadRequest(String::from_str("walletAddress is required")))
    } else {
        Ok(String::from_str(wallet))
    }
}

/// The client address recorded for a login: the `x-forwarded-for` header
/// when it is readable text, else `0.0.0.0`.
pub fn client_ip(forwarded_for: Option<&str>) -> (ip: &str)
    ensures
        match forwarded_for {
            Some(h) => ip == h,
            None => ip@ == "0.0.0.0"@,
        },
{
    match forwarded_for {
        Some(h) => h,
        None => "0.0.0.0",
    }
}

/// The nonce endpoint refuses an empty (untrimmed) wallet address.
pub fn check_nonce_wallet(wallet_address: &str) -> (r: Result<(), AppError>)
    ensures
        r is Ok <==> wallet_address@.len() > 0,
        r matches Err(e) ==> is_bad_request(e, "walletAddress query param is required"@),
{
    if wallet_address.unicode_len() == 0 {
        Err(AppError::BadRequest(String::from_str("walletAddress query param is required")))
    } else {
        Ok(())
    }
}

/// `kult-player_`
pub open spec fn default_name_prefix() -> Seq<u8> {
    seq![107u8, 117, 108, 116, 45, 112, 108, 97, 121, 101, 114, 95]
}

/// The first `n` characters of `s`, or all of them when it is shorter.
pub open spec fn take_up_to<A>(s: Seq<A>, n: nat) -> Seq<A> {
    if s.len() <= n {
        s
    } else {
        s.subrange(0, n as int)
    }
}

/// The generated name of a player registered at `millis`: `kult-player_`
/// followed by the last eight digits of `{:x}` of the timestamp, reversed.
pub open spec fn default_player_name(millis: i64) -> Seq<char> {
    ascii_chars(default_name_prefix() + take_up_to(hex_digits((millis as u64) as nat).reverse(), 8))
}

proof fn lemma_hex_digits_ascii(v: nat)
    ensures
        all_ascii(hex_digits(v)),
        hex_digits(v).len() >= 1,
    decreases v,
{
    if v >= 16 {
        lemma_hex_digits_ascii(v / 16);
    }
}

/// The name generated for a player registered at `millis`.
pub fn default_name_at(millis: i64) -> (name: String)
    ensures
        name@ == default_player_name(millis),
{
    let mut digits: Vec<u8> = Vec::new();
    push_hex_digits(&mut digits, millis as u64);
    let ghost h = hex_digits((millis as u64) as nat);
    proof {
        assert(digits@ =~= h);
        lemma_hex_digits_ascii((millis as u64) as nat);
    }
    let mut out: Vec<u8> = vec![107u8, 117, 108, 116, 45, 112, 108, 97, 121, 101, 114, 95];
    let ghost base = out@;
    proof {
        assert(base =~= default_name_prefix());
    }
    let n = digits.len();
    let mut k: usize = 0;
    while k < 8 && k < n
        invariant
            n == digits@.len(),
            digits@ == h,
            k <= 8,
            k <= n,
            out@ == base + h.reverse().subrange(0, k as int),
        decreases 8 - k,
    {
        let c = digits[n - 1 - k];
        proof {
            assert(h.reverse()[k as int] == h[n - 1 - k]);
            assert(h.reverse().subrange(0, k + 1) =~= h.reverse().subrange(0, k as int).push(c));
        }
        out.push(c);
        k = k + 1;
    }
    proof {
        assert(take_up_to(h.reverse(), 8) =~= h.reverse().subrange(0, k as int));
        assert(out@ =~= default_name_prefix() + take_up_to(h.reverse(), 8));
        assert forall|i: int| 0 <= i < out@.len() implies #[trigger] out@[i] < 128 by {
            if i >= 12 {
                assert(out@[i] == h[n - 1 - (i - 12)]);
            }
        }
    }
    ascii_string(out.as_slice())
}

/// The display name of a login: the requested one, else a name generated
/// from the current time.
pub fn login_display_name(requested: Option<String>) -> (name: String)
    ensures
        match requested {
            Some(n) => name@ == n@,
            None => exists|millis: i64| name@ == #[trigger] default_player_name(millis),
        },
{
    match requested {
        Some(n) => n,
        None => {
            let millis = now_unix_millis();
            default_name_at(millis)
        },
    }
}

/// `tg:` followed by `{}` of the Telegram user id.
pub open spec fn telegram_wallet_text(id: i64) -> Seq<char> {
    ascii_chars(seq![116u8, 103, 58] + i64_decimal(id))
}

/// `tg-player-` followed by `{}` of the Telegram user id.
pub open spec fn telegram_fallback_name(id: i64) -> Seq<char> {
    ascii_chars(seq![116u8, 103, 45, 112, 108, 97, 121, 101, 114, 45] + i64_decimal(id))
}

proof fn lemma_decimal_ascii(v: nat)
    ensures
        all_ascii(crate::numeric::decimal_digits(v)),
    decreases v,
{
    if v >= 10 {
        lemma_decimal_ascii(v / 10);
    }
}

fn ascii_with_decimal(prefix: Vec<u8>, id: i64) -> (s: String)
    requires
        all_ascii(prefix@),
    ensures
        s@ == ascii_chars(prefix@ + i64_decimal(id)),
{
    let mut out = prefix;
    let ghost p = out@;
    push_i64_decimal(&mut out, id);
    proof {
        if id < 0 {
            lemma_decimal_ascii((0 - id) as nat);
        } else {
            lemma_decimal_ascii(id as nat);
        }
        let d = i64_decimal(id);
        assert forall|i: int| 0 <= i < out@.len() implies #[trigger] out@[i] < 128 by {
            if i >= p.len() {
                assert(out@[i] == d[i - p.len()]);
                if id < 0 && i > p.len() {
                    assert(d[i - p.len()] == crate::numeric::decimal_digits((0 - id) as nat)[i - p.len() - 1]);
                }
            }
        }
    }
    ascii_string(out.as_slice())
}

/// The wallet key of a Telegram Mini App player: `tg:{id}`.
pub fn telegram_wallet(id: i64) -> (w: String)
    ensures
        w@ == telegram_wallet_text(id),
{
    ascii_with_decimal(vec![116u8, 103, 58], id)
}

/// The display name of a Telegram Mini App player.
pub open spec fn telegram_name(
    requested: Option<Seq<char>>,
    id: i64,
    first_name: Option<Seq<char>>,
    last_name: Option<Seq<char>>,
    username: Option<Seq<char>>,
) -> Seq<char> {
    match requested {
        Some(n) => n,
        None => match username {
            Some(u) => u,
            None => match (first_name, last_name) {
                (Some(f), Some(l)) => f + seq![' '] + l,
                (Some(f), None) => f,
                (None, Some(l)) => l,
                (None, None) => telegram_fallback_name(id),
            },
        },
    }
}

/// The display name of a Telegram Mini App login: the requested name, else
/// the Telegram username, else the first and last names joined by a space,
/// else `tg-player-{id}`.
pub fn telegram_display_name(requested: Option<String>, user: &TelegramUser) -> (name: String)
    ensures
        name@ == telegram_name(
            opt_view(requested),
            user.id,
            opt_view(user.first_name),
            opt_view(user.last_name),
            opt_view(user.username),
        ),
{
    match requested {
        Some(n) => n,
        None => match &user.username {
            Some(u) => u.clone(),
            None => match (&user.first_name, &user.last_name) {
                (Some(f), Some(l)) => {
                    let mut s = f.clone();
                    s.append(" ");
                    proof {
                        reveal_strlit(" ");
                    }
                    s.append(l.as_str());
                    s
                },
                (Some(f), None) => f.clone(),
                (None, Some(l)) => l.clone(),
                (None, None) => ascii_with_decimal(
                    vec![116u8, 103, 45, 112, 108, 97, 121, 101, 114, 45],
                    user.id,
                ),
            },
        },
    }
}

pub open spec fn missing_bot_token_message() -> Seq<char> {
    "TELEGRAM_BOT_TOKEN is not configured on the server"@
}

/// The first step of a Telegram Mini App login: a bot token must be
/// configured, and the init data must verify against it. Returns the raw
/// `user` JSON of the init data.
pub fn telegram_login_user_json(bot_token: Option<&str>, init_data: &str) -> (r: Result<
    String,
    AppError,
>)
    requires
        bot_token is Some ==> init_data_decodable(init_data.spec_bytes()),
    ensures
        bot_token is None ==> (r matches Err(e) && is_internal(e, missing_bot_token_message())),
        bot_token matches Some(token) ==> exists|now: i64|
            match #[trigger] init_data_verdict(init_data.spec_bytes(), token.spec_bytes(), now) {
                Ok(user) => (r matches Ok(u) && u@ == user),
                Err(reason) => (r matches Err(e) && is_unauthorized(e, reason)),
            },
{
    let token = match bot_token {
        Some(t) => t,
        None => {
            return Err(
                AppError::Internal(
                    String::from_str("TELEGRAM_BOT_TOKEN is not configured on the server"),
                ),
            );
        },
    };
    match verify_telegram_init_data(init_data, token) {
        Ok(user) => Ok(user),
        Err(reason) => Err(AppError::Unauthorized(reason)),
    }
}

pub open spec fn name_empty_message() -> Seq<char> {
    "Name cannot be empty"@
}

pub open spec fn name_too_long_message() -> Seq<char> {
    "Name cannot exceed 100 characters"@
}

/// A new display name: trimmed, non-empty, and at most 100 bytes of UTF-8.
pub fn validate_new_name(name: &str) -> (r: Result<String, AppError>)
    ensures
        ({
            let t = trim(name@);
            match r {
                Ok(n) => n@ == t && t.len() > 0 && vstd::utf8::encode_utf8(t).len() <= 100,
                Err(e) => if t.len() == 0 {
                    is_bad_request(e, name_empty_message())
                } else {
                    vstd::utf8::encode_utf8(t).len() > 100 && is_bad_request(
                        e,
                        name_too_long_message(),
                    )
                },
            }
        }),
{
    let new_name = trim_str(name);
    if new_name.unicode_len() == 0 {
        return Err(AppError::BadRequest(String::from_str("Name cannot be empty")));
    }
    if new_name.as_bytes().len() > 100 {
        return Err(AppError::BadRequest(String::from_str("Name cannot exceed 100 characters")));
    }
    Ok(String::from_str(new_name))
}

/// The name stored by the repository: trimmed, and refused when empty.
pub fn repository_name(new_name: &str) -> (r: Result<String, String>)
    ensures
        match r {
            Ok(n) => n@ == trim(new_name@) && n@.len() > 0,
            Err(e) => trim(new_name@).len() == 0 && e@ == name_empty_message(),
        },
{
    let trimmed = trim_str(new_name);
    if trimmed.unicode_len() == 0 {
        Err(String::from_str("Name cannot be empty"))
    } else {
        Ok(String::from_str(trimmed))
    }
}

/// The wallet and name written for a new player: both trimmed.
pub fn new_player_fields(wallet_address: &str, name: &str) -> (r: (String, String))
    ensures
        r.0@ == trim(wallet_address@),
        r.1@ == trim(name@),
{
    (String::from_str(trim_str(wallet_address)), String::from_str(trim_str(name)))
}

/// The wallet addresses looked up together: each trimmed, in order.
pub fn trimmed_wallets(wallet_addresses: &[String]) -> (r: Vec<String>)
    ensures
        r@.len() == wallet_addresses@.len(),
        forall|i: int| 0 <= i < r@.len() ==> #[trigger] r@[i]@ == trim(wallet_addresses@[i]@),
{
    let mut out: Vec<String> = Vec::new();
    let mut i: usize = 0;
    while i < wallet_addresses.len()
        invariant
            i <= wallet_addresses@.len(),
            out@.len() == i,
            forall|j: int| 0 <= j < i ==> #[trigger] out@[j]@ == trim(wallet_addresses@[j]@),
        decreases wallet_addresses@.len() - i,
    {
        let w = String::from_str(trim_str(wallet_addresses[i].as_str()));
        out.push(w);
        i = i + 1;
    }
    out
}

/// KULT points of a profile: the stored `kultPoints` balance, or 0 when
/// the player has none.
pub fn profile_kult_points(kult_points: Option<i64>) -> (p: i64)
    ensures
        p == match kult_points {
            Some(k) => k,
            None => 0,
        },
{
    match kult_points {
        Some(k) => k,
        None => 0,
    }
}

/// Rank and level of a profile from the global leaderboard entry
/// `(rank, level)`: unranked players are at level 1.
pub fn profile_rank_and_level(entry: Option<(u32, u32)>) -> (r: (Option<u32>, u32))
    ensures
        r == match entry {
            Some(e) => (Some(e.0), e.1),
            None => (None::<u32>, 1u32),
        },
{
    match entry {
        Some((rank, level)) => (Some(rank), level),
        None => (None, 1),
    }
}

/// A player returned by the login upsert is new when its creation time is
/// the time written by this upsert.
pub fn was_created_now(created_at_millis: Option<i64>, now_millis: i64) -> (b: bool)
    ensures
        b == (created_at_millis == Some(now_millis)),
{
    match created_at_millis {
        Some(ca) => ca == now_millis,
        None => false,
    }
}

/// Whether a count of matching players means the wallet is registered.
pub fn wallet_registered(count: u64) -> (b: bool)
    ensures
        b == (count > 0),
{
    count > 0
}

/// The id shown for a player: its hex object id, or empty when it has none.
pub fn player_id_text(object_id_hex: Option<String>) -> (id: String)
    ensures
        id@ == match opt_view(object_id_hex) {
            Some(h) => h,
            None => Seq::<char>::empty(),
        },
{
    match object_id_hex {
        Some(h) => h,
        None => String::new(),
    }
}

pub open spec fn empty_game_message() -> Seq<char> {
    "game_identification cannot be empty"@
}

/// `metadata.gameAssets.`
pub open spec fn game_assets_prefix() -> Seq<char> {
    "metadata.gameAssets."@
}

/// The metadata keys of a purchased asset: the owned item ids and the
/// purchases of the trimmed game identification.
pub fn purchased_asset_keys(game_identification: &str) -> (r: Result<(String, String), String>)
    ensures
        ({
            let g = trim(game_identification@);
            match r {
                Ok(keys) => g.len() > 0 && keys.0@ == game_assets_prefix() + g + ".ownedItemIds"@
                    && keys.1@ == game_assets_prefix() + g + ".purchases"@,
                Err(e) => g.len() == 0 && e@ == empty_game_message(),
            }
        }),
{
    let game_key = trim_str(game_identification);
    if game_key.unicode_len() == 0 {
        return Err(String::from_str("game_identification cannot be empty"));
    }
    let mut owned = String::from_str("metadata.gameAssets.");
    owned.append(game_key);
    owned.append(".ownedItemIds");
    let mut purchases = String::from_str("metadata.gameAssets.");
    purchases.append(game_key);
    purchases.append(".purchases");
    Ok((owned, purchases))
}

/// The stored quantity of a purchase: the quantity as an `i32`, or 1 when it
/// does not fit.
pub fn purchase_quantity(quantity: u32) -> (q: i32)
    ensures
        q == if quantity <= 0x7fff_ffff {
            quantity as i32
        } else {
            1i32
        },
{
    if quantity <= 0x7fff_ffff {
        quantity as i32
    } else {
        1
    }
}

/// The transaction hash recorded with a purchase: kept unless blank.
pub fn purchase_tx_hash(tx_hash: Option<&str>) -> (r: Option<&str>)
    ensures
        match tx_hash {
            Some(h) => if trim(h@).len() == 0 {
                r is None
            } else {
                r == Some(h)
            },
            None => r is None,
        },
{
    match tx_hash {
        Some(h) => {
            if trim_str(h).unicode_len() == 0 {
                None
            } else {
                Some(h)
            }
        },
        None => None,
    }
}

pub open spec fn player_not_found_message() -> Seq<char> {
    "Player not found"@
}

/// The outcome of looking a player up: a storage error is internal, a
/// missing player is not found.
pub fn player_lookup<T>(found: Result<Option<T>, String>) -> (r: Result<T, AppError>)
    ensures
        match found {
            Ok(Some(p)) => r == Ok::<T, AppError>(p),
            Ok(None) => r matches Err(e) && e matches AppError::NotFound(m) && m@
                == player_not_found_message(),
            Err(msg) => r matches Err(e) && is_internal(e, msg@),
        },
{
    match found {
        Ok(Some(p)) => Ok(p),
        Ok(None) => Err(AppError::NotFound(String::from_str("Player not found"))),
        Err(msg) => Err(AppError::Internal(msg)),
    }
}

/// A storage error is answered as an internal error.
pub fn internal_on_error<T>(r: Result<T, String>) -> (out: Result<T, AppError>)
    ensures
        match r {
            Ok(v) => out == Ok::<T, AppError>(v),
            Err(msg) => out matches Err(e) && is_internal(e, msg@),
        },
{
    match r {
        Ok(v) => Ok(v),
        Err(msg) => Err(AppError::Internal(msg)),
    }
}

/// The nonce response once the nonce is stored for the wallet.
pub fn nonce_response(stored: Result<(), String>, nonce: String) -> (r: Result<NonceResponse, AppError>)
    ensures
        match stored {
            Ok(()) => r matches Ok(resp) && resp.nonce@ == nonce@,
            Err(msg) => r matches Err(e) && is_internal(e, msg@),
        },
{
    match stored {
        Ok(()) => Ok(NonceResponse { nonce }),
        Err(msg) => Err(AppError::Internal(msg)),
    }
}

/// The response to a name update: the stored name of the updated player.
pub fn update_name_response(updated_name: Result<Option<String>, String>) -> (r: Result<
    UpdateNameResponse,
    AppError,
>)
    ensures
        match updated_name {
            Ok(Some(n)) => r matches Ok(resp) && resp.name@ == n@,
            Ok(None) => r matches Err(e) && e matches AppError::NotFound(m) && m@
                == player_not_found_message(),
            Err(msg) => r matches Err(e) && is_internal(e, msg@),
        },
{
    let name = player_lookup(updated_name)?;
    Ok(UpdateNameResponse { name })
}

/// The number of games played shown in a profile: the count of game
/// scores converted to `u32` as `as` converts.
pub fn games_played(score_count: usize) -> (n: u32)
    ensures
        n == score_count as u32,
{
    score_count as u32
}

/// The fields of a player profile apart from its scores: the trimmed
/// wallet, the player's name, the global rank and level, KULT points, the
/// number of games with a score, no KULT points rank and no completed
/// quests yet.
pub struct ProfileStats {
    pub wallet_address: String,
    pub username: String,
    pub rank: Option<u32>,
    pub kult_points: i64,
    pub kult_points_rank: Option<u32>,
    pub level: u32,
    pub total_games_played: u32,
    pub completed_quests: u32,
}

/// The profile fields of a player of the wallet and name, with the stored
/// KULT points, the global leaderboard entry `(rank, level)` and the number
/// of games it has a score in.
pub open spec fn is_profile_stats(
    wallet_address: Seq<char>,
    username: Seq<char>,
    kult_points: Option<i64>,
    entry: Option<(u32, u32)>,
    scored_games: usize,
    p: ProfileStats,
) -> bool {
    &&& p.wallet_address@ == trim(wallet_address)
    &&& p.username@ == username
    &&& (p.rank, p.level) == match entry {
        Some(e) => (Some(e.0), e.1),
        None => (None::<u32>, 1u32),
    }
    &&& p.kult_points == match kult_points {
        Some(k) => k,
        None => 0,
    }
    &&& p.kult_points_rank is None
    &&& p.total_games_played == scored_games as u32
    &&& p.completed_quests == 0
}

/// The profile fields of a player from its stored record, its global
/// leaderboard entry `(rank, level)` and the number of games it has a score in.
pub fn profile_stats(
    wallet_address: &str,
    username: String,
    kult_points: Option<i64>,
    entry: Option<(u32, u32)>,
    scored_games: usize,
) -> (p: ProfileStats)
    ensures
        is_profile_stats(wallet_address@, username@, kult_points, entry, scored_games, p),
{
    let (rank, level) = profile_rank_and_level(entry);
    ProfileStats {
        wallet_address: String::from_str(trim_str(wallet_address)),
        username,
        rank,
        kult_points: profile_kult_points(kult_points),
        kult_points_rank: None,
        level,
        total_games_played: games_played(scored_games),
        completed_quests: 0,
    }
}

} // verus!
