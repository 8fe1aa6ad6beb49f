//! Privy identity tokens: choosing the verification key, checking the
//! audience and issuer, and finding a linked TON wallet.

use jsonwebtoken::DecodingKey;
use vstd::prelude::*;
use vstd::string::*;

use crate::config::{opt_view, AuthConfig};
use crate::json::{
    get_member, has_member, json_get, json_str_member, parse_json, spec_parse_json, str_member, JsonValue,
};
use crate::numeric::{parse_u64, parse_u64_spec};
use crate::text::{str_equal, trim, trim_str};

verus! {

broadcast use vstd::seq::group_seq_axioms;

#[verifier::external_type_specification]
#[verifier::external_body]
pub struct ExDecodingKey(DecodingKey);

/// The header of a token as `jsonwebtoken::decode_header` reads it: the
/// name of its `alg` and its `kid`, if any; `None` when the header cannot
/// be read.
pub uninterp spec fn spec_token_header(token: Seq<char>) -> Option<(Seq<char>, Option<Seq<char>>)>;

/// Calls `jsonwebtoken::decode_header` and takes the header's `kid`.
/// Trusted: the outcome is the named header reading of the token; the error
/// is shown as its message.
#[verifier::external_body]
fn token_header_kid(token: &str) -> (r: Result<Option<String>, String>)
    ensures
        r is Ok <==> spec_token_header(token@) is Some,
        r matches Ok(kid) ==> (spec_token_header(token@) matches Some(h) && h.1 == opt_view(kid)),
{
    match jsonwebtoken::decode_header(token) {
        Ok(header) => Ok(header.kid),
        Err(e) => Err(e.to_string()),
    }
}

/// Whether `DecodingKey::from_ec_pem` accepts the bytes of the text: a PEM
/// document holding an EC public key.
pub uninterp spec fn spec_ec_pem_ok(pem: Seq<char>) -> bool;

/// Calls `DecodingKey::from_ec_pem` on the bytes of the text; the error is
/// shown as its message. Trusted: success is the named acceptance of the
/// text; the key itself is not stated.
#[verifier::external_body]
fn ec_pem_decoding_key(pem: &str) -> (r: Result<DecodingKey, String>)
    ensures
        r is Ok <==> spec_ec_pem_ok(pem@),
{
    DecodingKey::from_ec_pem(pem.as_bytes()).map_err(|e| e.to_string())
}

/// Whether `serde_json::from_value::<JwkSet>` accepts the JSON the text
/// parses to.
pub uninterp spec fn spec_jwk_set_ok(text: Seq<char>) -> bool;

/// Whether `serde_json::from_value::<Jwk>` accepts a JSON value.
pub uninterp spec fn spec_jwk_value_ok(jwk: JsonValue) -> bool;

/// Whether `DecodingKey::from_jwk` accepts the JWK that a JSON value
/// deserialises to.
pub uninterp spec fn spec_jwk_key_ok(jwk: JsonValue) -> bool;

/// The members of the `keys` array of a JSON value.
pub open spec fn jwk_set_items(v: JsonValue) -> Seq<JsonValue> {
    match json_get(v, "keys"@) {
        Some(JsonValue::Array(items)) => items@,
        _ => Seq::empty(),
    }
}

/// Calls `serde_json::from_value::<JwkSet>` on the value that
/// `serde_json::from_str` parses from the text; the error is shown as its
/// message. Trusted: success is the named acceptance of the text, and then
/// every member of its `keys` array deserialises as a `Jwk` (the set's
/// `keys: Vec<Jwk>`).
#[verifier::external_body]
fn jwk_set_accepted(text: &str) -> (r: Result<(), String>)
    ensures
        r is Ok <==> spec_jwk_set_ok(text@),
        r is Ok ==> (spec_parse_json(text@) matches Some(v) && forall|i: int|
            0 <= i < jwk_set_items(v).len() ==> spec_jwk_value_ok(#[trigger] jwk_set_items(v)[i])),
{
    serde_json::from_str::<serde_json::Value>(text).and_then(
        serde_json::from_value::<jsonwebtoken::jwk::JwkSet>,
    ).map(|_| ()).map_err(|e| e.to_string())
}

/// Which step of making a key from a JWK failed.
pub enum JwkKeyError {
    /// The value is not a JWK.
    Parse(String),
    /// The JWK does not give a decoding key.
    Key(String),
}

/// Calls `DecodingKey::from_jwk` on the `Jwk` that
/// `serde_json::from_value` reads from the value; the errors are shown as
/// their messages. Trusted: the value is read as a JWK exactly when the
/// named acceptance holds, and a key results exactly when both names hold.
#[verifier::external_body]
fn decoding_key_from_jwk_value(jwk: &JsonValue) -> (r: Result<DecodingKey, JwkKeyError>)
    ensures
        r matches Err(e) ==> (e is Parse <==> !spec_jwk_value_ok(*jwk)),
        r is Ok <==> (spec_jwk_value_ok(*jwk) && spec_jwk_key_ok(*jwk)),
{
    let jwk = serde_json::from_value::<jsonwebtoken::jwk::Jwk>(crate::json::json_to_serde(jwk)).map_err(
        |e| JwkKeyError::Parse(e.to_string()),
    )?;
    DecodingKey::from_jwk(&jwk).map_err(|e| JwkKeyError::Key(e.to_string()))
}

/// The index of the first key whose `kid` is `kid`, from `i` on, or -1:
/// the key that `JwkSet::find` returns.
pub open spec fn kid_index_from(items: Seq<JsonValue>, kid: Seq<char>, i: int) -> int
    decreases items.len() - i,
{
    if i < 0 || i >= items.len() {
        -1
    } else if json_str_member(items[i], "kid"@) == Some(kid) {
        i
    } else {
        kid_index_from(items, kid, i + 1)
    }
}

proof fn lemma_kid_index_range(items: Seq<JsonValue>, kid: Seq<char>, i: int)
    ensures
        kid_index_from(items, kid, i) == -1 || (i <= kid_index_from(items, kid, i) < items.len()),
    decreases items.len() - i,
{
    if 0 <= i < items.len() {
        lemma_kid_index_range(items, kid, i + 1);
    }
}

/// `s` begins with `prefix`.
pub open spec fn has_prefix(s: Seq<char>, prefix: Seq<char>) -> bool {
    prefix.len() <= s.len() && s.subrange(0, prefix.len() as int) == prefix
}

fn prefixed(prefix: &str, detail: String) -> (s: String)
    ensures
        s@ == prefix@ + detail@,
        has_prefix(s@, prefix@),
{
    let mut s = String::from_str(prefix);
    s.append(detail.as_str());
    proof {
        assert(s@.subrange(0, prefix@.len() as int) =~= prefix@);
    }
    s
}

/// What building a key from a JWK configuration yields. A set, recognised
/// by its `keys` member, must parse as a `JwkSet` and hold a key with the
/// token's `kid`; the first such key is used. Any other JSON is used as a
/// single JWK.
pub open spec fn jwk_key_outcome(token: Seq<char>, jwk_json: Seq<char>, r: Result<DecodingKey, String>) -> bool {
    match spec_parse_json(jwk_json) {
        None => r matches Err(e) && has_prefix(e@, "Invalid PRIVY_VERIFICATION_KEY_JWK JSON: "@),
        Some(v) => if json_get(v, "keys"@) is Some {
            match spec_token_header(token) {
                None => r matches Err(e) && has_prefix(e@, "Invalid Privy identity token header: "@),
                Some((_, None)) => r matches Err(e) && e@ == "Privy identity token is missing kid"@,
                Some((_, Some(kid))) => if !spec_jwk_set_ok(jwk_json) {
                    r matches Err(e) && has_prefix(e@, "Invalid JWK set: "@)
                } else if kid_index_from(jwk_set_items(v), kid, 0) < 0 {
                    r matches Err(e) && e@ == "No Privy JWK found for kid "@ + kid
                } else {
                    &&& (r is Ok <==> spec_jwk_key_ok(
                        jwk_set_items(v)[kid_index_from(jwk_set_items(v), kid, 0)],
                    ))
                    &&& (r matches Err(e) ==> has_prefix(e@, "Invalid Privy JWK: "@))
                },
            }
        } else if !spec_jwk_value_ok(v) {
            r matches Err(e) && has_prefix(e@, "Invalid JWK: "@)
        } else {
            &&& (r is Ok <==> spec_jwk_key_ok(v))
            &&& (r matches Err(e) ==> has_prefix(e@, "Invalid Privy JWK: "@))
        },
    }
}

/// The key of a set whose `kid` is `kid`: the first such member of `keys`.
fn find_key_with_kid<'a>(value: &'a JsonValue, kid: &str) -> (r: Option<&'a JsonValue>)
    ensures
        match r {
            Some(k) => kid_index_from(jwk_set_items(*value), kid@, 0) >= 0 && *k == jwk_set_items(
                *value,
            )[kid_index_from(jwk_set_items(*value), kid@, 0)],
            None => kid_index_from(jwk_set_items(*value), kid@, 0) < 0,
        },
{
    let items = match get_member(value, "keys") {
        Some(JsonValue::Array(items)) => items,
        _ => {
            return None;
        },
    };
    let ghost s = jwk_set_items(*value);
    assert(s == items@);
    let mut i: usize = 0;
    while i < items.len()
        invariant
            i <= items@.len(),
            s == items@,
            s == jwk_set_items(*value),
            kid_index_from(s, kid@, 0) == kid_index_from(s, kid@, i as int),
        decreases items@.len() - i,
    {
        let hit = match str_member(&items[i], "kid") {
            Some(k) => str_equal(k.as_str(), kid),
            None => false,
        };
        if hit {
            let item = &items[i];
            proof {
                assert(*item == s[i as int]);
                assert(json_str_member(s[i as int], "kid"@) == Some(kid@));
                assert(kid_index_from(s, kid@, i as int) == i);
                assert(kid_index_from(s, kid@, 0) == i);
            }
            return Some(item);
        }
        i = i + 1;
    }
    None
}

/// The decoding key for a token from a JWK (or JWK set) in JSON: a set,
/// recognised by its `keys` member, is searched for the token's `kid`.
pub fn decoding_key_from_jwk_json(identity_token: &str, jwk_json: &str) -> (r: Result<
    DecodingKey,
    String,
>)
    ensures
        jwk_key_outcome(identity_token@, jwk_json@, r),
{
    let value = match parse_json(jwk_json) {
        Ok(v) => v,
        Err(e) => {
            return Err(prefixed("Invalid PRIVY_VERIFICATION_KEY_JWK JSON: ", e));
        },
    };
    let jwk = if has_member(&value, "keys") {
        let kid = match token_header_kid(identity_token) {
            Ok(k) => k,
            Err(e) => {
                return Err(prefixed("Invalid Privy identity token header: ", e));
            },
        };
        let key_id = match kid {
            Some(k) => k,
            None => {
                return Err(String::from_str("Privy identity token is missing kid"));
            },
        };
        match jwk_set_accepted(jwk_json) {
            Ok(()) => {},
            Err(e) => {
                return Err(prefixed("Invalid JWK set: ", e));
            },
        }
        match find_key_with_kid(&value, key_id.as_str()) {
            Some(j) => {
                proof {
                    lemma_kid_index_range(jwk_set_items(value), key_id@, 0);
                }
                j
            },
            None => {
                return Err(prefixed("No Privy JWK found for kid ", key_id));
            },
        }
    } else {
        &value
    };
    match decoding_key_from_jwk_value(jwk) {
        Ok(k) => Ok(k),
        Err(JwkKeyError::Parse(e)) => Err(prefixed("Invalid JWK: ", e)),
        Err(JwkKeyError::Key(e)) => Err(prefixed("Invalid Privy JWK: ", e)),
    }
}

/// What choosing the key for a token yields under a configuration: the
/// configured JWK if any, else the configured PEM, else an error.
pub open spec fn decoding_key_outcome(config: AuthConfig, token: Seq<char>, r: Result<DecodingKey, String>) -> bool {
    match opt_view(config.privy_verification_key_jwk) {
        Some(jwk) => jwk_key_outcome(token, jwk, r),
        None => match opt_view(config.privy_verification_key_pem) {
            Some(pem) => (r is Ok <==> spec_ec_pem_ok(pem)) && (r matches Err(e) ==> has_prefix(
                e@,
                "Invalid PRIVY_VERIFICATION_KEY_PEM: "@,
            )),
            None => r matches Err(e) && e@ == "Set PRIVY_VERIFICATION_KEY_JWK or PRIVY_VERIFICATION_KEY_PEM"@,
        },
    }
}

/// The decoding key for a Privy identity token: from the configured JWK if
/// any, else from the configured PEM, else an error.
pub fn decoding_key_for_token(config: &AuthConfig, identity_token: &str) -> (r: Result<
    DecodingKey,
    String,
>)
    ensures
        decoding_key_outcome(*config, identity_token@, r),
{
    if let Some(jwk_json) = &config.privy_verification_key_jwk {
        return decoding_key_from_jwk_json(identity_token, jwk_json.as_str());
    }
    if let Some(pem) = &config.privy_verification_key_pem {
        return match ec_pem_decoding_key(pem.as_str()) {
            Ok(k) => Ok(k),
            Err(e) => Err(prefixed("Invalid PRIVY_VERIFICATION_KEY_PEM: ", e)),
        };
    }
    Err(String::from_str("Set PRIVY_VERIFICATION_KEY_JWK or PRIVY_VERIFICATION_KEY_PEM"))
}

/// The Privy app id that identity tokens must name as their audience.
pub fn privy_app_id(config: &AuthConfig) -> (r: Result<String, String>)
    ensures
        match opt_view(config.privy_app_id) {
            Some(id) => r matches Ok(a) && a@ == id,
            None => r matches Err(e) && e@ == "PRIVY_APP_ID is not configured"@,
        },
{
    match &config.privy_app_id {
        Some(id) => Ok(id.clone()),
        None => Err(String::from_str("PRIVY_APP_ID is not configured")),
    }
}

/// A decoded token's audience must be the app id.
pub fn check_privy_audience(aud: &str, app_id: &str) -> (r: Result<(), String>)
    ensures
        r is Ok <==> aud@ == app_id@,
        r matches Err(e) ==> e@ == "Privy identity token has an invalid audience"@,
{
    if str_equal(aud, app_id) {
        Ok(())
    } else {
        Err(String::from_str("Privy identity token has an invalid audience"))
    }
}

/// The text, or empty text when absent.
pub open spec fn or_empty(o: Option<Seq<char>>) -> Seq<char> {
    match o {
        Some(s) => s,
        None => Seq::empty(),
    }
}

/// A linked account that is a TON wallet with the given address: its
/// `type` is `wallet`, its `chainType` (else `chain_type`) is `ton`, and
/// its `address` is the address.
pub open spec fn is_linked_ton_wallet(account: JsonValue, address: Seq<char>) -> bool {
    let chain = match json_str_member(account, "chainType"@) {
        Some(c) => c,
        None => or_empty(json_str_member(account, "chain_type"@)),
    };
    &&& or_empty(json_str_member(account, "type"@)) == "wallet"@
    &&& chain == "ton"@
    &&& or_empty(json_str_member(account, "address"@)) == address
}

fn member_or_empty(v: &JsonValue, key: &str) -> (s: String)
    ensures
        s@ == or_empty(json_str_member(*v, key@)),
{
    match str_member(v, key) {
        Some(s) => s,
        None => String::new(),
    }
}

fn linked_ton_wallet(account: &JsonValue, address: &str) -> (b: bool)
    ensures
        b == is_linked_ton_wallet(*account, address@),
{
    let chain = match str_member(account, "chainType") {
        Some(c) => c,
        None => member_or_empty(account, "chain_type"),
    };
    let kind = member_or_empty(account, "type");
    let addr = member_or_empty(account, "address");
    str_equal(kind.as_str(), "wallet") && str_equal(chain.as_str(), "ton") && str_equal(
        addr.as_str(),
        address,
    )
}

pub open spec fn invalid_issuer_message() -> Seq<char> {
    "Privy identity token has an invalid issuer"@
}

pub open spec fn missing_linked_accounts_message() -> Seq<char> {
    "Privy identity token is missing linked_accounts"@
}

pub open spec fn linked_accounts_not_array_message() -> Seq<char> {
    "Privy linked_accounts claim is not an array"@
}

pub open spec fn wallet_not_linked_message() -> Seq<char> {
    "TON wallet is not linked to the verified Privy user"@
}

/// What checking the issuer and the linked accounts of verified claims
/// yields: the issuer must be `privy.io`, and the `linked_accounts` claim, a
/// JSON array, must hold a TON wallet whose address is the trimmed address.
pub open spec fn ton_wallet_outcome(
    iss: Seq<char>,
    linked_accounts: Option<Seq<char>>,
    wallet_address: Seq<char>,
    r: Result<(), String>,
) -> bool {
    if iss != "privy.io"@ {
        r matches Err(e) && e@ == invalid_issuer_message()
    } else {
        match linked_accounts {
            None => r matches Err(e) && e@ == missing_linked_accounts_message(),
            Some(raw) => match spec_parse_json(raw) {
                None => r matches Err(e) && has_prefix(e@, "Invalid linked_accounts claim: "@),
                Some(JsonValue::Array(items)) => if exists|i: int|
                    0 <= i < items@.len() && is_linked_ton_wallet(
                        #[trigger] items@[i],
                        trim(wallet_address),
                    ) {
                    r is Ok
                } else {
                    r matches Err(e) && e@ == wallet_not_linked_message()
                },
                Some(_) => r matches Err(e) && e@ == linked_accounts_not_array_message(),
            },
        }
    }
}

pub open spec fn str_opt_view(o: Option<&str>) -> Option<Seq<char>> {
    match o {
        Some(s) => Some(s@),
        None => None,
    }
}

/// Checks the claims of a verified Privy identity token: the issuer is
/// `privy.io`, and its `linked_accounts` claim, a JSON array, holds a TON
/// wallet whose address is the trimmed requested address.
pub fn check_privy_ton_wallet(iss: &str, linked_accounts: Option<&str>, wallet_address: &str) -> (r: Result<
    (),
    String,
>)
    ensures
        ton_wallet_outcome(iss@, str_opt_view(linked_accounts), wallet_address@, r),
{
    if !str_equal(iss, "privy.io") {
        return Err(String::from_str("Privy identity token has an invalid issuer"));
    }
    let raw = match linked_accounts {
        Some(raw) => raw,
        None => {
            return Err(String::from_str("Privy identity token is missing linked_accounts"));
        },
    };
    let parsed = match parse_json(raw) {
        Ok(v) => v,
        Err(e) => {
            return Err(prefixed("Invalid linked_accounts claim: ", e));
        },
    };
    let accounts = match &parsed {
        JsonValue::Array(items) => items,
        _ => {
            return Err(String::from_str("Privy linked_accounts claim is not an array"));
        },
    };
    let requested = trim_str(wallet_address);
    let mut i: usize = 0;
    while i < accounts.len()
        invariant
            i <= accounts@.len(),
            iss@ == "privy.io"@,
            linked_accounts == Some(raw),
            spec_parse_json(raw@) == Some(parsed),
            parsed == JsonValue::Array(*accounts),
            requested@ == trim(wallet_address@),
            forall|j: int| 0 <= j < i ==> !is_linked_ton_wallet(#[trigger] accounts@[j], requested@),
        decreases accounts@.len() - i,
    {
        if linked_ton_wallet(&accounts[i], requested) {
            proof {
                assert(is_linked_ton_wallet(accounts@[i as int], trim(wallet_address@)));
                match spec_parse_json(raw@) {
                    Some(JsonValue::Array(items)) => {
                        assert(items@ == accounts@);
                        assert(is_linked_ton_wallet(items@[i as int], trim(wallet_address@)));
                    },
                    _ => {},
                }
            }
            return Ok(());
        }
        i = i + 1;
    }
    Err(String::from_str("TON wallet is not linked to the verified Privy user"))
}


/// The payload of a JWT: the JSON its claims segment decodes to, or `None`
/// when it does not decode.
pub uninterp spec fn spec_jwt_claims(token: Seq<char>) -> Option<JsonValue>;

/// Claims that `jsonwebtoken::decode` returns under a `Validation` for the
/// algorithm, audience and issuer: the token's payload; its header names the
/// algorithm; a string `iss` is the issuer and a string `aud` the audience;
/// `exp`, which `Validation::new` requires, is a number.
pub open spec fn jwt_validated(token: Seq<char>, c: JsonValue, algorithm: Seq<char>, audience: Seq<char>, issuer: Seq<char>) -> bool {
    &&& spec_jwt_claims(token) == Some(c)
    &&& spec_token_header(token) matches Some(h) && h.0 == algorithm
    &&& (json_get(c, "iss"@) matches Some(JsonValue::Str(s)) ==> s@ == issuer)
    &&& (json_get(c, "aud"@) matches Some(JsonValue::Str(s)) ==> s@ == audience)
    &&& json_get(c, "exp"@) matches Some(JsonValue::Number(_))
}

/// Calls `jsonwebtoken::decode::<serde_json::Value>` with a `Validation` for
/// the named algorithm, audience and issuer (expiry checked against the
/// clock, as `Validation::new` sets). Trusted: decoded claims are the
/// token's payload and passed the checks that `jwt_validated` lists (the
/// header's algorithm, `iss`, `aud`, a present `exp`); whether decoding
/// succeeds depends on the key, the signature and the time and is not
/// stated.
#[verifier::external_body]
fn decode_jwt_claims(token: &str, key: &DecodingKey, algorithm: &str, audience: &str, issuer: &str) -> (r: Result<
    JsonValue,
    String,
>)
    ensures
        r matches Ok(c) ==> spec_jwt_claims(token@) == Some(c),
        r matches Ok(c) ==> jwt_validated(token@, c, algorithm@, audience@, issuer@),
{
    let algorithm = algorithm.parse::<jsonwebtoken::Algorithm>().map_err(|e| e.to_string())?;
    let mut validation = jsonwebtoken::Validation::new(algorithm);
    validation.set_audience(&[audience]);
    validation.set_issuer(&[issuer]);
    match jsonwebtoken::decode::<serde_json::Value>(token, key, &validation) {
        Ok(data) => Ok(crate::json::json_from_serde(data.claims)),
        Err(e) => Err(e.to_string()),
    }
}

/// A JSON number that a `usize` field accepts: an unsigned integer within
/// range.
pub open spec fn is_usize_number(v: JsonValue) -> bool {
    v matches JsonValue::Number(n) && (parse_u64_spec(vstd::utf8::encode_utf8(n@)) matches Some(x)
        && x <= usize::MAX)
}

/// An `Option<String>` field: absent, null or a string.
pub open spec fn optional_str_field(v: Option<JsonValue>) -> bool {
    match v {
        None => true,
        Some(JsonValue::Null) => true,
        Some(JsonValue::Str(_)) => true,
        _ => false,
    }
}

/// An `Option<usize>` field: absent, null or an unsigned integer in range.
pub open spec fn optional_usize_field(v: Option<JsonValue>) -> bool {
    match v {
        None => true,
        Some(JsonValue::Null) => true,
        Some(n) => is_usize_number(n),
    }
}

/// The issuer, audience and linked accounts of Privy identity claims that
/// have the claim types the token must carry: `sub`, `iss` and `aud`
/// strings, an optional `linked_accounts` string, an unsigned `exp` and an
/// optional unsigned `iat`.
pub open spec fn privy_claim_fields(c: JsonValue) -> Option<(Seq<char>, Seq<char>, Option<Seq<char>>)> {
    if json_str_member(c, "sub"@) is Some && json_str_member(c, "iss"@) is Some && json_str_member(
        c,
        "aud"@,
    ) is Some && optional_str_field(json_get(c, "linked_accounts"@)) && (json_get(c, "exp"@) matches Some(
        e,
    ) && is_usize_number(e)) && optional_usize_field(json_get(c, "iat"@)) {
        Some(
            (
                json_str_member(c, "iss"@).unwrap(),
                json_str_member(c, "aud"@).unwrap(),
                json_str_member(c, "linked_accounts"@),
            ),
        )
    } else {
        None
    }
}

/// An issue time is accepted wherever an expiry is: claims whose `iat` is
/// the very value of their `exp` have the expected types exactly when their
/// `sub`, `iss` and `aud` are strings, their `linked_accounts` is absent,
/// null or a string, and their `exp` is an unsigned integer in range.
pub proof fn law_iat_accepts_what_exp_accepts(c: JsonValue)
    requires
        json_get(c, "iat"@) == json_get(c, "exp"@),
    ensures
        privy_claim_fields(c) is Some <==> {
            &&& json_str_member(c, "sub"@) is Some
            &&& json_str_member(c, "iss"@) is Some
            &&& json_str_member(c, "aud"@) is Some
            &&& optional_str_field(json_get(c, "linked_accounts"@))
            &&& json_get(c, "exp"@) matches Some(e) && is_usize_number(e)
        },
{
}

/// Every unsigned integer within `usize` range, written in decimal as JSON
/// writes it, is accepted as an `exp` or an `iat`.
pub proof fn law_decimal_integers_are_claim_times(text: String, v: u64)
    requires
        v <= usize::MAX,
        text@ == crate::text::ascii_chars(crate::numeric::decimal_digits(v as nat)),
    ensures
        is_usize_number(JsonValue::Number(text)),
        optional_usize_field(Some(JsonValue::Number(text))),
{
    let d = crate::numeric::decimal_digits(v as nat);
    crate::numeric::law_u64_decimal_parses_back(v);
    assert(crate::text::all_ascii(d)) by {
        assert forall|i: int| 0 <= i < d.len() implies #[trigger] d[i] < 128 by {
            assert(crate::numeric::is_digit(d[i]));
        }
    }
    crate::text::lemma_ascii_decode(d);
}

pub open spec fn invalid_claims_message() -> Seq<char> {
    "Invalid Privy identity token: claims do not have the expected types"@
}

/// What checking the decoded claims of a Privy identity token yields.
pub open spec fn claims_outcome(c: JsonValue, app_id: Seq<char>, wallet_address: Seq<char>, r: Result<(), String>) -> bool {
    match privy_claim_fields(c) {
        None => r matches Err(e) && e@ == invalid_claims_message(),
        Some((iss, aud, linked)) => if aud != app_id {
            r matches Err(e) && e@ == "Privy identity token has an invalid audience"@
        } else {
            ton_wallet_outcome(iss, linked, wallet_address, r)
        },
    }
}

/// Claims that prove the wallet: the expected claim types, the app id as
/// audience, `privy.io` as issuer, and the wallet among the linked TON
/// wallets.
pub open spec fn claims_accepted(c: JsonValue, app_id: Seq<char>, wallet_address: Seq<char>) -> bool {
    match privy_claim_fields(c) {
        None => false,
        Some((iss, aud, linked)) => {
            &&& aud == app_id
            &&& iss == "privy.io"@
            &&& linked matches Some(raw)
            &&& spec_parse_json(raw) matches Some(JsonValue::Array(items))
            &&& exists|i: int|
                0 <= i < items@.len() && is_linked_ton_wallet(#[trigger] items@[i], trim(wallet_address))
        },
    }
}

proof fn lemma_claims_outcome_ok(c: JsonValue, app_id: Seq<char>, wallet_address: Seq<char>, r: Result<(), String>)
    requires
        claims_outcome(c, app_id, wallet_address, r),
    ensures
        r is Ok <==> claims_accepted(c, app_id, wallet_address),
{
}

fn optional_str_ok(v: Option<&JsonValue>) -> (b: bool)
    ensures
        b == optional_str_field(match v {
            Some(x) => Some(*x),
            None => None,
        }),
{
    match v {
        None => true,
        Some(JsonValue::Null) => true,
        Some(JsonValue::Str(_)) => true,
        _ => false,
    }
}

fn usize_number(v: &JsonValue) -> (b: bool)
    ensures
        b == is_usize_number(*v),
{
    match v {
        JsonValue::Number(n) => match parse_u64(n.as_str().as_bytes()) {
            Some(x) => x <= usize::MAX as u64,
            None => false,
        },
        _ => false,
    }
}

fn optional_usize_ok(v: Option<&JsonValue>) -> (b: bool)
    ensures
        b == optional_usize_field(match v {
            Some(x) => Some(*x),
            None => None,
        }),
{
    match v {
        None => true,
        Some(JsonValue::Null) => true,
        Some(n) => usize_number(n),
    }
}

/// Checks decoded Privy identity claims: their types, the audience, the
/// issuer and the linked TON wallet.
pub fn check_privy_claims(claims: &JsonValue, app_id: &str, wallet_address: &str) -> (r: Result<(), String>)
    ensures
        claims_outcome(*claims, app_id@, wallet_address@, r),
{
    let sub = str_member(claims, "sub");
    let iss = str_member(claims, "iss");
    let aud = str_member(claims, "aud");
    let exp_ok = match get_member(claims, "exp") {
        Some(e) => usize_number(e),
        None => false,
    };
    let types_ok = sub.is_some() && iss.is_some() && aud.is_some() && optional_str_ok(
        get_member(claims, "linked_accounts"),
    ) && exp_ok && optional_usize_ok(get_member(claims, "iat"));
    if !types_ok {
        return Err(String::from_str("Invalid Privy identity token: claims do not have the expected types"));
    }
    let iss = match iss {
        Some(i) => i,
        None => {
            return Err(String::new());
        },
    };
    let aud = match aud {
        Some(a) => a,
        None => {
            return Err(String::new());
        },
    };
    let linked = str_member(claims, "linked_accounts");
    check_privy_audience(aud.as_str(), app_id)?;
    match &linked {
        Some(l) => check_privy_ton_wallet(iss.as_str(), Some(l.as_str()), wallet_address),
        None => check_privy_ton_wallet(iss.as_str(), None, wallet_address),
    }
}

pub open spec fn missing_app_id_message() -> Seq<char> {
    "PRIVY_APP_ID is not configured"@
}

/// Verifies a Privy identity token and that it links the TON wallet: the
/// app id must be configured, the key is chosen as configured, the token
/// must decode as an ES256 JWT for the app id issued by `privy.io` and not
/// expired, and its claims must pass [`check_privy_claims`].
pub fn verify_privy_ton_wallet(config: &AuthConfig, identity_token: &str, wallet_address: &str) -> (r: Result<
    (),
    String,
>)
    ensures
        match opt_view(config.privy_app_id) {
            None => r matches Err(e) && e@ == missing_app_id_message(),
            Some(id) => exists|k: Result<DecodingKey, String>|
                #[trigger] decoding_key_outcome(*config, identity_token@, k) && match k {
                    Err(ke) => r matches Err(e) && e@ == ke@,
                    Ok(_) => (r matches Err(e) && has_prefix(e@, "Invalid Privy identity token: "@))
                        || (spec_jwt_claims(identity_token@) matches Some(c) && claims_outcome(
                        c,
                        id,
                        wallet_address@,
                        r,
                    )),
                },
        },
        r is Ok ==> (opt_view(config.privy_app_id) matches Some(id) && spec_jwt_claims(
            identity_token@,
        ) matches Some(c) && jwt_validated(identity_token@, c, "ES256"@, id, "privy.io"@)
            && claims_accepted(c, id, wallet_address@)),
{
    let app_id = privy_app_id(config)?;
    let key = decoding_key_for_token(config, identity_token);
    let ghost k = key;
    let key = match key {
        Ok(key) => key,
        Err(e) => {
            return Err(e);
        },
    };
    let claims = match decode_jwt_claims(identity_token, &key, "ES256", app_id.as_str(), "privy.io") {
        Ok(c) => c,
        Err(e) => {
            let r = Err(prefixed("Invalid Privy identity token: ", e));
            assert(decoding_key_outcome(*config, identity_token@, k));
            return r;
        },
    };
    let r = check_privy_claims(&claims, app_id.as_str(), wallet_address);
    proof {
        lemma_claims_outcome_ok(claims, app_id@, wallet_address@, r);
        assert(decoding_key_outcome(*config, identity_token@, k));
    }
    r
}

} // verus!
