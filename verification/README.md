# kult_browser_backend_rust

The verified core of the Kult Games browser backend, written in Verus.

- `src/` is the library. Every function in it is verified against its
  contract:
  - `init_data` and `init_data_laws`: Telegram Mini App `initData` parsing,
    percent-decoding and HMAC-SHA256 verification, with the laws that signed
    data is accepted and forged hashes are refused;
  - `login_flow` and `login_laws`: the SIWE, Privy and Telegram login flows as
    state machines, and the law that a login stores its player only after
    ownership of the wallet is proven;
  - `profile_flow`: the profile request (player, leaderboard entry, game
    scores) as a state machine;
  - `player`, `privy`, `telegram_bot`, `game`, `server`, `config`: the rules
    of the player service, Privy key selection and claim checks, the Telegram
    bot, catalog queries and partial game updates, the HTTP server and
    configuration;
  - `document`: ordered field lists where setting a field replaces it in
    place, used by game patches;
  - `text`, `numeric`, `json`, `crypto`, `clock`: text, number and JSON models,
    and the calls into `hmac`/`sha2`, `serde_json`, `jsonwebtoken` and `chrono`.
- `tests/` runs the library on concrete values.
- `app/` is the unverified glue: environment variables, serde types and
  HTTP calls to the Telegram Bot API.
