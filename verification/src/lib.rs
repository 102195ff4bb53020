//! A verified core for a multi-account mail client. The account
//! orchestrator ([`manager`]) accepts commands, drives the per-account
//! session bookkeeping, the time-bounded result cache ([`cache`]), the
//! account registry, and the secret store façade ([`credentials`]), and
//! emits events for the front end to drain. Header parsing, folder icons,
//! and message-id selection live in [`protocol`]; the client's top-level
//! state in [`client`]; the input, search, composer, and settings state
//! machines in their own modules.
pub mod cache;
pub mod client;
pub mod composer;
pub mod confirm;
pub mod credentials;
pub mod keyboard;
pub mod layout;
pub mod manager;
pub mod protocol;
pub mod search;
pub mod settings;
pub mod strutil;
pub mod types;
pub mod vim;
