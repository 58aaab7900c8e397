//! HOPCHAT: a peer-to-peer encrypted LAN messenger, verified core.

pub mod text;
pub mod username;
pub mod protocol;
pub mod hexcodec;
pub mod crypto;
pub mod identity;
pub mod rate_limit;
pub mod caches;
pub mod names;
pub mod peers;
pub mod messages;
pub mod history;
pub mod commands;
pub mod ui;
pub mod node;
pub mod retry;
pub mod addressing;
pub mod view;
pub mod layout;
