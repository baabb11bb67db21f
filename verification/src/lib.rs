//! Membership verification core: a state machine that decides whether a local
//! user has proven paid membership of an external channel, plus the role
//! reconciliation, over-pairing guard and scheduling policy built on top of it.
//!
//! The store of bindings is modelled in memory; the external checker, the
//! page fetch and the chat service are driven by the application around this
//! library, which hands their results in as plain values.

pub mod checker;
pub mod config;
pub mod limiter;
pub mod resolver;
pub mod roles;
pub mod status;
pub mod store;
pub mod text;
pub mod url_parse;
pub mod util;
pub mod verification;
