//! The configuration values the core consumes: the channel and video ids the
//! token commands default to, and the platform session cookie handed to the
//! external calls.

use vstd::prelude::*;

verus! {

/// Configuration of the verification core.
#[derive(Debug)]
pub struct Config {
    /// The video id used when issuing tokens without an explicit target.
    pub token_video: String,
    /// The channel id used when issuing tokens without an explicit target.
    pub token_channel: String,
    /// The platform session cookie attached to external calls.
    pub goojf: String,
}

} // verus!
