//! Run configuration.
//!
//! The watched stash addresses, endpoint, hook paths and feature toggles are
//! supplied by the process environment before start and never change during a
//! run.  The loading itself (command line, environment, dotenv file) happens
//! outside the library; the library receives the finished value.

use vstd::prelude::*;

verus! {

/// Everything a run is configured with.
#[derive(Debug, Clone)]
pub struct Config {
    pub interval: u64,
    pub error_interval: u64,
    pub substrate_ws_url: String,
    pub stashes: Vec<String>,
    pub is_debug: bool,
    pub is_short: bool,
    pub hook_init_path: String,
    pub hook_new_session_path: String,
    pub hook_new_era_path: String,
    pub hook_validator_starts_active_next_era_path: String,
    pub hook_validator_starts_inactive_next_era_path: String,
    pub hook_validator_chilled_path: String,
    pub hook_validator_slashed_path: String,
    pub hook_validator_offline_path: String,
    pub hook_democracy_started_path: String,
    pub matrix_user: String,
    pub matrix_bot_user: String,
    pub matrix_bot_password: String,
    pub matrix_disabled: bool,
    pub matrix_bot_display_name_disabled: bool,
    pub expose_network: bool,
    pub expose_nominators: bool,
    pub expose_authored_blocks: bool,
    pub expose_all_nominators: bool,
    pub expose_para_validator: bool,
    pub expose_era_points: bool,
    pub expose_all: bool,
}

/// Seconds between runs when no interval is configured.
pub fn default_interval() -> (r: u64)
    ensures
        r == 21600,
{
    21600
}

/// Seconds before a restart after a critical error when no interval is
/// configured.
pub fn default_error_interval() -> (r: u64)
    ensures
        r == 30,
{
    30
}

/// The websocket endpoint used when neither a chain nor an endpoint is
/// configured: a node on the local machine.
pub fn default_ws_url() -> (r: String)
    ensures
        r@ == "ws://127.0.0.1:9944"@,
{
    String::from_str("ws://127.0.0.1:9944")
}

impl Config {
    /// A configuration for the given endpoint and watched stashes, with every
    /// interval at its default, every path empty and every toggle off.
    pub fn new(substrate_ws_url: String, stashes: Vec<String>) -> (r: Config)
        ensures
            r.interval == 21600,
            r.error_interval == 30,
            r.substrate_ws_url@ == substrate_ws_url@,
            r.stashes@ == stashes@,
            r.is_debug == false,
            r.is_short == false,
            r.hook_init_path@.len() == 0,
            r.hook_new_session_path@.len() == 0,
            r.hook_new_era_path@.len() == 0,
            r.hook_validator_starts_active_next_era_path@.len() == 0,
            r.hook_validator_starts_inactive_next_era_path@.len() == 0,
            r.hook_validator_chilled_path@.len() == 0,
            r.hook_validator_slashed_path@.len() == 0,
            r.hook_validator_offline_path@.len() == 0,
            r.hook_democracy_started_path@.len() == 0,
            r.matrix_user@.len() == 0,
            r.matrix_bot_user@.len() == 0,
            r.matrix_bot_password@.len() == 0,
            r.matrix_disabled == false,
            r.matrix_bot_display_name_disabled == false,
            r.expose_network == false,
            r.expose_nominators == false,
            r.expose_authored_blocks == false,
            r.expose_all_nominators == false,
            r.expose_para_validator == false,
            r.expose_era_points == false,
            r.expose_all == false,
    {
        Config {
            interval: default_interval(),
            error_interval: default_error_interval(),
            substrate_ws_url,
            stashes,
            is_debug: false,
            is_short: false,
            hook_init_path: String::new(),
            hook_new_session_path: String::new(),
            hook_new_era_path: String::new(),
            hook_validator_starts_active_next_era_path: String::new(),
            hook_validator_starts_inactive_next_era_path: String::new(),
            hook_validator_chilled_path: String::new(),
            hook_validator_slashed_path: String::new(),
            hook_validator_offline_path: String::new(),
            hook_democracy_started_path: String::new(),
            matrix_user: String::new(),
            matrix_bot_user: String::new(),
            matrix_bot_password: String::new(),
            matrix_disabled: false,
            matrix_bot_display_name_disabled: false,
            expose_network: false,
            expose_nominators: false,
            expose_authored_blocks: false,
            expose_all_nominators: false,
            expose_para_validator: false,
            expose_era_points: false,
            expose_all: false,
        }
    }
}

} // verus!
