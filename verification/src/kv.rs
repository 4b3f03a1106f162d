//! How rooms and rosters are named in the key-value store, and how long they
//! are kept there.
use vstd::prelude::*;
use vstd::string::StringExecFns;
use crate::decimal::{decimal_digits, to_decimal};

verus! {

/// Seconds a room's description and state are kept: four hours.
pub const ROOM_TTL_SECS: u64 = 4 * 60 * 60;

/// Seconds a fetched roster is kept: one hour.
pub const ROSTER_TTL_SECS: u64 = 60 * 60;

/// The key of a room's description: `room:<code>:meta`.
pub fn meta_key(code: &str) -> (k: String)
    ensures
        k@ == "room:"@ + code@ + ":meta"@,
{
    let mut k = "room:".to_owned();
    k.append(code);
    k.append(":meta");
    k
}

/// The key of a room's state: `room:<code>:state`.
pub fn state_key(code: &str) -> (k: String)
    ensures
        k@ == "room:"@ + code@ + ":state"@,
{
    let mut k = "room:".to_owned();
    k.append(code);
    k.append(":state");
    k
}

/// The key of a team's cached roster: `roster:<team id in decimal>`.
pub fn roster_key(team_id: u32) -> (k: String)
    ensures
        k@ == "roster:"@ + decimal_digits(team_id as nat),
{
    let mut k = "roster:".to_owned();
    let digits = to_decimal(team_id as u64);
    k.append(digits.as_str());
    k
}

} // verus!
