//! Which team's roster is asked for.
use vstd::prelude::*;
use vstd::string::StringExecFns;
use crate::decimal::{decimal_digits, parse_decimal, parse_unsigned, to_decimal};

verus! {

/// The team whose roster is given when none is named (the Guardians).
pub const DEFAULT_TEAM_ID: u32 = 114;

/// The team id in a roster request is not an unsigned 32-bit number.
#[derive(Debug, PartialEq, Eq, Structural)]
pub enum RosterError {
    InvalidTeamId,
}

/// Reads the team id of a roster request: the default team when none is
/// given, else the parameter read as an unsigned 32-bit number.
pub fn parse_team_id(param: Option<&str>) -> (r: Result<u32, RosterError>)
    ensures
        param is None ==> r == Ok::<u32, RosterError>(DEFAULT_TEAM_ID),
        param matches Some(s) ==> match parse_unsigned(s@, u32::MAX as nat) {
            Some(n) => (r matches Ok(v) && v as nat == n),
            None => r == Err::<u32, RosterError>(RosterError::InvalidTeamId),
        },
{
    match param {
        None => Ok(DEFAULT_TEAM_ID),
        Some(s) => match parse_decimal(s, u32::MAX as u64) {
            Some(v) => Ok(v as u32),
            None => Err(RosterError::InvalidTeamId),
        },
    }
}


/// The address of a team's active roster in the MLB stats service.
pub fn roster_url(team_id: u32) -> (url: String)
    ensures
        url@ == "https://statsapi.mlb.com/api/v1/teams/"@ + decimal_digits(team_id as nat) + "/roster/active"@,
{
    let mut url = "https://statsapi.mlb.com/api/v1/teams/".to_owned();
    let digits = to_decimal(team_id as u64);
    url.append(digits.as_str());
    url.append("/roster/active");
    url
}

} // verus!
